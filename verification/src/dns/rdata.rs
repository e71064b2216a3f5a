//! Textual form of a record's data, derived on demand per record type.

use vstd::prelude::*;
use vstd::string::StringExecFns;
use vstd::utf8::{decode_utf8, valid_utf8};
use crate::addr::{dotted_bytes, lemma_dotted_ascii, spec_dotted};
use crate::error::FindiError;
use crate::text::{
    all_ascii, ascii_to_string, ascii_view, decimal_bytes, push_range, spec_decimal,
    utf8_to_string,
};
use crate::dns::name::{spec_text_labels, text_labels};
use crate::dns::query::{DnsAnswer, DnsQuestionType};
use crate::dns::wire::{read_be16, spec_be16};

verus! {

/// The lowercase hexadecimal digit of a value below 16.
pub open spec fn spec_hex_digit(d: int) -> u8 {
    if d < 10 {
        (0x30 + d) as u8
    } else {
        (0x57 + d) as u8
    }
}

/// The lowercase hexadecimal digits of `x`, no leading zeros.
pub open spec fn spec_hex16(x: int) -> Seq<u8>
    decreases x,
{
    if x < 16 {
        seq![spec_hex_digit(x)]
    } else {
        spec_hex16(x / 16) + seq![spec_hex_digit(x % 16)]
    }
}

/// Hexadecimal digits are ASCII.
pub proof fn lemma_hex16_ascii(x: int)
    requires
        x >= 0,
    ensures
        all_ascii(spec_hex16(x)),
    decreases x,
{
    if x >= 16 {
        lemma_hex16_ascii(x / 16);
        assert(spec_hex16(x) == spec_hex16(x / 16) + seq![spec_hex_digit(x % 16)]);
    }
}

/// Render `x` in lowercase hexadecimal.
pub fn hex16_bytes(x: u16) -> (r: Vec<u8>)
    ensures
        r@ == spec_hex16(x as int),
    decreases x,
{
    if x < 16 {
        let mut v: Vec<u8> = Vec::new();
        let d = x as u8;
        if d < 10 {
            v.push(0x30 + d);
        } else {
            v.push(0x57 + d);
        }
        proof {
            assert(v@ =~= spec_hex16(x as int));
        }
        v
    } else {
        let mut v = hex16_bytes(x / 16);
        let d = (x % 16) as u8;
        if d < 10 {
            v.push(0x30 + d);
        } else {
            v.push(0x57 + d);
        }
        proof {
            assert(v@ =~= spec_hex16(x as int));
        }
        v
    }
}

/// The eight 16-bit groups of a 16-byte IPv6 address.
pub open spec fn spec_groups(data: Seq<u8>) -> Seq<u16> {
    Seq::new(8, |i: int| spec_be16(data[2 * i], data[2 * i + 1]))
}

/// Length of the run of zero groups starting at `i`.
pub open spec fn spec_zrun_at(g: Seq<u16>, i: int) -> int
    decreases g.len() - i,
{
    if i < 0 || i >= g.len() || g[i] != 0 {
        0
    } else {
        1 + spec_zrun_at(g, i + 1)
    }
}

/// The leftmost longest zero run in `g[i..]`: its start and length.
pub open spec fn spec_best_zrun(g: Seq<u16>, i: int) -> (int, int)
    decreases g.len() - i,
{
    if i < 0 || i >= g.len() {
        (0, 0)
    } else {
        let cur = spec_zrun_at(g, i);
        let best_rest = spec_best_zrun(g, i + 1);
        if cur >= best_rest.1 {
            (i, cur)
        } else {
            best_rest
        }
    }
}

/// Hexadecimal groups joined with `:`.
pub open spec fn spec_hex_join(g: Seq<u16>) -> Seq<u8>
    decreases g.len(),
{
    if g.len() == 0 {
        Seq::empty()
    } else if g.len() == 1 {
        spec_hex16(g[0] as int)
    } else {
        spec_hex16(g[0] as int) + seq![0x3au8] + spec_hex_join(g.drop_first())
    }
}

/// The usual IPv6 spelling of sixteen bytes: lowercase hexadecimal groups
/// joined with `:`, with the leftmost longest run of at least two zero
/// groups elided as `::`.
pub open spec fn spec_ipv6_text(data: Seq<u8>) -> Seq<u8> {
    let g = spec_groups(data);
    let best = spec_best_zrun(g, 0);
    if best.1 >= 2 {
        spec_hex_join(g.take(best.0)) + seq![0x3au8, 0x3au8] + spec_hex_join(
            g.skip(best.0 + best.1),
        )
    } else {
        spec_hex_join(g)
    }
}

/// Joined hexadecimal groups are ASCII.
pub proof fn lemma_hex_join_ascii(g: Seq<u16>)
    ensures
        all_ascii(spec_hex_join(g)),
    decreases g.len(),
{
    if g.len() == 1 {
        lemma_hex16_ascii(g[0] as int);
    } else if g.len() > 1 {
        lemma_hex16_ascii(g[0] as int);
        lemma_hex_join_ascii(g.drop_first());
        assert(spec_hex_join(g) == spec_hex16(g[0] as int) + seq![0x3au8] + spec_hex_join(
            g.drop_first(),
        ));
    }
}

/// Append the `:`-joined hexadecimal groups `g[from..]`.
fn push_hex_join(out: &mut Vec<u8>, g: &Vec<u16>, from: usize)
    requires
        from <= g@.len(),
    ensures
        final(out)@ == old(out)@ + spec_hex_join(g@.skip(from as int)),
    decreases g@.len() - from,
{
    if from < g.len() {
        let mut h = hex16_bytes(g[from]);
        out.append(&mut h);
        if from + 1 < g.len() {
            out.push(0x3a);
        }
        push_hex_join(out, g, from + 1);
        proof {
            let s = g@.skip(from as int);
            assert(s.drop_first() =~= g@.skip(from as int + 1));
            if from + 1 < g@.len() {
                assert(out@ =~= old(out)@ + spec_hex_join(s));
            } else {
                assert(g@.skip(from as int + 1) =~= Seq::<u16>::empty());
                assert(out@ =~= old(out)@ + spec_hex_join(s));
            }
        }
    } else {
        proof {
            assert(g@.skip(from as int) =~= Seq::<u16>::empty());
            assert(out@ =~= old(out)@ + spec_hex_join(g@.skip(from as int)));
        }
    }
}

/// Render sixteen address bytes in the usual IPv6 spelling.
pub fn ipv6_text_bytes(data: &Vec<u8>) -> (r: Vec<u8>)
    requires
        data@.len() == 16,
    ensures
        r@ == spec_ipv6_text(data@),
        all_ascii(r@),
{
    let mut groups: Vec<u16> = Vec::new();
    let mut i: usize = 0;
    while i < 8
        invariant
            i <= 8,
            data@.len() == 16,
            groups@.len() == i,
            forall|j: int| 0 <= j < i ==> groups@[j] == spec_groups(data@)[j],
        decreases 8 - i,
    {
        groups.push(read_be16(data, 2 * i));
        i = i + 1;
    }
    proof {
        assert(groups@ =~= spec_groups(data@));
    }
    // Scan right to left for the leftmost longest zero run.
    let mut bs: usize = 0;
    let mut bl: usize = 0;
    let mut cur: usize = 0;
    let mut k: usize = 8;
    while k > 0
        invariant
            k <= 8,
            groups@.len() == 8,
            cur == spec_zrun_at(groups@, k as int),
            (bs as int, bl as int) == spec_best_zrun(groups@, k as int),
        decreases k,
    {
        k = k - 1;
        proof {
            lemma_zrun_bounds(groups@, k as int + 1);
        }
        if groups[k] == 0 {
            cur = cur + 1;
        } else {
            cur = 0;
        }
        if cur >= bl {
            bs = k;
            bl = cur;
        }
    }
    proof {
        lemma_best_zrun_bounds(groups@, 0);
    }
    let mut out: Vec<u8> = Vec::new();
    if bl >= 2 {
        // The elided spelling: groups before the run, `::`, groups after.
        let mut left: Vec<u16> = Vec::new();
        let mut j: usize = 0;
        while j < bs
            invariant
                j <= bs <= 8,
                groups@.len() == 8,
                left@ =~= groups@.take(bs as int).take(j as int),
            decreases bs - j,
        {
            left.push(groups[j]);
            proof {
                assert(left@ =~= groups@.take(bs as int).take(j as int + 1));
            }
            j = j + 1;
        }
        proof {
            assert(left@ =~= groups@.take(bs as int));
            assert(left@.skip(0) =~= left@);
        }
        push_hex_join(&mut out, &left, 0);
        out.push(0x3a);
        out.push(0x3a);
        let mut right: Vec<u16> = Vec::new();
        let mut j: usize = bs + bl;
        while j < 8
            invariant
                bs + bl <= j <= 8,
                groups@.len() == 8,
                right@ =~= groups@.subrange(bs + bl, j as int),
            decreases 8 - j,
        {
            right.push(groups[j]);
            proof {
                assert(right@ =~= groups@.subrange(bs + bl, j as int + 1));
            }
            j = j + 1;
        }
        proof {
            assert(right@ =~= groups@.skip(bs + bl));
            assert(right@.skip(0) =~= right@);
        }
        push_hex_join(&mut out, &right, 0);
        proof {
            assert(out@ =~= spec_ipv6_text(data@));
        }
    } else {
        proof {
            assert(groups@.skip(0) =~= groups@);
        }
        push_hex_join(&mut out, &groups, 0);
    }
    proof {
        lemma_ipv6_text_ascii(data@);
    }
    out
}

/// A zero run never reaches past the end of the groups.
pub proof fn lemma_zrun_bounds(g: Seq<u16>, i: int)
    ensures
        0 <= spec_zrun_at(g, i),
        0 <= i <= g.len() ==> i + spec_zrun_at(g, i) <= g.len(),
    decreases g.len() - i,
{
    if 0 <= i < g.len() && g[i] == 0 {
        lemma_zrun_bounds(g, i + 1);
    }
}

/// The best zero run lies within the groups.
pub proof fn lemma_best_zrun_bounds(g: Seq<u16>, i: int)
    ensures
        0 <= spec_best_zrun(g, i).0,
        0 <= spec_best_zrun(g, i).1,
        spec_best_zrun(g, i).0 + spec_best_zrun(g, i).1 <= g.len(),
    decreases g.len() - i,
{
    if 0 <= i < g.len() {
        lemma_zrun_bounds(g, i);
        lemma_best_zrun_bounds(g, i + 1);
    }
}

/// The IPv6 spelling is ASCII.
pub proof fn lemma_ipv6_text_ascii(data: Seq<u8>)
    ensures
        all_ascii(spec_ipv6_text(data)),
{
    let g = spec_groups(data);
    let best = spec_best_zrun(g, 0);
    if best.1 >= 2 {
        lemma_hex_join_ascii(g.take(best.0));
        lemma_hex_join_ascii(g.skip(best.0 + best.1));
        assert(all_ascii(spec_ipv6_text(data)));
    } else {
        lemma_hex_join_ascii(g);
    }
}

/// The text an SRV record's first six data bytes spell: its priority,
/// weight and port in decimal, behind their labels.
pub open spec fn spec_srv_text(data: Seq<u8>) -> Seq<char> {
    "Priority: "@ + ascii_view(spec_decimal(spec_be16(data[0], data[1]) as nat)) + ", Weight: "@
        + ascii_view(spec_decimal(spec_be16(data[2], data[3]) as nat)) + ", Port: "@ + ascii_view(
        spec_decimal(spec_be16(data[4], data[5]) as nat),
    )
}

/// What `DnsAnswer::text` returns for each record type, over the record's
/// data bytes.
pub open spec fn spec_answer_text(qtype: DnsQuestionType, data: Seq<u8>) -> Result<
    Seq<char>,
    FindiError,
> {
    match qtype {
        DnsQuestionType::Ptr => match spec_text_labels(data, 0) {
            None => Err(FindiError::MalformedPacket),
            Some(nm) => if valid_utf8(nm) {
                Ok(decode_utf8(nm))
            } else {
                Err(FindiError::InvalidUtf8)
            },
        },
        DnsQuestionType::A => if data.len() >= 4 {
            Ok(ascii_view(spec_dotted(data[0], data[1], data[2], data[3])))
        } else {
            Err(FindiError::MalformedPacket)
        },
        DnsQuestionType::Aaaa => if data.len() == 16 {
            Ok(ascii_view(spec_ipv6_text(data)))
        } else {
            Err(FindiError::MalformedPacket)
        },
        DnsQuestionType::Txt => if data.len() >= 1 {
            if valid_utf8(data.skip(1)) {
                Ok(decode_utf8(data.skip(1)))
            } else {
                Err(FindiError::InvalidUtf8)
            }
        } else {
            Err(FindiError::MalformedPacket)
        },
        DnsQuestionType::Srv => if data.len() >= 6 {
            Ok(spec_srv_text(data))
        } else {
            Err(FindiError::MalformedPacket)
        },
        _ => Ok("unsupported record type"@),
    }
}

impl DnsAnswer {
    /// The record's textual form: a dotted name for PTR, a dotted-decimal
    /// address for A, the usual IPv6 spelling for AAAA, the text behind the
    /// length prefix for TXT, the three numeric fields for SRV, and a fixed
    /// placeholder for every type the library has no reading for.
    pub fn text(&self) -> (r: Result<String, FindiError>)
        ensures
            match r {
                Ok(s) => spec_answer_text(self.qtype, self.answer_data@) == Ok::<_, FindiError>(
                    s@,
                ),
                Err(e) => spec_answer_text(self.qtype, self.answer_data@) == Err::<Seq<char>, _>(
                    e,
                ),
            },
    {
        match self.qtype {
            DnsQuestionType::Ptr => match text_labels(&self.answer_data, 0) {
                Err(e) => Err(e),
                Ok(nm) => match utf8_to_string(nm) {
                    Some(s) => Ok(s),
                    None => Err(FindiError::InvalidUtf8),
                },
            },
            DnsQuestionType::A => {
                if self.answer_data.len() >= 4 {
                    let v = dotted_bytes(
                        self.answer_data[0],
                        self.answer_data[1],
                        self.answer_data[2],
                        self.answer_data[3],
                    );
                    Ok(ascii_to_string(v))
                } else {
                    Err(FindiError::MalformedPacket)
                }
            },
            DnsQuestionType::Aaaa => {
                if self.answer_data.len() == 16 {
                    let v = ipv6_text_bytes(&self.answer_data);
                    Ok(ascii_to_string(v))
                } else {
                    Err(FindiError::MalformedPacket)
                }
            },
            DnsQuestionType::Txt => {
                if self.answer_data.len() >= 1 {
                    let mut v: Vec<u8> = Vec::new();
                    push_range(&mut v, &self.answer_data, 1, self.answer_data.len());
                    proof {
                        assert(v@ =~= self.answer_data@.skip(1));
                    }
                    match utf8_to_string(v) {
                        Some(s) => Ok(s),
                        None => Err(FindiError::InvalidUtf8),
                    }
                } else {
                    Err(FindiError::MalformedPacket)
                }
            },
            DnsQuestionType::Srv => {
                if self.answer_data.len() >= 6 {
                    let p = read_be16(&self.answer_data, 0);
                    let w = read_be16(&self.answer_data, 2);
                    let q = read_be16(&self.answer_data, 4);
                    let mut s = String::from_str("Priority: ");
                    let pd = ascii_to_string(decimal_bytes(p as u64));
                    s.append(pd.as_str());
                    s.append(", Weight: ");
                    let wd = ascii_to_string(decimal_bytes(w as u64));
                    s.append(wd.as_str());
                    s.append(", Port: ");
                    let qd = ascii_to_string(decimal_bytes(q as u64));
                    s.append(qd.as_str());
                    proof {
                        assert(s@ =~= spec_srv_text(self.answer_data@));
                    }
                    Ok(s)
                } else {
                    Err(FindiError::MalformedPacket)
                }
            },
            _ => Ok(String::from_str("unsupported record type")),
        }
    }
}

} // verus!
