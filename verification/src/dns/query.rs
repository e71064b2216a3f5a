//! Questions, answers, and the NetBIOS node-status record.

use vstd::prelude::*;
use vstd::string::StringExecFns;
use vstd::utf8::{decode_utf8, valid_utf8};
use crate::addr::{Ipv4Addr, dotted_bytes, spec_dotted, lemma_dotted_ascii};
use crate::error::FindiError;
use crate::text::{ascii_to_string, ascii_view, push_range, spec_trim, trim_bytes, utf8_to_string};
use crate::dns::name::{decode_name_from, spec_decode_name, NAME_DOT};
use crate::dns::wire::{read_be16, read_be32, spec_be16, spec_be32};

verus! {

/// First byte of a two-byte compression pointer: both top bits set.
pub const PTR_BYTE: u8 = 0xc0;

/// The record types the scanner works with. `Other` carries a type code the
/// library has no reading for: such a record still decodes structurally and
/// formats as a placeholder. `Nbstat` is the NetBIOS node-status record; on
/// the wire its query uses the code 0x21, and the library tags it with a
/// local discriminator of zero when a record declares that code path.
#[derive(Clone, Copy, PartialEq, Eq, Structural, Debug)]
pub enum DnsQuestionType {
    A,
    Ptr,
    Txt,
    Aaaa,
    Srv,
    Nbstat,
    Other(u16),
}

impl DnsQuestionType {
    /// The 16-bit code written on the wire for this type. A node-status
    /// query is sent with code 0x21.
    pub open spec fn spec_code(self) -> u16 {
        match self {
            DnsQuestionType::A => 0x01,
            DnsQuestionType::Ptr => 0x0c,
            DnsQuestionType::Txt => 0x10,
            DnsQuestionType::Aaaa => 0x1c,
            DnsQuestionType::Srv => 0x21,
            DnsQuestionType::Nbstat => 0x21,
            DnsQuestionType::Other(c) => c,
        }
    }

    /// Executable twin of [`Self::spec_code`].
    pub fn code(&self) -> (r: u16)
        ensures
            r == self.spec_code(),
    {
        match *self {
            DnsQuestionType::A => 0x01,
            DnsQuestionType::Ptr => 0x0c,
            DnsQuestionType::Txt => 0x10,
            DnsQuestionType::Aaaa => 0x1c,
            DnsQuestionType::Srv => 0x21,
            DnsQuestionType::Nbstat => 0x21,
            DnsQuestionType::Other(c) => c,
        }
    }

    /// The type a received record's code is read as. Code 0x21 reads as SRV:
    /// the node-status dialect shares that code and is told apart by the
    /// port the transaction used, not by the record itself. Code zero is the
    /// local node-status discriminator.
    pub open spec fn spec_from_code(c: u16) -> DnsQuestionType {
        if c == 0x00 {
            DnsQuestionType::Nbstat
        } else if c == 0x01 {
            DnsQuestionType::A
        } else if c == 0x0c {
            DnsQuestionType::Ptr
        } else if c == 0x10 {
            DnsQuestionType::Txt
        } else if c == 0x1c {
            DnsQuestionType::Aaaa
        } else if c == 0x21 {
            DnsQuestionType::Srv
        } else {
            DnsQuestionType::Other(c)
        }
    }

    /// Executable twin of [`Self::spec_from_code`].
    pub fn from_code(c: u16) -> (r: DnsQuestionType)
        ensures
            r == DnsQuestionType::spec_from_code(c),
    {
        if c == 0x00 {
            DnsQuestionType::Nbstat
        } else if c == 0x01 {
            DnsQuestionType::A
        } else if c == 0x0c {
            DnsQuestionType::Ptr
        } else if c == 0x10 {
            DnsQuestionType::Txt
        } else if c == 0x1c {
            DnsQuestionType::Aaaa
        } else if c == 0x21 {
            DnsQuestionType::Srv
        } else {
            DnsQuestionType::Other(c)
        }
    }
}

/// The one record class the scanner speaks: the Internet class, code 1.
/// Decoding rejects any other class as malformed.
#[derive(Clone, Copy, PartialEq, Eq, Structural, Debug)]
pub enum DnsQuestionClass {
    In,
}

/// Wire code of the Internet class.
pub const QCLASS_IN_CODE: u16 = 0x01;

/// One question: a dotted name, a record type, and a class.
#[derive(Clone, PartialEq, Debug)]
pub struct DnsQuestion {
    pub name: String,
    pub qtype: DnsQuestionType,
    pub qclass: DnsQuestionClass,
}

/// What question decoding finds at a position: the name's dotted bytes, the
/// raw type and class codes, and the position just past the question.
pub struct QuestionView {
    pub name: Seq<u8>,
    pub tcode: u16,
    pub clcode: u16,
    pub end: int,
}

/// Decode the question at `pos`: a (possibly compressed) name, then the
/// 16-bit type and class.
pub open spec fn spec_decode_question(buf: Seq<u8>, pos: int) -> Option<QuestionView> {
    match spec_decode_name(buf, pos, buf.len() as int) {
        None => None,
        Some((nm, c)) => if pos + c + 4 <= buf.len() {
            Some(
                QuestionView {
                    name: nm,
                    tcode: spec_be16(buf[pos + c], buf[pos + c + 1]),
                    clcode: spec_be16(buf[pos + c + 2], buf[pos + c + 3]),
                    end: pos + c + 4,
                },
            )
        } else {
            None
        },
    }
}

impl DnsQuestion {
    /// A PTR question for a dotted service or host name, Internet class.
    pub fn new(name: String) -> (q: DnsQuestion)
        ensures
            q.name == name,
            q.qtype == DnsQuestionType::Ptr,
            q.qclass == DnsQuestionClass::In,
    {
        DnsQuestion { name, qtype: DnsQuestionType::Ptr, qclass: DnsQuestionClass::In }
    }

    /// The reverse-lookup question for an address: the four octets reversed,
    /// spelled in decimal, joined with dots, with `.in-addr.arpa` appended.
    pub fn build_rlookup(ip: Ipv4Addr, qtype: DnsQuestionType) -> (q: DnsQuestion)
        ensures
            q.name@ == ascii_view(spec_rlookup_name(ip)),
            q.qtype == qtype,
            q.qclass == DnsQuestionClass::In,
    {
        let mut v = dotted_bytes(ip.d, ip.c, ip.b, ip.a);
        v.push(NAME_DOT);
        v.push(0x69);  // i
        v.push(0x6e);  // n
        v.push(0x2d);  // -
        v.push(0x61);  // a
        v.push(0x64);  // d
        v.push(0x64);  // d
        v.push(0x72);  // r
        v.push(NAME_DOT);
        v.push(0x61);  // a
        v.push(0x72);  // r
        v.push(0x70);  // p
        v.push(0x61);  // a
        proof {
            assert(v@ =~= spec_rlookup_name(ip));
            lemma_dotted_ascii(ip.d, ip.c, ip.b, ip.a);
        }
        let name = ascii_to_string(v);
        DnsQuestion { name, qtype, qclass: DnsQuestionClass::In }
    }

    /// Decode the question at `start` of `bytes`. Returns the question and
    /// the bytes it occupies.
    pub fn decode(bytes: &Vec<u8>, start: usize) -> (r: Result<(DnsQuestion, usize), FindiError>)
        ensures
            match r {
                Ok((q, sz)) => spec_decode_question(bytes@, start as int) matches Some(qv)
                    && qv.end == start + sz && start + sz <= bytes@.len() && qv.clcode
                    == QCLASS_IN_CODE && valid_utf8(qv.name)
                    && q.name@ == decode_utf8(qv.name) && q.qtype
                    == DnsQuestionType::spec_from_code(qv.tcode) && q.qclass
                    == DnsQuestionClass::In,
                Err(FindiError::MalformedPacket) => spec_decode_question(bytes@, start as int)
                    matches Some(qv) ==> qv.clcode != QCLASS_IN_CODE,
                Err(FindiError::InvalidUtf8) => spec_decode_question(bytes@, start as int)
                    matches Some(qv) && qv.clcode == QCLASS_IN_CODE && !valid_utf8(qv.name),
                Err(_) => false,
            },
    {
        let (nm, c) = match decode_name_from(bytes, start, bytes.len()) {
            Ok(v) => v,
            Err(e) => {
                return Err(e);
            },
        };
        let n = bytes.len();
        assert(start + c <= n);
        if n - (start + c) < 4 {
            return Err(FindiError::MalformedPacket);
        }
        let tcode = read_be16(bytes, start + c);
        let clcode = read_be16(bytes, start + c + 2);
        if clcode != QCLASS_IN_CODE {
            return Err(FindiError::MalformedPacket);
        }
        let name = match utf8_to_string(nm) {
            Some(s) => s,
            None => {
                return Err(FindiError::InvalidUtf8);
            },
        };
        Ok(
            (
                DnsQuestion {
                    name,
                    qtype: DnsQuestionType::from_code(tcode),
                    qclass: DnsQuestionClass::In,
                },
                c + 4,
            ),
        )
    }
}

/// The reverse-lookup name bytes for an address: octets reversed, decimal,
/// dot-joined, then `.in-addr.arpa`.
pub open spec fn spec_rlookup_name(ip: Ipv4Addr) -> Seq<u8> {
    spec_dotted(ip.d, ip.c, ip.b, ip.a) + seq![
        NAME_DOT,
        0x69u8,
        0x6eu8,
        0x2du8,
        0x61u8,
        0x64u8,
        0x64u8,
        0x72u8,
        NAME_DOT,
        0x61u8,
        0x72u8,
        0x70u8,
        0x61u8,
    ]
}

/// One answer record: its (possibly compressed) name, type, class, time to
/// live, and raw record data, interpreted lazily when formatted.
#[derive(Clone, PartialEq, Debug)]
pub struct DnsAnswer {
    /// When the record's name field began with a compression pointer, the
    /// offset that pointer named; zero otherwise.
    pub ptr_offset: u16,
    pub name: String,
    pub qtype: DnsQuestionType,
    pub qclass: DnsQuestionClass,
    pub ttl: u32,
    pub datalen: u16,
    pub answer_data: Vec<u8>,
}

/// What answer decoding finds at a position.
pub struct AnswerView {
    pub name: Seq<u8>,
    pub ptr_off: u16,
    pub tcode: u16,
    pub clcode: u16,
    pub ttl: u32,
    pub datalen: u16,
    pub data: Seq<u8>,
    pub end: int,
}

/// Decode the answer at `pos`: a compressed name, the 16-bit type and class,
/// the 32-bit time to live, a 16-bit data length, and that many data bytes.
/// A node-status record (local type code zero) keeps the whole record from
/// `pos` as its data, because its layout does not follow the generic one.
/// Data that would run past the buffer is malformed.
pub open spec fn spec_decode_answer(buf: Seq<u8>, pos: int) -> Option<AnswerView> {
    match spec_decode_name(buf, pos, buf.len() as int) {
        None => None,
        Some((nm, c)) => {
            let f = pos + c;
            if f + 10 <= buf.len() {
                let tcode = spec_be16(buf[f], buf[f + 1]);
                let datalen = spec_be16(buf[f + 8], buf[f + 9]);
                if f + 10 + datalen <= buf.len() {
                    Some(
                        AnswerView {
                            name: nm,
                            ptr_off: if buf[pos] >= PTR_BYTE {
                                spec_be16((buf[pos] - PTR_BYTE) as u8, buf[pos + 1])
                            } else {
                                0
                            },
                            tcode,
                            clcode: spec_be16(buf[f + 2], buf[f + 3]),
                            ttl: spec_be32(buf[f + 4], buf[f + 5], buf[f + 6], buf[f + 7]),
                            datalen,
                            data: if tcode == 0 {
                                buf.subrange(pos, buf.len() as int)
                            } else {
                                buf.subrange(f + 10, f + 10 + datalen)
                            },
                            end: f + 10 + datalen,
                        },
                    )
                } else {
                    None
                }
            } else {
                None
            }
        },
    }
}

impl DnsAnswer {
    /// Decode the answer at `start` of `bytes`. Returns the answer and the
    /// bytes it occupies.
    pub fn decode(bytes: &Vec<u8>, start: usize) -> (r: Result<(DnsAnswer, usize), FindiError>)
        ensures
            match r {
                Ok((a, sz)) => spec_decode_answer(bytes@, start as int) matches Some(av)
                    && av.end == start + sz && start + sz <= bytes@.len() && av.clcode
                    == QCLASS_IN_CODE && valid_utf8(av.name)
                    && a.name@ == decode_utf8(av.name) && a.ptr_offset == av.ptr_off && a.qtype
                    == DnsQuestionType::spec_from_code(av.tcode) && a.qclass
                    == DnsQuestionClass::In && a.ttl == av.ttl && a.datalen == av.datalen
                    && a.answer_data@ == av.data,
                Err(FindiError::MalformedPacket) => spec_decode_answer(bytes@, start as int)
                    matches Some(av) ==> av.clcode != QCLASS_IN_CODE,
                Err(FindiError::InvalidUtf8) => spec_decode_answer(bytes@, start as int)
                    matches Some(av) && av.clcode == QCLASS_IN_CODE && !valid_utf8(av.name),
                Err(_) => false,
            },
    {
        let (nm, c) = match decode_name_from(bytes, start, bytes.len()) {
            Ok(v) => v,
            Err(e) => {
                return Err(e);
            },
        };
        let n = bytes.len();
        assert(start + c <= n);
        let f = start + c;
        if n - f < 10 {
            return Err(FindiError::MalformedPacket);
        }
        let tcode = read_be16(bytes, f);
        let clcode = read_be16(bytes, f + 2);
        let ttl = read_be32(bytes, f + 4);
        let datalen = read_be16(bytes, f + 8);
        if datalen as usize > bytes.len() - (f + 10) {
            return Err(FindiError::MalformedPacket);
        }
        if clcode != QCLASS_IN_CODE {
            return Err(FindiError::MalformedPacket);
        }
        let ptr_offset: u16 = if bytes[start] >= PTR_BYTE {
            (bytes[start] - PTR_BYTE) as u16 * 256 + bytes[start + 1] as u16
        } else {
            0
        };
        let mut answer_data: Vec<u8> = Vec::new();
        if tcode == 0 {
            push_range(&mut answer_data, bytes, start, bytes.len());
            proof {
                assert(answer_data@ =~= bytes@.subrange(start as int, bytes@.len() as int));
            }
        } else {
            push_range(&mut answer_data, bytes, f + 10, f + 10 + datalen as usize);
            proof {
                assert(answer_data@ =~= bytes@.subrange(
                    start + c + 10,
                    start + c + 10 + datalen as int,
                ));
            }
        }
        let name = match utf8_to_string(nm) {
            Some(s) => s,
            None => {
                return Err(FindiError::InvalidUtf8);
            },
        };
        Ok(
            (
                DnsAnswer {
                    ptr_offset,
                    name,
                    qtype: DnsQuestionType::from_code(tcode),
                    qclass: DnsQuestionClass::In,
                    ttl,
                    datalen,
                    answer_data,
                },
                c + 10 + datalen as usize,
            ),
        )
    }
}

/// A NetBIOS node-status answer: the echoed query name, the standard
/// record fields, and the machine's name entries, the first of which is the
/// best-effort hostname.
#[derive(PartialEq, Debug)]
pub struct NbnsAnswer {
    pub query_name: String,
    pub qtype: DnsQuestionType,
    pub qclass: DnsQuestionClass,
    pub ttl: u32,
    pub names: Vec<String>,
    pub hostname: String,
}

/// What structurally decoding a node-status answer block finds.
pub struct NbnsView {
    pub qname: Seq<u8>,
    pub tcode: u16,
    pub clcode: u16,
    pub ttl: u32,
    pub datalen: u16,
    pub num_names: u8,
    pub entries: Seq<Seq<u8>>,
}

/// The raw fixed-width name entries of a node-status block, one per count.
/// Entry `i` runs from `base + 18 i` to `base + 16 (i + 1)`: the stride the
/// dialect's records show for their leading entries.
pub open spec fn spec_nbns_entries(buf: Seq<u8>, base: int, num: int) -> Seq<Seq<u8>> {
    Seq::new(num as nat, |i: int| buf.subrange(base + 18 * i, base + 16 * (i + 1)))
}

/// Entry `i`'s window is ordered and inside the buffer.
pub open spec fn spec_nbns_entry_ok(buf: Seq<u8>, base: int, i: int) -> bool {
    18 * i <= 16 * (i + 1) && base + 16 * (i + 1) <= buf.len()
}

/// Every entry's window is ordered and inside the buffer.
pub open spec fn spec_nbns_entries_ok(buf: Seq<u8>, base: int, num: int) -> bool {
    forall|i: int| 0 <= i < num ==> #[trigger] spec_nbns_entry_ok(buf, base, i)
}

/// Structurally decode the node-status block at `pos`: a one-byte name
/// length, the echoed name bytes, the type/class/ttl/data-length quadruple
/// at its fixed offset, a one-byte entry count, and the entries.
pub open spec fn spec_decode_nbns(buf: Seq<u8>, pos: int) -> Option<NbnsView> {
    if pos < 0 || pos >= buf.len() {
        None
    } else {
        let qn = buf[pos] as int;
        if qn < 1 || pos + qn + 13 > buf.len() {
            None
        } else {
            let num = buf[pos + qn + 12];
            if spec_nbns_entries_ok(buf, pos + qn + 13, num as int) {
                Some(
                    NbnsView {
                        qname: buf.subrange(pos + 1, pos + qn),
                        tcode: spec_be16(buf[pos + qn + 2], buf[pos + qn + 3]),
                        clcode: spec_be16(buf[pos + qn + 4], buf[pos + qn + 5]),
                        ttl: spec_be32(
                            buf[pos + qn + 6],
                            buf[pos + qn + 7],
                            buf[pos + qn + 8],
                            buf[pos + qn + 9],
                        ),
                        datalen: spec_be16(buf[pos + qn + 10], buf[pos + qn + 11]),
                        num_names: num,
                        entries: spec_nbns_entries(buf, pos + qn + 13, num as int),
                    },
                )
            } else {
                None
            }
        }
    }
}

/// The readable names among the entries: each trimmed of its padding, kept
/// when it is UTF-8.
pub open spec fn spec_nbns_names(entries: Seq<Seq<u8>>) -> Seq<Seq<char>>
    decreases entries.len(),
{
    if entries.len() == 0 {
        Seq::empty()
    } else {
        let t = spec_trim(entries[0]);
        let rest = spec_nbns_names(entries.drop_first());
        if valid_utf8(t) {
            seq![decode_utf8(t)] + rest
        } else {
            rest
        }
    }
}

/// Keeping one more entry appends its name when it is readable.
pub proof fn lemma_nbns_names_take(entries: Seq<Seq<u8>>, i: int)
    requires
        0 <= i < entries.len(),
    ensures
        spec_nbns_names(entries.take(i + 1)) == if valid_utf8(spec_trim(entries[i])) {
            spec_nbns_names(entries.take(i)) + seq![decode_utf8(spec_trim(entries[i]))]
        } else {
            spec_nbns_names(entries.take(i))
        },
    decreases i,
{
    if i == 0 {
        assert(entries.take(1).drop_first() =~= Seq::<Seq<u8>>::empty());
        assert(entries.take(0) =~= Seq::<Seq<u8>>::empty());
        assert(entries.take(1)[0] == entries[0]);
        if valid_utf8(spec_trim(entries[0])) {
            assert(spec_nbns_names(entries.take(1)) =~= spec_nbns_names(entries.take(0)) + seq![
                decode_utf8(spec_trim(entries[0])),
            ]);
        }
    } else {
        let r = entries.drop_first();
        assert(entries.take(i + 1).drop_first() =~= r.take(i));
        assert(entries.take(i).drop_first() =~= r.take(i - 1));
        assert(entries.take(i + 1)[0] == entries[0]);
        assert(entries.take(i)[0] == entries[0]);
        lemma_nbns_names_take(r, i - 1);
        assert(r[i - 1] == entries[i]);
        if valid_utf8(spec_trim(entries[i])) {
            assert(spec_nbns_names(entries.take(i + 1)) =~= spec_nbns_names(entries.take(i))
                + seq![decode_utf8(spec_trim(entries[i]))]);
        }
    }
}

/// The hostname a node-status answer reports: the first entry trimmed of
/// its padding, or the fixed text `None` when there is no readable first
/// entry.
pub open spec fn spec_nbns_hostname(entries: Seq<Seq<u8>>) -> Seq<char> {
    if entries.len() > 0 && valid_utf8(spec_trim(entries[0])) {
        decode_utf8(spec_trim(entries[0]))
    } else {
        "None"@
    }
}

impl NbnsAnswer {
    /// Decode the node-status block at `start` of `bytes`. Returns the
    /// answer and the block's declared data length.
    #[verifier::rlimit(40)]
    pub fn decode(bytes: &Vec<u8>, start: usize) -> (r: Result<(NbnsAnswer, usize), FindiError>)
        ensures
            match r {
                Ok((a, sz)) => spec_decode_nbns(bytes@, start as int) matches Some(nv)
                    && nv.clcode == QCLASS_IN_CODE && valid_utf8(nv.qname) && a.query_name@
                    == decode_utf8(nv.qname) && a.qtype == DnsQuestionType::Nbstat && a.qclass
                    == DnsQuestionClass::In && a.ttl == nv.ttl && sz == nv.datalen
                    && a.names@.len() == spec_nbns_names(nv.entries).len() && (forall|j: int|
                    0 <= j < a.names@.len() ==> (#[trigger] a.names@[j])@ == spec_nbns_names(
                        nv.entries,
                    )[j]) && a.hostname@ == spec_nbns_hostname(nv.entries),
                Err(FindiError::MalformedPacket) => spec_decode_nbns(bytes@, start as int)
                    matches Some(nv) ==> nv.clcode != QCLASS_IN_CODE,
                Err(FindiError::InvalidUtf8) => spec_decode_nbns(bytes@, start as int)
                    matches Some(nv) && nv.clcode == QCLASS_IN_CODE && !valid_utf8(nv.qname),
                Err(_) => false,
            },
    {
        let n = bytes.len();
        if start >= n {
            return Err(FindiError::MalformedPacket);
        }
        let qn = bytes[start] as usize;
        if qn < 1 || qn + 13 > n - start {
            return Err(FindiError::MalformedPacket);
        }
        let f = start + qn;
        let tcode = read_be16(bytes, f + 2);
        let clcode = read_be16(bytes, f + 4);
        let ttl = read_be32(bytes, f + 6);
        let datalen = read_be16(bytes, f + 10);
        let num = bytes[f + 12];
        let base = f + 13;
        let ghost entries = spec_nbns_entries(bytes@, base as int, num as int);
        let mut names: Vec<String> = Vec::new();
        let mut hostname = String::from_str("None");
        let mut i: usize = 0;
        while i < num as usize
            invariant
                i <= num as usize,
                base <= n,
                n == bytes@.len(),
                base == start + qn + 13,
                start < n,
                qn == bytes@[start as int] as usize,
                1 <= qn,
                num == bytes@[start as int + qn + 12],
                entries == spec_nbns_entries(bytes@, base as int, num as int),
                entries.len() == num as int,
                forall|j: int| 0 <= j < i ==> #[trigger] spec_nbns_entry_ok(bytes@, base as int, j),
                names@.len() == spec_nbns_names(entries.take(i as int)).len(),
                forall|j: int|
                    0 <= j < names@.len() ==> (#[trigger] names@[j])@ == spec_nbns_names(
                        entries.take(i as int),
                    )[j],
                hostname@ == if i > 0 {
                    spec_nbns_hostname(entries)
                } else {
                    "None"@
                },
            decreases num as usize - i,
        {
            if i > 8 || 16 * (i + 1) > n - base {
                proof {
                    let pos = start as int;
                    let qni = qn as int;
                    assert(bytes@[pos] as int == qni);
                    assert(pos + qni + 13 <= bytes@.len());
                    assert(bytes@[pos + qni + 12] == num);
                    assert(!spec_nbns_entry_ok(bytes@, base as int, i as int));
                    assert(0 <= (i as int) && (i as int) < (num as int));
                    assert(!spec_nbns_entries_ok(bytes@, pos + qni + 13, num as int));
                    assert(spec_decode_nbns(bytes@, pos) is None);
                }
                return Err(FindiError::MalformedPacket);
            }
            proof {
                assert(spec_nbns_entry_ok(bytes@, base as int, i as int));
            }
            let s = base + 18 * i;
            let e = base + 16 * (i + 1);
            let entry = trim_bytes(bytes, s, e);
            proof {
                assert(entries[i as int] == bytes@.subrange(s as int, e as int));
                lemma_nbns_names_take(entries, i as int);
            }
            let ghost gi = i as int;
            match crate::text::utf8_to_string(entry) {
                Some(name_str) => {
                    if i == 0 {
                        hostname = name_str.clone();
                    }
                    names.push(name_str);
                    proof {
                        assert(names@.drop_last() + seq![names@.last()] =~= names@);
                    }
                },
                None => {},
            }
            proof {
                if gi == 0 {
                    assert(hostname@ == spec_nbns_hostname(entries));
                }
            }
            i = i + 1;
        }
        if clcode != QCLASS_IN_CODE {
            return Err(FindiError::MalformedPacket);
        }
        let mut qname: Vec<u8> = Vec::new();
        push_range(&mut qname, bytes, start + 1, start + qn);
        proof {
            assert(qname@ =~= bytes@.subrange(start as int + 1, start as int + qn));
            assert(entries.take(num as int) =~= entries);
        }
        let query_name = match utf8_to_string(qname) {
            Some(s) => s,
            None => {
                return Err(FindiError::InvalidUtf8);
            },
        };
        proof {
            if num == 0 {
                assert(hostname@ == spec_nbns_hostname(entries));
            }
            assert(spec_nbns_entries_ok(bytes@, base as int, num as int));
            let nv = spec_decode_nbns(bytes@, start as int).unwrap();
            assert(nv.clcode == clcode);
            assert(nv.datalen == datalen);
            assert(nv.ttl == ttl);
            assert(nv.entries == entries);
        }
        Ok(
            (
                NbnsAnswer {
                    query_name,
                    qtype: DnsQuestionType::Nbstat,
                    qclass: DnsQuestionClass::In,
                    ttl,
                    names,
                    hostname,
                },
                datalen as usize,
            ),
        )
    }
}

} // verus!
