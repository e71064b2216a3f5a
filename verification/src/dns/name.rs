//! Wire-format DNS names.
//!
//! Outgoing names are dotted byte strings split into length-prefixed labels.
//! Incoming names follow RFC 1035 section 4.1.4: a run of length-prefixed
//! labels ended either by a zero byte or by a compression pointer, whose
//! fourteen low bits name an absolute offset elsewhere in the same message.
//! Decoding guards against self-referential pointers: after a name's first
//! jump, every further pointer must lead strictly backwards, and one that
//! does not simply ends the name. Reading past the buffer is a
//! `MalformedPacket` error rather than a truncated name.

use vstd::prelude::*;
use crate::error::FindiError;
use crate::text::{push_range, utf8_to_string};
use vstd::utf8::{decode_utf8, valid_utf8};

verus! {

/// The dot that separates labels in a dotted name.
pub const NAME_DOT: u8 = 0x2e;

/// Length of the first dot-separated chunk of `s` (possibly zero).
pub open spec fn spec_chunk_len(s: Seq<u8>) -> int
    decreases s.len(),
{
    if s.len() == 0 {
        0
    } else if s[0] == NAME_DOT {
        0
    } else {
        1 + spec_chunk_len(s.drop_first())
    }
}

/// What `spec_chunk_len` finds: the index of the first dot, or the whole
/// length when there is none.
pub proof fn lemma_chunk_len(s: Seq<u8>)
    ensures
        0 <= spec_chunk_len(s) <= s.len(),
        forall|j: int| 0 <= j < spec_chunk_len(s) ==> s[j] != NAME_DOT,
        spec_chunk_len(s) < s.len() ==> s[spec_chunk_len(s)] == NAME_DOT,
    decreases s.len(),
{
    if s.len() != 0 && s[0] != NAME_DOT {
        lemma_chunk_len(s.drop_first());
        let k = spec_chunk_len(s);
        assert forall|j: int| 0 <= j < k implies s[j] != NAME_DOT by {
            if j > 0 {
                assert(s.drop_first()[j - 1] != NAME_DOT);
            }
        }
    }
}

/// Every dot-separated chunk of `s` fits a six-bit label length.
pub open spec fn wf_chunks(s: Seq<u8>) -> bool
    decreases s.len(),
{
    let k = spec_chunk_len(s);
    0 <= k <= 63 && (0 <= k && k < s.len() ==> wf_chunks(s.skip(k + 1)))
}

/// Chunks are nonempty and fit a six-bit label length: the names whose
/// encoding decodes back to them.
pub open spec fn wf_dotted(s: Seq<u8>) -> bool
    decreases s.len(),
{
    let k = spec_chunk_len(s);
    1 <= k <= 63 && (k < s.len() ==> wf_dotted(s.skip(k + 1)))
}

/// The length-prefixed label encoding of a dotted name (no terminator).
pub open spec fn spec_encode_labels(s: Seq<u8>) -> Seq<u8>
    decreases s.len(),
{
    let k = spec_chunk_len(s);
    if 0 <= k && k < s.len() {
        seq![k as u8] + s.take(k) + spec_encode_labels(s.skip(k + 1))
    } else {
        seq![k as u8] + s
    }
}

/// Join a leading label onto an already-joined remainder.
pub open spec fn spec_join(label: Seq<u8>, rest: Seq<u8>) -> Seq<u8> {
    if rest.len() == 0 {
        label
    } else {
        label + seq![NAME_DOT] + rest
    }
}

/// The name found at `pos` of `buf`, as a dotted byte string, together with
/// how many bytes of the original name field it occupies (a pointer counts
/// as two). `limit` guards against self-referential pointers: a name's
/// first pointer may lead anywhere in the buffer, every later one must lead
/// strictly before the name it abbreviates, and a pointer that does neither
/// simply ends the name. `None` is a name that runs past the buffer.
pub open spec fn spec_decode_name(buf: Seq<u8>, pos: int, limit: int) -> Option<(Seq<u8>, int)>
    decreases limit, buf.len() - pos,
{
    if pos < 0 || pos >= buf.len() {
        None
    } else {
        let b = buf[pos];
        if b == 0 {
            Some((Seq::empty(), 1))
        } else if b >= 0xc0 {
            if pos + 1 >= buf.len() {
                None
            } else {
                let off = (b - 0xc0) * 256 + buf[pos + 1];
                if 0 <= off < limit {
                    match spec_decode_name(buf, off, off) {
                        Some((nm, c)) => Some((nm, 2)),
                        None => None,
                    }
                } else {
                    Some((Seq::empty(), 2))
                }
            }
        } else {
            if pos + 1 + b > buf.len() {
                None
            } else {
                match spec_decode_name(buf, pos + 1 + b, limit) {
                    Some((rest, c)) => Some(
                        (spec_join(buf.subrange(pos + 1, pos + 1 + b), rest), 1 + b + c),
                    ),
                    None => None,
                }
            }
        }
    }
}

/// Decode the name at `pos`, following pointers below `limit` only.
pub fn decode_name_from(buf: &Vec<u8>, pos: usize, limit: usize) -> (r: Result<
    (Vec<u8>, usize),
    FindiError,
>)
    ensures
        match r {
            Ok((nm, c)) => spec_decode_name(buf@, pos as int, limit as int) == Some(
                (nm@, c as int),
            ) && pos + c <= buf@.len(),
            Err(e) => e == FindiError::MalformedPacket && spec_decode_name(
                buf@,
                pos as int,
                limit as int,
            ) is None,
        },
    decreases limit, buf@.len() - pos,
{
    if pos >= buf.len() {
        return Err(FindiError::MalformedPacket);
    }
    let b = buf[pos];
    if b == 0 {
        Ok((Vec::new(), 1))
    } else if b >= 0xc0 {
        if pos + 1 >= buf.len() {
            return Err(FindiError::MalformedPacket);
        }
        let off = (b - 0xc0) as usize * 256 + buf[pos + 1] as usize;
        if off >= limit {
            return Ok((Vec::new(), 2));
        }
        match decode_name_from(buf, off, off) {
            Ok((nm, _)) => Ok((nm, 2)),
            Err(e) => Err(e),
        }
    } else {
        if b as usize > buf.len() - (pos + 1) {
            return Err(FindiError::MalformedPacket);
        }
        let end = pos + 1 + b as usize;
        match decode_name_from(buf, end, limit) {
            Err(e) => Err(e),
            Ok((rest, c)) => {
                let mut nm: Vec<u8> = Vec::new();
                push_range(&mut nm, buf, pos + 1, end);
                let mut rest = rest;
                if rest.len() > 0 {
                    nm.push(NAME_DOT);
                    nm.append(&mut rest);
                }
                proof {
                    let srest = spec_decode_name(buf@, end as int, limit as int).unwrap().0;
                    assert(nm@ =~= spec_join(buf@.subrange(pos + 1, pos + 1 + b), srest));
                }
                Ok((nm, 1 + b as usize + c))
            },
        }
    }
}

/// Decode the (possibly compressed) name that starts at `start`, as the
/// original dotted string. Returns the name and the number of bytes the name
/// field occupies.
pub fn decode_label(bytes: &Vec<u8>, start: usize) -> (r: Result<(String, usize), FindiError>)
    ensures
        match r {
            Ok((s, c)) => spec_decode_name(bytes@, start as int, bytes@.len() as int)
                matches Some((nm, cc)) && cc == c && valid_utf8(nm) && s@ == decode_utf8(nm),
            Err(FindiError::MalformedPacket) => spec_decode_name(
                bytes@,
                start as int,
                bytes@.len() as int,
            ) is None,
            Err(FindiError::InvalidUtf8) => spec_decode_name(
                bytes@,
                start as int,
                bytes@.len() as int,
            ) matches Some((nm, _)) && !valid_utf8(nm),
            Err(_) => false,
        },
{
    let n = bytes.len();
    match decode_name_from(bytes, start, n) {
        Err(e) => Err(e),
        Ok((nm, c)) => match utf8_to_string(nm) {
            Some(s) => Ok((s, c)),
            None => Err(FindiError::InvalidUtf8),
        },
    }
}

/// The dotted text spelled by the labels at `pos`, reading until a zero
/// byte, a pointer byte, or the end of the buffer; pointers are not followed
/// here, because `buf` is a record's data alone, cut loose from the message
/// that the pointer addressed. `None` when a label overruns the buffer.
pub open spec fn spec_text_labels(buf: Seq<u8>, pos: int) -> Option<Seq<u8>>
    decreases buf.len() - pos,
{
    if pos < 0 {
        None
    } else if pos >= buf.len() {
        Some(Seq::empty())
    } else {
        let b = buf[pos];
        if b == 0 || b >= 0xc0 {
            Some(Seq::empty())
        } else if pos + 1 + b > buf.len() {
            None
        } else {
            match spec_text_labels(buf, pos + 1 + b) {
                Some(rest) => Some(spec_join(buf.subrange(pos + 1, pos + 1 + b), rest)),
                None => None,
            }
        }
    }
}

/// Read the dotted text of the labels at `pos` of a record's data.
pub fn text_labels(buf: &Vec<u8>, pos: usize) -> (r: Result<Vec<u8>, FindiError>)
    ensures
        match r {
            Ok(nm) => spec_text_labels(buf@, pos as int) == Some(nm@),
            Err(e) => e == FindiError::MalformedPacket && spec_text_labels(
                buf@,
                pos as int,
            ) is None,
        },
    decreases buf@.len() - pos,
{
    if pos >= buf.len() {
        return Ok(Vec::new());
    }
    let b = buf[pos];
    if b == 0 || b >= 0xc0 {
        return Ok(Vec::new());
    }
    if b as usize > buf.len() - (pos + 1) {
        return Err(FindiError::MalformedPacket);
    }
    let end = pos + 1 + b as usize;
    match text_labels(buf, end) {
        Err(e) => Err(e),
        Ok(rest) => {
            let mut nm: Vec<u8> = Vec::new();
            push_range(&mut nm, buf, pos + 1, end);
            let mut rest = rest;
            if rest.len() > 0 {
                nm.push(NAME_DOT);
                nm.append(&mut rest);
            }
            proof {
                let srest = spec_text_labels(buf@, end as int).unwrap();
                assert(nm@ =~= spec_join(buf@.subrange(pos + 1, pos + 1 + b), srest));
            }
            Ok(nm)
        },
    }
}

/// Encode the dotted name `name[from..]` as length-prefixed labels.
pub fn encode_labels_from(name: &Vec<u8>, from: usize) -> (r: Vec<u8>)
    requires
        from <= name@.len(),
        wf_chunks(name@.skip(from as int)),
    ensures
        r@ == spec_encode_labels(name@.skip(from as int)),
    decreases name@.len() - from,
{
    let ghost s = name@.skip(from as int);
    proof {
        lemma_chunk_len(s);
    }
    let mut i: usize = from;
    while i < name.len() && name[i] != NAME_DOT
        invariant
            from <= i <= name@.len(),
            forall|j: int| from <= j < i ==> name@[j] != NAME_DOT,
        decreases name@.len() - i,
    {
        i = i + 1;
    }
    proof {
        assert forall|j: int| 0 <= j < i - from implies s[j] != NAME_DOT by {
            assert(s[j] == name@[from + j]);
        }
        if i < name@.len() {
            assert(s[i - from] == NAME_DOT);
        }
        assert(spec_chunk_len(s) == i - from) by {
            lemma_chunk_len_unique(s, i - from);
        }
    }
    let c = i - from;
    let mut r: Vec<u8> = Vec::new();
    r.push(c as u8);
    push_range(&mut r, name, from, i);
    if i == name.len() {
        proof {
            assert(r@ =~= spec_encode_labels(s));
        }
        r
    } else {
        proof {
            assert(s.skip(c + 1) =~= name@.skip(i + 1));
        }
        let mut rest = encode_labels_from(name, i + 1);
        r.append(&mut rest);
        proof {
            assert(s.take(c as int) =~= name@.subrange(from as int, i as int));
            assert(r@ =~= spec_encode_labels(s));
        }
        r
    }
}

/// An index that sees no dot before it and a dot (or the end) at it is the
/// chunk length.
pub proof fn lemma_chunk_len_unique(s: Seq<u8>, i: int)
    requires
        0 <= i <= s.len(),
        forall|j: int| 0 <= j < i ==> s[j] != NAME_DOT,
        i < s.len() ==> s[i] == NAME_DOT,
    ensures
        spec_chunk_len(s) == i,
    decreases s.len(),
{
    if s.len() != 0 && s[0] != NAME_DOT {
        assert forall|j: int| 0 <= j < i - 1 implies s.drop_first()[j] != NAME_DOT by {
            assert(s[j + 1] != NAME_DOT);
        }
        lemma_chunk_len_unique(s.drop_first(), i - 1);
    }
}

/// Encode the dotted name `name` as length-prefixed labels (no terminator).
pub fn encode_labels(name: &Vec<u8>) -> (r: Vec<u8>)
    requires
        wf_chunks(name@),
    ensures
        r@ == spec_encode_labels(name@),
{
    proof {
        assert(name@.skip(0) =~= name@);
    }
    encode_labels_from(name, 0)
}

} // verus!
