//! Byte-level text helpers.
//!
//! The wire codec works on raw bytes; the front end and the record store want
//! `String`s. This module holds the bridge: a view of ASCII bytes as
//! characters, conversion of arbitrary decoded name bytes into `String`s
//! (failing on invalid UTF-8), and decimal rendering of integers.

use vstd::prelude::*;
use vstd::utf8::{decode_utf8, encode_utf8, valid_utf8, is_ascii_chars};
use vstd::utf8::{is_ascii_chars_encode_utf8, encode_utf8_valid_utf8, encode_utf8_decode_utf8};

verus! {

/// The characters that a sequence of ASCII bytes spells.
pub open spec fn ascii_view(b: Seq<u8>) -> Seq<char> {
    Seq::new(b.len(), |i: int| b[i] as char)
}

/// A byte sequence that stays below 0x80, so that it is its own UTF-8
/// encoding.
pub open spec fn all_ascii(b: Seq<u8>) -> bool {
    forall|i: int| 0 <= i < b.len() ==> b[i] < 0x80
}

/// ASCII bytes are valid UTF-8 and decode to themselves, character for
/// character.
pub proof fn lemma_ascii_bytes_utf8(b: Seq<u8>)
    requires
        all_ascii(b),
    ensures
        valid_utf8(b),
        decode_utf8(b) == ascii_view(b),
{
    let chars = ascii_view(b);
    assert forall|i: int| 0 <= i < chars.len() implies '\0' <= #[trigger] chars[i]
        <= '\u{7f}' by {
        assert(b[i] < 0x80);
    }
    assert(is_ascii_chars(chars));
    is_ascii_chars_encode_utf8(chars);
    assert(encode_utf8(chars) =~= b);
    encode_utf8_valid_utf8(chars);
    encode_utf8_decode_utf8(chars);
}

/// Relies on `String::from_utf8`: bytes that form valid UTF-8 convert to the
/// string they encode, and any other bytes are rejected.
#[verifier::external_body]
fn string_from_utf8(v: Vec<u8>) -> (r: Option<String>)
    ensures
        match r {
            Some(s) => valid_utf8(v@) && s@ == decode_utf8(v@),
            None => !valid_utf8(v@),
        },
{
    String::from_utf8(v).ok()
}

/// Relies on `String::push`: appends exactly one character.
#[verifier::external_body]
pub(crate) fn push_char(s: &mut String, c: char)
    ensures
        final(s)@ == old(s)@ + seq![c],
{
    s.push(c)
}

/// Turn decoded wire bytes into a `String`, or report that they are not
/// UTF-8.
pub fn utf8_to_string(v: Vec<u8>) -> (r: Option<String>)
    ensures
        match r {
            Some(s) => valid_utf8(v@) && s@ == decode_utf8(v@),
            None => !valid_utf8(v@),
        },
{
    string_from_utf8(v)
}

/// Turn bytes known to be ASCII into the `String` they spell.
pub fn ascii_to_string(v: Vec<u8>) -> (r: String)
    requires
        all_ascii(v@),
    ensures
        r@ == ascii_view(v@),
{
    proof {
        lemma_ascii_bytes_utf8(v@);
    }
    let ghost gv = v@;
    match string_from_utf8(v) {
        Some(s) => s,
        None => {
            proof {
                lemma_ascii_bytes_utf8(gv);
            }
            // Unreachable: ASCII bytes are valid UTF-8.
            String::new()
        },
    }
}

/// An ASCII whitespace byte: space, tab, or one of the control newlines.
pub open spec fn spec_is_space(b: u8) -> bool {
    b == 0x20 || b == 0x09 || b == 0x0a || b == 0x0b || b == 0x0c || b == 0x0d
}

/// `s` with ASCII whitespace removed from both ends.
pub open spec fn spec_trim(s: Seq<u8>) -> Seq<u8>
    decreases s.len(),
{
    if s.len() > 0 && spec_is_space(s[0]) {
        spec_trim(s.drop_first())
    } else if s.len() > 0 && spec_is_space(s.last()) {
        spec_trim(s.drop_last())
    } else {
        s
    }
}

/// Whether `b` is ASCII whitespace.
pub fn is_space(b: u8) -> (r: bool)
    ensures
        r == spec_is_space(b),
{
    b == 0x20 || b == 0x09 || b == 0x0a || b == 0x0b || b == 0x0c || b == 0x0d
}

/// Copy `v[from..to]` with ASCII whitespace trimmed from both ends.
pub fn trim_bytes(v: &Vec<u8>, from: usize, to: usize) -> (r: Vec<u8>)
    requires
        from <= to <= v@.len(),
    ensures
        r@ == spec_trim(v@.subrange(from as int, to as int)),
    decreases to - from,
{
    let ghost s = v@.subrange(from as int, to as int);
    if from < to && is_space(v[from]) {
        proof {
            assert(s.drop_first() =~= v@.subrange(from as int + 1, to as int));
        }
        trim_bytes(v, from + 1, to)
    } else if from < to && is_space(v[to - 1]) {
        proof {
            assert(s.drop_last() =~= v@.subrange(from as int, to as int - 1));
        }
        trim_bytes(v, from, to - 1)
    } else {
        let mut r: Vec<u8> = Vec::new();
        push_range(&mut r, v, from, to);
        proof {
            assert(r@ =~= s);
        }
        r
    }
}

/// Append `src[from..to]` to `dst`.
pub fn push_range(dst: &mut Vec<u8>, src: &Vec<u8>, from: usize, to: usize)
    requires
        from <= to <= src@.len(),
    ensures
        final(dst)@ == old(dst)@ + src@.subrange(from as int, to as int),
{
    let mut i: usize = from;
    while i < to
        invariant
            from <= i <= to <= src@.len(),
            dst@ == old(dst)@ + src@.subrange(from as int, i as int),
        decreases to - i,
    {
        dst.push(src[i]);
        i = i + 1;
        proof {
            assert(dst@ =~= old(dst)@ + src@.subrange(from as int, i as int));
        }
    }
    proof {
        assert(dst@ =~= old(dst)@ + src@.subrange(from as int, to as int));
    }
}

/// The decimal digits of `n`, most significant first, with no leading zeros.
pub open spec fn spec_decimal(n: nat) -> Seq<u8>
    decreases n,
{
    if n < 10 {
        seq![(0x30 + n) as u8]
    } else {
        spec_decimal(n / 10) + seq![(0x30 + n % 10) as u8]
    }
}

/// Decimal digits are ASCII.
pub proof fn lemma_decimal_ascii(n: nat)
    ensures
        all_ascii(spec_decimal(n)),
    decreases n,
{
    if n >= 10 {
        lemma_decimal_ascii(n / 10);
        assert(spec_decimal(n) == spec_decimal(n / 10) + seq![(0x30 + n % 10) as u8]);
    }
}

/// Render `n` in decimal ASCII.
pub fn decimal_bytes(n: u64) -> (r: Vec<u8>)
    ensures
        r@ == spec_decimal(n as nat),
        all_ascii(r@),
    decreases n,
{
    proof {
        lemma_decimal_ascii(n as nat);
    }
    if n < 10 {
        let mut v: Vec<u8> = Vec::new();
        v.push(0x30 + n as u8);
        assert(v@ =~= spec_decimal(n as nat));
        v
    } else {
        let mut v = decimal_bytes(n / 10);
        v.push(0x30 + (n % 10) as u8);
        assert(v@ =~= spec_decimal(n as nat));
        v
    }
}

/// Render `n` as a decimal `String`.
pub fn decimal_string(n: u64) -> (r: String)
    ensures
        r@ == ascii_view(spec_decimal(n as nat)),
{
    let v = decimal_bytes(n);
    ascii_to_string(v)
}

} // verus!
