//! Question-name encoders.
//!
//! A reverse-lookup or service name goes out as length-prefixed labels. A
//! NetBIOS node-status query ignores the question's name: its name field is
//! always the 16-byte wildcard name `*`, expanded nibble by nibble into a
//! fixed 32-byte block behind a 0x20 length byte.

use vstd::prelude::*;
use vstd::string::StrSliceExecFns;
use vstd::utf8::encode_utf8;
use crate::dns::name::{encode_labels, spec_encode_labels, wf_chunks};
use crate::dns::query::DnsQuestion;
use crate::text::{all_ascii, ascii_to_string, ascii_view};

verus! {

/// Each source byte becomes two: its high then low nibble, each added to
/// 0x41 (`A`).
pub open spec fn spec_nibble_expand(src: Seq<u8>) -> Seq<u8> {
    Seq::new(
        2 * src.len(),
        |i: int|
            if i % 2 == 0 {
                ((src[i / 2] >> 4) + 0x41) as u8
            } else {
                ((src[i / 2] & 0x0f) + 0x41) as u8
            },
    )
}

/// Both nibbles of a byte are below 16.
pub proof fn lemma_nibbles(b: u8)
    ensures
        b >> 4 <= 15,
        b & 0x0f <= 15,
{
    assert(b >> 4 <= 15 && b & 0x0f <= 15) by (bit_vector);
}

/// Nibble-expand a byte string.
pub fn nibble_expand(src: &Vec<u8>) -> (r: Vec<u8>)
    ensures
        r@ == spec_nibble_expand(src@),
        all_ascii(r@),
{
    let mut r: Vec<u8> = Vec::new();
    let mut i: usize = 0;
    while i < src.len()
        invariant
            i <= src@.len(),
            r@.len() == 2 * i,
            forall|j: int| 0 <= j < 2 * i ==> r@[j] == spec_nibble_expand(src@)[j],
        decreases src@.len() - i,
    {
        let b = src[i];
        proof {
            lemma_nibbles(b);
        }
        r.push((b >> 4) + 0x41);
        r.push((b & 0x0f) + 0x41);
        i = i + 1;
    }
    proof {
        assert(r@ =~= spec_nibble_expand(src@));
        assert forall|j: int| 0 <= j < r@.len() implies r@[j] < 0x80 by {
            lemma_nibbles(src@[j / 2]);
        }
    }
    r
}

/// Second-level encoding for NetBIOS names: every character's high and low
/// nibbles become two letters starting at `A`.
pub fn second_level_encode(addr: &str) -> (r: String)
    requires
        addr.is_ascii(),
    ensures
        r@ == ascii_view(spec_nibble_expand(encode_utf8(addr@))),
{
    let bytes = addr.as_bytes_vec();
    let expanded = nibble_expand(&bytes);
    ascii_to_string(expanded)
}

/// The 16-byte NetBIOS wildcard name: `*` padded with NUL bytes.
pub open spec fn spec_nb_wildcard() -> Seq<u8> {
    seq![0x2au8] + Seq::new(15, |i: int| 0u8)
}

/// The complete node-status name field: a 0x20 length byte, then the
/// nibble-expanded wildcard name. Self-delimiting by construction.
pub open spec fn spec_nbstat_block() -> Seq<u8> {
    seq![0x20u8] + spec_nibble_expand(spec_nb_wildcard())
}

/// Encodes a question's dotted name as length-prefixed labels.
pub struct DnsPtrEncoder {}

impl DnsPtrEncoder {
    /// The label encoding of the question's name bytes (no terminator).
    pub fn encode(q: &DnsQuestion) -> (r: Vec<u8>)
        requires
            wf_chunks(encode_utf8(q.name@)),
        ensures
            r@ == spec_encode_labels(encode_utf8(q.name@)),
    {
        let bytes = q.name.as_str().as_bytes_vec();
        encode_labels(&bytes)
    }
}

/// Encodes the fixed node-status name block; the question's own name plays
/// no part.
pub struct DnsNbstatEncoder {}

impl DnsNbstatEncoder {
    /// The 33-byte wildcard name field of every node-status query.
    pub fn encode(_q: &DnsQuestion) -> (r: Vec<u8>)
        ensures
            r@ == spec_nbstat_block(),
    {
        let mut w: Vec<u8> = Vec::new();
        w.push(0x2a);
        let mut i: usize = 0;
        while i < 15
            invariant
                i <= 15,
                w@.len() == i + 1,
                w@[0] == 0x2au8,
                forall|j: int| 1 <= j < w@.len() ==> w@[j] == 0u8,
            decreases 15 - i,
        {
            w.push(0x00);
            i = i + 1;
        }
        proof {
            assert(w@ =~= spec_nb_wildcard());
        }
        let expanded = nibble_expand(&w);
        let mut r: Vec<u8> = Vec::new();
        r.push(0x20);
        let mut expanded = expanded;
        r.append(&mut expanded);
        proof {
            assert(r@ =~= spec_nbstat_block());
        }
        r
    }
}

} // verus!
