//! The library's own IPv4 address value.
//!
//! The scanner's logic only ever reads the four octets, so the library keeps
//! them as plain bytes; the runtime around it converts to and from its socket
//! address types at the boundary.

use vstd::prelude::*;
use crate::text::{ascii_view, all_ascii, spec_decimal, decimal_bytes, ascii_to_string};

verus! {

/// One IPv4 address, kept as its four octets in network order.
#[derive(Clone, Copy, PartialEq, Eq, Structural, Debug)]
pub struct Ipv4Addr {
    pub a: u8,
    pub b: u8,
    pub c: u8,
    pub d: u8,
}

/// The dotted-decimal ASCII spelling of four octets, first octet first.
pub open spec fn spec_dotted(a: u8, b: u8, c: u8, d: u8) -> Seq<u8> {
    spec_decimal(a as nat) + seq![0x2eu8] + spec_decimal(b as nat) + seq![0x2eu8]
        + spec_decimal(c as nat) + seq![0x2eu8] + spec_decimal(d as nat)
}

/// Dotted-decimal spellings are ASCII.
pub proof fn lemma_dotted_ascii(a: u8, b: u8, c: u8, d: u8)
    ensures
        all_ascii(spec_dotted(a, b, c, d)),
{
    crate::text::lemma_decimal_ascii(a as nat);
    crate::text::lemma_decimal_ascii(b as nat);
    crate::text::lemma_decimal_ascii(c as nat);
    crate::text::lemma_decimal_ascii(d as nat);
}

/// Render four octets as dotted-decimal ASCII bytes.
pub fn dotted_bytes(a: u8, b: u8, c: u8, d: u8) -> (r: Vec<u8>)
    ensures
        r@ == spec_dotted(a, b, c, d),
        all_ascii(r@),
{
    let mut v = decimal_bytes(a as u64);
    v.push(0x2e);
    let mut p = decimal_bytes(b as u64);
    v.append(&mut p);
    v.push(0x2e);
    let mut p = decimal_bytes(c as u64);
    v.append(&mut p);
    v.push(0x2e);
    let mut p = decimal_bytes(d as u64);
    v.append(&mut p);
    assert(v@ =~= spec_dotted(a, b, c, d));
    v
}

impl Ipv4Addr {
    /// Build an address from its four octets.
    pub fn new(a: u8, b: u8, c: u8, d: u8) -> (r: Ipv4Addr)
        ensures
            r == (Ipv4Addr { a, b, c, d }),
    {
        Ipv4Addr { a, b, c, d }
    }

    /// The four octets, first octet first.
    pub fn octets(&self) -> (r: [u8; 4])
        ensures
            r@ == seq![self.a, self.b, self.c, self.d],
    {
        let r = [self.a, self.b, self.c, self.d];
        proof {
            assert(r@ =~= seq![self.a, self.b, self.c, self.d]);
        }
        r
    }

    /// The usual dotted-decimal spelling, such as `192.168.0.21`.
    pub fn text(&self) -> (r: String)
        ensures
            r@ == ascii_view(spec_dotted(self.a, self.b, self.c, self.d)),
    {
        let v = dotted_bytes(self.a, self.b, self.c, self.d);
        ascii_to_string(v)
    }
}

} // verus!
