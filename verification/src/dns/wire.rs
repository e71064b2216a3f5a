//! Big-endian integer fields of the wire format.

use vstd::prelude::*;
use vstd::arithmetic::div_mod::lemma_fundamental_div_mod;

verus! {

/// The 16-bit value spelled by two big-endian bytes.
pub open spec fn spec_be16(b0: u8, b1: u8) -> u16 {
    (b0 * 256 + b1) as u16
}

/// The two big-endian bytes of a 16-bit value.
pub open spec fn spec_be16_bytes(x: u16) -> Seq<u8> {
    seq![(x / 256) as u8, (x % 256) as u8]
}

/// The 32-bit value spelled by four big-endian bytes.
pub open spec fn spec_be32(b0: u8, b1: u8, b2: u8, b3: u8) -> u32 {
    (b0 * 0x1000000 + b1 * 0x10000 + b2 * 0x100 + b3) as u32
}

/// Writing a 16-bit value and reading it back is the identity.
pub proof fn lemma_be16_roundtrip(x: u16)
    ensures
        spec_be16(spec_be16_bytes(x)[0], spec_be16_bytes(x)[1]) == x,
{
    lemma_fundamental_div_mod(x as int, 256);
}

/// Read the big-endian 16-bit field at `pos`.
pub fn read_be16(buf: &Vec<u8>, pos: usize) -> (r: u16)
    requires
        pos + 2 <= buf@.len(),
    ensures
        r == spec_be16(buf@[pos as int], buf@[pos as int + 1]),
{
    let n = buf.len();
    assert(pos + 2 <= n);
    buf[pos] as u16 * 256 + buf[pos + 1] as u16
}

/// Read the big-endian 32-bit field at `pos`.
pub fn read_be32(buf: &Vec<u8>, pos: usize) -> (r: u32)
    requires
        pos + 4 <= buf@.len(),
    ensures
        r == spec_be32(
            buf@[pos as int],
            buf@[pos as int + 1],
            buf@[pos as int + 2],
            buf@[pos as int + 3],
        ),
{
    let n = buf.len();
    assert(pos + 4 <= n);
    buf[pos] as u32 * 0x1000000 + buf[pos + 1] as u32 * 0x10000 + buf[pos + 2] as u32 * 0x100
        + buf[pos + 3] as u32
}

/// Append the two big-endian bytes of `x`.
pub fn write_be16(out: &mut Vec<u8>, x: u16)
    ensures
        final(out)@ == old(out)@ + spec_be16_bytes(x),
{
    out.push((x / 256) as u8);
    out.push((x % 256) as u8);
    proof {
        assert(out@ =~= old(out)@ + spec_be16_bytes(x));
    }
}

} // verus!
