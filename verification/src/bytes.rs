//! Byte-buffer helpers.

use vstd::prelude::*;

verus! {

/// Appends a slice of bytes to a buffer.
pub fn push_bytes(out: &mut Vec<u8>, piece: &[u8])
    ensures
        final(out)@ == old(out)@ + piece@,
{
    out.extend_from_slice(piece);
    assert(out@ =~= old(out)@ + piece@);
}

/// An owned copy of a slice of bytes.
pub fn copy_bytes(piece: &[u8]) -> (copy: Vec<u8>)
    ensures
        copy@ == piece@,
{
    let mut copy: Vec<u8> = Vec::new();
    push_bytes(&mut copy, piece);
    assert(copy@ =~= piece@);
    copy
}

/// The number that four bytes hold, most significant byte first.
pub open spec fn be32(a: u8, b: u8, c: u8, d: u8) -> int {
    a * 0x100_0000 + b * 0x1_0000 + c * 0x100 + d
}

/// Reads four bytes as a number, most significant byte first.
pub fn read_be32(a: u8, b: u8, c: u8, d: u8) -> (value: u32)
    ensures
        value == be32(a, b, c, d),
{
    a as u32 * 0x100_0000 + b as u32 * 0x1_0000 + c as u32 * 0x100 + d as u32
}

/// The contents of a list of slices.
pub open spec fn contents(slices: Seq<&[u8]>) -> Seq<Seq<u8>> {
    Seq::new(slices.len(), |i: int| slices[i]@)
}

/// The content of an optional buffer.
pub open spec fn content(buffer: Option<Vec<u8>>) -> Option<Seq<u8>> {
    match buffer {
        Some(bytes) => Some(bytes@),
        None => None,
    }
}

/// Four bytes and their number stand for each other, the first byte for the greatest part.
pub proof fn law_four_bytes_are_one_number(a: u8, b: u8, c: u8, d: u8)
    ensures
        0 <= be32(a, b, c, d) <= u32::MAX,
        be32(a, b, c, d) / 0x100_0000 == a,
        be32(a, b, c, d) / 0x1_0000 % 0x100 == b,
        be32(a, b, c, d) / 0x100 % 0x100 == c,
        be32(a, b, c, d) % 0x100 == d,
{
    let n = be32(a, b, c, d);
    let high = a * 0x100 + b;
    let upper = high * 0x100 + c;
    vstd::arithmetic::div_mod::lemma_fundamental_div_mod_converse(
        n,
        0x100_0000,
        a as int,
        b * 0x1_0000 + c * 0x100 + d,
    );
    vstd::arithmetic::div_mod::lemma_fundamental_div_mod_converse(
        n,
        0x1_0000,
        high,
        c * 0x100 + d,
    );
    vstd::arithmetic::div_mod::lemma_fundamental_div_mod_converse(n, 0x100, upper, d as int);
    vstd::arithmetic::div_mod::lemma_fundamental_div_mod_converse(high, 0x100, a as int, b as int);
    vstd::arithmetic::div_mod::lemma_fundamental_div_mod_converse(upper, 0x100, high, c as int);
}

} // verus!
