//! Little-endian fields: what four bytes mean as a number, and back.

use vstd::prelude::*;
use vstd::slice::slice_subrange;
use byteorder::ByteOrder;
use crate::model::Real;

verus! {

/// The unsigned number that four bytes hold, lowest byte first.
pub open spec fn le_u32(b: Seq<u8>) -> u32
    recommends
        b.len() == 4,
{
    (b[0] as int + 0x100 * (b[1] as int) + 0x1_0000 * (b[2] as int) + 0x100_0000 * (b[3] as int)) as u32
}

/// A 32-bit pattern read as a two's-complement number.
pub open spec fn signed(u: u32) -> i32 {
    if u < 0x8000_0000 {
        u as i32
    } else {
        (u as int - 0x1_0000_0000) as i32
    }
}

/// The 32-bit pattern of a two's-complement number.
pub open spec fn unsigned(n: i32) -> u32 {
    if n >= 0 {
        n as u32
    } else {
        (n as int + 0x1_0000_0000) as u32
    }
}

/// The signed number that four bytes hold, lowest byte first.
pub open spec fn le_i32(b: Seq<u8>) -> i32
    recommends
        b.len() == 4,
{
    signed(le_u32(b))
}

/// The four bytes of an unsigned number, lowest byte first.
pub open spec fn u32_le_bytes(u: u32) -> Seq<u8> {
    seq![
        (u as int % 0x100) as u8,
        (u as int / 0x100 % 0x100) as u8,
        (u as int / 0x1_0000 % 0x100) as u8,
        (u as int / 0x100_0000) as u8,
    ]
}

/// The four bytes of a signed number, lowest byte first.
pub open spec fn i32_le_bytes(n: i32) -> Seq<u8> {
    u32_le_bytes(unsigned(n))
}

/// The signed field that starts at `pos`, if four bytes are left there.
pub open spec fn i32_at(s: Seq<u8>, pos: int) -> Option<i32> {
    if 0 <= pos && pos + 4 <= s.len() {
        Some(le_i32(s.subrange(pos, pos + 4)))
    } else {
        None
    }
}

/// The single-precision field that starts at `pos`, if four bytes are left there.
pub open spec fn real_at(s: Seq<u8>, pos: int) -> Option<Real> {
    if 0 <= pos && pos + 4 <= s.len() {
        Some(Real { bits: le_u32(s.subrange(pos, pos + 4)) })
    } else {
        None
    }
}

/// Decoding four bytes as a signed number and encoding that number again gives the
/// four bytes back.
pub proof fn lemma_decode_then_encode_i32(b: Seq<u8>)
    requires
        b.len() == 4,
    ensures
        i32_le_bytes(le_i32(b)) == b,
{
    let u = le_u32(b);
    assert(unsigned(signed(u)) == u);
    assert(u32_le_bytes(u) =~= b);
}

/// Encoding a signed number and decoding its four bytes gives the number back.
pub proof fn lemma_encode_then_decode_i32(n: i32)
    ensures
        i32_le_bytes(n).len() == 4,
        le_i32(i32_le_bytes(n)) == n,
{
    let u = unsigned(n);
    assert(le_u32(u32_le_bytes(u)) == u);
    assert(signed(u) == n);
}

/// `byteorder::LittleEndian::read_u32`: the unsigned number in the first four bytes of
/// `buf`, lowest byte first. It panics on a shorter slice, which `requires` leaves out.
#[verifier::external_body]
pub(crate) fn read_le_u32(buf: &[u8]) -> (r: u32)
    requires
        buf@.len() >= 4,
    ensures
        r == le_u32(buf@.subrange(0, 4)),
{
    byteorder::LittleEndian::read_u32(buf)
}

/// `byteorder::LittleEndian::read_i32`: the two's-complement number in the first four
/// bytes of `buf`, lowest byte first. It panics on a shorter slice, which `requires`
/// leaves out.
#[verifier::external_body]
pub(crate) fn read_le_i32(buf: &[u8]) -> (r: i32)
    requires
        buf@.len() >= 4,
    ensures
        r == le_i32(buf@.subrange(0, 4)),
{
    byteorder::LittleEndian::read_i32(buf)
}

/// Decodes the signed field at `pos`, or `None` where fewer than four bytes are left.
pub fn decode_i32(data: &[u8], pos: usize) -> (r: Option<i32>)
    ensures
        r == i32_at(data@, pos as int),
        r is Some ==> pos + 4 <= usize::MAX,
{
    if data.len() < 4 || pos > data.len() - 4 {
        return None;
    }
    let field = slice_subrange(data, pos, pos + 4);
    assert(field@.subrange(0, 4) =~= data@.subrange(pos as int, pos + 4));
    Some(read_le_i32(field))
}

/// Decodes the single-precision field at `pos`, or `None` where fewer than four bytes
/// are left.
pub fn decode_real(data: &[u8], pos: usize) -> (r: Option<Real>)
    ensures
        r == real_at(data@, pos as int),
        r is Some ==> pos + 4 <= usize::MAX,
{
    if data.len() < 4 || pos > data.len() - 4 {
        return None;
    }
    let field = slice_subrange(data, pos, pos + 4);
    assert(field@.subrange(0, 4) =~= data@.subrange(pos as int, pos + 4));
    Some(Real { bits: read_le_u32(field) })
}

/// Encodes a signed number as four bytes, lowest byte first.
pub fn encode_i32(n: i32) -> (r: Vec<u8>)
    ensures
        r@ == i32_le_bytes(n),
{
    let u: u32 = if n >= 0 {
        n as u32
    } else {
        ((n + 0x7fff_ffff) + 1) as u32 + 0x8000_0000
    };
    assert(u == unsigned(n));
    let mut r: Vec<u8> = Vec::new();
    r.push((u % 0x100) as u8);
    r.push((u / 0x100 % 0x100) as u8);
    r.push((u / 0x1_0000 % 0x100) as u8);
    r.push((u / 0x100_0000) as u8);
    assert(r@ =~= i32_le_bytes(n));
    r
}

} // verus!
