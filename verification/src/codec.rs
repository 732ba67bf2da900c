//! Big-endian integer encoding, as used by the recording file format.
//!
//! The byte-level work is done by the `byteorder` crate; this module states
//! what its `BigEndian` functions compute and proves that decoding an encoded
//! integer gives the integer back.
use byteorder::{BigEndian, ByteOrder};
use vstd::prelude::*;

verus! {

/// The two bytes of `x`, most significant first.
pub open spec fn be_u16(x: u16) -> Seq<u8> {
    seq![(x >> 8u16) as u8, x as u8]
}

/// The four bytes of `x`, most significant first.
pub open spec fn be_u32(x: u32) -> Seq<u8> {
    seq![(x >> 24u32) as u8, (x >> 16u32) as u8, (x >> 8u32) as u8, x as u8]
}

/// The eight bytes of `x`, most significant first.
pub open spec fn be_u64(x: u64) -> Seq<u8> {
    seq![
        (x >> 56u64) as u8,
        (x >> 48u64) as u8,
        (x >> 40u64) as u8,
        (x >> 32u64) as u8,
        (x >> 24u64) as u8,
        (x >> 16u64) as u8,
        (x >> 8u64) as u8,
        x as u8,
    ]
}

/// The value of the first two bytes of `s`, read most significant first.
pub open spec fn u16_from_be(s: Seq<u8>) -> u16 {
    ((s[0] as u16) << 8u16) | (s[1] as u16)
}

/// The value of the first four bytes of `s`, read most significant first.
pub open spec fn u32_from_be(s: Seq<u8>) -> u32 {
    ((s[0] as u32) << 24u32) | ((s[1] as u32) << 16u32) | ((s[2] as u32) << 8u32) | (s[3] as u32)
}

/// The value of the first eight bytes of `s`, read most significant first.
pub open spec fn u64_from_be(s: Seq<u8>) -> u64 {
    ((s[0] as u64) << 56u64) | ((s[1] as u64) << 48u64) | ((s[2] as u64) << 40u64) | ((s[3] as u64)
        << 32u64) | ((s[4] as u64) << 24u64) | ((s[5] as u64) << 16u64) | ((s[6] as u64) << 8u64)
        | (s[7] as u64)
}

/// Decoding the two-byte encoding of `x` gives `x`.
pub proof fn lemma_u16_roundtrip(x: u16)
    ensures
        be_u16(x).len() == 2,
        u16_from_be(be_u16(x)) == x,
{
    let s = be_u16(x);
    let (a, b) = (s[0], s[1]);
    assert(a == (x >> 8u16) as u8 && b == x as u8);
    assert(((a as u16) << 8u16) | (b as u16) == x) by (bit_vector)
        requires
            a == (x >> 8u16) as u8,
            b == x as u8,
    ;
}

/// Decoding the four-byte encoding of `x` gives `x`.
pub proof fn lemma_u32_roundtrip(x: u32)
    ensures
        be_u32(x).len() == 4,
        u32_from_be(be_u32(x)) == x,
{
    let s = be_u32(x);
    let (a, b, c, d) = (s[0], s[1], s[2], s[3]);
    assert(((a as u32) << 24u32) | ((b as u32) << 16u32) | ((c as u32) << 8u32) | (d as u32) == x)
        by (bit_vector)
        requires
            a == (x >> 24u32) as u8,
            b == (x >> 16u32) as u8,
            c == (x >> 8u32) as u8,
            d == x as u8,
    ;
}

/// Decoding the eight-byte encoding of `x` gives `x`.
pub proof fn lemma_u64_roundtrip(x: u64)
    ensures
        be_u64(x).len() == 8,
        u64_from_be(be_u64(x)) == x,
{
    let s = be_u64(x);
    let (b0, b1, b2, b3, b4, b5, b6, b7) = (s[0], s[1], s[2], s[3], s[4], s[5], s[6], s[7]);
    assert(((b0 as u64) << 56u64) | ((b1 as u64) << 48u64) | ((b2 as u64) << 40u64) | ((b3 as u64)
        << 32u64) | ((b4 as u64) << 24u64) | ((b5 as u64) << 16u64) | ((b6 as u64) << 8u64) | (
    b7 as u64) == x) by (bit_vector)
        requires
            b0 == (x >> 56u64) as u8,
            b1 == (x >> 48u64) as u8,
            b2 == (x >> 40u64) as u8,
            b3 == (x >> 32u64) as u8,
            b4 == (x >> 24u64) as u8,
            b5 == (x >> 16u64) as u8,
            b6 == (x >> 8u64) as u8,
            b7 == x as u8,
    ;
}

/// A signed 64-bit integer survives the trip through its unsigned bit pattern.
pub proof fn lemma_i64_bits_roundtrip(x: i64)
    ensures
        (x as u64) as i64 == x,
{
    assert((x as u64) as i64 == x) by (bit_vector);
}

/// `BigEndian::read_u16` from `byteorder`: the first two bytes of the slice,
/// most significant first. The slice starts at `pos`; it panics on fewer than
/// two bytes, which `requires` rules out.
#[verifier::external_body]
pub(crate) fn read_be_u16(buf: &[u8], pos: usize) -> (r: u16)
    requires
        pos + 2 <= buf@.len(),
    ensures
        r == u16_from_be(buf@.subrange(pos as int, pos + 2)),
{
    BigEndian::read_u16(&buf[pos..])
}

/// `BigEndian::read_u32` from `byteorder`: the first four bytes of the slice
/// that starts at `pos`, most significant first.
#[verifier::external_body]
pub(crate) fn read_be_u32(buf: &[u8], pos: usize) -> (r: u32)
    requires
        pos + 4 <= buf@.len(),
    ensures
        r == u32_from_be(buf@.subrange(pos as int, pos + 4)),
{
    BigEndian::read_u32(&buf[pos..])
}

/// `BigEndian::read_u64` from `byteorder`: the first eight bytes of the slice
/// that starts at `pos`, most significant first.
#[verifier::external_body]
pub(crate) fn read_be_u64(buf: &[u8], pos: usize) -> (r: u64)
    requires
        pos + 8 <= buf@.len(),
    ensures
        r == u64_from_be(buf@.subrange(pos as int, pos + 8)),
{
    BigEndian::read_u64(&buf[pos..])
}

/// `BigEndian::read_i64` from `byteorder`: the eight bytes read as by
/// `read_u64`, reinterpreted as a two's-complement signed integer.
#[verifier::external_body]
pub(crate) fn read_be_i64(buf: &[u8], pos: usize) -> (r: i64)
    requires
        pos + 8 <= buf@.len(),
    ensures
        r == u64_from_be(buf@.subrange(pos as int, pos + 8)) as i64,
{
    BigEndian::read_i64(&buf[pos..])
}

/// `BigEndian::write_u16` from `byteorder`, into a 2-byte buffer:
/// the two bytes of `n`, most significant first.
#[verifier::external_body]
fn be_bytes_u16(n: u16) -> (r: [u8; 2])
    ensures
        r@ == be_u16(n),
{
    let mut buf = [0u8; 2];
    BigEndian::write_u16(&mut buf, n);
    buf
}

/// Appends the two bytes of `n` to `out`, most significant first.
pub(crate) fn push_be_u16(out: &mut Vec<u8>, n: u16)
    ensures
        final(out)@ == old(out)@ + be_u16(n),
{
    let buf = be_bytes_u16(n);
    out.extend_from_slice(buf.as_slice());
}

/// `BigEndian::write_u32` from `byteorder`, into a 4-byte buffer:
/// the four bytes of `n`, most significant first.
#[verifier::external_body]
fn be_bytes_u32(n: u32) -> (r: [u8; 4])
    ensures
        r@ == be_u32(n),
{
    let mut buf = [0u8; 4];
    BigEndian::write_u32(&mut buf, n);
    buf
}

/// Appends the four bytes of `n` to `out`, most significant first.
pub(crate) fn push_be_u32(out: &mut Vec<u8>, n: u32)
    ensures
        final(out)@ == old(out)@ + be_u32(n),
{
    let buf = be_bytes_u32(n);
    out.extend_from_slice(buf.as_slice());
}

/// `BigEndian::write_u64` from `byteorder`, into a 8-byte buffer:
/// the eight bytes of `n`, most significant first.
#[verifier::external_body]
fn be_bytes_u64(n: u64) -> (r: [u8; 8])
    ensures
        r@ == be_u64(n),
{
    let mut buf = [0u8; 8];
    BigEndian::write_u64(&mut buf, n);
    buf
}

/// Appends the eight bytes of `n` to `out`, most significant first.
pub(crate) fn push_be_u64(out: &mut Vec<u8>, n: u64)
    ensures
        final(out)@ == old(out)@ + be_u64(n),
{
    let buf = be_bytes_u64(n);
    out.extend_from_slice(buf.as_slice());
}

/// `BigEndian::write_i64` from `byteorder`, into a 8-byte buffer:
/// the eight bytes of the bit pattern of `n`, most significant first.
#[verifier::external_body]
fn be_bytes_i64(n: i64) -> (r: [u8; 8])
    ensures
        r@ == be_u64(n as u64),
{
    let mut buf = [0u8; 8];
    BigEndian::write_i64(&mut buf, n);
    buf
}

/// Appends the eight bytes of the bit pattern of `n` to `out`, most significant first.
pub(crate) fn push_be_i64(out: &mut Vec<u8>, n: i64)
    ensures
        final(out)@ == old(out)@ + be_u64(n as u64),
{
    let buf = be_bytes_i64(n);
    out.extend_from_slice(buf.as_slice());
}

} // verus!
