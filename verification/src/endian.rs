//! Little-endian integers as they lie in a packet, and the calls into
//! `byteorder` that read and write them.

use byteorder::{ByteOrder, LittleEndian};
use vstd::prelude::*;

verus! {

/// The four bytes of `n`, least significant first.
pub open spec fn u32_le_bytes(n: u32) -> Seq<u8> {
    seq![
        (n % 256) as u8,
        ((n / 256) % 256) as u8,
        ((n / 65536) % 256) as u8,
        ((n / 16777216) % 256) as u8,
    ]
}

/// The number whose little-endian bytes are the first four of `b`.
pub open spec fn u32_from_le(b: Seq<u8>) -> u32
    recommends
        b.len() >= 4,
{
    (b[0] + b[1] * 256 + b[2] * 65536 + b[3] * 16777216) as u32
}

/// The two bytes of `n` in two's complement, least significant first.
pub open spec fn i16_le_bytes(n: i16) -> Seq<u8> {
    let u: int = if n < 0 {
        n + 65536
    } else {
        n as int
    };
    seq![(u % 256) as u8, (u / 256) as u8]
}

/// The signed number whose little-endian two's complement bytes are the
/// first two of `b`.
pub open spec fn i16_from_le(b: Seq<u8>) -> i16
    recommends
        b.len() >= 2,
{
    let u: int = b[0] + b[1] * 256;
    if u >= 32768 {
        (u - 65536) as i16
    } else {
        u as i16
    }
}

/// Reading back the bytes written for `n` gives `n`.
pub proof fn lemma_u32_le_roundtrip(n: u32)
    ensures
        u32_le_bytes(n).len() == 4,
        u32_from_le(u32_le_bytes(n)) == n,
{
}

/// Writing the number read from four bytes gives those bytes.
pub proof fn lemma_u32_le_bytes_of_from_le(b: Seq<u8>)
    requires
        b.len() == 4,
    ensures
        u32_le_bytes(u32_from_le(b)) == b,
{
    let low: int = b[0] + b[1] * 256;
    let high: int = b[2] + b[3] * 256;
    let n: int = low + high * 65536;
    assert(n == b[0] + (b[1] + high * 256) * 256);
    assert(n % 256 == b[0] && n / 256 == b[1] + high * 256);
    assert((n / 256) % 256 == b[1]);
    assert(n / 65536 == high);
    assert(n / 16777216 == b[3]);
    assert(u32_le_bytes(u32_from_le(b)) =~= b);
}

/// Reading back the bytes written for a sample gives the sample.
pub proof fn lemma_i16_le_roundtrip(n: i16)
    ensures
        i16_le_bytes(n).len() == 2,
        i16_from_le(i16_le_bytes(n)) == n,
{
}

/// `byteorder::LittleEndian::read_u32`: the unsigned number held, least
/// significant byte first, in the first four bytes of `buf`. The call
/// panics on a shorter buffer, which the precondition rules out.
#[verifier::external_body]
pub(crate) fn read_u32_le(buf: &[u8]) -> (n: u32)
    requires
        buf@.len() >= 4,
    ensures
        n == u32_from_le(buf@),
{
    LittleEndian::read_u32(buf)
}

/// `byteorder::LittleEndian::write_u32` into a fresh four-byte buffer: the
/// bytes of `n`, least significant first.
#[verifier::external_body]
pub(crate) fn write_u32_le(n: u32) -> (out: [u8; 4])
    ensures
        out@ == u32_le_bytes(n),
{
    let mut out = [0u8; 4];
    LittleEndian::write_u32(&mut out, n);
    out
}

/// `byteorder::LittleEndian::read_i16`: the signed number held in two's
/// complement, least significant byte first, in the first two bytes of
/// `buf`. The call panics on a shorter buffer, which the precondition rules
/// out.
#[verifier::external_body]
pub(crate) fn read_i16_le(buf: &[u8]) -> (n: i16)
    requires
        buf@.len() >= 2,
    ensures
        n == i16_from_le(buf@),
{
    LittleEndian::read_i16(buf)
}

/// `i16::to_le_bytes`: the two bytes of `n` in two's complement, least
/// significant first.
#[verifier::external_body]
pub(crate) fn i16_to_le(n: i16) -> (out: [u8; 2])
    ensures
        out@ == i16_le_bytes(n),
{
    n.to_le_bytes()
}

} // verus!
