//! Integers in byte sequences, little-endian and big-endian, and helpers that
//! read them from a byte slice and append them to a byte vector.

use byteorder::{BigEndian, ByteOrder, LittleEndian};
use vstd::prelude::*;

verus! {

/// The 16-bit value whose little-endian bytes are `lo`, `hi`.
pub open spec fn u16_le(lo: u8, hi: u8) -> u16 {
    (lo as int + 256 * (hi as int)) as u16
}

/// The 32-bit value whose little-endian bytes are `b0` to `b3`.
pub open spec fn u32_le(b0: u8, b1: u8, b2: u8, b3: u8) -> u32 {
    (b0 as int + 256 * (b1 as int) + 65536 * (b2 as int) + 16777216 * (b3 as int)) as u32
}

/// The two little-endian bytes of `n`.
pub open spec fn u16_le_bytes(n: u16) -> Seq<u8> {
    seq![(n % 256) as u8, (n / 256) as u8]
}

/// The four little-endian bytes of `n`.
pub open spec fn u32_le_bytes(n: u32) -> Seq<u8> {
    seq![
        (n % 256) as u8,
        (n / 256 % 256) as u8,
        (n / 65536 % 256) as u8,
        (n / 16777216) as u8,
    ]
}

/// The two big-endian bytes of `n`.
pub open spec fn u16_be_bytes(n: u16) -> Seq<u8> {
    seq![(n / 256) as u8, (n % 256) as u8]
}

/// The big-endian 16-bit value stored in `s` at offset `at`.
pub open spec fn u16_be_at(s: Seq<u8>, at: int) -> u16
    recommends
        0 <= at,
        at + 2 <= s.len(),
{
    u16_le(s[at + 1], s[at])
}

/// The little-endian 16-bit value stored in `s` at offset `at`.
pub open spec fn u16_at(s: Seq<u8>, at: int) -> u16
    recommends
        0 <= at,
        at + 2 <= s.len(),
{
    u16_le(s[at], s[at + 1])
}

/// The little-endian 32-bit value stored in `s` at offset `at`.
pub open spec fn u32_at(s: Seq<u8>, at: int) -> u32
    recommends
        0 <= at,
        at + 4 <= s.len(),
{
    u32_le(s[at], s[at + 1], s[at + 2], s[at + 3])
}

/// `n` zero bytes.
pub open spec fn zeros(n: nat) -> Seq<u8> {
    Seq::new(n, |i: int| 0u8)
}

/// Appending to a sequence keeps what it held and puts the addition behind.
pub proof fn lemma_prefix_kept(a: Seq<u8>, b: Seq<u8>)
    ensures
        (a + b).len() == a.len() + b.len(),
        forall|i: int| 0 <= i < a.len() ==> #[trigger] (a + b)[i] == a[i],
        forall|i: int| 0 <= i < b.len() ==> #[trigger] (a + b)[a.len() + i] == b[i],
{
}

/// Reading back the bytes of a 16-bit value gives the value.
pub proof fn lemma_u16_le_roundtrip(n: u16)
    ensures
        u16_le_bytes(n).len() == 2,
        u16_at(u16_le_bytes(n), 0) == n,
        u16_le(u16_le_bytes(n)[0], u16_le_bytes(n)[1]) == n,
{
}

/// Reading back the bytes of a 32-bit value gives the value.
pub proof fn lemma_u32_le_roundtrip(n: u32)
    ensures
        u32_le_bytes(n).len() == 4,
        u32_at(u32_le_bytes(n), 0) == n,
{
}

/// Calls `byteorder::LittleEndian::read_u16`, which reads the first two bytes
/// of the slice as a little-endian number and panics on a shorter slice.
#[verifier::external_body]
fn le_read_u16(buf: &[u8]) -> (n: u16)
    requires
        buf@.len() >= 2,
    ensures
        n == u16_at(buf@, 0),
{
    LittleEndian::read_u16(buf)
}

/// Calls `byteorder::LittleEndian::read_u32`, which reads the first four bytes
/// of the slice as a little-endian number and panics on a shorter slice.
#[verifier::external_body]
fn le_read_u32(buf: &[u8]) -> (n: u32)
    requires
        buf@.len() >= 4,
    ensures
        n == u32_at(buf@, 0),
{
    LittleEndian::read_u32(buf)
}

/// Calls `byteorder::LittleEndian::write_u16` on a two-byte buffer, which it
/// fills with the little-endian bytes of `n`.
#[verifier::external_body]
fn le_write_u16(n: u16) -> (b: [u8; 2])
    ensures
        b@ == u16_le_bytes(n),
{
    let mut b = [0u8; 2];
    LittleEndian::write_u16(&mut b, n);
    b
}

/// Calls `byteorder::LittleEndian::write_u32` on a four-byte buffer, which it
/// fills with the little-endian bytes of `n`.
#[verifier::external_body]
fn le_write_u32(n: u32) -> (b: [u8; 4])
    ensures
        b@ == u32_le_bytes(n),
{
    let mut b = [0u8; 4];
    LittleEndian::write_u32(&mut b, n);
    b
}

/// Calls `byteorder::BigEndian::read_u16`, which reads the first two bytes of
/// the slice as a big-endian number and panics on a shorter slice.
#[verifier::external_body]
fn be_read_u16(buf: &[u8]) -> (n: u16)
    requires
        buf@.len() >= 2,
    ensures
        n == u16_be_at(buf@, 0),
{
    BigEndian::read_u16(buf)
}

/// Calls `byteorder::BigEndian::write_u16` on a two-byte buffer, which it
/// fills with the big-endian bytes of `n`.
#[verifier::external_body]
fn be_write_u16(n: u16) -> (b: [u8; 2])
    ensures
        b@ == u16_be_bytes(n),
{
    let mut b = [0u8; 2];
    BigEndian::write_u16(&mut b, n);
    b
}

/// The big-endian 16-bit value at offset `at` of `b`.
pub fn get_u16_be(b: &[u8], at: usize) -> (n: u16)
    requires
        at + 2 <= b.len(),
    ensures
        n == u16_be_at(b@, at as int),
{
    be_read_u16(&b[at..at + 2])
}

/// Appends the big-endian bytes of `n`.
pub fn put_u16_be(out: &mut Vec<u8>, n: u16)
    ensures
        final(out)@ == old(out)@ + u16_be_bytes(n),
{
    let b = be_write_u16(n);
    out.push(b[0]);
    out.push(b[1]);
}

/// The little-endian 16-bit value at offset `at` of `b`.
pub fn get_u16(b: &[u8], at: usize) -> (n: u16)
    requires
        at + 2 <= b.len(),
    ensures
        n == u16_at(b@, at as int),
{
    le_read_u16(&b[at..at + 2])
}

/// The little-endian 32-bit value at offset `at` of `b`.
pub fn get_u32(b: &[u8], at: usize) -> (n: u32)
    requires
        at + 4 <= b.len(),
    ensures
        n == u32_at(b@, at as int),
{
    le_read_u32(&b[at..at + 4])
}

/// Appends the little-endian bytes of `n`.
pub fn put_u16(out: &mut Vec<u8>, n: u16)
    ensures
        final(out)@ == old(out)@ + u16_le_bytes(n),
{
    let b = le_write_u16(n);
    out.push(b[0]);
    out.push(b[1]);
}

/// Appends the little-endian bytes of `n`.
pub fn put_u32(out: &mut Vec<u8>, n: u32)
    ensures
        final(out)@ == old(out)@ + u32_le_bytes(n),
{
    let b = le_write_u32(n);
    out.push(b[0]);
    out.push(b[1]);
    out.push(b[2]);
    out.push(b[3]);
}

/// Appends all of `bytes`.
pub fn put_bytes(out: &mut Vec<u8>, bytes: &[u8])
    ensures
        final(out)@ == old(out)@ + bytes@,
{
    let mut i: usize = 0;
    while i < bytes.len()
        invariant
            i <= bytes@.len(),
            out@ == old(out)@ + bytes@.subrange(0, i as int),
        decreases bytes@.len() - i,
    {
        out.push(bytes[i]);
        i += 1;
    }
    assert(bytes@.subrange(0, i as int) == bytes@);
}

/// Appends zero bytes until `out` is `len` bytes long; a longer `out` stays as
/// it is.
pub fn pad_to(out: &mut Vec<u8>, len: usize)
    ensures
        old(out)@.len() >= len ==> final(out)@ == old(out)@,
        old(out)@.len() < len ==> final(out)@ == old(out)@ + zeros((len - old(out)@.len()) as nat),
{
    while out.len() < len
        invariant
            old(out)@.len() <= out@.len(),
            out@.len() <= len || out@.len() == old(out)@.len(),
            out@ == old(out)@ + zeros((out@.len() - old(out)@.len()) as nat),
        decreases len - out@.len(),
    {
        out.push(0u8);
    }
}

/// `mask` where `on` holds, else zero: one flag of a packed byte.
pub open spec fn spec_flag(on: bool, mask: u8) -> u8 {
    if on {
        mask
    } else {
        0
    }
}

/// `mask` where `on` holds, else zero.
pub fn flag(on: bool, mask: u8) -> (b: u8)
    ensures
        b == spec_flag(on, mask),
{
    if on {
        mask
    } else {
        0
    }
}

} // verus!
