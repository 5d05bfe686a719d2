//! Little-endian integers in byte sequences: the mathematical reading of a
//! field, the executable readers, and the encoders used to write headers back.

use vstd::prelude::*;

verus! {

/// The little-endian `u16` stored at `b[i..i + 2]`.
pub open spec fn le16(b: Seq<u8>, i: int) -> u16 {
    (b[i] + 256 * b[i + 1]) as u16
}

/// The little-endian `u32` stored at `b[i..i + 4]`.
pub open spec fn le32(b: Seq<u8>, i: int) -> u32 {
    (b[i] + 256 * b[i + 1] + 65536 * b[i + 2] + 16777216 * b[i + 3]) as u32
}

/// The little-endian `u64` stored at `b[i..i + 8]`.
pub open spec fn le64(b: Seq<u8>, i: int) -> u64 {
    (le32(b, i) + 4294967296 * le32(b, i + 4)) as u64
}

/// The two bytes of `v`, low byte first.
pub open spec fn u16_bytes(v: u16) -> Seq<u8> {
    seq![(v % 256) as u8, (v / 256) as u8]
}

/// The four bytes of `v`, low byte first.
pub open spec fn u32_bytes(v: u32) -> Seq<u8> {
    seq![
        (v % 256) as u8,
        ((v / 256) % 256) as u8,
        ((v / 65536) % 256) as u8,
        (v / 16777216) as u8,
    ]
}

/// The bytes of a buffer fit in the address space: its length is at most
/// `isize::MAX`, as for every Rust allocation.
pub open spec fn addressable(b: Seq<u8>) -> bool {
    b.len() <= isize::MAX
}

/// A `u32` is the sum of its four bytes, each weighted by its position.
pub proof fn lemma_u32_digits(v: u32)
    ensures
        (v % 256) + 256 * ((v / 256) % 256) + 65536 * ((v / 65536) % 256) + 16777216 * (v
            / 16777216) == v,
        v / 16777216 < 256,
{
    assert((v % 256) + 256 * ((v / 256) % 256) + 65536 * ((v / 65536) % 256) + 16777216 * (v
        / 16777216) == v) by (nonlinear_arith);
}

/// Reading the four bytes of `v` at `i` gives `v`.
pub proof fn lemma_u32_at(s: Seq<u8>, i: int, v: u32)
    requires
        0 <= i,
        i + 4 <= s.len(),
        s[i] == (v % 256) as u8,
        s[i + 1] == ((v / 256) % 256) as u8,
        s[i + 2] == ((v / 65536) % 256) as u8,
        s[i + 3] == (v / 16777216) as u8,
    ensures
        le32(s, i) == v,
{
    lemma_u32_digits(v);
}

/// Encoding the `u16` read at `i` gives back the two bytes there.
pub proof fn lemma_le16_encode(b: Seq<u8>, i: int)
    requires
        0 <= i,
        i + 2 <= b.len(),
    ensures
        u16_bytes(le16(b, i)) == b.subrange(i, i + 2),
{
    assert(u16_bytes(le16(b, i)) =~= b.subrange(i, i + 2));
}

/// Reads the little-endian `u16` at `s[i..i + 2]`.
pub fn get_le16(s: &[u8], i: usize) -> (r: u16)
    requires
        i + 2 <= s@.len(),
    ensures
        r == le16(s@, i as int),
{
    s[i] as u16 + (s[i + 1] as u16) * 256
}

/// Reads the little-endian `u32` at `s[i..i + 4]`.
pub fn get_le32(s: &[u8], i: usize) -> (r: u32)
    requires
        i + 4 <= s@.len(),
    ensures
        r == le32(s@, i as int),
{
    s[i] as u32 + (s[i + 1] as u32) * 256 + (s[i + 2] as u32) * 65536 + (s[i + 3] as u32)
        * 16777216
}

/// Reads the little-endian `u64` at `s[i..i + 8]`.
pub fn get_le64(s: &[u8], i: usize) -> (r: u64)
    requires
        i + 8 <= s@.len(),
    ensures
        r == le64(s@, i as int),
{
    let _n = s.len();
    let lo = get_le32(s, i) as u64;
    let hi = get_le32(s, i + 4) as u64;
    lo + hi * 4294967296
}

/// Appends the two bytes of `v`, low byte first.
pub fn push_u16(out: &mut Vec<u8>, v: u16)
    ensures
        final(out)@ == old(out)@ + u16_bytes(v),
{
    out.push((v % 256) as u8);
    out.push((v / 256) as u8);
    assert(final(out)@ =~= old(out)@ + u16_bytes(v));
}

/// Appends the four bytes of `v`, low byte first.
pub fn push_u32(out: &mut Vec<u8>, v: u32)
    ensures
        final(out)@ == old(out)@ + u32_bytes(v),
{
    out.push((v % 256) as u8);
    out.push(((v / 256) % 256) as u8);
    out.push(((v / 65536) % 256) as u8);
    out.push((v / 16777216) as u8);
    assert(final(out)@ =~= old(out)@ + u32_bytes(v));
}

} // verus!
