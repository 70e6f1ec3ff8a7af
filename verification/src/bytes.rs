//! Little-endian views of byte sequences: spec-level readers for the integer
//! widths the wire format uses, and lemmas relating them to the bytes an
//! encoder emits.
use vstd::prelude::*;

verus! {

/// The 16-bit little-endian value held by the two bytes of `s` at `i`.
pub open spec fn le16(s: Seq<u8>, i: int) -> u16 {
    (s[i] as u16) | ((s[i + 1] as u16) << 8)
}

/// The 32-bit little-endian value held by the four bytes of `s` at `i`.
pub open spec fn le32(s: Seq<u8>, i: int) -> u32 {
    (s[i] as u32) | ((s[i + 1] as u32) << 8) | ((s[i + 2] as u32) << 16) | ((s[i + 3] as u32)
        << 24)
}

/// The 64-bit little-endian value held by the eight bytes of `s` at `i`.
pub open spec fn le64(s: Seq<u8>, i: int) -> u64 {
    (s[i] as u64) | ((s[i + 1] as u64) << 8) | ((s[i + 2] as u64) << 16) | ((s[i + 3] as u64)
        << 24) | ((s[i + 4] as u64) << 32) | ((s[i + 5] as u64) << 40) | ((s[i + 6] as u64) << 48)
        | ((s[i + 7] as u64) << 56)
}

/// The two bytes that encode `v` little-endian.
pub open spec fn le16_bytes(v: u16) -> Seq<u8> {
    seq![(v & 0xff) as u8, ((v >> 8) & 0xff) as u8]
}

/// The four bytes that encode `v` little-endian.
pub open spec fn le32_bytes(v: u32) -> Seq<u8> {
    seq![
        (v & 0xff) as u8,
        ((v >> 8) & 0xff) as u8,
        ((v >> 16) & 0xff) as u8,
        ((v >> 24) & 0xff) as u8,
    ]
}

/// The eight bytes that encode `v` little-endian.
pub open spec fn le64_bytes(v: u64) -> Seq<u8> {
    seq![
        (v & 0xff) as u8,
        ((v >> 8) & 0xff) as u8,
        ((v >> 16) & 0xff) as u8,
        ((v >> 24) & 0xff) as u8,
        ((v >> 32) & 0xff) as u8,
        ((v >> 40) & 0xff) as u8,
        ((v >> 48) & 0xff) as u8,
        ((v >> 56) & 0xff) as u8,
    ]
}

/// Two bytes that each match `le16_bytes(v)` read back as `v`.
pub proof fn lemma_le16_recompose(s: Seq<u8>, i: int, v: u16)
    requires
        0 <= i,
        i + 2 <= s.len(),
        s[i] == le16_bytes(v)[0],
        s[i + 1] == le16_bytes(v)[1],
    ensures
        le16(s, i) == v,
{
    let b0 = (v & 0xff) as u8;
    let b1 = ((v >> 8) & 0xff) as u8;
    assert((b0 as u16) | ((b1 as u16) << 8) == v) by (bit_vector)
        requires
            b0 == (v & 0xff) as u8 && b1 == ((v >> 8) & 0xff) as u8,
    ;
}

/// Four bytes that each match `le32_bytes(v)` read back as `v`.
pub proof fn lemma_le32_recompose(s: Seq<u8>, i: int, v: u32)
    requires
        0 <= i,
        i + 4 <= s.len(),
        s[i] == le32_bytes(v)[0],
        s[i + 1] == le32_bytes(v)[1],
        s[i + 2] == le32_bytes(v)[2],
        s[i + 3] == le32_bytes(v)[3],
    ensures
        le32(s, i) == v,
{
    let b0 = (v & 0xff) as u8;
    let b1 = ((v >> 8) & 0xff) as u8;
    let b2 = ((v >> 16) & 0xff) as u8;
    let b3 = ((v >> 24) & 0xff) as u8;
    assert((b0 as u32) | ((b1 as u32) << 8) | ((b2 as u32) << 16) | ((b3 as u32) << 24) == v)
        by (bit_vector)
        requires
            b0 == (v & 0xff) as u8 && b1 == ((v >> 8) & 0xff) as u8 && b2 == ((v >> 16) & 0xff)
                as u8 && b3 == ((v >> 24) & 0xff) as u8,
    ;
}

/// A 16-bit little-endian value is zero exactly when both of its bytes are.
pub proof fn lemma_le16_zero(b0: u8, b1: u8)
    ensures
        (((b0 as u16) | ((b1 as u16) << 8)) == 0) == (b0 == 0 && b1 == 0),
{
    assert((((b0 as u16) | ((b1 as u16) << 8)) == 0) == (b0 == 0 && b1 == 0)) by (bit_vector);
}

} // verus!
