//! Little-endian byte-level encoding and decoding of the fixed-width values
//! the file format uses: 32-bit and 64-bit unsigned integers.

use vstd::prelude::*;

verus! {

/// The value of the four bytes of `s` starting at `pos`, read little-endian.
pub open spec fn le_u32_at(s: Seq<u8>, pos: int) -> int {
    s[pos] + 0x100 * s[pos + 1] + 0x1_0000 * s[pos + 2] + 0x100_0000 * s[pos + 3]
}

/// The value of the eight bytes of `s` starting at `pos`, read little-endian.
pub open spec fn le_u64_at(s: Seq<u8>, pos: int) -> int {
    s[pos] + 0x100 * s[pos + 1] + 0x1_0000 * s[pos + 2] + 0x100_0000 * s[pos + 3] + 0x1_0000_0000
        * s[pos + 4] + 0x100_0000_0000 * s[pos + 5] + 0x1_0000_0000_0000 * s[pos + 6]
        + 0x100_0000_0000_0000 * s[pos + 7]
}

/// The sequence of `count` little-endian 32-bit values starting at `pos` in
/// `s`, each four bytes wide.
pub open spec fn le_u32_seq(s: Seq<u8>, pos: int, count: int) -> Seq<u32> {
    Seq::new(
        if count >= 0 {
            count as nat
        } else {
            0
        },
        |k: int| le_u32_at(s, pos + 4 * k) as u32,
    )
}

/// The four bytes that encode `v` little-endian.
pub open spec fn u32_le_bytes(v: u32) -> Seq<u8> {
    seq![
        (v % 0x100) as u8,
        ((v / 0x100) % 0x100) as u8,
        ((v / 0x1_0000) % 0x100) as u8,
        ((v / 0x100_0000) % 0x100) as u8,
    ]
}

/// The eight bytes that encode `v` little-endian.
pub open spec fn u64_le_bytes(v: u64) -> Seq<u8> {
    seq![
        (v % 0x100) as u8,
        ((v / 0x100) % 0x100) as u8,
        ((v / 0x1_0000) % 0x100) as u8,
        ((v / 0x100_0000) % 0x100) as u8,
        ((v / 0x1_0000_0000) % 0x100) as u8,
        ((v / 0x100_0000_0000) % 0x100) as u8,
        ((v / 0x1_0000_0000_0000) % 0x100) as u8,
        ((v / 0x100_0000_0000_0000) % 0x100) as u8,
    ]
}

/// Decoding the four bytes that encode a 32-bit value gives the value back.
pub proof fn lemma_u32_le_round_trip(v: u32)
    ensures
        le_u32_at(u32_le_bytes(v), 0) == v,
{
    assert(v % 0x100 + 0x100 * ((v / 0x100) % 0x100) + 0x1_0000 * ((v / 0x1_0000) % 0x100)
        + 0x100_0000 * ((v / 0x100_0000) % 0x100) == v) by (bit_vector);
}

/// Decoding the eight bytes that encode a 64-bit value gives the value back.
pub proof fn lemma_u64_le_round_trip(v: u64)
    ensures
        le_u64_at(u64_le_bytes(v), 0) == v,
{
    assert(v % 0x100 + 0x100 * ((v / 0x100) % 0x100) + 0x1_0000 * ((v / 0x1_0000) % 0x100)
        + 0x100_0000 * ((v / 0x100_0000) % 0x100) + 0x1_0000_0000 * ((v / 0x1_0000_0000) % 0x100)
        + 0x100_0000_0000 * ((v / 0x100_0000_0000) % 0x100) + 0x1_0000_0000_0000 * ((v
        / 0x1_0000_0000_0000) % 0x100) + 0x100_0000_0000_0000 * ((v / 0x100_0000_0000_0000) % 0x100)
        == v) by (bit_vector);
}

/// Reads the little-endian 32-bit value stored at `pos`.
pub fn read_le_u32(s: &Vec<u8>, pos: usize) -> (r: u32)
    requires
        pos + 4 <= s@.len(),
    ensures
        r == le_u32_at(s@, pos as int),
{
    let n: usize = s.len();
    assert(pos + 4 <= n);
    let b0 = s[pos] as u32;
    let b1 = s[pos + 1] as u32;
    let b2 = s[pos + 2] as u32;
    let b3 = s[pos + 3] as u32;
    b0 + b1 * 0x100 + b2 * 0x1_0000 + b3 * 0x100_0000
}

/// Reads the little-endian 64-bit value stored at `pos`.
pub fn read_le_u64(s: &Vec<u8>, pos: usize) -> (r: u64)
    requires
        pos + 8 <= s@.len(),
    ensures
        r == le_u64_at(s@, pos as int),
{
    let n: usize = s.len();
    assert(pos + 8 <= n);
    let b0 = s[pos] as u64;
    let b1 = s[pos + 1] as u64;
    let b2 = s[pos + 2] as u64;
    let b3 = s[pos + 3] as u64;
    let b4 = s[pos + 4] as u64;
    let b5 = s[pos + 5] as u64;
    let b6 = s[pos + 6] as u64;
    let b7 = s[pos + 7] as u64;
    b0 + b1 * 0x100 + b2 * 0x1_0000 + b3 * 0x100_0000 + b4 * 0x1_0000_0000 + b5 * 0x100_0000_0000
        + b6 * 0x1_0000_0000_0000 + b7 * 0x100_0000_0000_0000
}

/// Appends the four bytes that encode `v` little-endian.
pub fn push_le_u32(out: &mut Vec<u8>, v: u32)
    ensures
        final (out)@ == old(out)@ + u32_le_bytes(v),
{
    out.push((v % 0x100) as u8);
    out.push((v / 0x100 % 0x100) as u8);
    out.push((v / 0x1_0000 % 0x100) as u8);
    out.push((v / 0x100_0000 % 0x100) as u8);
    assert(out@ =~= old(out)@ + u32_le_bytes(v));
}

/// Appends the eight bytes that encode `v` little-endian.
pub fn push_le_u64(out: &mut Vec<u8>, v: u64)
    ensures
        final (out)@ == old(out)@ + u64_le_bytes(v),
{
    out.push((v % 0x100) as u8);
    out.push((v / 0x100 % 0x100) as u8);
    out.push((v / 0x1_0000 % 0x100) as u8);
    out.push((v / 0x100_0000 % 0x100) as u8);
    out.push((v / 0x1_0000_0000 % 0x100) as u8);
    out.push((v / 0x100_0000_0000 % 0x100) as u8);
    out.push((v / 0x1_0000_0000_0000 % 0x100) as u8);
    out.push((v / 0x100_0000_0000_0000 % 0x100) as u8);
    assert(out@ =~= old(out)@ + u64_le_bytes(v));
}

} // verus!
