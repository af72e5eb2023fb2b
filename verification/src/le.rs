use vstd::prelude::*;

verus! {

/// The value of a two-byte little-endian integer with low byte `lo` and high
/// byte `hi`.
pub open spec fn le16(lo: u8, hi: u8) -> u16 {
    (lo + 256 * hi) as u16
}

/// The 16-bit little-endian integer stored at byte offset `i` of `a`.
pub open spec fn le16_at(a: Seq<u8>, i: int) -> u16 {
    le16(a[i], a[i + 1])
}

/// The 32-bit little-endian integer stored at byte offset `i` of `a`.
pub open spec fn le32_at(a: Seq<u8>, i: int) -> u32 {
    (a[i] + 256 * a[i + 1] + 65536 * a[i + 2] + 16777216 * a[i + 3]) as u32
}

/// Decodes a 2-byte little-endian unsigned integer from a slice of exactly
/// two bytes. Bounds are the caller's responsibility.
pub fn u16_to_le(byteslice: &[u8]) -> (v: u16)
    requires
        byteslice@.len() == 2,
    ensures
        v == le16_at(byteslice@, 0),
{
    (byteslice[0] as u16) + 256 * (byteslice[1] as u16)
}

/// Decodes a 4-byte little-endian unsigned integer from a slice of exactly
/// four bytes. Bounds are the caller's responsibility.
pub fn u32_to_le(byteslice: &[u8]) -> (v: u32)
    requires
        byteslice@.len() == 4,
    ensures
        v == le32_at(byteslice@, 0),
{
    (byteslice[0] as u32) + 256 * (byteslice[1] as u32) + 65536 * (byteslice[2] as u32)
        + 16777216 * (byteslice[3] as u32)
}

/// Reads the 16-bit little-endian integer at offset `i` of `a`.
pub fn read_u16(a: &Vec<u8>, i: usize) -> (v: u16)
    requires
        i + 2 <= a.len(),
    ensures
        v == le16_at(a@, i as int),
{
    u16_to_le(&a[i..i + 2])
}

/// Reads the 32-bit little-endian integer at offset `i` of `a`.
pub fn read_u32(a: &Vec<u8>, i: usize) -> (v: u32)
    requires
        i + 4 <= a.len(),
    ensures
        v == le32_at(a@, i as int),
{
    u32_to_le(&a[i..i + 4])
}

/// Copies the byte range `[start, end)` of `a` into a fresh vector.
pub fn copy_range(a: &Vec<u8>, start: usize, end: usize) -> (v: Vec<u8>)
    requires
        start <= end <= a.len(),
    ensures
        v@ == a@.subrange(start as int, end as int),
{
    let mut v: Vec<u8> = Vec::new();
    let mut i: usize = start;
    while i < end
        invariant
            start <= i <= end <= a.len(),
            v@ == a@.subrange(start as int, i as int),
        decreases end - i,
    {
        v.push(a[i]);
        proof {
            assert(a@.subrange(start as int, (i + 1) as int) =~= a@.subrange(
                start as int,
                i as int,
            ).push(a@[i as int]));
        }
        i += 1;
    }
    v
}

} // verus!
