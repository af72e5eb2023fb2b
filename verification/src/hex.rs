use vstd::prelude::*;

verus! {

/// The lowercase ASCII hexadecimal digit for a value below 16.
pub open spec fn hex_digit(d: int) -> u8 {
    if d < 10 {
        (48 + d) as u8
    } else {
        (87 + d) as u8
    }
}

/// The two lowercase hex digits of one byte, high nibble first.
pub open spec fn hex_pair(b: u8) -> Seq<u8> {
    seq![hex_digit(b as int / 16), hex_digit(b as int % 16)]
}

/// The shortest (unpadded) lowercase hex rendering of a non-negative value.
pub open spec fn hex_lower(v: int) -> Seq<u8>
    decreases v,
{
    if v < 16 {
        seq![hex_digit(v)]
    } else {
        hex_lower(v / 16).push(hex_digit(v % 16))
    }
}

/// The contiguous lowercase hex rendering of a byte string, two digits per
/// byte, no separators.
pub open spec fn hex_seq(bytes: Seq<u8>) -> Seq<u8>
    decreases bytes.len(),
{
    if bytes.len() == 0 {
        Seq::empty()
    } else {
        hex_seq(bytes.drop_last()) + hex_pair(bytes.last())
    }
}

/// The fixed-width 8-digit lowercase hex rendering of a 32-bit value,
/// most significant byte first.
pub open spec fn hex32(v: u32) -> Seq<u8> {
    hex_pair((v as int / 16777216) as u8) + hex_pair(((v as int / 65536) % 256) as u8)
        + hex_pair(((v as int / 256) % 256) as u8) + hex_pair((v as int % 256) as u8)
}

/// Appends one byte.
pub fn push_byte(out: &mut Vec<u8>, c: u8)
    ensures
        final(out)@ == old(out)@ + seq![c],
{
    out.push(c);
    proof {
        assert(out@ =~= old(out)@ + seq![c]);
    }
}

/// Appends a copy of a whole byte string.
pub fn push_all(out: &mut Vec<u8>, src: &Vec<u8>)
    ensures
        final(out)@ == old(out)@ + src@,
{
    let mut i: usize = 0;
    while i < src.len()
        invariant
            i <= src.len(),
            out@ == old(out)@ + src@.subrange(0, i as int),
        decreases src.len() - i,
    {
        out.push(src[i]);
        proof {
            assert(out@ =~= old(out)@ + src@.subrange(0, i + 1));
        }
        i += 1;
    }
    proof {
        assert(src@.subrange(0, src@.len() as int) =~= src@);
    }
}

/// Renders one hex digit.
pub fn hex_digit_of(d: u8) -> (c: u8)
    requires
        d < 16,
    ensures
        c == hex_digit(d as int),
{
    if d < 10 {
        48 + d
    } else {
        87 + d
    }
}

/// Appends the two hex digits of one byte.
pub fn push_hex_pair(out: &mut Vec<u8>, b: u8)
    ensures
        final(out)@ == old(out)@ + hex_pair(b),
{
    out.push(hex_digit_of(b / 16));
    out.push(hex_digit_of(b % 16));
    proof {
        assert(out@ =~= old(out)@ + hex_pair(b));
    }
}

/// Appends the unpadded lowercase hex rendering of a value.
pub fn push_hex_u32(out: &mut Vec<u8>, v: u32)
    ensures
        final(out)@ == old(out)@ + hex_lower(v as int),
    decreases v,
{
    if v < 16 {
        out.push(hex_digit_of(v as u8));
        proof {
            assert(out@ =~= old(out)@ + hex_lower(v as int));
        }
    } else {
        push_hex_u32(out, v / 16);
        out.push(hex_digit_of((v % 16) as u8));
        proof {
            assert(out@ =~= old(out)@ + hex_lower(v as int));
        }
    }
}

/// Appends the fixed 8-digit hex rendering of a 32-bit value.
pub fn push_hex32(out: &mut Vec<u8>, v: u32)
    ensures
        final(out)@ == old(out)@ + hex32(v),
{
    push_hex_pair(out, (v / 16777216) as u8);
    push_hex_pair(out, ((v / 65536) % 256) as u8);
    push_hex_pair(out, ((v / 256) % 256) as u8);
    push_hex_pair(out, (v % 256) as u8);
    proof {
        assert(out@ =~= old(out)@ + hex32(v));
    }
}

/// Appends the contiguous hex rendering of a byte string.
pub fn push_hex_seq(out: &mut Vec<u8>, bytes: &Vec<u8>)
    ensures
        final(out)@ == old(out)@ + hex_seq(bytes@),
{
    let mut i: usize = 0;
    while i < bytes.len()
        invariant
            i <= bytes.len(),
            out@ == old(out)@ + hex_seq(bytes@.subrange(0, i as int)),
        decreases bytes.len() - i,
    {
        push_hex_pair(out, bytes[i]);
        proof {
            let pre = bytes@.subrange(0, i as int);
            let post = bytes@.subrange(0, i + 1);
            assert(post.drop_last() =~= pre);
            assert(post.last() == bytes@[i as int]);
            assert(out@ =~= old(out)@ + hex_seq(post));
        }
        i += 1;
    }
    proof {
        assert(bytes@.subrange(0, bytes@.len() as int) =~= bytes@);
    }
}

} // verus!
