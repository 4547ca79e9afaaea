use vstd::prelude::*;

verus! {

/// Unsigned little-endian value of `s[i .. i + 2]`.
pub open spec fn u16_le(s: Seq<u8>, i: int) -> int {
    s[i] as int + s[i + 1] as int * 0x100
}

/// Unsigned little-endian value of `s[i .. i + 3]`.
pub open spec fn u24_le(s: Seq<u8>, i: int) -> int {
    s[i] as int + s[i + 1] as int * 0x100 + s[i + 2] as int * 0x10000
}

/// Unsigned little-endian value of `s[i .. i + 4]`.
pub open spec fn u32_le(s: Seq<u8>, i: int) -> int {
    s[i] as int + s[i + 1] as int * 0x100 + s[i + 2] as int * 0x10000 + s[i + 3] as int
        * 0x1000000
}

/// Unsigned little-endian value of the `width` bytes at `i`.
pub open spec fn unsigned_le(s: Seq<u8>, i: int, width: nat) -> int {
    if width == 1 {
        s[i] as int
    } else if width == 2 {
        u16_le(s, i)
    } else if width == 3 {
        u24_le(s, i)
    } else {
        u32_le(s, i)
    }
}

/// Two's-complement value of the `width` bytes at `i`, little-endian.
pub open spec fn signed_le(s: Seq<u8>, i: int, width: nat) -> int {
    let u = unsigned_le(s, i, width);
    let half = pow256(width) / 2;
    if u >= half {
        u - pow256(width)
    } else {
        u
    }
}

/// `256` to the power `width`, for the widths of a sample.
pub open spec fn pow256(width: nat) -> int {
    if width == 1 {
        0x100
    } else if width == 2 {
        0x10000
    } else if width == 3 {
        0x1000000
    } else {
        0x100000000
    }
}

/// The `width` little-endian two's-complement bytes of `v`.
pub open spec fn signed_bytes(v: int, width: nat) -> Seq<u8> {
    let u = if v < 0 {
        v + pow256(width)
    } else {
        v
    };
    Seq::new(width, |k: int| ((u / pow_byte(k)) % 0x100) as u8)
}

/// `256` to the power `k`, for byte positions within a sample.
pub open spec fn pow_byte(k: int) -> int {
    if k == 0 {
        1
    } else if k == 1 {
        0x100
    } else if k == 2 {
        0x10000
    } else {
        0x1000000
    }
}

/// The 4 little-endian bytes of `v`.
pub open spec fn u32_bytes(v: u32) -> Seq<u8> {
    seq![
        (v % 0x100) as u8,
        ((v / 0x100) % 0x100) as u8,
        ((v / 0x10000) % 0x100) as u8,
        (v / 0x1000000) as u8,
    ]
}

/// The 2 little-endian bytes of `v`.
pub open spec fn u16_bytes(v: u16) -> Seq<u8> {
    seq![(v % 0x100) as u8, (v / 0x100) as u8]
}

/// Reads a little-endian `u16` at `pos`.
pub fn read_u16(b: &[u8], pos: usize) -> (r: u16)
    requires
        pos + 2 <= b@.len(),
    ensures
        r == u16_le(b@, pos as int),
{
    b[pos] as u16 + (b[pos + 1] as u16) * 0x100
}

/// Reads a little-endian `u32` at `pos`.
pub fn read_u32(b: &[u8], pos: usize) -> (r: u32)
    requires
        pos + 4 <= b@.len(),
    ensures
        r == u32_le(b@, pos as int),
{
    b[pos] as u32 + (b[pos + 1] as u32) * 0x100 + (b[pos + 2] as u32) * 0x10000 + (b[
        pos + 3] as u32) * 0x1000000
}

/// Appends the little-endian bytes of `v`.
pub fn write_u16(out: &mut Vec<u8>, v: u16)
    ensures
        final(out)@ == old(out)@ + u16_bytes(v),
{
    out.push((v % 0x100) as u8);
    out.push((v / 0x100) as u8);
    assert(final(out)@ =~= old(out)@ + u16_bytes(v));
}

/// Appends the little-endian bytes of `v`.
pub fn write_u32(out: &mut Vec<u8>, v: u32)
    ensures
        final(out)@ == old(out)@ + u32_bytes(v),
{
    out.push((v % 0x100) as u8);
    out.push(((v / 0x100) % 0x100) as u8);
    out.push(((v / 0x10000) % 0x100) as u8);
    out.push((v / 0x1000000) as u8);
    assert(final(out)@ =~= old(out)@ + u32_bytes(v));
}

/// Reading back the 4 bytes of a value, wherever they stand, gives the value.
pub proof fn lemma_u32_bytes_le(s: Seq<u8>, i: int, v: u32)
    requires
        0 <= i,
        i + 4 <= s.len(),
        s.subrange(i, i + 4) == u32_bytes(v),
    ensures
        u32_le(s, i) == v,
{
    let b = u32_bytes(v);
    assert(s[i] == b[0] && s[i + 1] == b[1] && s[i + 2] == b[2] && s[i + 3] == b[3]) by {
        assert(s.subrange(i, i + 4)[0] == s[i]);
        assert(s.subrange(i, i + 4)[1] == s[i + 1]);
        assert(s.subrange(i, i + 4)[2] == s[i + 2]);
        assert(s.subrange(i, i + 4)[3] == s[i + 3]);
    }
}

/// Reading back the 2 bytes of a value, wherever they stand, gives the value.
pub proof fn lemma_u16_bytes_le(s: Seq<u8>, i: int, v: u16)
    requires
        0 <= i,
        i + 2 <= s.len(),
        s.subrange(i, i + 2) == u16_bytes(v),
    ensures
        u16_le(s, i) == v,
{
    let b = u16_bytes(v);
    assert(s[i] == b[0] && s[i + 1] == b[1]) by {
        assert(s.subrange(i, i + 2)[0] == s[i]);
        assert(s.subrange(i, i + 2)[1] == s[i + 1]);
    }
}

} // verus!
