//! Little-endian word/byte conversions and bit rotations shared by the
//! RIPEMD-160 and Keccak engines.

use vstd::prelude::*;

verus! {

/// The 32-bit word formed from the four bytes of `b` starting at `off`,
/// least significant byte first.
pub open spec fn le32(b: Seq<u8>, off: int) -> u32
    recommends
        0 <= off,
        off + 4 <= b.len(),
{
    (b[off] as u32) | ((b[off + 1] as u32) << 8u32) | ((b[off + 2] as u32) << 16u32)
        | ((b[off + 3] as u32) << 24u32)
}

/// The 64-bit word formed from the eight bytes of `b` starting at `off`,
/// least significant byte first.
pub open spec fn le64(b: Seq<u8>, off: int) -> u64
    recommends
        0 <= off,
        off + 8 <= b.len(),
{
    (b[off] as u64) | ((b[off + 1] as u64) << 8u64) | ((b[off + 2] as u64) << 16u64)
        | ((b[off + 3] as u64) << 24u64) | ((b[off + 4] as u64) << 32u64)
        | ((b[off + 5] as u64) << 40u64) | ((b[off + 6] as u64) << 48u64)
        | ((b[off + 7] as u64) << 56u64)
}

/// Byte `i` of a 32-bit word, counting from the least significant byte.
pub open spec fn byte32(v: u32, i: int) -> u8
    recommends
        0 <= i < 4,
{
    ((v >> ((8 * i) as u32)) & 0xff) as u8
}

/// Byte `i` of a 64-bit word, counting from the least significant byte.
pub open spec fn byte64(v: u64, i: int) -> u8
    recommends
        0 <= i < 8,
{
    ((v >> ((8 * i) as u64)) & 0xff) as u8
}

/// The four bytes of a 32-bit word, least significant first.
pub open spec fn le32_seq(v: u32) -> Seq<u8> {
    seq![byte32(v, 0), byte32(v, 1), byte32(v, 2), byte32(v, 3)]
}

/// The eight bytes of a 64-bit word, least significant first.
pub open spec fn le64_seq(v: u64) -> Seq<u8> {
    seq![
        byte64(v, 0),
        byte64(v, 1),
        byte64(v, 2),
        byte64(v, 3),
        byte64(v, 4),
        byte64(v, 5),
        byte64(v, 6),
        byte64(v, 7),
    ]
}

/// Left rotation of a 32-bit word by `n` bits.
pub open spec fn rotl32(x: u32, n: int) -> u32
    recommends
        0 < n < 32,
{
    (x << (n as u32)) | (x >> ((32 - n) as u32))
}

/// Left rotation of a 64-bit word by `n` bits.
pub open spec fn rotl64(x: u64, n: int) -> u64
    recommends
        0 <= n < 64,
{
    if n == 0 {
        x
    } else {
        (x << (n as u64)) | (x >> ((64 - n) as u64))
    }
}

pub fn load32(b: &Vec<u8>, off: usize) -> (w: u32)
    requires
        off + 4 <= b@.len(),
    ensures
        w == le32(b@, off as int),
{
    let l: usize = b.len();
    assert(off + 4 <= l);
    (b[off] as u32) | ((b[off + 1] as u32) << 8u32) | ((b[off + 2] as u32) << 16u32)
        | ((b[off + 3] as u32) << 24u32)
}

pub fn load64(b: &Vec<u8>, off: usize) -> (w: u64)
    requires
        off + 8 <= b@.len(),
    ensures
        w == le64(b@, off as int),
{
    let l: usize = b.len();
    assert(off + 8 <= l);
    (b[off] as u64) | ((b[off + 1] as u64) << 8u64) | ((b[off + 2] as u64) << 16u64)
        | ((b[off + 3] as u64) << 24u64) | ((b[off + 4] as u64) << 32u64)
        | ((b[off + 5] as u64) << 40u64) | ((b[off + 6] as u64) << 48u64)
        | ((b[off + 7] as u64) << 56u64)
}

pub fn rotl32_x(x: u32, n: u32) -> (r: u32)
    requires
        0 < n < 32,
    ensures
        r == rotl32(x, n as int),
{
    (x << n) | (x >> (32 - n))
}

pub fn rotl64_x(x: u64, n: u64) -> (r: u64)
    requires
        n < 64,
    ensures
        r == rotl64(x, n as int),
{
    if n == 0 {
        x
    } else {
        (x << n) | (x >> (64 - n))
    }
}

/// Extracts byte `k` of a 64-bit word, least significant byte first.
pub fn byte64_x(v: u64, k: usize) -> (b: u8)
    requires
        k < 8,
    ensures
        b == byte64(v, k as int),
{
    let sh: u64 = (8 * k) as u64;
    proof {
        assert(((v >> sh) & 0xff) < 256) by (bit_vector);
    }
    ((v >> sh) & 0xff) as u8
}

/// Appends the four bytes of `v` to `out`, least significant byte first.
pub fn push32_le(out: &mut Vec<u8>, v: u32)
    ensures
        final(out)@ == old(out)@ + le32_seq(v),
{
    proof {
        assert((v & 0xff) < 256 && ((v >> 8u32) & 0xff) < 256 && ((v >> 16u32) & 0xff) < 256 && ((
        v >> 24u32) & 0xff) < 256 && v >> 0u32 == v) by (bit_vector);
    }
    out.push((v & 0xff) as u8);
    out.push(((v >> 8u32) & 0xff) as u8);
    out.push(((v >> 16u32) & 0xff) as u8);
    out.push(((v >> 24u32) & 0xff) as u8);
    proof {
        assert(out@ =~= old(out)@ + le32_seq(v));
    }
}

/// Appends the eight bytes of `v` to `out`, least significant byte first.
pub fn push64_le(out: &mut Vec<u8>, v: u64)
    ensures
        final(out)@ == old(out)@ + le64_seq(v),
{
    proof {
        assert((v & 0xff) < 256 && ((v >> 8u64) & 0xff) < 256 && ((v >> 16u64) & 0xff) < 256 && ((
        v >> 24u64) & 0xff) < 256 && ((v >> 32u64) & 0xff) < 256 && ((v >> 40u64) & 0xff) < 256
            && ((v >> 48u64) & 0xff) < 256 && ((v >> 56u64) & 0xff) < 256 && v >> 0u64
            == v) by (bit_vector);
    }
    out.push((v & 0xff) as u8);
    out.push(((v >> 8u64) & 0xff) as u8);
    out.push(((v >> 16u64) & 0xff) as u8);
    out.push(((v >> 24u64) & 0xff) as u8);
    out.push(((v >> 32u64) & 0xff) as u8);
    out.push(((v >> 40u64) & 0xff) as u8);
    out.push(((v >> 48u64) & 0xff) as u8);
    out.push(((v >> 56u64) & 0xff) as u8);
    proof {
        assert(out@ =~= old(out)@ + le64_seq(v));
    }
}

} // verus!
