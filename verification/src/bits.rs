//! 32-bit arithmetic as the processor sees it: wrapping sums, the signed
//! reading of a word, shifts, and the bytes of a word in little-endian order.
use vstd::prelude::*;

verus! {

/// Two to the power 32.
pub open spec fn word_modulus() -> int {
    0x1_0000_0000
}

/// The word that an integer wraps to: its remainder modulo 2^32.
pub open spec fn wrap32(x: int) -> u32 {
    (x % word_modulus()) as u32
}

/// A word read as a two's complement signed number.
pub open spec fn signed(v: u32) -> int {
    if v >= 0x8000_0000 {
        v - word_modulus()
    } else {
        v as int
    }
}

/// Whether an integer fits a signed 32-bit number.
pub open spec fn fits_signed(x: int) -> bool {
    -0x8000_0000 <= x <= 0x7FFF_FFFF
}

/// A word shifted left by `k` places, bits beyond the word dropped.
pub open spec fn shl32(x: u32, k: nat) -> u32
    decreases k,
{
    if k == 0 {
        x
    } else {
        shl32(wrap32(2 * x), (k - 1) as nat)
    }
}

/// Byte `i` of a word, the least significant being byte 0.
pub open spec fn byte_at(v: u32, i: int) -> u8 {
    if i == 0 {
        (v % 256) as u8
    } else if i == 1 {
        ((v / 0x100) % 256) as u8
    } else if i == 2 {
        ((v / 0x1_0000) % 256) as u8
    } else {
        ((v / 0x100_0000) % 256) as u8
    }
}

/// The weight of byte `i` in a word.
pub open spec fn byte_weight(i: int) -> int {
    if i == 0 {
        1
    } else if i == 1 {
        0x100
    } else if i == 2 {
        0x1_0000
    } else {
        0x100_0000
    }
}

/// A word read as a signed number, in a wider type.
pub fn to_signed(v: u32) -> (r: i64)
    ensures
        r == signed(v),
{
    if v >= 0x8000_0000 {
        (v as i64) - 0x1_0000_0000
    } else {
        v as i64
    }
}

/// A word read as a signed 32-bit number.
pub fn signed_word(v: u32) -> (r: i32)
    ensures
        r == signed(v),
{
    if v >= 0x8000_0000 {
        ((v as i64) - 0x1_0000_0000) as i32
    } else {
        v as i32
    }
}

/// The word whose signed reading is `i`.
pub fn from_signed(i: i32) -> (r: u32)
    ensures
        signed(r) == i,
        r == wrap32(i as int),
{
    if i < 0 {
        ((i as i64) + 0x1_0000_0000) as u32
    } else {
        i as u32
    }
}

/// The sum of two words modulo 2^32.
pub fn wrapping_sum(a: u32, b: u32) -> (r: u32)
    ensures
        r == wrap32(a + b),
{
    (((a as u64) + (b as u64)) % 0x1_0000_0000) as u32
}

/// The difference of two words modulo 2^32.
pub fn wrapping_difference(a: u32, b: u32) -> (r: u32)
    ensures
        r == wrap32(a - b),
{
    if a >= b {
        a - b
    } else {
        (((a as u64) + 0x1_0000_0000) - (b as u64)) as u32
    }
}

/// A word moved by a signed offset, wrapping.
pub fn wrapping_offset(a: u32, offset: i32) -> (r: u32)
    ensures
        r == wrap32(a + offset),
{
    let wide: i64 = (a as i64) + (offset as i64);
    if wide < 0 {
        (wide + 0x1_0000_0000) as u32
    } else if wide >= 0x1_0000_0000 {
        (wide - 0x1_0000_0000) as u32
    } else {
        wide as u32
    }
}

/// A word shifted left by `k` modulo 32 places.
pub fn shift_left(x: u32, k: u8) -> (r: u32)
    ensures
        r == shl32(x, (k % 32) as nat),
{
    let n: u8 = k % 32;
    let mut v: u32 = x;
    let mut i: u8 = 0;
    while i < n
        invariant
            i <= n < 32,
            shl32(v, (n - i) as nat) == shl32(x, n as nat),
        decreases n - i,
    {
        v = wrapping_sum(v, v);
        i += 1;
    }
    v
}

/// Byte `i` of a word.
pub fn byte_of(v: u32, i: usize) -> (r: u8)
    requires
        i < 4,
    ensures
        r == byte_at(v, i as int),
{
    if i == 0 {
        (v % 256) as u8
    } else if i == 1 {
        ((v / 0x100) % 256) as u8
    } else if i == 2 {
        ((v / 0x1_0000) % 256) as u8
    } else {
        ((v / 0x100_0000) % 256) as u8
    }
}

/// A byte at the place of byte `i` of a word.
pub fn weighted_byte(b: u8, i: usize) -> (r: u32)
    requires
        i < 4,
    ensures
        r == b * byte_weight(i as int),
{
    let w: u32 = if i == 0 {
        1
    } else if i == 1 {
        0x100
    } else if i == 2 {
        0x1_0000
    } else {
        0x100_0000
    };
    assert(b * w <= 255 * 0x100_0000) by (nonlinear_arith)
        requires
            b <= 255,
            w <= 0x100_0000,
    ;
    (b as u32) * w
}

/// The number of a register as an index.
pub fn index_of(r: u8) -> (i: usize)
    ensures
        i == r,
{
    r as usize
}

/// The low 32 bits of a size.
pub fn low_word(n: usize) -> (r: u32)
    ensures
        r == wrap32(n as int),
{
    ((n as u64) % 0x1_0000_0000) as u32
}

/// A word as an index.
pub fn word_index(v: u32) -> (i: usize)
    ensures
        i == v,
{
    v as usize
}

/// The low 8 bits of a word.
pub fn low_byte(v: u32) -> (r: u8)
    ensures
        r == v % 256,
{
    (v % 256) as u8
}

} // verus!
