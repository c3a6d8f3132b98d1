//! Modular-arithmetic helpers shared by the kernels: the hardware computes in
//! 32-bit unsigned arithmetic that wraps, and the contracts state results
//! through `wrap32`, the residue modulo 2^32.

use vstd::prelude::*;
use vstd::arithmetic::div_mod::*;
use vstd::arithmetic::power2::{pow2, lemma2_to64};
use vstd::bits::{
    lemma_u32_shr_is_div, lemma_u16_shr_is_div, lemma_u8_shr_is_div, lemma_usize_low_bits_mask_is_mod,
    lemma_u32_low_bits_mask_is_mod, low_bits_mask, lemma_low_bits_mask_values,
};

verus! {

/// The value of `x` modulo 2^32, as a `u32`.
pub open spec fn wrap32(x: int) -> u32 {
    (x % 0x1_0000_0000int) as u32
}

/// A chain of wrapping products and sums computes the residue of the
/// mathematical sum.
/// Wrapping addition is addition modulo 2^32.
pub proof fn lemma_wrap_add(x: u32, y: u32)
    ensures
        x.wrapping_add(y) as int == (x + y) % 0x1_0000_0000int,
        x.wrapping_add(y) == wrap32(x + y),
{
    if x + y >= 0x1_0000_0000int {
        assert((x + y) % 0x1_0000_0000int == x + y - 0x1_0000_0000int);
    } else {
        assert((x + y) % 0x1_0000_0000int == x + y);
    }
}

/// A chain of wrapping products and sums computes the residue of the
/// mathematical sum.
pub proof fn lemma_wrap_mul_add(a: u32, e: u32, b: u32, f: u32, k: u32)
    ensures
        a.wrapping_mul(e).wrapping_add(b.wrapping_mul(f)).wrapping_add(k) == wrap32(
            a * e + b * f + k,
        ),
{
    let m: int = 0x1_0000_0000int;
    let p: int = a * e;
    let q: int = b * f;
    let pm: u32 = a.wrapping_mul(e);
    let qm: u32 = b.wrapping_mul(f);
    assert(pm as int == p % m);
    assert(qm as int == q % m);
    lemma_wrap_add(pm, qm);
    lemma_add_mod_noop(p, q, m);
    let s1: u32 = pm.wrapping_add(qm);
    assert(s1 as int == (p + q) % m);
    lemma_wrap_add(s1, k);
    lemma_add_mod_noop(p + q, k as int, m);
    lemma_mod_twice(p + q, m);
    lemma_small_mod(k as nat, m as nat);
}

/// Wrapping subtraction is subtraction modulo 2^32.
pub proof fn lemma_wrap_sub(x: u32, y: u32)
    ensures
        x.wrapping_sub(y) == wrap32(x - y),
{
    if x - y < 0 {
        assert((x - y) % 0x1_0000_0000int == x - y + 0x1_0000_0000int);
    } else {
        assert((x - y) % 0x1_0000_0000int == x - y);
    }
}

/// A wrapping sum of two wrapping products is the residue of the
/// mathematical sum.
pub proof fn lemma_wrap_mul_add2(a: u32, e: u32, b: u32, f: u32)
    ensures
        a.wrapping_mul(e).wrapping_add(b.wrapping_mul(f)) == wrap32(a * e + b * f),
{
    let m: int = 0x1_0000_0000int;
    let p: int = a * e;
    let q: int = b * f;
    let pm: u32 = a.wrapping_mul(e);
    let qm: u32 = b.wrapping_mul(f);
    lemma_wrap_add(pm, qm);
    lemma_add_mod_noop(p, q, m);
}

/// Reducing an intermediate sum modulo 2^32 does not change the final residue.
pub proof fn lemma_wrap32_add(x: int, y: int)
    ensures
        wrap32(wrap32(x) + y) == wrap32(x + y),
{
    let m: int = 0x1_0000_0000int;
    lemma_add_mod_noop(x, y, m);
    lemma_add_mod_noop(x % m, y, m);
    lemma_mod_twice(x, m);
}

/// A `u32` is its own residue.
pub proof fn lemma_wrap32_small(x: int)
    requires
        0 <= x < 0x1_0000_0000int,
    ensures
        wrap32(x) == x,
{
    lemma_small_mod(x as nat, 0x1_0000_0000nat);
}

/// A masked 32-bit word is at most the mask and at most the word.
pub proof fn lemma_and_le_u32(x: u32, m: u32)
    by (bit_vector)
    ensures
        x & m <= m,
        x & m <= x,
        (x & m) & m == x & m,
{
}

/// A masked 16-bit word is at most the mask and at most the word.
pub proof fn lemma_and_le_u16(x: u16, m: u16)
    by (bit_vector)
    ensures
        x & m <= m,
        x & m <= x,
{
}

/// A masked byte is at most the mask and at most the byte.
pub proof fn lemma_and_le_u8(x: u8, m: u8)
    by (bit_vector)
    ensures
        x & m <= m,
        x & m <= x,
{
}

/// A masked signed word with a non-negative mask lies between 0 and the mask.
pub proof fn lemma_and_le_i32(x: i32, m: i32)
    by (bit_vector)
    requires
        m >= 0,
    ensures
        0 <= x & m <= m,
{
}

/// Right shift of a 32-bit word by `k` is division by 2^k.
pub proof fn lemma_shr_u32(x: u32, k: u32)
    requires
        k < 32,
    ensures
        x >> k == x as nat / pow2(k as nat),
        pow2(0) == 0x1 && pow2(1) == 0x2 && pow2(2) == 0x4 && pow2(3) == 0x8 && pow2(4) == 0x10
            && pow2(5) == 0x20 && pow2(6) == 0x40 && pow2(7) == 0x80 && pow2(8) == 0x100 && pow2(9)
            == 0x200 && pow2(10) == 0x400 && pow2(11) == 0x800 && pow2(12) == 0x1000 && pow2(13)
            == 0x2000 && pow2(14) == 0x4000 && pow2(15) == 0x8000 && pow2(16) == 0x10000 && pow2(17) == 0x20000 && pow2(20) == 0x100000
            && pow2(22) == 0x400000 && pow2(23) == 0x800000 && pow2(24) == 0x1000000,
{
    lemma_u32_shr_is_div(x, k);
    lemma2_to64();
}

/// The low bits of an index below 2^k are the index modulo 2^k.
pub proof fn lemma_low_mask_usize(x: usize, k: nat)
    requires
        k < 32,
    ensures
        x & (low_bits_mask(k) as usize) == x % (pow2(k) as usize),
        low_bits_mask(17) == 0x1FFFF && pow2(17) == 0x20000,
        low_bits_mask(19) == 0x7FFFF && pow2(19) == 0x80000,
        low_bits_mask(16) == 0xFFFF && pow2(16) == 0x10000,
{
    lemma_usize_low_bits_mask_is_mod(x, k);
    lemma_low_bits_mask_values();
    lemma2_to64();
}

/// Right shift of a halfword by `k` is division by 2^k.
pub proof fn lemma_shr_u16(x: u16, k: u16)
    requires
        k < 16,
    ensures
        x >> k == x as nat / pow2(k as nat),
        pow2(4) == 0x10 && pow2(5) == 0x20 && pow2(8) == 0x100 && pow2(10) == 0x400 && pow2(12) == 0x1000
            && pow2(14) == 0x4000 && pow2(15) == 0x8000,
{
    lemma_u16_shr_is_div(x, k);
    lemma2_to64();
}

/// Right shift of a byte by `k` is division by 2^k.
pub proof fn lemma_shr_u8(x: u8, k: u8)
    requires
        k < 8,
    ensures
        x >> k == x as nat / pow2(k as nat),
        pow2(1) == 0x2 && pow2(2) == 0x4 && pow2(3) == 0x8 && pow2(4) == 0x10 && pow2(6) == 0x40,
{
    lemma_u8_shr_is_div(x, k);
    lemma2_to64();
}

/// The low bits of a 32-bit word are the word modulo 2^k.
pub proof fn lemma_low_mask_u32(x: u32, k: nat)
    requires
        k < 32,
    ensures
        x & (low_bits_mask(k) as u32) == x % (pow2(k) as u32),
        low_bits_mask(16) == 0xFFFF && pow2(16) == 0x10000,
{
    lemma_u32_low_bits_mask_is_mod(x, k);
    lemma_low_bits_mask_values();
    lemma2_to64();
}

/// Shifts of small non-negative signed values are multiplications and
/// divisions by powers of two.
pub proof fn lemma_small_shifts_i32(x: i32)
    by (bit_vector)
    requires
        0 <= x <= 0x4000,
    ensures
        x >> 1u32 == x / 2,
        x >> 2u32 == x / 4,
        x >> 3u32 == x / 8,
        (x >> 3u32) << 1u32 == (x / 8) * 2,
        x << 5u32 == x * 32,
        x << 7u32 == x * 128,
        x << 8u32 == x * 256,
{
}

/// Left shifts of small 32-bit words are multiplications by powers of two.
pub proof fn lemma_small_shifts_u32(x: u32)
    by (bit_vector)
    requires
        x <= 0x4000,
    ensures
        x << 1u32 == x * 2,
        x << 5u32 == x * 32,
        x << 8u32 == x * 256,
{
}

/// Right shifts of non-negative signed words are divisions.
pub proof fn lemma_shr_nonneg_i32(x: i32)
    by (bit_vector)
    requires
        x >= 0,
    ensures
        x >> 5u32 == x / 32,
        x >> 6u32 == x / 64,
        x >> 9u32 == x / 512,
{
}

/// A little-endian pair of bytes as a halfword.
pub proof fn lemma_bytes_to_u16(lo: u8, hi: u8)
    ensures
        (lo as u16) | ((hi as u16) << 8u16) == (lo + 256 * hi) as u16,
        lo + 256 * hi <= 0xFFFF,
{
    assert((lo as u16) | ((hi as u16) << 8u16) == (lo as u16) + 256 * (hi as u16)) by (bit_vector);
}

/// A signed word reinterpreted as unsigned is its residue modulo 2^32.
pub proof fn lemma_i32_as_u32(v: i32)
    ensures
        v as u32 == wrap32(v as int),
{
    if v < 0 {
        assert((v as u32) as int == v + 0x1_0000_0000int) by (bit_vector)
            requires v < 0;
        assert((v as int) % 0x1_0000_0000int == v + 0x1_0000_0000int);
    }
}

} // verus!
