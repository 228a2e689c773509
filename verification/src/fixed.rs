//! 16.16 signed fixed-point arithmetic.
//!
//! A fixed-point value is a signed 32-bit integer holding the real number
//! times 65536.  Products and quotients are computed in 64 bits and narrowed
//! back to 32 bits by taking the low 32 bits, so overflow wraps silently,
//! which is the convention of this number format.

use vstd::prelude::*;

verus! {

/// The value of a 64-bit intermediate result narrowed to 32 bits:
/// the low 32 bits of `x`, read as a two's-complement signed integer.
pub open spec fn wrap_i32(x: int) -> i32 {
    vstd::wrapping::i32_specs::signed_crop(x)
}

/// What `fixed_mul` returns: the 64-bit product shifted right
/// arithmetically by 16 (floor of `a * b / 65536`), wrapped to 32 bits.
pub open spec fn fixed_mul_spec(a: i32, b: i32) -> i32 {
    wrap_i32((a * b) / 0x10000)
}

/// Division rounding toward zero, as the machine's 64-bit division does.
pub open spec fn div_toward_zero(n: int, d: int) -> int {
    let m = (vstd::math::abs(n) / vstd::math::abs(d)) as int;
    if (n < 0) != (d < 0) {
        -m
    } else {
        m
    }
}

/// What `fixed_div` returns: `a` widened to 64 bits and shifted left by 16,
/// divided by `b` rounding toward zero, wrapped to 32 bits.
pub open spec fn fixed_div_spec(a: i32, b: i32) -> i32 {
    wrap_i32(div_toward_zero(a * 0x10000, b as int))
}

/// An arithmetic right shift by 16 of a 64-bit value is the floor
/// of division by 65536.
proof fn lemma_shr16_is_floor(p: i64)
    ensures
        p >> 16u32 == (p as int) / 0x10000,
{
    assert(p >> 16u32 == (p as int) / 0x10000) by (bit_vector);
}

/// Narrows a 64-bit intermediate result to its low 32 bits.
fn narrow_to_i32(q: i64) -> (r: i32)
    ensures
        r == wrap_i32(q as int),
{
    let t: i64 = q % 0x1_0000_0000;
    let m: i64 = if t < 0 {
        t + 0x1_0000_0000
    } else {
        t
    };
    if m < 0x8000_0000 {
        m as i32
    } else {
        (m - 0x1_0000_0000) as i32
    }
}

/// Fixed-point product: the 64-bit product of `a` and `b`, shifted right
/// arithmetically by 16, narrowed to 32 bits.
pub fn fixed_mul(a: i32, b: i32) -> (r: i32)
    ensures
        r == fixed_mul_spec(a, b),
{
    proof {
        assert((a as int) * (b as int) <= 0x4000_0000_0000_0000 && (a as int) * (b as int)
            >= -0x4000_0000_0000_0000) by (nonlinear_arith)
            requires
                -0x8000_0000 <= a <= 0x7FFF_FFFF,
                -0x8000_0000 <= b <= 0x7FFF_FFFF,
        ;
    }
    let p: i64 = (a as i64) * (b as i64);
    proof {
        lemma_shr16_is_floor(p);
    }
    let q: i64 = p >> 16u32;
    narrow_to_i32(q)
}

/// Fixed-point quotient: `a` shifted left by 16 into 64 bits, divided by
/// `b` with the machine's truncating division, narrowed to 32 bits.
/// A zero divisor is excluded: the machine operation would trap on it.
pub fn fixed_div(a: i32, b: i32) -> (r: i32)
    requires
        b != 0,
    ensures
        r == fixed_div_spec(a, b),
{
    let na: u64 = if a >= 0 {
        (a as u64) * 0x10000
    } else {
        ((-(a as i64)) as u64) * 0x10000
    };
    let db: u64 = if b >= 0 {
        b as u64
    } else {
        (-(b as i64)) as u64
    };
    let mq: u64 = na / db;
    proof {
        assert(na == vstd::math::abs(a * 0x10000));
        assert(db == vstd::math::abs(b as int));
        vstd::arithmetic::div_mod::lemma_div_nonincreasing(na as int, db as int);
    }
    let q: i64 = if (a < 0) != (b < 0) {
        -(mq as i64)
    } else {
        mq as i64
    };
    narrow_to_i32(q)
}

} // verus!
