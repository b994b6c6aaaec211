//! Truncating, saturating conversion of IEEE-754 bit patterns to integers,
//! carried out on the bits alone.

use vstd::prelude::*;
use vstd::arithmetic::power2::*;
use vstd::arithmetic::div_mod::*;

verus! {

/// Clamp `v` into `[lo, hi]`.
pub open spec fn saturate(v: int, lo: int, hi: int) -> int {
    if v < lo {
        lo
    } else if v > hi {
        hi
    } else {
        v
    }
}

/// The integer part of `m * 2^shift`.
pub open spec fn trunc_mag(m: nat, shift: int) -> nat {
    if shift >= 0 {
        m * pow2(shift as nat)
    } else {
        m / pow2((-shift) as nat)
    }
}

/// What a float with the given sign, biased exponent and stored mantissa
/// becomes under a saturating cast to an integer type with range `[lo, hi]`
/// (NaN goes to 0, infinities to the bounds, finite values are truncated
/// toward zero and then clamped).
pub open spec fn float_to_int(
    sign: bool,
    exp: int,
    mant: int,
    exp_max: int,
    bias: int,
    hidden: int,
    lo: int,
    hi: int,
) -> int {
    if exp == exp_max {
        if mant != 0 {
            0
        } else if sign {
            lo
        } else {
            hi
        }
    } else {
        let m = if exp == 0 { mant } else { mant + hidden };
        let e = if exp == 0 { 1 - bias } else { exp - bias };
        let t = trunc_mag(m as nat, e);
        saturate(if sign { -(t as int) } else { t as int }, lo, hi)
    }
}

pub open spec fn f64_sign(b: u64) -> bool {
    (b >> 63u64) == 1
}

pub open spec fn f64_exp(b: u64) -> int {
    ((b >> 52u64) & 0x7ffu64) as int
}

pub open spec fn f64_mant(b: u64) -> int {
    (b & 0xf_ffff_ffff_ffffu64) as int
}

pub open spec fn f32_sign(b: u32) -> bool {
    (b >> 31u32) == 1
}

pub open spec fn f32_exp(b: u32) -> int {
    ((b >> 23u32) & 0xffu32) as int
}

pub open spec fn f32_mant(b: u32) -> int {
    (b & 0x7f_ffffu32) as int
}

/// The saturating integer conversion of the binary64 value with bits `b`.
pub open spec fn f64_to_int(b: u64, lo: int, hi: int) -> int {
    float_to_int(f64_sign(b), f64_exp(b), f64_mant(b), 2047, 1075, 0x10_0000_0000_0000, lo, hi)
}

/// The saturating integer conversion of the binary32 value with bits `b`.
pub open spec fn f32_to_int(b: u32, lo: int, hi: int) -> int {
    float_to_int(f32_sign(b), f32_exp(b), f32_mant(b), 255, 150, 0x80_0000, lo, hi)
}

const MAG_CAP: u128 = 0x1_0000_0000_0000_0000;

/// `min(trunc_mag(m, shift), 2^64)`.
fn capped_mag(m: u64, shift: i64) -> (r: u128)
    requires
        -3000 <= shift <= 3000,
    ensures
        r as int == if trunc_mag(m as nat, shift as int) > MAG_CAP { MAG_CAP as int } else {
            trunc_mag(m as nat, shift as int) as int
        },
{
    if shift >= 0 {
        let mut v: u128 = m as u128;
        let mut i: i64 = 0;
        proof {
            lemma2_to64();
            assert(m as int * pow2(0) == m as int * 1);
            assert(v as int == m as int * pow2(i as nat));
        }
        while i < shift
            invariant
                0 <= i <= shift,
                v as int == m as int * pow2(i as nat),
                v <= MAG_CAP,
            decreases shift - i,
        {
            proof {
                lemma_pow2_unfold((i + 1) as nat);
                assert(m as int * pow2((i + 1) as nat) == 2 * (m as int * pow2(i as nat))) by (nonlinear_arith)
                    requires pow2((i + 1) as nat) == 2 * pow2(i as nat);
            }
            v = v * 2;
            i = i + 1;
            if v > MAG_CAP {
                proof {
                    assert forall|k: nat| i <= k implies m as int * pow2(k) >= v as int by {
                        lemma_pow2_increases_mul(m as nat, i as nat, k);
                    }
                    assert(m as int * pow2(shift as nat) >= v as int);
                }
                return MAG_CAP;
            }
        }
        v
    } else {
        let mut v: u64 = m;
        let mut i: i64 = 0;
        let n: i64 = -shift;
        proof {
            lemma2_to64();
            assert(m as int / (pow2(0) as int) == m as int / 1);
            assert(v as int == m as int / (pow2(i as nat) as int));
        }
        while i < n
            invariant
                0 <= i <= n,
                n == -shift,
                v as int == m as int / (pow2(i as nat) as int),
            decreases n - i,
        {
            proof {
                lemma_pow2_unfold((i + 1) as nat);
                lemma_pow2_pos(i as nat);
                lemma_div_denominator(m as int, pow2(i as nat) as int, 2);
                assert(pow2(i as nat) * 2 == pow2((i + 1) as nat));
            }
            v = v / 2;
            i = i + 1;
        }
        proof {
            lemma_pow2_pos(n as nat);
            assert(m as int / (pow2(n as nat) as int) <= m as int) by {
                lemma_div_is_ordered_by_denominator(m as int, 1, pow2(n as nat) as int);
            }
        }
        v as u128
    }
}

/// `m * 2^i <= m * 2^k` when `i <= k`.
proof fn lemma_pow2_increases_mul(m: nat, i: nat, k: nat)
    requires
        i <= k,
    ensures
        m * pow2(i) <= m * pow2(k),
{
    if i < k {
        lemma_pow2_strictly_increases(i, k);
        assert(m * pow2(i) <= m * pow2(k)) by (nonlinear_arith)
            requires pow2(i) < pow2(k);
    }
}

/// Saturating conversion of a decoded float to the range `[lo, hi]`.
fn decoded_to_int(
    sign: bool,
    exp: i64,
    mant: u64,
    exp_max: i64,
    bias: i64,
    hidden: u64,
    lo: i128,
    hi: i128,
) -> (r: i128)
    requires
        0 <= exp <= exp_max <= 2047,
        1 <= bias <= 1100,
        mant < hidden <= 0x10_0000_0000_0000,
        -0x8000_0000_0000_0000 <= lo <= 0 < hi < 0x1_0000_0000_0000_0000,
    ensures
        r as int == float_to_int(sign, exp as int, mant as int, exp_max as int, bias as int, hidden as int, lo as int, hi as int),
{
    if exp == exp_max {
        if mant != 0 {
            0
        } else if sign {
            lo
        } else {
            hi
        }
    } else {
        let m: u64 = if exp == 0 { mant } else { mant + hidden };
        let e: i64 = if exp == 0 { 1 - bias } else { exp - bias };
        let t = capped_mag(m, e);
        let ghost tm = trunc_mag(m as nat, e as int);
        if sign {
            let neg: i128 = -(t as i128);
            if neg < lo { lo } else { neg }
        } else {
            if (t as i128) > hi { hi } else { t as i128 }
        }
    }
}

/// Saturating, truncating conversion of binary64 bits into `[lo, hi]`.
pub fn f64_bits_to_int(b: u64, lo: i128, hi: i128) -> (r: i128)
    requires
        -0x8000_0000_0000_0000 <= lo <= 0 < hi < 0x1_0000_0000_0000_0000,
    ensures
        r as int == f64_to_int(b, lo as int, hi as int),
{
    let sign = (b >> 63u64) == 1;
    let exp = ((b >> 52u64) & 0x7ffu64) as i64;
    let mant = b & 0xf_ffff_ffff_ffffu64;
    assert((b >> 52u64) & 0x7ffu64 <= 0x7ff) by (bit_vector);
    assert(b & 0xf_ffff_ffff_ffffu64 < 0x10_0000_0000_0000) by (bit_vector);
    decoded_to_int(sign, exp, mant, 2047, 1075, 0x10_0000_0000_0000, lo, hi)
}

/// Saturating, truncating conversion of binary32 bits into `[lo, hi]`.
pub fn f32_bits_to_int(b: u32, lo: i128, hi: i128) -> (r: i128)
    requires
        -0x8000_0000_0000_0000 <= lo <= 0 < hi < 0x1_0000_0000_0000_0000,
    ensures
        r as int == f32_to_int(b, lo as int, hi as int),
{
    let sign = (b >> 31u32) == 1;
    let exp = ((b >> 23u32) & 0xffu32) as i64;
    let mant = (b & 0x7f_ffffu32) as u64;
    assert((b >> 23u32) & 0xffu32 <= 0xff) by (bit_vector);
    assert(b & 0x7f_ffffu32 < 0x80_0000) by (bit_vector);
    decoded_to_int(sign, exp, mant, 255, 150, 0x80_0000, lo, hi)
}

/// A float whose sign bit is set never converts to a positive integer, and one whose
/// sign bit is clear never to a negative one (for any range that holds 0).
pub proof fn law_f64_to_int_sign(b: u64, lo: int, hi: int)
    requires
        lo <= 0 <= hi,
    ensures
        (b >> 63u64) == 1 ==> f64_to_int(b, lo, hi) <= 0,
        (b >> 63u64) == 0 ==> f64_to_int(b, lo, hi) >= 0,
{
    assert((b >> 63u64) == 1 || (b >> 63u64) == 0) by (bit_vector);
}

/// Flipping the sign bit of a finite float negates its conversion into a range that is
/// symmetric about 0: the conversion truncates toward zero, whatever the sign.
pub proof fn law_f64_to_int_negate(b: u64, k: int)
    requires
        k > 0,
        ((b >> 52u64) & 0x7ffu64) != 0x7ffu64,
    ensures
        f64_to_int(b ^ 0x8000_0000_0000_0000u64, -k, k) == -f64_to_int(b, -k, k),
{
    let c = b ^ 0x8000_0000_0000_0000u64;
    assert((c >> 52u64) & 0x7ffu64 == (b >> 52u64) & 0x7ffu64) by (bit_vector)
        requires c == b ^ 0x8000_0000_0000_0000u64;
    assert(c & 0xf_ffff_ffff_ffffu64 == b & 0xf_ffff_ffff_ffffu64) by (bit_vector)
        requires c == b ^ 0x8000_0000_0000_0000u64;
    assert(((c >> 63u64) == 1) == !((b >> 63u64) == 1)) by (bit_vector)
        requires c == b ^ 0x8000_0000_0000_0000u64;
}

/// A binary32 float whose sign bit is set never converts to a positive integer, and one
/// whose sign bit is clear never to a negative one.
pub proof fn law_f32_to_int_sign(b: u32, lo: int, hi: int)
    requires
        lo <= 0 <= hi,
    ensures
        (b >> 31u32) == 1 ==> f32_to_int(b, lo, hi) <= 0,
        (b >> 31u32) == 0 ==> f32_to_int(b, lo, hi) >= 0,
{
    assert((b >> 31u32) == 1 || (b >> 31u32) == 0) by (bit_vector);
}

/// Flipping the sign bit of a finite binary32 float negates its conversion into a range
/// that is symmetric about 0.
pub proof fn law_f32_to_int_negate(b: u32, k: int)
    requires
        k > 0,
        ((b >> 23u32) & 0xffu32) != 0xffu32,
    ensures
        f32_to_int(b ^ 0x8000_0000u32, -k, k) == -f32_to_int(b, -k, k),
{
    let c = b ^ 0x8000_0000u32;
    assert((c >> 23u32) & 0xffu32 == (b >> 23u32) & 0xffu32) by (bit_vector)
        requires c == b ^ 0x8000_0000u32;
    assert(c & 0x7f_ffffu32 == b & 0x7f_ffffu32) by (bit_vector)
        requires c == b ^ 0x8000_0000u32;
    assert(((c >> 31u32) == 1) == !((b >> 31u32) == 1)) by (bit_vector)
        requires c == b ^ 0x8000_0000u32;
}

} // verus!
