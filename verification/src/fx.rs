//! Fixed-point scalar arithmetic.
//!
//! Every real-valued quantity of the renderer is held as an `i64` that
//! stands for the real number `value / SCALE`.  Addition, subtraction,
//! multiplication, division and square root are implemented over this
//! representation with truncation toward zero and saturation at
//! `FX_MAX`, so every operation is total and deterministic.  Each
//! executable operation is pinned to an exact specification twin over
//! `int`, and all higher layers of the renderer state their contracts
//! in terms of those twins.

use vstd::prelude::*;

verus! {

/// Number of fixed-point units per whole unit: values are scaled by 2^16.
pub const SCALE: i64 = 65536;

/// The representation of the real number one.
pub const ONE: i64 = 65536;

/// The representation of the real number one half.
pub const HALF: i64 = 32768;

/// The representation of the real number two.
pub const TWO: i64 = 131072;

/// Largest representable magnitude; arithmetic saturates here, which
/// plays the role that infinity plays for floating-point arithmetic.
pub const FX_MAX: i64 = 0x7fff_ffff_ffff_ffff;

/// Saturate an unbounded integer into the representable range.
pub open spec fn clip(x: int) -> int {
    if x > FX_MAX as int {
        FX_MAX as int
    } else if x < -(FX_MAX as int) {
        -(FX_MAX as int)
    } else {
        x
    }
}

/// Magnitude of an integer.
pub open spec fn mag(x: int) -> nat {
    if x >= 0 {
        x as nat
    } else {
        (-x) as nat
    }
}

/// Division truncating toward zero, the rounding used by all
/// fixed-point products and quotients.
pub open spec fn tdiv(a: int, b: int) -> int {
    if (a >= 0) == (b >= 0) {
        (mag(a) / mag(b)) as int
    } else {
        -((mag(a) / mag(b)) as int)
    }
}

/// Specification twin of `fx_add`.
pub open spec fn s_add(a: int, b: int) -> int {
    clip(a + b)
}

/// Specification twin of `fx_sub`.
pub open spec fn s_sub(a: int, b: int) -> int {
    clip(a - b)
}

/// Specification twin of `fx_mul`: the product of two scaled values,
/// rescaled with truncation toward zero, then saturated.
pub open spec fn s_mul(a: int, b: int) -> int {
    clip(tdiv(a * b, SCALE as int))
}

/// Specification twin of `fx_div`: the quotient of two scaled values,
/// rescaled with truncation toward zero, then saturated.
pub open spec fn s_div(a: int, b: int) -> int {
    clip(tdiv(a * SCALE, b))
}

/// Floor of the square root of a natural number.
pub open spec fn sqrt_floor(v: nat) -> nat
    decreases v,
{
    if v == 0 {
        0
    } else {
        let p = sqrt_floor((v - 1) as nat);
        if (p + 1) * (p + 1) <= v {
            p + 1
        } else {
            p
        }
    }
}

/// Specification twin of `fx_sqrt`: the square root of a scaled value,
/// rounded down to the grid.  Defined as zero on non-positive inputs.
pub open spec fn s_sqrt(x: int) -> int {
    if x <= 0 {
        0
    } else {
        sqrt_floor((x * SCALE) as nat) as int
    }
}

/// `sqrt_floor` is exactly the floor of the square root.
pub proof fn lemma_sqrt_floor_bounds(v: nat)
    ensures
        (sqrt_floor(v) as int) * (sqrt_floor(v) as int) <= v as int,
        (v as int) < (sqrt_floor(v) as int + 1) * (sqrt_floor(v) as int + 1),
    decreases v,
{
    if v == 0 {
        assert(sqrt_floor(0) == 0);
    } else {
        lemma_sqrt_floor_bounds((v - 1) as nat);
        let p = sqrt_floor((v - 1) as nat) as int;
        assert(p * p <= v - 1);
        assert(v - 1 < (p + 1) * (p + 1));
        if (p + 1) * (p + 1) <= v {
            assert(sqrt_floor(v) as int == p + 1);
            assert(v <= (p + 1) * (p + 1));
            assert((p + 1 + 1) * (p + 1 + 1) > (p + 1) * (p + 1)) by (nonlinear_arith)
                requires p >= 0;
        } else {
            assert(sqrt_floor(v) as int == p);
        }
    }
}

/// Any value bracketed by consecutive squares is the floor square root.
pub proof fn lemma_sqrt_floor_unique(v: nat, r: nat)
    requires
        (r as int) * (r as int) <= v as int,
        (v as int) < (r as int + 1) * (r as int + 1),
    ensures
        sqrt_floor(v) == r,
{
    lemma_sqrt_floor_bounds(v);
    let s = sqrt_floor(v) as int;
    let ri = r as int;
    if s < ri {
        assert((s + 1) * (s + 1) <= ri * ri) by (nonlinear_arith)
            requires 0 <= s && s + 1 <= ri;
    }
    if ri < s {
        assert((ri + 1) * (ri + 1) <= s * s) by (nonlinear_arith)
            requires 0 <= ri && ri + 1 <= s;
    }
}

/// Multiplying and then truncating-dividing by the same positive
/// factor is exact.
pub proof fn lemma_tdiv_mul_exact(c: int, d: int)
    requires
        d > 0,
    ensures
        tdiv(c * d, d) == c,
{
    if c >= 0 {
        assert(c * d >= 0 && mag(c * d) == mag(c) * d) by (nonlinear_arith)
            requires c >= 0 && d > 0;
        vstd::arithmetic::div_mod::lemma_div_multiples_vanish(mag(c) as int, d);
        assert(d * (mag(c) as int) == (mag(c) * d) as int) by (nonlinear_arith);
        assert((mag(c * d) / mag(d)) as int == mag(c) as int);
    } else {
        assert(c * d < 0 && mag(c * d) == mag(c) * d) by (nonlinear_arith)
            requires c < 0 && d > 0;
        vstd::arithmetic::div_mod::lemma_div_multiples_vanish(mag(c) as int, d);
        assert(d * (mag(c) as int) == (mag(c) * d) as int) by (nonlinear_arith);
        assert((mag(c * d) / mag(d)) as int == mag(c) as int);
        assert(tdiv(c * d, d) == -(mag(c) as int));
    }
}

/// Multiplication by the fixed-point one only saturates.
pub proof fn lemma_s_mul_one(a: int)
    ensures
        s_mul(a, ONE as int) == clip(a),
        s_mul(ONE as int, a) == clip(a),
{
    lemma_tdiv_mul_exact(a, SCALE as int);
    assert(a * (ONE as int) == (ONE as int) * a) by (nonlinear_arith);
}

/// Multiplication by the fixed-point minus one only negates and saturates.
pub proof fn lemma_s_mul_neg_one(a: int)
    ensures
        s_mul(a, -(ONE as int)) == clip(-a),
        s_mul(-(ONE as int), a) == clip(-a),
{
    lemma_tdiv_mul_exact(-a, SCALE as int);
    assert(a * (-(ONE as int)) == (-a) * (SCALE as int)) by (nonlinear_arith);
    assert((-(ONE as int)) * a == (-a) * (SCALE as int)) by (nonlinear_arith);
}

/// Multiplication by zero yields zero.
pub proof fn lemma_s_mul_zero(a: int)
    ensures
        s_mul(a, 0) == 0,
        s_mul(0, a) == 0,
{
    assert(a * 0 == 0) by (nonlinear_arith);
    assert(0 * a == 0) by (nonlinear_arith);
    vstd::arithmetic::div_mod::lemma_div_of0(SCALE as int);
}

/// A fixed-point square is non-negative.
pub proof fn lemma_s_mul_sq_nonneg(a: int)
    ensures
        s_mul(a, a) >= 0,
{
    assert(a * a >= 0) by (nonlinear_arith);
}

/// Fixed-point multiplication is commutative.
pub proof fn lemma_s_mul_comm(a: int, b: int)
    ensures
        s_mul(a, b) == s_mul(b, a),
{
    assert(a * b == b * a) by (nonlinear_arith);
}

/// Truncating division is monotone in the numerator for a positive
/// denominator.
pub proof fn lemma_tdiv_mono(x: int, y: int, d: int)
    requires
        x <= y,
        d > 0,
    ensures
        tdiv(x, d) <= tdiv(y, d),
{
    if x >= 0 {
        vstd::arithmetic::div_mod::lemma_div_is_ordered(mag(x) as int, mag(y) as int, d);
    } else if y >= 0 {
        assert(tdiv(x, d) <= 0);
        assert(tdiv(y, d) >= 0);
    } else {
        vstd::arithmetic::div_mod::lemma_div_is_ordered(mag(y) as int, mag(x) as int, d);
    }
}

/// Saturation is monotone.
pub proof fn lemma_clip_mono(x: int, y: int)
    requires
        x <= y,
    ensures
        clip(x) <= clip(y),
{
}

/// Fixed-point division is monotone in the numerator for a positive
/// denominator.
pub proof fn lemma_s_div_mono(x: int, y: int, d: int)
    requires
        x <= y,
        d > 0,
    ensures
        s_div(x, d) <= s_div(y, d),
{
    lemma_tdiv_mono(x * SCALE, y * SCALE, d);
    lemma_clip_mono(tdiv(x * SCALE, d), tdiv(y * SCALE, d));
}

/// Saturate a wide intermediate result back into the carrier type.
fn clip128(x: i128) -> (r: i64)
    ensures
        r as int == clip(x as int),
{
    if x > FX_MAX as i128 {
        FX_MAX
    } else if x < -(FX_MAX as i128) {
        -FX_MAX
    } else {
        x as i64
    }
}

/// Fixed-point addition, saturating.
pub fn fx_add(a: i64, b: i64) -> (r: i64)
    ensures
        r as int == s_add(a as int, b as int),
{
    let s: i128 = a as i128 + b as i128;
    clip128(s)
}

/// Fixed-point subtraction, saturating.
pub fn fx_sub(a: i64, b: i64) -> (r: i64)
    ensures
        r as int == s_sub(a as int, b as int),
{
    let s: i128 = a as i128 - b as i128;
    clip128(s)
}

/// Fixed-point negation.
pub fn fx_neg(a: i64) -> (r: i64)
    ensures
        r as int == clip(-(a as int)),
{
    let s: i128 = -(a as i128);
    clip128(s)
}

/// Fixed-point multiplication: rescaled with truncation toward zero,
/// then saturated.
pub fn fx_mul(a: i64, b: i64) -> (r: i64)
    ensures
        r as int == s_mul(a as int, b as int),
{
    proof {
        assert((a as int) * (b as int) <= 0x4000_0000_0000_0000_0000_0000_0000_0000int
            && (a as int) * (b as int) >= -0x4000_0000_0000_0000_0000_0000_0000_0000int)
            by (nonlinear_arith)
            requires
                -0x8000_0000_0000_0000int <= a as int <= 0x7fff_ffff_ffff_ffffint,
                -0x8000_0000_0000_0000int <= b as int <= 0x7fff_ffff_ffff_ffffint;
    }
    let p: i128 = (a as i128) * (b as i128);
    let neg: bool = p < 0;
    let m: u128 = if neg {
        (-p) as u128
    } else {
        p as u128
    };
    let q: u128 = m / (SCALE as u128);
    proof {
        assert(m == mag(p as int));
        assert(q == mag(p as int) / mag(SCALE as int));
        vstd::arithmetic::div_mod::lemma_div_basics_5(m as int, 65536);
        assert(q <= m);
    }
    let r128: i128 = if neg {
        -(q as i128)
    } else {
        q as i128
    };
    proof {
        assert(r128 as int == tdiv(p as int, SCALE as int));
    }
    clip128(r128)
}

/// Fixed-point division: rescaled with truncation toward zero, then
/// saturated.  Division by zero is excluded by precondition, as the
/// renderer's callers guarantee non-degenerate divisors.
pub fn fx_div(a: i64, b: i64) -> (r: i64)
    requires
        b != 0,
    ensures
        r as int == s_div(a as int, b as int),
{
    let ma: u128 = if a < 0 {
        (-(a as i128)) as u128
    } else {
        a as u128
    };
    let mb: u128 = if b < 0 {
        (-(b as i128)) as u128
    } else {
        b as u128
    };
    let neg: bool = (a < 0) != (b < 0);
    proof {
        assert(ma * 65536 <= 0x8000_0000_0000_0000_0000u128) by (nonlinear_arith)
            requires ma <= 0x8000_0000_0000_0000u128;
    }
    let q: u128 = (ma * (SCALE as u128)) / mb;
    proof {
        assert(ma == mag(a as int));
        assert(mb == mag(b as int));
        assert(ma * (SCALE as u128) == mag(a as int * SCALE)) by {
            assert(mag(a as int * SCALE) == mag(a as int) * 65536) by (nonlinear_arith);
        }
        assert(q == mag(a as int * SCALE) / mag(b as int));
        vstd::arithmetic::div_mod::lemma_div_basics_5((ma * (SCALE as u128)) as int, mb as int);
        assert(q <= ma * 65536);
    }
    let r128: i128 = if neg {
        -(q as i128)
    } else {
        q as i128
    };
    proof {
        assert(r128 as int == tdiv(a as int * SCALE, b as int)) by {
            if a == 0 {
                vstd::arithmetic::div_mod::lemma_div_of0(mb as int);
            }
        }
    }
    clip128(r128)
}

/// Floor square root by binary search over a bounded range.
fn isqrt_u128(v: u128) -> (r: u64)
    requires
        v < 0x1_0000_0000_0000_0000_0000u128,
    ensures
        (r as nat) * (r as nat) <= v as nat,
        (v as nat) < ((r as nat) + 1) * ((r as nat) + 1),
{
    let mut lo: u64 = 0;
    let mut hi: u64 = 0x100_0000_0000;
    proof {
        assert((hi as nat) * (hi as nat) > v as nat) by (nonlinear_arith)
            requires hi == 0x100_0000_0000u64 && v < 0x1_0000_0000_0000_0000_0000u128;
    }
    while lo + 1 < hi
        invariant
            lo < hi,
            hi <= 0x100_0000_0000u64,
            (lo as nat) * (lo as nat) <= v as nat,
            (v as nat) < (hi as nat) * (hi as nat),
        decreases hi - lo,
    {
        let mid: u64 = lo + (hi - lo) / 2;
        proof {
            assert((mid as u128) * (mid as u128) < 0x1_0000_0000_0000_0000_0000_0000u128)
                by (nonlinear_arith)
                requires mid <= 0x100_0000_0000u64;
        }
        if (mid as u128) * (mid as u128) <= v {
            lo = mid;
        } else {
            hi = mid;
        }
    }
    proof {
        assert(hi == lo + 1);
    }
    lo
}

/// Fixed-point square root of a non-negative value, rounded down.
pub fn fx_sqrt(x: i64) -> (r: i64)
    requires
        x >= 0,
    ensures
        r as int == s_sqrt(x as int),
        r >= 0,
{
    if x == 0 {
        return 0;
    }
    let v: u128 = (x as u128) * (SCALE as u128);
    proof {
        assert(v < 0x1_0000_0000_0000_0000_0000u128) by (nonlinear_arith)
            requires v == (x as u128) * 65536 && x as u128 <= 0x7fff_ffff_ffff_ffffu128;
    }
    let r = isqrt_u128(v);
    proof {
        lemma_sqrt_floor_unique(v as nat, r as nat);
        assert(v as nat == (x as int * SCALE) as nat);
        assert(r < 0x8000_0000_0000_0000u64) by (nonlinear_arith)
            requires
                (r as nat) * (r as nat) <= v as nat,
                v < 0x1_0000_0000_0000_0000_0000u128;
    }
    r as i64
}

} // verus!
