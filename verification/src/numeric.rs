//! Integer arithmetic shared by the camera and the player: square roots,
//! clamping and rounding of scaled products.

use vstd::prelude::*;
use crate::units::UNIT;

verus! {

/// `r` is the integer square root of `n`: the largest integer whose square
/// does not exceed `n`.
pub open spec fn is_sqrt_floor(n: int, r: int) -> bool {
    0 <= r && r * r <= n && n < (r + 1) * (r + 1)
}

/// The integer square root of `n`, for `n >= 0`.
pub open spec fn sqrt_floor(n: int) -> int {
    choose|r: int| is_sqrt_floor(n, r)
}

/// Squaring is monotone on the non-negative integers.
pub proof fn lemma_square_monotone(a: int, b: int)
    by (nonlinear_arith)
    requires
        0 <= a <= b,
    ensures
        a * a <= b * b,
{
}

/// An integer square root is unique.
pub proof fn lemma_sqrt_floor_unique(n: int, r: int, s: int)
    requires
        is_sqrt_floor(n, r),
        is_sqrt_floor(n, s),
    ensures
        r == s,
{
    if r < s {
        lemma_square_monotone(r + 1, s);
    } else if s < r {
        lemma_square_monotone(s + 1, r);
    }
}

/// Every non-negative integer has an integer square root.
pub proof fn lemma_sqrt_floor_exists(n: int)
    requires
        0 <= n,
    ensures
        is_sqrt_floor(n, sqrt_floor(n)),
    decreases n,
{
    if n == 0 {
        assert(is_sqrt_floor(0, 0));
    } else {
        lemma_sqrt_floor_exists(n - 1);
        let r = sqrt_floor(n - 1);
        if n < (r + 1) * (r + 1) {
            assert(is_sqrt_floor(n, r));
        } else {
            assert((r + 2) * (r + 2) == (r + 1) * (r + 1) + 2 * r + 3) by (nonlinear_arith);
            assert(is_sqrt_floor(n, r + 1));
        }
    }
}

/// Whatever satisfies the defining inequalities is the integer square root.
pub proof fn lemma_sqrt_floor_is(n: int, r: int)
    requires
        is_sqrt_floor(n, r),
    ensures
        sqrt_floor(n) == r,
{
    lemma_sqrt_floor_unique(n, r, sqrt_floor(n));
}

/// Computes the integer square root by bisection.
pub fn isqrt(n: u128) -> (r: u64)
    ensures
        is_sqrt_floor(n as int, r as int),
        r as int == sqrt_floor(n as int),
{
    let mut lo: u128 = 0;
    let mut hi: u128 = 0x1_0000_0000_0000_0000;
    assert(0x1_0000_0000_0000_0000int * 0x1_0000_0000_0000_0000int
        == 0x1_0000_0000_0000_0000_0000_0000_0000_0000int) by (nonlinear_arith);
    while hi - lo > 1
        invariant
            lo < hi <= 0x1_0000_0000_0000_0000,
            lo * lo <= n,
            n < hi * hi,
        decreases hi - lo,
    {
        let mid: u128 = lo + (hi - lo) / 2;
        assert(mid * mid < 0x1_0000_0000_0000_0000_0000_0000_0000_0000int) by (nonlinear_arith)
            requires
                0 <= mid < 0x1_0000_0000_0000_0000int,
        ;
        if mid * mid <= n {
            lo = mid;
        } else {
            hi = mid;
        }
    }
    proof {
        lemma_sqrt_floor_is(n as int, lo as int);
    }
    lo as u64
}

/// `v` held to the interval from `lo` to `hi`.
pub open spec fn clamp(v: int, lo: int, hi: int) -> int {
    if v < lo {
        lo
    } else if v > hi {
        hi
    } else {
        v
    }
}

/// Holds `v` to the interval from `lo` to `hi`.
pub fn clamp_to(v: i128, lo: i64, hi: i64) -> (r: i64)
    requires
        lo <= hi,
    ensures
        r as int == clamp(v as int, lo as int, hi as int),
{
    if v < lo as i128 {
        lo
    } else if v > hi as i128 {
        hi
    } else {
        v as i64
    }
}

/// The magnitude of `v`.
pub open spec fn abs(v: int) -> int {
    if v < 0 {
        -v
    } else {
        v
    }
}

/// Computes the magnitude of `v`.
pub fn magnitude(v: i128) -> (r: u128)
    requires
        v > i128::MIN,
    ensures
        r as int == abs(v as int),
{
    if v < 0 {
        (-v) as u128
    } else {
        v as u128
    }
}

/// The quotient of `a` by `b` rounded toward zero, for `b > 0`.
pub open spec fn div_toward_zero(a: int, b: int) -> int {
    if a >= 0 {
        a / b
    } else {
        -((-a) / b)
    }
}

/// The quotient of `a` by `b` rounded away from zero, for `b > 0`.
pub open spec fn div_away_from_zero(a: int, b: int) -> int {
    if a >= 0 {
        (a + b - 1) / b
    } else {
        -((-a + b - 1) / b)
    }
}

/// `v * num / den`, rounded toward zero.
pub open spec fn scale_toward_zero(v: int, num: int, den: int) -> int {
    div_toward_zero(v * num, den)
}

/// The part `factor / UNIT` of `diff`, rounded away from zero: the step that
/// an eased value takes toward a goal that is `diff` away.
pub open spec fn ease_step(diff: int, factor: int) -> int {
    div_away_from_zero(diff * factor, UNIT as int)
}

/// `from` moved toward `to` by the part `factor / UNIT` of their distance.
pub open spec fn ease(from: int, to: int, factor: int) -> int {
    from + ease_step(to - from, factor)
}

/// An easing step with a factor between 0 and 1 goes toward the goal and not
/// beyond it; it is the whole distance at factor 1, and it is not zero unless
/// the distance or the factor is.
pub proof fn lemma_ease_step_bounds(diff: int, factor: int)
    by (nonlinear_arith)
    requires
        0 <= factor <= UNIT,
    ensures
        diff >= 0 ==> 0 <= ease_step(diff, factor) <= diff,
        diff <= 0 ==> diff <= ease_step(diff, factor) <= 0,
        factor == UNIT ==> ease_step(diff, factor) == diff,
        factor > 0 && diff > 0 ==> ease_step(diff, factor) > 0,
        factor > 0 && diff < 0 ==> ease_step(diff, factor) < 0,
        factor == 0 ==> ease_step(diff, factor) == 0,
        diff >= 0 ==> diff * factor <= ease_step(diff, factor) * UNIT < diff * factor + UNIT,
        diff <= 0 ==> diff * factor - UNIT < ease_step(diff, factor) * UNIT <= diff * factor,
{
    let u = UNIT as int;
    if diff >= 0 {
        let p = diff * factor;
        assert(0 <= p <= diff * u);
        assert(p <= ((p + u - 1) / u) * u < p + u);
        assert((p + u - 1) / u <= diff) by {
            assert(p + u - 1 < (diff + 1) * u);
        }
        if factor > 0 && diff > 0 {
            assert(p >= 1);
            assert((p + u - 1) / u >= 1);
        }
        if factor == u {
            assert(p == diff * u);
            assert((diff * u + u - 1) / u == diff);
        }
    } else {
        let p = (-diff) * factor;
        assert(-(diff * factor) == p);
        assert(0 <= p <= (-diff) * u);
        assert(p <= ((p + u - 1) / u) * u < p + u);
        assert((-((p + u - 1) / u)) * u == -(((p + u - 1) / u) * u));
        assert((p + u - 1) / u <= -diff) by {
            assert(p + u - 1 < (-diff + 1) * u);
        }
        if factor > 0 {
            assert(p >= 1);
            assert((p + u - 1) / u >= 1);
        }
        if factor == u {
            assert(p == (-diff) * u);
            assert(((-diff) * u + u - 1) / u == -diff);
        }
    }
}

/// A value no larger in magnitude than the divisor, scaled, is no larger in
/// magnitude than the scale.
pub proof fn lemma_scale_toward_zero_within(v: int, num: int, den: int)
    by (nonlinear_arith)
    requires
        0 <= num,
        den > 0,
        -den <= v <= den,
    ensures
        -num <= scale_toward_zero(v, num, den) <= num,
{
    if v >= 0 {
        assert(0 <= v * num <= den * num);
        assert((v * num) / den <= num);
    } else {
        assert(-(v * num) == (-v) * num);
        assert(0 <= (-v) * num <= den * num);
        assert(((-v) * num) / den <= num);
    }
}

/// A number whose square is part of a sum is no larger in magnitude than
/// the integer square root of the sum.
pub proof fn lemma_part_at_most_root(a: int, rest: int, r: int)
    by (nonlinear_arith)
    requires
        0 <= rest,
        is_sqrt_floor(a * a + rest, r),
    ensures
        -r <= a <= r,
{
    if a > r {
        assert(a * a >= (r + 1) * (r + 1));
    }
    if a < -r {
        assert(a * a >= (r + 1) * (r + 1));
    }
}

/// A non-negative integer whose square does not exceed `n` does not exceed
/// the integer square root of `n`.
pub proof fn lemma_root_at_least(n: int, r: int, s: int)
    by (nonlinear_arith)
    requires
        is_sqrt_floor(n, r),
        0 <= s,
        s * s <= n,
    ensures
        s <= r,
{
    if s > r {
        assert(s * s >= (r + 1) * (r + 1));
    }
}

/// Computes `v * num / den`, rounded toward zero.
pub fn mul_div_toward_zero(v: i64, num: u64, den: u64) -> (r: i128)
    requires
        den > 0,
    ensures
        r as int == scale_toward_zero(v as int, num as int, den as int),
{
    let mag: u128 = magnitude(v as i128);
    assert(mag * num <= 0x8000_0000_0000_0000int * 0xffff_ffff_ffff_ffffint) by (nonlinear_arith)
        requires
            0 <= mag <= 0x8000_0000_0000_0000int,
            0 <= num <= 0xffff_ffff_ffff_ffffint,
    ;
    let product: u128 = mag * (num as u128);
    let quotient: u128 = product / (den as u128);
    assert(quotient <= product) by (nonlinear_arith)
        requires
            quotient == product / (den as u128),
            den > 0,
            product >= 0,
    ;
    proof {
        if v < 0 {
            assert((-(v as int)) * (num as int) == -((v as int) * (num as int))) by (nonlinear_arith);
        }
        assert(v >= 0 ==> (v as int) * (num as int) >= 0) by (nonlinear_arith);
        assert(v < 0 ==> (v as int) * (num as int) <= 0) by (nonlinear_arith);
    }
    if v >= 0 {
        quotient as i128
    } else {
        -(quotient as i128)
    }
}

/// Moves `from` toward `to` by the part `factor / UNIT` of their distance,
/// rounding the step away from zero.
pub fn ease_toward(from: i64, to: i64, factor: u32) -> (r: i64)
    requires
        factor <= UNIT,
    ensures
        r as int == ease(from as int, to as int, factor as int),
{
    let diff: i128 = to as i128 - from as i128;
    let mag: u128 = magnitude(diff);
    assert(mag * factor <= 0x1_0000_0000_0000_0000int * 1_000_000int) by (nonlinear_arith)
        requires
            0 <= mag <= 0x1_0000_0000_0000_0000int,
            0 <= factor <= 1_000_000int,
    ;
    let product: u128 = mag * (factor as u128);
    let step: u128 = (product + 999_999) / 1_000_000;
    proof {
        lemma_ease_step_bounds(diff as int, factor as int);
        if diff < 0 {
            assert((-(diff as int)) * (factor as int) == -((diff as int) * (factor as int)))
                by (nonlinear_arith);
        }
        assert(diff >= 0 ==> (diff as int) * (factor as int) >= 0) by (nonlinear_arith);
        assert(diff < 0 ==> (diff as int) * (factor as int) <= 0) by (nonlinear_arith);
    }
    if diff >= 0 {
        (from as i128 + step as i128) as i64
    } else {
        (from as i128 - step as i128) as i64
    }
}

} // verus!
