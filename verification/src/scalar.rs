//! Fixed-point scalars.
//!
//! A scalar is an `i64` counting millionths: `1_000_000` stands for one,
//! `500_000` for one half, `-9_800_000` for minus nine point eight. Addition
//! and subtraction are the plain integer operations; products and quotients
//! rescale by [`SCALE`] and truncate toward zero, exactly as the signed
//! integer `/` does.

use vstd::arithmetic::div_mod::{
    lemma_div_denominator, lemma_div_is_ordered, lemma_div_is_ordered_by_denominator,
    lemma_div_multiples_vanish, lemma_fundamental_div_mod, lemma_mod_division_less_than_divisor,
};
use vstd::arithmetic::mul::{lemma_mul_inequality, lemma_mul_upper_bound};
use vstd::prelude::*;

verus! {

/// Number of fixed-point units in one whole: scalars carry six decimal places.
pub const SCALE: i64 = 1_000_000;

/// One half, in fixed-point units.
pub const HALF: i64 = 500_000;

/// Truncating (round-toward-zero) quotient: the rule the executable `/`
/// follows on signed integers. `b` must not be zero for the result to be
/// meaningful.
pub open spec fn tdiv(a: int, b: int) -> int {
    if a >= 0 {
        a / b
    } else {
        -((-a) / b)
    }
}

/// Fixed-point product: multiply, rescale by [`SCALE`], truncate toward zero.
pub open spec fn fxmul(a: int, b: int) -> int {
    tdiv(a * b, SCALE as int)
}

/// Fixed-point quotient: pre-scale by [`SCALE`], divide, truncate toward zero.
pub open spec fn fxdiv(a: int, b: int) -> int {
    tdiv(a * (SCALE as int), b)
}

/// Fixed-point multiplication on scalars.
pub fn scalar_mul(a: i64, b: i64) -> (r: i64)
    requires
        i64::MIN <= fxmul(a as int, b as int) <= i64::MAX,
    ensures
        r as int == fxmul(a as int, b as int),
{
    proof {
        lemma_mul_i64_fits_i128(a as int, b as int);
        lemma_tdiv_close(a as int * b as int, SCALE as int);
    }
    let wide: i128 = (a as i128) * (b as i128);
    (wide / (SCALE as i128)) as i64
}

/// Fixed-point division on scalars.
pub fn scalar_div(a: i64, b: i64) -> (r: i64)
    requires
        b != 0,
        i64::MIN <= fxdiv(a as int, b as int) <= i64::MAX,
    ensures
        r as int == fxdiv(a as int, b as int),
{
    proof {
        lemma_mul_i64_fits_i128(a as int, SCALE as int);
        lemma_tdiv_close(a as int * SCALE as int, b as int);
    }
    let wide: i128 = (a as i128) * (SCALE as i128);
    (wide / (b as i128)) as i64
}

/// The product of two `i64`-sized values stays well inside the `i128` range.
proof fn lemma_mul_i64_fits_i128(a: int, b: int)
    requires
        i64::MIN <= a <= i64::MAX,
        i64::MIN <= b <= i64::MAX,
    ensures
        -0x4000_0000_0000_0000_0000_0000_0000_0000 <= a * b
            <= 0x4000_0000_0000_0000_0000_0000_0000_0000,
{
    assert(-0x4000_0000_0000_0000_0000_0000_0000_0000 <= a * b
        <= 0x4000_0000_0000_0000_0000_0000_0000_0000) by (nonlinear_arith)
        requires
            -0x8000_0000_0000_0000 <= a <= 0x7fff_ffff_ffff_ffff,
            -0x8000_0000_0000_0000 <= b <= 0x7fff_ffff_ffff_ffff,
    ;
}

/// A truncating quotient never exceeds the dividend in magnitude once the
/// divisor's magnitude is at least one.
pub proof fn lemma_tdiv_close(a: int, b: int)
    requires
        b != 0,
    ensures
        a >= 0 ==> 0 <= tdiv(a, b) <= a || (b < 0 && -a <= tdiv(a, b) <= 0),
        a < 0 ==> a <= tdiv(a, b) <= -a,
        -abs(a) <= tdiv(a, b) <= abs(a),
{
    lemma_tdiv_abs(a, b);
    lemma_div_is_ordered_by_denominator(abs(a), 1, abs(b));
    assert(abs(a) / 1 == abs(a)) by {
        lemma_div_multiples_vanish(abs(a), 1);
    }
    lemma_div_pos(abs(a), abs(b));
}

/// Magnitude of an integer.
pub open spec fn abs(a: int) -> int {
    if a >= 0 {
        a
    } else {
        -a
    }
}

/// The magnitude of a truncating quotient is the quotient of the magnitudes.
pub proof fn lemma_tdiv_abs(a: int, b: int)
    requires
        b != 0,
    ensures
        abs(tdiv(a, b)) == abs(a) / abs(b),
        tdiv(a, b) == if (a >= 0) == (b >= 0) {
            abs(a) / abs(b)
        } else {
            -(abs(a) / abs(b))
        },
{
    lemma_div_pos(abs(a), abs(b));
    if b > 0 {
        if a >= 0 {
        } else {
            assert(tdiv(a, b) == -((-a) / b));
        }
    } else {
        lemma_div_neg_denominator(abs(a), b);
    }
}

/// Dividing a non-negative value by a positive one gives a non-negative
/// quotient.
proof fn lemma_div_pos(a: int, b: int)
    requires
        a >= 0,
        b > 0,
    ensures
        0 <= a / b,
{
    assert(0 <= a / b) by (nonlinear_arith)
        requires
            a >= 0,
            b > 0,
    ;
}

/// Euclidean division of a non-negative value by a negative divisor is the
/// negated division by the divisor's magnitude.
proof fn lemma_div_neg_denominator(a: int, b: int)
    requires
        a >= 0,
        b < 0,
    ensures
        a / b == -(a / (-b)),
{
    let q = a / (-b);
    let r = a % (-b);
    lemma_fundamental_div_mod(a, -b);
    assert(0 <= r < -b) by {
        lemma_mod_bound(a, -b);
    }
    let qd = a / b;
    let rd = a % b;
    lemma_fundamental_div_mod(a, b);
    assert(0 <= rd < -b) by {
        lemma_mod_bound(a, b);
    }
    assert(b * (qd + q) == r - rd) by (nonlinear_arith)
        requires
            a == (-b) * q + r,
            a == b * qd + rd,
    ;
    assert(qd + q == 0) by (nonlinear_arith)
        requires
            b * (qd + q) == r - rd,
            0 <= r < -b,
            0 <= rd < -b,
            b < 0,
    ;
}

/// The remainder of Euclidean division lies between zero and the divisor's
/// magnitude, for either sign of the divisor.
proof fn lemma_mod_bound(a: int, b: int)
    requires
        b != 0,
    ensures
        0 <= a % b < abs(b),
{
    if b > 0 {
        lemma_mod_division_less_than_divisor(a, b);
    } else {
        assert(0 <= a % b < -b) by (nonlinear_arith)
            requires
                b < 0,
        ;
    }
}

/// An exact multiple divides back to its cofactor, whatever the signs.
pub proof fn lemma_tdiv_exact(q: int, d: int)
    requires
        d != 0,
    ensures
        tdiv(q * d, d) == q,
{
    lemma_tdiv_abs(q * d, d);
    assert(abs(q * d) == abs(q) * abs(d)) by (nonlinear_arith);
    assert(abs(q) * abs(d) / abs(d) == abs(q)) by {
        lemma_div_multiples_vanish(abs(q), abs(d));
        assert(abs(d) * abs(q) == abs(q) * abs(d)) by (nonlinear_arith);
    }
    if q == 0 {
        assert(q * d == 0) by (nonlinear_arith)
            requires
                q == 0,
        ;
    } else {
        assert(((q * d >= 0) == (d >= 0)) == (q >= 0)) by (nonlinear_arith)
            requires
                q != 0,
                d != 0,
        ;
    }
}

/// Bound a truncating quotient from a bound on its dividend, for a divisor of
/// magnitude at least one.
pub proof fn lemma_tdiv_bound(a: int, b: int, m: int)
    requires
        b != 0,
        abs(a) <= m,
    ensures
        abs(tdiv(a, b)) <= m,
{
    lemma_tdiv_close(a, b);
}

/// A common positive factor in dividend and divisor leaves a truncating
/// quotient unchanged.
pub proof fn lemma_tdiv_common_factor(x: int, y: int, c: int)
    requires
        y != 0,
        c > 0,
    ensures
        tdiv(x * c, y * c) == tdiv(x, y),
{
    lemma_tdiv_abs(x, y);
    assert(y * c != 0) by (nonlinear_arith)
        requires
            y != 0,
            c > 0,
    ;
    lemma_tdiv_abs(x * c, y * c);
    assert(abs(x * c) == abs(x) * c && abs(y * c) == abs(y) * c && ((x * c >= 0) == (x >= 0))
        && ((y * c >= 0) == (y >= 0))) by (nonlinear_arith)
        requires
            c > 0,
            y != 0,
    ;
    lemma_div_denominator(abs(x) * c, c, abs(y));
    assert((abs(x) * c) / c == abs(x)) by {
        lemma_div_multiples_vanish(abs(x), c);
        assert(abs(x) * c == c * abs(x)) by (nonlinear_arith);
    }
    assert(c * abs(y) == abs(y) * c) by (nonlinear_arith);
}

/// Bound a fixed-point product from bounds on its factors.
pub proof fn lemma_fxmul_bound(a: int, b: int, ma: int, mb: int)
    requires
        abs(a) <= ma,
        abs(b) <= mb,
    ensures
        abs(fxmul(a, b)) <= ma * mb / (SCALE as int),
{
    assert(abs(a * b) == abs(a) * abs(b)) by (nonlinear_arith);
    lemma_mul_upper_bound(abs(a), ma, abs(b), mb);
    lemma_tdiv_abs(a * b, SCALE as int);
    lemma_div_is_ordered(abs(a * b), ma * mb, SCALE as int);
}

/// Bound a fixed-point quotient from a bound on its dividend: the divisor's
/// magnitude is at least one, so the quotient gains at most a factor of
/// [`SCALE`].
pub proof fn lemma_fxdiv_bound(a: int, b: int, ma: int)
    requires
        b != 0,
        abs(a) <= ma,
        0 <= ma,
    ensures
        abs(fxdiv(a, b)) <= ma * (SCALE as int),
{
    assert(abs(a * (SCALE as int)) == abs(a) * (SCALE as int)) by (nonlinear_arith);
    lemma_mul_inequality(abs(a), ma, SCALE as int);
    lemma_tdiv_bound(a * (SCALE as int), b, ma * (SCALE as int));
}

} // verus!
