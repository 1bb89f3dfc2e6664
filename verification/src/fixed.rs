//! Fixed-point scalar arithmetic.
//!
//! Every scalar of the renderer is a signed Q47.16 fixed-point number: an
//! `i64` raw value that stands for `raw / SCALE`. All operations are total:
//! results that leave the `i64` range saturate (the fixed-point stand-in for
//! a floating-point infinity), division by zero yields the saturated value of
//! the numerator's sign, and the square root of a negative value is zero.
//! Each operation's contract states the exact raw value it returns.

use vstd::prelude::*;

use vstd::arithmetic::div_mod::{
    lemma_div_by_multiple, lemma_div_is_ordered, lemma_div_of0, lemma_div_pos_is_pos,
    lemma_multiply_divide_le, lemma_multiply_divide_lt,
};

verus! {

/// Raw units per 1.0.
pub const SCALE: i64 = 65536;

/// Clamp a mathematical integer into the `i64` range.
pub open spec fn sat64(x: int) -> int {
    if x > i64::MAX {
        i64::MAX as int
    } else if x < i64::MIN {
        i64::MIN as int
    } else {
        x
    }
}

/// Division truncated toward zero (hardware division), positive divisor.
pub open spec fn tdiv(a: int, b: int) -> int
    recommends
        b > 0,
{
    if a >= 0 {
        a / b
    } else {
        -((-a) / b)
    }
}

/// Division truncated toward zero, any nonzero divisor.
pub open spec fn tdiv_any(a: int, b: int) -> int
    recommends
        b != 0,
{
    if b > 0 {
        tdiv(a, b)
    } else {
        tdiv(-a, -b)
    }
}

/// The saturated value of `a`'s sign: what a division of `a` by zero returns.
pub open spec fn inf_like(a: int) -> int {
    if a > 0 {
        i64::MAX as int
    } else if a < 0 {
        i64::MIN as int
    } else {
        0
    }
}

/// Raw value of a fixed-point sum.
pub open spec fn fx_add(a: int, b: int) -> int {
    sat64(a + b)
}

/// Raw value of a fixed-point difference.
pub open spec fn fx_sub(a: int, b: int) -> int {
    sat64(a - b)
}

/// Raw value of a fixed-point negation.
pub open spec fn fx_neg(a: int) -> int {
    sat64(-a)
}

/// Raw value of a fixed-point absolute value.
pub open spec fn fx_abs(a: int) -> int {
    if a < 0 {
        sat64(-a)
    } else {
        a
    }
}

/// Raw value of a fixed-point product: the exact product rescaled,
/// truncated toward zero, then saturated.
pub open spec fn fx_mul(a: int, b: int) -> int {
    sat64(tdiv(a * b, SCALE as int))
}

/// Raw value of a fixed-point quotient.
pub open spec fn fx_div(a: int, b: int) -> int {
    if b == 0 {
        inf_like(a)
    } else {
        sat64(tdiv_any(a * SCALE, b))
    }
}

/// Floor of the square root of a nonnegative integer.
pub open spec fn isqrt(x: int) -> int
    decreases x,
{
    if x < 1 {
        0
    } else {
        let r = isqrt(x - 1);
        if (r + 1) * (r + 1) <= x {
            r + 1
        } else {
            r
        }
    }
}

/// Raw value of a fixed-point square root; negative inputs clamp to zero.
pub open spec fn fx_sqrt(a: int) -> int {
    if a <= 0 {
        0
    } else {
        isqrt(a * SCALE)
    }
}

/// `isqrt` is the floor square root: it is the unique `r >= 0` with
/// `r * r <= x < (r + 1) * (r + 1)`.
pub proof fn lemma_isqrt(x: int)
    requires
        x >= 0,
    ensures
        0 <= isqrt(x),
        isqrt(x) * isqrt(x) <= x,
        x < (isqrt(x) + 1) * (isqrt(x) + 1),
    decreases x,
{
    if x < 1 {
    } else {
        lemma_isqrt(x - 1);
        let r = isqrt(x - 1);
        if (r + 1) * (r + 1) <= x {
            assert(x < (r + 2) * (r + 2)) by (nonlinear_arith)
                requires
                    r >= 0,
                    x - 1 < (r + 1) * (r + 1),
            ;
        }
    }
}

/// A nonnegative integer has one floor square root.
pub proof fn lemma_isqrt_unique(x: int, r: int)
    requires
        0 <= r,
        r * r <= x,
        x < (r + 1) * (r + 1),
    ensures
        r == isqrt(x),
{
    lemma_isqrt(x);
    let s = isqrt(x);
    assert(r == s) by (nonlinear_arith)
        requires
            0 <= r,
            0 <= s,
            r * r <= x,
            x < (r + 1) * (r + 1),
            s * s <= x,
            x < (s + 1) * (s + 1),
    ;
}

/// Truncating division is monotone in the numerator.
pub proof fn lemma_tdiv_monotone(x: int, y: int, b: int)
    requires
        x <= y,
        0 < b,
    ensures
        tdiv(x, b) <= tdiv(y, b),
{
    if x >= 0 {
        lemma_div_is_ordered(x, y, b);
    } else if y < 0 {
        lemma_div_is_ordered(-y, -x, b);
    } else {
        lemma_div_pos_is_pos(-x, b);
        lemma_div_pos_is_pos(y, b);
    }
}

/// A magnitude bound on the dividend gives one on the truncated quotient.
pub proof fn lemma_tdiv_abs_le(a: int, b: int, m: int)
    requires
        0 < b,
        0 <= m,
        -(m * b) <= a <= m * b,
    ensures
        -m <= tdiv(a, b) <= m,
{
    assert(b * m == m * b) by (nonlinear_arith);
    if a >= 0 {
        lemma_div_pos_is_pos(a, b);
        lemma_multiply_divide_le(a, b, m);
    } else {
        lemma_div_pos_is_pos(-a, b);
        lemma_multiply_divide_le(-a, b, m);
    }
}

/// The fixed-point square root is never negative.
pub proof fn lemma_fx_sqrt_nonneg(a: int)
    ensures
        fx_sqrt(a) >= 0,
{
    if a > 0 {
        lemma_isqrt(a * SCALE);
    }
}

/// The fixed-point quotient is monotone in the numerator when the
/// denominator is nonnegative.
pub proof fn lemma_fx_div_monotone(x: int, y: int, b: int)
    requires
        x <= y,
        0 <= b,
    ensures
        fx_div(x, b) <= fx_div(y, b),
{
    if b != 0 {
        lemma_tdiv_monotone(x * SCALE, y * SCALE, b);
    }
}

/// Scaling by the fixed-point unit and rescaling cancels exactly.
pub proof fn lemma_tdiv_scale_cancel(a: int)
    ensures
        tdiv(a * SCALE, SCALE as int) == a,
{
    if a >= 0 {
        lemma_div_by_multiple(a, SCALE as int);
    } else {
        lemma_div_by_multiple(-a, SCALE as int);
        assert(-(a * SCALE) == (-a) * SCALE);
    }
}

/// Multiplying by zero gives zero, from either side.
pub proof fn lemma_fx_mul_zero(a: int)
    ensures
        fx_mul(a, 0) == 0,
        fx_mul(0, a) == 0,
{
    assert(a * 0 == 0) by (nonlinear_arith);
    assert(0 * a == 0) by (nonlinear_arith);
    lemma_div_of0(SCALE as int);
}

/// Dividing by a negative scalar negates the quotient by the scalar's
/// magnitude, wherever the quotient does not saturate.
pub proof fn lemma_fx_div_neg_denominator(a: int, b: int)
    requires
        b < 0,
        -(i64::MAX as int) <= tdiv(a * SCALE, -b) <= i64::MAX as int,
    ensures
        fx_div(a, b) == fx_neg(fx_div(a, -b)),
{
    let q = tdiv(a * SCALE, -b);
    assert(tdiv_any(a * SCALE, b) == tdiv(-(a * SCALE), -b));
    assert(tdiv(-(a * SCALE), -b) == -q);
}

/// A product of scalars in `[0, 1]` stays in `[0, 1]`, below each factor.
pub proof fn lemma_fx_mul_unit(a: int, b: int)
    requires
        0 <= a <= SCALE,
        0 <= b <= SCALE,
    ensures
        0 <= fx_mul(a, b),
        fx_mul(a, b) <= a,
        fx_mul(a, b) <= b,
{
    let p = a * b;
    assert(0 <= p && p <= 65536 * a && p <= 65536 * b) by (nonlinear_arith)
        requires
            0 <= a <= 65536,
            0 <= b <= 65536,
            p == a * b,
    ;
    lemma_div_pos_is_pos(p, SCALE as int);
    lemma_multiply_divide_le(p, SCALE as int, a);
    lemma_multiply_divide_le(p, SCALE as int, b);
}

/// A quotient with the numerator's magnitude below the positive denominator
/// lies strictly inside `(-1, 1)`, on the numerator's side of zero.
pub proof fn lemma_fx_div_in_unit(a: int, b: int)
    requires
        0 < b,
        -b < a < b,
    ensures
        -SCALE < fx_div(a, b) < SCALE,
        0 <= a ==> 0 <= fx_div(a, b),
        a <= 0 ==> fx_div(a, b) <= 0,
{
    if a >= 0 {
        let p = a * SCALE;
        assert(0 <= p && p < b * SCALE) by (nonlinear_arith)
            requires
                0 <= a < b,
                p == a * 65536,
                SCALE == 65536,
        ;
        lemma_div_pos_is_pos(p, b);
        lemma_multiply_divide_lt(p, b, SCALE as int);
    } else {
        let p = (-a) * SCALE;
        assert(0 <= p && p < b * SCALE) by (nonlinear_arith)
            requires
                0 < -a < b,
                p == (-a) * 65536,
                SCALE == 65536,
        ;
        lemma_div_pos_is_pos(p, b);
        lemma_multiply_divide_lt(p, b, SCALE as int);
        assert(a * SCALE == -p);
    }
}

/// A fixed-point scalar: `raw / SCALE`.
#[derive(Clone, Copy, PartialEq, Eq, Structural, Debug)]
pub struct Fx {
    pub raw: i64,
}

impl View for Fx {
    type V = int;

    open spec fn view(&self) -> int {
        self.raw as int
    }
}

/// Clamp an `i128` into the `i64` range.
fn clamp_to_i64(x: i128) -> (r: i64)
    ensures
        r as int == sat64(x as int),
{
    if x > i64::MAX as i128 {
        i64::MAX
    } else if x < i64::MIN as i128 {
        i64::MIN
    } else {
        x as i64
    }
}

/// Divide an `i128` by `SCALE`, truncating toward zero.
fn div_scale(p: i128) -> (r: i128)
    requires
        p > i128::MIN,
    ensures
        r as int == tdiv(p as int, SCALE as int),
{
    if p >= 0 {
        ((p as u128) / (SCALE as u128)) as i128
    } else {
        let m: u128 = ((-p) as u128) / (SCALE as u128);
        -(m as i128)
    }
}

/// Divide `a` by nonzero `b`, truncating toward zero.
fn tdiv_exec(a: i128, b: i128) -> (r: i128)
    requires
        b != 0,
        a > i128::MIN,
        b > i128::MIN,
    ensures
        r as int == tdiv_any(a as int, b as int),
{
    let an: u128 = if a >= 0 { a as u128 } else { (-a) as u128 };
    let bn: u128 = if b >= 0 { b as u128 } else { (-b) as u128 };
    let q: u128 = an / bn;
    assert(q <= an) by (nonlinear_arith)
        requires
            bn >= 1,
            q == an / bn,
    ;
    if (a >= 0) == (b >= 0) {
        q as i128
    } else {
        -(q as i128)
    }
}

/// Floor square root by binary search.
fn isqrt_exec(x: u128) -> (r: u128)
    requires
        x < 1208925819614629174706176u128,  // 2^80
    ensures
        r as int == isqrt(x as int),
{
    let mut lo: u128 = 0;
    let mut hi: u128 = 1099511627776;  // 2^40
    assert(x < hi * hi) by (nonlinear_arith)
        requires
            x < 1208925819614629174706176u128,
            hi == 1099511627776u128,
    ;
    while lo + 1 < hi
        invariant
            lo < hi,
            hi <= 1099511627776,
            lo * lo <= x,
            x < hi * hi,
        decreases hi - lo,
    {
        let mid: u128 = lo + (hi - lo) / 2;
        assert(lo < mid && mid < hi);
        assert(mid * mid < 1208925819614629174706177u128) by (nonlinear_arith)
            requires
                mid <= 1099511627776u128,
        ;
        if mid * mid <= x {
            lo = mid;
        } else {
            hi = mid;
        }
    }
    proof {
        lemma_isqrt_unique(x as int, lo as int);
    }
    lo
}

impl Fx {
    /// The scalar with the given raw value.
    pub fn from_raw(raw: i64) -> (r: Fx)
        ensures
            r@ == raw as int,
    {
        Fx { raw }
    }

    /// Zero.
    pub fn zero() -> (r: Fx)
        ensures
            r@ == 0,
    {
        Fx { raw: 0 }
    }

    /// One.
    pub fn one() -> (r: Fx)
        ensures
            r@ == SCALE as int,
    {
        Fx { raw: SCALE }
    }

    /// The integer `n` as a scalar.
    pub fn from_u32(n: u32) -> (r: Fx)
        ensures
            r@ == n as int * SCALE,
    {
        Fx { raw: (n as i64) * SCALE }
    }

    /// Saturating sum.
    pub fn add(self, o: Fx) -> (r: Fx)
        ensures
            r@ == fx_add(self@, o@),
    {
        let s: i128 = self.raw as i128 + o.raw as i128;
        Fx { raw: clamp_to_i64(s) }
    }

    /// Saturating difference.
    pub fn sub(self, o: Fx) -> (r: Fx)
        ensures
            r@ == fx_sub(self@, o@),
    {
        let s: i128 = self.raw as i128 - o.raw as i128;
        Fx { raw: clamp_to_i64(s) }
    }

    /// Saturating negation.
    pub fn neg(self) -> (r: Fx)
        ensures
            r@ == fx_neg(self@),
    {
        let s: i128 = -(self.raw as i128);
        Fx { raw: clamp_to_i64(s) }
    }

    /// Saturating absolute value.
    pub fn abs(self) -> (r: Fx)
        ensures
            r@ == fx_abs(self@),
    {
        if self.raw < 0 {
            self.neg()
        } else {
            self
        }
    }

    /// Saturating product, rescaled and truncated toward zero.
    pub fn mul(self, o: Fx) -> (r: Fx)
        ensures
            r@ == fx_mul(self@, o@),
    {
        proof {
            assert(i128::MIN < (self.raw as int) * (o.raw as int)
                && (self.raw as int) * (o.raw as int) <= i128::MAX) by (nonlinear_arith)
                requires
                    i64::MIN <= self.raw <= i64::MAX,
                    i64::MIN <= o.raw <= i64::MAX,
            ;
        }
        let p: i128 = (self.raw as i128) * (o.raw as i128);
        let q: i128 = div_scale(p);
        Fx { raw: clamp_to_i64(q) }
    }

    /// Saturating quotient, rescaled and truncated toward zero; a zero
    /// divisor yields the saturated value of the numerator's sign.
    pub fn div(self, o: Fx) -> (r: Fx)
        ensures
            r@ == fx_div(self@, o@),
    {
        if o.raw == 0 {
            if self.raw > 0 {
                Fx { raw: i64::MAX }
            } else if self.raw < 0 {
                Fx { raw: i64::MIN }
            } else {
                Fx { raw: 0 }
            }
        } else {
            proof {
                assert(i128::MIN < (self.raw as int) * (SCALE as int)
                    && (self.raw as int) * (SCALE as int) <= i128::MAX) by (nonlinear_arith)
                    requires
                        i64::MIN <= self.raw <= i64::MAX,
                        SCALE == 65536,
                ;
            }
            let num: i128 = (self.raw as i128) * (SCALE as i128);
            let q: i128 = tdiv_exec(num, o.raw as i128);
            Fx { raw: clamp_to_i64(q) }
        }
    }

    /// Square root, truncated toward zero; negative inputs clamp to zero.
    pub fn sqrt(self) -> (r: Fx)
        ensures
            r@ == fx_sqrt(self@),
    {
        if self.raw <= 0 {
            Fx { raw: 0 }
        } else {
            let x: u128 = (self.raw as u128) * (SCALE as u128);
            assert(x < 1208925819614629174706176u128) by (nonlinear_arith)
                requires
                    x == (self.raw as u128) * (SCALE as u128),
                    0 < self.raw as u128 <= i64::MAX as u128,
            ;
            let r: u128 = isqrt_exec(x);
            proof {
                lemma_isqrt(x as int);
                assert(r * r <= x);
                assert(r < 1099511627776) by (nonlinear_arith)
                    requires
                        r * r <= x,
                        x < 1208925819614629174706176u128,
                        r <= u128::MAX,
                ;
            }
            Fx { raw: r as i64 }
        }
    }

    /// The smaller of two scalars.
    pub fn min(self, o: Fx) -> (r: Fx)
        ensures
            r@ == if self@ <= o@ { self@ } else { o@ },
    {
        if self.raw <= o.raw {
            self
        } else {
            o
        }
    }

    /// The larger of two scalars.
    pub fn max(self, o: Fx) -> (r: Fx)
        ensures
            r@ == if self@ >= o@ { self@ } else { o@ },
    {
        if self.raw >= o.raw {
            self
        } else {
            o
        }
    }

    /// Strictly less than.
    pub fn lt(self, o: Fx) -> (r: bool)
        ensures
            r == (self@ < o@),
    {
        self.raw < o.raw
    }

    /// Less than or equal.
    pub fn le(self, o: Fx) -> (r: bool)
        ensures
            r == (self@ <= o@),
    {
        self.raw <= o.raw
    }
}

} // verus!
