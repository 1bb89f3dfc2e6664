//! Three-component vectors.
//!
//! `Vec3` is the executable vector of fixed-point scalars, used
//! interchangeably as point, direction, and color. Its mathematical model is
//! the ghost struct `V3` of raw integer components; every operation's
//! contract states the exact model value it returns.

use vstd::prelude::*;

use crate::fixed::{
    fx_abs, fx_add, fx_div, fx_mul, fx_neg, fx_sqrt, fx_sub, lemma_fx_mul_zero,
    lemma_tdiv_scale_cancel, Fx, SCALE,
};

verus! {

/// The model of a vector: the three raw fixed-point components.
#[verifier::ext_equal]
pub ghost struct V3 {
    pub x: int,
    pub y: int,
    pub z: int,
}

/// Component-wise sum.
pub open spec fn add3(a: V3, b: V3) -> V3 {
    V3 { x: fx_add(a.x, b.x), y: fx_add(a.y, b.y), z: fx_add(a.z, b.z) }
}

/// Component-wise difference.
pub open spec fn sub3(a: V3, b: V3) -> V3 {
    V3 { x: fx_sub(a.x, b.x), y: fx_sub(a.y, b.y), z: fx_sub(a.z, b.z) }
}

/// Component-wise negation.
pub open spec fn neg3(v: V3) -> V3 {
    V3 { x: fx_neg(v.x), y: fx_neg(v.y), z: fx_neg(v.z) }
}

/// Scalar multiple.
pub open spec fn smul3(s: int, v: V3) -> V3 {
    V3 { x: fx_mul(s, v.x), y: fx_mul(s, v.y), z: fx_mul(s, v.z) }
}

/// Component-wise product.
pub open spec fn cmul3(a: V3, b: V3) -> V3 {
    V3 { x: fx_mul(a.x, b.x), y: fx_mul(a.y, b.y), z: fx_mul(a.z, b.z) }
}

/// Component-wise quotient by a scalar.
pub open spec fn sdiv3(v: V3, s: int) -> V3 {
    V3 { x: fx_div(v.x, s), y: fx_div(v.y, s), z: fx_div(v.z, s) }
}

/// Dot product, summed left to right.
pub open spec fn dot3(a: V3, b: V3) -> int {
    fx_add(fx_add(fx_mul(a.x, b.x), fx_mul(a.y, b.y)), fx_mul(a.z, b.z))
}

/// Cross product.
pub open spec fn cross3(a: V3, b: V3) -> V3 {
    V3 {
        x: fx_sub(fx_mul(a.y, b.z), fx_mul(a.z, b.y)),
        y: fx_sub(fx_mul(a.z, b.x), fx_mul(a.x, b.z)),
        z: fx_sub(fx_mul(a.x, b.y), fx_mul(a.y, b.x)),
    }
}

/// Length: the square root of the self dot product.
pub open spec fn len3(v: V3) -> int {
    fx_sqrt(dot3(v, v))
}

/// The vector scaled to unit length (by fixed-point division).
pub open spec fn unit3(v: V3) -> V3 {
    sdiv3(v, len3(v))
}

/// Reflection of `v` about the normal `n`: `v - 2*dot(v, n)*n`.
pub open spec fn reflect3(v: V3, n: V3) -> V3 {
    sub3(v, smul3(fx_mul(2 * SCALE, dot3(v, n)), n))
}

/// Refraction of `v` at a surface with normal `n`, for the given ratio of
/// refractive indices: Snell's law split into components perpendicular and
/// parallel to the normal.
pub open spec fn refract3(v: V3, n: V3, eta_ratio: int) -> V3 {
    let cos_theta = min_i(dot3(neg3(v), n), SCALE as int);
    let r_perp = smul3(eta_ratio, add3(v, smul3(cos_theta, n)));
    let lp = fx_mul(len3(r_perp), len3(r_perp));
    let r_par = smul3(fx_neg(fx_sqrt(fx_abs(fx_sub(SCALE as int, lp)))), n);
    add3(r_perp, r_par)
}

/// True when every component is zero: on the fixed-point grid the epsilon
/// test for a degenerate direction is an exact-zero test.
pub open spec fn near_zero3(v: V3) -> bool {
    v.x == 0 && v.y == 0 && v.z == 0
}

/// The smaller of two integers.
pub open spec fn min_i(a: int, b: int) -> int {
    if a <= b {
        a
    } else {
        b
    }
}

/// Dot product in the exact (unrounded, unsaturated) integer algebra.
pub open spec fn dot3e(a: V3, b: V3) -> int {
    a.x * b.x + a.y * b.y + a.z * b.z
}

/// Scalar multiple in the exact integer algebra.
pub open spec fn smul3e(s: int, v: V3) -> V3 {
    V3 { x: s * v.x, y: s * v.y, z: s * v.z }
}

/// Difference in the exact integer algebra.
pub open spec fn sub3e(a: V3, b: V3) -> V3 {
    V3 { x: a.x - b.x, y: a.y - b.y, z: a.z - b.z }
}

/// Reflection about `n` in the exact integer algebra, scaled by `|n|^2` to
/// stay within the integers: `|n|^2 * v - 2*dot(v, n)*n`. For a unit normal
/// (`dot3e(n, n)` equal to one) this is the reflection itself.
pub open spec fn reflect3e(v: V3, n: V3) -> V3 {
    sub3e(smul3e(dot3e(n, n), v), smul3e(2 * dot3e(v, n), n))
}

/// Reflection is an involution: in the exact vector algebra, reflecting a
/// reflected vector about the same normal returns the original vector, up to
/// the `|n|^4` scale that the integer-valued reflection carries. With a unit
/// normal the right-hand side is the original vector itself.
#[verifier::rlimit(50)]
pub proof fn lemma_reflect_involution(v: V3, n: V3)
    ensures
        reflect3e(reflect3e(v, n), n) == smul3e(dot3e(n, n) * dot3e(n, n), v),
{
    let nn = dot3e(n, n);
    let vn = dot3e(v, n);
    let r1 = reflect3e(v, n);
    let rn = dot3e(r1, n);
    assert(r1.x * n.x == nn * (v.x * n.x) - 2 * vn * (n.x * n.x)) by (nonlinear_arith)
        requires
            r1.x == nn * v.x - 2 * vn * n.x,
    ;
    assert(r1.y * n.y == nn * (v.y * n.y) - 2 * vn * (n.y * n.y)) by (nonlinear_arith)
        requires
            r1.y == nn * v.y - 2 * vn * n.y,
    ;
    assert(r1.z * n.z == nn * (v.z * n.z) - 2 * vn * (n.z * n.z)) by (nonlinear_arith)
        requires
            r1.z == nn * v.z - 2 * vn * n.z,
    ;
    assert(rn == nn * vn - 2 * vn * nn) by (nonlinear_arith)
        requires
            rn == (nn * (v.x * n.x) - 2 * vn * (n.x * n.x)) + (nn * (v.y * n.y) - 2 * vn * (n.y
                * n.y)) + (nn * (v.z * n.z) - 2 * vn * (n.z * n.z)),
            vn == v.x * n.x + v.y * n.y + v.z * n.z,
            nn == n.x * n.x + n.y * n.y + n.z * n.z,
    ;
    assert(rn == -(nn * vn)) by (nonlinear_arith)
        requires
            rn == nn * vn - 2 * vn * nn,
    ;
    assert(nn * r1.x - 2 * rn * n.x == (nn * nn) * v.x) by (nonlinear_arith)
        requires
            rn == -(nn * vn),
            r1.x == nn * v.x - 2 * vn * n.x,
    ;
    assert(nn * r1.y - 2 * rn * n.y == (nn * nn) * v.y) by (nonlinear_arith)
        requires
            rn == -(nn * vn),
            r1.y == nn * v.y - 2 * vn * n.y,
    ;
    assert(nn * r1.z - 2 * rn * n.z == (nn * nn) * v.z) by (nonlinear_arith)
        requires
            rn == -(nn * vn),
            r1.z == nn * v.z - 2 * vn * n.z,
    ;
    assert(reflect3e(r1, n) =~= smul3e(nn * nn, v));
}

/// Reflection about the unit z axis computes exactly: every product in
/// `reflect3` is by zero or by the fixed-point unit, so no truncation
/// occurs, and the result is the vector with its z component negated.
proof fn lemma_reflect_unit_z(v: V3)
    requires
        -1152921504606846976 <= v.x <= 1152921504606846976,
        -1152921504606846976 <= v.y <= 1152921504606846976,
        -1152921504606846976 <= v.z <= 1152921504606846976,
    ensures
        reflect3(v, V3 { x: 0, y: 0, z: SCALE as int }) == (V3 { x: v.x, y: v.y, z: -v.z }),
{
    let n = V3 { x: 0, y: 0, z: SCALE as int };
    lemma_fx_mul_zero(v.x);
    lemma_fx_mul_zero(v.y);
    lemma_tdiv_scale_cancel(v.z);
    assert(dot3(v, n) == v.z);
    assert((2 * SCALE) * v.z == (2 * v.z) * SCALE) by (nonlinear_arith);
    lemma_tdiv_scale_cancel(2 * v.z);
    let k = fx_mul(2 * SCALE, v.z);
    assert(k == 2 * v.z);
    lemma_fx_mul_zero(k);
    lemma_tdiv_scale_cancel(k);
    assert(smul3(k, n) =~= (V3 { x: 0, y: 0, z: k }));
    assert(reflect3(v, n) =~= (V3 { x: v.x, y: v.y, z: -v.z }));
}

/// Where the fixed-point arithmetic is exact — a unit normal the grid
/// represents exactly, here the z axis, and components far from the
/// saturation edge — the executable reflection is an involution outright:
/// reflecting twice returns the original vector. On other unit normals
/// truncation perturbs the double reflection by rounding;
/// `lemma_reflect_involution` states the general law in the exact algebra.
pub proof fn lemma_reflect_involution_unit_z(v: V3)
    requires
        -1152921504606846976 <= v.x <= 1152921504606846976,
        -1152921504606846976 <= v.y <= 1152921504606846976,
        -1152921504606846976 <= v.z <= 1152921504606846976,
    ensures
        reflect3(reflect3(v, V3 { x: 0, y: 0, z: SCALE as int }), V3 { x: 0, y: 0, z: SCALE as int })
            == v,
{
    let n = V3 { x: 0, y: 0, z: SCALE as int };
    lemma_reflect_unit_z(v);
    lemma_reflect_unit_z(V3 { x: v.x, y: v.y, z: -v.z });
    assert(reflect3(reflect3(v, n), n) =~= v);
}

/// A vector of three fixed-point scalars.
#[derive(Clone, Copy, PartialEq, Eq, Structural, Debug)]
pub struct Vec3 {
    pub x: Fx,
    pub y: Fx,
    pub z: Fx,
}

impl View for Vec3 {
    type V = V3;

    open spec fn view(&self) -> V3 {
        V3 { x: self.x@, y: self.y@, z: self.z@ }
    }
}

impl Vec3 {
    /// The vector with the given components.
    pub fn new(e0: Fx, e1: Fx, e2: Fx) -> (r: Vec3)
        ensures
            r@ == (V3 { x: e0@, y: e1@, z: e2@ }),
    {
        Vec3 { x: e0, y: e1, z: e2 }
    }

    /// The zero vector.
    pub fn zero() -> (r: Vec3)
        ensures
            r@ == (V3 { x: 0, y: 0, z: 0 }),
    {
        Vec3 { x: Fx::zero(), y: Fx::zero(), z: Fx::zero() }
    }

    /// First component.
    pub fn x(self) -> (r: Fx)
        ensures
            r@ == self@.x,
    {
        self.x
    }

    /// Second component.
    pub fn y(self) -> (r: Fx)
        ensures
            r@ == self@.y,
    {
        self.y
    }

    /// Third component.
    pub fn z(self) -> (r: Fx)
        ensures
            r@ == self@.z,
    {
        self.z
    }

    /// Component-wise sum.
    pub fn add(self, o: Vec3) -> (r: Vec3)
        ensures
            r@ == add3(self@, o@),
    {
        Vec3 { x: self.x.add(o.x), y: self.y.add(o.y), z: self.z.add(o.z) }
    }

    /// Component-wise difference.
    pub fn sub(self, o: Vec3) -> (r: Vec3)
        ensures
            r@ == sub3(self@, o@),
    {
        Vec3 { x: self.x.sub(o.x), y: self.y.sub(o.y), z: self.z.sub(o.z) }
    }

    /// Component-wise negation.
    pub fn neg(self) -> (r: Vec3)
        ensures
            r@ == neg3(self@),
    {
        Vec3 { x: self.x.neg(), y: self.y.neg(), z: self.z.neg() }
    }

    /// Scalar multiple.
    pub fn scale(self, s: Fx) -> (r: Vec3)
        ensures
            r@ == smul3(s@, self@),
    {
        Vec3 { x: s.mul(self.x), y: s.mul(self.y), z: s.mul(self.z) }
    }

    /// Component-wise product.
    pub fn mul(self, o: Vec3) -> (r: Vec3)
        ensures
            r@ == cmul3(self@, o@),
    {
        Vec3 { x: self.x.mul(o.x), y: self.y.mul(o.y), z: self.z.mul(o.z) }
    }

    /// Component-wise quotient by a scalar.
    pub fn div(self, s: Fx) -> (r: Vec3)
        ensures
            r@ == sdiv3(self@, s@),
    {
        Vec3 { x: self.x.div(s), y: self.y.div(s), z: self.z.div(s) }
    }

    /// Dot product.
    pub fn dot(self, o: Vec3) -> (r: Fx)
        ensures
            r@ == dot3(self@, o@),
    {
        self.x.mul(o.x).add(self.y.mul(o.y)).add(self.z.mul(o.z))
    }

    /// Cross product.
    pub fn cross(self, o: Vec3) -> (r: Vec3)
        ensures
            r@ == cross3(self@, o@),
    {
        Vec3 {
            x: self.y.mul(o.z).sub(self.z.mul(o.y)),
            y: self.z.mul(o.x).sub(self.x.mul(o.z)),
            z: self.x.mul(o.y).sub(self.y.mul(o.x)),
        }
    }

    /// Length.
    pub fn length(self) -> (r: Fx)
        ensures
            r@ == len3(self@),
    {
        self.dot(self).sqrt()
    }

    /// The vector scaled to unit length. A zero-length vector divides by
    /// zero and saturates, the fixed-point analog of a non-finite result:
    /// supplying one is a caller-contract violation, not a guarded case.
    pub fn normalized(self) -> (r: Vec3)
        ensures
            r@ == unit3(self@),
    {
        self.div(self.length())
    }

    /// Reflection about the normal `n`.
    pub fn reflect(self, n: Vec3) -> (r: Vec3)
        ensures
            r@ == reflect3(self@, n@),
    {
        let two = Fx::from_raw(2 * SCALE);
        self.sub(n.scale(two.mul(self.dot(n))))
    }

    /// Refraction given the ratio of refractive indices. Callers must rule
    /// out total internal reflection first; past it, the square-root operand
    /// is clamped instead of turning non-finite.
    pub fn refract(self, n: Vec3, eta_over_etap: Fx) -> (r: Vec3)
        ensures
            r@ == refract3(self@, n@, eta_over_etap@),
    {
        let cos_theta = self.neg().dot(n).min(Fx::one());
        let r_out_perp = self.add(n.scale(cos_theta)).scale(eta_over_etap);
        let lp = r_out_perp.length().mul(r_out_perp.length());
        let r_out_parallel = n.scale(Fx::one().sub(lp).abs().sqrt().neg());
        r_out_perp.add(r_out_parallel)
    }

    /// True when every component is zero: the epsilon test for a degenerate
    /// direction, exact on the fixed-point grid.
    pub fn near_zero(self) -> (r: bool)
        ensures
            r == near_zero3(self@),
    {
        self.x.raw == 0 && self.y.raw == 0 && self.z.raw == 0
    }
}

} // verus!
