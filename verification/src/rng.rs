//! Randomness: entropy from the system generator, shaped into scalars and
//! rejection-sampled vectors.
//!
//! Nothing can be promised of a random value, so the trusted surface is one
//! wrapper that hands back raw 64-bit entropy. Everything that shapes that
//! entropy — range reduction, rejection sampling — is verified code, and
//! callers that depend on randomness state only what holds of every
//! outcome.

use vstd::prelude::*;

use crate::fixed::{Fx, SCALE};
use crate::vec3::{dot3, len3, near_zero3, neg3, V3, Vec3};

verus! {

/// Relies on rand::random: one 64-bit value from the thread-local
/// generator. Nothing is promised of it.
#[verifier::external_body]
fn random_u64() -> u64 {
    rand::random::<u64>()
}

/// A scalar in `[0, 1)`: raw entropy reduced modulo the scale.
pub fn random_unit() -> (r: Fx)
    ensures
        0 <= r@ < SCALE,
{
    let x = random_u64();
    Fx::from_raw((x % 65536) as i64)
}

/// A scalar in `[lo, hi)`: raw entropy reduced modulo the span. The modulo
/// reduction's bias is negligible against a 64-bit draw.
pub fn random_range(lo: Fx, hi: Fx) -> (r: Fx)
    requires
        lo@ < hi@,
    ensures
        lo@ <= r@ < hi@,
{
    let span: u64 = (hi.raw as i128 - lo.raw as i128) as u64;
    let m: u64 = random_u64() % span;
    Fx::from_raw((lo.raw as i128 + m as i128) as i64)
}

impl Vec3 {
    /// A vector with each component drawn independently from `[lo, hi)`.
    pub fn random(lo: Fx, hi: Fx) -> (v: Vec3)
        requires
            lo@ < hi@,
        ensures
            lo@ <= v@.x < hi@,
            lo@ <= v@.y < hi@,
            lo@ <= v@.z < hi@,
    {
        Vec3::new(random_range(lo, hi), random_range(lo, hi), random_range(lo, hi))
    }

    /// A vector inside the unit ball, by rejection from the cube
    /// `[-1, 1)^3`. If every draw of a long bounded run is rejected — an
    /// astronomically unlikely event — the center is returned, which also
    /// lies inside the ball.
    pub fn random_in_unit_sphere() -> (v: Vec3)
        ensures
            len3(v@) < SCALE,
    {
        let lo = Fx::one().neg();
        let hi = Fx::one();
        let mut tries: u32 = 0;
        while tries < 64
            invariant
                lo@ == -(SCALE as int),
                hi@ == SCALE as int,
            decreases 64 - tries,
        {
            let v = Vec3::random(lo, hi);
            if v.length().lt(Fx::one()) {
                return v;
            }
            tries = tries + 1;
        }
        Vec3::zero()
    }

    /// A vector inside the unit ball lying on the side of `normal`: the
    /// ball sample itself when its fixed-point dot product with the normal
    /// is positive, else its negation.
    pub fn random_in_hemisphere(normal: Vec3) -> (v: Vec3)
        ensures
            exists|u: V3|
                len3(u) < SCALE && v@ == if dot3(u, normal@) > 0 {
                    u
                } else {
                    neg3(u)
                },
    {
        let in_unit_sphere = Self::random_in_unit_sphere();
        if Fx::zero().lt(in_unit_sphere.dot(normal)) {
            in_unit_sphere
        } else {
            in_unit_sphere.neg()
        }
    }

    /// A vector inside the unit disc of the xy-plane, by rejection from
    /// the square `[-1, 1)^2`, with the same bounded-run fallback to the
    /// center as the ball sampler.
    pub fn random_in_unit_disc() -> (v: Vec3)
        ensures
            len3(v@) < SCALE,
            v@.z == 0,
    {
        let lo = Fx::one().neg();
        let hi = Fx::one();
        let mut tries: u32 = 0;
        while tries < 64
            invariant
                lo@ == -(SCALE as int),
                hi@ == SCALE as int,
            decreases 64 - tries,
        {
            let p = Vec3::new(random_range(lo, hi), random_range(lo, hi), Fx::zero());
            if p.length().lt(Fx::one()) {
                return p;
            }
            tries = tries + 1;
        }
        Vec3::zero()
    }
}

} // verus!
