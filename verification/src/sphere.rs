//! Spheres and their ray-intersection contract.

use vstd::prelude::*;

use crate::fixed::{
    fx_add, fx_div, fx_mul, fx_neg, fx_sqrt, fx_sub, lemma_fx_div_monotone,
    lemma_fx_div_neg_denominator, lemma_fx_sqrt_nonneg, tdiv, Fx, SCALE,
};
use crate::hit::{HitRecord, HitV};
use crate::ray::{ray_at, Ray, R3};
use crate::vec3::{dot3, len3, neg3, sdiv3, sub3, V3, Vec3};
use vstd::arithmetic::div_mod::lemma_div_pos_is_pos;

verus! {

/// The model of a sphere.
pub ghost struct SphV {
    pub center: V3,
    pub radius: int,
    pub mat: int,
}

/// The quadratic's leading coefficient: the squared length of the ray
/// direction.
pub open spec fn sphere_a(r: R3) -> int {
    fx_mul(len3(r.dir), len3(r.dir))
}

/// Half the quadratic's linear coefficient: `(origin - center) . dir`.
pub open spec fn sphere_half_b(s: SphV, r: R3) -> int {
    dot3(sub3(r.origin, s.center), r.dir)
}

/// The quadratic's constant coefficient: `|origin - center|^2 - radius^2`.
pub open spec fn sphere_c(s: SphV, r: R3) -> int {
    let oc = sub3(r.origin, s.center);
    fx_sub(fx_mul(len3(oc), len3(oc)), fx_mul(s.radius, s.radius))
}

/// The discriminant of the half-b quadratic.
pub open spec fn sphere_disc(s: SphV, r: R3) -> int {
    fx_sub(
        fx_mul(sphere_half_b(s, r), sphere_half_b(s, r)),
        fx_mul(sphere_a(r), sphere_c(s, r)),
    )
}

/// The smaller root of the quadratic.
pub open spec fn sphere_root1(s: SphV, r: R3) -> int {
    fx_div(fx_sub(fx_neg(sphere_half_b(s, r)), fx_sqrt(sphere_disc(s, r))), sphere_a(r))
}

/// The larger root of the quadratic.
pub open spec fn sphere_root2(s: SphV, r: R3) -> int {
    fx_div(fx_add(fx_neg(sphere_half_b(s, r)), fx_sqrt(sphere_disc(s, r))), sphere_a(r))
}

/// The accepted ray parameter: none when the discriminant is negative;
/// otherwise the smaller root if it lies strictly inside `(t0, t1)`, else
/// the larger root if it does, else none.
pub open spec fn sphere_root(s: SphV, r: R3, t0: int, t1: int) -> Option<int> {
    if sphere_disc(s, r) < 0 {
        None
    } else if t0 < sphere_root1(s, r) && sphere_root1(s, r) < t1 {
        Some(sphere_root1(s, r))
    } else if t0 < sphere_root2(s, r) && sphere_root2(s, r) < t1 {
        Some(sphere_root2(s, r))
    } else {
        None
    }
}

/// The geometric outward normal at `p`: `(p - center) / radius`. The signed
/// radius flips its sense for hollow (negative-radius) spheres.
pub open spec fn sphere_outward(s: SphV, p: V3) -> V3 {
    sdiv3(sub3(p, s.center), s.radius)
}

/// The full intersection result: the accepted root, the point it reaches,
/// and the outward-corrected normal with its `front_face` flag.
pub open spec fn sphere_hit(s: SphV, r: R3, t0: int, t1: int) -> Option<HitV> {
    match sphere_root(s, r, t0, t1) {
        None => None,
        Some(t) => {
            let p = ray_at(r, t);
            let outward = sphere_outward(s, p);
            let ff = dot3(r.dir, outward) < 0;
            Some(
                HitV {
                    p,
                    normal: if ff {
                        outward
                    } else {
                        neg3(outward)
                    },
                    t,
                    front_face: ff,
                    mat: s.mat,
                },
            )
        },
    }
}

/// A negative radius flips the geometric outward normal: wherever no
/// component of the quotient saturates, the outward normal of a
/// negative-radius sphere is the negation of what the magnitude of the
/// radius would give. Together with the orientation rule this is the
/// hollow-shell behavior: the stored normal of such a sphere points
/// opposite the naive `(p - center) / |radius|` direction.
pub proof fn lemma_negative_radius_flips_outward(s: SphV, p: V3)
    requires
        s.radius < 0,
        ({
            let q = sub3(p, s.center);
            &&& -(i64::MAX as int) <= tdiv(q.x * SCALE, -s.radius) <= i64::MAX as int
            &&& -(i64::MAX as int) <= tdiv(q.y * SCALE, -s.radius) <= i64::MAX as int
            &&& -(i64::MAX as int) <= tdiv(q.z * SCALE, -s.radius) <= i64::MAX as int
        }),
    ensures
        sphere_outward(s, p) == neg3(sdiv3(sub3(p, s.center), -s.radius)),
{
    let q = sub3(p, s.center);
    lemma_fx_div_neg_denominator(q.x, s.radius);
    lemma_fx_div_neg_denominator(q.y, s.radius);
    lemma_fx_div_neg_denominator(q.z, s.radius);
    assert(sphere_outward(s, p) =~= neg3(sdiv3(q, -s.radius)));
}

/// The quadratic's leading coefficient is never negative.
pub proof fn lemma_sphere_a_nonneg(r: R3)
    ensures
        sphere_a(r) >= 0,
{
    let l = len3(r.dir);
    lemma_fx_sqrt_nonneg(dot3(r.dir, r.dir));
    assert(l * l >= 0) by (nonlinear_arith)
        requires
            l >= 0,
    ;
    lemma_div_pos_is_pos(l * l, SCALE as int);
}

/// The smaller root never exceeds the larger root.
pub proof fn lemma_roots_ordered(s: SphV, r: R3)
    ensures
        sphere_root1(s, r) <= sphere_root2(s, r),
{
    let nb = fx_neg(sphere_half_b(s, r));
    let sq = fx_sqrt(sphere_disc(s, r));
    lemma_fx_sqrt_nonneg(sphere_disc(s, r));
    lemma_sphere_a_nonneg(r);
    lemma_fx_div_monotone(fx_sub(nb, sq), fx_add(nb, sq), sphere_a(r));
}

/// Narrowing the search interval's upper bound keeps a hit that lies under
/// the new bound unchanged, and only discards hits at or past it. This is
/// what lets the world's scan test each sphere against a tightening
/// interval without changing the nearest result.
pub proof fn lemma_sphere_hit_shrink(s: SphV, r: R3, t0: int, t1: int, t1b: int)
    requires
        t1b <= t1,
    ensures
        (match sphere_hit(s, r, t0, t1) {
            Some(h) => if h.t < t1b {
                sphere_hit(s, r, t0, t1b) == sphere_hit(s, r, t0, t1)
            } else {
                sphere_hit(s, r, t0, t1b) is None
            },
            None => sphere_hit(s, r, t0, t1b) is None,
        }),
{
    lemma_roots_ordered(s, r);
}

/// A sphere: center, signed radius, and the index of its material in the
/// world's arena. A negative radius is legal and flips the outward-normal
/// sense, producing a hollow shell.
#[derive(Clone, Copy, PartialEq, Eq, Structural, Debug)]
pub struct Sphere {
    pub center: Vec3,
    pub radius: Fx,
    pub mat: usize,
}

impl View for Sphere {
    type V = SphV;

    open spec fn view(&self) -> SphV {
        SphV { center: self.center@, radius: self.radius@, mat: self.mat as int }
    }
}

impl Sphere {
    /// The sphere with the given center, signed radius and material index.
    pub fn new(cen: Vec3, r: Fx, m: usize) -> (s: Sphere)
        ensures
            s@ == (SphV { center: cen@, radius: r@, mat: m as int }),
    {
        Sphere { center: cen, radius: r, mat: m }
    }

    /// Intersect a ray with the sphere, accepting a hit only strictly
    /// inside `(t_min, t_max)`: solve the half-b quadratic, prefer the
    /// smaller root, and orient the normal against the ray.
    pub fn hit(&self, r: &Ray, t_min: Fx, t_max: Fx) -> (res: Option<HitRecord>)
        ensures
            match res {
                Some(h) => sphere_hit(self@, r@, t_min@, t_max@) == Some(h@),
                None => sphere_hit(self@, r@, t_min@, t_max@) is None,
            },
    {
        let oc = r.origin().sub(self.center);
        let dlen = r.direction().length();
        let a = dlen.mul(dlen);
        let half_b = oc.dot(r.direction());
        let oclen = oc.length();
        let c = oclen.mul(oclen).sub(self.radius.mul(self.radius));

        let discriminant = half_b.mul(half_b).sub(a.mul(c));
        if discriminant.lt(Fx::zero()) {
            return None;
        }

        // Find the nearest acceptable root.
        let sqrtd = discriminant.sqrt();
        let mut root = half_b.neg().sub(sqrtd).div(a);
        if !(t_min.lt(root) && root.lt(t_max)) {
            root = half_b.neg().add(sqrtd).div(a);
            if !(t_min.lt(root) && root.lt(t_max)) {
                return None;
            }
        }

        let p = r.at(root);
        let outward_normal = p.sub(self.center).div(self.radius);
        let mut rec = HitRecord {
            t: root,
            p,
            mat: self.mat,
            normal: Vec3::zero(),
            front_face: false,
        };
        rec.set_face_normal(r, outward_normal);
        Some(rec)
    }
}

} // verus!
