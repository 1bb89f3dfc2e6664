//! Surface intersections: the hit record and the world's nearest-hit scan.

use vstd::prelude::*;

use crate::fixed::{fx_mul, fx_neg, lemma_tdiv_abs_le, tdiv, Fx, SCALE};
use crate::material::Material;
use crate::ray::{Ray, R3};
use crate::sphere::{lemma_sphere_hit_shrink, sphere_hit, Sphere};
use crate::vec3::{dot3, neg3, V3, Vec3};

verus! {

/// The model of a hit record.
pub ghost struct HitV {
    pub p: V3,
    pub normal: V3,
    pub t: int,
    pub front_face: bool,
    pub mat: int,
}

/// An intersection: the hit point, the outward-corrected surface normal,
/// the ray parameter, whether the geometric outward normal already opposed
/// the ray, and the index of the intersected object's material in the
/// world's material arena.
#[derive(Clone, Copy, PartialEq, Eq, Structural, Debug)]
pub struct HitRecord {
    pub p: Vec3,
    pub normal: Vec3,
    pub t: Fx,
    pub front_face: bool,
    pub mat: usize,
}

impl View for HitRecord {
    type V = HitV;

    open spec fn view(&self) -> HitV {
        HitV {
            p: self.p@,
            normal: self.normal@,
            t: self.t@,
            front_face: self.front_face,
            mat: self.mat as int,
        }
    }
}

impl HitRecord {
    /// Orient the stored normal against the incoming ray: `front_face`
    /// records whether the geometric outward normal already opposed the ray
    /// (negative dot product); if it did not, the stored normal is its
    /// negation. Every surface type must populate its records through this
    /// rule.
    pub fn set_face_normal(&mut self, r: &Ray, outward_normal: Vec3)
        ensures
            final(self).front_face == (dot3(r@.dir, outward_normal@) < 0),
            final(self).normal@ == if dot3(r@.dir, outward_normal@) < 0 {
                outward_normal@
            } else {
                neg3(outward_normal@)
            },
            final(self).p == old(self).p,
            final(self).t == old(self).t,
            final(self).mat == old(self).mat,
    {
        self.front_face = r.direction().dot(outward_normal).lt(Fx::zero());
        self.normal = if self.front_face {
            outward_normal
        } else {
            outward_normal.neg()
        };
    }
}

/// A generous magnitude bound on raw components under which the
/// orientation rule's dot product cannot saturate.
pub const ORIENT_BOUND: i64 = 274877906944;

/// The hit-record invariant behind the orientation rule: the stored normal
/// never points along the incoming ray. For any direction and geometric
/// outward normal whose raw components stay within `ORIENT_BOUND` (so no
/// intermediate of the dot product saturates), the corrected normal — the
/// outward normal when it already opposed the ray, else its negation — has
/// a dot product with the ray direction that is never positive.
pub proof fn lemma_corrected_normal_opposes_ray(d: V3, outward: V3)
    requires
        -ORIENT_BOUND <= d.x <= ORIENT_BOUND,
        -ORIENT_BOUND <= d.y <= ORIENT_BOUND,
        -ORIENT_BOUND <= d.z <= ORIENT_BOUND,
        -ORIENT_BOUND <= outward.x <= ORIENT_BOUND,
        -ORIENT_BOUND <= outward.y <= ORIENT_BOUND,
        -ORIENT_BOUND <= outward.z <= ORIENT_BOUND,
    ensures
        dot3(
            d,
            if dot3(d, outward) < 0 {
                outward
            } else {
                neg3(outward)
            },
        ) <= 0,
{
    if dot3(d, outward) >= 0 {
        let m: int = 1152921504606846976;  // 2^60, the per-product bound
        lemma_orient_product_negates(d.x, outward.x, m);
        lemma_orient_product_negates(d.y, outward.y, m);
        lemma_orient_product_negates(d.z, outward.z, m);
    }
}

/// One component of the orientation dot product: within the bound, the
/// product against the negated normal is exactly the negated product, and
/// both stay within `m`.
proof fn lemma_orient_product_negates(a: int, b: int, m: int)
    requires
        m == 1152921504606846976,
        -ORIENT_BOUND <= a <= ORIENT_BOUND,
        -ORIENT_BOUND <= b <= ORIENT_BOUND,
    ensures
        fx_mul(a, fx_neg(b)) == -fx_mul(a, b),
        -m <= fx_mul(a, b) <= m,
{
    let p = a * b;
    assert(-(m * (SCALE as int)) <= p <= m * (SCALE as int) && a * (-b) == -p)
        by (nonlinear_arith)
        requires
            -274877906944 <= a <= 274877906944,
            -274877906944 <= b <= 274877906944,
            m == 1152921504606846976,
            SCALE == 65536,
            p == a * b,
    ;
    lemma_tdiv_abs_le(p, SCALE as int, m);
    assert(tdiv(-p, SCALE as int) == -tdiv(p, SCALE as int));
}
/// the interval tightened by the best hit so far: none when no sphere is
/// struck inside `(t0, t1)`, else the nearest qualifying hit.
pub open spec fn spec_world_hit(spheres: Seq<Sphere>, r: R3, t0: int, t1: int) -> Option<HitV>
    decreases spheres.len(),
{
    if spheres.len() == 0 {
        None
    } else {
        let prev = spec_world_hit(spheres.drop_last(), r, t0, t1);
        let bound = match prev {
            Some(h) => h.t,
            None => t1,
        };
        match sphere_hit(spheres.last()@, r, t0, bound) {
            Some(h) => Some(h),
            None => prev,
        }
    }
}

/// The nearest-hit law: when the scan returns a hit, it is a hit of one of
/// the members, and no member is struck at a smaller ray parameter inside
/// `(t0, t1)`; when it returns none, no member is struck inside `(t0, t1)`
/// at all. A member entirely behind `t0` or beyond `t1` therefore never
/// affects the result.
#[verifier::rlimit(100)]
pub proof fn lemma_world_hit_nearest(spheres: Seq<Sphere>, r: R3, t0: int, t1: int)
    ensures
        (spec_world_hit(spheres, r, t0, t1) matches Some(h) ==> exists|i: int|
            0 <= i < spheres.len() && #[trigger] sphere_hit(spheres[i]@, r, t0, t1) == Some(h)),
        (spec_world_hit(spheres, r, t0, t1) matches Some(h) ==> forall|j: int|
            0 <= j < spheres.len() ==> (#[trigger] sphere_hit(spheres[j]@, r, t0, t1) matches Some(
                g,
            ) ==> g.t >= h.t)),
        (spec_world_hit(spheres, r, t0, t1) is None ==> forall|j: int|
            0 <= j < spheres.len() ==> #[trigger] sphere_hit(spheres[j]@, r, t0, t1) is None),
    decreases spheres.len(),
{
    if spheres.len() == 0 {
    } else {
        let prefix = spheres.drop_last();
        let last = spheres.last();
        lemma_world_hit_nearest(prefix, r, t0, t1);
        let prev = spec_world_hit(prefix, r, t0, t1);
        let bound = match prev {
            Some(h) => h.t,
            None => t1,
        };
        match prev {
            Some(hp) => {
                assert(hp.t < t1) by {
                    let i = choose|i: int|
                        0 <= i < prefix.len() && #[trigger] sphere_hit(prefix[i]@, r, t0, t1)
                            == Some(hp);
                }
                lemma_sphere_hit_shrink(last@, r, t0, t1, bound);
            },
            None => {},
        }
        assert(forall|j: int| 0 <= j < prefix.len() ==> prefix[j] == spheres[j]);
        match spec_world_hit(spheres, r, t0, t1) {
            Some(h) => {
                match sphere_hit(last@, r, t0, bound) {
                    Some(hl) => {
                        // The last sphere's narrow-interval hit is also its
                        // full-interval hit.
                        assert(sphere_hit(last@, r, t0, t1) == Some(h));
                        assert(spheres[spheres.len() - 1] == last);
                    },
                    None => {
                        let i = choose|i: int|
                            0 <= i < prefix.len() && #[trigger] sphere_hit(prefix[i]@, r, t0, t1)
                                == Some(h);
                        assert(sphere_hit(spheres[i]@, r, t0, t1) == Some(h));
                    },
                }
            },
            None => {},
        }
    }
}

/// An insertion-ordered collection of spheres together with the material
/// arena they index into. Insertion order has no effect on the nearest-hit
/// result.
pub struct World {
    pub spheres: Vec<Sphere>,
    pub materials: Vec<Material>,
}

impl World {
    /// Every sphere's material index points into the arena.
    pub open spec fn wf(self) -> bool {
        forall|i: int|
            0 <= i < self.spheres@.len() ==> (#[trigger] self.spheres@[i]).mat
                < self.materials@.len()
    }

    /// An empty world.
    pub fn new() -> (w: World)
        ensures
            w.spheres@.len() == 0,
            w.materials@.len() == 0,
            w.wf(),
    {
        World { spheres: Vec::new(), materials: Vec::new() }
    }

    /// Add a material to the arena and return its index.
    pub fn add_material(&mut self, m: Material) -> (idx: usize)
        ensures
            final(self).materials@ == old(self).materials@.push(m),
            final(self).spheres == old(self).spheres,
            idx as int == old(self).materials@.len(),
            old(self).wf() ==> final(self).wf(),
    {
        let idx = self.materials.len();
        self.materials.push(m);
        idx
    }

    /// Add a sphere; its material index must point into the arena.
    pub fn push(&mut self, s: Sphere)
        requires
            s.mat < old(self).materials@.len(),
        ensures
            final(self).spheres@ == old(self).spheres@.push(s),
            final(self).materials == old(self).materials,
            old(self).wf() ==> final(self).wf(),
    {
        self.spheres.push(s);
    }

    /// Find the nearest hit among the members: scan left to right, keeping
    /// `closest` at the best parameter so far, so each later member is
    /// tested against a tightening interval.
    pub fn hit(&self, r: &Ray, t_min: Fx, t_max: Fx) -> (res: Option<HitRecord>)
        ensures
            (match res {
                Some(h) => spec_world_hit(self.spheres@, r@, t_min@, t_max@) == Some(h@),
                None => spec_world_hit(self.spheres@, r@, t_min@, t_max@) is None,
            }),
            (match res {
                Some(h) => self.wf() ==> h.mat < self.materials@.len(),
                None => true,
            }),
    {
        let mut tmp_rec: Option<HitRecord> = None;
        let mut closest = t_max;
        let mut k: usize = 0;
        while k < self.spheres.len()
            invariant
                k <= self.spheres.len(),
                (match tmp_rec {
                    Some(h) => spec_world_hit(self.spheres@.take(k as int), r@, t_min@, t_max@)
                        == Some(h@) && closest@ == h@.t && (self.wf() ==> h.mat
                        < self.materials@.len()),
                    None => spec_world_hit(self.spheres@.take(k as int), r@, t_min@, t_max@)
                        is None && closest == t_max,
                }),
            decreases self.spheres.len() - k,
        {
            let ghost prefix = self.spheres@.take(k as int);
            let ghost next = self.spheres@.take(k as int + 1);
            proof {
                assert(next.drop_last() =~= prefix);
                assert(next.last() == self.spheres@[k as int]);
            }
            let sph = self.spheres[k];
            match sph.hit(r, t_min, closest) {
                Some(rec) => {
                    closest = rec.t;
                    tmp_rec = Some(rec);
                },
                None => {},
            }
            k = k + 1;
        }
        proof {
            assert(self.spheres@.take(self.spheres@.len() as int) =~= self.spheres@);
        }
        tmp_rec
    }
}

} // verus!
