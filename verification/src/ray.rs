//! Rays: an origin and a direction.

use vstd::prelude::*;

use crate::fixed::Fx;
use crate::vec3::{add3, smul3, V3, Vec3};

verus! {

/// The model of a ray.
pub ghost struct R3 {
    pub origin: V3,
    pub dir: V3,
}

/// The point a ray reaches at parameter `t`: `origin + t * dir`.
pub open spec fn ray_at(r: R3, t: int) -> V3 {
    add3(r.origin, smul3(t, r.dir))
}

/// An immutable ray: origin plus direction. The direction is not
/// normalized.
#[derive(Clone, Copy, PartialEq, Eq, Structural, Debug)]
pub struct Ray {
    pub origin: Vec3,
    pub dir: Vec3,
}

impl View for Ray {
    type V = R3;

    open spec fn view(&self) -> R3 {
        R3 { origin: self.origin@, dir: self.dir@ }
    }
}

impl Ray {
    /// The ray from `origin` along `direction`.
    pub fn new(origin: Vec3, direction: Vec3) -> (r: Ray)
        ensures
            r@ == (R3 { origin: origin@, dir: direction@ }),
    {
        Ray { origin, dir: direction }
    }

    /// The origin.
    pub fn origin(&self) -> (r: Vec3)
        ensures
            r@ == self@.origin,
    {
        self.origin
    }

    /// The direction.
    pub fn direction(&self) -> (r: Vec3)
        ensures
            r@ == self@.dir,
    {
        self.dir
    }

    /// The point at parameter `t`. The parameter is not validated.
    pub fn at(&self, t: Fx) -> (r: Vec3)
        ensures
            r@ == ray_at(self@, t@),
    {
        self.origin.add(self.dir.scale(t))
    }
}

} // verus!
