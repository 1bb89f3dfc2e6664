//! The camera: an orthonormal view basis and viewport, mapping pixel
//! fractions and lens jitter to rays.

use vstd::prelude::*;

use crate::fixed::{fx_add, fx_div, fx_mul, fx_sub, Fx, SCALE};
use crate::ray::{Ray, R3};
use crate::vec3::{add3, cross3, len3, sdiv3, smul3, sub3, unit3, V3, Vec3};

verus! {

/// `pi / 360` in Q47.16: converts a whole field-of-view in degrees to a
/// half-angle in radians.
pub const PI_OVER_360: i64 = 572;

/// Sine by a degree-seven Taylor polynomial in fixed point. The contract
/// of the camera pins this computation; its closeness to the real sine is
/// a numerical-accuracy concern outside the contracts.
pub open spec fn spec_sin(x: int) -> int {
    let x2 = fx_mul(x, x);
    let x3 = fx_mul(x2, x);
    let x5 = fx_mul(x3, x2);
    let x7 = fx_mul(x5, x2);
    fx_sub(
        fx_add(fx_sub(x, fx_div(x3, 6 * SCALE)), fx_div(x5, 120 * SCALE)),
        fx_div(x7, 5040 * SCALE),
    )
}

/// Cosine by a degree-six Taylor polynomial in fixed point.
pub open spec fn spec_cos(x: int) -> int {
    let x2 = fx_mul(x, x);
    let x4 = fx_mul(x2, x2);
    let x6 = fx_mul(x4, x2);
    fx_sub(
        fx_add(fx_sub(SCALE as int, fx_div(x2, 2 * SCALE)), fx_div(x4, 24 * SCALE)),
        fx_div(x6, 720 * SCALE),
    )
}

/// Tangent as sine over cosine.
pub open spec fn spec_tan(x: int) -> int {
    fx_div(spec_sin(x), spec_cos(x))
}

/// Sine of a fixed-point angle in radians.
pub fn sin_fx(x: Fx) -> (r: Fx)
    ensures
        r@ == spec_sin(x@),
{
    let x2 = x.mul(x);
    let x3 = x2.mul(x);
    let x5 = x3.mul(x2);
    let x7 = x5.mul(x2);
    x.sub(x3.div(Fx::from_raw(6 * SCALE))).add(x5.div(Fx::from_raw(120 * SCALE))).sub(
        x7.div(Fx::from_raw(5040 * SCALE)),
    )
}

/// Cosine of a fixed-point angle in radians.
pub fn cos_fx(x: Fx) -> (r: Fx)
    ensures
        r@ == spec_cos(x@),
{
    let x2 = x.mul(x);
    let x4 = x2.mul(x2);
    let x6 = x4.mul(x2);
    Fx::one().sub(x2.div(Fx::from_raw(2 * SCALE))).add(x4.div(Fx::from_raw(24 * SCALE))).sub(
        x6.div(Fx::from_raw(720 * SCALE)),
    )
}

/// Tangent of a fixed-point angle in radians.
pub fn tan_fx(x: Fx) -> (r: Fx)
    ensures
        r@ == spec_tan(x@),
{
    sin_fx(x).div(cos_fx(x))
}

/// The model of a camera.
pub ghost struct CamV {
    pub origin: V3,
    pub lower_left_corner: V3,
    pub horizontal: V3,
    pub vertical: V3,
    pub cu: V3,
    pub cv: V3,
    pub lens_radius: int,
}

/// What `Camera::new` builds: the viewport from the field of view and
/// aspect ratio, the orthonormal basis from the look direction and up
/// vector, the focus-scaled viewport vectors, the lower-left corner, and
/// the lens radius as half the aperture.
pub open spec fn spec_camera(
    lookfrom: V3,
    lookat: V3,
    vup: V3,
    vfov: int,
    aspect_ratio: int,
    aperture: int,
    focus_dist: int,
) -> CamV {
    let theta_half = fx_mul(vfov, PI_OVER_360 as int);
    let h = spec_tan(theta_half);
    let viewport_height = fx_mul(2 * SCALE, h);
    let viewport_width = fx_mul(aspect_ratio, viewport_height);
    let cw = unit3(sub3(lookfrom, lookat));
    let cu = unit3(cross3(vup, cw));
    let cv = cross3(cw, cu);
    let hor = smul3(fx_mul(focus_dist, viewport_width), cu);
    let ver = smul3(fx_mul(focus_dist, viewport_height), cv);
    let llc = sub3(
        sub3(sub3(lookfrom, sdiv3(hor, 2 * SCALE)), sdiv3(ver, 2 * SCALE)),
        smul3(focus_dist, cw),
    );
    CamV {
        origin: lookfrom,
        lower_left_corner: llc,
        horizontal: hor,
        vertical: ver,
        cu,
        cv,
        lens_radius: fx_div(aperture, 2 * SCALE),
    }
}

/// The ray through the viewport point `(s, t)` from the lens point given
/// by the unit-disc sample `disc`.
pub open spec fn spec_get_ray(c: CamV, s: int, t: int, disc: V3) -> R3 {
    let rd = smul3(c.lens_radius, disc);
    let offset = add3(smul3(rd.x, c.cu), smul3(rd.y, c.cv));
    R3 {
        origin: add3(c.origin, offset),
        dir: sub3(
            sub3(
                add3(add3(c.lower_left_corner, smul3(s, c.horizontal)), smul3(t, c.vertical)),
                c.origin,
            ),
            offset,
        ),
    }
}

/// A camera, immutable once constructed.
#[derive(Clone, Copy, Debug)]
pub struct Camera {
    pub origin: Vec3,
    pub lower_left_corner: Vec3,
    pub horizontal: Vec3,
    pub vertical: Vec3,
    pub cu: Vec3,
    pub cv: Vec3,
    pub lens_radius: Fx,
}

impl View for Camera {
    type V = CamV;

    open spec fn view(&self) -> CamV {
        CamV {
            origin: self.origin@,
            lower_left_corner: self.lower_left_corner@,
            horizontal: self.horizontal@,
            vertical: self.vertical@,
            cu: self.cu@,
            cv: self.cv@,
            lens_radius: self.lens_radius@,
        }
    }
}

impl Camera {
    /// Build a camera from a viewpoint, a look-at point, an up vector, a
    /// vertical field of view in degrees, an aspect ratio, an aperture and
    /// a focus distance.
    pub fn new(
        lookfrom: Vec3,
        lookat: Vec3,
        vup: Vec3,
        vfov: Fx,
        aspect_ratio: Fx,
        aperture: Fx,
        focus_dist: Fx,
    ) -> (c: Camera)
        ensures
            c@ == spec_camera(
                lookfrom@,
                lookat@,
                vup@,
                vfov@,
                aspect_ratio@,
                aperture@,
                focus_dist@,
            ),
    {
        let theta_half = vfov.mul(Fx::from_raw(PI_OVER_360));
        let h = tan_fx(theta_half);
        let viewport_height = Fx::from_raw(2 * SCALE).mul(h);
        let viewport_width = aspect_ratio.mul(viewport_height);

        let cw = lookfrom.sub(lookat).normalized();
        let cu = vup.cross(cw).normalized();
        let cv = cw.cross(cu);
        let half = Fx::from_raw(2 * SCALE);
        let hor = cu.scale(focus_dist.mul(viewport_width));
        let ver = cv.scale(focus_dist.mul(viewport_height));

        let llc = lookfrom.sub(hor.div(half)).sub(ver.div(half)).sub(cw.scale(focus_dist));

        Camera {
            origin: lookfrom,
            horizontal: hor,
            vertical: ver,
            lower_left_corner: llc,
            cu,
            cv,
            lens_radius: aperture.div(half),
        }
    }

    /// The ray toward the viewport point `(s, t)`, jittered across the
    /// lens disc; the jitter is the only randomness the camera consumes.
    pub fn get_ray(&self, s: Fx, t: Fx) -> (r: Ray)
        ensures
            exists|d: V3| len3(d) < SCALE && d.z == 0 && r@ == spec_get_ray(self@, s@, t@, d),
    {
        let p = Vec3::random_in_unit_disc();
        let rd = p.scale(self.lens_radius);
        let offset = self.cu.scale(rd.x()).add(self.cv.scale(rd.y()));
        let origin = self.origin.add(offset);
        let dir = self.lower_left_corner.add(self.horizontal.scale(s)).add(
            self.vertical.scale(t),
        ).sub(self.origin).sub(offset);
        let r = Ray::new(origin, dir);
        proof {
            let d = p@;
            assert(len3(d) < SCALE && d.z == 0 && r@ == spec_get_ray(self@, s@, t@, d));
        }
        r
    }
}

} // verus!
