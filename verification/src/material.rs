//! Materials: how light continues after a hit, and how much is absorbed.
//!
//! Scattering consumes randomness; the random draws are passed in as plain
//! values (`ScatterRand`), so every scatter is a deterministic function of
//! its arguments with an exact contract.

use vstd::prelude::*;

use crate::fixed::{
    fx_add, fx_div, fx_mul, fx_sqrt, fx_sub, lemma_fx_div_in_unit, lemma_fx_mul_unit, Fx, SCALE,
};
use crate::hit::{HitRecord, HitV};
use crate::ray::{Ray, R3};
use crate::vec3::{
    add3, dot3, min_i, near_zero3, neg3, reflect3, refract3, smul3, unit3, V3, Vec3,
};
use vstd::arithmetic::div_mod::{lemma_div_pos_is_pos, lemma_multiply_divide_lt};

verus! {

/// A diffuse surface: scatters about the normal, attenuating by `albedo`.
#[derive(Clone, Copy, PartialEq, Eq, Structural, Debug)]
pub struct Lambertian {
    pub albedo: Vec3,
}

impl Lambertian {
    /// A diffuse material with the given albedo.
    pub fn new(a: Vec3) -> (r: Lambertian)
        ensures
            r.albedo == a,
    {
        Lambertian { albedo: a }
    }
}

/// A specular surface: mirror reflection blurred by `fuzz`, attenuating by
/// `albedo`. Fuzz is meant to lie in `[0, 1]` and is not clamped here.
#[derive(Clone, Copy, PartialEq, Eq, Structural, Debug)]
pub struct Metal {
    pub albedo: Vec3,
    pub fuzz: Fx,
}

impl Metal {
    /// A specular material with the given albedo and fuzz.
    pub fn new(a: Vec3, f: Fx) -> (r: Metal)
        ensures
            r.albedo == a,
            r.fuzz == f,
    {
        Metal { albedo: a, fuzz: f }
    }
}

/// A clear surface that refracts or reflects; `ir` is its index of
/// refraction.
#[derive(Clone, Copy, PartialEq, Eq, Structural, Debug)]
pub struct Dielectric {
    pub ir: Fx,
}

impl Dielectric {
    /// A clear material with the given index of refraction.
    pub fn new(index_of_refraction: Fx) -> (r: Dielectric)
        ensures
            r.ir == index_of_refraction,
    {
        Dielectric { ir: index_of_refraction }
    }
}

/// The closed set of materials. Materials are immutable and shared across
/// arbitrarily many surfaces through the world's arena.
#[derive(Clone, Copy, Debug)]
pub enum Material {
    Lambertian(Lambertian),
    Metal(Metal),
    Dielectric(Dielectric),
}

/// The random draws one scatter consumes: a vector sampled inside the unit
/// ball, and a coin in `[0, 1)` for the dielectric's reflectance test.
#[derive(Clone, Copy, Debug)]
pub struct ScatterRand {
    pub unit_ball: Vec3,
    pub coin: Fx,
}

/// The diffuse scatter direction: normal plus a unit vector, falling back
/// to the bare normal when the sum is degenerate.
pub open spec fn lambertian_dir(normal: V3, ball: V3) -> V3 {
    let d = add3(normal, unit3(ball));
    if near_zero3(d) {
        normal
    } else {
        d
    }
}

/// The fuzzed mirror direction: the normalized reflection plus `fuzz`
/// times the unit-ball sample.
pub open spec fn metal_dir(dir: V3, normal: V3, fuzz: int, ball: V3) -> V3 {
    add3(unit3(reflect3(dir, normal)), smul3(fuzz, ball))
}

/// The ratio of refractive indices across the surface: entering from
/// outside divides one by the index, leaving uses the index itself.
pub open spec fn dielectric_ratio(ir: int, front_face: bool) -> int {
    if front_face {
        fx_div(SCALE as int, ir)
    } else {
        ir
    }
}

/// The cosine of the angle of incidence, clamped from above at one.
pub open spec fn dielectric_cos(dir: V3, normal: V3) -> int {
    min_i(dot3(neg3(unit3(dir)), normal), SCALE as int)
}

/// The sine from the cosine.
pub open spec fn dielectric_sin(cos: int) -> int {
    fx_sqrt(fx_sub(SCALE as int, fx_mul(cos, cos)))
}

/// Schlick's approximation of Fresnel reflectance.
pub open spec fn spec_reflectance(cos: int, ir: int) -> int {
    let r0a = fx_div(fx_sub(SCALE as int, ir), fx_add(SCALE as int, ir));
    let r0 = fx_mul(r0a, r0a);
    let omc = fx_sub(SCALE as int, cos);
    let p5 = fx_mul(fx_mul(fx_mul(fx_mul(omc, omc), omc), omc), omc);
    fx_add(r0, fx_mul(fx_sub(SCALE as int, r0), p5))
}

/// Whether the dielectric reflects: total internal reflection, or the coin
/// falling under the Schlick reflectance.
pub open spec fn dielectric_reflects(
    ir: int,
    front_face: bool,
    dir: V3,
    normal: V3,
    coin: int,
) -> bool {
    let ratio = dielectric_ratio(ir, front_face);
    let cos = dielectric_cos(dir, normal);
    fx_mul(ratio, dielectric_sin(cos)) > SCALE || coin < spec_reflectance(cos, ratio)
}

/// The dielectric's outgoing direction: reflect or refract the normalized
/// incoming direction.
pub open spec fn dielectric_dir(
    ir: int,
    front_face: bool,
    dir: V3,
    normal: V3,
    coin: int,
) -> V3 {
    let ud = unit3(dir);
    if dielectric_reflects(ir, front_face, dir, normal, coin) {
        reflect3(ud, normal)
    } else {
        refract3(ud, normal, dielectric_ratio(ir, front_face))
    }
}

/// White: the dielectric's attenuation (no absorption).
pub open spec fn white3() -> V3 {
    V3 { x: SCALE as int, y: SCALE as int, z: SCALE as int }
}

/// What `Material::scatter` returns, as a function of the hit and of the
/// random draws.
pub open spec fn spec_scatter(
    m: Material,
    r: R3,
    rec: HitV,
    ball: V3,
    coin: int,
) -> Option<(V3, R3)> {
    match m {
        Material::Lambertian(l) => Some(
            (l.albedo@, R3 { origin: rec.p, dir: lambertian_dir(rec.normal, ball) }),
        ),
        Material::Metal(mt) => {
            let d = metal_dir(r.dir, rec.normal, mt.fuzz@, ball);
            if dot3(d, rec.normal) > 0 {
                Some((mt.albedo@, R3 { origin: rec.p, dir: d }))
            } else {
                None
            }
        },
        Material::Dielectric(dl) => Some(
            (
                white3(),
                R3 {
                    origin: rec.p,
                    dir: dielectric_dir(dl.ir@, rec.front_face, r.dir, rec.normal, coin),
                },
            ),
        ),
    }
}

/// Schlick reflectance stays within `[0, 1]` for every incidence cosine in
/// `[0, 1]` and every positive index ratio.
pub proof fn lemma_reflectance_bounds(cos: int, ir: int)
    requires
        0 <= cos <= SCALE,
        0 < ir <= i64::MAX,
    ensures
        0 <= spec_reflectance(cos, ir) <= SCALE,
{
    let num = fx_sub(SCALE as int, ir);
    let den = fx_add(SCALE as int, ir);
    assert(0 < den && -den < num < den);
    let r0a = fx_div(num, den);
    lemma_fx_div_in_unit(num, den);
    let sq = r0a * r0a;
    assert(0 <= sq && sq < 65536 * 65536) by (nonlinear_arith)
        requires
            -65536 < r0a < 65536,
            sq == r0a * r0a,
    ;
    lemma_div_pos_is_pos(sq, SCALE as int);
    lemma_multiply_divide_lt(sq, SCALE as int, SCALE as int);
    let r0 = fx_mul(r0a, r0a);
    assert(0 <= r0 <= SCALE);
    let omc = fx_sub(SCALE as int, cos);
    let p2 = fx_mul(omc, omc);
    let p3 = fx_mul(p2, omc);
    let p4 = fx_mul(p3, omc);
    let p5 = fx_mul(p4, omc);
    lemma_fx_mul_unit(omc, omc);
    lemma_fx_mul_unit(p2, omc);
    lemma_fx_mul_unit(p3, omc);
    lemma_fx_mul_unit(p4, omc);
    let s = fx_sub(SCALE as int, r0);
    lemma_fx_mul_unit(s, p5);
    assert(fx_mul(s, p5) <= s);
}

/// Schlick's approximation of Fresnel reflectance: the probability with
/// which a dielectric reflects at the given incidence cosine and index
/// ratio. The result lies in `[0, 1]` whenever the cosine does and the
/// ratio is positive.
pub fn reflectance(cos_theta: Fx, ir: Fx) -> (r: Fx)
    ensures
        r@ == spec_reflectance(cos_theta@, ir@),
        0 <= cos_theta@ <= SCALE && 0 < ir@ ==> 0 <= r@ <= SCALE,
{
    proof {
        if 0 <= cos_theta@ <= SCALE && 0 < ir@ {
            lemma_reflectance_bounds(cos_theta@, ir@);
        }
    }
    let r0a = Fx::one().sub(ir).div(Fx::one().add(ir));
    let r0 = r0a.mul(r0a);
    let omc = Fx::one().sub(cos_theta);
    let p5 = omc.mul(omc).mul(omc).mul(omc).mul(omc);
    r0.add(Fx::one().sub(r0).mul(p5))
}

impl Material {
    /// Scatter an incoming ray at a hit, consuming the given random draws.
    /// A diffuse surface always scatters; a metal absorbs the ray exactly
    /// when the fuzzed reflection points into the surface; a dielectric
    /// always scatters, reflecting under total internal reflection or when
    /// the coin falls under the Schlick reflectance, refracting otherwise.
    pub fn scatter(&self, r_in: &Ray, rec: &HitRecord, rnd: &ScatterRand) -> (res: Option<
        (Vec3, Ray),
    >)
        ensures
            (match res {
                Some(p) => spec_scatter(*self, r_in@, rec@, rnd.unit_ball@, rnd.coin@) == Some(
                    (p.0@, p.1@),
                ),
                None => spec_scatter(*self, r_in@, rec@, rnd.unit_ball@, rnd.coin@) is None,
            }),
            self matches Material::Lambertian(_) ==> res is Some,
            self matches Material::Dielectric(_) ==> res is Some,
            (match *self {
                Material::Metal(mt) => res is None <==> dot3(
                    metal_dir(r_in@.dir, rec@.normal, mt.fuzz@, rnd.unit_ball@),
                    rec@.normal,
                ) <= 0,
                _ => true,
            }),
    {
        match self {
            Material::Lambertian(l) => {
                let mut scatter_direction = rec.normal.add(rnd.unit_ball.normalized());
                // A sample opposite the normal would give a degenerate
                // direction: fall back to the bare normal.
                if scatter_direction.near_zero() {
                    scatter_direction = rec.normal;
                }
                Some((l.albedo, Ray::new(rec.p, scatter_direction)))
            },
            Material::Metal(m) => {
                let reflected = r_in.direction().reflect(rec.normal).normalized();
                let dir = reflected.add(rnd.unit_ball.scale(m.fuzz));
                let scattered = Ray::new(rec.p, dir);
                if Fx::zero().lt(scattered.direction().dot(rec.normal)) {
                    Some((m.albedo, scattered))
                } else {
                    None
                }
            },
            Material::Dielectric(d) => {
                let refraction_ratio = if rec.front_face {
                    Fx::one().div(d.ir)
                } else {
                    d.ir
                };
                let unit_dir = r_in.direction().normalized();
                let cos_theta = unit_dir.neg().dot(rec.normal).min(Fx::one());
                let sin_theta = Fx::one().sub(cos_theta.mul(cos_theta)).sqrt();

                let cannot_refract = Fx::one().lt(refraction_ratio.mul(sin_theta));
                let direction = if cannot_refract || rnd.coin.lt(
                    reflectance(cos_theta, refraction_ratio),
                ) {
                    unit_dir.reflect(rec.normal)
                } else {
                    unit_dir.refract(rec.normal, refraction_ratio)
                };

                Some((Vec3::new(Fx::one(), Fx::one(), Fx::one()), Ray::new(rec.p, direction)))
            },
        }
    }
}

} // verus!
