//! The recursive radiance estimator.

use vstd::prelude::*;

use crate::fixed::{fx_add, fx_mul, fx_sub, lemma_fx_mul_zero, Fx, SCALE};
use crate::hit::{spec_world_hit, HitV, World};
use crate::material::{spec_scatter, white3, Material, ScatterRand};
use crate::ray::{Ray, R3};
use crate::rng::random_unit;
use crate::sphere::Sphere;
use crate::vec3::{add3, cmul3, len3, smul3, unit3, V3, Vec3};

verus! {

/// What an escaped ray sees: a sky gradient, or flat black. A scene
/// configuration choice, not a constant of the renderer.
#[derive(Clone, Copy, Debug)]
pub enum Background {
    Sky,
    Black,
}

/// The lower bound of every hit search, slightly off zero to suppress
/// self-intersection of scattered rays: about 0.001.
pub const T_MIN_HIT: i64 = 66;

/// Black: the color of a truncated or absorbed path.
pub open spec fn black3() -> V3 {
    V3 { x: 0, y: 0, z: 0 }
}

/// The sky's zenith color, about (0.5, 0.7, 1.0).
pub open spec fn sky_blue3() -> V3 {
    V3 { x: 32768, y: 45875, z: SCALE as int }
}

/// The background color of a ray: black, or white blended toward sky blue
/// by half of one plus the normalized direction's vertical component.
pub open spec fn spec_background(bg: Background, r: R3) -> V3 {
    match bg {
        Background::Black => black3(),
        Background::Sky => {
            let ud = unit3(r.dir);
            let t = fx_mul(32768, fx_add(ud.y, SCALE as int));
            add3(smul3(fx_sub(SCALE as int, t), white3()), smul3(t, sky_blue3()))
        },
    }
}

/// The radiance the estimator computes for a ray under a given trace of
/// draws, one unit-ball sample and one coin per bounce: black once the
/// bounce budget is spent; the background where nothing is struck past the
/// self-intersection offset; otherwise black where the trace's first draw
/// has the hit material absorb the ray, else the component-wise product of
/// the material's attenuation with the scattered ray's radiance under the
/// rest of the trace.
pub open spec fn radiance_of(
    spheres: Seq<Sphere>,
    materials: Seq<Material>,
    bg: Background,
    r: R3,
    depth: nat,
    draws: Seq<(V3, int)>,
) -> V3
    decreases depth,
{
    if depth == 0 {
        black3()
    } else {
        match spec_world_hit(spheres, r, T_MIN_HIT as int, i64::MAX as int) {
            None => spec_background(bg, r),
            Some(h) => match spec_scatter(materials[h.mat], r, h, draws[0].0, draws[0].1) {
                None => black3(),
                Some(p) => cmul3(
                    p.0,
                    radiance_of(
                        spheres,
                        materials,
                        bg,
                        p.1,
                        (depth - 1) as nat,
                        draws.drop_first(),
                    ),
                ),
            },
        }
    }
}

/// A well-formed trace of draws: every unit-ball sample lies inside the
/// unit ball and every coin in `[0, 1)` — exactly what the samplers
/// guarantee of each draw.
pub open spec fn draws_wf(draws: Seq<(V3, int)>) -> bool {
    forall|i: int|
        0 <= i < draws.len() ==> len3((#[trigger] draws[i]).0) < SCALE && 0 <= draws[i].1 < SCALE
}

/// `c` is a value the radiance estimator can return for this ray: its
/// radiance under some well-formed trace of `depth` draws. This
/// characterizes every outcome of the stochastic estimator; which one
/// occurs depends on the draws.
pub open spec fn possible_radiance(
    spheres: Seq<Sphere>,
    materials: Seq<Material>,
    bg: Background,
    r: R3,
    depth: nat,
    c: V3,
) -> bool {
    exists|draws: Seq<(V3, int)>|
        draws.len() == depth && draws_wf(draws) && c == radiance_of(
            spheres,
            materials,
            bg,
            r,
            depth,
            draws,
        )
}

/// The all-zero trace: a valid stand-in wherever the draws go unused.
pub open spec fn zero_draws(n: nat) -> Seq<(V3, int)> {
    Seq::new(n, |i: int| (V3 { x: 0, y: 0, z: 0 }, 0))
}

/// The all-zero trace is well formed: the zero vector lies inside the unit
/// ball and the zero coin in `[0, 1)`.
pub proof fn lemma_zero_draws_wf(n: nat)
    ensures
        zero_draws(n).len() == n,
        draws_wf(zero_draws(n)),
{
    lemma_fx_mul_zero(0);
    assert(len3(V3 { x: 0, y: 0, z: 0 }) == 0);
}

/// A spent bounce budget admits exactly black.
pub proof fn lemma_radiance_spent(
    spheres: Seq<Sphere>,
    materials: Seq<Material>,
    bg: Background,
    r: R3,
)
    ensures
        possible_radiance(spheres, materials, bg, r, 0, black3()),
{
    lemma_zero_draws_wf(0);
    assert(black3() == radiance_of(spheres, materials, bg, r, 0, zero_draws(0)));
}

/// A ray that strikes nothing admits exactly the background color.
pub proof fn lemma_radiance_miss(
    spheres: Seq<Sphere>,
    materials: Seq<Material>,
    bg: Background,
    r: R3,
    depth: nat,
)
    requires
        depth > 0,
        spec_world_hit(spheres, r, T_MIN_HIT as int, i64::MAX as int) is None,
    ensures
        possible_radiance(spheres, materials, bg, r, depth, spec_background(bg, r)),
{
    lemma_zero_draws_wf(depth);
    assert(spec_background(bg, r) == radiance_of(spheres, materials, bg, r, depth, zero_draws(depth)));
}

/// A ray that strikes `h` admits any color that some first draw produces:
/// black if that draw absorbs, else the attenuated radiance of the
/// scattered ray under the remaining draws.
pub proof fn lemma_radiance_hit(
    spheres: Seq<Sphere>,
    materials: Seq<Material>,
    bg: Background,
    r: R3,
    h: HitV,
    depth: nat,
    ball: V3,
    coin: int,
    sub: V3,
    c: V3,
)
    requires
        depth > 0,
        spec_world_hit(spheres, r, T_MIN_HIT as int, i64::MAX as int) == Some(h),
        len3(ball) < SCALE,
        0 <= coin < SCALE,
        (match spec_scatter(materials[h.mat], r, h, ball, coin) {
            None => c == black3(),
            Some(p) => possible_radiance(spheres, materials, bg, p.1, (depth - 1) as nat, sub)
                && c == cmul3(p.0, sub),
        }),
    ensures
        possible_radiance(spheres, materials, bg, r, depth, c),
{
    let rest: Seq<(V3, int)> = match spec_scatter(materials[h.mat], r, h, ball, coin) {
        None => {
            lemma_zero_draws_wf((depth - 1) as nat);
            zero_draws((depth - 1) as nat)
        },
        Some(p) => choose|d: Seq<(V3, int)>|
            d.len() == (depth - 1) as nat && draws_wf(d) && sub == radiance_of(
                spheres,
                materials,
                bg,
                p.1,
                (depth - 1) as nat,
                d,
            ),
    };
    let draws = seq![(ball, coin)] + rest;
    assert(draws.len() == depth);
    assert(draws[0] == (ball, coin));
    assert(draws.drop_first() =~= rest);
    assert forall|i: int|
        0 <= i < draws.len() implies len3((#[trigger] draws[i]).0) < SCALE && 0 <= draws[i].1
        < SCALE by {
        if i > 0 {
            assert(draws[i] == rest[i - 1]);
        }
    }
    assert(c == radiance_of(spheres, materials, bg, r, depth, draws));
}

/// Attenuating black gives black: with the black background, an absorbed
/// or truncated path stays black through every bounce.
pub proof fn lemma_attenuated_black(a: V3)
    ensures
        cmul3(a, black3()) == black3(),
{
    lemma_fx_mul_zero(a.x);
    lemma_fx_mul_zero(a.y);
    lemma_fx_mul_zero(a.z);
    assert(cmul3(a, black3()) =~= black3());
}

/// The color an escaped ray contributes.
pub fn background_color(background: Background, r: &Ray) -> (c: Vec3)
    ensures
        c@ == spec_background(background, r@),
{
    match background {
        Background::Black => Vec3::zero(),
        Background::Sky => {
            let unit_dir = r.direction().normalized();
            let t = Fx::from_raw(32768).mul(unit_dir.y().add(Fx::one()));
            let white = Vec3::new(Fx::one(), Fx::one(), Fx::one());
            let blue = Vec3::new(Fx::from_raw(32768), Fx::from_raw(45875), Fx::one());
            white.scale(Fx::one().sub(t)).add(blue.scale(t))
        },
    }
}

/// Estimate the radiance a ray carries: exactly black once the bounce
/// budget is spent; the background when nothing is hit past the
/// self-intersection offset; otherwise the scattered ray's radiance
/// attenuated by the material, or black when the material absorbs the
/// path. Each bounce draws fresh randomness for the scatter; the result is
/// always a possible radiance of the ray, and under the black background
/// it is exactly black.
#[verifier::spinoff_prover]
#[verifier::rlimit(100)]
pub fn ray_color(r: &Ray, world: &World, background: Background, depth: u32) -> (c: Vec3)
    requires
        world.wf(),
    ensures
        depth == 0 ==> c@ == black3(),
        (depth > 0 && spec_world_hit(world.spheres@, r@, T_MIN_HIT as int, i64::MAX as int)
            is None) ==> c@ == spec_background(background, r@),
        possible_radiance(world.spheres@, world.materials@, background, r@, depth as nat, c@),
        background matches Background::Black ==> c@ == black3(),
    decreases depth,
{
    // The bounce budget is spent: the path is truncated, by design biased
    // toward black rather than corrected.
    if depth == 0 {
        let result = Vec3::zero();
        proof {
            lemma_radiance_spent(world.spheres@, world.materials@, background, r@);
        }
        return result;
    }
    match world.hit(r, Fx::from_raw(T_MIN_HIT), Fx::from_raw(i64::MAX)) {
        Some(rec) => {
            let rnd = ScatterRand { unit_ball: Vec3::random_in_unit_sphere(), coin: random_unit() };
            let m = world.materials[rec.mat];
            match m.scatter(r, &rec, &rnd) {
                Some((attenuation, scattered)) => {
                    let rest = ray_color(&scattered, world, background, depth - 1);
                    let result = attenuation.mul(rest);
                    proof {
                        lemma_radiance_hit(
                            world.spheres@,
                            world.materials@,
                            background,
                            r@,
                            rec@,
                            depth as nat,
                            rnd.unit_ball@,
                            rnd.coin@,
                            rest@,
                            result@,
                        );
                        match background {
                            Background::Black => {
                                lemma_attenuated_black(attenuation@);
                            },
                            Background::Sky => {},
                        }
                    }
                    result
                },
                None => {
                    let result = Vec3::zero();
                    proof {
                        lemma_radiance_hit(
                            world.spheres@,
                            world.materials@,
                            background,
                            r@,
                            rec@,
                            depth as nat,
                            rnd.unit_ball@,
                            rnd.coin@,
                            black3(),
                            result@,
                        );
                    }
                    result
                },
            }
        },
        None => {
            let result = background_color(background, r);
            proof {
                lemma_radiance_miss(
                    world.spheres@,
                    world.materials@,
                    background,
                    r@,
                    depth as nat,
                );
            }
            result
        },
    }
}

} // verus!
