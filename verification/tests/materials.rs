//! Scattering tests: diffuse, metal and dielectric behavior.

use raytrace::fixed::{Fx, SCALE};
use raytrace::hit::HitRecord;
use raytrace::material::{
    reflectance, Dielectric, Lambertian, Material, Metal, ScatterRand,
};
use raytrace::ray::Ray;
use raytrace::vec3::Vec3;

fn fx(raw: i64) -> Fx {
    Fx::from_raw(raw)
}

fn v3(x: i64, y: i64, z: i64) -> Vec3 {
    Vec3::new(fx(x), fx(y), fx(z))
}

fn head_on_hit() -> (Ray, HitRecord) {
    let ray = Ray::new(v3(0, 0, 0), v3(0, 0, -SCALE));
    let rec = HitRecord {
        p: v3(0, 0, -SCALE),
        normal: v3(0, 0, SCALE),
        t: fx(SCALE),
        front_face: true,
        mat: 0,
    };
    (ray, rec)
}

#[test]
fn lambertian_always_scatters() {
    let albedo = v3(SCALE / 2, SCALE / 2, SCALE / 2);
    let mat = Material::Lambertian(Lambertian::new(albedo));
    let (ray, rec) = head_on_hit();
    for ball in [
        v3(0, 0, 0),
        v3(SCALE / 2, 0, 0),
        v3(0, 0, -SCALE / 2),
        v3(-SCALE / 4, SCALE / 4, SCALE / 4),
    ] {
        let rnd = ScatterRand { unit_ball: ball, coin: fx(0) };
        let out = mat.scatter(&ray, &rec, &rnd);
        assert!(out.is_some());
        let (att, scattered) = out.unwrap();
        assert_eq!(att, albedo);
        assert_eq!(scattered.origin, rec.p);
    }
}

#[test]
fn lambertian_degenerate_direction_falls_back_to_normal() {
    // A unit-ball sample pointing exactly opposite the normal makes the
    // scatter direction vanish; the fallback is the bare normal.
    let mat = Material::Lambertian(Lambertian::new(v3(SCALE, SCALE, SCALE)));
    let (ray, rec) = head_on_hit();
    // (0, 0, -0.5) normalizes to exactly (0, 0, -1).
    let rnd = ScatterRand { unit_ball: v3(0, 0, -SCALE / 2), coin: fx(0) };
    let (_, scattered) = mat.scatter(&ray, &rec, &rnd).unwrap();
    assert_eq!(scattered.dir, rec.normal);
}

#[test]
fn metal_reflects_cleanly_with_zero_fuzz() {
    let albedo = v3(SCALE, SCALE, SCALE);
    let mat = Material::Metal(Metal::new(albedo, fx(0)));
    let (ray, rec) = head_on_hit();
    let rnd = ScatterRand { unit_ball: v3(12345, -23456, 7), coin: fx(0) };
    let (att, scattered) = mat.scatter(&ray, &rec, &rnd).unwrap();
    assert_eq!(att, albedo);
    assert_eq!(scattered.dir, v3(0, 0, SCALE));
}

#[test]
fn metal_absorbs_when_fuzzed_reflection_points_inward() {
    // Fuzz of 2 with a ball sample of (0, 0, -0.75) drags the unit
    // reflection (0, 0, 1) down to (0, 0, -0.5), into the surface: the
    // ray is absorbed.
    let mat = Material::Metal(Metal::new(v3(SCALE, SCALE, SCALE), fx(2 * SCALE)));
    let (ray, rec) = head_on_hit();
    let rnd = ScatterRand { unit_ball: v3(0, 0, -49152), coin: fx(0) };
    assert!(mat.scatter(&ray, &rec, &rnd).is_none());
}

#[test]
fn dielectric_always_scatters_white() {
    let mat = Material::Dielectric(Dielectric::new(fx(3 * SCALE / 2)));
    let (ray, rec) = head_on_hit();
    for coin in [0i64, SCALE / 2, SCALE - 1] {
        let rnd = ScatterRand { unit_ball: v3(0, 0, 0), coin: fx(coin) };
        let out = mat.scatter(&ray, &rec, &rnd);
        assert!(out.is_some());
        let (att, _) = out.unwrap();
        assert_eq!(att, v3(SCALE, SCALE, SCALE));
    }
}

#[test]
fn dielectric_total_internal_reflection_reflects() {
    // Leaving glass (front_face false, ratio 1.5) at a grazing angle:
    // ratio * sin exceeds one, so the ray must reflect.
    let mat = Material::Dielectric(Dielectric::new(fx(3 * SCALE / 2)));
    let ray = Ray::new(v3(0, 0, 0), Vec3::new(fx(SCALE), fx(-SCALE / 8), fx(0)));
    let rec = HitRecord {
        p: v3(SCALE, 0, 0),
        normal: v3(0, SCALE, 0),
        t: fx(SCALE),
        front_face: false,
        mat: 0,
    };
    // A coin of just under one keeps the Schlick test from firing at this
    // reflectance; total internal reflection alone decides.
    let rnd = ScatterRand { unit_ball: v3(0, 0, 0), coin: fx(SCALE - 1) };
    let (_, scattered) = mat.scatter(&ray, &rec, &rnd).unwrap();
    // A reflection flips the sign of the normal component and keeps the
    // tangential sign.
    assert!(scattered.dir.y.raw > 0);
    assert!(scattered.dir.x.raw > 0);
}

#[test]
fn schlick_reflectance_exact_values() {
    // Grazing incidence reflects fully: cos == 0 gives exactly one.
    assert_eq!(reflectance(fx(0), fx(3 * SCALE / 2)).raw, SCALE);
    // Head-on incidence on glass: r0 == ((1 - 1.5)/(1 + 1.5))^2, about
    // 0.04, truncated in fixed point.
    assert_eq!(reflectance(fx(SCALE), fx(3 * SCALE / 2)).raw, 2621);
}

#[test]
fn schlick_reflectance_stays_in_unit_interval() {
    for cos in [0i64, 1, 100, SCALE / 4, SCALE / 2, SCALE - 1, SCALE] {
        for ir in [1i64, 100, SCALE / 2, SCALE, 3 * SCALE / 2, 20 * SCALE, 1000 * SCALE] {
            let r = reflectance(fx(cos), fx(ir));
            assert!(r.raw >= 0);
            assert!(r.raw <= SCALE);
        }
    }
}
