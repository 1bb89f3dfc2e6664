//! Sphere intersection and nearest-hit tests.

use raytrace::fixed::{Fx, SCALE};
use raytrace::hit::World;
use raytrace::material::{Lambertian, Material};
use raytrace::ray::Ray;
use raytrace::sphere::Sphere;
use raytrace::vec3::Vec3;

fn fx(raw: i64) -> Fx {
    Fx::from_raw(raw)
}

fn v3(x: i64, y: i64, z: i64) -> Vec3 {
    Vec3::new(fx(x), fx(y), fx(z))
}

fn gray() -> Material {
    Material::Lambertian(Lambertian::new(v3(SCALE / 2, SCALE / 2, SCALE / 2)))
}

#[test]
fn hit_toward_center_gives_outward_unit_normal() {
    // A ray aimed at the sphere's center from outside: the normal is the
    // outward unit vector from center to hit point, and front_face holds.
    let sphere = Sphere::new(v3(0, 0, -2 * SCALE), fx(SCALE), 0);
    let ray = Ray::new(v3(0, 0, 0), v3(0, 0, -SCALE));
    let rec = sphere.hit(&ray, fx(66), Fx::from_u32(100)).unwrap();
    assert!(rec.front_face);
    assert_eq!(rec.t.raw, SCALE);
    assert_eq!(rec.p, v3(0, 0, -SCALE));
    assert_eq!(rec.normal, v3(0, 0, SCALE));
    // The stored normal opposes the incoming ray.
    assert!(rec.normal.dot(ray.dir).raw < 0);
}

#[test]
fn negative_radius_flips_normal() {
    // A hollow (negative-radius) shell enclosing the ray origin: the
    // stored normal is the negation of the naive (p - center)/|radius|
    // direction. The orientation rule then reports a front face, since the
    // flipped outward normal already opposes the exiting ray.
    let shell = Sphere::new(v3(0, 0, 0), fx(-2 * SCALE), 0);
    let ray = Ray::new(v3(0, 0, 0), v3(0, 0, -SCALE));
    let rec = shell.hit(&ray, fx(66), Fx::from_u32(100)).unwrap();
    assert_eq!(rec.t.raw, 2 * SCALE);
    assert_eq!(rec.p, v3(0, 0, -2 * SCALE));
    // Naive direction from center to hit point is (0, 0, -1); the signed
    // radius flips it.
    assert_eq!(rec.normal, v3(0, 0, SCALE));
    assert!(rec.front_face);
}

#[test]
fn miss_returns_none() {
    let sphere = Sphere::new(v3(0, 0, -2 * SCALE), fx(SCALE / 2), 0);
    let ray = Ray::new(v3(0, 0, 0), v3(0, SCALE, 0));
    assert!(sphere.hit(&ray, fx(66), Fx::from_u32(100)).is_none());
}

#[test]
fn interval_excludes_roots_outside() {
    let sphere = Sphere::new(v3(0, 0, -2 * SCALE), fx(SCALE), 0);
    let ray = Ray::new(v3(0, 0, 0), v3(0, 0, -SCALE));
    // Roots at t == 1 and t == 3; an interval past both sees nothing.
    assert!(sphere.hit(&ray, Fx::from_u32(4), Fx::from_u32(100)).is_none());
    // An interval between the roots accepts the larger root.
    let rec = sphere.hit(&ray, Fx::from_u32(2), Fx::from_u32(100)).unwrap();
    assert_eq!(rec.t.raw, 3 * SCALE);
    assert!(!rec.front_face);
}

fn two_sphere_world(first_near: bool) -> World {
    let mut w = World::new();
    let m0 = w.add_material(gray());
    let m1 = w.add_material(gray());
    let near = Sphere::new(v3(0, 0, -2 * SCALE), fx(SCALE / 2), m0);
    let far = Sphere::new(v3(0, 0, -3 * SCALE), fx(SCALE), m1);
    if first_near {
        w.push(near);
        w.push(far);
    } else {
        w.push(far);
        w.push(near);
    }
    w
}

#[test]
fn world_hit_returns_smaller_t_of_overlapping_spheres() {
    // The near sphere is struck at t == 1.5, the far one at t == 2; the
    // spheres overlap, and the scan returns the nearer hit either way
    // around.
    let ray = Ray::new(v3(0, 0, 0), v3(0, 0, -SCALE));
    for order in [true, false] {
        let w = two_sphere_world(order);
        let rec = w.hit(&ray, fx(66), Fx::from_u32(100)).unwrap();
        assert_eq!(rec.t.raw, 3 * SCALE / 2);
    }
}

#[test]
fn object_outside_interval_never_affects_result() {
    let ray = Ray::new(v3(0, 0, 0), v3(0, 0, -SCALE));
    let mut w = World::new();
    let m = w.add_material(gray());
    let target = Sphere::new(v3(0, 0, -2 * SCALE), fx(SCALE / 2), m);
    w.push(target);
    let alone = w.hit(&ray, fx(66), Fx::from_u32(100)).unwrap();

    // A sphere entirely behind t_min (behind the origin) changes nothing.
    let mut w2 = World::new();
    let m2 = w2.add_material(gray());
    w2.push(Sphere::new(v3(0, 0, 2 * SCALE), fx(SCALE / 2), m2));
    w2.push(Sphere::new(v3(0, 0, -2 * SCALE), fx(SCALE / 2), m2));
    let with_behind = w2.hit(&ray, fx(66), Fx::from_u32(100)).unwrap();
    assert_eq!(with_behind.t, alone.t);
    assert_eq!(with_behind.p, alone.p);

    // A sphere entirely beyond t_max changes nothing either.
    let mut w3 = World::new();
    let m3 = w3.add_material(gray());
    w3.push(Sphere::new(v3(0, 0, -2 * SCALE), fx(SCALE / 2), m3));
    w3.push(Sphere::new(v3(0, 0, -50 * SCALE), fx(SCALE), m3));
    let with_beyond = w3.hit(&ray, fx(66), Fx::from_u32(3)).unwrap();
    assert_eq!(with_beyond.t, alone.t);
}

#[test]
fn equal_hits_keep_first_member() {
    // Two coincident spheres with different materials: the scan keeps the
    // first, since a later member must be strictly closer to replace it.
    let ray = Ray::new(v3(0, 0, 0), v3(0, 0, -SCALE));
    let mut w = World::new();
    let m0 = w.add_material(gray());
    let m1 = w.add_material(gray());
    w.push(Sphere::new(v3(0, 0, -2 * SCALE), fx(SCALE / 2), m0));
    w.push(Sphere::new(v3(0, 0, -2 * SCALE), fx(SCALE / 2), m1));
    let rec = w.hit(&ray, fx(66), Fx::from_u32(100)).unwrap();
    assert_eq!(rec.mat, m0);
    assert!(m0 != m1);
}

#[test]
fn empty_world_hits_nothing() {
    let w = World::new();
    let ray = Ray::new(v3(0, 0, 0), v3(0, 0, -SCALE));
    assert!(w.hit(&ray, fx(66), Fx::from_u32(100)).is_none());
}
