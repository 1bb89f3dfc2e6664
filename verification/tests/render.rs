//! Integrator, camera, sampler and output-format tests.

use raytrace::camera::Camera;
use raytrace::fixed::{Fx, SCALE};
use raytrace::hit::World;
use raytrace::integrator::{ray_color, Background};
use raytrace::material::{Lambertian, Material};
use raytrace::rng::random_unit;
use raytrace::sampler::{decimal_bytes, render, render_ppm, render_row, RenderConfig};
use raytrace::sphere::Sphere;
use raytrace::vec3::Vec3;

fn fx(raw: i64) -> Fx {
    Fx::from_raw(raw)
}

fn v3(x: i64, y: i64, z: i64) -> Vec3 {
    Vec3::new(fx(x), fx(y), fx(z))
}

/// The two-sphere scene: a small Lambertian sphere ahead of the camera and
/// a large Lambertian ground sphere below it.
fn simple_scene() -> World {
    let mut w = World::new();
    let center_mat = w.add_material(Material::Lambertian(Lambertian::new(v3(
        6554, 13107, 32768,
    ))));
    let ground_mat = w.add_material(Material::Lambertian(Lambertian::new(v3(
        32768, 52429, 0,
    ))));
    w.push(Sphere::new(v3(0, 0, -SCALE), fx(SCALE / 2), center_mat));
    w.push(Sphere::new(
        Vec3::new(fx(0), fx(-100 * SCALE - SCALE / 2), fx(-SCALE)),
        fx(100 * SCALE),
        ground_mat,
    ));
    w
}

fn front_camera() -> Camera {
    Camera::new(
        v3(0, 0, 0),
        v3(0, 0, -SCALE),
        v3(0, SCALE, 0),
        Fx::from_u32(90),
        fx(SCALE),
        fx(0),
        fx(SCALE),
    )
}

#[test]
fn depth_zero_is_exactly_black() {
    let w = simple_scene();
    let rays = [
        raytrace::ray::Ray::new(v3(0, 0, 0), v3(0, 0, -SCALE)),
        raytrace::ray::Ray::new(v3(5 * SCALE, 0, 0), v3(0, SCALE, 0)),
    ];
    for r in rays {
        for bg in [Background::Sky, Background::Black] {
            let c = ray_color(&r, &w, bg, 0);
            assert_eq!(c, v3(0, 0, 0));
        }
    }
}

#[test]
fn escaped_ray_sees_exact_sky_gradient() {
    let w = simple_scene();
    // Straight up: the blend parameter is one, giving sky blue exactly.
    let up = raytrace::ray::Ray::new(v3(0, 0, 0), v3(0, SCALE, 0));
    assert_eq!(ray_color(&up, &w, Background::Sky, 5), v3(32768, 45875, SCALE));
    // Along the horizon: the blend parameter is one half.
    let level = raytrace::ray::Ray::new(v3(0, 0, 0), v3(SCALE, 0, 0));
    assert_eq!(ray_color(&level, &w, Background::Sky, 5), v3(49152, 55705, SCALE));
}

#[test]
fn escaped_ray_with_black_background_is_black() {
    let w = simple_scene();
    let up = raytrace::ray::Ray::new(v3(0, 0, 0), v3(0, SCALE, 0));
    assert_eq!(ray_color(&up, &w, Background::Black, 5), v3(0, 0, 0));
}

#[test]
fn empty_world_always_shows_background() {
    let w = World::new();
    let up = raytrace::ray::Ray::new(v3(0, 0, 0), v3(0, SCALE, 0));
    assert_eq!(ray_color(&up, &w, Background::Sky, 3), v3(32768, 45875, SCALE));
}

#[test]
fn camera_with_closed_aperture_is_deterministic() {
    let cam = front_camera();
    assert_eq!(cam.lens_radius.raw, 0);
    assert_eq!(cam.origin, v3(0, 0, 0));
    let a = cam.get_ray(fx(SCALE / 2), fx(SCALE / 2));
    let b = cam.get_ray(fx(SCALE / 2), fx(SCALE / 2));
    assert_eq!(a, b);
    assert_eq!(a.origin, v3(0, 0, 0));
    // The corner ray points at the lower-left viewport corner.
    let corner = cam.get_ray(fx(0), fx(0));
    assert_eq!(corner.dir, cam.lower_left_corner);
    // The view direction is forward: negative z, pointing down-left from
    // the corner.
    assert!(corner.dir.z.raw < 0);
    assert!(corner.dir.x.raw < 0);
    assert!(corner.dir.y.raw < 0);
}

#[test]
fn camera_viewport_spans_both_axes() {
    let cam = front_camera();
    // A 90-degree field of view at focus one spans about two units on
    // each viewport axis.
    assert!(cam.horizontal.x.raw > 3 * SCALE / 2);
    assert!(cam.horizontal.x.raw < 3 * SCALE);
    assert!(cam.vertical.y.raw > 3 * SCALE / 2);
    assert!(cam.vertical.y.raw < 3 * SCALE);
}

#[test]
fn random_scalars_stay_in_range_and_vary() {
    let mut seen_distinct = false;
    let first = random_unit();
    for _ in 0..200 {
        let r = random_unit();
        assert!(r.raw >= 0);
        assert!(r.raw < SCALE);
        if r != first {
            seen_distinct = true;
        }
    }
    assert!(seen_distinct);
}

#[test]
fn random_ball_samples_stay_inside() {
    for _ in 0..200 {
        let v = Vec3::random_in_unit_sphere();
        assert!(v.length().raw < SCALE);
        let d = Vec3::random_in_unit_disc();
        assert!(d.length().raw < SCALE);
        assert_eq!(d.z.raw, 0);
    }
}

#[test]
fn hemisphere_samples_never_oppose_the_normal() {
    let normal = v3(0, 0, SCALE);
    for _ in 0..200 {
        let v = Vec3::random_in_hemisphere(normal);
        assert!(v.length().raw < SCALE);
        assert!(v.dot(normal).raw >= 0);
    }
}

#[test]
fn random_component_vectors_stay_in_range() {
    let lo = fx(-3 * SCALE);
    let hi = fx(SCALE / 2);
    for _ in 0..200 {
        let v = Vec3::random(lo, hi);
        for c in [v.x, v.y, v.z] {
            assert!(c.raw >= lo.raw);
            assert!(c.raw < hi.raw);
        }
    }
}

#[test]
fn format_color_quantizes_and_prints() {
    // Channels 0.25, 1.0 and 4.0 at one sample: gamma gives 0.5, 1.0 and
    // 2.0; the last two clamp to just under one; bytes 128, 255, 255.
    let c = v3(SCALE / 4, SCALE, 4 * SCALE);
    let line = c.format_color(1);
    assert_eq!(line, b"128 255 255\n".to_vec());
    assert_eq!(decimal_bytes(0), b"0".to_vec());
    assert_eq!(decimal_bytes(255), b"255".to_vec());
    assert_eq!(decimal_bytes(65536), b"65536".to_vec());
}

#[test]
fn render_produces_requested_dimensions() {
    let w = simple_scene();
    let cam = front_camera();
    let cfg = RenderConfig {
        width: 16,
        height: 9,
        samples_per_pixel: 1,
        max_depth: 2,
        background: Background::Sky,
    };
    let rows = render(&w, &cam, &cfg);
    assert_eq!(rows.len(), 9);
    for row in &rows {
        assert_eq!(row.len(), 16);
    }
    let one_row = render_row(&w, &cam, &cfg, 0);
    assert_eq!(one_row.len(), 16);
}

#[test]
fn rendered_image_has_nondegenerate_gradient() {
    // The two-sphere scene under the sky gradient: the image must not be a
    // flat color, and a sky pixel keeps the gradient's channel ordering
    // red <= green <= blue.
    let w = simple_scene();
    let cam = front_camera();
    let cfg = RenderConfig {
        width: 32,
        height: 18,
        samples_per_pixel: 1,
        max_depth: 1,
        background: Background::Sky,
    };
    let rows = render(&w, &cam, &cfg);
    let first = rows[0][0];
    let mut varied = false;
    for row in &rows {
        for px in row {
            if *px != first {
                varied = true;
            }
        }
    }
    assert!(varied);
    // The top row looks well above the spheres: pure sky.
    let (r, g, b) = rows[0][16];
    assert!(r <= g && g <= b);
}

#[test]
fn black_background_renders_all_black() {
    // With the black background every escaped ray contributes nothing and
    // every attenuation multiplies black, so the whole image is black
    // whatever the random draws.
    let w = simple_scene();
    let cam = front_camera();
    let cfg = RenderConfig {
        width: 24,
        height: 16,
        samples_per_pixel: 2,
        max_depth: 4,
        background: Background::Black,
    };
    let rows = render(&w, &cam, &cfg);
    for row in &rows {
        for px in row {
            assert_eq!(*px, (0, 0, 0));
        }
    }
}

#[test]
fn ppm_output_has_exact_header_and_pixel_lines() {
    let w = simple_scene();
    let cam = front_camera();
    let cfg = RenderConfig {
        width: 256,
        height: 256,
        samples_per_pixel: 1,
        max_depth: 1,
        background: Background::Sky,
    };
    let out = render_ppm(&w, &cam, &cfg);
    let text = String::from_utf8(out).unwrap();
    let lines: Vec<&str> = text.split('\n').collect();
    // A trailing newline leaves one empty fragment at the end.
    assert_eq!(lines.len(), 3 + 65536 + 1);
    assert_eq!(lines[0], "P3");
    assert_eq!(lines[1], "256 256");
    assert_eq!(lines[2], "255");
    assert_eq!(lines[3 + 65536], "");
    for k in 0..65536usize {
        let parts: Vec<&str> = lines[3 + k].split(' ').collect();
        assert_eq!(parts.len(), 3);
        for p in parts {
            let v: u32 = p.parse().unwrap();
            assert!(v <= 255);
        }
    }
}
