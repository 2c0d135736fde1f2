//! Integrator, camera, sampling order, and gamma encoding.

use rand::rngs::StdRng;
use rand::SeedableRng;
use rtweekend::camera::Camera;
use rtweekend::fixed::{fx_mul, fx_sqrt, FX_ONE};
use rtweekend::material::{Dielectric, Lambertian, Material, Metal};
use rtweekend::ray::Ray;
use rtweekend::render::{encode_channel, render, render_pixel, trace_radiance};
use rtweekend::sphere::Sphere;
use rtweekend::vec3::Vec3;

const S: i64 = FX_ONE;

fn v(x: i64, y: i64, z: i64) -> Vec3 {
    Vec3 { x, y, z }
}

/// The simple axis-aligned camera of the early scenes: a 4x2 image plane
/// one unit in front of the origin, no lens.
fn axis_camera() -> Camera {
    Camera {
        origin: v(0, 0, 0),
        lower_left_corner: v(-2 * S, -S, -S),
        horizontal: v(4 * S, 0, 0),
        vertical: v(0, 2 * S, 0),
        u: v(S, 0, 0),
        v: v(0, S, 0),
        w: v(0, 0, S),
        lens_radius: 0,
    }
}

/// With zero objects the integrator returns exactly the background
/// gradient, whatever the depth.
#[test]
fn empty_world_returns_background_gradient() {
    let world: Vec<Sphere> = Vec::new();
    let mut rng = StdRng::seed_from_u64(1);
    let up = Ray {
        a: v(0, 0, 0),
        b: v(0, S, 0),
    };
    let down = Ray {
        a: v(0, 0, 0),
        b: v(0, -S, 0),
    };
    let level = Ray {
        a: v(0, 0, 0),
        b: v(S, 0, 0),
    };
    let depths: [i32; 4] = [0, 10, 50, 1000];
    for depth in depths {
        // straight up: t = 1, pure sky blue
        assert_eq!(
            trace_radiance(&up, &world, depth, &mut rng),
            v(32768, 45875, S)
        );
        // straight down: t = 0, pure white
        assert_eq!(trace_radiance(&down, &world, depth, &mut rng), v(S, S, S));
        // level: t = 1/2, the even blend
        assert_eq!(
            trace_radiance(&level, &world, depth, &mut rng),
            v(49152, 55705, S)
        );
    }
}

/// At the recursion cutoff, a ray that hits anything yields black, whatever
/// the material.
#[test]
fn depth_cutoff_returns_black() {
    let world: Vec<Sphere> = vec![Sphere {
        center: v(0, 0, -2 * S),
        radius: S,
        material: Material::Lambertian(Lambertian {
            albedo: v(S / 2, S / 2, S / 2),
        }),
    }];
    let ray = Ray {
        a: v(0, 0, 0),
        b: v(0, 0, -S),
    };
    let mut rng = StdRng::seed_from_u64(2);
    assert_eq!(trace_radiance(&ray, &world, 50, &mut rng), v(0, 0, 0));
    assert_eq!(trace_radiance(&ray, &world, 99, &mut rng), v(0, 0, 0));
}

/// The deterministic camera core: the middle of the image plane looks
/// straight down the axis, and a corner reaches the corner.
#[test]
fn camera_ray_through_plane() {
    let cam = axis_camera();
    let middle = cam.ray_through(S / 2, S / 2, v(0, 0, 0));
    assert_eq!(middle.a, v(0, 0, 0));
    assert_eq!(middle.b, v(0, 0, -S));
    let corner = cam.ray_through(0, 0, v(0, 0, 0));
    assert_eq!(corner.b, v(-2 * S, -S, -S));
}

/// `Camera::new` builds the documented frame: looking down -z from the
/// origin with a 90-degree field of view (half-height tangent 1) and unit
/// focus gives the 4x2-style plane scaled to the aspect ratio.
#[test]
fn camera_new_builds_expected_frame() {
    let cam = Camera::new(
        v(0, 0, 0),  // lookfrom
        v(0, 0, -S), // lookat
        v(0, S, 0),  // up
        S,           // tan of half the vertical fov: 90 degrees
        2 * S,       // aspect
        0,           // aperture
        S,           // focus distance
    );
    assert_eq!(cam.origin, v(0, 0, 0));
    assert_eq!(cam.w, v(0, 0, S));
    assert_eq!(cam.u, v(S, 0, 0));
    assert_eq!(cam.v, v(0, S, 0));
    assert_eq!(cam.horizontal, v(4 * S, 0, 0));
    assert_eq!(cam.vertical, v(0, 2 * S, 0));
    assert_eq!(cam.lower_left_corner, v(-2 * S, -S, -S));
    assert_eq!(cam.lens_radius, 0);
}

/// Gamma round trip: squaring the encoded square root returns the original
/// channel to within one fixed-point unit.
#[test]
fn gamma_round_trip_is_idempotent() {
    let values: [i64; 7] = [0, 1, 66, 6554, 16384, 45875, S];
    for x in values {
        let s = fx_sqrt(x);
        let back = fx_mul(s, s);
        assert!((back - x).abs() <= 1, "{} came back as {}", x, back);
    }
}

/// Exact encodings: full radiance maps to 255, black to 0, quarter
/// radiance to 127 (0.5 * 255.99 truncated).
#[test]
fn encode_channel_exact_values() {
    assert_eq!(encode_channel(S), 255);
    assert_eq!(encode_channel(0), 0);
    assert_eq!(encode_channel(S / 4), 127);
    assert_eq!(encode_channel(-5), 0);
}

/// The render emits pixels rows top-down (j from ny-1 to 0), columns
/// ascending: the order the PPM text is written in.
#[test]
fn render_order_is_top_down_left_right() {
    let world: Vec<Sphere> = Vec::new();
    let cam = axis_camera();
    let mut rng = StdRng::seed_from_u64(5);
    let nx: usize = 4;
    let ny: usize = 3;
    let pixels = render(&cam, &world, nx, ny, 1, &mut rng);
    assert_eq!(pixels.len(), nx * ny);
    for (k, px) in pixels.iter().enumerate() {
        assert_eq!(px.i, k % nx);
        assert_eq!(px.j, ny - 1 - k / nx);
    }
}

/// With every albedo inside the unit cube, traced radiance keeps every
/// channel inside it too, whatever the bounces.
#[test]
fn radiance_stays_in_unit_cube() {
    let world: Vec<Sphere> = vec![
        Sphere {
            center: v(0, -100 * S, 0),
            radius: 100 * S,
            material: Material::Lambertian(Lambertian {
                albedo: v(S / 2, S / 2, S / 2),
            }),
        },
        Sphere {
            center: v(0, S / 2, -2 * S),
            radius: S / 2,
            material: Material::Metal(Metal {
                fuzz: S / 4,
                albedo: v(S, 39322, 13107),
            }),
        },
        Sphere {
            center: v(S, S / 2, -2 * S),
            radius: S / 2,
            material: Material::Dielectric(Dielectric { ref_idx: 98304 }),
        },
    ];
    let mut rng = StdRng::seed_from_u64(29);
    let dirs = [
        v(0, 0, -S),
        v(S / 4, -S / 8, -S),
        v(-S / 2, S / 3, -S),
        v(0, -S, 0),
        v(S, S, S),
    ];
    for d in dirs {
        for depth in [0, 10, 49] {
            let ray = Ray {
                a: v(0, S / 2, S),
                b: d,
            };
            let c = trace_radiance(&ray, &world, depth, &mut rng);
            for ch in [c.x, c.y, c.z] {
                assert!(0 <= ch && ch <= S, "channel {} out of the unit cube", ch);
            }
        }
    }
}

/// The end-to-end scenario: one diffuse sphere of radius one half at
/// (0, 0, -1) with albedo (0.1, 0.2, 0.5) against the gradient, one sample
/// of one fixed pixel with a fixed seed, reproduced exactly.
#[test]
fn single_sphere_pixel_is_deterministic() {
    let world: Vec<Sphere> = vec![Sphere {
        center: v(0, 0, -S),
        radius: S / 2,
        material: Material::Lambertian(Lambertian {
            albedo: v(6554, 13107, 32768),
        }),
    }];
    let cam = axis_camera();
    let mut rng_a = StdRng::seed_from_u64(42);
    let a = render_pixel(&cam, &world, 100, 50, 200, 100, 1, &mut rng_a);
    let mut rng_b = StdRng::seed_from_u64(42);
    let b = render_pixel(&cam, &world, 100, 50, 200, 100, 1, &mut rng_b);
    assert_eq!(a, b);
    // the albedo tinting one bounce of sky light, pinned for regressions
    assert_eq!(a, v(4850, 11063, 32768));
    // the channels keep the albedo's ordering: blue-heavy, red-light
    assert!(a.x <= a.y && a.y <= a.z);
}
