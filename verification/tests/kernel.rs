//! Geometry and material behavior on hand-computed fixed-point scenes.

use rand::rngs::StdRng;
use rand::SeedableRng;
use rtweekend::fixed::FX_ONE;
use rtweekend::material::{Dielectric, Lambertian, Material, Metal};
use rtweekend::ray::Ray;
use rtweekend::sphere::{HitRecord, Sphere};
use rtweekend::vec3::Vec3;
use rtweekend::world::closest_hit;

const S: i64 = FX_ONE;

fn v(x: i64, y: i64, z: i64) -> Vec3 {
    Vec3 { x, y, z }
}

fn gray() -> Material {
    Material::Lambertian(Lambertian {
        albedo: v(S / 2, S / 2, S / 2),
    })
}

/// An axis ray through a unit sphere two units away: roots at t = 1 and
/// t = 3, symmetric about the center's parameter t = 2.
#[test]
fn axis_ray_roots_symmetric() {
    let sphere = Sphere {
        center: v(0, 0, -2 * S),
        radius: S,
        material: gray(),
    };
    let ray = Ray {
        a: v(0, 0, 0),
        b: v(0, 0, -S),
    };
    let near = sphere.hit(&ray, 1, 100 * S).expect("front intersection");
    assert_eq!(near.t, S);
    let far = sphere
        .hit(&ray, near.t + 1, 100 * S)
        .expect("back intersection");
    assert_eq!(far.t, 3 * S);
    // symmetric about t = 2, the center's parameter on the axis
    assert_eq!(near.t + far.t, 4 * S);
}

/// A ray whose line passes three units from the center of a unit sphere
/// misses for every interval.
#[test]
fn miss_is_miss_for_all_intervals() {
    let sphere = Sphere {
        center: v(3 * S, 0, -2 * S),
        radius: S,
        material: gray(),
    };
    let ray = Ray {
        a: v(0, 0, 0),
        b: v(0, 0, -S),
    };
    let intervals: [(i64, i64); 4] = [(1, 100 * S), (-100 * S, 100 * S), (0, S), (66, 10 * S)];
    for (lo, hi) in intervals {
        assert!(sphere.hit(&ray, lo, hi).is_none());
    }
}

/// On a positive-radius sphere the normal is unit length and points away
/// from the center; a negative radius (hollow-shell construction) flips it
/// inward, and that flip is preserved.
#[test]
fn normals_point_away_and_flip_for_negative_radius() {
    let ray = Ray {
        a: v(0, 0, 0),
        b: v(0, 0, -S),
    };
    let solid = Sphere {
        center: v(0, 0, -2 * S),
        radius: S,
        material: gray(),
    };
    let rec = solid.hit(&ray, 1, 100 * S).unwrap();
    assert_eq!(rec.p, v(0, 0, -S));
    assert_eq!(rec.normal, v(0, 0, S));
    assert_eq!(rec.normal.length(), S);
    assert!(rec.normal.dot(rec.p.minus(solid.center)) > 0);

    let shell = Sphere {
        center: v(0, 0, -2 * S),
        radius: -S,
        material: gray(),
    };
    let rec = shell.hit(&ray, 1, 100 * S).unwrap();
    assert_eq!(rec.normal, v(0, 0, -S));
    assert!(rec.normal.dot(rec.p.minus(shell.center)) < 0);
}

/// Two overlapping spheres: the scan returns the intersection with the
/// smaller parameter whichever order the spheres are listed in.
#[test]
fn closest_hit_ignores_insertion_order() {
    let ray = Ray {
        a: v(0, 0, 0),
        b: v(0, 0, -S),
    };
    let near = Sphere {
        center: v(0, 0, -2 * S),
        radius: S,
        material: gray(),
    };
    let far = Sphere {
        center: v(0, 0, -3 * S),
        radius: S,
        material: Material::Metal(Metal {
            fuzz: 0,
            albedo: v(S, S, S),
        }),
    };
    let world_a: Vec<Sphere> = vec![near, far];
    let world_b: Vec<Sphere> = vec![far, near];
    let ra = closest_hit(&ray, &world_a, 66, 100 * S).expect("hit");
    let rb = closest_hit(&ray, &world_b, 66, 100 * S).expect("hit");
    assert_eq!(ra, rb);
    assert_eq!(ra.t, S);
    assert_eq!(ra.material, near.material);
}

/// An empty world yields no intersection at all.
#[test]
fn closest_hit_empty_world() {
    let ray = Ray {
        a: v(0, 0, 0),
        b: v(0, 0, -S),
    };
    let world: Vec<Sphere> = Vec::new();
    assert!(closest_hit(&ray, &world, 66, 100 * S).is_none());
}

fn sample_record() -> HitRecord {
    HitRecord {
        t: S,
        p: v(0, 0, -S),
        normal: v(0, 0, S),
        material: gray(),
    }
}

/// Diffuse scatter never emits a ray into the surface: whenever it returns
/// a ray, the direction's dot product with the normal is positive.
#[test]
fn lambertian_scatter_stays_above_surface() {
    let mut rng = StdRng::seed_from_u64(7);
    let mat = Lambertian {
        albedo: v(6554, 13107, 32768),
    };
    let ray = Ray {
        a: v(0, 0, 0),
        b: v(0, 0, -S),
    };
    let rec = sample_record();
    let mut scattered = 0u32;
    for _ in 0..500 {
        if let Some((att, out)) = mat.scatter(&ray, &rec, &mut rng) {
            scattered += 1;
            assert_eq!(att, mat.albedo);
            assert_eq!(out.a, rec.p);
            assert!(out.b.dot(rec.normal) > 0);
        }
    }
    assert!(scattered > 0);
}

/// Metal scatter never emits a ray into the surface either, for several
/// fuzz values including the perfect mirror.
#[test]
fn metal_scatter_stays_above_surface() {
    let mut rng = StdRng::seed_from_u64(11);
    let ray = Ray {
        a: v(-S, 0, -2 * S).negate(),
        b: v(S, 0, -S),
    };
    let rec = sample_record();
    let fuzzes: [i64; 3] = [0, S / 2, S];
    for fuzz in fuzzes {
        let mat = Metal {
            fuzz,
            albedo: v(S, S / 2, S / 4),
        };
        let mut scattered = 0u32;
        for _ in 0..500 {
            if let Some((att, out)) = mat.scatter(&ray, &rec, &mut rng) {
                scattered += 1;
                assert_eq!(att, mat.albedo);
                assert!(out.b.dot(rec.normal) > 0);
            }
        }
        assert!(scattered > 0);
    }
}

/// A perfect mirror (fuzz zero) reflects the axis ray deterministically.
#[test]
fn metal_mirror_reflects_exactly() {
    let mut rng = StdRng::seed_from_u64(3);
    let mat = Metal {
        fuzz: 0,
        albedo: v(S, S, S),
    };
    // incoming straight down, normal straight up: reflection straight up
    let ray = Ray {
        a: v(0, S, 0),
        b: v(0, -S, 0),
    };
    let rec = HitRecord {
        t: S,
        p: v(0, 0, 0),
        normal: v(0, S, 0),
        material: Material::Metal(mat),
    };
    let (_, out) = mat.scatter(&ray, &rec, &mut rng).expect("mirror bounce");
    assert_eq!(out.b, v(0, S, 0));
}

/// Dielectric scatter always returns a result, entering or leaving, for
/// any positive refractive index; the attenuation is always white.
#[test]
fn dielectric_always_scatters() {
    let mut rng = StdRng::seed_from_u64(13);
    let indices: [i64; 3] = [S / 2, 98304, 2 * S]; // 0.5, 1.5, 2.0
    let rays = [
        Ray {
            a: v(0, 0, 0),
            b: v(0, 0, -S),
        },
        Ray {
            a: v(0, 0, -2 * S),
            b: v(0, 0, S),
        },
        Ray {
            a: v(0, 2 * S, 0),
            b: v(S / 2, -S, 0),
        },
    ];
    for ref_idx in indices {
        let mat = Dielectric { ref_idx };
        for ray in &rays {
            for _ in 0..100 {
                let (att, out) = mat
                    .scatter(ray, &sample_record(), &mut rng)
                    .expect("dielectric never absorbs");
                assert_eq!(att, v(S, S, S));
                assert_eq!(out.a, sample_record().p);
            }
        }
    }
}

/// The rejection samplers stay strictly inside their domains: squared
/// length below one, and the disk sample flat in the lens plane.
#[test]
fn rejection_samplers_stay_in_unit_domains() {
    let mut rng = StdRng::seed_from_u64(23);
    for _ in 0..500 {
        let p = rtweekend::rng::random_in_unit_sphere(&mut rng);
        assert!(p.length2() < S);
    }
    for _ in 0..500 {
        let p = rtweekend::rng::random_in_unit_disk(&mut rng);
        assert!(p.length2() < S);
        assert_eq!(p.z, 0);
    }
    for _ in 0..500 {
        let x = rtweekend::rng::rand_unit(&mut rng);
        assert!(0 <= x && x < S);
    }
}

/// The enum dispatch agrees with each variant's own rule.
#[test]
fn material_dispatch_matches_variants() {
    let mut rng = StdRng::seed_from_u64(17);
    let rec = sample_record();
    let ray = Ray {
        a: v(0, 0, 0),
        b: v(0, 0, -S),
    };
    let m = Material::Dielectric(Dielectric { ref_idx: 98304 });
    assert!(m.scatter(&ray, &rec, &mut rng).is_some());
}
