//! Materials: a closed variant over diffuse (Lambertian), metal, and
//! dielectric surfaces, each with its own scattering rule.

use vstd::prelude::*;
use crate::fixed::clip;
use crate::fixed::fx_add;
use crate::fixed::fx_div;
use crate::fixed::fx_div_spec;
use crate::fixed::fx_mul;
use crate::fixed::fx_mul_spec;
use crate::fixed::fx_neg;
use crate::fixed::fx_sqrt;
use crate::fixed::fx_sqrt_spec;
use crate::fixed::fx_sub;
use crate::fixed::in_fx;
use crate::fixed::FX_ONE;
use crate::ray::ray_wf;
use crate::ray::Ray;
use crate::rng::in_unit_sphere;
use crate::rng::rand_unit;
use crate::rng::random_in_unit_sphere;
use crate::sphere::hit_record_wf;
use crate::sphere::HitRecord;
use crate::vec3::v_add;
use crate::vec3::v_dot;
use crate::vec3::v_neg;
use crate::vec3::v_scale;
use crate::vec3::v_sub;
use crate::vec3::v_unit;
use crate::vec3::vec_wf;
use crate::vec3::Vec3;

verus! {

/// Lambertian (diffuse) reflectance.
#[derive(Clone, Copy, PartialEq, Eq, Structural, Debug)]
pub struct Lambertian {
    pub albedo: Vec3,
}

/// Specular reflection, perturbed by `fuzz` (zero gives a perfect mirror).
#[derive(Clone, Copy, PartialEq, Eq, Structural, Debug)]
pub struct Metal {
    pub fuzz: i64,
    pub albedo: Vec3,
}

/// Glass-like refraction and reflection, chosen by the Schlick reflectance.
#[derive(Clone, Copy, PartialEq, Eq, Structural, Debug)]
pub struct Dielectric {
    pub ref_idx: i64,
}

/// The closed set of materials a sphere can carry.
#[derive(Clone, Copy, PartialEq, Eq, Structural, Debug)]
pub enum Material {
    Lambertian(Lambertian),
    Metal(Metal),
    Dielectric(Dielectric),
}

pub open spec fn material_wf(m: Material) -> bool {
    match m {
        Material::Lambertian(l) => vec_wf(l.albedo),
        Material::Metal(mt) => vec_wf(mt.albedo) && in_fx(mt.fuzz as int),
        Material::Dielectric(d) => in_fx(d.ref_idx as int),
    }
}

/// White: the attenuation of a dielectric (no color absorption).
pub open spec fn white() -> Vec3 {
    Vec3 { x: FX_ONE, y: FX_ONE, z: FX_ONE }
}

/// The attenuation a scatter applies: the albedo for diffuse and metal
/// surfaces, white for dielectrics.
pub open spec fn attenuation_of(m: Material) -> Vec3 {
    match m {
        Material::Lambertian(l) => l.albedo,
        Material::Metal(mt) => mt.albedo,
        Material::Dielectric(d) => white(),
    }
}

/// Mirror reflection `v - 2 (v . n) n`.
pub open spec fn reflect_spec(v: Vec3, n: Vec3) -> Vec3 {
    v_sub(v, v_scale(clip(v_dot(v, n) + v_dot(v, n)), n))
}

pub fn reflect(v: Vec3, n: Vec3) -> (r: Vec3)
    requires
        vec_wf(v),
        vec_wf(n),
    ensures
        r == reflect_spec(v, n),
        vec_wf(r),
{
    let d: i64 = v.dot(n);
    v.minus(n.scale(fx_add(d, d)))
}

/// Snell's-law discriminant `1 - ni_over_nt^2 (1 - dt^2)` for the normalized
/// incoming direction; refraction exists exactly when it is positive.
pub open spec fn refract_disc(v: Vec3, n: Vec3, ni_over_nt: int) -> int {
    let dt = v_dot(v_unit(v), n);
    clip(
        FX_ONE - fx_mul_spec(
            fx_mul_spec(ni_over_nt, ni_over_nt),
            clip(FX_ONE - fx_mul_spec(dt, dt)),
        ),
    )
}

/// The refracted direction `ni_over_nt (u - n dt) - n sqrt(disc)` where `u`
/// is the normalized incoming direction.
pub open spec fn refract_dir(v: Vec3, n: Vec3, ni_over_nt: int) -> Vec3 {
    let u = v_unit(v);
    let dt = v_dot(u, n);
    v_sub(
        v_scale(ni_over_nt, v_sub(u, v_scale(dt, n))),
        v_scale(fx_sqrt_spec(refract_disc(v, n, ni_over_nt)), n),
    )
}

/// Attempt refraction; nothing on total internal reflection.
pub fn refract(v: Vec3, n: Vec3, ni_over_nt: i64) -> (res: Option<Vec3>)
    requires
        vec_wf(v),
        vec_wf(n),
        in_fx(ni_over_nt as int),
    ensures
        res.is_some() == (refract_disc(v, n, ni_over_nt as int) > 0),
        res matches Some(r) ==> r == refract_dir(v, n, ni_over_nt as int) && vec_wf(r),
{
    let uv: Vec3 = v.normalize();
    let dt: i64 = uv.dot(n);
    let disc: i64 = fx_sub(
        FX_ONE,
        fx_mul(fx_mul(ni_over_nt, ni_over_nt), fx_sub(FX_ONE, fx_mul(dt, dt))),
    );
    if disc > 0 {
        Some(uv.minus(n.scale(dt)).scale(ni_over_nt).minus(n.scale(fx_sqrt(disc))))
    } else {
        None
    }
}

/// The Schlick reflectance approximation
/// `r0 + (1 - r0) (1 - cosine)^5` with `r0 = ((1 - n) / (1 + n))^2`.
pub open spec fn schlick_spec(cosine: int, ref_idx: int) -> int {
    let r0a = fx_div_spec(clip(FX_ONE - ref_idx), clip(FX_ONE + ref_idx));
    let r0 = fx_mul_spec(r0a, r0a);
    let p = clip(FX_ONE - cosine);
    let p5 = fx_mul_spec(fx_mul_spec(fx_mul_spec(fx_mul_spec(p, p), p), p), p);
    clip(r0 + fx_mul_spec(clip(FX_ONE - r0), p5))
}

pub fn schlick(cosine: i64, ref_idx: i64) -> (r: i64)
    requires
        in_fx(cosine as int),
        in_fx(ref_idx as int),
    ensures
        r as int == schlick_spec(cosine as int, ref_idx as int),
{
    let r0a: i64 = fx_div(fx_sub(FX_ONE, ref_idx), fx_add(FX_ONE, ref_idx));
    let r0: i64 = fx_mul(r0a, r0a);
    let p: i64 = fx_sub(FX_ONE, cosine);
    let p5: i64 = fx_mul(fx_mul(fx_mul(fx_mul(p, p), p), p), p);
    fx_add(r0, fx_mul(fx_sub(FX_ONE, r0), p5))
}

/// The diffuse outgoing direction `(p + normal + u) - p` for a unit-ball
/// sample `u`.
pub open spec fn lambertian_dir(p: Vec3, normal: Vec3, u: Vec3) -> Vec3 {
    v_sub(v_add(v_add(p, normal), u), p)
}

/// The metal outgoing direction: the mirror reflection of the normalized
/// incoming direction, perturbed by `fuzz` times a unit-ball sample `u`.
pub open spec fn metal_dir(dir: Vec3, normal: Vec3, fuzz: int, u: Vec3) -> Vec3 {
    v_add(reflect_spec(v_unit(dir), normal), v_scale(fuzz, u))
}

/// Law: a fuzz of zero perturbs nothing — the metal direction is then
/// exactly the mirror reflection of the normalized incoming direction.
pub proof fn lemma_metal_mirror(dir: Vec3, normal: Vec3, u: Vec3)
    ensures
        metal_dir(dir, normal, 0, u) == reflect_spec(v_unit(dir), normal),
{
    assert(0int * u.x == 0 && 0int * u.y == 0 && 0int * u.z == 0) by (nonlinear_arith);
}

/// The outward normal a dielectric refracts against: flipped when the ray
/// leaves the medium (`direction . normal > 0`).
pub open spec fn dielectric_outward(dir: Vec3, normal: Vec3) -> Vec3 {
    if v_dot(dir, normal) > 0 {
        v_neg(normal)
    } else {
        normal
    }
}

/// The refraction-index ratio a dielectric uses: the index itself when the
/// ray leaves the medium, its reciprocal when it enters.
pub open spec fn dielectric_ni(ref_idx: int, dir: Vec3, normal: Vec3) -> int {
    if v_dot(dir, normal) > 0 {
        ref_idx
    } else {
        fx_div_spec(FX_ONE as int, ref_idx)
    }
}

impl Lambertian {
    /// Diffuse scatter: bounce toward `normal + u` for a random unit-ball
    /// point `u`, absorbing bounces that would enter the surface.
    pub fn scatter(&self, _ray: &Ray, rec: &HitRecord, rng: &mut rand::rngs::StdRng) -> (res:
        Option<(Vec3, Ray)>)
        requires
            vec_wf(self.albedo),
            hit_record_wf(*rec),
        ensures
            res matches Some((att, sc)) ==> {
                &&& att == self.albedo
                &&& sc.a == rec.p
                &&& v_dot(sc.b, rec.normal) > 0
                &&& ray_wf(sc)
                &&& vec_wf(att)
                &&& exists|u: Vec3|
                    in_unit_sphere(u) && sc.b == lambertian_dir(rec.p, rec.normal, u)
            },
            res is None ==> exists|u: Vec3|
                in_unit_sphere(u) && v_dot(lambertian_dir(rec.p, rec.normal, u), rec.normal)
                    <= 0,
    {
        let u: Vec3 = random_in_unit_sphere(rng);
        let target: Vec3 = rec.p.plus(rec.normal).plus(u);
        let scattered: Ray = Ray { a: rec.p, b: target.minus(rec.p) };
        if scattered.direction().dot(rec.normal) > 0 {
            proof {
                assert(in_unit_sphere(u) && scattered.b == lambertian_dir(rec.p, rec.normal, u));
            }
            Some((self.albedo, scattered))
        } else {
            proof {
                assert(in_unit_sphere(u) && v_dot(
                    lambertian_dir(rec.p, rec.normal, u),
                    rec.normal,
                ) <= 0);
            }
            None
        }
    }
}

impl Metal {
    /// Metal scatter: mirror reflection plus fuzz, absorbing bounces that
    /// would enter the surface.
    pub fn scatter(&self, ray: &Ray, rec: &HitRecord, rng: &mut rand::rngs::StdRng) -> (res:
        Option<(Vec3, Ray)>)
        requires
            vec_wf(self.albedo),
            in_fx(self.fuzz as int),
            ray_wf(*ray),
            hit_record_wf(*rec),
        ensures
            res matches Some((att, sc)) ==> {
                &&& att == self.albedo
                &&& sc.a == rec.p
                &&& v_dot(sc.b, rec.normal) > 0
                &&& ray_wf(sc)
                &&& vec_wf(att)
                &&& exists|u: Vec3|
                    in_unit_sphere(u) && sc.b == metal_dir(ray.b, rec.normal, self.fuzz as int, u)
            },
            res is None ==> exists|u: Vec3|
                in_unit_sphere(u) && v_dot(
                    metal_dir(ray.b, rec.normal, self.fuzz as int, u),
                    rec.normal,
                ) <= 0,
    {
        let reflected: Vec3 = reflect(ray.direction().normalize(), rec.normal);
        let u: Vec3 = random_in_unit_sphere(rng);
        let scattered: Ray = Ray { a: rec.p, b: reflected.plus(u.scale(self.fuzz)) };
        if scattered.direction().dot(rec.normal) > 0 {
            proof {
                assert(in_unit_sphere(u) && scattered.b == metal_dir(
                    ray.b,
                    rec.normal,
                    self.fuzz as int,
                    u,
                ));
            }
            Some((self.albedo, scattered))
        } else {
            proof {
                assert(in_unit_sphere(u) && v_dot(
                    metal_dir(ray.b, rec.normal, self.fuzz as int, u),
                    rec.normal,
                ) <= 0);
            }
            None
        }
    }
}

impl Dielectric {
    /// Dielectric scatter: always scatters, choosing refraction when it
    /// exists and the random draw exceeds the Schlick reflectance, mirror
    /// reflection otherwise; the attenuation is always white.
    pub fn scatter(&self, ray: &Ray, rec: &HitRecord, rng: &mut rand::rngs::StdRng) -> (res:
        Option<(Vec3, Ray)>)
        requires
            in_fx(self.ref_idx as int),
            ray_wf(*ray),
            hit_record_wf(*rec),
        ensures
            res is Some,
            res matches Some((att, sc)) ==> {
                &&& att == white()
                &&& sc.a == rec.p
                &&& ray_wf(sc)
                &&& (sc.b == reflect_spec(ray.b, rec.normal) || sc.b == refract_dir(
                    ray.b,
                    dielectric_outward(ray.b, rec.normal),
                    dielectric_ni(self.ref_idx as int, ray.b, rec.normal),
                ))
                &&& refract_disc(
                    ray.b,
                    dielectric_outward(ray.b, rec.normal),
                    dielectric_ni(self.ref_idx as int, ray.b, rec.normal),
                ) <= 0 ==> sc.b == reflect_spec(ray.b, rec.normal)
            },
    {
        let reflected: Vec3 = reflect(ray.direction(), rec.normal);
        let ang: i64 = ray.direction().dot(rec.normal);
        let m2: i64 = ray.direction().length2();
        let outward: Vec3;
        let ni_over_nt: i64;
        let cosine: i64;
        if ang > 0 {
            outward = rec.normal.negate();
            ni_over_nt = self.ref_idx;
            cosine = fx_div(fx_mul(self.ref_idx, ang), m2);
        } else {
            outward = rec.normal;
            ni_over_nt = fx_div(FX_ONE, self.ref_idx);
            cosine = fx_div(fx_neg(ang), m2);
        }
        let mut scattered: Option<Ray> = None;
        if let Some(refracted) = refract(ray.direction(), outward, ni_over_nt) {
            if rand_unit(rng) > schlick(cosine, self.ref_idx) {
                scattered = Some(Ray { a: rec.p, b: refracted });
            }
        }
        let out: Ray = match scattered {
            Some(r) => r,
            None => Ray { a: rec.p, b: reflected },
        };
        Some((Vec3 { x: FX_ONE, y: FX_ONE, z: FX_ONE }, out))
    }
}

/// The admissible outgoing rays of one scatter, by material: the diffuse
/// and metal bounces leave the surface (positive dot with the normal) in a
/// direction built from some unit-ball sample, and a dielectric either
/// mirrors the incoming direction or refracts it against its outward
/// normal.
pub open spec fn scatter_rel(m: Material, ray: Ray, rec: HitRecord, sc: Ray) -> bool {
    sc.a == rec.p && match m {
        Material::Lambertian(l) => v_dot(sc.b, rec.normal) > 0 && exists|u: Vec3|
            in_unit_sphere(u) && sc.b == lambertian_dir(rec.p, rec.normal, u),
        Material::Metal(mt) => v_dot(sc.b, rec.normal) > 0 && exists|u: Vec3|
            in_unit_sphere(u) && sc.b == metal_dir(ray.b, rec.normal, mt.fuzz as int, u),
        Material::Dielectric(d) => sc.b == reflect_spec(ray.b, rec.normal) || sc.b == refract_dir(
            ray.b,
            dielectric_outward(ray.b, rec.normal),
            dielectric_ni(d.ref_idx as int, ray.b, rec.normal),
        ),
    }
}

impl Material {
    /// Scatter an incoming ray at a hit: the variant's own rule decides the
    /// outgoing ray, and the attenuation is always `attenuation_of`.
    pub fn scatter(&self, ray: &Ray, rec: &HitRecord, rng: &mut rand::rngs::StdRng) -> (res:
        Option<(Vec3, Ray)>)
        requires
            material_wf(*self),
            ray_wf(*ray),
            hit_record_wf(*rec),
        ensures
            res matches Some((att, sc)) ==> {
                &&& att == attenuation_of(*self)
                &&& sc.a == rec.p
                &&& ray_wf(sc)
                &&& vec_wf(att)
                &&& scatter_rel(*self, *ray, *rec, sc)
            },
            self is Dielectric ==> res is Some,
            (self is Lambertian || self is Metal) ==> match res {
                Some(pair) => v_dot(pair.1.b, rec.normal) > 0,
                None => true,
            },
    {
        match self {
            Material::Lambertian(l) => l.scatter(ray, rec, rng),
            Material::Metal(mt) => mt.scatter(ray, rec, rng),
            Material::Dielectric(d) => d.scatter(ray, rec, rng),
        }
    }
}

} // verus!
