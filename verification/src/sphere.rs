//! Ray-sphere intersection: the quadratic in fixed point, nearer root first.

use vstd::prelude::*;
use crate::fixed::clip;
use crate::fixed::fx_add;
use crate::fixed::fx_div;
use crate::fixed::fx_div_spec;
use crate::fixed::fx_mul;
use crate::fixed::fx_mul_spec;
use crate::fixed::fx_neg;
use crate::fixed::fx_sqrt;
use crate::fixed::fx_sqrt_spec;
use crate::fixed::fx_sub;
use crate::fixed::in_fx;
use crate::fixed::lemma_tdiv_ordered;
use crate::material::material_wf;
use crate::material::Material;
use crate::ray::ray_at;
use crate::ray::ray_wf;
use crate::ray::Ray;
use crate::vec3::lemma_dot_self_nonneg;
use crate::vec3::v_div_k;
use crate::vec3::v_dot;
use crate::vec3::v_sub;
use crate::vec3::vec_wf;
use crate::vec3::Vec3;

verus! {

/// The result of a successful intersection: distance along the ray, hit
/// point, outward normal (`(p - center) / radius`, so it flips inward for a
/// negative radius), and the hit object's material.
#[derive(Clone, Copy, PartialEq, Eq, Structural, Debug)]
pub struct HitRecord {
    pub t: i64,
    pub p: Vec3,
    pub normal: Vec3,
    pub material: Material,
}

pub open spec fn hit_record_wf(rec: HitRecord) -> bool {
    in_fx(rec.t as int) && vec_wf(rec.p) && vec_wf(rec.normal) && material_wf(rec.material)
}

/// A sphere; the radius may be negative, which turns the sphere into an
/// inverted shell whose reported normal points toward the center.
#[derive(Clone, Copy, PartialEq, Eq, Structural, Debug)]
pub struct Sphere {
    pub center: Vec3,
    pub radius: i64,
    pub material: Material,
}

pub open spec fn sphere_wf(s: Sphere) -> bool {
    vec_wf(s.center) && in_fx(s.radius as int) && material_wf(s.material)
}

/// Quadratic coefficient `a = direction . direction`.
pub open spec fn hit_qa(s: Sphere, r: Ray) -> int {
    v_dot(r.b, r.b)
}

/// Quadratic coefficient `b = (origin - center) . direction`.
pub open spec fn hit_qb(s: Sphere, r: Ray) -> int {
    v_dot(v_sub(r.a, s.center), r.b)
}

/// Quadratic coefficient `c = (origin - center) . (origin - center) - r^2`.
pub open spec fn hit_qc(s: Sphere, r: Ray) -> int {
    clip(v_dot(v_sub(r.a, s.center), v_sub(r.a, s.center)) - fx_mul_spec(
        s.radius as int,
        s.radius as int,
    ))
}

/// The discriminant `b^2 - a c`.
pub open spec fn hit_disc(s: Sphere, r: Ray) -> int {
    clip(fx_mul_spec(hit_qb(s, r), hit_qb(s, r)) - fx_mul_spec(hit_qa(s, r), hit_qc(s, r)))
}

/// The nearer quadratic root `(-b - sqrt(disc)) / a`.
pub open spec fn hit_root1(s: Sphere, r: Ray) -> int {
    fx_div_spec(clip(-hit_qb(s, r) - fx_sqrt_spec(hit_disc(s, r))), hit_qa(s, r))
}

/// The farther quadratic root `(-b + sqrt(disc)) / a`.
pub open spec fn hit_root2(s: Sphere, r: Ray) -> int {
    fx_div_spec(clip(-hit_qb(s, r) + fx_sqrt_spec(hit_disc(s, r))), hit_qa(s, r))
}

/// The intersection parameter `hit` reports: when the discriminant is
/// positive, the first of the two roots (nearer first) strictly inside
/// `(t_min, t_max)`; otherwise nothing.
pub open spec fn hit_t(s: Sphere, r: Ray, t_min: int, t_max: int) -> Option<int> {
    if hit_disc(s, r) > 0 {
        if t_min < hit_root1(s, r) < t_max {
            Some(hit_root1(s, r))
        } else if t_min < hit_root2(s, r) < t_max {
            Some(hit_root2(s, r))
        } else {
            None
        }
    } else {
        None
    }
}

/// The record `hit` builds for intersection parameter `t`.
pub open spec fn hit_record_for(s: Sphere, r: Ray, t: int) -> HitRecord {
    HitRecord {
        t: t as i64,
        p: ray_at(r, t),
        normal: v_div_k(v_sub(ray_at(r, t), s.center), s.radius as int),
        material: s.material,
    }
}

/// The quadratic coefficient `a` is a dot product of a vector with itself,
/// hence never negative.
pub proof fn lemma_qa_nonneg(s: Sphere, r: Ray)
    ensures
        hit_qa(s, r) >= 0,
{
    lemma_dot_self_nonneg(r.b);
}

/// The nearer root never exceeds the farther root.
pub proof fn lemma_roots_ordered(s: Sphere, r: Ray)
    ensures
        hit_root1(s, r) <= hit_root2(s, r),
{
    lemma_qa_nonneg(s, r);
    let qa = hit_qa(s, r);
    let qb = hit_qb(s, r);
    let sq = fx_sqrt_spec(hit_disc(s, r));
    assert(sq >= 0);
    if qa > 0 {
        assert(clip(-qb - sq) <= clip(-qb + sq));
        assert(clip(-qb - sq) * (crate::fixed::FX_ONE as int) <= clip(-qb + sq) * (
        crate::fixed::FX_ONE as int)) by (nonlinear_arith)
            requires
                clip(-qb - sq) <= clip(-qb + sq),
        ;
        lemma_tdiv_ordered(
            clip(-qb - sq) * (crate::fixed::FX_ONE as int),
            clip(-qb + sq) * (crate::fixed::FX_ONE as int),
            qa,
        );
    }
}

/// Law: when the discriminant test fails — the fixed-point detection of a
/// ray line passing farther from the center than the radius — the sphere is
/// missed for every interval: `hit` reports nothing whatever `t_min` and
/// `t_max` are.
pub proof fn lemma_miss_for_every_interval(s: Sphere, r: Ray, t_min: int, t_max: int)
    requires
        hit_disc(s, r) <= 0,
    ensures
        hit_t(s, r, t_min, t_max) is None,
{
}

/// Law: for a direction of unit squared length (`a` equal to one) whose
/// root numerators do not saturate, the two intersection parameters are
/// symmetric about `-b`, the parameter of the center's projection onto the
/// ray — for a ray through the center, the parameter of the center itself.
pub proof fn lemma_roots_symmetric(s: Sphere, r: Ray)
    requires
        hit_qa(s, r) == crate::fixed::FX_ONE as int,
        in_fx(-hit_qb(s, r) - fx_sqrt_spec(hit_disc(s, r))),
        in_fx(-hit_qb(s, r) + fx_sqrt_spec(hit_disc(s, r))),
    ensures
        hit_root1(s, r) + hit_root2(s, r) == 2 * -hit_qb(s, r),
{
    crate::fixed::lemma_div_spec_by_one(clip(-hit_qb(s, r) - fx_sqrt_spec(hit_disc(s, r))));
    crate::fixed::lemma_div_spec_by_one(clip(-hit_qb(s, r) + fx_sqrt_spec(hit_disc(s, r))));
}

/// Law: the reported normal is `(p - center) / radius`, so on a
/// positive-radius sphere it points away from the center (its dot product
/// with the center-to-point offset is not negative), while on a
/// negative-radius sphere — the inverted-shell construction — it points
/// toward the center. The flip is preserved, not corrected.
pub proof fn lemma_normal_orientation(s: Sphere, r: Ray, t: int)
    ensures
        s.radius > 0 ==> v_dot(hit_record_for(s, r, t).normal, v_sub(ray_at(r, t), s.center))
            >= 0,
        s.radius < 0 ==> v_dot(hit_record_for(s, r, t).normal, v_sub(ray_at(r, t), s.center))
            <= 0,
{
    let d = v_sub(ray_at(r, t), s.center);
    let k = s.radius as int;
    crate::fixed::lemma_div_spec_sign(d.x as int, k);
    crate::fixed::lemma_div_spec_sign(d.y as int, k);
    crate::fixed::lemma_div_spec_sign(d.z as int, k);
    let n = hit_record_for(s, r, t).normal;
    crate::fixed::lemma_mul_spec_sign(n.x as int, d.x as int);
    crate::fixed::lemma_mul_spec_sign(n.y as int, d.y as int);
    crate::fixed::lemma_mul_spec_sign(n.z as int, d.z as int);
}

/// One magnitude reaches another.
pub open spec fn reaches_mag(x: int, rad: int) -> bool {
    (if x >= 0 {
        x
    } else {
        -x
    }) >= (if rad >= 0 {
        rad
    } else {
        -rad
    })
}

/// The hit point stands off the center by at least the radius in some
/// coordinate — true of every intersection that truncation has not
/// collapsed below one fixed-point unit per axis.
pub open spec fn offset_reaches_radius(s: Sphere, r: Ray, t: int) -> bool {
    let d = v_sub(ray_at(r, t), s.center);
    reaches_mag(d.x as int, s.radius as int) || reaches_mag(d.y as int, s.radius as int)
        || reaches_mag(d.z as int, s.radius as int)
}

/// Law: away from the degenerate rim the orientation is strict: when the
/// hit point's offset from the center reaches the radius in some
/// coordinate, the normal's dot product with that offset is strictly
/// positive for a positive radius and strictly negative for a negative one.
pub proof fn lemma_normal_orientation_strict(s: Sphere, r: Ray, t: int)
    requires
        in_fx(s.radius as int),
        s.radius != 0,
        offset_reaches_radius(s, r, t),
    ensures
        s.radius > 0 ==> v_dot(hit_record_for(s, r, t).normal, v_sub(ray_at(r, t), s.center))
            >= 1,
        s.radius < 0 ==> v_dot(hit_record_for(s, r, t).normal, v_sub(ray_at(r, t), s.center))
            <= -1,
{
    let d = v_sub(ray_at(r, t), s.center);
    let k = s.radius as int;
    crate::fixed::lemma_div_spec_sign(d.x as int, k);
    crate::fixed::lemma_div_spec_sign(d.y as int, k);
    crate::fixed::lemma_div_spec_sign(d.z as int, k);
    let n = hit_record_for(s, r, t).normal;
    crate::fixed::lemma_mul_spec_sign(n.x as int, d.x as int);
    crate::fixed::lemma_mul_spec_sign(n.y as int, d.y as int);
    crate::fixed::lemma_mul_spec_sign(n.z as int, d.z as int);
    if reaches_mag(d.x as int, k) {
        crate::fixed::lemma_div_mul_reaches(d.x as int, k);
    } else if reaches_mag(d.y as int, k) {
        crate::fixed::lemma_div_mul_reaches(d.y as int, k);
    } else {
        crate::fixed::lemma_div_mul_reaches(d.z as int, k);
    }
}

impl Sphere {
    /// Intersect a ray with this sphere over the open interval
    /// `(t_min, t_max)`, returning the nearest valid intersection.
    pub fn hit(&self, ray: &Ray, t_min: i64, t_max: i64) -> (res: Option<HitRecord>)
        requires
            sphere_wf(*self),
            ray_wf(*ray),
            in_fx(t_min as int),
            in_fx(t_max as int),
        ensures
            res.is_some() == hit_t(*self, *ray, t_min as int, t_max as int).is_some(),
            res matches Some(rec) ==> {
                &&& Some(rec.t as int) == hit_t(*self, *ray, t_min as int, t_max as int)
                &&& rec == hit_record_for(*self, *ray, rec.t as int)
                &&& hit_record_wf(rec)
            },
    {
        let oc: Vec3 = ray.origin().minus(self.center);
        let qa: i64 = ray.direction().dot(ray.direction());
        let qb: i64 = oc.dot(ray.direction());
        let qc: i64 = fx_sub(oc.dot(oc), fx_mul(self.radius, self.radius));
        let disc: i64 = fx_sub(fx_mul(qb, qb), fx_mul(qa, qc));
        if disc > 0 {
            let sq: i64 = fx_sqrt(disc);
            let t1: i64 = fx_div(fx_sub(fx_neg(qb), sq), qa);
            if t1 < t_max && t1 > t_min {
                let point: Vec3 = ray.point_at_parameter(t1);
                return Some(
                    HitRecord {
                        t: t1,
                        p: point,
                        normal: point.minus(self.center).div_k(self.radius),
                        material: self.material,
                    },
                );
            }
            let t2: i64 = fx_div(fx_add(fx_neg(qb), sq), qa);
            if t2 < t_max && t2 > t_min {
                let point: Vec3 = ray.point_at_parameter(t2);
                return Some(
                    HitRecord {
                        t: t2,
                        p: point,
                        normal: point.minus(self.center).div_k(self.radius),
                        material: self.material,
                    },
                );
            }
        }
        None
    }
}

} // verus!
