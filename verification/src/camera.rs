//! The thin-lens camera: maps normalized image-plane coordinates plus a
//! random lens offset to a world-space ray.

use vstd::prelude::*;
use crate::fixed::clip;
use crate::fixed::fx_add;
use crate::fixed::fx_mul;
use crate::fixed::fx_mul_spec;
use crate::fixed::in_fx;
use crate::fixed::tdiv;
use crate::ray::ray_wf;
use crate::ray::Ray;
use crate::rng::in_unit_disk;
use crate::rng::random_in_unit_disk;
use crate::vec3::v_add;
use crate::vec3::v_cross;
use crate::vec3::v_scale;
use crate::vec3::v_sub;
use crate::vec3::v_unit;
use crate::vec3::vec_wf;
use crate::vec3::Vec3;

verus! {

/// Fully determined at construction; `u`, `v`, `w` form the camera frame.
#[derive(Clone, Copy, PartialEq, Eq, Structural, Debug)]
pub struct Camera {
    pub origin: Vec3,
    pub lower_left_corner: Vec3,
    pub horizontal: Vec3,
    pub vertical: Vec3,
    pub u: Vec3,
    pub v: Vec3,
    pub w: Vec3,
    pub lens_radius: i64,
}

pub open spec fn camera_wf(c: Camera) -> bool {
    vec_wf(c.origin) && vec_wf(c.lower_left_corner) && vec_wf(c.horizontal) && vec_wf(c.vertical)
        && vec_wf(c.u) && vec_wf(c.v) && vec_wf(c.w) && in_fx(c.lens_radius as int)
}

/// The camera determined by eye position, look-at target, up vector, the
/// tangent of half the vertical field of view, the aspect ratio, the
/// aperture diameter, and the focus distance.
pub open spec fn camera_for(
    lookfrom: Vec3,
    lookat: Vec3,
    vup: Vec3,
    half_height: int,
    aspect: int,
    aperture: int,
    focus_dist: int,
) -> Camera {
    let half_width = fx_mul_spec(aspect, half_height);
    let w = v_unit(v_sub(lookfrom, lookat));
    let u = v_unit(v_cross(vup, w));
    let v = v_cross(w, u);
    let hwf = fx_mul_spec(half_width, focus_dist);
    let hhf = fx_mul_spec(half_height, focus_dist);
    Camera {
        origin: lookfrom,
        lower_left_corner: v_sub(
            v_sub(v_sub(lookfrom, v_scale(hwf, u)), v_scale(hhf, v)),
            v_scale(focus_dist, w),
        ),
        horizontal: v_scale(clip(hwf + hwf), u),
        vertical: v_scale(clip(hhf + hhf), v),
        u,
        v,
        w,
        lens_radius: tdiv(aperture, 2) as i64,
    }
}

/// The ray for image-plane coordinates `(s, t)` and lens-disk sample `rd`:
/// the origin is offset within the lens, and the direction aims at the
/// image-plane point so that objects at the focus distance stay sharp.
pub open spec fn cam_ray(cam: Camera, s: int, t: int, rd: Vec3) -> Ray {
    let rs = v_scale(cam.lens_radius as int, rd);
    let offset = v_add(v_scale(rs.x as int, cam.u), v_scale(rs.y as int, cam.v));
    Ray {
        a: v_add(cam.origin, offset),
        b: v_sub(
            v_sub(
                v_add(
                    v_add(cam.lower_left_corner, v_scale(s, cam.horizontal)),
                    v_scale(t, cam.vertical),
                ),
                cam.origin,
            ),
            offset,
        ),
    }
}

impl Camera {
    /// Build the camera. `half_height` is the tangent of half the vertical
    /// field of view (a plain fixed-point scalar, since the library works in
    /// exact arithmetic and takes the one transcendental value ready-made).
    pub fn new(
        lookfrom: Vec3,
        lookat: Vec3,
        vup: Vec3,
        half_height: i64,
        aspect: i64,
        aperture: i64,
        focus_dist: i64,
    ) -> (cam: Camera)
        requires
            vec_wf(lookfrom),
            vec_wf(lookat),
            vec_wf(vup),
            in_fx(half_height as int),
            in_fx(aspect as int),
            in_fx(aperture as int),
            in_fx(focus_dist as int),
        ensures
            cam == camera_for(
                lookfrom,
                lookat,
                vup,
                half_height as int,
                aspect as int,
                aperture as int,
                focus_dist as int,
            ),
            camera_wf(cam),
    {
        let half_width: i64 = fx_mul(aspect, half_height);
        let w: Vec3 = lookfrom.minus(lookat).normalize();
        let u: Vec3 = vup.cross(w).normalize();
        let v: Vec3 = w.cross(u);
        let hwf: i64 = fx_mul(half_width, focus_dist);
        let hhf: i64 = fx_mul(half_height, focus_dist);
        let lens_radius: i64 = match aperture.checked_div(2) {
            Some(l) => l,
            None => 0,
        };
        proof {
            crate::fixed::lemma_tdiv_bounds(aperture as int, 2);
        }
        Camera {
            origin: lookfrom,
            lower_left_corner: lookfrom.minus(u.scale(hwf)).minus(v.scale(hhf)).minus(
                w.scale(focus_dist),
            ),
            horizontal: u.scale(fx_add(hwf, hwf)),
            vertical: v.scale(fx_add(hhf, hhf)),
            u,
            v,
            w,
            lens_radius,
        }
    }

    /// The deterministic core of ray generation: the ray for coordinates
    /// `(s, t)` and a given lens-disk sample.
    pub fn ray_through(&self, s: i64, t: i64, rd: Vec3) -> (r: Ray)
        requires
            camera_wf(*self),
            in_fx(s as int),
            in_fx(t as int),
            vec_wf(rd),
        ensures
            r == cam_ray(*self, s as int, t as int, rd),
            ray_wf(r),
    {
        let rs: Vec3 = rd.scale(self.lens_radius);
        let offset: Vec3 = self.u.scale(rs.x).plus(self.v.scale(rs.y));
        Ray {
            a: self.origin.plus(offset),
            b: self.lower_left_corner.plus(self.horizontal.scale(s)).plus(
                self.vertical.scale(t),
            ).minus(self.origin).minus(offset),
        }
    }

    /// A ray for image-plane coordinates `(s, t)`, with the lens offset
    /// drawn from the unit disk for depth-of-field.
    pub fn get_ray(&self, s: i64, t: i64, rng: &mut rand::rngs::StdRng) -> (r: Ray)
        requires
            camera_wf(*self),
            in_fx(s as int),
            in_fx(t as int),
        ensures
            exists|rd: Vec3| in_unit_disk(rd) && r == cam_ray(*self, s as int, t as int, rd),
            ray_wf(r),
    {
        let rd: Vec3 = random_in_unit_disk(rng);
        let r: Ray = self.ray_through(s, t, rd);
        proof {
            assert(in_unit_disk(rd) && r == cam_ray(*self, s as int, t as int, rd));
        }
        r
    }
}

} // verus!
