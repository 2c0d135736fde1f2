//! A ray: origin plus direction, with evaluation along the parameter.

use vstd::prelude::*;
use crate::fixed::in_fx;
use crate::vec3::v_add;
use crate::vec3::v_scale;
use crate::vec3::vec_wf;
use crate::vec3::Vec3;

verus! {

/// `a` is the origin and `b` the direction; the direction need not be a unit
/// vector.
#[derive(Clone, Copy, PartialEq, Eq, Structural, Debug)]
pub struct Ray {
    pub a: Vec3,
    pub b: Vec3,
}

pub open spec fn ray_wf(r: Ray) -> bool {
    vec_wf(r.a) && vec_wf(r.b)
}

/// The point `origin + t * direction`.
pub open spec fn ray_at(r: Ray, t: int) -> Vec3 {
    v_add(r.a, v_scale(t, r.b))
}

impl Ray {
    pub fn new(a: Vec3, b: Vec3) -> (r: Ray)
        requires
            vec_wf(a),
            vec_wf(b),
        ensures
            r == (Ray { a, b }),
            ray_wf(r),
    {
        Ray { a, b }
    }

    pub fn origin(&self) -> (r: Vec3)
        ensures
            r == self.a,
    {
        self.a
    }

    pub fn direction(&self) -> (r: Vec3)
        ensures
            r == self.b,
    {
        self.b
    }

    pub fn point_at_parameter(&self, t: i64) -> (r: Vec3)
        requires
            ray_wf(*self),
            in_fx(t as int),
        ensures
            r == ray_at(*self, t as int),
            vec_wf(r),
    {
        self.a.plus(self.b.scale(t))
    }
}

} // verus!
