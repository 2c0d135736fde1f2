//! Three-component fixed-point vectors, used both for points in space and
//! for linear-space RGB colors.

use vstd::prelude::*;
use crate::fixed::clip;
use crate::fixed::fx_add;
use crate::fixed::fx_div;
use crate::fixed::fx_div_spec;
use crate::fixed::fx_mul;
use crate::fixed::fx_mul_spec;
use crate::fixed::fx_neg;
use crate::fixed::fx_sqrt;
use crate::fixed::fx_sqrt_spec;
use crate::fixed::fx_sub;
use crate::fixed::in_fx;

verus! {

#[derive(Clone, Copy, PartialEq, Eq, Structural, Debug)]
pub struct Vec3 {
    pub x: i64,
    pub y: i64,
    pub z: i64,
}

/// All three components are inside the representable fixed-point range.
pub open spec fn vec_wf(v: Vec3) -> bool {
    in_fx(v.x as int) && in_fx(v.y as int) && in_fx(v.z as int)
}

/// Saturation of a mathematical integer into a fixed-point component.
pub open spec fn clip64(x: int) -> i64 {
    clip(x) as i64
}

pub open spec fn v_add(a: Vec3, b: Vec3) -> Vec3 {
    Vec3 { x: clip64(a.x + b.x), y: clip64(a.y + b.y), z: clip64(a.z + b.z) }
}

pub open spec fn v_sub(a: Vec3, b: Vec3) -> Vec3 {
    Vec3 { x: clip64(a.x - b.x), y: clip64(a.y - b.y), z: clip64(a.z - b.z) }
}

pub open spec fn v_neg(a: Vec3) -> Vec3 {
    Vec3 { x: clip64(-(a.x as int)), y: clip64(-(a.y as int)), z: clip64(-(a.z as int)) }
}

pub open spec fn v_scale(k: int, a: Vec3) -> Vec3 {
    Vec3 {
        x: fx_mul_spec(k, a.x as int) as i64,
        y: fx_mul_spec(k, a.y as int) as i64,
        z: fx_mul_spec(k, a.z as int) as i64,
    }
}

pub open spec fn v_mul_elem(a: Vec3, b: Vec3) -> Vec3 {
    Vec3 {
        x: fx_mul_spec(a.x as int, b.x as int) as i64,
        y: fx_mul_spec(a.y as int, b.y as int) as i64,
        z: fx_mul_spec(a.z as int, b.z as int) as i64,
    }
}

pub open spec fn v_dot(a: Vec3, b: Vec3) -> int {
    clip(
        clip(fx_mul_spec(a.x as int, b.x as int) + fx_mul_spec(a.y as int, b.y as int))
            + fx_mul_spec(a.z as int, b.z as int),
    )
}

pub open spec fn v_cross(a: Vec3, b: Vec3) -> Vec3 {
    Vec3 {
        x: clip64(fx_mul_spec(a.y as int, b.z as int) - fx_mul_spec(a.z as int, b.y as int)),
        y: clip64(fx_mul_spec(a.z as int, b.x as int) - fx_mul_spec(a.x as int, b.z as int)),
        z: clip64(fx_mul_spec(a.x as int, b.y as int) - fx_mul_spec(a.y as int, b.x as int)),
    }
}

/// Componentwise division by a scalar (zero divisor yields the zero vector).
pub open spec fn v_div_k(a: Vec3, k: int) -> Vec3 {
    Vec3 {
        x: fx_div_spec(a.x as int, k) as i64,
        y: fx_div_spec(a.y as int, k) as i64,
        z: fx_div_spec(a.z as int, k) as i64,
    }
}

/// The fixed-point length of a vector: the rounded square root of its dot
/// product with itself.
pub open spec fn v_len(a: Vec3) -> int {
    fx_sqrt_spec(v_dot(a, a))
}

/// The normalized vector: each component divided by the length (the zero
/// vector stays zero, since fixed-point division by zero yields zero).
pub open spec fn v_unit(a: Vec3) -> Vec3 {
    Vec3 {
        x: fx_div_spec(a.x as int, v_len(a)) as i64,
        y: fx_div_spec(a.y as int, v_len(a)) as i64,
        z: fx_div_spec(a.z as int, v_len(a)) as i64,
    }
}

/// A color inside the unit cube: every channel between zero and one.
pub open spec fn color_in_unit(v: Vec3) -> bool {
    0 <= v.x <= crate::fixed::FX_ONE && 0 <= v.y <= crate::fixed::FX_ONE && 0 <= v.z
        <= crate::fixed::FX_ONE
}

/// Law: tinting never brightens: attenuating by a color inside the unit
/// cube keeps every channel between zero and its old value.
pub proof fn lemma_tint_bounds(a: Vec3, r: Vec3)
    requires
        color_in_unit(a),
        vec_wf(r),
        0 <= r.x,
        0 <= r.y,
        0 <= r.z,
    ensures
        0 <= v_mul_elem(a, r).x <= r.x,
        0 <= v_mul_elem(a, r).y <= r.y,
        0 <= v_mul_elem(a, r).z <= r.z,
{
    crate::fixed::lemma_mul_spec_tint(a.x as int, r.x as int);
    crate::fixed::lemma_mul_spec_tint(a.y as int, r.y as int);
    crate::fixed::lemma_mul_spec_tint(a.z as int, r.z as int);
}

/// A vector's dot product with itself is never negative, even under
/// fixed-point truncation and saturation.
pub proof fn lemma_dot_self_nonneg(v: Vec3)
    ensures
        v_dot(v, v) >= 0,
{
    lemma_mul_self_nonneg(v.x as int);
    lemma_mul_self_nonneg(v.y as int);
    lemma_mul_self_nonneg(v.z as int);
}

proof fn lemma_mul_self_nonneg(x: int)
    ensures
        fx_mul_spec(x, x) >= 0,
{
    assert(x * x >= 0) by (nonlinear_arith);
    crate::fixed::lemma_tdiv_bounds(x * x, crate::fixed::FX_ONE as int);
}

impl Vec3 {
    pub fn new(x: i64, y: i64, z: i64) -> (r: Vec3)
        requires
            in_fx(x as int),
            in_fx(y as int),
            in_fx(z as int),
        ensures
            r == (Vec3 { x, y, z }),
            vec_wf(r),
    {
        Vec3 { x, y, z }
    }

    pub fn zero() -> (r: Vec3)
        ensures
            r == (Vec3 { x: 0i64, y: 0i64, z: 0i64 }),
            vec_wf(r),
    {
        Vec3 { x: 0, y: 0, z: 0 }
    }

    pub fn plus(self, o: Vec3) -> (r: Vec3)
        requires
            vec_wf(self),
            vec_wf(o),
        ensures
            r == v_add(self, o),
            vec_wf(r),
    {
        Vec3 { x: fx_add(self.x, o.x), y: fx_add(self.y, o.y), z: fx_add(self.z, o.z) }
    }

    pub fn minus(self, o: Vec3) -> (r: Vec3)
        requires
            vec_wf(self),
            vec_wf(o),
        ensures
            r == v_sub(self, o),
            vec_wf(r),
    {
        Vec3 { x: fx_sub(self.x, o.x), y: fx_sub(self.y, o.y), z: fx_sub(self.z, o.z) }
    }

    pub fn negate(self) -> (r: Vec3)
        requires
            vec_wf(self),
        ensures
            r == v_neg(self),
            vec_wf(r),
    {
        Vec3 { x: fx_neg(self.x), y: fx_neg(self.y), z: fx_neg(self.z) }
    }

    pub fn scale(self, k: i64) -> (r: Vec3)
        requires
            vec_wf(self),
            in_fx(k as int),
        ensures
            r == v_scale(k as int, self),
            vec_wf(r),
    {
        Vec3 { x: fx_mul(k, self.x), y: fx_mul(k, self.y), z: fx_mul(k, self.z) }
    }

    pub fn mul_elem(self, o: Vec3) -> (r: Vec3)
        requires
            vec_wf(self),
            vec_wf(o),
        ensures
            r == v_mul_elem(self, o),
            vec_wf(r),
    {
        Vec3 { x: fx_mul(self.x, o.x), y: fx_mul(self.y, o.y), z: fx_mul(self.z, o.z) }
    }

    pub fn dot(self, o: Vec3) -> (r: i64)
        requires
            vec_wf(self),
            vec_wf(o),
        ensures
            r as int == v_dot(self, o),
            in_fx(r as int),
    {
        fx_add(fx_add(fx_mul(self.x, o.x), fx_mul(self.y, o.y)), fx_mul(self.z, o.z))
    }

    pub fn cross(self, o: Vec3) -> (r: Vec3)
        requires
            vec_wf(self),
            vec_wf(o),
        ensures
            r == v_cross(self, o),
            vec_wf(r),
    {
        Vec3 {
            x: fx_sub(fx_mul(self.y, o.z), fx_mul(self.z, o.y)),
            y: fx_sub(fx_mul(self.z, o.x), fx_mul(self.x, o.z)),
            z: fx_sub(fx_mul(self.x, o.y), fx_mul(self.y, o.x)),
        }
    }

    pub fn div_k(self, k: i64) -> (r: Vec3)
        requires
            vec_wf(self),
            in_fx(k as int),
        ensures
            r == v_div_k(self, k as int),
            vec_wf(r),
    {
        Vec3 { x: fx_div(self.x, k), y: fx_div(self.y, k), z: fx_div(self.z, k) }
    }

    /// Squared length (exact up to fixed-point truncation).
    pub fn length2(self) -> (r: i64)
        requires
            vec_wf(self),
        ensures
            r as int == v_dot(self, self),
            in_fx(r as int),
    {
        self.dot(self)
    }

    pub fn length(self) -> (r: i64)
        requires
            vec_wf(self),
        ensures
            r as int == v_len(self),
            in_fx(r as int),
    {
        fx_sqrt(self.length2())
    }

    pub fn normalize(self) -> (r: Vec3)
        requires
            vec_wf(self),
        ensures
            r == v_unit(self),
            vec_wf(r),
    {
        let len: i64 = self.length();
        Vec3 { x: fx_div(self.x, len), y: fx_div(self.y, len), z: fx_div(self.z, len) }
    }
}

} // verus!
