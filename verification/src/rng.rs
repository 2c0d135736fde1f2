//! Randomness: draws from rand's `StdRng`, threaded explicitly through every
//! sampling call so a render is reproducible from its seed, plus the
//! rejection samplers for the unit sphere and the unit lens disk.

use vstd::prelude::*;
use crate::fixed::in_fx;
use crate::fixed::FX_ONE;
use crate::vec3::v_dot;
use crate::vec3::vec_wf;
use crate::vec3::Vec3;

verus! {

/// Declares rand's `StdRng` (an opaque value here) so that generator state
/// can be threaded through signatures.
#[verifier::external_type_specification]
#[verifier::external_body]
pub struct ExStdRng(rand::rngs::StdRng);

/// Relies on rand_core::RngCore::next_u32: one draw from the generator.
/// Nothing is promised of the value.
#[verifier::external_body]
pub(crate) fn next_random(rng: &mut rand::rngs::StdRng) -> (r: u32) {
    rand::RngCore::next_u32(rng)
}

/// One fixed-point draw from `[0, 1)`.
pub fn rand_unit(rng: &mut rand::rngs::StdRng) -> (r: i64)
    ensures
        0 <= r < FX_ONE,
        in_fx(r as int),
{
    let d: u32 = next_random(rng);
    (d % 65536) as i64
}

/// One fixed-point coordinate draw from `[-1, 1]`.
fn rand_coord(rng: &mut rand::rngs::StdRng) -> (r: i64)
    ensures
        -FX_ONE <= r <= FX_ONE,
        in_fx(r as int),
{
    let d: u32 = next_random(rng);
    ((d % 131073) as i64) - 65536
}

/// Strictly inside the unit ball, measured by the fixed-point dot product.
pub open spec fn in_unit_sphere(v: Vec3) -> bool {
    vec_wf(v) && v_dot(v, v) < FX_ONE
}

/// Strictly inside the unit disk of the lens plane.
pub open spec fn in_unit_disk(v: Vec3) -> bool {
    in_unit_sphere(v) && v.z == 0
}

/// Rejection-sample a point inside the unit ball: draw coordinates in
/// `[-1, 1]^3` until the squared length falls below one. The retry count is
/// bounded so the sampler is total; exhausting it (which a fair generator
/// essentially never does) yields a fixed interior point.
pub fn random_in_unit_sphere(rng: &mut rand::rngs::StdRng) -> (v: Vec3)
    ensures
        in_unit_sphere(v),
{
    let mut tries: u32 = 64;
    while tries > 0
        decreases tries,
    {
        let p: Vec3 = Vec3::new(rand_coord(rng), rand_coord(rng), rand_coord(rng));
        if p.length2() < FX_ONE {
            return p;
        }
        tries = tries - 1;
    }
    fallback_point()
}

/// Rejection-sample a point inside the unit disk (`z == 0`), the thin-lens
/// sampling primitive; bounded retries as for the unit ball.
pub fn random_in_unit_disk(rng: &mut rand::rngs::StdRng) -> (v: Vec3)
    ensures
        in_unit_disk(v),
{
    let mut tries: u32 = 64;
    while tries > 0
        decreases tries,
    {
        let p: Vec3 = Vec3::new(rand_coord(rng), rand_coord(rng), 0);
        if p.length2() < FX_ONE {
            return p;
        }
        tries = tries - 1;
    }
    fallback_point()
}

fn fallback_point() -> (v: Vec3)
    ensures
        in_unit_disk(v),
        in_unit_sphere(v),
{
    let v: Vec3 = Vec3::new(16384, 16384, 0);
    proof {
        assert(16384int * 16384 == 268435456) by (nonlinear_arith);
        assert(268435456int / 65536 == 4096);
        assert(0int * 0 == 0) by (nonlinear_arith);
    }
    v
}

} // verus!
