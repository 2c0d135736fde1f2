//! The recursive radiance integrator, the per-pixel sampling loop, and
//! gamma-2 channel encoding.

use vstd::prelude::*;
use crate::camera::camera_wf;
use crate::camera::Camera;
use crate::fixed::clip;
use crate::fixed::fx_div_int;
use crate::fixed::fx_mul;
use crate::fixed::fx_mul_spec;
use crate::fixed::fx_sqrt;
use crate::fixed::fx_sqrt_spec;
use crate::fixed::in_fx;
use crate::fixed::lemma_isqrt_spec_bounds;
use crate::fixed::lemma_tdiv_bounds;
use crate::fixed::tdiv;
use crate::fixed::FX_ONE;
use crate::camera::cam_ray;
use crate::fixed::lemma_mul_spec_tint;
use crate::fixed::lemma_tdiv_ordered;
use crate::material::attenuation_of;
use crate::material::scatter_rel;
use crate::material::white;
use crate::rng::in_unit_disk;
use crate::ray::ray_wf;
use crate::ray::Ray;
use crate::sphere::sphere_wf;
use crate::sphere::Sphere;
use crate::vec3::color_in_unit;
use crate::vec3::lemma_tint_bounds;
use crate::vec3::v_add;
use crate::vec3::v_mul_elem;
use crate::vec3::v_scale;
use crate::vec3::v_unit;
use crate::vec3::vec_wf;
use crate::vec3::Vec3;
use crate::world::closest_hit;
use crate::world::lemma_scan_hit_minimal;
use crate::world::scan_hit;
use vstd::arithmetic::div_mod::lemma_div_is_ordered;
use vstd::arithmetic::div_mod::lemma_div_multiples_vanish;
use vstd::arithmetic::div_mod::lemma_fundamental_div_mod_converse;

verus! {

/// The lower end of every intersection interval (about 0.001), keeping
/// bounced rays from re-hitting their own surface.
pub const HIT_EPS: i64 = 66;

/// The recursion-depth cutoff of the integrator.
pub const MAX_DEPTH: i32 = 50;

pub open spec fn black() -> Vec3 {
    Vec3 { x: 0i64, y: 0i64, z: 0i64 }
}

/// The upper color of the background gradient (sky blue).
pub open spec fn sky() -> Vec3 {
    Vec3 { x: 32768i64, y: 45875i64, z: FX_ONE }
}

/// The vertical component of the normalized direction, clamped into the
/// unit interval that ideal normalization guarantees (fixed-point
/// normalization of a direction much shorter than one can overshoot it).
pub open spec fn unit_y(r: Ray) -> int {
    let u = v_unit(r.b).y as int;
    if u > FX_ONE {
        FX_ONE as int
    } else if u < -(FX_ONE as int) {
        -(FX_ONE as int)
    } else {
        u
    }
}

/// The background gradient: white blended toward sky blue by
/// `0.5 * (unit_direction.y + 1)`; only the vertical component matters.
pub open spec fn background(r: Ray) -> Vec3 {
    let t = fx_mul_spec(32768, unit_y(r) + FX_ONE);
    v_add(v_scale(clip(FX_ONE - t), white()), v_scale(t, sky()))
}

/// Law: the background gradient stays inside the unit color cube.
pub proof fn lemma_background_range(r: Ray)
    ensures
        color_in_unit(background(r)),
{
    let sc = FX_ONE as int;
    let val = unit_y(r) + sc;
    crate::fixed::lemma_tdiv_bounds(32768 * val, sc);
    lemma_tdiv_ordered(32768 * val, 4294967296, sc);
    assert(4294967296int / 65536 == 65536);
    let t = fx_mul_spec(32768, val);
    assert(0 <= t <= sc);
    vstd::arithmetic::div_mod::lemma_div_by_multiple(sc - t, sc);
    assert(fx_mul_spec(clip(sc - t), sc) == sc - t);
    lemma_mul_unit_pair(t, 32768);
    lemma_mul_unit_pair(t, 45875);
    lemma_mul_unit_pair(t, sc);
}

/// A product of two unit-interval scalars stays below both factors.
proof fn lemma_mul_unit_pair(t: int, ch: int)
    requires
        0 <= t <= FX_ONE as int,
        0 <= ch <= FX_ONE as int,
    ensures
        0 <= fx_mul_spec(t, ch) <= t,
        fx_mul_spec(t, ch) <= ch,
{
    lemma_mul_spec_tint(t, ch);
    assert(t * ch <= t * 65536) by (nonlinear_arith)
        requires
            0 <= t,
            ch <= 65536,
    ;
    lemma_tdiv_ordered(t * ch, t * 65536, 65536);
    vstd::arithmetic::div_mod::lemma_div_by_multiple(t, 65536);
    assert(tdiv(t * 65536, 65536) == t);
}

/// The color of a ray that hits nothing.
pub fn background_color(ray: &Ray) -> (c: Vec3)
    requires
        ray_wf(*ray),
    ensures
        c == background(*ray),
        vec_wf(c),
{
    let unit: Vec3 = ray.direction().normalize();
    let uy: i64 = if unit.y > FX_ONE {
        FX_ONE
    } else if unit.y < -FX_ONE {
        -FX_ONE
    } else {
        unit.y
    };
    let t: i64 = fx_mul(32768, crate::fixed::fx_add(uy, FX_ONE));
    let white_v: Vec3 = Vec3::new(FX_ONE, FX_ONE, FX_ONE);
    let sky_v: Vec3 = Vec3::new(32768, 45875, FX_ONE);
    white_v.scale(crate::fixed::fx_sub(FX_ONE, t)).plus(sky_v.scale(t))
}

/// Every attenuation a scene can apply lies inside the unit color cube.
pub open spec fn world_tints_bounded(world: Seq<Sphere>) -> bool {
    forall|i: int|
        0 <= i < world.len() ==> color_in_unit(attenuation_of(#[trigger] world[i].material))
}

/// The recursion budget still available at `depth`.
pub open spec fn depth_fuel(depth: int) -> nat {
    if depth < MAX_DEPTH {
        (MAX_DEPTH - depth) as nat
    } else {
        0
    }
}

/// The integrator's outcome relation: the radiance of a ray that escapes is
/// the background gradient; at a hit it is black (absorption, or an
/// exhausted budget), or the hit material's attenuation times a radiance of
/// some outgoing ray that material's scattering rule admits, one budget
/// step down.
pub open spec fn radiance_rel(world: Seq<Sphere>, r: Ray, fuel: nat, c: Vec3) -> bool
    decreases fuel,
{
    match scan_hit(world, r, HIT_EPS as int, crate::fixed::FX_MAX as int) {
        None => c == background(r),
        Some(rec) => c == black() || (fuel > 0 && exists|sc: Ray, rest: Vec3|
            scatter_rel(rec.material, r, rec, sc) && radiance_rel(
                world,
                sc,
                (fuel - 1) as nat,
                rest,
            ) && c == v_mul_elem(attenuation_of(rec.material), rest)),
    }
}

/// The recursive integrator. A ray that escapes the world yields the
/// background gradient, whatever the depth; a hit past the depth cutoff
/// yields black; otherwise the hit material scatters, and the result is the
/// attenuation times the radiance of the scattered ray, or black when the
/// ray is absorbed. With every attenuation of the scene inside the unit
/// color cube, the returned radiance stays inside it too.
pub fn trace_radiance(ray: &Ray, world: &Vec<Sphere>, depth: i32, rng: &mut rand::rngs::StdRng)
    -> (c: Vec3)
    requires
        ray_wf(*ray),
        forall|i: int| 0 <= i < world@.len() ==> sphere_wf(#[trigger] world@[i]),
    ensures
        vec_wf(c),
        radiance_rel(world@, *ray, depth_fuel(depth as int), c),
        world_tints_bounded(world@) ==> color_in_unit(c),
        match scan_hit(world@, *ray, HIT_EPS as int, crate::fixed::FX_MAX as int) {
            None => c == background(*ray),
            Some(rec) => if depth >= MAX_DEPTH {
                c == black()
            } else {
                &&& c == black() || exists|rest: Vec3|
                    vec_wf(rest) && c == v_mul_elem(attenuation_of(rec.material), rest)
                &&& rec.material is Dielectric ==> exists|rest: Vec3|
                    vec_wf(rest) && c == v_mul_elem(white(), rest)
            },
        },
    decreases MAX_DEPTH - depth,
{
    if let Some(record) = closest_hit(ray, world, HIT_EPS, crate::fixed::FX_MAX) {
        if depth < MAX_DEPTH {
            if let Some((attenuation, scattered)) = record.material.scatter(ray, &record, rng) {
                let rest: Vec3 = trace_radiance(&scattered, world, depth + 1, rng);
                let c: Vec3 = attenuation.mul_elem(rest);
                proof {
                    let fuel = depth_fuel(depth as int);
                    assert(depth_fuel(depth + 1) == (fuel - 1) as nat);
                    assert(scatter_rel(record.material, *ray, record, scattered)
                        && radiance_rel(world@, scattered, (fuel - 1) as nat, rest) && c
                        == v_mul_elem(attenuation_of(record.material), rest));
                    assert(radiance_rel(world@, *ray, fuel, c));
                    if world_tints_bounded(world@) {
                        lemma_scan_hit_minimal(
                            world@,
                            *ray,
                            HIT_EPS as int,
                            crate::fixed::FX_MAX as int,
                        );
                        let i = choose|i: int|
                            0 <= i < world@.len() && Some(record.t as int) == crate::sphere::hit_t(
                                world@[i],
                                *ray,
                                HIT_EPS as int,
                                crate::fixed::FX_MAX as int,
                            ) && record == crate::sphere::hit_record_for(
                                world@[i],
                                *ray,
                                record.t as int,
                            );
                        assert(color_in_unit(attenuation_of(world@[i].material)));
                        lemma_tint_bounds(attenuation, rest);
                    }
                }
                c
            } else {
                Vec3::zero()
            }
        } else {
            Vec3::zero()
        }
    } else {
        let c: Vec3 = background_color(ray);
        proof {
            lemma_background_range(*ray);
        }
        c
    }
}

/// What gamma-2 encoding yields for one channel: the square root of the
/// averaged radiance, scaled to the 0..=255 output range (by 255.99, as the
/// final quantization truncates).
pub open spec fn encode_channel_spec(c: int) -> int {
    tdiv(fx_mul_spec(fx_sqrt_spec(c), 16776560), FX_ONE as int)
}

/// Gamma-encode one channel of an averaged radiance value to the integer
/// output range (radiance above one encodes above 255: quantization
/// truncates but never clamps).
pub fn encode_channel(c: i64) -> (q: i64)
    requires
        in_fx(c as int),
    ensures
        q as int == encode_channel_spec(c as int),
        0 <= q,
{
    let s: i64 = fx_sqrt(c);
    proof {
        assert((s as int) * 16776560 >= 0) by (nonlinear_arith)
            requires
                s >= 0,
        ;
        lemma_tdiv_bounds((s as int) * 16776560, FX_ONE as int);
    }
    let m: i64 = fx_mul(s, 16776560);
    proof {
        lemma_tdiv_bounds(m as int, FX_ONE as int);
    }
    fx_div_int(m, FX_ONE)
}

/// Law: gamma encoding (square root) then decoding (squaring) returns the
/// original channel up to one fixed-point unit in each direction.
pub proof fn lemma_gamma_round_trip(x: int)
    requires
        0 <= x <= FX_ONE as int,
    ensures
        x - 1 <= fx_mul_spec(fx_sqrt_spec(x), fx_sqrt_spec(x)) <= x + 1,
{
    let scale = FX_ONE as int;
    if x == 0 {
        assert(0int * 0 == 0) by (nonlinear_arith);
        assert(fx_mul_spec(0, 0) == 0);
    } else {
        let n = (4 * x * scale) as nat;
        lemma_isqrt_spec_bounds(n);
        let m = crate::fixed::isqrt_spec(n) as int;
        let s = (m + 1) / 2;
        assert(fx_sqrt_spec(x) == s);
        assert(m >= 0);
        assert(m == 2 * s || m == 2 * s - 1);
        assert(m * m <= 4 * x * scale);
        assert(4 * x * scale < (m + 1) * (m + 1));
        assert(s * s - s <= x * scale && x * scale <= s * s + s) by (nonlinear_arith)
            requires
                m == 2 * s || m == 2 * s - 1,
                m * m <= 4 * x * scale,
                4 * x * scale < (m + 1) * (m + 1),
                m >= 0,
                s >= 0,
        ;
        assert(m <= 2 * scale) by (nonlinear_arith)
            requires
                m * m <= 4 * x * scale,
                x <= scale,
                scale == 65536,
                m >= 0,
        ;
        assert(s <= scale);
        assert(s * s >= 0) by (nonlinear_arith);
        assert(tdiv(s * s, scale) == (s * s) / scale);
        lemma_div_is_ordered(x * scale - s, s * s, scale);
        lemma_div_is_ordered(s * s, x * scale + s, scale);
        lemma_div_multiples_vanish(x - 1, scale);
        lemma_div_multiples_vanish(x + 1, scale);
        lemma_div_is_ordered(scale * (x - 1), x * scale - s, scale);
        lemma_div_is_ordered(x * scale + s, scale * (x + 1), scale);
        assert(scale * (x - 1) <= x * scale - s && x * scale + s <= scale * (x + 1))
            by (nonlinear_arith)
            requires
                0 <= s <= scale,
        ;
        assert(x - 1 <= (s * s) / scale <= x + 1);
    }
}

/// Law: the gamma round trip over the whole radiance range: squaring the
/// rounded square root returns the value to within the root's integer part
/// plus one unit (the relative error of the rounded root).
pub proof fn lemma_gamma_round_trip_general(x: int)
    requires
        0 <= x <= crate::fixed::FX_MAX as int,
    ensures
        x - tdiv(fx_sqrt_spec(x), FX_ONE as int) - 1 <= fx_mul_spec(fx_sqrt_spec(x), fx_sqrt_spec(x)),
        fx_mul_spec(fx_sqrt_spec(x), fx_sqrt_spec(x)) <= x + tdiv(fx_sqrt_spec(x), FX_ONE as int) + 1,
{
    let scale = FX_ONE as int;
    if x == 0 {
        assert(0int * 0 == 0) by (nonlinear_arith);
        assert(fx_mul_spec(0, 0) == 0);
    } else {
        let n = (4 * x * scale) as nat;
        lemma_isqrt_spec_bounds(n);
        let m = crate::fixed::isqrt_spec(n) as int;
        let s = (m + 1) / 2;
        assert(fx_sqrt_spec(x) == s);
        assert(m >= 0);
        assert(m == 2 * s || m == 2 * s - 1);
        assert(s * s - s <= x * scale && x * scale <= s * s + s) by (nonlinear_arith)
            requires
                m == 2 * s || m == 2 * s - 1,
                m * m <= 4 * x * scale,
                4 * x * scale < (m + 1) * (m + 1),
                m >= 0,
                s >= 0,
        ;
        let q = tdiv(s, scale);
        assert(q == s / scale);
        vstd::arithmetic::div_mod::lemma_fundamental_div_mod(s, scale);
        vstd::arithmetic::div_mod::lemma_mod_bound(s, scale);
        assert(scale * q <= s < scale * (q + 1)) by (nonlinear_arith)
            requires
                s == scale * (s / scale) + s % scale,
                0 <= s % scale < scale,
                q == s / scale,
        ;
        assert(s * s >= 0) by (nonlinear_arith);
        assert(tdiv(s * s, scale) == (s * s) / scale);
        lemma_div_is_ordered(scale * (x - q - 1), x * scale - s, scale);
        lemma_div_is_ordered(x * scale - s, s * s, scale);
        lemma_div_is_ordered(s * s, x * scale + s, scale);
        lemma_div_is_ordered(x * scale + s, scale * (x + q + 1), scale);
        lemma_div_multiples_vanish(x - q - 1, scale);
        lemma_div_multiples_vanish(x + q + 1, scale);
        assert(scale * (x - q - 1) <= x * scale - s && x * scale + s <= scale * (x + q + 1))
            by (nonlinear_arith)
            requires
                scale * q <= s < scale * (q + 1),
                scale == 65536,
        ;
        assert(x - q - 1 <= (s * s) / scale <= x + q + 1);
        assert(x - q - 1 <= clip((s * s) / scale) <= x + q + 1) by {
            assert(x - q - 1 <= crate::fixed::FX_MAX as int);
            assert((s * s) / scale >= 0) by {
                vstd::arithmetic::div_mod::lemma_div_pos_is_pos(s * s, scale);
            }
        }
    }
}

/// One output pixel: its column `i`, its image row `j`, and the averaged
/// (still linear-space) color.
#[derive(Clone, Copy, PartialEq, Eq, Structural, Debug)]
pub struct Pixel {
    pub i: usize,
    pub j: usize,
    pub color: Vec3,
}

/// The running sum of sample colors, in sampling order.
pub open spec fn color_sum(samples: Seq<Vec3>) -> Vec3
    decreases samples.len(),
{
    if samples.len() == 0 {
        Vec3 { x: 0i64, y: 0i64, z: 0i64 }
    } else {
        v_add(color_sum(samples.drop_last()), samples.last())
    }
}

/// The average of a sample sum: each channel divided by the sample count,
/// truncating.
pub open spec fn color_avg(sum: Vec3, ns: int) -> Vec3 {
    Vec3 {
        x: tdiv(sum.x as int, ns) as i64,
        y: tdiv(sum.y as int, ns) as i64,
        z: tdiv(sum.z as int, ns) as i64,
    }
}

/// One admissible sample of pixel `(i, j)`: jitters in `[0, 1)` for both
/// image-plane coordinates and a lens draw in the unit disk make the camera
/// ray, and `s` is a radiance the integrator's relation admits for it with
/// a fresh depth budget.
pub open spec fn pixel_sample_rel(
    cam: Camera,
    world: Seq<Sphere>,
    i: int,
    j: int,
    nx: int,
    ny: int,
    s: Vec3,
) -> bool {
    exists|ju: int, jv: int, rd: Vec3|
        0 <= ju < FX_ONE && 0 <= jv < FX_ONE && in_unit_disk(rd) && vec_wf(s) && #[trigger] radiance_rel(
            world,
            cam_ray(
                cam,
                tdiv(i * (FX_ONE as int) + ju, nx),
                tdiv(j * (FX_ONE as int) + jv, ny),
                rd,
            ),
            depth_fuel(0),
            s,
        )
}

/// What a pixel's color is: `ns` admissible samples, summed (saturating)
/// and averaged (truncating) channel by channel.
pub open spec fn pixel_color_rel(
    cam: Camera,
    world: Seq<Sphere>,
    i: int,
    j: int,
    nx: int,
    ny: int,
    ns: int,
    c: Vec3,
) -> bool {
    exists|samples: Seq<Vec3>|
        samples.len() == ns && (forall|k: int|
            0 <= k < samples.len() ==> pixel_sample_rel(
                cam,
                world,
                i,
                j,
                nx,
                ny,
                #[trigger] samples[k],
            )) && c == color_avg(color_sum(samples), ns)
}

/// Average `ns` jittered camera rays through pixel `(i, j)`: each sample
/// aims at `((i + xi) / nx, (j + xi) / ny)` with `xi` drawn from `[0, 1)`.
#[verifier::rlimit(50)]
pub fn render_pixel(
    cam: &Camera,
    world: &Vec<Sphere>,
    i: usize,
    j: usize,
    nx: usize,
    ny: usize,
    ns: usize,
    rng: &mut rand::rngs::StdRng,
) -> (c: Vec3)
    requires
        camera_wf(*cam),
        forall|k: int| 0 <= k < world@.len() ==> sphere_wf(#[trigger] world@[k]),
        0 < nx <= 16384,
        0 < ny <= 16384,
        i < nx,
        j < ny,
        0 < ns <= 1048576,
    ensures
        vec_wf(c),
        pixel_color_rel(*cam, world@, i as int, j as int, nx as int, ny as int, ns as int, c),
{
    let mut col: Vec3 = Vec3::zero();
    let mut k: usize = 0;
    let ghost mut samples: Seq<Vec3> = Seq::empty();
    while k < ns
        invariant
            vec_wf(col),
            camera_wf(*cam),
            forall|m: int| 0 <= m < world@.len() ==> sphere_wf(#[trigger] world@[m]),
            0 < nx <= 16384,
            0 < ny <= 16384,
            i < nx,
            j < ny,
            0 < ns <= 1048576,
            k <= ns,
            samples.len() == k,
            col == color_sum(samples),
            forall|m: int|
                0 <= m < samples.len() ==> pixel_sample_rel(
                    *cam,
                    world@,
                    i as int,
                    j as int,
                    nx as int,
                    ny as int,
                    #[trigger] samples[m],
                ),
        decreases ns - k,
    {
        let ju: i64 = crate::rng::rand_unit(rng);
        let jv: i64 = crate::rng::rand_unit(rng);
        let u: i64 = fx_div_int((i as i64) * FX_ONE + ju, nx as i64);
        let v: i64 = fx_div_int((j as i64) * FX_ONE + jv, ny as i64);
        let ray: Ray = cam.get_ray(u, v, rng);
        let sample: Vec3 = trace_radiance(&ray, world, 0, rng);
        col = col.plus(sample);
        proof {
            let rd = choose|rd: Vec3|
                in_unit_disk(rd) && ray == cam_ray(*cam, u as int, v as int, rd);
            assert(u as int == tdiv(i as int * (FX_ONE as int) + ju, nx as int));
            assert(v as int == tdiv(j as int * (FX_ONE as int) + jv, ny as int));
            assert(0 <= ju < FX_ONE && 0 <= jv < FX_ONE && in_unit_disk(rd) && vec_wf(sample)
                && radiance_rel(
                world@,
                cam_ray(
                    *cam,
                    tdiv(i as int * (FX_ONE as int) + ju, nx as int),
                    tdiv(j as int * (FX_ONE as int) + jv, ny as int),
                    rd,
                ),
                depth_fuel(0),
                sample,
            ));
            assert(pixel_sample_rel(
                *cam,
                world@,
                i as int,
                j as int,
                nx as int,
                ny as int,
                sample,
            ));
            let prev = samples;
            samples = samples.push(sample);
            assert(samples.drop_last() =~= prev);
            assert(samples.last() == sample);
            assert(col == color_sum(samples));
        }
        k = k + 1;
    }
    let c: Vec3 = Vec3 {
        x: fx_div_int(col.x, ns as i64),
        y: fx_div_int(col.y, ns as i64),
        z: fx_div_int(col.z, ns as i64),
    };
    proof {
        assert(samples.len() == ns && (forall|m: int|
            0 <= m < samples.len() ==> pixel_sample_rel(
                *cam,
                world@,
                i as int,
                j as int,
                nx as int,
                ny as int,
                #[trigger] samples[m],
            )) && c == color_avg(color_sum(samples), ns as int));
    }
    c
}

/// Render the whole image. Pixels come out in emission order: image rows
/// from `ny - 1` down to `0`, columns ascending, which the contract pins
/// for every index of the result.
pub fn render(
    cam: &Camera,
    world: &Vec<Sphere>,
    nx: usize,
    ny: usize,
    ns: usize,
    rng: &mut rand::rngs::StdRng,
) -> (pixels: Vec<Pixel>)
    requires
        camera_wf(*cam),
        forall|k: int| 0 <= k < world@.len() ==> sphere_wf(#[trigger] world@[k]),
        0 < nx <= 16384,
        0 < ny <= 16384,
        0 < ns <= 1048576,
    ensures
        pixels@.len() == nx * ny,
        forall|k: int|
            0 <= k < pixels@.len() ==> {
                &&& (#[trigger] pixels@[k]).i == k % (nx as int)
                &&& pixels@[k].j == ny - 1 - k / (nx as int)
                &&& vec_wf(pixels@[k].color)
                &&& pixel_color_rel(
                    *cam,
                    world@,
                    pixels@[k].i as int,
                    pixels@[k].j as int,
                    nx as int,
                    ny as int,
                    ns as int,
                    pixels@[k].color,
                )
            },
{
    let mut pixels: Vec<Pixel> = Vec::new();
    let mut jj: usize = 0;
    while jj < ny
        invariant
            camera_wf(*cam),
            forall|m: int| 0 <= m < world@.len() ==> sphere_wf(#[trigger] world@[m]),
            0 < nx <= 16384,
            0 < ny <= 16384,
            0 < ns <= 1048576,
            jj <= ny,
            pixels@.len() == jj * nx,
            forall|k: int|
                0 <= k < pixels@.len() ==> {
                    &&& (#[trigger] pixels@[k]).i == k % (nx as int)
                    &&& pixels@[k].j == ny - 1 - k / (nx as int)
                    &&& vec_wf(pixels@[k].color)
                    &&& pixel_color_rel(
                        *cam,
                        world@,
                        pixels@[k].i as int,
                        pixels@[k].j as int,
                        nx as int,
                        ny as int,
                        ns as int,
                        pixels@[k].color,
                    )
                },
        decreases ny - jj,
    {
        let j: usize = ny - 1 - jj;
        let mut i: usize = 0;
        while i < nx
            invariant
                camera_wf(*cam),
                forall|m: int| 0 <= m < world@.len() ==> sphere_wf(#[trigger] world@[m]),
                0 < nx <= 16384,
                0 < ny <= 16384,
                0 < ns <= 1048576,
                jj < ny,
                j == ny - 1 - jj,
                i <= nx,
                pixels@.len() == jj * nx + i,
                forall|k: int|
                    0 <= k < pixels@.len() ==> {
                        &&& (#[trigger] pixels@[k]).i == k % (nx as int)
                        &&& pixels@[k].j == ny - 1 - k / (nx as int)
                        &&& vec_wf(pixels@[k].color)
                        &&& pixel_color_rel(
                            *cam,
                            world@,
                            pixels@[k].i as int,
                            pixels@[k].j as int,
                            nx as int,
                            ny as int,
                            ns as int,
                            pixels@[k].color,
                        )
                    },
            decreases nx - i,
        {
            let color: Vec3 = render_pixel(cam, world, i, j, nx, ny, ns, rng);
            pixels.push(Pixel { i, j, color });
            proof {
                let k = pixels@.len() - 1;
                lemma_fundamental_div_mod_converse(k, nx as int, jj as int, i as int);
            }
            i = i + 1;
        }
        proof {
            assert((jj + 1) * nx == jj * nx + nx) by (nonlinear_arith);
        }
        jj = jj + 1;
    }
    proof {
        assert(ny as int * nx as int == nx as int * ny as int) by (nonlinear_arith);
    }
    pixels
}

} // verus!
