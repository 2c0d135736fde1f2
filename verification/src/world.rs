//! The world: an ordered collection of spheres, scanned linearly for the
//! closest intersection with a narrowing parameter interval.

use vstd::prelude::*;
use crate::fixed::in_fx;
use crate::ray::ray_wf;
use crate::ray::Ray;
use crate::sphere::hit_record_for;
use crate::sphere::hit_record_wf;
use crate::sphere::hit_t;
use crate::sphere::lemma_roots_ordered;
use crate::sphere::sphere_wf;
use crate::sphere::HitRecord;
use crate::sphere::Sphere;

verus! {

/// What the narrowing scan computes: each object in turn is queried with the
/// interval `(t_min, closest-so-far)`, so a later object displaces the
/// current record only by being strictly nearer.
pub open spec fn scan_hit(world: Seq<Sphere>, r: Ray, t_min: int, t_max: int) -> Option<
    HitRecord,
>
    decreases world.len(),
{
    if world.len() == 0 {
        None
    } else {
        let prev = scan_hit(world.drop_last(), r, t_min, t_max);
        let bound = match prev {
            Some(rec) => rec.t as int,
            None => t_max,
        };
        match hit_t(world.last(), r, t_min, bound) {
            Some(t) => Some(hit_record_for(world.last(), r, t)),
            None => prev,
        }
    }
}

/// An intersection parameter reported for one sphere always lies strictly
/// inside the queried interval.
pub proof fn lemma_hit_t_in_range(s: Sphere, r: Ray, t_min: int, t_max: int)
    ensures
        hit_t(s, r, t_min, t_max) matches Some(t) ==> t_min < t < t_max,
{
}

/// Narrowing the upper end of the interval keeps an intersection exactly
/// when it lies below the new end, and reports the same parameter.
pub proof fn lemma_hit_t_narrow(s: Sphere, r: Ray, t_min: int, c: int, t_max: int)
    requires
        c <= t_max,
    ensures
        hit_t(s, r, t_min, c) == match hit_t(s, r, t_min, t_max) {
            Some(t) => if t < c {
                Some(t)
            } else {
                None
            },
            None => None,
        },
{
    lemma_roots_ordered(s, r);
}

/// Law: the narrowing scan yields the intersection with the smallest
/// parameter in `(t_min, t_max)` over the whole collection, so the result
/// does not depend on the order of the objects; and it yields nothing only
/// when no object intersects.
pub proof fn lemma_scan_hit_minimal(world: Seq<Sphere>, r: Ray, t_min: int, t_max: int)
    ensures
        scan_hit(world, r, t_min, t_max) is None ==> forall|i: int|
            0 <= i < world.len() ==> hit_t(world[i], r, t_min, t_max) is None,
        scan_hit(world, r, t_min, t_max) matches Some(rec) ==> exists|i: int|
            0 <= i < world.len() && Some(rec.t as int) == hit_t(world[i], r, t_min, t_max)
                && rec == hit_record_for(world[i], r, rec.t as int),
        scan_hit(world, r, t_min, t_max) matches Some(rec) ==> forall|i: int, t: int|
            0 <= i < world.len() && hit_t(world[i], r, t_min, t_max) == Some(t) ==> rec.t <= t,
        scan_hit(world, r, t_min, t_max) matches Some(rec) ==> t_min < rec.t < t_max,
    decreases world.len(),
{
    if world.len() > 0 {
        let front = world.drop_last();
        let last = world.last();
        lemma_scan_hit_minimal(front, r, t_min, t_max);
        let prev = scan_hit(front, r, t_min, t_max);
        let bound = match prev {
            Some(rec) => rec.t as int,
            None => t_max,
        };
        lemma_hit_t_narrow(last, r, t_min, bound, t_max);
        lemma_hit_t_in_range(last, r, t_min, bound);
        assert(forall|i: int| 0 <= i < front.len() ==> world[i] == front[i]);
        assert(world[world.len() - 1] == last);
        match hit_t(last, r, t_min, bound) {
            Some(t) => {
                let rec = hit_record_for(last, r, t);
                assert(Some(rec.t as int) == hit_t(last, r, t_min, t_max));
            },
            None => {
            },
        }
    }
}

/// Law: reordering the collection never changes whether the scan hits, nor
/// the intersection parameter it reports: two worlds holding the same
/// spheres (as a multiset) miss together and agree on the parameter.
pub proof fn lemma_scan_hit_permutation(
    world1: Seq<Sphere>,
    world2: Seq<Sphere>,
    r: Ray,
    t_min: int,
    t_max: int,
)
    requires
        world1.to_multiset() == world2.to_multiset(),
    ensures
        scan_hit(world1, r, t_min, t_max) is Some == scan_hit(world2, r, t_min, t_max) is Some,
        match (scan_hit(world1, r, t_min, t_max), scan_hit(world2, r, t_min, t_max)) {
            (Some(rec1), Some(rec2)) => rec1.t == rec2.t,
            _ => true,
        },
{
    world1.to_multiset_ensures();
    world2.to_multiset_ensures();
    lemma_scan_hit_minimal(world1, r, t_min, t_max);
    lemma_scan_hit_minimal(world2, r, t_min, t_max);
    match scan_hit(world1, r, t_min, t_max) {
        Some(rec1) => {
            let i1 = choose|i: int|
                0 <= i < world1.len() && Some(rec1.t as int) == hit_t(world1[i], r, t_min, t_max)
                    && rec1 == hit_record_for(world1[i], r, rec1.t as int);
            assert(world1.contains(world1[i1]));
            assert(world1.to_multiset().count(world1[i1]) > 0);
            assert(world2.to_multiset().count(world1[i1]) > 0);
            assert(world2.contains(world1[i1]));
            let i2 = choose|i: int| 0 <= i < world2.len() && world2[i] == world1[i1];
            assert(hit_t(world2[i2], r, t_min, t_max) == Some(rec1.t as int));
        },
        None => {
        },
    }
    match scan_hit(world2, r, t_min, t_max) {
        Some(rec2) => {
            let i2 = choose|i: int|
                0 <= i < world2.len() && Some(rec2.t as int) == hit_t(world2[i], r, t_min, t_max)
                    && rec2 == hit_record_for(world2[i], r, rec2.t as int);
            assert(world2.contains(world2[i2]));
            assert(world2.to_multiset().count(world2[i2]) > 0);
            assert(world1.to_multiset().count(world2[i2]) > 0);
            assert(world1.contains(world2[i2]));
            let i1 = choose|i: int| 0 <= i < world1.len() && world1[i] == world2[i2];
            assert(hit_t(world1[i1], r, t_min, t_max) == Some(rec2.t as int));
        },
        None => {
        },
    }
}

/// Law: with no two distinct spheres intersecting at the same parameter,
/// reordering the collection leaves the scan's whole result unchanged,
/// record and all.
pub proof fn lemma_scan_hit_permutation_unique(
    world1: Seq<Sphere>,
    world2: Seq<Sphere>,
    r: Ray,
    t_min: int,
    t_max: int,
)
    requires
        world1.to_multiset() == world2.to_multiset(),
        forall|i: int, j: int|
            0 <= i < world1.len() && 0 <= j < world1.len() && #[trigger] hit_t(
                world1[i],
                r,
                t_min,
                t_max,
            ) is Some && hit_t(world1[i], r, t_min, t_max) == #[trigger] hit_t(
                world1[j],
                r,
                t_min,
                t_max,
            ) ==> world1[i] == world1[j],
    ensures
        scan_hit(world1, r, t_min, t_max) == scan_hit(world2, r, t_min, t_max),
{
    world1.to_multiset_ensures();
    world2.to_multiset_ensures();
    lemma_scan_hit_permutation(world1, world2, r, t_min, t_max);
    lemma_scan_hit_minimal(world1, r, t_min, t_max);
    lemma_scan_hit_minimal(world2, r, t_min, t_max);
    match (scan_hit(world1, r, t_min, t_max), scan_hit(world2, r, t_min, t_max)) {
        (Some(rec1), Some(rec2)) => {
            let i1 = choose|i: int|
                0 <= i < world1.len() && Some(rec1.t as int) == hit_t(world1[i], r, t_min, t_max)
                    && rec1 == hit_record_for(world1[i], r, rec1.t as int);
            let i2 = choose|i: int|
                0 <= i < world2.len() && Some(rec2.t as int) == hit_t(world2[i], r, t_min, t_max)
                    && rec2 == hit_record_for(world2[i], r, rec2.t as int);
            assert(world2.contains(world2[i2]));
            assert(world2.to_multiset().count(world2[i2]) > 0);
            assert(world1.to_multiset().count(world2[i2]) > 0);
            assert(world1.contains(world2[i2]));
            let j1 = choose|i: int| 0 <= i < world1.len() && world1[i] == world2[i2];
            assert(hit_t(world1[j1], r, t_min, t_max) == Some(rec2.t as int));
            assert(world1[i1] == world1[j1]);
            assert(rec1 == rec2);
        },
        _ => {
        },
    }
}

/// Scan all objects for the intersection nearest to the ray origin inside
/// the open interval `(t_min, t_max)`.
pub fn closest_hit(ray: &Ray, world: &Vec<Sphere>, t_min: i64, t_max: i64) -> (res: Option<
    HitRecord,
>)
    requires
        ray_wf(*ray),
        forall|i: int| 0 <= i < world@.len() ==> sphere_wf(#[trigger] world@[i]),
        in_fx(t_min as int),
        in_fx(t_max as int),
    ensures
        res == scan_hit(world@, *ray, t_min as int, t_max as int),
        res matches Some(rec) ==> hit_record_wf(rec),
        res is None ==> forall|i: int|
            0 <= i < world@.len() ==> hit_t(world@[i], *ray, t_min as int, t_max as int) is None,
        res matches Some(rec) ==> forall|i: int, t: int|
            0 <= i < world@.len() && hit_t(world@[i], *ray, t_min as int, t_max as int) == Some(t)
                ==> rec.t <= t,
{
    proof {
        lemma_scan_hit_minimal(world@, *ray, t_min as int, t_max as int);
    }
    let mut hit: Option<HitRecord> = None;
    let mut closest_so_far: i64 = t_max;
    let mut i: usize = 0;
    while i < world.len()
        invariant
            0 <= i <= world@.len(),
            ray_wf(*ray),
            forall|k: int| 0 <= k < world@.len() ==> sphere_wf(#[trigger] world@[k]),
            in_fx(t_min as int),
            in_fx(t_max as int),
            in_fx(closest_so_far as int),
            hit == scan_hit(world@.take(i as int), *ray, t_min as int, t_max as int),
            match hit {
                Some(rec) => closest_so_far == rec.t && hit_record_wf(rec),
                None => closest_so_far == t_max,
            },
        decreases world@.len() - i,
    {
        if let Some(record) = world[i].hit(ray, t_min, closest_so_far) {
            closest_so_far = record.t;
            hit = Some(record);
        }
        proof {
            assert(world@.take(i + 1).drop_last() =~= world@.take(i as int));
            assert(world@.take(i + 1).last() == world@[i as int]);
        }
        i = i + 1;
    }
    proof {
        assert(world@.take(world@.len() as int) =~= world@);
    }
    hit
}

} // verus!
