//! The collision detector and jitter pass.
//!
//! Map markers rendered at identical coordinates are indistinguishable, so
//! after resolution the table of one entity kind is swept once: two entities
//! collide exactly when their coordinate pairs are bit-identical (merely
//! close pairs do not collide).  The first entity found with a given pair
//! owns it and is left untouched; every later entity with the same pair is
//! queued.  The queued entities then get fresh, randomly perturbed pairs —
//! computed by the caller, since the noise is drawn outside this crate — and
//! `apply_jitter` installs them without touching anything else.
//!
//! The table is swept in its own order, front to back, so which entity owns a
//! pair is deterministic.

use vstd::prelude::*;

use crate::entities::HasLocation;
use crate::geo::GeoPoint;

verus! {

/// Whether the entity at `j` collides with an earlier one: it has a location
/// and some earlier entity has the bit-identical pair.
pub open spec fn is_dup_at<T: HasLocation>(s: Seq<T>, j: int) -> bool {
    s[j].loc() is Some && exists|k: int| 0 <= k < j && s[k].loc() == s[j].loc()
}

fn contains_point(seen: &Vec<GeoPoint>, p: GeoPoint) -> (r: bool)
    ensures
        r == seen@.contains(p),
{
    let n = seen.len();
    let mut i: usize = 0;
    while i < n
        invariant
            n == seen@.len(),
            i <= n,
            forall|k: int| 0 <= k < i ==> seen@[k] != p,
        decreases n - i,
    {
        if seen[i] == p {
            return true;
        }
        i = i + 1;
    }
    false
}

/// Sweep the table for coordinate collisions and return the queue of entities
/// to perturb: exactly those that share a bit-identical pair with an earlier
/// entity, in table order.  Entities without a location are skipped entirely.
pub fn dedup_plan<T: HasLocation>(objects: &Vec<T>) -> (plan: Vec<usize>)
    ensures
        forall|m: int|
            0 <= m < plan@.len() ==> plan@[m] < objects@.len() && is_dup_at(
                objects@,
                plan@[m] as int,
            ),
        forall|j: int| 0 <= j < objects@.len() && is_dup_at(objects@, j) ==> plan@.contains(
            j as usize,
        ),
        forall|m1: int, m2: int| 0 <= m1 < m2 < plan@.len() ==> plan@[m1] < plan@[m2],
{
    let n = objects.len();
    let mut plan: Vec<usize> = Vec::new();
    let mut seen: Vec<GeoPoint> = Vec::new();
    let mut i: usize = 0;
    while i < n
        invariant
            n == objects@.len(),
            i <= n,
            forall|q: GeoPoint| #[trigger]
                seen@.contains(q) <==> exists|k: int|
                    0 <= k < i && #[trigger] objects@[k].loc() == Some(q),
            forall|m: int|
                0 <= m < plan@.len() ==> plan@[m] < i && is_dup_at(objects@, plan@[m] as int),
            forall|j: int| 0 <= j < i && is_dup_at(objects@, j) ==> plan@.contains(j as usize),
            forall|m1: int, m2: int| 0 <= m1 < m2 < plan@.len() ==> plan@[m1] < plan@[m2],
        decreases n - i,
    {
        let ghost plan_prev = plan@;
        let ghost seen_prev = seen@;
        match objects[i].location() {
            Some(p) => {
                if contains_point(&seen, p) {
                    proof {
                        assert(is_dup_at(objects@, i as int)) by {
                            let m = choose|m: int|
                                0 <= m < seen_prev.len() && seen_prev[m] == p;
                            assert(seen_prev.contains(p));
                            let k = choose|k: int|
                                0 <= k < i && #[trigger] objects@[k].loc() == Some(p);
                            assert(objects@[k].loc() == objects@[i as int].loc());
                        }
                    }
                    plan.push(i);
                    proof {
                        assert forall|j: int|
                            0 <= j < i + 1 && is_dup_at(objects@, j) implies plan@.contains(
                            j as usize,
                        ) by {
                            if j < i {
                                assert(plan_prev.contains(j as usize));
                                let m = choose|m: int|
                                    0 <= m < plan_prev.len() && plan_prev[m] == j as usize;
                                assert(plan@[m] == j as usize);
                            } else {
                                assert(plan@[plan@.len() - 1] == i as usize);
                            }
                        }
                    }
                } else {
                    seen.push(p);
                    proof {
                        assert forall|q: GeoPoint| #[trigger] seen@.contains(q) implies exists|
                            k: int,
                        | 0 <= k < i + 1 && #[trigger] objects@[k].loc() == Some(q) by {
                            let m = choose|m: int| 0 <= m < seen@.len() && seen@[m] == q;
                            if m < seen_prev.len() {
                                assert(seen_prev.contains(q));
                            } else {
                                assert(q == p);
                                assert(objects@[i as int].loc() == Some(q));
                            }
                        }
                        assert forall|q: GeoPoint|
                            (exists|k: int|
                                0 <= k < i + 1 && #[trigger] objects@[k].loc() == Some(
                                    q,
                                )) implies #[trigger] seen@.contains(q) by {
                            let k = choose|k: int|
                                0 <= k < i + 1 && #[trigger] objects@[k].loc() == Some(q);
                            if k < i {
                                assert(seen_prev.contains(q));
                                let m = choose|m: int|
                                    0 <= m < seen_prev.len() && seen_prev[m] == q;
                                assert(seen@[m] == q);
                            } else {
                                assert(q == p);
                                assert(seen@[seen@.len() - 1] == p);
                            }
                        }
                        assert(!is_dup_at(objects@, i as int)) by {
                            if exists|k: int|
                                0 <= k < i && objects@[k].loc() == objects@[i as int].loc() {
                                let k = choose|k: int|
                                    0 <= k < i && objects@[k].loc() == objects@[i as int].loc();
                                assert(objects@[k].loc() == Some(p));
                                assert(seen_prev.contains(p));
                            }
                        }
                    }
                }
            },
            None => {
                proof {
                    assert(!is_dup_at(objects@, i as int));
                }
            },
        }
        i = i + 1;
    }
    plan
}

/// Install the perturbed pairs on the queued entities, one per queue entry,
/// leaving every other entity — and everything but the coordinates of the
/// queued ones — exactly as it was.
pub fn apply_jitter<T: HasLocation>(objects: &mut Vec<T>, plan: &Vec<usize>, points: &Vec<GeoPoint>)
    requires
        points@.len() == plan@.len(),
        forall|m: int| 0 <= m < plan@.len() ==> plan@[m] < old(objects)@.len(),
        forall|m1: int, m2: int| 0 <= m1 < m2 < plan@.len() ==> plan@[m1] < plan@[m2],
    ensures
        final(objects)@.len() == old(objects)@.len(),
        forall|m: int|
            0 <= m < plan@.len() ==> final(objects)@[plan@[m] as int] == old(objects)@[plan@[m] as int].with_loc(
                Some(points@[m]),
            ),
        forall|j: int|
            0 <= j < old(objects)@.len() && !plan@.contains(j as usize) ==> final(objects)@[j]
                == old(objects)@[j],
{
    let total = plan.len();
    let mut m: usize = 0;
    while m < total
        invariant
            total == plan@.len(),
            m <= total,
            points@.len() == plan@.len(),
            objects@.len() == old(objects)@.len(),
            forall|q: int| 0 <= q < plan@.len() ==> plan@[q] < objects@.len(),
            forall|m1: int, m2: int| 0 <= m1 < m2 < plan@.len() ==> plan@[m1] < plan@[m2],
            forall|q: int|
                0 <= q < m ==> objects@[plan@[q] as int] == old(objects)@[plan@[q] as int].with_loc(
                    Some(points@[q]),
                ),
            forall|j: int|
                0 <= j < old(objects)@.len() && !plan@.take(m as int).contains(j as usize)
                    ==> objects@[j] == old(objects)@[j],
        decreases total - m,
    {
        let ghost objects_prev = objects@;
        let j = plan[m];
        let p = points[m];
        objects[j].set_lat_lng(p.lat, p.lng);
        proof {
            assert(GeoPoint { lat: p.lat, lng: p.lng } == p);
            assert(objects@ =~= objects_prev.update(
                j as int,
                objects_prev[j as int].with_loc(Some(p)),
            ));
            assert forall|q: int|
                0 <= q < m + 1 implies objects@[plan@[q] as int] == old(objects)@[plan@[q] as int].with_loc(
                Some(points@[q]),
            ) by {
                if q < m {
                    assert(plan@[q] != plan@[m as int]);
                }
            }
            assert forall|jj: int|
                0 <= jj < old(objects)@.len() && !plan@.take(m + 1).contains(
                    jj as usize,
                ) implies objects@[jj] == old(objects)@[jj] by {
                assert(plan@.take(m + 1)[m as int] == j);
                assert(plan@.take(m + 1).contains(j));
                assert(jj != j);
                if !plan@.take(m as int).contains(jj as usize) {
                } else {
                    let q = choose|q: int|
                        0 <= q < m && plan@.take(m as int)[q] == jj as usize;
                    assert(plan@.take(m + 1)[q] == jj as usize);
                }
            }
        }
        m = m + 1;
    }
    proof {
        assert(plan@.take(total as int) =~= plan@);
    }
}

} // verus!
