//! Pure registry-side logic: the regular event key pattern, roster
//! aggregation into the active-team list, the team-to-events map, and the
//! small decisions made over fetched registry data.
//!
//! Fetching itself happens outside this crate; these functions compute over
//! the plain values a fetch hands back.

use vstd::prelude::*;

use crate::archive::is_digit;
use crate::geo::GeoPoint;

verus! {

/// A lower-case ASCII letter.
pub open spec fn is_lower(c: char) -> bool {
    'a' <= c && c <= 'z'
}

/// The standard season event key shape: the literal `20`, two more digits,
/// then one or more lower-case letters (for example `2025cafr`).
pub open spec fn is_regular_key_spec(s: Seq<char>) -> bool {
    s.len() >= 5 && s[0] == '2' && s[1] == '0' && is_digit(s[2]) && is_digit(s[3]) && (forall|
        i: int,
    | 4 <= i < s.len() ==> is_lower(s[i]))
}

/// Whether an event key matches the standard season pattern.
pub fn is_regular_event_key(key: &str) -> (r: bool)
    ensures
        r == is_regular_key_spec(key@),
{
    let v = crate::address::chars_of(key);
    let n = v.len();
    if n < 5 {
        return false;
    }
    if v[0] != '2' || v[1] != '0' {
        return false;
    }
    if !(('0' <= v[2] && v[2] <= '9') && ('0' <= v[3] && v[3] <= '9')) {
        return false;
    }
    let mut i: usize = 4;
    while i < n
        invariant
            n == v@.len(),
            v@ == key@,
            4 <= i <= n,
            forall|k: int| 4 <= k < i ==> is_lower(v@[k]),
        decreases n - i,
    {
        if !('a' <= v[i] && v[i] <= 'z') {
            return false;
        }
        i = i + 1;
    }
    true
}

/// The regular keys among `keys`, in order.
pub open spec fn regular_keys_view(keys: Seq<String>) -> Seq<Seq<char>>
    decreases keys.len(),
{
    if keys.len() == 0 {
        Seq::empty()
    } else {
        let rest = regular_keys_view(keys.drop_last());
        if is_regular_key_spec(keys.last()@) {
            rest.push(keys.last()@)
        } else {
            rest
        }
    }
}

/// Keep exactly the event keys that match the standard season pattern,
/// in their original order.
pub fn filter_regular_keys(keys: &Vec<String>) -> (r: Vec<String>)
    ensures
        r@.map_values(|s: String| s@) == regular_keys_view(keys@),
{
    let n = keys.len();
    let mut out: Vec<String> = Vec::new();
    let mut i: usize = 0;
    while i < n
        invariant
            n == keys@.len(),
            i <= n,
            out@.map_values(|s: String| s@) == regular_keys_view(keys@.take(i as int)),
        decreases n - i,
    {
        proof {
            assert(keys@.take(i + 1).drop_last() =~= keys@.take(i as int));
            assert(keys@.take(i + 1).last() == keys@[i as int]);
        }
        if is_regular_event_key(keys[i].as_str()) {
            out.push(keys[i].clone());
        }
        proof {
            assert(out@.map_values(|s: String| s@) =~= regular_keys_view(keys@.take(i + 1)));
        }
        i = i + 1;
    }
    proof {
        assert(keys@.take(n as int) =~= keys@);
    }
    out
}

/// The location in the first geocoding result, if there is any result and it
/// carries one: an empty result set geocodes to nothing, and further results
/// are never consulted.
pub fn first_result_location(results: &Vec<Option<GeoPoint>>) -> (r: Option<GeoPoint>)
    ensures
        r == (if results@.len() == 0 {
            None::<GeoPoint>
        } else {
            results@[0]
        }),
{
    if results.len() == 0 {
        None
    } else {
        results[0]
    }
}

/// Whether some element of `v` is the string `k`.
pub open spec fn contains_string(v: Seq<String>, k: Seq<char>) -> bool {
    exists|m: int| 0 <= m < v.len() && v[m]@ == k
}

/// Strict lexicographic order on strings by code point — the order the
/// active-team list is sorted in.
pub open spec fn lex_lt(a: Seq<char>, b: Seq<char>) -> bool
    decreases a.len(),
{
    if b.len() == 0 {
        false
    } else if a.len() == 0 {
        true
    } else if a[0] != b[0] {
        a[0] < b[0]
    } else {
        lex_lt(a.drop_first(), b.drop_first())
    }
}

/// Two distinct strings compare one way or the other.
pub proof fn lemma_lex_connex(a: Seq<char>, b: Seq<char>)
    requires
        a != b,
    ensures
        lex_lt(a, b) || lex_lt(b, a),
    decreases a.len(),
{
    if a.len() == 0 && b.len() == 0 {
        assert(a =~= b);
    } else if a.len() == 0 || b.len() == 0 {
    } else if a[0] != b[0] {
    } else {
        if a.drop_first() == b.drop_first() {
            assert(a =~= b) by {
                assert(a.drop_first().len() == b.drop_first().len());
                assert forall|i: int| 0 <= i < a.len() implies a[i] == b[i] by {
                    if i > 0 {
                        assert(a.drop_first()[i - 1] == a[i]);
                        assert(b.drop_first()[i - 1] == b[i]);
                        assert(a.drop_first()[i - 1] == b.drop_first()[i - 1]);
                    }
                }
            }
        } else {
            lemma_lex_connex(a.drop_first(), b.drop_first());
        }
    }
}

/// The order is transitive.
pub proof fn lemma_lex_trans(a: Seq<char>, b: Seq<char>, c: Seq<char>)
    requires
        lex_lt(a, b),
        lex_lt(b, c),
    ensures
        lex_lt(a, c),
    decreases a.len(),
{
    if c.len() == 0 || a.len() == 0 {
    } else if b.len() == 0 {
    } else {
        if a[0] == b[0] && b[0] == c[0] {
            lemma_lex_trans(a.drop_first(), b.drop_first(), c.drop_first());
        }
    }
}

/// Compare two strings in the lexicographic order.
pub fn str_lt(a: &String, b: &String) -> (r: bool)
    ensures
        r == lex_lt(a@, b@),
{
    let va = crate::address::chars_of(a.as_str());
    let vb = crate::address::chars_of(b.as_str());
    let na = va.len();
    let nb = vb.len();
    let mut i: usize = 0;
    proof {
        assert(a@.skip(0) =~= a@);
        assert(b@.skip(0) =~= b@);
    }
    loop
        invariant
            na == va@.len(),
            nb == vb@.len(),
            va@ == a@,
            vb@ == b@,
            i <= na,
            i <= nb,
            lex_lt(a@, b@) == lex_lt(a@.skip(i as int), b@.skip(i as int)),
        ensures
            lex_lt(a@, b@) == (if i >= nb {
                false
            } else if i >= na {
                true
            } else {
                va@[i as int] < vb@[i as int]
            }),
            i >= nb || i >= na || va@[i as int] != vb@[i as int],
        decreases na - i,
    {
        proof {
            if i < na {
                assert(a@.skip(i as int)[0] == a@[i as int]);
            }
            if i < nb {
                assert(b@.skip(i as int)[0] == b@[i as int]);
            }
        }
        if i >= nb {
            break;
        }
        if i >= na {
            break;
        }
        if va[i] != vb[i] {
            break;
        }
        proof {
            assert(a@.skip(i as int).drop_first() =~= a@.skip(i + 1));
            assert(b@.skip(i as int).drop_first() =~= b@.skip(i + 1));
        }
        i = i + 1;
    }
    if i >= nb {
        false
    } else if i >= na {
        true
    } else {
        va[i] < vb[i]
    }
}

/// A strictly ascending list of strings: sorted, and free of duplicates.
pub open spec fn strictly_sorted(v: Seq<String>) -> bool {
    forall|m1: int, m2: int| 0 <= m1 < m2 < v.len() ==> lex_lt(v[m1]@, v[m2]@)
}

/// Insert a key into a sorted list unless an equal key is already there,
/// keeping the list strictly ascending.
pub fn insert_sorted_unique(out: &mut Vec<String>, key: &String)
    requires
        strictly_sorted(old(out)@),
    ensures
        strictly_sorted(final(out)@),
        forall|k: Seq<char>| #[trigger]
            contains_string(final(out)@, k) <==> (contains_string(old(out)@, k) || k == key@),
{
    let n = out.len();
    let mut p: usize = 0;
    while p < n
        invariant
            n == out@.len(),
            p <= n,
            forall|m: int| 0 <= m < p ==> lex_lt(out@[m]@, key@),
        ensures
            p <= n,
            forall|m: int| 0 <= m < p ==> lex_lt(out@[m]@, key@),
            p < n ==> !lex_lt(out@[p as int]@, key@),
        decreases n - p,
    {
        if !str_lt(&out[p], key) {
            break;
        }
        p = p + 1;
    }
    let ghost prev = out@;
    if p < n && out[p].eq(key) {
        proof {
            assert(contains_string(out@, key@));
            assert forall|k: Seq<char>| #[trigger]
                contains_string(out@, k) <==> (contains_string(prev, k) || k == key@) by {
                if k == key@ {
                    assert(out@[p as int]@ == k);
                }
            }
        }
        return ;
    }
    proof {
        if p < n {
            lemma_lex_connex(key@, out@[p as int]@);
        }
    }
    out.insert(p, key.clone());
    proof {
        assert(out@ =~= prev.insert(p as int, *key));
        assert forall|m1: int, m2: int|
            0 <= m1 < m2 < out@.len() implies lex_lt(out@[m1]@, out@[m2]@) by {
            if m1 == p {
                if m2 > p + 1 {
                    lemma_lex_trans(key@, prev[p as int]@, prev[m2 - 1]@);
                }
            } else if m2 == p {
            } else if m1 < p && m2 > p {
                assert(out@[m1]@ == prev[m1]@);
                assert(out@[m2]@ == prev[m2 - 1]@);
                if m2 - 1 == m1 {
                    assert(m1 < p && p < m2);
                    assert(false);
                }
            }
        }
        assert forall|k: Seq<char>| #[trigger]
            contains_string(out@, k) <==> (contains_string(prev, k) || k == key@) by {
            if contains_string(out@, k) {
                let m = choose|m: int| 0 <= m < out@.len() && out@[m]@ == k;
                if m < p {
                    assert(prev[m]@ == k);
                } else if m == p {
                    assert(k == key@);
                } else {
                    assert(prev[m - 1]@ == k);
                }
            }
            if contains_string(prev, k) {
                let m = choose|m: int| 0 <= m < prev.len() && prev[m]@ == k;
                if m < p {
                    assert(out@[m]@ == k);
                } else {
                    assert(out@[m + 1]@ == k);
                }
            }
            if k == key@ {
                assert(out@[p as int]@ == k);
            }
        }
    }
}

/// Whether a key occurs in any of the rosters.
pub open spec fn in_rosters(rs: Seq<Vec<String>>, k: Seq<char>) -> bool {
    exists|i: int| 0 <= i < rs.len() && contains_string(rs[i]@, k)
}

/// The active teams of a season: the union of all event rosters, as a
/// duplicate-free list sorted ascending by key.
pub fn active_team_keys(rosters: &Vec<Vec<String>>) -> (r: Vec<String>)
    ensures
        strictly_sorted(r@),
        forall|k: Seq<char>| #[trigger] contains_string(r@, k) <==> in_rosters(rosters@, k),
{
    let n = rosters.len();
    let mut out: Vec<String> = Vec::new();
    let mut i: usize = 0;
    while i < n
        invariant
            n == rosters@.len(),
            i <= n,
            strictly_sorted(out@),
            forall|k: Seq<char>| #[trigger]
                contains_string(out@, k) <==> in_rosters(rosters@.take(i as int), k),
        decreases n - i,
    {
        let roster = &rosters[i];
        let rn = roster.len();
        let mut j: usize = 0;
        while j < rn
            invariant
                n == rosters@.len(),
                i < n,
                rn == rosters@[i as int]@.len(),
                roster == &rosters@[i as int],
                j <= rn,
                strictly_sorted(out@),
                forall|k: Seq<char>| #[trigger]
                    contains_string(out@, k) <==> (in_rosters(rosters@.take(i as int), k)
                        || contains_string(rosters@[i as int]@.take(j as int), k)),
            decreases rn - j,
        {
            let ghost out_prev = out@;
            insert_sorted_unique(&mut out, &roster[j]);
            proof {
                let rv = rosters@[i as int]@;
                assert forall|k: Seq<char>| #[trigger]
                    contains_string(out@, k) <==> (in_rosters(rosters@.take(i as int), k)
                        || contains_string(rv.take(j + 1), k)) by {
                    if contains_string(rv.take(j as int), k) {
                        let m = choose|m: int| 0 <= m < j && rv.take(j as int)[m]@ == k;
                        assert(rv.take(j + 1)[m]@ == k);
                    }
                    if k == rv[j as int]@ {
                        assert(rv.take(j + 1)[j as int]@ == k);
                    }
                    if contains_string(rv.take(j + 1), k) {
                        let m = choose|m: int|
                            #![trigger rv.take(j + 1)[m]]
                            0 <= m < j + 1 && rv.take(j + 1)[m]@ == k;
                        if m < j {
                            assert(rv.take(j as int)[m]@ == k);
                        } else {
                            assert(k == rv[j as int]@);
                        }
                    }
                }
            }
            j = j + 1;
        }
        proof {
            let rv = rosters@[i as int]@;
            assert(rv.take(rn as int) =~= rv);
            assert forall|k: Seq<char>| #[trigger]
                contains_string(out@, k) <==> in_rosters(rosters@.take(i + 1), k) by {
                if in_rosters(rosters@.take(i as int), k) {
                    let m = choose|m: int|
                        0 <= m < i && contains_string(rosters@.take(i as int)[m]@, k);
                    assert(rosters@.take(i + 1)[m] == rosters@.take(i as int)[m]);
                    assert(contains_string(rosters@.take(i + 1)[m]@, k));
                }
                if contains_string(rv, k) {
                    assert(rosters@.take(i + 1)[i as int] == rosters@[i as int]);
                    assert(contains_string(rosters@.take(i + 1)[i as int]@, k));
                }
                if in_rosters(rosters@.take(i + 1), k) {
                    let m = choose|m: int|
                        #![trigger rosters@.take(i + 1)[m]]
                        0 <= m < i + 1 && contains_string(rosters@.take(i + 1)[m]@, k);
                    if m < i {
                        assert(contains_string(rosters@.take(i as int)[m]@, k));
                    } else {
                        assert(contains_string(rv, k));
                    }
                }
            }
        }
        i = i + 1;
    }
    proof {
        assert(rosters@.take(n as int) =~= rosters@);
    }
    out
}

/// Look for a string in a vector.
pub fn find_string(v: &Vec<String>, k: &String) -> (r: bool)
    ensures
        r == contains_string(v@, k@),
{
    let n = v.len();
    let mut i: usize = 0;
    while i < n
        invariant
            n == v@.len(),
            i <= n,
            forall|m: int| 0 <= m < i ==> v@[m]@ != k@,
        decreases n - i,
    {
        if v[i].eq(k) {
            return true;
        }
        i = i + 1;
    }
    false
}

/// The events, in their given order, whose roster contains the team.
pub open spec fn events_of_team(
    events: Seq<String>,
    rosters: Seq<Vec<String>>,
    k: Seq<char>,
) -> Seq<Seq<char>>
    decreases events.len(),
{
    if events.len() == 0 {
        Seq::empty()
    } else {
        let rest = events_of_team(events.drop_last(), rosters.drop_last(), k);
        if contains_string(rosters[events.len() - 1]@, k) {
            rest.push(events.last()@)
        } else {
            rest
        }
    }
}

/// The event keys a team attends: those events whose roster lists the team.
pub fn events_for_team(team: &String, events: &Vec<String>, rosters: &Vec<Vec<String>>) -> (r: Vec<
    String,
>)
    requires
        events@.len() == rosters@.len(),
    ensures
        r@.map_values(|s: String| s@) == events_of_team(events@, rosters@, team@),
{
    let n = events.len();
    let mut out: Vec<String> = Vec::new();
    let mut i: usize = 0;
    while i < n
        invariant
            n == events@.len(),
            n == rosters@.len(),
            i <= n,
            out@.map_values(|s: String| s@) == events_of_team(
                events@.take(i as int),
                rosters@.take(i as int),
                team@,
            ),
        decreases n - i,
    {
        proof {
            assert(events@.take(i + 1).drop_last() =~= events@.take(i as int));
            assert(rosters@.take(i + 1).drop_last() =~= rosters@.take(i as int));
            assert(events@.take(i + 1).last() == events@[i as int]);
            assert(rosters@.take(i + 1)[i as int] == rosters@[i as int]);
        }
        if find_string(&rosters[i], team) {
            out.push(events[i].clone());
        }
        proof {
            assert(out@.map_values(|s: String| s@) =~= events_of_team(
                events@.take(i + 1),
                rosters@.take(i + 1),
                team@,
            ));
        }
        i = i + 1;
    }
    proof {
        assert(events@.take(n as int) =~= events@);
        assert(rosters@.take(n as int) =~= rosters@);
    }
    out
}

/// The team-to-events map for a season: for each given team key, in order,
/// the list of event keys it attends.
pub fn team_event_map(
    active: &Vec<String>,
    events: &Vec<String>,
    rosters: &Vec<Vec<String>>,
) -> (r: Vec<(String, Vec<String>)>)
    requires
        events@.len() == rosters@.len(),
    ensures
        r@.len() == active@.len(),
        forall|m: int|
            0 <= m < r@.len() ==> (#[trigger] r@[m]).0 == active@[m] && r@[m].1@.map_values(
                |s: String| s@,
            ) == events_of_team(events@, rosters@, active@[m]@),
{
    let n = active.len();
    let mut out: Vec<(String, Vec<String>)> = Vec::new();
    let mut i: usize = 0;
    while i < n
        invariant
            n == active@.len(),
            events@.len() == rosters@.len(),
            i <= n,
            out@.len() == i,
            forall|m: int|
                0 <= m < i ==> (#[trigger] out@[m]).0 == active@[m] && out@[m].1@.map_values(
                    |s: String| s@,
                ) == events_of_team(events@, rosters@, active@[m]@),
        decreases n - i,
    {
        let ghost out_prev = out@;
        let evs = events_for_team(&active[i], events, rosters);
        let ghost evs_snap = evs;
        out.push((active[i].clone(), evs));
        proof {
            assert forall|m: int|
                0 <= m < i + 1 implies (#[trigger] out@[m]).0 == active@[m] && out@[m].1@.map_values(
                |s: String| s@,
            ) == events_of_team(events@, rosters@, active@[m]@) by {
                if m < i {
                    assert(out@[m] == out_prev[m]);
                } else {
                    assert(out@[m].1 == evs_snap);
                    assert(out@[m].0 == active@[m]);
                    assert(evs_snap@.map_values(|s: String| s@) == events_of_team(
                        events@,
                        rosters@,
                        active@[m]@,
                    ));
                }
            }
        }
        i = i + 1;
    }
    out
}

} // verus!
