//! The archive store: the persisted cache of previously resolved coordinates.
//!
//! The team archive is partitioned by season year, one file per year named
//! with an embedded 4-digit year; loading selects the file with the
//! numerically largest year found.  The event archive is one fixed-name file
//! accumulating across seasons.  Saving writes, for every entity that has a
//! location and is not flagged ignored, its key and its coordinate pair —
//! nothing else, so an ignored entity can never poison a later run with a
//! stale coordinate.  Reading, parsing and writing the files themselves is
//! the caller's business; the naming convention, the year selection and the
//! filter live here.

use vstd::prelude::*;

use crate::address::chars_of;
use crate::address::string_from_chars;
use crate::entities::HasLocation;
use crate::geo::GeoPoint;

verus! {

/// A decimal digit.
pub open spec fn is_digit(c: char) -> bool {
    '0' <= c && c <= '9'
}

/// The numeric value of a decimal digit.
pub open spec fn digit_val(c: char) -> int {
    c as u32 - '0' as u32
}

/// The digit character for a value below ten.
pub open spec fn digit_char_spec(d: int) -> char {
    if d == 0 {
        '0'
    } else if d == 1 {
        '1'
    } else if d == 2 {
        '2'
    } else if d == 3 {
        '3'
    } else if d == 4 {
        '4'
    } else if d == 5 {
        '5'
    } else if d == 6 {
        '6'
    } else if d == 7 {
        '7'
    } else if d == 8 {
        '8'
    } else {
        '9'
    }
}

fn digit_char(d: u32) -> (r: char)
    requires
        d < 10,
    ensures
        r == digit_char_spec(d as int),
{
    if d == 0 {
        '0'
    } else if d == 1 {
        '1'
    } else if d == 2 {
        '2'
    } else if d == 3 {
        '3'
    } else if d == 4 {
        '4'
    } else if d == 5 {
        '5'
    } else if d == 6 {
        '6'
    } else if d == 7 {
        '7'
    } else if d == 8 {
        '8'
    } else {
        '9'
    }
}

/// The four digits of a 4-digit year, most significant first.
pub open spec fn year_digits(year: int) -> Seq<char> {
    seq![
        digit_char_spec(year / 1000 % 10),
        digit_char_spec(year / 100 % 10),
        digit_char_spec(year / 10 % 10),
        digit_char_spec(year % 10),
    ]
}

/// The name of the team archive file for a season year.
pub open spec fn team_archive_name_spec(year: int) -> Seq<char> {
    "all_team_locations_"@ + year_digits(year) + ".json"@
}

/// The year embedded in a team archive file name, when the name follows the
/// convention: the fixed prefix, exactly four digits, and the fixed suffix.
pub open spec fn parse_year_spec(name: Seq<char>) -> Option<int> {
    if name.len() == 28 && name.subrange(0, 19) == "all_team_locations_"@ && name.subrange(23, 28)
        == ".json"@ && is_digit(name[19]) && is_digit(name[20]) && is_digit(name[21]) && is_digit(
        name[22],
    ) {
        Some(
            digit_val(name[19]) * 1000 + digit_val(name[20]) * 100 + digit_val(name[21]) * 10
                + digit_val(name[22]),
        )
    } else {
        None
    }
}

fn is_digit_char(c: char) -> (r: bool)
    ensures
        r == is_digit(c),
{
    '0' <= c && c <= '9'
}

/// Whether `w` occurs in `v` starting at `start`.
fn range_matches(v: &Vec<char>, w: &Vec<char>, start: usize) -> (r: bool)
    requires
        start + w@.len() <= v@.len(),
    ensures
        r == (v@.subrange(start as int, start as int + w@.len() as int) =~= w@),
{
    let n = w.len();
    let vlen = v.len();
    let mut i: usize = 0;
    while i < n
        invariant
            n == w@.len(),
            vlen == v@.len(),
            start + n <= v@.len(),
            i <= n,
            forall|k: int| 0 <= k < i ==> v@[start + k] == w@[k],
        decreases n - i,
    {
        if v[start + i] != w[i] {
            proof {
                assert(v@.subrange(start as int, start as int + n as int)[i as int] != w@[i as int]);
            }
            return false;
        }
        i = i + 1;
    }
    proof {
        assert(v@.subrange(start as int, start as int + n as int) =~= w@);
    }
    true
}

/// Parse the year out of a team archive file name; names off the convention
/// parse to nothing.
pub fn parse_team_archive_name(name: &str) -> (r: Option<u32>)
    ensures
        (match r {
            Some(y) => parse_year_spec(name@) == Some(y as int),
            None => parse_year_spec(name@) is None,
        }),
{
    let v = chars_of(name);
    let prefix = chars_of("all_team_locations_");
    let suffix = chars_of(".json");
    proof {
        reveal_strlit("all_team_locations_");
        reveal_strlit(".json");
        assert(prefix@.len() == 19);
        assert(suffix@.len() == 5);
    }
    if v.len() != 28 {
        return None;
    }
    if !range_matches(&v, &prefix, 0) {
        return None;
    }
    if !range_matches(&v, &suffix, 23) {
        return None;
    }
    let mut year: u32 = 0;
    let mut i: usize = 19;
    while i < 23
        invariant
            19 <= i <= 23,
            v@ == name@,
            v@.len() == 28,
            forall|k: int| 19 <= k < i ==> is_digit(v@[k]),
            year < 10000,
            year == (if i > 19 {
                digit_val(v@[19]) * 1000
            } else {
                0
            }) + (if i > 20 {
                digit_val(v@[20]) * 100
            } else {
                0
            }) + (if i > 21 {
                digit_val(v@[21]) * 10
            } else {
                0
            }) + (if i > 22 {
                digit_val(v@[22])
            } else {
                0
            }),
        decreases 23 - i,
    {
        let c = v[i];
        if !is_digit_char(c) {
            return None;
        }
        let d: u32 = (c as u32) - ('0' as u32);
        proof {
            assert(d < 10);
        }
        let scale: u32 = if i == 19 {
            1000
        } else if i == 20 {
            100
        } else if i == 21 {
            10
        } else {
            1
        };
        year = year + d * scale;
        i = i + 1;
    }
    Some(year)
}

/// Render the team archive file name for a season year.  The convention
/// embeds exactly four digits, so the year must have four.
pub fn team_archive_file_name(year: u32) -> (r: String)
    requires
        1000 <= year <= 9999,
    ensures
        r@ == team_archive_name_spec(year as int),
{
    let mut v = chars_of("all_team_locations_");
    v.push(digit_char(year / 1000 % 10));
    v.push(digit_char(year / 100 % 10));
    v.push(digit_char(year / 10 % 10));
    v.push(digit_char(year % 10));
    let mut suffix = chars_of(".json");
    v.append(&mut suffix);
    proof {
        assert(v@ =~= team_archive_name_spec(year as int));
    }
    string_from_chars(&v)
}

/// The fixed name of the event archive file.
pub fn event_archive_file_name() -> (r: String)
    ensures
        r@ == "all_event_locations.json"@,
{
    let v = chars_of("all_event_locations.json");
    string_from_chars(&v)
}

/// Rendering a 4-digit year and parsing the name back returns the year: the
/// naming convention loses nothing.
pub proof fn lemma_archive_name_round_trip(year: int)
    requires
        1000 <= year <= 9999,
    ensures
        parse_year_spec(team_archive_name_spec(year)) == Some(year),
{
    let name = team_archive_name_spec(year);
    reveal_strlit("all_team_locations_");
    reveal_strlit(".json");
    assert(name.subrange(0, 19) =~= "all_team_locations_"@);
    assert(name.subrange(23, 28) =~= ".json"@);
    assert(name[19] == digit_char_spec(year / 1000 % 10));
    assert(name[20] == digit_char_spec(year / 100 % 10));
    assert(name[21] == digit_char_spec(year / 10 % 10));
    assert(name[22] == digit_char_spec(year % 10));
    assert(year / 1000 % 10 * 1000 + year / 100 % 10 * 100 + year / 10 % 10 * 10 + year % 10
        == year) by (nonlinear_arith)
        requires
            1000 <= year <= 9999,
    ;
}

/// Whether the name at `j` parses to a year at most `y`.
pub open spec fn year_at_most(names: Seq<String>, j: int, y: int) -> bool {
    match parse_year_spec(names[j]@) {
        Some(v) => v <= y,
        None => true,
    }
}

/// The right choice of archive among the first `upto` names: the one with the
/// numerically largest embedded year, or nothing when no name parses.
pub open spec fn best_archive_choice(names: Seq<String>, upto: int, r: Option<(usize, u32)>) -> bool {
    match r {
        Some(p) => p.0 < upto && parse_year_spec(names[p.0 as int]@) == Some(p.1 as int) && (forall|
            j: int,
        | 0 <= j < upto ==> year_at_most(names, j, p.1 as int)),
        None => forall|j: int| 0 <= j < upto ==> parse_year_spec(names[j]@) is None,
    }
}

/// Select the team archive file to load: the index and year of the name with
/// the numerically largest embedded year, or nothing when no name follows the
/// convention.  The first of several names with the winning year is chosen.
pub fn select_team_archive(names: &Vec<String>) -> (r: Option<(usize, u32)>)
    ensures
        best_archive_choice(names@, names@.len() as int, r),
{
    let n = names.len();
    let mut best: Option<(usize, u32)> = None;
    let mut i: usize = 0;
    while i < n
        invariant
            n == names@.len(),
            i <= n,
            best_archive_choice(names@, i as int, best),
        decreases n - i,
    {
        let ghost best_prev = best;
        match parse_team_archive_name(names[i].as_str()) {
            Some(y) => {
                let better = match best {
                    Some(p) => y > p.1,
                    None => true,
                };
                if better {
                    best = Some((i, y));
                }
                proof {
                    let b = best->0;
                    assert forall|j: int| 0 <= j < i + 1 implies year_at_most(
                        names@,
                        j,
                        b.1 as int,
                    ) by {
                        if j < i {
                            match best_prev {
                                Some(p) => {
                                    assert(year_at_most(names@, j, p.1 as int));
                                },
                                None => {
                                    assert(parse_year_spec(names@[j]@) is None);
                                },
                            }
                        } else {
                            assert(parse_year_spec(names@[j]@) == Some(y as int));
                        }
                    }
                }
            },
            None => {
                proof {
                    match best_prev {
                        Some(p) => {
                            assert(year_at_most(names@, i as int, p.1 as int));
                        },
                        None => {},
                    }
                }
            },
        }
        i = i + 1;
    }
    best
}

/// What a saved archive holds: for each entity, in table order, that has a
/// location and is not flagged ignored, its key and its coordinate pair.
pub open spec fn archive_view<T: HasLocation>(s: Seq<T>) -> Seq<(Seq<char>, GeoPoint)>
    decreases s.len(),
{
    if s.len() == 0 {
        Seq::empty()
    } else {
        let rest = archive_view(s.drop_last());
        let x = s.last();
        if x.loc() is Some && x.ignore_flag() != Some(true) {
            rest.push((x.key_spec(), x.loc()->0))
        } else {
            rest
        }
    }
}

/// The entries to persist for a table of entities: exactly the located,
/// non-ignored ones, as key and coordinate pair.
pub fn archive_entries<T: HasLocation>(objects: &Vec<T>) -> (r: Vec<(String, GeoPoint)>)
    ensures
        r@.map_values(|e: (String, GeoPoint)| (e.0@, e.1)) == archive_view(objects@),
{
    let n = objects.len();
    let mut out: Vec<(String, GeoPoint)> = Vec::new();
    let mut i: usize = 0;
    while i < n
        invariant
            n == objects@.len(),
            i <= n,
            out@.map_values(|e: (String, GeoPoint)| (e.0@, e.1)) == archive_view(
                objects@.take(i as int),
            ),
        decreases n - i,
    {
        let ghost done = objects@.take(i as int);
        proof {
            assert(objects@.take(i + 1).drop_last() =~= done);
            assert(objects@.take(i + 1).last() == objects@[i as int]);
        }
        match objects[i].location() {
            Some(p) => {
                if !objects[i].ignored() {
                    out.push((objects[i].key().clone(), p));
                    proof {
                        assert(out@.map_values(|e: (String, GeoPoint)| (e.0@, e.1)) =~= archive_view(
                            objects@.take(i + 1),
                        ));
                    }
                } else {
                    proof {
                        assert(out@.map_values(|e: (String, GeoPoint)| (e.0@, e.1)) =~= archive_view(
                            objects@.take(i + 1),
                        ));
                    }
                }
            },
            None => {
                proof {
                    assert(out@.map_values(|e: (String, GeoPoint)| (e.0@, e.1)) =~= archive_view(
                        objects@.take(i + 1),
                    ));
                }
            },
        }
        i = i + 1;
    }
    proof {
        assert(objects@.take(n as int) =~= objects@);
    }
    out
}

/// The archive filter is exact: every persisted entry comes from a located,
/// non-ignored entity, and every located, non-ignored entity is persisted —
/// so an entity flagged ignored never reaches a saved archive.
pub proof fn lemma_archive_view_exact<T: HasLocation>(s: Seq<T>)
    ensures
        forall|m: int|
            0 <= m < archive_view(s).len() ==> exists|j: int|
                0 <= j < s.len() && s[j].loc() is Some && s[j].ignore_flag() != Some(true)
                    && #[trigger] archive_view(s)[m] == (s[j].key_spec(), s[j].loc()->0),
        forall|j: int|
            0 <= j < s.len() && s[j].loc() is Some && s[j].ignore_flag() != Some(true)
                ==> #[trigger] archive_view(s).contains((s[j].key_spec(), s[j].loc()->0)),
    decreases s.len(),
{
    if s.len() == 0 {
    } else {
        lemma_archive_view_exact(s.drop_last());
        let prev = archive_view(s.drop_last());
        let x = s.last();
        assert forall|m: int| 0 <= m < archive_view(s).len() implies exists|j: int|
            0 <= j < s.len() && s[j].loc() is Some && s[j].ignore_flag() != Some(true)
                && #[trigger] archive_view(s)[m] == (s[j].key_spec(), s[j].loc()->0) by {
            if m < prev.len() {
                let j = choose|j: int|
                    0 <= j < s.drop_last().len() && s.drop_last()[j].loc() is Some
                        && s.drop_last()[j].ignore_flag() != Some(true) && #[trigger] prev[m] == (
                    s.drop_last()[j].key_spec(),
                    s.drop_last()[j].loc()->0,
                );
                assert(s[j] == s.drop_last()[j]);
                assert(archive_view(s)[m] == prev[m]);
            } else {
                assert(x.loc() is Some && x.ignore_flag() != Some(true));
                assert(archive_view(s)[m] == (x.key_spec(), x.loc()->0));
                assert(s[s.len() - 1] == x);
            }
        }
        assert forall|j: int|
            0 <= j < s.len() && s[j].loc() is Some && s[j].ignore_flag() != Some(
                true,
            ) implies #[trigger] archive_view(s).contains((s[j].key_spec(), s[j].loc()->0)) by {
            if j < s.len() - 1 {
                assert(s.drop_last()[j] == s[j]);
                assert(prev.contains((s[j].key_spec(), s[j].loc()->0)));
                let m = choose|m: int|
                    0 <= m < prev.len() && prev[m] == (s[j].key_spec(), s[j].loc()->0);
                assert(archive_view(s)[m] == (s[j].key_spec(), s[j].loc()->0));
            } else {
                assert(s[j] == x);
                assert(archive_view(s)[archive_view(s).len() - 1] == (x.key_spec(), x.loc()->0));
            }
        }
    }
}

} // verus!
