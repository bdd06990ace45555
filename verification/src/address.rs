//! The address composer: builds the single geocodable address string out of
//! an entity's raw location fields.
//!
//! Each field is taken in a fixed priority order, the fields are joined with
//! single spaces, and the result is whitespace-normalized: runs of whitespace
//! collapse to one space and the ends are trimmed.  When nothing but
//! whitespace remains there is no address.

use vstd::prelude::*;

use vstd::std_specs::iter::IteratorSpec;

use crate::entities::EventData;
use crate::entities::TeamData;

verus! {

broadcast use vstd::string::group_string_axioms;

/// The characters treated as whitespace: the Unicode `White_Space` set.
pub open spec fn is_space(c: char) -> bool {
    c == '\u{0009}' || c == '\u{000a}' || c == '\u{000b}' || c == '\u{000c}' || c == '\u{000d}'
        || c == '\u{0020}' || c == '\u{0085}' || c == '\u{00a0}' || c == '\u{1680}'
        || c == '\u{2000}' || c == '\u{2001}' || c == '\u{2002}' || c == '\u{2003}'
        || c == '\u{2004}' || c == '\u{2005}' || c == '\u{2006}' || c == '\u{2007}'
        || c == '\u{2008}' || c == '\u{2009}' || c == '\u{200a}' || c == '\u{2028}'
        || c == '\u{2029}' || c == '\u{202f}' || c == '\u{205f}' || c == '\u{3000}'
}

fn is_space_char(c: char) -> (r: bool)
    ensures
        r == is_space(c),
{
    c == '\u{0009}' || c == '\u{000a}' || c == '\u{000b}' || c == '\u{000c}' || c == '\u{000d}'
        || c == '\u{0020}' || c == '\u{0085}' || c == '\u{00a0}' || c == '\u{1680}'
        || c == '\u{2000}' || c == '\u{2001}' || c == '\u{2002}' || c == '\u{2003}'
        || c == '\u{2004}' || c == '\u{2005}' || c == '\u{2006}' || c == '\u{2007}'
        || c == '\u{2008}' || c == '\u{2009}' || c == '\u{200a}' || c == '\u{2028}'
        || c == '\u{2029}' || c == '\u{202f}' || c == '\u{205f}' || c == '\u{3000}'
}

/// One step of normalization: `acc` is the output built so far and `pending`
/// says whether a space must be written before the next word character.
/// Whitespace never reaches the output directly; it only arms `pending`, and
/// only once a first word is out, so the result carries no leading, trailing
/// or doubled spaces.
pub open spec fn norm_step(acc: Seq<char>, pending: bool, c: char) -> (Seq<char>, bool) {
    if is_space(c) {
        (acc, acc.len() > 0)
    } else if pending {
        (acc + seq![' ', c], false)
    } else {
        (acc.push(c), false)
    }
}

/// Normalization of `s`, folded left to right from the state `(acc, pending)`.
pub open spec fn norm_fold(s: Seq<char>, acc: Seq<char>, pending: bool) -> (Seq<char>, bool)
    decreases s.len(),
{
    if s.len() == 0 {
        (acc, pending)
    } else {
        let st = norm_step(acc, pending, s[0]);
        norm_fold(s.drop_first(), st.0, st.1)
    }
}

/// The whitespace-normalized form of `s`: its words joined by single spaces.
pub open spec fn normalize_ws(s: Seq<char>) -> Seq<char> {
    norm_fold(s, Seq::empty(), false).0
}

/// Normalization distributes over concatenation of the input.
pub proof fn lemma_norm_fold_concat(a: Seq<char>, b: Seq<char>, acc: Seq<char>, pending: bool)
    ensures
        norm_fold(a + b, acc, pending) == norm_fold(
            b,
            norm_fold(a, acc, pending).0,
            norm_fold(a, acc, pending).1,
        ),
    decreases a.len(),
{
    if a.len() == 0 {
        assert(a + b =~= b);
    } else {
        let st = norm_step(acc, pending, a[0]);
        assert((a + b).drop_first() =~= a.drop_first() + b);
        lemma_norm_fold_concat(a.drop_first(), b, st.0, st.1);
    }
}

/// The raw fields joined with single spaces, in order.
pub open spec fn joined_fields(fields: Seq<Seq<char>>) -> Seq<char>
    decreases fields.len(),
{
    if fields.len() == 0 {
        Seq::empty()
    } else if fields.len() == 1 {
        fields[0]
    } else {
        fields[0] + seq![' '] + joined_fields(fields.drop_first())
    }
}

pub proof fn lemma_joined_fields_push(fields: Seq<Seq<char>>, f: Seq<char>)
    ensures
        joined_fields(fields.push(f)) == if fields.len() == 0 {
            f
        } else {
            joined_fields(fields) + seq![' '] + f
        },
    decreases fields.len(),
{
    if fields.len() == 0 {
        assert(fields.push(f)[0] =~= f);
        assert(joined_fields(fields.push(f)) == f);
    } else {
        lemma_joined_fields_push(fields.drop_first(), f);
        assert(fields.push(f).drop_first() =~= fields.drop_first().push(f));
        if fields.len() == 1 {
            assert(joined_fields(fields.push(f)) == fields[0] + seq![' '] + f);
            assert(joined_fields(fields) == fields[0]);
        } else {
            assert(joined_fields(fields) + seq![' '] + f == fields[0] + seq![' '] + (joined_fields(
                fields.drop_first(),
            ) + seq![' '] + f)) by {
                assert(fields[0] + seq![' '] + joined_fields(fields.drop_first()) + seq![' '] + f
                    =~= fields[0] + seq![' '] + (joined_fields(fields.drop_first()) + seq![' ']
                    + f));
            }
        }
    }
}

/// The composed address of a field list: the normalized join, or nothing if
/// every field is empty or whitespace.
pub open spec fn composed_address(fields: Seq<Seq<char>>) -> Option<Seq<char>> {
    let n = normalize_ws(joined_fields(fields));
    if n.len() == 0 {
        None
    } else {
        Some(n)
    }
}

/// Feed every character of `s` through the normalization fold.
fn norm_push_str(out: &mut Vec<char>, pending: &mut bool, s: &str)
    ensures
        final(out)@ == norm_fold(s@, old(out)@, *old(pending)).0,
        *final(pending) == norm_fold(s@, old(out)@, *old(pending)).1,
{
    let ghost acc0 = out@;
    let ghost pend0 = *pending;
    let mut it = s.chars();
    loop
        invariant
            it.obeys_prophetic_iter_laws(),
            it.decrease() is Some,
            norm_fold(s@, acc0, pend0).0 == norm_fold(it.remaining(), out@, *pending).0,
            norm_fold(s@, acc0, pend0).1 == norm_fold(it.remaining(), out@, *pending).1,
        ensures
            out@ == norm_fold(s@, acc0, pend0).0,
            *pending == norm_fold(s@, acc0, pend0).1,
        decreases it.decrease()->0,
    {
        let ghost prev = it.remaining();
        let ghost out_prev = out@;
        let ghost pend_prev = *pending;
        match it.next() {
            Some(c) => {
                if is_space_char(c) {
                    *pending = out.len() > 0;
                } else {
                    if *pending {
                        out.push(' ');
                    }
                    out.push(c);
                    *pending = false;
                }
                proof {
                    assert(prev[0] == c);
                    let st = norm_step(out_prev, pend_prev, c);
                    assert(out@ =~= st.0);
                    assert(it.remaining() =~= prev.drop_first());
                }
            },
            None => {
                break;
            },
        }
    }
}

/// Relies on `String`'s `FromIterator<char>` implementation: collecting an
/// iterator of characters yields the string of exactly those characters in
/// order.
#[verifier::external_body]
pub(crate) fn string_from_chars(v: &Vec<char>) -> (r: String)
    ensures
        r@ == v@,
{
    v.iter().copied().collect()
}

/// The characters of a string, as a vector.
pub(crate) fn chars_of(s: &str) -> (r: Vec<char>)
    ensures
        r@ == s@,
{
    let mut out: Vec<char> = Vec::new();
    let mut it = s.chars();
    loop
        invariant
            it.obeys_prophetic_iter_laws(),
            it.decrease() is Some,
            s@ == out@ + it.remaining(),
        ensures
            out@ == s@,
        decreases it.decrease()->0,
    {
        let ghost prev = it.remaining();
        match it.next() {
            Some(c) => {
                out.push(c);
                proof {
                    assert(out@ + it.remaining() =~= s@);
                }
            },
            None => {
                proof {
                    assert(out@ =~= s@);
                }
                break;
            },
        }
    }
    out
}

/// Compose an address from raw fields: join them with single spaces,
/// collapse whitespace, and return nothing if no word remains.
pub fn compose_address(fields: &Vec<&str>) -> (r: Option<String>)
    ensures
        r matches Some(s) ==> composed_address(field_views(fields@)) == Some(s@),
        r is None ==> composed_address(field_views(fields@)) is None,
{
    let mut out: Vec<char> = Vec::new();
    let mut pending: bool = false;
    let n = fields.len();
    let mut i: usize = 0;
    while i < n
        invariant
            n == fields@.len(),
            i <= n,
            out@ == norm_fold(
                joined_fields(field_views(fields@.take(i as int))),
                Seq::<char>::empty(),
                false,
            ).0,
            pending == norm_fold(
                joined_fields(field_views(fields@.take(i as int))),
                Seq::<char>::empty(),
                false,
            ).1,
        decreases n - i,
    {
        let ghost done = field_views(fields@.take(i as int));
        proof {
            assert(field_views(fields@.take(i + 1 as int)) =~= done.push(fields@[i as int]@));
            lemma_joined_fields_push(done, fields@[i as int]@);
        }
        if i > 0 {
            let ghost p_old = pending;
            let ghost out_pre = out@;
            // The single joining space between fields: it only arms `pending`.
            pending = out.len() > 0;
            proof {
                let j = joined_fields(done);
                let sp = seq![' '];
                lemma_norm_fold_concat(j, sp, Seq::<char>::empty(), false);
                assert(sp.len() == 1 && sp[0] == ' ');
                let st = norm_step(out_pre, p_old, ' ');
                assert(norm_fold(sp, out_pre, p_old) == norm_fold(sp.drop_first(), st.0, st.1));
                assert(sp.drop_first() =~= Seq::<char>::empty());
                assert(norm_fold(Seq::<char>::empty(), st.0, st.1) == (st.0, st.1));
                assert(norm_fold(j + sp, Seq::<char>::empty(), false).0 =~= out@);
                assert(norm_fold(j + sp, Seq::<char>::empty(), false).1 == pending);
            }
            let ghost joined_sp = joined_fields(done) + seq![' '];
            norm_push_str(&mut out, &mut pending, fields[i]);
            proof {
                lemma_norm_fold_concat(joined_sp, fields@[i as int]@, Seq::<char>::empty(), false);
                assert(joined_sp + fields@[i as int]@ =~= joined_fields(
                    field_views(fields@.take(i + 1 as int)),
                ));
            }
        } else {
            norm_push_str(&mut out, &mut pending, fields[i]);
            proof {
                assert(joined_fields(done.push(fields@[i as int]@)) == fields@[i as int]@);
                assert(fields@.take(0int) =~= Seq::<&str>::empty());
                assert(done.len() == 0);
                assert(joined_fields(done) =~= Seq::<char>::empty());
            }
        }
        i = i + 1;
    }
    proof {
        assert(fields@.take(n as int) =~= fields@);
    }
    if out.len() == 0 {
        None
    } else {
        Some(string_from_chars(&out))
    }
}

/// The views of a list of raw fields.
pub open spec fn field_views(fields: Seq<&str>) -> Seq<Seq<char>> {
    fields.map_values(|s: &str| s@)
}

/// The view of an optional raw field; an absent field reads as empty.
pub open spec fn opt_field(o: Option<String>) -> Seq<char> {
    match o {
        Some(s) => s@,
        None => Seq::empty(),
    }
}

/// The view of an optional composed address.
pub open spec fn opt_view(o: Option<String>) -> Option<Seq<char>> {
    match o {
        Some(s) => Some(s@),
        None => None,
    }
}

/// A team's address fields, in priority order: school name, city,
/// state/province, postal code, country.
pub open spec fn team_address_fields(t: TeamData) -> Seq<Seq<char>> {
    seq![
        opt_field(t.school_name),
        opt_field(t.city),
        opt_field(t.state_prov),
        opt_field(t.postal_code),
        opt_field(t.country),
    ]
}

/// An event's address fields, in priority order: venue, street address, city,
/// state/province, postal code, country.
pub open spec fn event_address_fields(e: EventData) -> Seq<Seq<char>> {
    seq![
        opt_field(e.venue),
        opt_field(e.address),
        opt_field(e.city),
        opt_field(e.state_prov),
        opt_field(e.postal_code),
        opt_field(e.country),
    ]
}

/// The geocodable address of a team, if it has one.
pub open spec fn team_address_spec(t: TeamData) -> Option<Seq<char>> {
    composed_address(team_address_fields(t))
}

/// The geocodable address of an event, if it has one.
pub open spec fn event_address_spec(e: EventData) -> Option<Seq<char>> {
    composed_address(event_address_fields(e))
}

fn field_str(o: &Option<String>) -> (r: &str)
    ensures
        r@ == opt_field(*o),
{
    match o {
        Some(s) => s.as_str(),
        None => {
            proof {
                reveal_strlit("");
            }
            ""
        },
    }
}

/// Compose a team's geocodable address.
pub fn make_team_address(team: &TeamData) -> (r: Option<String>)
    ensures
        opt_view(r) == team_address_spec(*team),
{
    let mut fields: Vec<&str> = Vec::new();
    fields.push(field_str(&team.school_name));
    fields.push(field_str(&team.city));
    fields.push(field_str(&team.state_prov));
    fields.push(field_str(&team.postal_code));
    fields.push(field_str(&team.country));
    proof {
        assert(field_views(fields@) =~= team_address_fields(*team));
    }
    compose_address(&fields)
}

/// Compose an event's geocodable address.
pub fn make_event_address(event: &EventData) -> (r: Option<String>)
    ensures
        opt_view(r) == event_address_spec(*event),
{
    let mut fields: Vec<&str> = Vec::new();
    fields.push(field_str(&event.venue));
    fields.push(field_str(&event.address));
    fields.push(field_str(&event.city));
    fields.push(field_str(&event.state_prov));
    fields.push(field_str(&event.postal_code));
    fields.push(field_str(&event.country));
    proof {
        assert(field_views(fields@) =~= event_address_fields(*event));
    }
    compose_address(&fields)
}

} // verus!
