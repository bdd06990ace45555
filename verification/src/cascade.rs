//! The resolution cascade: the per-entity priority chain that decides where
//! an entity's coordinates come from.
//!
//! Manual overrides win, the archive of previously resolved coordinates comes
//! second, and only entities that neither covers ask for a live geocoding
//! lookup.  Lookups and enrichment queries run outside this crate; the caller
//! drives each entity through the steps below and hands the outside results
//! back in, and every decision in between is made — and proved — here.

use vstd::prelude::*;

use crate::address::event_address_spec;
use crate::archive::archive_view;
use crate::dedup::is_dup_at;
use crate::address::make_event_address;
use crate::address::make_team_address;
use crate::address::team_address_spec;
use crate::entities::EventData;
use crate::entities::HasLocation;
use crate::entities::TeamData;
use crate::geo::GeoPoint;
use crate::geo::LocationOverride;
use crate::geo::LocationTable;

verus! {

/// What an override (or archive) entry does to an entity: the coordinate
/// pair applies only when the entry carries both halves, the ignore flag only
/// when the entry carries one — each independently of the other.
pub open spec fn override_applied<T: HasLocation>(t: T, ov: LocationOverride) -> T {
    let located = match ov.point() {
        Some(p) => t.with_loc(Some(p)),
        None => t,
    };
    match ov.ignore {
        Some(ig) => located.with_ignore(Some(ig)),
        None => located,
    }
}

/// Apply an override (or archive) entry to an entity.
pub fn apply_override<T: HasLocation>(obj: &mut T, ov: &LocationOverride)
    ensures
        *final(obj) == override_applied(*old(obj), *ov),
{
    match (ov.lat, ov.lng) {
        (Some(lat), Some(lng)) => {
            obj.set_lat_lng(lat, lng);
        },
        _ => {},
    }
    match ov.ignore {
        Some(ig) => {
            obj.set_ignore(ig);
        },
        None => {},
    }
}

/// An override carrying no coordinate pair leaves the entity's coordinates
/// alone, and one carrying no ignore flag leaves the ignore flag alone —
/// the fields of an override act independently.
pub proof fn lemma_override_independence<T: HasLocation>(t: T, ov: LocationOverride)
    ensures
        ov.point() is None ==> override_applied(t, ov).loc() == t.loc(),
        ov.ignore is None ==> override_applied(t, ov).ignore_flag() == t.ignore_flag(),
        ov.point() is Some ==> override_applied(t, ov).loc() == ov.point(),
        ov.ignore is Some ==> override_applied(t, ov).ignore_flag() == ov.ignore,
{
    let located = match ov.point() {
        Some(p) => t.with_loc(Some(p)),
        None => t,
    };
    match ov.point() {
        Some(p) => t.lemma_with_loc(Some(p)),
        None => {},
    }
    match ov.ignore {
        Some(ig) => located.lemma_with_ignore(Some(ig)),
        None => {},
    }
}

/// Record the outcome of a geocoding lookup: a successful lookup sets the
/// coordinates, a failed one clears them, so a failure never leaves a stale
/// pair behind.
pub fn apply_geocode_result<T: HasLocation>(obj: &mut T, result: Option<GeoPoint>)
    ensures
        *final(obj) == old(obj).with_loc(result),
{
    match result {
        Some(p) => {
            obj.set_lat_lng(p.lat, p.lng);
            proof {
                assert(GeoPoint { lat: p.lat, lng: p.lng } == p);
            }
        },
        None => {
            obj.clear_location();
        },
    }
}

/// What remains to be done for an entity after the local cascade steps.
pub enum CascadeAction {
    /// The cascade is finished for this entity; no outside lookup is wanted.
    Settled,
    /// Query the enrichment service with this metadata code, merge what comes
    /// back, then continue with `request_event_geocode`.
    Enhance(String),
    /// Geocode this address, then hand the outcome to `apply_geocode_result`.
    Geocode(String),
}

/// The team after the local part of its cascade: an override applies first;
/// otherwise an archive entry; otherwise the team keeps its state while a
/// geocoding lookup is pending — unless it has no composable address, in
/// which case its coordinates are cleared and it stays unresolved.
pub open spec fn team_local_result(t: TeamData, ovs: LocationTable, arch: LocationTable) -> TeamData {
    match ovs.lookup(t.key@) {
        Some(o) => override_applied(t, o),
        None => match arch.lookup(t.key@) {
            Some(a) => override_applied(t, a),
            None => match team_address_spec(t) {
                Some(_) => t,
                None => t.with_loc(None),
            },
        },
    }
}

/// The address the team cascade still has to geocode, if any: only a team
/// with neither an override nor an archive entry is looked up.
pub open spec fn team_local_action(t: TeamData, ovs: LocationTable, arch: LocationTable) -> Option<
    Seq<char>,
> {
    if ovs.lookup(t.key@) is Some || arch.lookup(t.key@) is Some {
        None
    } else {
        team_address_spec(t)
    }
}

/// Run the local part of the team cascade: overrides first, then the
/// archive, and only then a geocoding request for the composed address.
pub fn resolve_team_local(
    team: &mut TeamData,
    overrides: &LocationTable,
    archive: &LocationTable,
) -> (r: CascadeAction)
    ensures
        *final(team) == team_local_result(*old(team), *overrides, *archive),
        (match r {
            CascadeAction::Settled => team_local_action(*old(team), *overrides, *archive) is None,
            CascadeAction::Geocode(a) => team_local_action(*old(team), *overrides, *archive)
                == Some(a@),
            CascadeAction::Enhance(_) => false,
        }),
{
    match overrides.get(&team.key) {
        Some(ov) => {
            apply_override(team, &ov);
            CascadeAction::Settled
        },
        None => {
            match archive.get(&team.key) {
                Some(ov) => {
                    apply_override(team, &ov);
                    CascadeAction::Settled
                },
                None => {
                    match make_team_address(team) {
                        Some(addr) => CascadeAction::Geocode(addr),
                        None => {
                            team.clear_location();
                            CascadeAction::Settled
                        },
                    }
                },
            }
        },
    }
}

/// The event after its unconditional override step.
pub open spec fn event_after_override(e: EventData, ovs: LocationTable) -> EventData {
    match ovs.lookup(e.key@) {
        Some(o) => override_applied(e, o),
        None => e,
    }
}

/// The event after the local part of its cascade.  The override applies
/// unconditionally first.  An event still without a location takes its
/// archive entry if one exists; otherwise an official event waits for
/// enrichment (with a metadata code) or for geocoding (without one, when an
/// address composes; with no address its coordinates are cleared), and an
/// unofficial event is left as it is — that path never asks for a lookup.
pub open spec fn event_local_result(e: EventData, ovs: LocationTable, arch: LocationTable) -> EventData {
    let e1 = event_after_override(e, ovs);
    if e1.loc is Some {
        e1
    } else {
        match arch.lookup(e.key@) {
            Some(a) => override_applied(e1, a),
            None => {
                if e1.is_official {
                    if e1.first_event_code is Some {
                        e1
                    } else {
                        match event_address_spec(e1) {
                            Some(_) => e1,
                            None => e1.with_loc(None),
                        }
                    }
                } else {
                    e1
                }
            },
        }
    }
}

/// The metadata code the event cascade still has to query, if any.
pub open spec fn event_enhance_action(e: EventData, ovs: LocationTable, arch: LocationTable) -> Option<
    Seq<char>,
> {
    let e1 = event_after_override(e, ovs);
    if e1.loc is None && arch.lookup(e.key@) is None && e1.is_official && e1.first_event_code
        is Some {
        Some(e1.first_event_code->0@)
    } else {
        None
    }
}

/// The address the event cascade still has to geocode, if any — the path of
/// an official event without a metadata code.
pub open spec fn event_geocode_action(e: EventData, ovs: LocationTable, arch: LocationTable) -> Option<
    Seq<char>,
> {
    let e1 = event_after_override(e, ovs);
    if e1.loc is None && arch.lookup(e.key@) is None && e1.is_official && e1.first_event_code
        is None {
        event_address_spec(e1)
    } else {
        None
    }
}

/// Run the local part of the event cascade.
pub fn resolve_event_local(
    event: &mut EventData,
    overrides: &LocationTable,
    archive: &LocationTable,
) -> (r: CascadeAction)
    ensures
        *final(event) == event_local_result(*old(event), *overrides, *archive),
        (match r {
            CascadeAction::Settled => event_enhance_action(*old(event), *overrides, *archive)
                is None && event_geocode_action(*old(event), *overrides, *archive) is None,
            CascadeAction::Enhance(c) => event_enhance_action(*old(event), *overrides, *archive)
                == Some(c@),
            CascadeAction::Geocode(a) => event_geocode_action(*old(event), *overrides, *archive)
                == Some(a@),
        }),
{
    match overrides.get(&event.key) {
        Some(ov) => {
            apply_override(event, &ov);
        },
        None => {},
    }
    if event.has_location() {
        return CascadeAction::Settled;
    }
    match archive.get(&event.key) {
        Some(ov) => {
            apply_override(event, &ov);
            CascadeAction::Settled
        },
        None => {
            if event.is_official {
                let code = match &event.first_event_code {
                    Some(c) => Some(c.clone()),
                    None => None,
                };
                match code {
                    Some(c) => CascadeAction::Enhance(c),
                    None => {
                        match make_event_address(event) {
                            Some(addr) => CascadeAction::Geocode(addr),
                            None => {
                                event.clear_location();
                                CascadeAction::Settled
                            },
                        }
                    },
                }
            } else {
                CascadeAction::Settled
            }
        },
    }
}

/// An event with venue and street address overwritten by what the enrichment
/// service returned — only where it actually provided a non-empty value; a
/// field that comes back absent or empty leaves the local value untouched.
pub open spec fn enhancement_applied(
    e: EventData,
    venue: Option<String>,
    address: Option<String>,
) -> EventData {
    EventData {
        venue: (match venue {
            Some(v) => if v@.len() > 0 {
                Some(v)
            } else {
                e.venue
            },
            None => e.venue,
        }),
        address: (match address {
            Some(a) => if a@.len() > 0 {
                Some(a)
            } else {
                e.address
            },
            None => e.address,
        }),
        ..e
    }
}

/// Merge an enrichment response into the event's raw fields.
pub fn apply_enhancement(event: &mut EventData, venue: Option<String>, address: Option<String>)
    ensures
        *final(event) == enhancement_applied(*old(event), venue, address),
{
    match venue {
        Some(v) => {
            if !v.as_str().is_empty() {
                event.venue = Some(v);
            }
        },
        None => {},
    }
    match address {
        Some(a) => {
            if !a.as_str().is_empty() {
                event.address = Some(a);
            }
        },
        None => {},
    }
}

/// Compose the event's (possibly enhanced) address for geocoding.  An event
/// with no composable address has its coordinates cleared and stays
/// unresolved.
pub fn request_event_geocode(event: &mut EventData) -> (r: Option<String>)
    ensures
        (match r {
            Some(a) => event_address_spec(*old(event)) == Some(a@) && *final(event) == *old(event),
            None => event_address_spec(*old(event)) is None && *final(event) == old(
                event,
            ).with_loc(None),
        }),
{
    match make_event_address(event) {
        Some(addr) => Some(addr),
        None => {
            event.clear_location();
            None
        },
    }
}

/// The terminal step of the event cascade: an event that still has no
/// location is forced to `ignore = true`, so no event ends the run silently
/// incomplete.
pub fn finalize_event(event: &mut EventData)
    ensures
        *final(event) == (if old(event).loc is Some {
            *old(event)
        } else {
            old(event).with_ignore(Some(true))
        }),
        final(event).loc is Some || final(event).ignore == Some(true),
{
    if !event.has_location() {
        event.set_ignore(true);
    }
}

/// Override precedence for teams: when an override with coordinates exists,
/// the resolved coordinates are the override's, whatever the archive holds.
pub proof fn lemma_team_override_precedence(t: TeamData, ovs: LocationTable, arch: LocationTable)
    requires
        ovs.lookup(t.key@) is Some,
        ovs.lookup(t.key@)->0.point() is Some,
    ensures
        team_local_result(t, ovs, arch).loc == ovs.lookup(t.key@)->0.point(),
{
    lemma_override_independence(t, ovs.lookup(t.key@)->0);
}

/// Override precedence for events: identical, through the event cascade.
pub proof fn lemma_event_override_precedence(e: EventData, ovs: LocationTable, arch: LocationTable)
    requires
        ovs.lookup(e.key@) is Some,
        ovs.lookup(e.key@)->0.point() is Some,
    ensures
        event_local_result(e, ovs, arch).loc == ovs.lookup(e.key@)->0.point(),
{
    lemma_override_independence(e, ovs.lookup(e.key@)->0);
}

/// The collision scenario end to end, composed from the stage contracts.
///
/// Take a team with neither an override nor an archive entry, whose address
/// composes and whose lookup returns `p`, beside a team whose override fixes
/// it to the identical `p`.  After the local cascade and the geocode
/// installation — the exact states `resolve_team_local` and
/// `apply_geocode_result` guarantee — both carry `p`; the collision sweep
/// queues exactly the second of the two (`dedup_plan`'s characterization);
/// installing a fresh pair `q` on it (`apply_jitter`'s guarantee) leaves the
/// first with the exact pair and the two distinct; and the saved archive
/// holds both keys, each with that entity's final coordinates.
pub proof fn lemma_end_to_end_scenario(
    t1: TeamData,
    t2: TeamData,
    ovs: LocationTable,
    arch: LocationTable,
    p: GeoPoint,
    q: GeoPoint,
)
    requires
        ovs.lookup(t1.key@) is None,
        arch.lookup(t1.key@) is None,
        team_address_spec(t1) is Some,
        ovs.lookup(t2.key@) is Some,
        ovs.lookup(t2.key@)->0.point() == Some(p),
        ovs.lookup(t2.key@)->0.ignore is None,
        t1.ignore is None,
        t2.ignore is None,
        q != p,
    ensures
        ({
            let r1 = team_local_result(t1, ovs, arch).with_loc(Some(p));
            let r2 = team_local_result(t2, ovs, arch);
            let f = seq![r1, r2.with_loc(Some(q))];
            &&& r1.loc == Some(p)
            &&& r2.loc == Some(p)
            &&& is_dup_at(seq![r1, r2], 1)
            &&& !is_dup_at(seq![r1, r2], 0)
            &&& f[0].loc == Some(p)
            &&& f[1].loc == Some(q)
            &&& f[0].loc != f[1].loc
            &&& archive_view(f) =~= seq![(t1.key@, p), (t2.key@, q)]
        }),
{
    let r1 = team_local_result(t1, ovs, arch).with_loc(Some(p));
    let r2 = team_local_result(t2, ovs, arch);
    lemma_override_independence(t2, ovs.lookup(t2.key@)->0);
    let s = seq![r1, r2];
    assert(is_dup_at(s, 1)) by {
        assert(s[0].loc() == s[1].loc());
    }
    let f = seq![r1, r2.with_loc(Some(q))];
    assert(f.drop_last() =~= seq![r1]);
    assert(seq![r1].drop_last() =~= Seq::<TeamData>::empty());
    assert(archive_view(Seq::<TeamData>::empty()) =~= Seq::<(Seq<char>, GeoPoint)>::empty());
    assert(archive_view(seq![r1]) =~= seq![(t1.key@, p)]) by {
        assert(seq![r1].last() == r1);
        assert(r1.loc() == Some(p));
        assert(r1.ignore_flag() is None);
        assert(r1.key_spec() == t1.key@);
    }
    assert(archive_view(f) =~= seq![(t1.key@, p), (t2.key@, q)]);
}

} // verus!
