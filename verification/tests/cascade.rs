use frc_season_map::cascade::{
    apply_enhancement, apply_geocode_result, apply_override, finalize_event, resolve_event_local,
    resolve_team_local, CascadeAction,
};
use frc_season_map::entities::{EventData, HasLocation, TeamData};
use frc_season_map::event_type::EventType;
use frc_season_map::geo::{GeoPoint, LocationOverride, LocationTable};

fn point(lat: f64, lng: f64) -> GeoPoint {
    GeoPoint { lat: lat.to_bits(), lng: lng.to_bits() }
}

fn team(key: &str) -> TeamData {
    TeamData::new(
        key.to_string(),
        Some("Some School".to_string()),
        Some("Town".to_string()),
        Some("CA".to_string()),
        None,
        Some("USA".to_string()),
        None,
    )
}

fn event(key: &str, event_type: Option<EventType>) -> EventData {
    EventData::new(
        key.to_string(),
        Some("The Arena".to_string()),
        None,
        Some("Town".to_string()),
        None,
        None,
        Some("USA".to_string()),
        None,
        event_type,
        None,
    )
}

fn coords_override(lat: f64, lng: f64) -> LocationOverride {
    LocationOverride { lat: Some(lat.to_bits()), lng: Some(lng.to_bits()), ignore: None }
}

fn table(entries: Vec<(&str, LocationOverride)>) -> LocationTable {
    let mut t = LocationTable::new();
    for (k, ov) in entries {
        t.push(k.to_string(), ov);
    }
    t
}

#[test]
fn override_beats_archive() {
    let mut t = team("frc1");
    let overrides = table(vec![("frc1", coords_override(1.0, 2.0))]);
    let archive = table(vec![("frc1", coords_override(3.0, 4.0))]);
    let action = resolve_team_local(&mut t, &overrides, &archive);
    assert!(matches!(action, CascadeAction::Settled));
    assert_eq!(t.loc, Some(point(1.0, 2.0)));
}

#[test]
fn archive_applies_when_no_override() {
    let mut t = team("frc1");
    let overrides = table(vec![]);
    let archive = table(vec![("frc1", coords_override(3.0, 4.0))]);
    let action = resolve_team_local(&mut t, &overrides, &archive);
    assert!(matches!(action, CascadeAction::Settled));
    assert_eq!(t.loc, Some(point(3.0, 4.0)));
}

#[test]
fn ignore_only_override_keeps_coordinates() {
    let mut t = team("frc1");
    t.loc = Some(point(5.0, 6.0));
    let ov = LocationOverride { lat: None, lng: None, ignore: Some(true) };
    apply_override(&mut t, &ov);
    assert_eq!(t.loc, Some(point(5.0, 6.0)));
    assert_eq!(t.ignore, Some(true));
}

#[test]
fn coords_only_override_keeps_ignore_unset() {
    let mut t = team("frc1");
    apply_override(&mut t, &coords_override(5.0, 6.0));
    assert_eq!(t.loc, Some(point(5.0, 6.0)));
    assert_eq!(t.ignore, None);
}

#[test]
fn override_can_set_coordinates_and_unset_ignore_together() {
    let mut t = team("frc1");
    t.ignore = Some(true);
    let ov = LocationOverride {
        lat: Some(5.0f64.to_bits()),
        lng: Some(6.0f64.to_bits()),
        ignore: Some(false),
    };
    apply_override(&mut t, &ov);
    assert_eq!(t.loc, Some(point(5.0, 6.0)));
    assert_eq!(t.ignore, Some(false));
}

#[test]
fn derived_event_flags_follow_the_category() {
    let cmp = event("2025cmptx", Some(EventType::CmpFinals));
    assert!(cmp.is_cmp && cmp.is_official);
    let regional = event("2025aaa", Some(EventType::Regional));
    assert!(!regional.is_cmp && regional.is_official);
    let none = event("2025bbb", None);
    assert!(!none.is_cmp && !none.is_official);
}

#[test]
fn half_coordinate_override_changes_nothing() {
    let mut t = team("frc1");
    let ov = LocationOverride { lat: Some(1.0f64.to_bits()), lng: None, ignore: None };
    apply_override(&mut t, &ov);
    assert_eq!(t.loc, None);
    assert_eq!(t.ignore, None);
}

#[test]
fn unmatched_team_asks_for_geocoding() {
    let mut t = team("frc1");
    let empty = table(vec![]);
    let action = resolve_team_local(&mut t, &empty, &empty);
    match action {
        CascadeAction::Geocode(addr) => {
            assert_eq!(addr, "Some School Town CA USA".to_string());
        }
        _ => panic!("expected a geocode request"),
    }
    assert_eq!(t.loc, None);
}

#[test]
fn team_without_address_is_cleared_and_settled() {
    let mut t = TeamData::new("frc1".to_string(), None, None, None, None, None, None);
    t.loc = Some(point(9.0, 9.0));
    let empty = table(vec![]);
    let action = resolve_team_local(&mut t, &empty, &empty);
    assert!(matches!(action, CascadeAction::Settled));
    assert_eq!(t.loc, None);
}

#[test]
fn geocode_success_sets_both_coordinates() {
    let mut t = team("frc1");
    apply_geocode_result(&mut t, Some(point(7.0, 8.0)));
    assert_eq!(t.lat(), Some(7.0f64.to_bits()));
    assert_eq!(t.lng(), Some(8.0f64.to_bits()));
    assert!(t.lat().is_some() == t.lng().is_some());
}

#[test]
fn geocode_failure_clears_stale_coordinates() {
    let mut t = team("frc1");
    t.loc = Some(point(7.0, 8.0));
    apply_geocode_result(&mut t, None);
    assert_eq!(t.lat(), None);
    assert_eq!(t.lng(), None);
    assert!(t.lat().is_some() == t.lng().is_some());
}

#[test]
fn event_override_applies_unconditionally() {
    let mut e = event("2025aaa", Some(EventType::Regional));
    let overrides = table(vec![("2025aaa", coords_override(1.5, 2.5))]);
    let archive = table(vec![("2025aaa", coords_override(9.0, 9.0))]);
    let action = resolve_event_local(&mut e, &overrides, &archive);
    assert!(matches!(action, CascadeAction::Settled));
    assert_eq!(e.loc, Some(point(1.5, 2.5)));
}

#[test]
fn event_archive_applies_when_still_unlocated() {
    let mut e = event("2025aaa", Some(EventType::Regional));
    let overrides = table(vec![]);
    let archive = table(vec![("2025aaa", coords_override(9.0, 9.5))]);
    let action = resolve_event_local(&mut e, &overrides, &archive);
    assert!(matches!(action, CascadeAction::Settled));
    assert_eq!(e.loc, Some(point(9.0, 9.5)));
}

#[test]
fn official_event_with_code_asks_for_enrichment() {
    let mut e = event("2025aaa", Some(EventType::District));
    e.first_event_code = Some("AAA".to_string());
    let empty = table(vec![]);
    let action = resolve_event_local(&mut e, &empty, &empty);
    match action {
        CascadeAction::Enhance(code) => assert_eq!(code, "AAA".to_string()),
        _ => panic!("expected an enrichment request"),
    }
}

#[test]
fn official_event_without_code_asks_for_geocoding() {
    let mut e = event("2025aaa", Some(EventType::Regional));
    let empty = table(vec![]);
    let action = resolve_event_local(&mut e, &empty, &empty);
    match action {
        CascadeAction::Geocode(addr) => {
            assert_eq!(addr, "The Arena Town USA".to_string());
        }
        _ => panic!("expected a geocode request"),
    }
}

#[test]
fn unofficial_event_never_asks_for_lookups() {
    let mut e = event("2025aaa", Some(EventType::Offseason));
    let empty = table(vec![]);
    let action = resolve_event_local(&mut e, &empty, &empty);
    assert!(matches!(action, CascadeAction::Settled));
    assert_eq!(e.loc, None);
}

#[test]
fn enhancement_overwrites_only_returned_fields() {
    let mut e = event("2025aaa", Some(EventType::Regional));
    apply_enhancement(&mut e, Some("Bigger Arena".to_string()), None);
    assert_eq!(e.venue, Some("Bigger Arena".to_string()));
    assert_eq!(e.city, Some("Town".to_string()));
    // The street address was absent locally and the service returned none:
    // it stays absent.
    assert_eq!(e.address, None);
}

#[test]
fn enhancement_ignores_empty_returned_values() {
    let mut e = event("2025aaa", Some(EventType::Regional));
    apply_enhancement(&mut e, Some(String::new()), Some("1 Main St".to_string()));
    // An empty venue from the service does not clobber the local one.
    assert_eq!(e.venue, Some("The Arena".to_string()));
    assert_eq!(e.address, Some("1 Main St".to_string()));
}

#[test]
fn finalize_forces_ignore_on_unlocated_events() {
    let mut e = event("2025aaa", Some(EventType::Offseason));
    finalize_event(&mut e);
    assert_eq!(e.ignore, Some(true));
    assert!(e.loc.is_some() || e.ignore == Some(true));
}

#[test]
fn finalize_leaves_located_events_alone() {
    let mut e = event("2025aaa", Some(EventType::Regional));
    e.loc = Some(point(1.0, 1.0));
    finalize_event(&mut e);
    assert_eq!(e.ignore, None);
    assert_eq!(e.loc, Some(point(1.0, 1.0)));
}

#[test]
fn has_location_needs_both_halves() {
    let mut t = team("frc1");
    assert!(!t.has_location());
    t.set_lat_lng(1.0f64.to_bits(), 2.0f64.to_bits());
    assert!(t.has_location());
    assert!(t.lat().is_some() == t.lng().is_some());
    t.clear_location();
    assert!(t.lat().is_some() == t.lng().is_some());
}
