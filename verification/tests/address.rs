use frc_season_map::entities::{EventData, TeamData};
use frc_season_map::address::{make_event_address, make_team_address};

fn team_with_fields(
    school: &str,
    city: &str,
    state: &str,
    postal: &str,
    country: &str,
) -> TeamData {
    TeamData::new(
        "frc0".to_string(),
        Some(school.to_string()),
        Some(city.to_string()),
        Some(state.to_string()),
        Some(postal.to_string()),
        Some(country.to_string()),
        None,
    )
}

#[test]
fn team_address_skips_empty_fields() {
    let team = team_with_fields("Team HQ", "", "CA", "", "USA");
    assert_eq!(make_team_address(&team), Some("Team HQ CA USA".to_string()));
}

#[test]
fn team_address_all_empty_is_none() {
    let team = team_with_fields("", "", "", "", "");
    assert_eq!(make_team_address(&team), None);
}

#[test]
fn team_address_absent_fields_are_empty() {
    let team = TeamData::new("frc0".to_string(), None, None, None, None, None, None);
    assert_eq!(make_team_address(&team), None);
}

#[test]
fn team_address_whitespace_only_is_none() {
    let team = team_with_fields("   ", "\t", "", " \n ", "");
    assert_eq!(make_team_address(&team), None);
}

#[test]
fn team_address_collapses_incidental_whitespace() {
    let team = team_with_fields("  Big   School ", "Town", "", "", " USA ");
    assert_eq!(make_team_address(&team), Some("Big School Town USA".to_string()));
}

#[test]
fn unicode_whitespace_also_collapses() {
    let team = team_with_fields("A\u{a0}B", "", "", "", "C\u{2003}\u{2003}D");
    assert_eq!(make_team_address(&team), Some("A B C D".to_string()));
}

#[test]
fn event_address_uses_venue_and_street() {
    let event = EventData::new(
        "2025test".to_string(),
        Some("The Arena".to_string()),
        Some("1 Main St".to_string()),
        Some("Springfield".to_string()),
        Some("OR".to_string()),
        Some("97477".to_string()),
        Some("USA".to_string()),
        None,
        None,
        None,
    );
    assert_eq!(
        make_event_address(&event),
        Some("The Arena 1 Main St Springfield OR 97477 USA".to_string())
    );
}

#[test]
fn event_address_empty_is_none() {
    let event = EventData::new(
        "2025test".to_string(),
        None,
        None,
        None,
        None,
        None,
        None,
        None,
        None,
        None,
    );
    assert_eq!(make_event_address(&event), None);
}
