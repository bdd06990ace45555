use frc_season_map::archive::{
    archive_entries, event_archive_file_name, parse_team_archive_name, select_team_archive,
    team_archive_file_name,
};
use frc_season_map::entities::TeamData;
use frc_season_map::geo::GeoPoint;

fn point(lat: f64, lng: f64) -> GeoPoint {
    GeoPoint { lat: lat.to_bits(), lng: lng.to_bits() }
}

fn team(key: &str, loc: Option<GeoPoint>, ignore: Option<bool>) -> TeamData {
    let mut t = TeamData::new(key.to_string(), None, None, None, None, None, loc);
    t.ignore = ignore;
    t
}

#[test]
fn file_name_embeds_the_year() {
    assert_eq!(team_archive_file_name(2025), "all_team_locations_2025.json".to_string());
}

#[test]
fn event_archive_name_is_fixed() {
    assert_eq!(event_archive_file_name(), "all_event_locations.json".to_string());
}

#[test]
fn parse_accepts_only_the_convention() {
    assert_eq!(parse_team_archive_name("all_team_locations_2024.json"), Some(2024));
    assert_eq!(parse_team_archive_name("all_team_locations_20x4.json"), None);
    assert_eq!(parse_team_archive_name("all_team_locations_2024.json.bak"), None);
    assert_eq!(parse_team_archive_name("all_event_locations.json"), None);
    assert_eq!(parse_team_archive_name(""), None);
}

#[test]
fn name_round_trips_through_parse() {
    assert_eq!(parse_team_archive_name(&team_archive_file_name(1000)), Some(1000));
    assert_eq!(parse_team_archive_name(&team_archive_file_name(9999)), Some(9999));
    assert_eq!(parse_team_archive_name(&team_archive_file_name(2026)), Some(2026));
}

#[test]
fn loading_selects_the_largest_year() {
    let names = vec![
        "all_team_locations_2023.json".to_string(),
        "all_team_locations_2025.json".to_string(),
        "all_team_locations_2024.json".to_string(),
        "notes.txt".to_string(),
    ];
    let best = select_team_archive(&names);
    assert_eq!(best, Some((1, 2025)));
}

#[test]
fn loading_keeps_the_first_of_equal_years() {
    let names = vec![
        "all_team_locations_2025.json".to_string(),
        "all_team_locations_2025.json".to_string(),
    ];
    assert_eq!(select_team_archive(&names), Some((0, 2025)));
}

#[test]
fn a_year_of_zeros_still_parses() {
    assert_eq!(parse_team_archive_name("all_team_locations_0000.json"), Some(0));
}

#[test]
fn loading_with_no_matching_file_finds_nothing() {
    let names = vec!["notes.txt".to_string(), "all_event_locations.json".to_string()];
    assert_eq!(select_team_archive(&names), None);
}

#[test]
fn saved_archive_excludes_ignored_and_unlocated_entities() {
    let teams = vec![
        team("frc1", Some(point(1.0, 2.0)), None),
        team("frc2", Some(point(3.0, 4.0)), Some(true)),
        team("frc3", None, None),
        team("frc4", Some(point(5.0, 6.0)), Some(false)),
    ];
    let entries = archive_entries(&teams);
    let keys: Vec<&str> = entries.iter().map(|e| e.0.as_str()).collect();
    assert_eq!(keys, vec!["frc1", "frc4"]);
    assert_eq!(entries[0].1, point(1.0, 2.0));
    assert_eq!(entries[1].1, point(5.0, 6.0));
}
