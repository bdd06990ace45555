//! A full pass over a two-team table, driven the way a caller drives the
//! engine: local cascade, simulated geocoding, collision pass, archive filter.

use frc_season_map::archive::archive_entries;
use frc_season_map::cascade::{apply_geocode_result, resolve_team_local, CascadeAction};
use frc_season_map::dedup::{apply_jitter, dedup_plan};
use frc_season_map::entities::TeamData;
use frc_season_map::geo::{GeoPoint, LocationOverride, LocationTable};

fn point(lat: f64, lng: f64) -> GeoPoint {
    GeoPoint { lat: lat.to_bits(), lng: lng.to_bits() }
}

#[test]
fn colliding_override_and_geocode_end_up_distinct() {
    // frc254 has no override and no archive entry; its registry address
    // geocodes to (37.4, -122.1).  frc1 has an override fixing it to the
    // identical pair.
    let mut teams = vec![
        TeamData::new(
            "frc254".to_string(),
            Some("NASA Ames".to_string()),
            Some("San Jose".to_string()),
            Some("CA".to_string()),
            None,
            Some("USA".to_string()),
            None,
        ),
        TeamData::new("frc1".to_string(), None, None, None, None, None, None),
    ];
    let mut overrides = LocationTable::new();
    overrides.push(
        "frc1".to_string(),
        LocationOverride {
            lat: Some(37.4f64.to_bits()),
            lng: Some((-122.1f64).to_bits()),
            ignore: None,
        },
    );
    let archive = LocationTable::new();

    // Resolution: each team through the local cascade, geocoding on demand.
    for i in 0..teams.len() {
        let action = resolve_team_local(&mut teams[i], &overrides, &archive);
        match action {
            CascadeAction::Geocode(addr) => {
                assert_eq!(addr, "NASA Ames San Jose CA USA".to_string());
                // The simulated geocoding service answer.
                apply_geocode_result(&mut teams[i], Some(point(37.4, -122.1)));
            }
            CascadeAction::Settled => {}
            CascadeAction::Enhance(_) => panic!("teams are never enhanced"),
        }
    }
    assert_eq!(teams[0].loc, Some(point(37.4, -122.1)));
    assert_eq!(teams[1].loc, Some(point(37.4, -122.1)));

    // Collision pass: exactly one of the two is queued for jitter.
    let plan = dedup_plan(&teams);
    assert_eq!(plan, vec![1]);
    let jittered = point(37.400571, -122.099432);
    apply_jitter(&mut teams, &plan, &vec![jittered]);

    // One of the two retains the exact pair and the other moved off it.
    assert_eq!(teams[0].loc, Some(point(37.4, -122.1)));
    assert_eq!(teams[1].loc, Some(jittered));
    assert_ne!(teams[0].loc, teams[1].loc);

    // The saved team archive holds both keys with their final coordinates.
    let entries = archive_entries(&teams);
    assert_eq!(entries.len(), 2);
    assert_eq!(entries[0].0, "frc254".to_string());
    assert_eq!(entries[0].1, point(37.4, -122.1));
    assert_eq!(entries[1].0, "frc1".to_string());
    assert_eq!(entries[1].1, jittered);
}
