use frc_season_map::dedup::{apply_jitter, dedup_plan};
use frc_season_map::entities::TeamData;
use frc_season_map::geo::GeoPoint;

fn point(lat: f64, lng: f64) -> GeoPoint {
    GeoPoint { lat: lat.to_bits(), lng: lng.to_bits() }
}

fn located_team(key: &str, loc: Option<GeoPoint>) -> TeamData {
    TeamData::new(key.to_string(), None, None, None, None, None, loc)
}

#[test]
fn exact_duplicates_collide() {
    let teams = vec![
        located_team("frc1", Some(point(10.0, 20.0))),
        located_team("frc2", Some(point(10.0, 20.0))),
    ];
    let plan = dedup_plan(&teams);
    assert_eq!(plan, vec![1]);
}

#[test]
fn near_duplicates_do_not_collide() {
    let teams = vec![
        located_team("frc1", Some(point(10.0, 20.0))),
        located_team("frc2", Some(point(10.0000001, 20.0))),
    ];
    let plan = dedup_plan(&teams);
    assert!(plan.is_empty());
}

#[test]
fn unlocated_entities_are_skipped() {
    let teams = vec![
        located_team("frc1", None),
        located_team("frc2", None),
        located_team("frc3", Some(point(1.0, 1.0))),
    ];
    let plan = dedup_plan(&teams);
    assert!(plan.is_empty());
}

#[test]
fn later_duplicates_all_queue_behind_the_owner() {
    let teams = vec![
        located_team("frc1", Some(point(1.0, 1.0))),
        located_team("frc2", Some(point(2.0, 2.0))),
        located_team("frc3", Some(point(1.0, 1.0))),
        located_team("frc4", Some(point(1.0, 1.0))),
        located_team("frc5", Some(point(2.0, 2.0))),
    ];
    let plan = dedup_plan(&teams);
    assert_eq!(plan, vec![2, 3, 4]);
}

#[test]
fn jitter_replaces_only_queued_pairs() {
    let mut teams = vec![
        located_team("frc1", Some(point(10.0, 20.0))),
        located_team("frc2", Some(point(10.0, 20.0))),
    ];
    let plan = dedup_plan(&teams);
    assert_eq!(plan, vec![1]);
    let fresh = vec![point(10.0004, 19.9993)];
    apply_jitter(&mut teams, &plan, &fresh);
    // The owner keeps the exact pair; the queued entity took the fresh one.
    assert_eq!(teams[0].loc, Some(point(10.0, 20.0)));
    assert_eq!(teams[1].loc, Some(point(10.0004, 19.9993)));
    assert_ne!(teams[0].loc, teams[1].loc);
}
