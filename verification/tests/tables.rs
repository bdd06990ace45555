use frc_season_map::geo::{LocationOverride, LocationTable};

fn entry(lat: f64, lng: f64) -> LocationOverride {
    LocationOverride { lat: Some(lat.to_bits()), lng: Some(lng.to_bits()), ignore: None }
}

#[test]
fn lookup_returns_the_first_entry_for_a_key() {
    let mut t = LocationTable::new();
    t.push("frc1".to_string(), entry(1.0, 2.0));
    t.push("frc2".to_string(), entry(3.0, 4.0));
    t.push("frc1".to_string(), entry(9.0, 9.0));
    assert_eq!(t.get(&"frc1".to_string()), Some(entry(1.0, 2.0)));
    assert_eq!(t.get(&"frc2".to_string()), Some(entry(3.0, 4.0)));
    assert_eq!(t.get(&"frc3".to_string()), None);
    assert_eq!(t.len(), 3);
}

#[test]
fn an_empty_table_answers_nothing() {
    let t = LocationTable::new();
    assert_eq!(t.len(), 0);
    assert_eq!(t.get(&"frc1".to_string()), None);
}
