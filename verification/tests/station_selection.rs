use swiss_transport_mcp::models::{Station, StationType};
use swiss_transport_mcp::service::station::{normalize_optional_text, select_station_candidate};

fn station(id: &str, name: &str) -> Station {
    Station {
        id: id.to_string(),
        name: name.to_string(),
        latitude: None,
        longitude: None,
        station_type: StationType::Stop,
    }
}

#[test]
fn select_station_candidate_prefers_exact_match() {
    let stations = vec![
        station("1", "Luzern Bahnhof"),
        station("2", "Luzern Allmend/Messe"),
    ];
    let selected = select_station_candidate("Luzern Bahnhof", &stations, false)
        .expect("candidate should be selected");
    assert_eq!(selected.id, "1");
}

#[test]
fn select_station_candidate_strict_requires_exact_match() {
    let stations = vec![
        station("1", "Luzern Bahnhof"),
        station("2", "Luzern Allmend/Messe"),
    ];
    let selected = select_station_candidate("Luzern", &stations, true);
    assert!(selected.is_none());
}

#[test]
fn normalize_optional_text_trims_and_rejects_empty() {
    assert_eq!(
        normalize_optional_text(Some("  Kriens Zentrum Pilatus ".to_string())),
        Some("Kriens Zentrum Pilatus".to_string())
    );
    assert_eq!(normalize_optional_text(Some("   ".to_string())), None);
    assert_eq!(normalize_optional_text(None), None);
}
