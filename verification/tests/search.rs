use wasserspiegel_core::domain::StationSummary;
use wasserspiegel_core::filter_stations;
use wasserspiegel_core::models::F64Bits;

fn station(id: &str, name: &str, water: &str) -> StationSummary {
    StationSummary {
        id: id.to_string(),
        name: name.to_string(),
        water: water.to_string(),
        km: F64Bits(1.5f64.to_bits()),
        latitude: F64Bits(49.4f64.to_bits()),
        longitude: F64Bits(8.4f64.to_bits()),
    }
}

fn stations() -> Vec<StationSummary> {
    vec![
        station("u1", "MANNHEIM", "NECKAR"),
        station("u2", "MANNHEIM", "RHEIN"),
        station("u3", "BONN", "RHEIN"),
        station("u4", "KÖLN", "RHEIN"),
    ]
}

fn ids(r: &[StationSummary]) -> Vec<String> {
    r.iter().map(|s| s.id.clone()).collect()
}

#[test]
fn search_is_case_insensitive() {
    let r = filter_stations(&stations(), "  mannheim ", 10);
    assert_eq!(ids(&r), vec!["u1", "u2"]);
    let r = filter_stations(&stations(), "köln", 10);
    assert_eq!(ids(&r), vec!["u4"]);
}

#[test]
fn search_spans_name_water_and_id() {
    let r = filter_stations(&stations(), "mannheim rhein", 10);
    assert_eq!(ids(&r), vec!["u2"]);
    let r = filter_stations(&stations(), "U3", 10);
    assert_eq!(ids(&r), vec!["u3"]);
    let r = filter_stations(&stations(), "rhein", 10);
    assert_eq!(ids(&r), vec!["u2", "u3", "u4"]);
    // the copies keep every field
    assert_eq!(f64::from_bits(r[0].latitude.0), 49.4);
    assert_eq!(r[0].name, "MANNHEIM");
}

#[test]
fn blank_query_finds_nothing() {
    assert!(filter_stations(&stations(), "", 10).is_empty());
    assert!(filter_stations(&stations(), " \t\n", 10).is_empty());
}

#[test]
fn search_respects_limit() {
    assert_eq!(filter_stations(&stations(), "rhein", 2).len(), 2);
    // a limit of zero yields nothing
    assert!(filter_stations(&stations(), "rhein", 0).is_empty());
    assert!(filter_stations(&stations(), "elbe", 0).is_empty());
    assert_eq!(ids(&filter_stations(&stations(), "rhein", 1)), vec!["u2"]);
}

#[test]
fn selection_by_given_texts() {
    let list = stations();
    let texts: Vec<String> =
        vec!["alpha".into(), "beta".into(), "alphabet".into(), "gamma".into()];
    assert_eq!(ids(&wasserspiegel_core::select_matches(&list, &texts, "alpha", 5)), vec!["u1", "u3"]);
    assert_eq!(ids(&wasserspiegel_core::select_matches(&list, &texts, "a", 2)), vec!["u1", "u2"]);
    assert!(wasserspiegel_core::select_matches(&list, &texts, "", 0).is_empty());
    assert_eq!(ids(&wasserspiegel_core::select_matches(&list, &texts, "", 1)), vec!["u1"]);
}
