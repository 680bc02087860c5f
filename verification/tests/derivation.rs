use gtfs_db::derive::derive_service_routes;
use gtfs_db::nodes::derive_nodes;
use gtfs_db::service_routes::{IdentifyStrategy, ServiceRouteGenerator, ServiceRouteIdentity};
use gtfs_db::types::{GtfsError, StopDetail, StopTimeDetail};

fn detail(trip_id: &str, stop_sequence: u32, stop_id: &str, stop_name: &str) -> StopTimeDetail {
    StopTimeDetail {
        trip_id: trip_id.to_string(),
        stop_sequence,
        stop_id: stop_id.to_string(),
        stop_name: stop_name.to_string(),
        stop_headsign: None,
    }
}

fn trip(trip_id: &str, stop_names: &[&str]) -> Vec<StopTimeDetail> {
    stop_names
        .iter()
        .enumerate()
        .map(|(i, name)| detail(trip_id, (i + 1) as u32, &format!("{}{}", name, i), name))
        .collect()
}

fn feed(trips: &[(&str, &[&str])]) -> Vec<StopTimeDetail> {
    let mut rows = Vec::new();
    for (tid, names) in trips {
        rows.extend(trip(tid, names));
    }
    rows
}

#[test]
fn two_symmetric_trips_share_one_route() {
    let details = feed(&[("t1", &["A", "B", "C"]), ("t2", &["C", "B", "A"])]);
    let (t2sr, srs) =
        derive_service_routes(&details, IdentifyStrategy::StopNames, &Vec::new()).unwrap();
    assert_eq!(srs.len(), 1);
    assert_eq!(srs[0].service_route_id, 1);
    assert_eq!(srs[0].direction_id, 0);
    assert_eq!(srs[0].service_route_name, "A - C");
    assert_eq!(t2sr.len(), 2);
    assert_eq!(t2sr[0].trip_id, "t1");
    assert_eq!(t2sr[0].service_route_id, 1);
    assert_eq!(t2sr[0].service_route_direction_id, 0);
    assert_eq!(t2sr[1].trip_id, "t2");
    assert_eq!(t2sr[1].service_route_id, 1);
    assert_eq!(t2sr[1].service_route_direction_id, 1);
}

#[test]
fn branch_gets_its_own_route() {
    let details = feed(&[
        ("t1", &["A", "B", "C"]),
        ("t2", &["A", "B", "D"]),
        ("t3", &["D", "B", "A"]),
    ]);
    let (t2sr, srs) =
        derive_service_routes(&details, IdentifyStrategy::StopNames, &Vec::new()).unwrap();
    assert_eq!(srs.len(), 2);
    assert_eq!(
        (srs[0].service_route_id, srs[0].direction_id, srs[0].service_route_name.as_str()),
        (1, 0, "A - C")
    );
    assert_eq!(
        (srs[1].service_route_id, srs[1].direction_id, srs[1].service_route_name.as_str()),
        (2, 0, "A - D")
    );
    let assigned: Vec<(&str, u64, u32)> = t2sr
        .iter()
        .map(|r| (r.trip_id.as_str(), r.service_route_id, r.service_route_direction_id))
        .collect();
    assert_eq!(assigned, vec![("t1", 1, 0), ("t2", 2, 0), ("t3", 2, 1)]);
}

#[test]
fn first_and_last_collapses_mid_route_variants() {
    let details = feed(&[("t1", &["A", "B", "C"]), ("t2", &["A", "X", "C"])]);
    let (t2sr, srs) =
        derive_service_routes(&details, IdentifyStrategy::FirstAndLastStopNames, &Vec::new())
            .unwrap();
    assert_eq!(srs.len(), 1);
    assert_eq!(srs[0].service_route_id, 1);
    assert_eq!(srs[0].service_route_name, "A - C");
    assert!(t2sr
        .iter()
        .all(|r| r.service_route_id == 1 && r.service_route_direction_id == 0));
}

#[test]
fn stop_ids_distinguish_equally_named_stops() {
    // same stop names along both trips, but different stop ids
    let mut details = trip("t1", &["A", "B"]);
    details.push(detail("t2", 1, "A9", "A"));
    details.push(detail("t2", 2, "B9", "B"));
    let (_, by_names) =
        derive_service_routes(&details, IdentifyStrategy::StopNames, &Vec::new()).unwrap();
    let (_, by_ids) =
        derive_service_routes(&details, IdentifyStrategy::StopIds, &Vec::new()).unwrap();
    assert_eq!(by_names.len(), 1);
    assert_eq!(by_ids.len(), 2);
}

#[test]
fn identity_table_miss_fails_with_unknown_service_route() {
    let table = vec![ServiceRouteIdentity {
        stop_pattern: vec!["A".to_string(), "B".to_string(), "C".to_string()],
        direction_id: 0,
        service_route_id: 42,
        service_route_name: "pinned".to_string(),
    }];
    let details = feed(&[("t9", &["A", "B", "D"])]);
    let err = derive_service_routes(&details, IdentifyStrategy::IdentityTable, &table)
        .unwrap_err();
    assert_eq!(err, GtfsError::UnknownServiceRoute { trip_id: "t9".to_string() });
}

#[test]
fn identity_table_hit_uses_pinned_id_and_direction() {
    let table = vec![
        ServiceRouteIdentity {
            stop_pattern: vec!["A".to_string(), "B".to_string(), "C".to_string()],
            direction_id: 0,
            service_route_id: 42,
            service_route_name: "pinned".to_string(),
        },
        ServiceRouteIdentity {
            stop_pattern: vec!["C".to_string(), "B".to_string(), "A".to_string()],
            direction_id: 1,
            service_route_id: 42,
            service_route_name: "pinned".to_string(),
        },
    ];
    let details = feed(&[("t1", &["A", "B", "C"]), ("t2", &["C", "B", "A"])]);
    let (t2sr, srs) =
        derive_service_routes(&details, IdentifyStrategy::IdentityTable, &table).unwrap();
    assert_eq!(srs.len(), 1);
    assert_eq!(srs[0].service_route_id, 42);
    assert_eq!(srs[0].service_route_name, "pinned");
    assert_eq!(t2sr[0].service_route_id, 42);
    assert_eq!(t2sr[0].service_route_direction_id, 0);
    assert_eq!(t2sr[1].service_route_id, 42);
    assert_eq!(t2sr[1].service_route_direction_id, 1);
}

#[test]
fn identity_routes_come_out_sorted_by_id() {
    let table = vec![
        ServiceRouteIdentity {
            stop_pattern: vec!["A".to_string(), "B".to_string()],
            direction_id: 0,
            service_route_id: 42,
            service_route_name: "late".to_string(),
        },
        ServiceRouteIdentity {
            stop_pattern: vec!["C".to_string(), "D".to_string()],
            direction_id: 0,
            service_route_id: 7,
            service_route_name: "early".to_string(),
        },
    ];
    let details = feed(&[("t1", &["A", "B"]), ("t2", &["C", "D"])]);
    let (_, srs) =
        derive_service_routes(&details, IdentifyStrategy::IdentityTable, &table).unwrap();
    let ids: Vec<u64> = srs.iter().map(|r| r.service_route_id).collect();
    assert_eq!(ids, vec![7, 42]);
}

#[test]
fn trips_are_processed_in_ascending_trip_id_order() {
    // the later-named trip comes first in the input
    let mut details = trip("t2", &["X", "Y"]);
    details.extend(trip("t1", &["A", "B"]));
    let (t2sr, srs) =
        derive_service_routes(&details, IdentifyStrategy::StopNames, &Vec::new()).unwrap();
    assert_eq!(t2sr[0].trip_id, "t1");
    assert_eq!(t2sr[0].service_route_id, 1);
    assert_eq!(t2sr[1].trip_id, "t2");
    assert_eq!(t2sr[1].service_route_id, 2);
    assert_eq!(srs[0].service_route_name, "A - B");
    assert_eq!(srs[1].service_route_name, "X - Y");
}

#[test]
fn repeated_runs_yield_identical_tables() {
    let details = feed(&[
        ("t1", &["A", "B", "C"]),
        ("t2", &["A", "B", "D"]),
        ("t3", &["D", "B", "A"]),
    ]);
    let once = derive_service_routes(&details, IdentifyStrategy::StopNames, &Vec::new()).unwrap();
    let twice = derive_service_routes(&details, IdentifyStrategy::StopNames, &Vec::new()).unwrap();
    assert_eq!(once, twice);
}

#[test]
fn generator_is_idempotent_on_a_pattern() {
    let mut generator = ServiceRouteGenerator::new(IdentifyStrategy::StopNames, Vec::new());
    let first = generator.generate(&trip("t1", &["A", "B"])).unwrap();
    let again = generator.generate(&trip("t5", &["A", "B"])).unwrap();
    assert_eq!(first.service_route_id, again.service_route_id);
    assert_eq!(again.direction_id, 0);
    assert_eq!(generator.all().len(), 1);
}

#[test]
fn generator_rejects_an_empty_trip() {
    let mut generator = ServiceRouteGenerator::new(IdentifyStrategy::StopNames, Vec::new());
    let err = generator.generate(&Vec::new()).unwrap_err();
    assert_eq!(err, GtfsError::EmptyTrip);
}

#[test]
fn empty_feed_yields_empty_tables() {
    let (t2sr, srs) =
        derive_service_routes(&Vec::new(), IdentifyStrategy::StopNames, &Vec::new()).unwrap();
    assert!(t2sr.is_empty());
    assert!(srs.is_empty());
}

#[test]
fn nodes_skip_child_platforms_and_number_densely() {
    let stops = vec![
        StopDetail {
            stop_id: "plat1".to_string(),
            stop_name: "Shibuya platform".to_string(),
            stop_ruby: None,
            parent_station: Some("S1".to_string()),
        },
        StopDetail {
            stop_id: "S1".to_string(),
            stop_name: "Shibuya".to_string(),
            stop_ruby: Some("しぶや".to_string()),
            parent_station: None,
        },
        StopDetail {
            stop_id: "S2".to_string(),
            stop_name: "Shinjuku".to_string(),
            stop_ruby: None,
            parent_station: None,
        },
    ];
    let nodes = derive_nodes(&stops);
    assert_eq!(nodes.len(), 2);
    assert_eq!(nodes[0].node_id, 1);
    assert_eq!(nodes[0].node_name, "Shibuya");
    assert_eq!(nodes[0].node_ruby.as_deref(), Some("しぶや"));
    assert_eq!(nodes[1].node_id, 2);
    assert_eq!(nodes[1].node_name, "Shinjuku");
    assert_eq!(nodes[1].node_ruby, None);
}

#[test]
fn empty_parent_station_still_counts_as_top_level() {
    let stops = vec![StopDetail {
        stop_id: "S3".to_string(),
        stop_name: "Ueno".to_string(),
        stop_ruby: None,
        parent_station: Some(String::new()),
    }];
    let nodes = derive_nodes(&stops);
    assert_eq!(nodes.len(), 1);
    assert_eq!(nodes[0].node_id, 1);
    assert_eq!(nodes[0].node_name, "Ueno");
}

#[test]
fn rows_out_of_stop_sequence_order_are_sorted_first() {
    // the destination's row comes before the origin's row in the input
    let details = vec![
        detail("t1", 2, "B1", "B"),
        detail("t1", 1, "A0", "A"),
    ];
    let (t2sr, srs) =
        derive_service_routes(&details, IdentifyStrategy::StopNames, &Vec::new()).unwrap();
    assert_eq!(srs.len(), 1);
    assert_eq!(srs[0].service_route_name, "A - B");
    assert_eq!(srs[0].stop_pattern, vec!["A".to_string(), "B".to_string()]);
    assert_eq!(t2sr[0].trip_id, "t1");
}
