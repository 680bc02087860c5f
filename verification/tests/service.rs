use gtfs_db::agency::Agency;
use gtfs_db::create::Opts;
use gtfs_db::gtfs::{Gtfs, GtfsService, SinkError};
use gtfs_db::service_routes::{validate_identity, IdentifyStrategy, ServiceRouteIdentity};
use gtfs_db::types::{GtfsError, Node, ServiceRoute, StopDetail, StopTimeDetail, Trip2ServiceRoute};

/// An in-memory sink: serves canned rows and records what is inserted.
#[derive(Default)]
struct MemorySink {
    created: bool,
    dropped: bool,
    fail_writes: bool,
    fail_reads: bool,
    stop_time_details: Vec<StopTimeDetail>,
    stop_details: Vec<StopDetail>,
    agencies: Vec<Agency>,
    service_routes: Vec<ServiceRoute>,
    trips_to_service_routes: Vec<Trip2ServiceRoute>,
    nodes: Vec<Node>,
}

impl MemorySink {
    fn refused() -> SinkError {
        SinkError { message: "refused".to_string() }
    }
}

impl Gtfs for MemorySink {
    fn create_all(&mut self) -> Result<(), SinkError> {
        if self.fail_writes {
            return Err(Self::refused());
        }
        self.created = true;
        Ok(())
    }

    fn drop_all(&mut self) -> Result<(), SinkError> {
        if self.fail_writes {
            return Err(Self::refused());
        }
        self.dropped = true;
        Ok(())
    }

    fn insert_agencies(&mut self, agencies: &Vec<Agency>) -> Result<(), SinkError> {
        if self.fail_writes {
            return Err(Self::refused());
        }
        self.agencies.extend(agencies.iter().cloned());
        Ok(())
    }

    fn insert_service_routes(&mut self, routes: &Vec<ServiceRoute>) -> Result<(), SinkError> {
        if self.fail_writes {
            return Err(Self::refused());
        }
        self.service_routes.extend(routes.iter().cloned());
        Ok(())
    }

    fn insert_trips_to_service_routes(
        &mut self,
        rows: &Vec<Trip2ServiceRoute>,
    ) -> Result<(), SinkError> {
        if self.fail_writes {
            return Err(Self::refused());
        }
        self.trips_to_service_routes.extend(rows.iter().cloned());
        Ok(())
    }

    fn insert_nodes(&mut self, nodes: &Vec<Node>) -> Result<(), SinkError> {
        if self.fail_writes {
            return Err(Self::refused());
        }
        self.nodes.extend(nodes.iter().cloned());
        Ok(())
    }

    fn select_stop_time_details(&mut self) -> Result<Vec<StopTimeDetail>, SinkError> {
        if self.fail_reads {
            return Err(SinkError { message: "read failed".to_string() });
        }
        Ok(self.stop_time_details.clone())
    }

    fn select_stop_details(&mut self) -> Result<Vec<StopDetail>, SinkError> {
        if self.fail_reads {
            return Err(SinkError { message: "read failed".to_string() });
        }
        Ok(self.stop_details.clone())
    }
}

fn detail(trip_id: &str, stop_sequence: u32, stop_name: &str) -> StopTimeDetail {
    StopTimeDetail {
        trip_id: trip_id.to_string(),
        stop_sequence,
        stop_id: format!("{}-{}", stop_name, stop_sequence),
        stop_name: stop_name.to_string(),
        stop_headsign: None,
    }
}

fn sample_sink() -> MemorySink {
    let mut sink = MemorySink::default();
    sink.stop_time_details = vec![
        detail("t1", 1, "A"),
        detail("t1", 2, "B"),
        detail("t2", 1, "B"),
        detail("t2", 2, "A"),
    ];
    sink.stop_details = vec![
        StopDetail {
            stop_id: "S1".to_string(),
            stop_name: "Shibuya".to_string(),
            stop_ruby: None,
            parent_station: None,
        },
        StopDetail {
            stop_id: "plat1".to_string(),
            stop_name: "Shibuya east exit".to_string(),
            stop_ruby: None,
            parent_station: Some("S1".to_string()),
        },
    ];
    sink
}

#[test]
fn a_full_run_populates_the_derived_tables() {
    let mut service = GtfsService::new(sample_sink());
    service.drop_tables().unwrap();
    service.create_tables().unwrap();
    service
        .insert_service_routes_tables(IdentifyStrategy::StopNames, None)
        .unwrap();
    service.insert_nodes_tables().unwrap();
    let sink = service.into_sink();
    assert!(sink.created && sink.dropped);
    assert_eq!(sink.service_routes.len(), 1);
    assert_eq!(sink.service_routes[0].service_route_name, "A - B");
    assert_eq!(sink.trips_to_service_routes.len(), 2);
    assert_eq!(sink.trips_to_service_routes[0].trip_id, "t1");
    assert_eq!(sink.trips_to_service_routes[0].service_route_direction_id, 0);
    assert_eq!(sink.trips_to_service_routes[1].trip_id, "t2");
    assert_eq!(sink.trips_to_service_routes[1].service_route_direction_id, 1);
    assert_eq!(sink.nodes.len(), 1);
    assert_eq!(sink.nodes[0].node_name, "Shibuya");
}

#[test]
fn a_refused_write_surfaces_as_a_sink_failure() {
    let mut sink = sample_sink();
    sink.fail_writes = true;
    let mut service = GtfsService::new(sink);
    match service.create_tables() {
        Err(GtfsError::SinkFailure { .. }) => {}
        other => panic!("expected a sink failure, got {:?}", other),
    }
    match service.insert_service_routes_tables(IdentifyStrategy::StopNames, None) {
        Err(GtfsError::SinkFailure { .. }) => {}
        other => panic!("expected a sink failure, got {:?}", other),
    }
}

#[test]
fn a_failed_read_surfaces_as_a_source_failure() {
    let mut sink = sample_sink();
    sink.fail_reads = true;
    let mut service = GtfsService::new(sink);
    match service.insert_service_routes_tables(IdentifyStrategy::StopNames, None) {
        Err(GtfsError::SourceFailure { .. }) => {}
        other => panic!("expected a source failure, got {:?}", other),
    }
    match service.insert_nodes_tables() {
        Err(GtfsError::SourceFailure { .. }) => {}
        other => panic!("expected a source failure, got {:?}", other),
    }
}

#[test]
fn identity_strategy_without_a_table_is_malformed() {
    let mut service = GtfsService::new(sample_sink());
    assert_eq!(
        service.insert_service_routes_tables(IdentifyStrategy::IdentityTable, None),
        Err(GtfsError::MalformedIdentityTable)
    );
}

#[test]
fn an_unresolved_pattern_aborts_before_any_insert() {
    let table = vec![ServiceRouteIdentity {
        stop_pattern: vec!["X".to_string()],
        direction_id: 0,
        service_route_id: 1,
        service_route_name: "other".to_string(),
    }];
    let mut service = GtfsService::new(sample_sink());
    match service.insert_service_routes_tables(IdentifyStrategy::IdentityTable, Some(&table)) {
        Err(GtfsError::UnknownServiceRoute { trip_id }) => assert_eq!(trip_id, "t1"),
        other => panic!("expected an unknown service route, got {:?}", other),
    }
    let sink = service.into_sink();
    assert!(sink.service_routes.is_empty());
    assert!(sink.trips_to_service_routes.is_empty());
}

#[test]
fn validate_identity_accepts_well_formed_rows() {
    let table = vec![ServiceRouteIdentity {
        stop_pattern: vec!["A".to_string(), "B".to_string()],
        direction_id: 1,
        service_route_id: 3,
        service_route_name: "ok".to_string(),
    }];
    assert_eq!(validate_identity(&table), Ok(()));
}

#[test]
fn validate_identity_rejects_a_bad_direction() {
    let table = vec![ServiceRouteIdentity {
        stop_pattern: vec!["A".to_string()],
        direction_id: 2,
        service_route_id: 3,
        service_route_name: "bad".to_string(),
    }];
    assert_eq!(validate_identity(&table), Err(GtfsError::MalformedIdentityTable));
}

#[test]
fn validate_identity_rejects_an_empty_pattern() {
    let table = vec![ServiceRouteIdentity {
        stop_pattern: Vec::new(),
        direction_id: 0,
        service_route_id: 3,
        service_route_name: "bad".to_string(),
    }];
    assert_eq!(validate_identity(&table), Err(GtfsError::MalformedIdentityTable));
}

#[test]
fn inserting_agencies_records_them() {
    let mut service = GtfsService::new(MemorySink::default());
    let agencies = vec![Agency {
        agency_id: "8000020130001".to_string(),
        agency_name: "Toei Bus".to_string(),
        agency_url: "http://example.com/bus/".to_string(),
        agency_timezone: "Asia/Tokyo".to_string(),
        agency_lang: Some("ja".to_string()),
        agency_phone: None,
        agency_fare_url: None,
        agency_email: None,
    }];
    service.insert_tables(&agencies).unwrap();
    let sink = service.into_sink();
    assert_eq!(sink.agencies, agencies);
}

#[test]
fn agency_table_metadata_is_fixed() {
    assert_eq!(Agency::file_name(), "agency.txt");
    assert_eq!(Agency::table_name(), "agency");
    let columns = Agency::column_names();
    assert_eq!(columns.len(), 8);
    assert_eq!(columns[0], "agency_id");
    assert_eq!(columns[7], "agency_email");
    assert!(Agency::create_sql().contains("agency_id text primary key"));
}

#[test]
fn identity_strategy_requires_the_identity_file_option() {
    let mut opts = Opts {
        gtfs_dir: "feed".to_string(),
        database: "gtfs.db".to_string(),
        legacy_translations: false,
        service_route_identify_strategy: IdentifyStrategy::IdentityTable,
        service_route_identify: None,
    };
    assert!(!opts.validate());
    opts.service_route_identify = Some("identify.csv".to_string());
    assert!(opts.validate());
    opts.service_route_identify_strategy = IdentifyStrategy::StopNames;
    opts.service_route_identify = None;
    assert!(opts.validate());
}
