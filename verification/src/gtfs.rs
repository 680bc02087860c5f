//! The application service that drives a whole run against a storage
//! backend: create or drop the tables, load the plain GTFS rows, and
//! derive and insert the service-route and node tables.
//!
//! The backend is abstract: anything that implements the [`Gtfs`] sink —
//! an embedded SQL store in the ordinary case — can be driven. All
//! decisions are made by the verified derivation functions; the service
//! only moves rows between the sink and them.

use vstd::prelude::*;

use crate::agency::Agency;
use crate::derive::{clone_identity_rows, derive_service_routes};
use crate::laws::lemma_stop_based_total;
use crate::nodes::derive_nodes;
use crate::service_routes::{validate_identity, IdentifyStrategy, ServiceRouteIdentity};
use crate::types::{GtfsError, Node, ServiceRoute, StopDetail, StopTimeDetail, Trip2ServiceRoute};

verus! {

/// What the storage backend reports when a read or write fails.
#[derive(Debug, Clone, PartialEq, Eq)]
pub struct SinkError {
    pub message: String,
}

/// The storage backend the service drives: table management, bulk
/// inserts, and the two reads the derivation consumes. Implementations
/// live outside the library, next to the actual store.
pub trait Gtfs {
    /// Creates every table of the schema.
    fn create_all(&mut self) -> Result<(), SinkError>;

    /// Drops every table of the schema.
    fn drop_all(&mut self) -> Result<(), SinkError>;

    /// Inserts the agency rows; all rows commit together or none.
    fn insert_agencies(&mut self, agencies: &Vec<Agency>) -> Result<(), SinkError>;

    /// Inserts the derived service routes.
    fn insert_service_routes(&mut self, routes: &Vec<ServiceRoute>) -> Result<(), SinkError>;

    /// Inserts the derived trip assignments.
    fn insert_trips_to_service_routes(&mut self, rows: &Vec<Trip2ServiceRoute>) -> Result<
        (),
        SinkError,
    >;

    /// Inserts the derived nodes.
    fn insert_nodes(&mut self, nodes: &Vec<Node>) -> Result<(), SinkError>;

    /// Yields every stop-time detail row, in any order: the derivation
    /// groups the rows by trip and orders each trip by `stop_sequence`
    /// itself.
    fn select_stop_time_details(&mut self) -> Result<Vec<StopTimeDetail>, SinkError>;

    /// Yields one detail row per stop.
    fn select_stop_details(&mut self) -> Result<Vec<StopDetail>, SinkError>;
}

/// Application service crossing the whole of GTFS: one handle to the
/// sink, driven once per run.
pub struct GtfsService<G: Gtfs> {
    gtfs: G,
}

impl<G: Gtfs> GtfsService<G> {
    /// The sink this service drives.
    pub closed spec fn sink(&self) -> G {
        self.gtfs
    }

    pub fn new(gtfs: G) -> (r: Self)
        ensures
            r.sink() == gtfs,
    {
        GtfsService { gtfs }
    }

    /// Hands the sink back, consuming the service.
    pub fn into_sink(self) -> (r: G)
        ensures
            r == self.sink(),
    {
        self.gtfs
    }

    /// Creates all tables. Fails only when the sink refuses.
    pub fn create_tables(&mut self) -> (r: Result<(), GtfsError>)
        ensures
            r matches Err(e) ==> e@ is SinkFailure,
    {
        match self.gtfs.create_all() {
            Ok(()) => Ok(()),
            Err(e) => Err(GtfsError::SinkFailure { message: e.message }),
        }
    }

    /// Drops all tables. Fails only when the sink refuses.
    pub fn drop_tables(&mut self) -> (r: Result<(), GtfsError>)
        ensures
            r matches Err(e) ==> e@ is SinkFailure,
    {
        match self.gtfs.drop_all() {
            Ok(()) => Ok(()),
            Err(e) => Err(GtfsError::SinkFailure { message: e.message }),
        }
    }

    /// Loads the plain GTFS rows — read from the feed's files by the
    /// caller — into their tables. Fails only when the sink refuses.
    pub fn insert_tables(&mut self, agencies: &Vec<Agency>) -> (r: Result<(), GtfsError>)
        ensures
            r matches Err(e) ==> e@ is SinkFailure,
    {
        match self.gtfs.insert_agencies(agencies) {
            Ok(()) => Ok(()),
            Err(e) => Err(GtfsError::SinkFailure { message: e.message }),
        }
    }

    /// Derives the service routes from the feed's stop-time details and
    /// replaces the two service-route tables. Under a stop-based
    /// strategy the derivation itself cannot fail, so any error is the
    /// sink's or the source's; under the identity-table strategy a
    /// missing or malformed table and an unresolved pattern abort the
    /// run before anything is inserted.
    pub fn insert_service_routes_tables(
        &mut self,
        strategy: IdentifyStrategy,
        identity: Option<&Vec<ServiceRouteIdentity>>,
    ) -> (r: Result<(), GtfsError>)
        ensures
            r matches Err(e) ==> !(e@ is EmptyTrip),
            !(strategy is IdentityTable) ==> (r matches Err(e) ==> e@ is SinkFailure || e@
                is SourceFailure),
            strategy is IdentityTable && identity is None ==> (r matches Err(e) && e@
                is MalformedIdentityTable),
            strategy is IdentityTable && (identity matches Some(table) && !(forall|i: int|
                0 <= i < table.deep_view().len() ==> crate::service_routes::identity_row_wf(
                    #[trigger] table.deep_view()[i],
                ))) ==> (r matches Err(e) && e@ is MalformedIdentityTable),
            strategy is IdentityTable && (identity matches Some(table) && (forall|i: int|
                0 <= i < table.deep_view().len() ==> crate::service_routes::identity_row_wf(
                    #[trigger] table.deep_view()[i],
                ))) ==> (r matches Err(e) ==> e@ is UnknownServiceRoute || e@ is SinkFailure
                || e@ is SourceFailure),
    {
        let mut rows: Vec<ServiceRouteIdentity> = Vec::new();
        if matches!(strategy, IdentifyStrategy::IdentityTable) {
            match identity {
                None => {
                    return Err(GtfsError::MalformedIdentityTable);
                },
                Some(table) => {
                    match validate_identity(table) {
                        Err(e) => {
                            return Err(e);
                        },
                        Ok(()) => {},
                    }
                    rows = clone_identity_rows(table);
                },
            }
        }
        let details = match self.gtfs.select_stop_time_details() {
            Ok(d) => d,
            Err(e) => {
                return Err(GtfsError::SourceFailure { message: e.message });
            },
        };
        let (t2sr, srs) = match derive_service_routes(&details, strategy, &rows) {
            Ok(pair) => pair,
            Err(e) => {
                proof {
                    crate::laws::lemma_derivation_error_kinds(
                        details.deep_view(),
                        strategy,
                        rows.deep_view(),
                    );
                    if !(strategy is IdentityTable) {
                        lemma_stop_based_total(details.deep_view(), strategy, rows.deep_view());
                    }
                }
                return Err(e);
            },
        };
        match self.gtfs.insert_trips_to_service_routes(&t2sr) {
            Ok(()) => {},
            Err(e) => {
                return Err(GtfsError::SinkFailure { message: e.message });
            },
        }
        match self.gtfs.insert_service_routes(&srs) {
            Ok(()) => {},
            Err(e) => {
                return Err(GtfsError::SinkFailure { message: e.message });
            },
        }
        Ok(())
    }

    /// Derives the nodes from the stop rows and replaces the node table.
    /// The derivation itself cannot fail, so any error is the sink's or
    /// the source's.
    pub fn insert_nodes_tables(&mut self) -> (r: Result<(), GtfsError>)
        ensures
            r matches Err(e) ==> e@ is SinkFailure || e@ is SourceFailure,
    {
        let stops = match self.gtfs.select_stop_details() {
            Ok(s) => s,
            Err(e) => {
                return Err(GtfsError::SourceFailure { message: e.message });
            },
        };
        let nodes = derive_nodes(&stops);
        match self.gtfs.insert_nodes(&nodes) {
            Ok(()) => Ok(()),
            Err(e) => Err(GtfsError::SinkFailure { message: e.message }),
        }
    }
}

} // verus!
