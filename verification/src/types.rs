//! Rows that the derivation engine consumes and produces, their
//! mathematical views, and the error kinds of a run.

use vstd::prelude::*;

verus! {

/// One stop of one trip, in stop-sequence order: the row shape that the
/// stop-time detail source yields.
#[derive(Debug, Clone)]
pub struct StopTimeDetail {
    /// Trip this row belongs to.
    pub trip_id: String,
    /// Sort key within the trip: the derivation reads a trip's stops in
    /// ascending `stop_sequence` order.
    pub stop_sequence: u32,
    /// Stop visited at this position.
    pub stop_id: String,
    /// Name of that stop.
    pub stop_name: String,
    /// Headsign shown on the vehicle at this stop, if any.
    pub stop_headsign: Option<String>,
}

/// Mathematical image of a [`StopTimeDetail`].
pub ghost struct StopTimeDetailView {
    pub trip_id: Seq<char>,
    pub stop_sequence: int,
    pub stop_id: Seq<char>,
    pub stop_name: Seq<char>,
    pub stop_headsign: Option<Seq<char>>,
}

impl View for StopTimeDetail {
    type V = StopTimeDetailView;

    open spec fn view(&self) -> StopTimeDetailView {
        StopTimeDetailView {
            trip_id: self.trip_id@,
            stop_sequence: self.stop_sequence as int,
            stop_id: self.stop_id@,
            stop_name: self.stop_name@,
            stop_headsign: self.stop_headsign.deep_view(),
        }
    }
}

impl DeepView for StopTimeDetail {
    type V = StopTimeDetailView;

    open spec fn deep_view(&self) -> StopTimeDetailView {
        self.view()
    }
}

/// One stop row, as the stop detail source yields it.
#[derive(Debug, Clone)]
pub struct StopDetail {
    pub stop_id: String,
    pub stop_name: String,
    /// Phonetic reading of the name, if the feed carries one.
    pub stop_ruby: Option<String>,
    /// Station this stop belongs to; a stop with a non-empty parent is a
    /// child platform, not a node.
    pub parent_station: Option<String>,
}

/// Mathematical image of a [`StopDetail`].
pub ghost struct StopDetailView {
    pub stop_id: Seq<char>,
    pub stop_name: Seq<char>,
    pub stop_ruby: Option<Seq<char>>,
    pub parent_station: Option<Seq<char>>,
}

impl View for StopDetail {
    type V = StopDetailView;

    open spec fn view(&self) -> StopDetailView {
        StopDetailView {
            stop_id: self.stop_id@,
            stop_name: self.stop_name@,
            stop_ruby: self.stop_ruby.deep_view(),
            parent_station: self.parent_station.deep_view(),
        }
    }
}

impl DeepView for StopDetail {
    type V = StopDetailView;

    open spec fn deep_view(&self) -> StopDetailView {
        self.view()
    }
}

/// A derived service route: one equivalence class of trips that share a
/// service pattern under the chosen identification strategy.
#[derive(Debug, Clone, PartialEq, Eq)]
pub struct ServiceRoute {
    /// Identifies the pattern within one run.
    pub service_route_id: u64,
    /// `0` for the pattern first observed, `1` for its exact reverse.
    pub direction_id: u32,
    /// Origin and destination joined as `"<first> - <last>"`, or the name
    /// the identity table supplies.
    pub service_route_name: String,
    /// The forward pattern key that produced this route.
    pub stop_pattern: Vec<String>,
}

/// Mathematical image of a [`ServiceRoute`].
pub ghost struct ServiceRouteView {
    pub service_route_id: int,
    pub direction_id: int,
    pub service_route_name: Seq<char>,
    pub stop_pattern: Seq<Seq<char>>,
}

impl View for ServiceRoute {
    type V = ServiceRouteView;

    open spec fn view(&self) -> ServiceRouteView {
        ServiceRouteView {
            service_route_id: self.service_route_id as int,
            direction_id: self.direction_id as int,
            service_route_name: self.service_route_name@,
            stop_pattern: self.stop_pattern.deep_view(),
        }
    }
}

impl DeepView for ServiceRoute {
    type V = ServiceRouteView;

    open spec fn deep_view(&self) -> ServiceRouteView {
        self.view()
    }
}

/// Assignment of one trip to its service route.
#[derive(Debug, Clone, PartialEq, Eq)]
pub struct Trip2ServiceRoute {
    pub trip_id: String,
    pub service_route_id: u64,
    /// Direction the trip runs in on its service route.
    pub service_route_direction_id: u32,
}

/// Mathematical image of a [`Trip2ServiceRoute`].
pub ghost struct Trip2ServiceRouteView {
    pub trip_id: Seq<char>,
    pub service_route_id: int,
    pub service_route_direction_id: int,
}

impl View for Trip2ServiceRoute {
    type V = Trip2ServiceRouteView;

    open spec fn view(&self) -> Trip2ServiceRouteView {
        Trip2ServiceRouteView {
            trip_id: self.trip_id@,
            service_route_id: self.service_route_id as int,
            service_route_direction_id: self.service_route_direction_id as int,
        }
    }
}

impl DeepView for Trip2ServiceRoute {
    type V = Trip2ServiceRouteView;

    open spec fn deep_view(&self) -> Trip2ServiceRouteView {
        self.view()
    }
}

/// A derived node: a deduplicated top-level stop with a synthetic id.
#[derive(Debug, Clone, PartialEq, Eq)]
pub struct Node {
    /// Dense, starting at one, in input iteration order.
    pub node_id: u64,
    pub node_name: String,
    pub node_ruby: Option<String>,
}

/// Mathematical image of a [`Node`].
pub ghost struct NodeView {
    pub node_id: int,
    pub node_name: Seq<char>,
    pub node_ruby: Option<Seq<char>>,
}

impl View for Node {
    type V = NodeView;

    open spec fn view(&self) -> NodeView {
        NodeView {
            node_id: self.node_id as int,
            node_name: self.node_name@,
            node_ruby: self.node_ruby.deep_view(),
        }
    }
}

impl DeepView for Node {
    type V = NodeView;

    open spec fn deep_view(&self) -> NodeView {
        self.view()
    }
}

/// Everything that can end a run. Each kind is fatal: the orchestrator
/// stops at the first error and inserts nothing further.
#[derive(Debug, Clone, PartialEq, Eq)]
pub enum GtfsError {
    /// A trip had zero stop-time details.
    EmptyTrip,
    /// The identity table has no row for this trip's pattern key.
    UnknownServiceRoute { trip_id: String },
    /// The identity table violates its schema.
    MalformedIdentityTable,
    /// The storage sink refused a write.
    SinkFailure { message: String },
    /// A read from the source failed.
    SourceFailure { message: String },
}

/// Mathematical image of a [`GtfsError`].
pub ghost enum GtfsErrorView {
    EmptyTrip,
    UnknownServiceRoute { trip_id: Seq<char> },
    MalformedIdentityTable,
    SinkFailure { message: Seq<char> },
    SourceFailure { message: Seq<char> },
}

impl View for GtfsError {
    type V = GtfsErrorView;

    open spec fn view(&self) -> GtfsErrorView {
        match self {
            GtfsError::EmptyTrip => GtfsErrorView::EmptyTrip,
            GtfsError::UnknownServiceRoute { trip_id } => GtfsErrorView::UnknownServiceRoute {
                trip_id: trip_id@,
            },
            GtfsError::MalformedIdentityTable => GtfsErrorView::MalformedIdentityTable,
            GtfsError::SinkFailure { message } => GtfsErrorView::SinkFailure {
                message: message@,
            },
            GtfsError::SourceFailure { message } => GtfsErrorView::SourceFailure {
                message: message@,
            },
        }
    }
}

impl DeepView for GtfsError {
    type V = GtfsErrorView;

    open spec fn deep_view(&self) -> GtfsErrorView {
        self.view()
    }
}

} // verus!
