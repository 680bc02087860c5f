//! The service-route generator: maps each trip's ordered stop-time
//! details to a service route under a configurable identification
//! strategy, assigning dense sequential ids in first-observation order.
//!
//! Two trips share a service route exactly when their pattern keys are
//! equal or exact reverses of one another; the pattern first observed
//! runs in direction `0`, its reverse in direction `1`. The whole step is
//! modelled by the spec function [`generate_step`], and the executable
//! generator is proved to follow it.

use vstd::prelude::*;
use vstd::string::StringExecFns;
use vstd::string::StrSliceExecFns;

use crate::types::{GtfsError, GtfsErrorView, ServiceRoute, ServiceRouteView, StopTimeDetail,
    StopTimeDetailView};

verus! {

/// How trips are grouped into service routes.
#[derive(Debug, Clone, Copy, PartialEq, Eq, Structural)]
pub enum IdentifyStrategy {
    /// Pattern key: the ordered stop names along the trip.
    StopNames,
    /// Pattern key: the ordered stop ids along the trip.
    StopIds,
    /// Pattern key: first and last stop name only; mid-route variants
    /// collapse into one service route.
    FirstAndLastStopNames,
    /// Pattern keys are resolved through a caller-supplied identity table.
    IdentityTable,
}

/// One row of the user-supplied identity table: pins a pattern key to a
/// stable service route id, direction and name across runs.
#[derive(Debug, Clone, PartialEq, Eq)]
pub struct ServiceRouteIdentity {
    /// Ordered stop names of the pattern this row resolves.
    pub stop_pattern: Vec<String>,
    /// Direction the pattern runs in; `0` or `1`.
    pub direction_id: u32,
    pub service_route_id: u64,
    pub service_route_name: String,
}

/// Mathematical image of a [`ServiceRouteIdentity`].
pub ghost struct ServiceRouteIdentityView {
    pub stop_pattern: Seq<Seq<char>>,
    pub direction_id: int,
    pub service_route_id: int,
    pub service_route_name: Seq<char>,
}

impl View for ServiceRouteIdentity {
    type V = ServiceRouteIdentityView;

    open spec fn view(&self) -> ServiceRouteIdentityView {
        ServiceRouteIdentityView {
            stop_pattern: self.stop_pattern.deep_view(),
            direction_id: self.direction_id as int,
            service_route_id: self.service_route_id as int,
            service_route_name: self.service_route_name@,
        }
    }
}

impl DeepView for ServiceRouteIdentity {
    type V = ServiceRouteIdentityView;

    open spec fn deep_view(&self) -> ServiceRouteIdentityView {
        self.view()
    }
}

/// The pattern key of a trip under a strategy.
pub open spec fn pattern_key(strategy: IdentifyStrategy, trip: Seq<StopTimeDetailView>) -> Seq<
    Seq<char>,
>
    recommends
        trip.len() > 0,
{
    match strategy {
        IdentifyStrategy::StopIds => trip.map_values(|d: StopTimeDetailView| d.stop_id),
        IdentifyStrategy::FirstAndLastStopNames => seq![
            trip.first().stop_name,
            trip.last().stop_name,
        ],
        _ => trip.map_values(|d: StopTimeDetailView| d.stop_name),
    }
}

/// The name a new stop-based service route gets: origin and destination
/// of its direction-zero trip.
pub open spec fn route_name(trip: Seq<StopTimeDetailView>) -> Seq<char>
    recommends
        trip.len() > 0,
{
    trip.first().stop_name + " - "@ + trip.last().stop_name
}

/// Index of the first registry entry whose forward pattern is `k`,
/// scanning from `i`.
pub open spec fn find_pattern_from(reg: Seq<ServiceRouteView>, k: Seq<Seq<char>>, i: int) -> Option<
    int,
>
    decreases reg.len() - i,
{
    if i < 0 || i >= reg.len() {
        None
    } else if reg[i].stop_pattern == k {
        Some(i)
    } else {
        find_pattern_from(reg, k, i + 1)
    }
}

/// Index of the first registry entry whose forward pattern is `k`.
pub open spec fn find_pattern(reg: Seq<ServiceRouteView>, k: Seq<Seq<char>>) -> Option<int> {
    find_pattern_from(reg, k, 0)
}

/// Index of the first identity row whose pattern is `k`, scanning from `i`.
pub open spec fn find_identity_from(
    rows: Seq<ServiceRouteIdentityView>,
    k: Seq<Seq<char>>,
    i: int,
) -> Option<int>
    decreases rows.len() - i,
{
    if i < 0 || i >= rows.len() {
        None
    } else if rows[i].stop_pattern == k {
        Some(i)
    } else {
        find_identity_from(rows, k, i + 1)
    }
}

/// Index of the first identity row whose pattern is `k`.
pub open spec fn find_identity(rows: Seq<ServiceRouteIdentityView>, k: Seq<Seq<char>>) -> Option<
    int,
> {
    find_identity_from(rows, k, 0)
}

/// Index of the first registry entry with the given id, scanning from `i`.
pub open spec fn find_route_id_from(reg: Seq<ServiceRouteView>, id: int, i: int) -> Option<int>
    decreases reg.len() - i,
{
    if i < 0 || i >= reg.len() {
        None
    } else if reg[i].service_route_id == id {
        Some(i)
    } else {
        find_route_id_from(reg, id, i + 1)
    }
}

/// Index of the first registry entry with the given id.
pub open spec fn find_route_id(reg: Seq<ServiceRouteView>, id: int) -> Option<int> {
    find_route_id_from(reg, id, 0)
}

/// One generator step: given the identity rows and the registry so far,
/// what one trip yields — the registry afterwards and the route record
/// assigned to the trip — or which error it raises.
pub open spec fn generate_step(
    strategy: IdentifyStrategy,
    rows: Seq<ServiceRouteIdentityView>,
    reg: Seq<ServiceRouteView>,
    trip: Seq<StopTimeDetailView>,
) -> Result<(Seq<ServiceRouteView>, ServiceRouteView), GtfsErrorView> {
    if trip.len() == 0 {
        Err(GtfsErrorView::EmptyTrip)
    } else {
        let k = pattern_key(strategy, trip);
        if strategy is IdentityTable {
            match find_identity(rows, k) {
                None => Err(
                    GtfsErrorView::UnknownServiceRoute { trip_id: trip.first().trip_id },
                ),
                Some(i) => {
                    let row = rows[i];
                    let assigned = ServiceRouteView {
                        service_route_id: row.service_route_id,
                        direction_id: row.direction_id,
                        service_route_name: row.service_route_name,
                        stop_pattern: k,
                    };
                    let entry = ServiceRouteView {
                        service_route_id: row.service_route_id,
                        direction_id: row.direction_id,
                        service_route_name: row.service_route_name,
                        stop_pattern: row.stop_pattern,
                    };
                    if find_route_id(reg, row.service_route_id) is Some {
                        Ok((reg, assigned))
                    } else {
                        Ok((reg.push(entry), assigned))
                    }
                },
            }
        } else {
            match find_pattern(reg, k) {
                Some(i) => Ok(
                    (
                        reg,
                        ServiceRouteView {
                            service_route_id: reg[i].service_route_id,
                            direction_id: 0,
                            service_route_name: reg[i].service_route_name,
                            stop_pattern: k,
                        },
                    ),
                ),
                None => match find_pattern(reg, k.reverse()) {
                    Some(i) => Ok(
                        (
                            reg,
                            ServiceRouteView {
                                service_route_id: reg[i].service_route_id,
                                direction_id: 1,
                                service_route_name: reg[i].service_route_name,
                                stop_pattern: k,
                            },
                        ),
                    ),
                    None => {
                        let fresh = ServiceRouteView {
                            service_route_id: reg.len() as int + 1,
                            direction_id: 0,
                            service_route_name: route_name(trip),
                            stop_pattern: k,
                        };
                        Ok((reg.push(fresh), fresh))
                    },
                },
            }
        }
    }
}

/// Decides equality of two pattern keys.
fn key_eq(a: &Vec<String>, b: &Vec<String>) -> (r: bool)
    ensures
        r == (a.deep_view() == b.deep_view()),
{
    if a.len() != b.len() {
        assert(a.deep_view().len() != b.deep_view().len());
        return false;
    }
    let mut i: usize = 0;
    while i < a.len()
        invariant
            i <= a.len(),
            a@.len() == b@.len(),
            forall|j: int| 0 <= j < i ==> a.deep_view()[j] == b.deep_view()[j],
        decreases a.len() - i,
    {
        assert(a.deep_view()[i as int] == a@[i as int]@);
        assert(b.deep_view()[i as int] == b@[i as int]@);
        if !(a[i] == b[i]) {
            return false;
        }
        i += 1;
    }
    assert(a.deep_view() =~= b.deep_view());
    true
}

/// Builds the reverse of a pattern key.
fn reverse_key(k: &Vec<String>) -> (r: Vec<String>)
    ensures
        r.deep_view() == k.deep_view().reverse(),
{
    let mut out: Vec<String> = Vec::new();
    let mut i: usize = k.len();
    while i > 0
        invariant
            i <= k.len(),
            out@.len() == k@.len() - i,
            forall|j: int| 0 <= j < out@.len() ==> out@[j]@ == k@[k@.len() - 1 - j]@,
        decreases i,
    {
        i -= 1;
        let ghost prev_raw = out@;
        out.push(k[i].clone());
        assert forall|j: int| 0 <= j < out@.len() - 1 implies out@[j]@ == k@[k@.len() - 1 - j]@ by {
            assert(out@[j] == prev_raw[j]);
        }
        assert(out@[out@.len() - 1]@ == k@[i as int]@);
    }
    assert(out.deep_view() =~= k.deep_view().reverse());
    out
}

/// Builds the pattern key of a trip under a strategy.
fn pattern_of(strategy: IdentifyStrategy, trip: &Vec<StopTimeDetail>) -> (r: Vec<String>)
    requires
        trip@.len() > 0,
    ensures
        r.deep_view() == pattern_key(strategy, trip.deep_view()),
{
    let mut out: Vec<String> = Vec::new();
    match strategy {
        IdentifyStrategy::FirstAndLastStopNames => {
            out.push(trip[0].stop_name.clone());
            out.push(trip[trip.len() - 1].stop_name.clone());
            assert(out.deep_view() =~= pattern_key(strategy, trip.deep_view())) by {
                assert(trip.deep_view().first() == trip@[0]@);
                assert(trip.deep_view().last() == trip@[trip@.len() - 1]@);
            }
        },
        IdentifyStrategy::StopIds => {
            let mut i: usize = 0;
            while i < trip.len()
                invariant
                    i <= trip@.len(),
                    out@.len() == i,
                    forall|j: int| 0 <= j < i ==> out@[j]@ == trip@[j].stop_id@,
                decreases trip@.len() - i,
            {
                let ghost prev_raw = out@;
                out.push(trip[i].stop_id.clone());
                assert forall|j: int| 0 <= j < i implies out@[j]@ == trip@[j].stop_id@ by {
                    assert(out@[j] == prev_raw[j]);
                }
                assert(out@[i as int]@ == trip@[i as int].stop_id@);
                i += 1;
            }
            assert(out.deep_view() =~= pattern_key(strategy, trip.deep_view()));
        },
        _ => {
            let mut i: usize = 0;
            while i < trip.len()
                invariant
                    i <= trip@.len(),
                    out@.len() == i,
                    forall|j: int| 0 <= j < i ==> out@[j]@ == trip@[j].stop_name@,
                decreases trip@.len() - i,
            {
                let ghost prev_raw = out@;
                out.push(trip[i].stop_name.clone());
                assert forall|j: int| 0 <= j < i implies out@[j]@ == trip@[j].stop_name@ by {
                    assert(out@[j] == prev_raw[j]);
                }
                assert(out@[i as int]@ == trip@[i as int].stop_name@);
                i += 1;
            }
            assert(out.deep_view() =~= pattern_key(strategy, trip.deep_view()));
        },
    }
    out
}

/// Builds the route name of a trip: origin and destination joined.
fn route_name_of(trip: &Vec<StopTimeDetail>) -> (r: String)
    requires
        trip@.len() > 0,
    ensures
        r@ == route_name(trip.deep_view()),
{
    let mut s = trip[0].stop_name.clone();
    s.append(" - ");
    s.append(trip[trip.len() - 1].stop_name.as_str());
    assert(s@ =~= route_name(trip.deep_view())) by {
        assert(trip.deep_view().first() == trip@[0]@);
        assert(trip.deep_view().last() == trip@[trip@.len() - 1]@);
    }
    s
}

/// Finds the first registry entry whose forward pattern is `k`.
fn find_pattern_idx(routes: &Vec<ServiceRoute>, k: &Vec<String>) -> (r: Option<usize>)
    ensures
        r matches Some(i) ==> i < routes@.len() && find_pattern(routes.deep_view(), k.deep_view())
            == Some(i as int),
        r is None ==> find_pattern(routes.deep_view(), k.deep_view()) is None,
{
    let ghost reg = routes.deep_view();
    let ghost kd = k.deep_view();
    let mut j: usize = 0;
    while j < routes.len()
        invariant
            j <= routes@.len(),
            reg == routes.deep_view(),
            kd == k.deep_view(),
            find_pattern_from(reg, kd, 0) == find_pattern_from(reg, kd, j as int),
        decreases routes@.len() - j,
    {
        assert(reg[j as int] == routes@[j as int]@);
        if key_eq(&routes[j].stop_pattern, k) {
            assert(find_pattern_from(reg, kd, j as int) == Some(j as int));
            return Some(j);
        }
        j += 1;
    }
    assert(find_pattern_from(reg, kd, j as int) is None);
    None
}

/// Finds the first identity row whose pattern is `k`.
fn find_identity_idx(rows: &Vec<ServiceRouteIdentity>, k: &Vec<String>) -> (r: Option<usize>)
    ensures
        r matches Some(i) ==> i < rows@.len() && find_identity(rows.deep_view(), k.deep_view())
            == Some(i as int),
        r is None ==> find_identity(rows.deep_view(), k.deep_view()) is None,
{
    let ghost rs = rows.deep_view();
    let ghost kd = k.deep_view();
    let mut j: usize = 0;
    while j < rows.len()
        invariant
            j <= rows@.len(),
            rs == rows.deep_view(),
            kd == k.deep_view(),
            find_identity_from(rs, kd, 0) == find_identity_from(rs, kd, j as int),
        decreases rows@.len() - j,
    {
        assert(rs[j as int] == rows@[j as int]@);
        if key_eq(&rows[j].stop_pattern, k) {
            assert(find_identity_from(rs, kd, j as int) == Some(j as int));
            return Some(j);
        }
        j += 1;
    }
    assert(find_identity_from(rs, kd, j as int) is None);
    None
}

/// Finds the first registry entry with the given id.
fn find_route_id_idx(routes: &Vec<ServiceRoute>, id: u64) -> (r: Option<usize>)
    ensures
        r matches Some(i) ==> i < routes@.len() && find_route_id(routes.deep_view(), id as int)
            == Some(i as int),
        r is None ==> find_route_id(routes.deep_view(), id as int) is None,
{
    let ghost reg = routes.deep_view();
    let mut j: usize = 0;
    while j < routes.len()
        invariant
            j <= routes@.len(),
            reg == routes.deep_view(),
            find_route_id_from(reg, id as int, 0) == find_route_id_from(reg, id as int, j as int),
        decreases routes@.len() - j,
    {
        assert(reg[j as int] == routes@[j as int]@);
        if routes[j].service_route_id == id {
            assert(find_route_id_from(reg, id as int, j as int) == Some(j as int));
            return Some(j);
        }
        j += 1;
    }
    assert(find_route_id_from(reg, id as int, j as int) is None);
    None
}

/// Pure in-memory engine: feeds on one trip at a time, keeps the
/// registry of every distinct service route discovered during the run,
/// and hands the full set out at the end.
pub struct ServiceRouteGenerator {
    strategy: IdentifyStrategy,
    identity: Vec<ServiceRouteIdentity>,
    routes: Vec<ServiceRoute>,
}

impl ServiceRouteGenerator {
    /// The strategy this generator was configured with.
    pub closed spec fn strategy_spec(&self) -> IdentifyStrategy {
        self.strategy
    }

    /// The identity rows this generator resolves patterns against.
    pub closed spec fn identity_rows(&self) -> Seq<ServiceRouteIdentityView> {
        self.identity.deep_view()
    }

    /// The registry of service routes discovered so far, in discovery order.
    pub closed spec fn registry(&self) -> Seq<ServiceRouteView> {
        self.routes.deep_view()
    }

    /// A fresh generator with an empty registry. The identity rows are
    /// consulted only under [`IdentifyStrategy::IdentityTable`].
    pub fn new(strategy: IdentifyStrategy, identity: Vec<ServiceRouteIdentity>) -> (r: Self)
        ensures
            r.strategy_spec() == strategy,
            r.identity_rows() == identity.deep_view(),
            r.registry() == Seq::<ServiceRouteView>::empty(),
    {
        let routes: Vec<ServiceRoute> = Vec::new();
        assert(routes.deep_view() =~= Seq::<ServiceRouteView>::empty());
        ServiceRouteGenerator { strategy, identity, routes }
    }

    /// Maps one trip's ordered stop-time details to its service route,
    /// registering a new route when neither the pattern nor its reverse
    /// has been seen. Follows [`generate_step`] exactly.
    pub fn generate(&mut self, trip: &Vec<StopTimeDetail>) -> (r: Result<ServiceRoute, GtfsError>)
        requires
            old(self).registry().len() < u64::MAX,
        ensures
            final(self).strategy_spec() == old(self).strategy_spec(),
            final(self).identity_rows() == old(self).identity_rows(),
            match generate_step(
                old(self).strategy_spec(),
                old(self).identity_rows(),
                old(self).registry(),
                trip.deep_view(),
            ) {
                Ok((reg2, sr)) => r matches Ok(v) && v@ == sr && final(self).registry() == reg2,
                Err(e) => r matches Err(v) && v@ == e && final(self).registry() == old(
                    self,
                ).registry(),
            },
    {
        let ghost reg0 = self.registry();
        let ghost trip_v = trip.deep_view();
        if trip.len() == 0 {
            return Err(GtfsError::EmptyTrip);
        }
        let k = pattern_of(self.strategy, trip);
        let ghost kd = pattern_key(self.strategy, trip_v);
        match self.strategy {
            IdentifyStrategy::IdentityTable => {
                match find_identity_idx(&self.identity, &k) {
                    None => {
                        assert(trip_v.first().trip_id == trip@[0].trip_id@);
                        Err(GtfsError::UnknownServiceRoute { trip_id: trip[0].trip_id.clone() })
                    },
                    Some(i) => {
                        let row_id = self.identity[i].service_route_id;
                        let row_dir = self.identity[i].direction_id;
                        let row_name = self.identity[i].service_route_name.clone();
                        let ghost row = self.identity_rows()[i as int];
                        assert(row == self.identity@[i as int]@);
                        if find_route_id_idx(&self.routes, row_id).is_none() {
                            let entry = ServiceRoute {
                                service_route_id: row_id,
                                direction_id: row_dir,
                                service_route_name: row_name.clone(),
                                stop_pattern: self.identity[i].stop_pattern.clone(),
                            };
                            assert(entry@.stop_pattern =~= row.stop_pattern);
                            self.routes.push(entry);
                            assert(self.registry() =~= reg0.push(
                                ServiceRouteView {
                                    service_route_id: row.service_route_id,
                                    direction_id: row.direction_id,
                                    service_route_name: row.service_route_name,
                                    stop_pattern: row.stop_pattern,
                                },
                            ));
                        }
                        let assigned = ServiceRoute {
                            service_route_id: row_id,
                            direction_id: row_dir,
                            service_route_name: row_name,
                            stop_pattern: k,
                        };
                        Ok(assigned)
                    },
                }
            },
            _ => {
                match find_pattern_idx(&self.routes, &k) {
                    Some(i) => {
                        let found = ServiceRoute {
                            service_route_id: self.routes[i].service_route_id,
                            direction_id: 0,
                            service_route_name: self.routes[i].service_route_name.clone(),
                            stop_pattern: k,
                        };
                        assert(found@ == ServiceRouteView {
                            service_route_id: reg0[i as int].service_route_id,
                            direction_id: 0,
                            service_route_name: reg0[i as int].service_route_name,
                            stop_pattern: kd,
                        });
                        Ok(found)
                    },
                    None => {
                        let rk = reverse_key(&k);
                        match find_pattern_idx(&self.routes, &rk) {
                            Some(i) => {
                                let found = ServiceRoute {
                                    service_route_id: self.routes[i].service_route_id,
                                    direction_id: 1,
                                    service_route_name: self.routes[i].service_route_name.clone(),
                                    stop_pattern: k,
                                };
                                assert(found@ == ServiceRouteView {
                                    service_route_id: reg0[i as int].service_route_id,
                                    direction_id: 1,
                                    service_route_name: reg0[i as int].service_route_name,
                                    stop_pattern: kd,
                                });
                                Ok(found)
                            },
                            None => {
                                let name = route_name_of(trip);
                                let id = self.routes.len() as u64 + 1;
                                let fresh = ServiceRoute {
                                    service_route_id: id,
                                    direction_id: 0,
                                    service_route_name: name.clone(),
                                    stop_pattern: k,
                                };
                                let ghost fresh_v = fresh@;
                                let k2 = pattern_of(self.strategy, trip);
                                let again = ServiceRoute {
                                    service_route_id: id,
                                    direction_id: 0,
                                    service_route_name: name,
                                    stop_pattern: k2,
                                };
                                assert(again@ == fresh_v);
                                self.routes.push(fresh);
                                assert(self.registry() =~= reg0.push(fresh_v));
                                Ok(again)
                            },
                        }
                    },
                }
            },
        }
    }

    /// Every distinct service route generated so far, in discovery order;
    /// the caller sorts.
    pub fn all(&self) -> (r: Vec<ServiceRoute>)
        ensures
            r.deep_view() == self.registry(),
    {
        let mut out: Vec<ServiceRoute> = Vec::new();
        let mut i: usize = 0;
        while i < self.routes.len()
            invariant
                i <= self.routes@.len(),
                out@.len() == i,
                forall|j: int| 0 <= j < i ==> out@[j]@ == self.routes@[j]@,
            decreases self.routes@.len() - i,
        {
            let rec = ServiceRoute {
                service_route_id: self.routes[i].service_route_id,
                direction_id: self.routes[i].direction_id,
                service_route_name: self.routes[i].service_route_name.clone(),
                stop_pattern: self.routes[i].stop_pattern.clone(),
            };
            assert(rec@.stop_pattern =~= self.routes@[i as int]@.stop_pattern);
            assert(rec@ == self.routes@[i as int]@);
            let ghost prev_raw = out@;
            out.push(rec);
            assert forall|j: int| 0 <= j < i implies out@[j]@ == self.routes@[j]@ by {
                assert(out@[j] == prev_raw[j]);
            }
            i += 1;
        }
        assert(out.deep_view() =~= self.registry());
        out
    }
}

} // verus!
// Validation of a user-supplied identity table, before anything is
// derived or inserted.

verus! {

/// A well-formed identity row: a direction of zero or one, and a
/// non-empty pattern.
pub open spec fn identity_row_wf(row: ServiceRouteIdentityView) -> bool {
    &&& 0 <= row.direction_id <= 1
    &&& row.stop_pattern.len() > 0
}

/// Checks the identity table against its schema: succeeds exactly when
/// every row is well-formed, and otherwise reports the table malformed.
pub fn validate_identity(rows: &Vec<ServiceRouteIdentity>) -> (r: Result<(), GtfsError>)
    ensures
        r is Ok <==> (forall|i: int|
            0 <= i < rows.deep_view().len() ==> identity_row_wf(#[trigger] rows.deep_view()[i])),
        r matches Err(e) ==> e@ is MalformedIdentityTable,
{
    let mut i: usize = 0;
    while i < rows.len()
        invariant
            i <= rows@.len(),
            forall|j: int| 0 <= j < i ==> identity_row_wf(#[trigger] rows.deep_view()[j]),
        decreases rows@.len() - i,
    {
        assert(rows.deep_view()[i as int] == rows@[i as int]@);
        if rows[i].direction_id > 1 || rows[i].stop_pattern.len() == 0 {
            assert(!identity_row_wf(rows.deep_view()[i as int]));
            return Err(GtfsError::MalformedIdentityTable);
        }
        assert(identity_row_wf(rows.deep_view()[i as int]));
        i += 1;
    }
    Ok(())
}

} // verus!
