//! The derivation run over a whole feed: group the flat stop-time
//! details by trip, process trips in ascending `trip_id` order, collect
//! one assignment per trip and the distinct service routes, and sort
//! both outputs by primary key. The whole run is the spec function
//! [`derivation`], a pure function of the feed and the strategy.

use vstd::prelude::*;

use crate::order::{sorted_insert, insert_trip_id};
use crate::service_routes::{generate_step, IdentifyStrategy, ServiceRouteGenerator,
    ServiceRouteIdentity, ServiceRouteIdentityView};
use crate::types::{GtfsError, GtfsErrorView, ServiceRoute, ServiceRouteView, StopTimeDetail,
    StopTimeDetailView, Trip2ServiceRoute, Trip2ServiceRouteView};

verus! {

/// The distinct trip ids of the feed, in ascending order.
pub open spec fn trip_ids_sorted(details: Seq<StopTimeDetailView>) -> Seq<Seq<char>>
    decreases details.len(),
{
    if details.len() == 0 {
        Seq::<Seq<char>>::empty()
    } else {
        sorted_insert(trip_ids_sorted(details.drop_last()), details.last().trip_id)
    }
}

/// The rows of one trip, in the order the source yields them.
pub open spec fn trip_details(details: Seq<StopTimeDetailView>, tid: Seq<char>) -> Seq<
    StopTimeDetailView,
>
    decreases details.len(),
{
    if details.len() == 0 {
        Seq::<StopTimeDetailView>::empty()
    } else {
        let rest = trip_details(details.drop_last(), tid);
        if details.last().trip_id == tid {
            rest.push(details.last())
        } else {
            rest
        }
    }
}

/// Inserts a row into a list sorted by `stop_sequence`, after every row
/// with the same or a smaller sequence number, so rows with equal
/// sequence numbers keep their source order.
pub open spec fn insert_by_stop_sequence(
    s: Seq<StopTimeDetailView>,
    x: StopTimeDetailView,
) -> Seq<StopTimeDetailView>
    decreases s.len(),
{
    if s.len() == 0 {
        seq![x]
    } else if x.stop_sequence < s.first().stop_sequence {
        seq![x] + s
    } else {
        seq![s.first()] + insert_by_stop_sequence(s.drop_first(), x)
    }
}

/// A trip's rows sorted by `stop_sequence`.
pub open spec fn sorted_by_stop_sequence(trip: Seq<StopTimeDetailView>) -> Seq<StopTimeDetailView>
    decreases trip.len(),
{
    if trip.len() == 0 {
        Seq::<StopTimeDetailView>::empty()
    } else {
        insert_by_stop_sequence(sorted_by_stop_sequence(trip.drop_last()), trip.last())
    }
}

/// The rows of one trip, ordered by `stop_sequence` — the sequence a
/// trip's pattern key is read along, whatever order the source yields
/// the rows in.
pub open spec fn ordered_trip(details: Seq<StopTimeDetailView>, tid: Seq<char>) -> Seq<
    StopTimeDetailView,
> {
    sorted_by_stop_sequence(trip_details(details, tid))
}

/// Sorting a trip's rows keeps their number.
pub proof fn lemma_sorted_by_stop_sequence_len(trip: Seq<StopTimeDetailView>)
    ensures
        sorted_by_stop_sequence(trip).len() == trip.len(),
    decreases trip.len(),
{
    if trip.len() > 0 {
        lemma_sorted_by_stop_sequence_len(trip.drop_last());
        lemma_insert_by_stop_sequence_len(
            sorted_by_stop_sequence(trip.drop_last()),
            trip.last(),
        );
    }
}

/// Inserting a row grows a trip by exactly one row.
pub proof fn lemma_insert_by_stop_sequence_len(s: Seq<StopTimeDetailView>, x: StopTimeDetailView)
    ensures
        insert_by_stop_sequence(s, x).len() == s.len() + 1,
    decreases s.len(),
{
    if s.len() > 0 && !(x.stop_sequence < s.first().stop_sequence) {
        lemma_insert_by_stop_sequence_len(s.drop_first(), x);
    }
}

/// Feeds the trips named by `ids` through the generator in order,
/// emitting one assignment per trip, or stops at the first error.
pub open spec fn run_trips(
    strategy: IdentifyStrategy,
    rows: Seq<ServiceRouteIdentityView>,
    reg: Seq<ServiceRouteView>,
    details: Seq<StopTimeDetailView>,
    ids: Seq<Seq<char>>,
) -> Result<(Seq<ServiceRouteView>, Seq<Trip2ServiceRouteView>), GtfsErrorView>
    decreases ids.len(),
{
    if ids.len() == 0 {
        Ok((reg, Seq::<Trip2ServiceRouteView>::empty()))
    } else {
        match generate_step(strategy, rows, reg, ordered_trip(details, ids.first())) {
            Err(e) => Err(e),
            Ok((reg2, sr)) => match run_trips(strategy, rows, reg2, details, ids.drop_first()) {
                Err(e) => Err(e),
                Ok((reg_n, rest)) => Ok(
                    (
                        reg_n,
                        seq![
                            Trip2ServiceRouteView {
                                trip_id: ids.first(),
                                service_route_id: sr.service_route_id,
                                service_route_direction_id: sr.direction_id,
                            },
                        ] + rest,
                    ),
                ),
            },
        }
    }
}

/// Inserts a route into a list sorted by `service_route_id`.
pub open spec fn insert_by_id(s: Seq<ServiceRouteView>, x: ServiceRouteView) -> Seq<
    ServiceRouteView,
>
    decreases s.len(),
{
    if s.len() == 0 {
        seq![x]
    } else if x.service_route_id < s.first().service_route_id {
        seq![x] + s
    } else {
        seq![s.first()] + insert_by_id(s.drop_first(), x)
    }
}

/// The registry sorted by `service_route_id`.
pub open spec fn sorted_by_id(reg: Seq<ServiceRouteView>) -> Seq<ServiceRouteView>
    decreases reg.len(),
{
    if reg.len() == 0 {
        Seq::<ServiceRouteView>::empty()
    } else {
        insert_by_id(sorted_by_id(reg.drop_last()), reg.last())
    }
}

/// The whole derivation as a pure function of the feed and the
/// configuration: the trip assignments in ascending trip order, and the
/// distinct service routes in ascending id order — or the first error.
pub open spec fn derivation(
    details: Seq<StopTimeDetailView>,
    strategy: IdentifyStrategy,
    rows: Seq<ServiceRouteIdentityView>,
) -> Result<(Seq<Trip2ServiceRouteView>, Seq<ServiceRouteView>), GtfsErrorView> {
    match run_trips(
        strategy,
        rows,
        Seq::<ServiceRouteView>::empty(),
        details,
        trip_ids_sorted(details),
    ) {
        Err(e) => Err(e),
        Ok((reg, t2sr)) => Ok((t2sr, sorted_by_id(reg))),
    }
}

/// Copies one detail row; the copy has the same view.
pub(crate) fn clone_detail(d: &StopTimeDetail) -> (r: StopTimeDetail)
    ensures
        r@ == d@,
{
    let headsign: Option<String> = match &d.stop_headsign {
        Some(s) => Some(s.clone()),
        None => None,
    };
    StopTimeDetail {
        trip_id: d.trip_id.clone(),
        stop_sequence: d.stop_sequence,
        stop_id: d.stop_id.clone(),
        stop_name: d.stop_name.clone(),
        stop_headsign: headsign,
    }
}

/// Copies the identity rows; the copy has the same view.
pub(crate) fn clone_identity_rows(rows: &Vec<ServiceRouteIdentity>) -> (r: Vec<
    ServiceRouteIdentity,
>)
    ensures
        r.deep_view() == rows.deep_view(),
{
    let mut out: Vec<ServiceRouteIdentity> = Vec::new();
    let mut i: usize = 0;
    while i < rows.len()
        invariant
            i <= rows@.len(),
            out@.len() == i,
            forall|j: int| 0 <= j < i ==> out@[j]@ == rows@[j]@,
        decreases rows@.len() - i,
    {
        let mut pattern: Vec<String> = Vec::new();
        let mut p: usize = 0;
        while p < rows[i].stop_pattern.len()
            invariant
                i < rows@.len(),
                p <= rows@[i as int].stop_pattern@.len(),
                pattern@.len() == p,
                forall|q: int| 0 <= q < p ==> pattern@[q]@ == rows@[i as int].stop_pattern@[q]@,
            decreases rows@[i as int].stop_pattern@.len() - p,
        {
            let ghost prev_raw = pattern@;
            pattern.push(rows[i].stop_pattern[p].clone());
            assert forall|q: int| 0 <= q < p implies pattern@[q]@
                == rows@[i as int].stop_pattern@[q]@ by {
                assert(pattern@[q] == prev_raw[q]);
            }
            p += 1;
        }
        let rec = ServiceRouteIdentity {
            stop_pattern: pattern,
            direction_id: rows[i].direction_id,
            service_route_id: rows[i].service_route_id,
            service_route_name: rows[i].service_route_name.clone(),
        };
        assert(rec@.stop_pattern =~= rows@[i as int]@.stop_pattern);
        assert(rec@ == rows@[i as int]@);
        let ghost prev_raw = out@;
        out.push(rec);
        assert forall|j: int| 0 <= j < i implies out@[j]@ == rows@[j]@ by {
            assert(out@[j] == prev_raw[j]);
        }
        i += 1;
    }
    assert(out.deep_view() =~= rows.deep_view());
    out
}

/// The distinct trip ids of the feed, ascending.
fn collect_trip_ids(details: &Vec<StopTimeDetail>) -> (r: Vec<String>)
    ensures
        r.deep_view() == trip_ids_sorted(details.deep_view()),
{
    let ghost dv = details.deep_view();
    let mut ids: Vec<String> = Vec::new();
    let mut i: usize = 0;
    assert(ids.deep_view() =~= trip_ids_sorted(dv.take(0)));
    while i < details.len()
        invariant
            i <= details@.len(),
            dv == details.deep_view(),
            ids.deep_view() == trip_ids_sorted(dv.take(i as int)),
        decreases details@.len() - i,
    {
        insert_trip_id(&mut ids, &details[i].trip_id);
        assert(dv.take(i + 1).drop_last() =~= dv.take(i as int));
        assert(dv.take(i + 1).last() == dv[i as int]);
        assert(dv[i as int].trip_id == details@[i as int].trip_id@);
        i += 1;
    }
    assert(dv.take(details@.len() as int) =~= dv);
    ids
}

/// The rows of one trip, in source order.
fn gather_trip(details: &Vec<StopTimeDetail>, tid: &String) -> (r: Vec<StopTimeDetail>)
    ensures
        r.deep_view() == trip_details(details.deep_view(), tid@),
{
    let ghost dv = details.deep_view();
    let mut out: Vec<StopTimeDetail> = Vec::new();
    let mut i: usize = 0;
    assert(out.deep_view() =~= trip_details(dv.take(0), tid@));
    while i < details.len()
        invariant
            i <= details@.len(),
            dv == details.deep_view(),
            out.deep_view() == trip_details(dv.take(i as int), tid@),
        decreases details@.len() - i,
    {
        assert(dv.take(i + 1).drop_last() =~= dv.take(i as int));
        assert(dv.take(i + 1).last() == dv[i as int]);
        assert(dv[i as int].trip_id == details@[i as int].trip_id@);
        let ghost prev_dv = out.deep_view();
        let ghost prev_raw = out@;
        if details[i].trip_id == *tid {
            let rec = clone_detail(&details[i]);
            out.push(rec);
            assert(out.deep_view() =~= prev_dv.push(dv[i as int])) by {
                assert forall|j: int| 0 <= j < prev_raw.len() implies out@[j] == prev_raw[j] by {}
            }
        }
        i += 1;
    }
    assert(dv.take(details@.len() as int) =~= dv);
    out
}

/// Inserts one row into a vector sorted by `stop_sequence`, after every
/// row with the same or a smaller sequence number.
fn insert_detail_ordered(trip: &mut Vec<StopTimeDetail>, rec: StopTimeDetail)
    ensures
        final(trip).deep_view() == insert_by_stop_sequence(old(trip).deep_view(), rec@),
{
    let ghost s0 = old(trip).deep_view();
    let mut j: usize = 0;
    assert(s0.skip(0) =~= s0);
    assert(s0.take(0) + insert_by_stop_sequence(s0, rec@) =~= insert_by_stop_sequence(s0, rec@));
    while j < trip.len()
        invariant
            j <= trip@.len(),
            s0 == old(trip).deep_view(),
            trip.deep_view() == s0,
            trip@.len() == s0.len(),
            insert_by_stop_sequence(s0, rec@) == s0.take(j as int) + insert_by_stop_sequence(
                s0.skip(j as int),
                rec@,
            ),
        decreases trip@.len() - j,
    {
        assert(s0.skip(j as int)[0] == s0[j as int]);
        assert(trip@[j as int]@ == s0[j as int]);
        if rec.stop_sequence < trip[j].stop_sequence {
            trip.insert(j, rec);
            assert(insert_by_stop_sequence(s0.skip(j as int), rec@) == seq![rec@] + s0.skip(
                j as int,
            ));
            assert(trip.deep_view() =~= s0.take(j as int) + (seq![rec@] + s0.skip(j as int)));
            return ;
        }
        assert(s0.skip(j as int).drop_first() =~= s0.skip(j + 1));
        assert(insert_by_stop_sequence(s0.skip(j as int), rec@) == seq![s0[j as int]]
            + insert_by_stop_sequence(s0.skip(j + 1), rec@));
        assert(s0.take(j as int) + (seq![s0[j as int]] + insert_by_stop_sequence(
            s0.skip(j + 1),
            rec@,
        )) =~= s0.take(j + 1) + insert_by_stop_sequence(s0.skip(j + 1), rec@));
        j += 1;
    }
    assert(s0.skip(j as int).len() == 0);
    assert(insert_by_stop_sequence(s0.skip(j as int), rec@) == seq![rec@]);
    trip.push(rec);
    assert(trip.deep_view() =~= s0.take(s0.len() as int) + seq![rec@]);
    assert(s0.take(s0.len() as int) =~= s0);
}

/// Sorts one trip's rows by `stop_sequence`.
fn sort_trip(trip: Vec<StopTimeDetail>) -> (r: Vec<StopTimeDetail>)
    ensures
        r.deep_view() == sorted_by_stop_sequence(trip.deep_view()),
{
    let ghost dv = trip.deep_view();
    let mut out: Vec<StopTimeDetail> = Vec::new();
    let mut i: usize = 0;
    assert(out.deep_view() =~= sorted_by_stop_sequence(dv.take(0)));
    let n = trip.len();
    let mut rest = trip;
    while i < n
        invariant
            i <= n,
            n == dv.len(),
            rest@.len() == n - i,
            forall|j: int| 0 <= j < rest@.len() ==> rest@[j]@ == dv[i + j],
            out.deep_view() == sorted_by_stop_sequence(dv.take(i as int)),
        decreases n - i,
    {
        let ghost prev_rest = rest@;
        let rec = rest.remove(0);
        assert(rec@ == dv[i as int]);
        assert forall|j: int| 0 <= j < rest@.len() implies rest@[j]@ == dv[i + 1 + j] by {
            assert(rest@[j] == prev_rest[j + 1]);
        }
        insert_detail_ordered(&mut out, rec);
        assert(dv.take(i + 1).drop_last() =~= dv.take(i as int));
        assert(dv.take(i + 1).last() == dv[i as int]);
        i += 1;
    }
    assert(dv.take(n as int) =~= dv);
    out
}

/// Inserts one route into a vector sorted by `service_route_id`.
fn insert_route(routes: &mut Vec<ServiceRoute>, rec: ServiceRoute)
    ensures
        final(routes).deep_view() == insert_by_id(old(routes).deep_view(), rec@),
{
    let ghost s0 = old(routes).deep_view();
    let mut j: usize = 0;
    assert(s0.skip(0) =~= s0);
    assert(s0.take(0) + insert_by_id(s0, rec@) =~= insert_by_id(s0, rec@));
    while j < routes.len()
        invariant
            j <= routes@.len(),
            s0 == old(routes).deep_view(),
            routes.deep_view() == s0,
            routes@.len() == s0.len(),
            insert_by_id(s0, rec@) == s0.take(j as int) + insert_by_id(s0.skip(j as int), rec@),
        decreases routes@.len() - j,
    {
        assert(s0.skip(j as int)[0] == s0[j as int]);
        assert(routes@[j as int]@ == s0[j as int]);
        if rec.service_route_id < routes[j].service_route_id {
            let ghost prev_raw = routes@;
            routes.insert(j, rec);
            assert(insert_by_id(s0.skip(j as int), rec@) == seq![rec@] + s0.skip(j as int));
            assert(routes.deep_view() =~= s0.take(j as int) + (seq![rec@] + s0.skip(j as int)));
            return ;
        }
        assert(s0.skip(j as int).drop_first() =~= s0.skip(j + 1));
        assert(insert_by_id(s0.skip(j as int), rec@) == seq![s0[j as int]] + insert_by_id(
            s0.skip(j + 1),
            rec@,
        ));
        assert(s0.take(j as int) + (seq![s0[j as int]] + insert_by_id(s0.skip(j + 1), rec@))
            =~= s0.take(j + 1) + insert_by_id(s0.skip(j + 1), rec@));
        j += 1;
    }
    assert(s0.skip(j as int).len() == 0);
    assert(insert_by_id(s0.skip(j as int), rec@) == seq![rec@]);
    routes.push(rec);
    assert(routes.deep_view() =~= s0.take(s0.len() as int) + seq![rec@]);
    assert(s0.take(s0.len() as int) =~= s0);
}

/// Sorts the discovered routes by `service_route_id`.
fn sort_routes(routes: Vec<ServiceRoute>) -> (r: Vec<ServiceRoute>)
    ensures
        r.deep_view() == sorted_by_id(routes.deep_view()),
{
    let ghost dv = routes.deep_view();
    let mut out: Vec<ServiceRoute> = Vec::new();
    let mut i: usize = 0;
    assert(out.deep_view() =~= sorted_by_id(dv.take(0)));
    let n = routes.len();
    let mut rest = routes;
    while i < n
        invariant
            i <= n,
            n == dv.len(),
            rest@.len() == n - i,
            forall|j: int| 0 <= j < rest@.len() ==> rest@[j]@ == dv[i + j],
            out.deep_view() == sorted_by_id(dv.take(i as int)),
        decreases n - i,
    {
        let ghost prev_rest = rest@;
        let rec = rest.remove(0);
        assert(rec@ == dv[i as int]);
        assert forall|j: int| 0 <= j < rest@.len() implies rest@[j]@ == dv[i + 1 + j] by {
            assert(rest@[j] == prev_rest[j + 1]);
        }
        insert_route(&mut out, rec);
        assert(dv.take(i + 1).drop_last() =~= dv.take(i as int));
        assert(dv.take(i + 1).last() == dv[i as int]);
        i += 1;
    }
    assert(dv.take(n as int) =~= dv);
    out
}

/// Derives the two service-route tables from the feed's stop-time
/// details: one assignment per distinct trip, in ascending `trip_id`
/// order, and the distinct service routes discovered, in ascending
/// `service_route_id` order. Follows [`derivation`] exactly, so a second
/// run over the same input yields the same rows.
pub fn derive_service_routes(
    details: &Vec<StopTimeDetail>,
    strategy: IdentifyStrategy,
    identity: &Vec<ServiceRouteIdentity>,
) -> (r: Result<(Vec<Trip2ServiceRoute>, Vec<ServiceRoute>), GtfsError>)
    ensures
        match derivation(details.deep_view(), strategy, identity.deep_view()) {
            Ok((t2sr, srs)) => r matches Ok(p) && p.0.deep_view() == t2sr && p.1.deep_view()
                == srs,
            Err(e) => r matches Err(v) && v@ == e,
        },
{
    let ghost dv = details.deep_view();
    let ghost rowsd = identity.deep_view();
    let ids = collect_trip_ids(details);
    let ghost idsd = ids.deep_view();
    let rows = clone_identity_rows(identity);
    let mut generator = ServiceRouteGenerator::new(strategy, rows);
    let mut assignments: Vec<Trip2ServiceRoute> = Vec::new();
    let mut i: usize = 0;
    assert(idsd.skip(0) =~= idsd);
    let n = ids.len();
    while i < n
        invariant
            i <= n,
            n == idsd.len(),
            dv == details.deep_view(),
            rowsd == identity.deep_view(),
            idsd == ids.deep_view(),
            idsd == trip_ids_sorted(dv),
            ids@.len() == n,
            generator.strategy_spec() == strategy,
            generator.identity_rows() == rowsd,
            generator.registry().len() <= i,
            run_trips(strategy, rowsd, Seq::<ServiceRouteView>::empty(), dv, idsd) == (match
                run_trips(strategy, rowsd, generator.registry(), dv, idsd.skip(i as int)) {
                Ok((reg_n, rest)) => Ok::<_, GtfsErrorView>(
                    (reg_n, assignments.deep_view() + rest),
                ),
                Err(e) => Err(e),
            }),
        decreases n - i,
    {
        let trip = sort_trip(gather_trip(details, &ids[i]));
        assert(ids@[i as int]@ == idsd[i as int]);
        assert(idsd.skip(i as int)[0] == idsd[i as int]);
        assert(idsd.skip(i as int).drop_first() =~= idsd.skip(i + 1));
        assert(trip.deep_view() == ordered_trip(dv, idsd.skip(i as int).first()));
        assert(usize::MAX <= u64::MAX);
        let ghost reg_before = generator.registry();
        match generator.generate(&trip) {
            Err(e) => {
                assert(generate_step(strategy, rowsd, reg_before, trip.deep_view()) matches Err(
                    ev,
                ) && ev == e@);
                return Err(e);
            },
            Ok(sr) => {
                let ghost step = generate_step(strategy, rowsd, reg_before, trip.deep_view());
                assert(step matches Ok(p) && p.0 == generator.registry() && p.1 == sr@);
                let row = Trip2ServiceRoute {
                    trip_id: ids[i].clone(),
                    service_route_id: sr.service_route_id,
                    service_route_direction_id: sr.direction_id,
                };
                assert(row@ == Trip2ServiceRouteView {
                    trip_id: idsd.skip(i as int).first(),
                    service_route_id: sr@.service_route_id,
                    service_route_direction_id: sr@.direction_id,
                });
                let ghost prev_acc = assignments.deep_view();
                let ghost prev_raw = assignments@;
                assignments.push(row);
                assert(assignments.deep_view() =~= prev_acc.push(row@)) by {
                    assert forall|j: int| 0 <= j < prev_raw.len() implies assignments@[j]
                        == prev_raw[j] by {}
                }
                proof {
                    assert(generator.registry().len() <= reg_before.len() + 1);
                    match run_trips(strategy, rowsd, generator.registry(), dv, idsd.skip(i + 1)) {
                        Ok(pair) => {
                            assert(prev_acc + (seq![row@] + pair.1) =~= assignments.deep_view()
                                + pair.1);
                        },
                        Err(_) => {},
                    }
                }
            },
        }
        i += 1;
    }
    assert(idsd.skip(n as int).len() == 0);
    assert(run_trips(strategy, rowsd, generator.registry(), dv, idsd.skip(n as int)) == Ok::<
        _,
        GtfsErrorView,
    >((generator.registry(), Seq::<Trip2ServiceRouteView>::empty())));
    assert(assignments.deep_view() + Seq::<Trip2ServiceRouteView>::empty()
        =~= assignments.deep_view());
    let discovered = generator.all();
    let sorted = sort_routes(discovered);
    Ok((assignments, sorted))
}

} // verus!
