//! The guarantees of the derivation, stated and proved over the spec
//! model: coverage of every trip, referential integrity between the two
//! derived tables, density of the synthetic ids, direction symmetry and
//! pattern uniqueness for the stop-based strategies, determinism, and
//! the node filter.

use vstd::prelude::*;

use crate::derive::{derivation, insert_by_id, lemma_sorted_by_stop_sequence_len, ordered_trip,
    run_trips, sorted_by_id, trip_details, trip_ids_sorted};
use crate::nodes::{is_node_stop, nodes_of};
use crate::order::{lemma_sorted_insert_membership, lemma_sorted_insert_sorted, sorted_strict};
use crate::service_routes::{find_identity_from, find_pattern_from, find_route_id_from,
    generate_step, pattern_key, IdentifyStrategy, ServiceRouteIdentityView};
use crate::types::{GtfsErrorView, ServiceRouteView, StopDetailView, StopTimeDetailView,
    Trip2ServiceRouteView};

verus! {

/// The sorted trip ids hold exactly the trip ids of the feed's rows.
pub proof fn lemma_trip_ids_membership(details: Seq<StopTimeDetailView>, x: Seq<char>)
    ensures
        trip_ids_sorted(details).contains(x) <==> exists|j: int|
            0 <= j < details.len() && details[j].trip_id == x,
    decreases details.len(),
{
    if details.len() > 0 {
        let butlast = details.drop_last();
        lemma_trip_ids_membership(butlast, x);
        lemma_sorted_insert_membership(trip_ids_sorted(butlast), details.last().trip_id, x);
        if trip_ids_sorted(details).contains(x) {
            if x == details.last().trip_id {
                assert(details[details.len() - 1].trip_id == x);
            } else {
                let j = choose|j: int| 0 <= j < butlast.len() && butlast[j].trip_id == x;
                assert(details[j].trip_id == x);
            }
        }
        if exists|j: int| 0 <= j < details.len() && details[j].trip_id == x {
            let j = choose|j: int| 0 <= j < details.len() && details[j].trip_id == x;
            if j == details.len() - 1 {
            } else {
                assert(butlast[j].trip_id == x);
            }
        }
    }
}

/// The trip ids the orchestrator processes are strictly ascending.
pub proof fn lemma_trip_ids_sorted(details: Seq<StopTimeDetailView>)
    ensures
        sorted_strict(trip_ids_sorted(details)),
    decreases details.len(),
{
    if details.len() > 0 {
        lemma_trip_ids_sorted(details.drop_last());
        lemma_sorted_insert_sorted(trip_ids_sorted(details.drop_last()), details.last().trip_id);
    }
}

/// A trip id that occurs in the feed has a non-empty group of rows.
pub proof fn lemma_trip_details_nonempty(details: Seq<StopTimeDetailView>, tid: Seq<char>)
    requires
        exists|j: int| 0 <= j < details.len() && details[j].trip_id == tid,
    ensures
        trip_details(details, tid).len() > 0,
    decreases details.len(),
{
    let j = choose|j: int| 0 <= j < details.len() && details[j].trip_id == tid;
    if j == details.len() - 1 {
    } else {
        assert(details.drop_last()[j].trip_id == tid);
        lemma_trip_details_nonempty(details.drop_last(), tid);
    }
}

/// A pattern search that fails saw no matching entry.
pub proof fn lemma_find_pattern_none(reg: Seq<ServiceRouteView>, k: Seq<Seq<char>>, i: int)
    requires
        0 <= i,
        find_pattern_from(reg, k, i) is None,
    ensures
        forall|j: int| i <= j < reg.len() ==> reg[j].stop_pattern != k,
    decreases reg.len() - i,
{
    if 0 <= i < reg.len() {
        lemma_find_pattern_none(reg, k, i + 1);
    }
}

/// A pattern search that succeeds returns a matching entry.
pub proof fn lemma_find_pattern_some(reg: Seq<ServiceRouteView>, k: Seq<Seq<char>>, i: int)
    requires
        find_pattern_from(reg, k, i) is Some,
    ensures
        find_pattern_from(reg, k, i) matches Some(e) && i <= e < reg.len() && reg[e].stop_pattern
            == k,
    decreases reg.len() - i,
{
    if 0 <= i < reg.len() {
        if reg[i].stop_pattern == k {
        } else {
            lemma_find_pattern_some(reg, k, i + 1);
        }
    }
}

/// An id search that succeeds returns an entry with that id.
pub proof fn lemma_find_route_id_some(reg: Seq<ServiceRouteView>, id: int, i: int)
    requires
        find_route_id_from(reg, id, i) is Some,
    ensures
        find_route_id_from(reg, id, i) matches Some(e) && i <= e < reg.len()
            && reg[e].service_route_id == id,
    decreases reg.len() - i,
{
    if 0 <= i < reg.len() {
        if reg[i].service_route_id == id {
        } else {
            lemma_find_route_id_some(reg, id, i + 1);
        }
    }
}

/// An identity search that succeeds returns a matching row.
pub proof fn lemma_find_identity_some(rows: Seq<ServiceRouteIdentityView>, k: Seq<Seq<char>>, i: int)
    requires
        find_identity_from(rows, k, i) is Some,
    ensures
        find_identity_from(rows, k, i) matches Some(e) && i <= e < rows.len()
            && rows[e].stop_pattern == k,
    decreases rows.len() - i,
{
    if 0 <= i < rows.len() {
        if rows[i].stop_pattern == k {
        } else {
            lemma_find_identity_some(rows, k, i + 1);
        }
    }
}

/// Sorting by id neither adds nor removes routes.
pub proof fn lemma_insert_by_id_membership(s: Seq<ServiceRouteView>, x: ServiceRouteView, y: ServiceRouteView)
    ensures
        insert_by_id(s, x).contains(y) <==> s.contains(y) || y == x,
    decreases s.len(),
{
    if s.len() == 0 {
        assert(insert_by_id(s, x) =~= seq![x]);
        if y == x {
            assert(seq![x][0] == y);
        }
        if s.contains(y) {
            let i = choose|i: int| 0 <= i < s.len() && s[i] == y;
            assert(false);
        }
        if insert_by_id(s, x).contains(y) {
            let i = choose|i: int| 0 <= i < seq![x].len() && seq![x][i] == y;
            assert(y == x);
        }
    } else if x.service_route_id < s.first().service_route_id {
        let r = seq![x] + s;
        if y == x {
            assert(r[0] == y);
        }
        if s.contains(y) {
            let i = choose|i: int| 0 <= i < s.len() && s[i] == y;
            assert(r[i + 1] == y);
        }
        if r.contains(y) {
            let i = choose|i: int| 0 <= i < r.len() && r[i] == y;
            if i == 0 {
            } else {
                assert(s[i - 1] == y);
            }
        }
    } else {
        let rest = s.drop_first();
        lemma_insert_by_id_membership(rest, x, y);
        let r = seq![s.first()] + insert_by_id(rest, x);
        assert(insert_by_id(s, x) == r);
        if y == x || s.contains(y) {
            if y == x || rest.contains(y) {
                let i = choose|i: int| 0 <= i < insert_by_id(rest, x).len() && insert_by_id(
                    rest,
                    x,
                )[i] == y;
                assert(r[i + 1] == y);
            } else {
                let i = choose|i: int| 0 <= i < s.len() && s[i] == y;
                if i == 0 {
                    assert(r[0] == y);
                } else {
                    assert(rest[i - 1] == y);
                }
            }
        }
        if r.contains(y) {
            let i = choose|i: int| 0 <= i < r.len() && r[i] == y;
            if i == 0 {
                assert(s[0] == y);
            } else {
                assert(insert_by_id(rest, x)[i - 1] == y);
                if rest.contains(y) {
                    let j = choose|j: int| 0 <= j < rest.len() && rest[j] == y;
                    assert(s[j + 1] == y);
                }
            }
        }
    }
}

/// The sorted route table holds exactly the discovered routes.
pub proof fn lemma_sorted_by_id_membership(reg: Seq<ServiceRouteView>, y: ServiceRouteView)
    ensures
        sorted_by_id(reg).contains(y) <==> reg.contains(y),
    decreases reg.len(),
{
    if reg.len() > 0 {
        let butlast = reg.drop_last();
        lemma_sorted_by_id_membership(butlast, y);
        lemma_insert_by_id_membership(sorted_by_id(butlast), reg.last(), y);
        if sorted_by_id(reg).contains(y) {
            if y == reg.last() {
                assert(reg[reg.len() - 1] == y);
            } else {
                let i = choose|i: int| 0 <= i < butlast.len() && butlast[i] == y;
                assert(reg[i] == y);
            }
        }
        if reg.contains(y) {
            let i = choose|i: int| 0 <= i < reg.len() && reg[i] == y;
            if i == reg.len() - 1 {
            } else {
                assert(butlast[i] == y);
            }
        }
    }
}

/// Shape of a successful run, for every strategy: one assignment per
/// processed trip id, in order, and every assigned `service_route_id`
/// present in the final registry, which only grows.
#[verifier::rlimit(100)]
pub proof fn lemma_run_trips_shape(
    strategy: IdentifyStrategy,
    rows: Seq<ServiceRouteIdentityView>,
    reg: Seq<ServiceRouteView>,
    details: Seq<StopTimeDetailView>,
    ids: Seq<Seq<char>>,
)
    requires
        run_trips(strategy, rows, reg, details, ids) is Ok,
    ensures
        run_trips(strategy, rows, reg, details, ids) matches Ok((reg_n, t2sr)) && {
            &&& t2sr.len() == ids.len()
            &&& forall|t: int| 0 <= t < ids.len() ==> t2sr[t].trip_id == ids[t]
            &&& reg_n.len() >= reg.len()
            &&& forall|e: int| 0 <= e < reg.len() ==> reg_n[e] == reg[e]
            &&& forall|t: int| 0 <= t < t2sr.len() ==> exists|e: int|
                0 <= e < reg_n.len() && reg_n[e].service_route_id == #[trigger] t2sr[t].service_route_id
        },
    decreases ids.len(),
{
    if ids.len() > 0 {
        let trip = ordered_trip(details, ids.first());
        let step = generate_step(strategy, rows, reg, trip);
        let (reg2, sr) = step->Ok_0;
        lemma_run_trips_shape(strategy, rows, reg2, details, ids.drop_first());
        let rest_run = run_trips(strategy, rows, reg2, details, ids.drop_first());
        let (reg_n, rest) = rest_run->Ok_0;
        let row = Trip2ServiceRouteView {
            trip_id: ids.first(),
            service_route_id: sr.service_route_id,
            service_route_direction_id: sr.direction_id,
        };
        let t2sr = seq![row] + rest;
        assert(run_trips(strategy, rows, reg, details, ids) == Ok::<_, GtfsErrorView>(
            (reg_n, t2sr),
        ));
        assert forall|t: int| 0 <= t < ids.len() implies t2sr[t].trip_id == ids[t] by {
            if t > 0 {
                assert(t2sr[t] == rest[t - 1]);
                assert(ids.drop_first()[t - 1] == ids[t]);
            }
        }
        // the step's own registry extends `reg` and holds the assigned id
        assert(reg2.len() >= reg.len() && forall|e: int| 0 <= e < reg.len() ==> reg2[e] == reg[e])
            by {
            if !(strategy is IdentityTable) {
                if find_pattern_from(reg, pattern_key(strategy, trip), 0) is Some {
                } else if find_pattern_from(
                    reg,
                    pattern_key(strategy, trip).reverse(),
                    0,
                ) is Some {
                }
            }
        }
        assert(exists|e: int| 0 <= e < reg2.len() && reg2[e].service_route_id
            == sr.service_route_id) by {
            let k = pattern_key(strategy, trip);
            if strategy is IdentityTable {
                let ri = find_identity_from(rows, k, 0);
                lemma_find_identity_some(rows, k, 0);
                let row_found = rows[ri->Some_0];
                if find_route_id_from(reg, row_found.service_route_id, 0) is Some {
                    lemma_find_route_id_some(reg, row_found.service_route_id, 0);
                } else {
                    assert(reg2[reg2.len() - 1].service_route_id == sr.service_route_id);
                }
            } else {
                if find_pattern_from(reg, k, 0) is Some {
                    lemma_find_pattern_some(reg, k, 0);
                } else if find_pattern_from(reg, k.reverse(), 0) is Some {
                    lemma_find_pattern_some(reg, k.reverse(), 0);
                } else {
                    assert(reg2[reg2.len() - 1].service_route_id == sr.service_route_id);
                }
            }
        }
        // rows of the tail keep their witnesses in the final registry; the
        // head row's witness persists because `reg2` is a prefix of `reg_n`
        assert forall|t: int| 0 <= t < t2sr.len() implies exists|e: int|
            0 <= e < reg_n.len() && reg_n[e].service_route_id == #[trigger] t2sr[t].service_route_id by {
            if t == 0 {
                let e = choose|e: int| 0 <= e < reg2.len() && reg2[e].service_route_id
                    == sr.service_route_id;
                assert(reg_n[e].service_route_id == t2sr[0].service_route_id);
            } else {
                assert(t2sr[t] == rest[t - 1]);
            }
        }
        assert(reg_n.len() >= reg.len());
        assert forall|e: int| 0 <= e < reg.len() implies reg_n[e] == reg[e] by {
            assert(reg_n[e] == reg2[e]);
        }
        assert(t2sr.len() == ids.len());
    } else {
        assert(run_trips(strategy, rows, reg, details, ids) == Ok::<_, GtfsErrorView>(
            (reg, Seq::<Trip2ServiceRouteView>::empty()),
        ));
    }
}

/// Coverage: a successful run assigns every trip id of the feed exactly
/// once — the assignment table lists the feed's distinct trip ids, in
/// strictly ascending order, nothing else and nothing twice.
pub proof fn lemma_trip_coverage(
    details: Seq<StopTimeDetailView>,
    strategy: IdentifyStrategy,
    rows: Seq<ServiceRouteIdentityView>,
)
    requires
        derivation(details, strategy, rows) is Ok,
    ensures
        derivation(details, strategy, rows) matches Ok((t2sr, srs)) && {
            &&& forall|j: int| #![trigger details[j]]
                0 <= j < details.len() ==> exists|t: int| #![trigger t2sr[t]]
                    0 <= t < t2sr.len() && t2sr[t].trip_id == details[j].trip_id
            &&& forall|t: int| #![trigger t2sr[t]]
                0 <= t < t2sr.len() ==> exists|j: int| #![trigger details[j]]
                    0 <= j < details.len() && details[j].trip_id == t2sr[t].trip_id
            &&& forall|t: int, u: int| 0 <= t < u < t2sr.len() ==> t2sr[t].trip_id != t2sr[u].trip_id
        },
{
    let ids = trip_ids_sorted(details);
    lemma_run_trips_shape(strategy, rows, Seq::<ServiceRouteView>::empty(), details, ids);
    lemma_trip_ids_sorted(details);
    let (t2sr, srs) = derivation(details, strategy, rows)->Ok_0;
    assert forall|j: int| #![trigger details[j]] 0 <= j < details.len() implies exists|t: int|
        #![trigger t2sr[t]]
        0 <= t < t2sr.len() && t2sr[t].trip_id == details[j].trip_id by {
        let x = details[j].trip_id;
        lemma_trip_ids_membership(details, x);
        assert(ids.contains(x));
        let t = choose|t: int| 0 <= t < ids.len() && ids[t] == x;
        assert(t2sr[t].trip_id == x);
    }
    assert forall|t: int| #![trigger t2sr[t]] 0 <= t < t2sr.len() implies exists|j: int|
        #![trigger details[j]]
        0 <= j < details.len() && details[j].trip_id == t2sr[t].trip_id by {
        let x = t2sr[t].trip_id;
        assert(ids[t] == x);
        assert(ids.contains(x));
        lemma_trip_ids_membership(details, x);
        let j = choose|j: int| 0 <= j < details.len() && details[j].trip_id == x;
        assert(details[j].trip_id == t2sr[t].trip_id);
    }
    assert forall|t: int, u: int| 0 <= t < u < t2sr.len() implies t2sr[t].trip_id != t2sr[u].trip_id by {
        assert(crate::order::lex_lt(ids[t], ids[u]));
        crate::order::lemma_lex_lt_asym(ids[t], ids[u]);
    }
}

/// Referential integrity: every `service_route_id` the assignment table
/// mentions is the id of a row of the service-route table.
pub proof fn lemma_referential_integrity(
    details: Seq<StopTimeDetailView>,
    strategy: IdentifyStrategy,
    rows: Seq<ServiceRouteIdentityView>,
)
    requires
        derivation(details, strategy, rows) is Ok,
    ensures
        derivation(details, strategy, rows) matches Ok((t2sr, srs)) && forall|t: int|
            #![trigger t2sr[t]]
            0 <= t < t2sr.len() ==> exists|e: int| #![trigger srs[e]]
                0 <= e < srs.len() && srs[e].service_route_id == t2sr[t].service_route_id,
{
    let ids = trip_ids_sorted(details);
    lemma_run_trips_shape(strategy, rows, Seq::<ServiceRouteView>::empty(), details, ids);
    let run = run_trips(strategy, rows, Seq::<ServiceRouteView>::empty(), details, ids);
    let (reg_n, t2sr0) = run->Ok_0;
    let (t2sr, srs) = derivation(details, strategy, rows)->Ok_0;
    assert(t2sr == t2sr0 && srs == sorted_by_id(reg_n));
    assert forall|t: int| #![trigger t2sr[t]] 0 <= t < t2sr.len() implies exists|e: int|
        #![trigger srs[e]]
        0 <= e < srs.len() && srs[e].service_route_id == t2sr[t].service_route_id by {
        let e = choose|e: int| 0 <= e < reg_n.len() && reg_n[e].service_route_id == t2sr[t].service_route_id;
        assert(reg_n.contains(reg_n[e]));
        lemma_sorted_by_id_membership(reg_n, reg_n[e]);
        assert(srs.contains(reg_n[e]));
        let f = choose|f: int| 0 <= f < srs.len() && srs[f] == reg_n[e];
        assert(srs[f].service_route_id == t2sr[t].service_route_id);
    }
}

/// Determinism: the derivation is a pure function of the feed and the
/// configuration, so two runs over the same input yield the same tables.
pub proof fn lemma_determinism(
    details: Seq<StopTimeDetailView>,
    strategy: IdentifyStrategy,
    rows: Seq<ServiceRouteIdentityView>,
    first: Result<(Seq<Trip2ServiceRouteView>, Seq<ServiceRouteView>), GtfsErrorView>,
    second: Result<(Seq<Trip2ServiceRouteView>, Seq<ServiceRouteView>), GtfsErrorView>,
)
    requires
        first == derivation(details, strategy, rows),
        second == derivation(details, strategy, rows),
    ensures
        first == second,
{
}

/// The node ids are dense: the row at position `i` has id `i + 1`.
pub proof fn lemma_node_ids_dense(stops: Seq<StopDetailView>)
    ensures
        forall|i: int| 0 <= i < nodes_of(stops).len() ==> #[trigger] nodes_of(stops)[i].node_id
            == i + 1,
    decreases stops.len(),
{
    if stops.len() > 0 {
        lemma_node_ids_dense(stops.drop_last());
    }
}

/// The node filter: every node comes from a stop without a parent
/// station; a child platform is never in the node table.
pub proof fn lemma_node_filter(stops: Seq<StopDetailView>)
    ensures
        forall|i: int| #![trigger nodes_of(stops)[i]]
            0 <= i < nodes_of(stops).len() ==> exists|j: int| #![trigger stops[j]]
                0 <= j < stops.len() && is_node_stop(stops[j]) && nodes_of(stops)[i].node_name
                    == stops[j].stop_name && nodes_of(stops)[i].node_ruby == stops[j].stop_ruby,
    decreases stops.len(),
{
    if stops.len() > 0 {
        let butlast = stops.drop_last();
        lemma_node_filter(butlast);
        assert forall|i: int| #![trigger nodes_of(stops)[i]]
            0 <= i < nodes_of(stops).len() implies exists|j: int| #![trigger stops[j]]
                0 <= j < stops.len() && is_node_stop(stops[j]) && nodes_of(stops)[i].node_name
                    == stops[j].stop_name && nodes_of(stops)[i].node_ruby == stops[j].stop_ruby by {
            if i < nodes_of(butlast).len() {
                let j = choose|j: int| 0 <= j < butlast.len() && is_node_stop(butlast[j])
                    && nodes_of(butlast)[i].node_name == butlast[j].stop_name && nodes_of(
                    butlast,
                )[i].node_ruby == butlast[j].stop_ruby;
                assert(stops[j] == butlast[j]);
                assert(nodes_of(stops)[i] == nodes_of(butlast)[i]);
            } else {
                assert(is_node_stop(stops[stops.len() - 1]));
            }
        }
    }
}

} // verus!
// The stop-based guarantees: under the stop-based strategies the run
// never fails, ids are dense, and assignments are determined by the
// pattern class alone.

verus! {

/// Double reversal is the identity.
pub proof fn lemma_reverse_involution(s: Seq<Seq<char>>)
    ensures
        s.reverse().reverse() == s,
{
    assert(s.reverse().reverse() =~= s);
}

/// No two registered routes share a pattern, forward or reversed.
pub open spec fn registry_patterns_unique(reg: Seq<ServiceRouteView>) -> bool {
    forall|i: int, j: int|
        0 <= i < reg.len() && 0 <= j < reg.len() && i != j ==> #[trigger] reg[i].stop_pattern
            != #[trigger] reg[j].stop_pattern && reg[i].stop_pattern
            != reg[j].stop_pattern.reverse()
}

/// The registry ids are dense: position `i` holds id `i + 1`.
pub open spec fn registry_ids_dense(reg: Seq<ServiceRouteView>) -> bool {
    forall|i: int| 0 <= i < reg.len() ==> #[trigger] reg[i].service_route_id == i + 1
}

/// A trip with pattern key `k` is assigned the id of the registered
/// route of its class, with direction `0` on the route's own pattern and
/// `1` on the exact reverse.
pub open spec fn assigned_to(
    reg: Seq<ServiceRouteView>,
    k: Seq<Seq<char>>,
    row: Trip2ServiceRouteView,
) -> bool {
    exists|e: int| #![trigger reg[e]]
        0 <= e < reg.len() && reg[e].service_route_id == row.service_route_id && ((
        reg[e].stop_pattern == k && row.service_route_direction_id == 0) || (reg[e].stop_pattern
            != k && reg[e].stop_pattern == k.reverse() && row.service_route_direction_id == 1))
}

/// The run under a stop-based strategy: it always succeeds, keeps the
/// registry dense and pattern-unique, and assigns every trip to the
/// registered route of its pattern class.
pub proof fn lemma_run_trips_stop_based(
    strategy: IdentifyStrategy,
    rows: Seq<ServiceRouteIdentityView>,
    reg: Seq<ServiceRouteView>,
    details: Seq<StopTimeDetailView>,
    ids: Seq<Seq<char>>,
)
    requires
        !(strategy is IdentityTable),
        registry_ids_dense(reg),
        registry_patterns_unique(reg),
        forall|t: int| 0 <= t < ids.len() ==> trip_details(details, #[trigger] ids[t]).len() > 0,
    ensures
        run_trips(strategy, rows, reg, details, ids) matches Ok((reg_n, t2sr)) && {
            &&& registry_ids_dense(reg_n)
            &&& registry_patterns_unique(reg_n)
            &&& reg_n.len() >= reg.len()
            &&& forall|e: int| 0 <= e < reg.len() ==> reg_n[e] == reg[e]
            &&& t2sr.len() == ids.len()
            &&& forall|t: int| #![trigger t2sr[t]]
                0 <= t < ids.len() ==> t2sr[t].trip_id == ids[t] && assigned_to(
                    reg_n,
                    pattern_key(strategy, ordered_trip(details, ids[t])),
                    t2sr[t],
                )
        },
    decreases ids.len(),
{
    if ids.len() > 0 {
        let trip = ordered_trip(details, ids.first());
        assert(trip.len() > 0) by {
            assert(ids[0] == ids.first());
            lemma_sorted_by_stop_sequence_len(trip_details(details, ids.first()));
        }
        let k = pattern_key(strategy, trip);
        let step = generate_step(strategy, rows, reg, trip);
        let fwd = find_pattern_from(reg, k, 0);
        let rev = find_pattern_from(reg, k.reverse(), 0);
        assert(step is Ok);
        let (reg2, sr) = step->Ok_0;
        let row = Trip2ServiceRouteView {
            trip_id: ids.first(),
            service_route_id: sr.service_route_id,
            service_route_direction_id: sr.direction_id,
        };
        if fwd is Some {
            lemma_find_pattern_some(reg, k, 0);
            let e = fwd->Some_0;
            assert(reg2 == reg);
            assert(reg2[e].stop_pattern == k && row.service_route_direction_id == 0);
            assert(assigned_to(reg2, k, row));
        } else if rev is Some {
            lemma_find_pattern_some(reg, k.reverse(), 0);
            lemma_find_pattern_none(reg, k, 0);
            let e = rev->Some_0;
            assert(reg2 == reg);
            assert(reg2[e].stop_pattern != k && reg2[e].stop_pattern == k.reverse()
                && row.service_route_direction_id == 1);
            assert(assigned_to(reg2, k, row));
        } else {
            lemma_find_pattern_none(reg, k, 0);
            lemma_find_pattern_none(reg, k.reverse(), 0);
            assert(reg2 == reg.push(
                ServiceRouteView {
                    service_route_id: reg.len() as int + 1,
                    direction_id: 0,
                    service_route_name: crate::service_routes::route_name(trip),
                    stop_pattern: k,
                },
            ));
            assert(registry_ids_dense(reg2));
            assert forall|i: int, j: int|
                0 <= i < reg2.len() && 0 <= j < reg2.len() && i != j implies #[trigger] reg2[i].stop_pattern != #[trigger] reg2[j].stop_pattern && reg2[i].stop_pattern != reg2[j].stop_pattern.reverse() by {
                lemma_reverse_involution(k);
                if i < reg.len() && j < reg.len() {
                } else if j == reg.len() {
                    // the fresh pattern differs from every registered one
                    assert(reg[i].stop_pattern != k && reg[i].stop_pattern != k.reverse());
                    lemma_reverse_involution(reg[i].stop_pattern);
                } else {
                    assert(reg[j].stop_pattern != k && reg[j].stop_pattern != k.reverse());
                    lemma_reverse_involution(reg[j].stop_pattern);
                }
            }
            assert(reg2[reg.len() as int].stop_pattern == k && row.service_route_direction_id
                == 0);
            assert(assigned_to(reg2, k, row));
        }
        assert forall|t: int|
            0 <= t < ids.drop_first().len() implies trip_details(
            details,
            #[trigger] ids.drop_first()[t],
        ).len() > 0 by {
            assert(ids.drop_first()[t] == ids[t + 1]);
        }
        lemma_run_trips_stop_based(strategy, rows, reg2, details, ids.drop_first());
        let rest_run = run_trips(strategy, rows, reg2, details, ids.drop_first());
        let (reg_n, rest) = rest_run->Ok_0;
        let t2sr = seq![row] + rest;
        assert(run_trips(strategy, rows, reg, details, ids) == Ok::<_, GtfsErrorView>(
            (reg_n, t2sr),
        ));
        assert forall|e: int| 0 <= e < reg.len() implies reg_n[e] == reg[e] by {
            assert(reg_n[e] == reg2[e]);
        }
        assert forall|t: int| #![trigger t2sr[t]]
            0 <= t < ids.len() implies t2sr[t].trip_id == ids[t] && assigned_to(
            reg_n,
            pattern_key(strategy, ordered_trip(details, ids[t])),
            t2sr[t],
        ) by {
            if t == 0 {
                assert(t2sr[0] == row);
                let e = choose|e: int| #![trigger reg2[e]]
                    0 <= e < reg2.len() && reg2[e].service_route_id == row.service_route_id && ((
                    reg2[e].stop_pattern == k && row.service_route_direction_id == 0) || (reg2[e].stop_pattern != k && reg2[e].stop_pattern == k.reverse()
                    && row.service_route_direction_id == 1));
                assert(reg_n[e] == reg2[e]);
                assert(assigned_to(reg_n, k, row));
            } else {
                assert(t2sr[t] == rest[t - 1]);
                assert(ids.drop_first()[t - 1] == ids[t]);
            }
        }
    }
}

/// Success is owed: under a stop-based strategy the derivation never
/// fails, whatever the feed holds.
pub proof fn lemma_stop_based_total(
    details: Seq<StopTimeDetailView>,
    strategy: IdentifyStrategy,
    rows: Seq<ServiceRouteIdentityView>,
)
    requires
        !(strategy is IdentityTable),
    ensures
        derivation(details, strategy, rows) is Ok,
{
    let ids = trip_ids_sorted(details);
    assert forall|t: int| 0 <= t < ids.len() implies trip_details(
        details,
        #[trigger] ids[t],
    ).len() > 0 by {
        assert(ids.contains(ids[t]));
        lemma_trip_ids_membership(details, ids[t]);
        lemma_trip_details_nonempty(details, ids[t]);
    }
    lemma_run_trips_stop_based(strategy, rows, Seq::<ServiceRouteView>::empty(), details, ids);
}

/// Appending a route whose id exceeds every present id keeps the order.
pub proof fn lemma_insert_by_id_append(s: Seq<ServiceRouteView>, x: ServiceRouteView)
    requires
        forall|i: int| 0 <= i < s.len() ==> #[trigger] s[i].service_route_id
            < x.service_route_id,
    ensures
        insert_by_id(s, x) == s.push(x),
    decreases s.len(),
{
    if s.len() == 0 {
        assert(insert_by_id(s, x) =~= s.push(x));
    } else {
        let rest = s.drop_first();
        assert forall|i: int| 0 <= i < rest.len() implies #[trigger] rest[i].service_route_id
            < x.service_route_id by {
            assert(rest[i] == s[i + 1]);
        }
        lemma_insert_by_id_append(rest, x);
        assert(seq![s.first()] + rest.push(x) =~= s.push(x));
    }
}

/// A registry with dense ids is already sorted by id.
pub proof fn lemma_sorted_by_id_dense(reg: Seq<ServiceRouteView>)
    requires
        registry_ids_dense(reg),
    ensures
        sorted_by_id(reg) == reg,
    decreases reg.len(),
{
    if reg.len() > 0 {
        let butlast = reg.drop_last();
        assert forall|i: int| 0 <= i < butlast.len() implies #[trigger] butlast[i].service_route_id == i + 1 by {
            assert(butlast[i] == reg[i]);
        }
        lemma_sorted_by_id_dense(butlast);
        lemma_insert_by_id_append(butlast, reg.last());
        assert(butlast.push(reg.last()) =~= reg);
    }
}

/// Dense ids: under a stop-based strategy the service-route table's ids
/// are exactly `1 ..= N`, in order.
pub proof fn lemma_dense_ids(
    details: Seq<StopTimeDetailView>,
    strategy: IdentifyStrategy,
    rows: Seq<ServiceRouteIdentityView>,
)
    requires
        !(strategy is IdentityTable),
    ensures
        derivation(details, strategy, rows) matches Ok((t2sr, srs)) && forall|i: int|
            0 <= i < srs.len() ==> #[trigger] srs[i].service_route_id == i + 1,
{
    lemma_stop_based_total(details, strategy, rows);
    let ids = trip_ids_sorted(details);
    assert forall|t: int| 0 <= t < ids.len() implies trip_details(
        details,
        #[trigger] ids[t],
    ).len() > 0 by {
        assert(ids.contains(ids[t]));
        lemma_trip_ids_membership(details, ids[t]);
        lemma_trip_details_nonempty(details, ids[t]);
    }
    lemma_run_trips_stop_based(strategy, rows, Seq::<ServiceRouteView>::empty(), details, ids);
    let run = run_trips(strategy, rows, Seq::<ServiceRouteView>::empty(), details, ids);
    let (reg_n, t2sr0) = run->Ok_0;
    lemma_sorted_by_id_dense(reg_n);
    let (t2sr, srs) = derivation(details, strategy, rows)->Ok_0;
    assert(srs == reg_n);
}

/// The assignment of a trip under a stop-based strategy, phrased against
/// the final registry: shared by the symmetry and uniqueness laws.
proof fn lemma_assignments(
    details: Seq<StopTimeDetailView>,
    strategy: IdentifyStrategy,
    rows: Seq<ServiceRouteIdentityView>,
)
    requires
        !(strategy is IdentityTable),
    ensures
        derivation(details, strategy, rows) matches Ok((t2sr, srs)) && {
            &&& registry_patterns_unique(srs)
            &&& forall|t: int| #![trigger t2sr[t]]
                0 <= t < t2sr.len() ==> assigned_to(
                    srs,
                    pattern_key(strategy, ordered_trip(details, t2sr[t].trip_id)),
                    t2sr[t],
                )
        },
{
    lemma_stop_based_total(details, strategy, rows);
    let ids = trip_ids_sorted(details);
    assert forall|t: int| 0 <= t < ids.len() implies trip_details(
        details,
        #[trigger] ids[t],
    ).len() > 0 by {
        assert(ids.contains(ids[t]));
        lemma_trip_ids_membership(details, ids[t]);
        lemma_trip_details_nonempty(details, ids[t]);
    }
    lemma_run_trips_stop_based(strategy, rows, Seq::<ServiceRouteView>::empty(), details, ids);
    let run = run_trips(strategy, rows, Seq::<ServiceRouteView>::empty(), details, ids);
    let (reg_n, t2sr0) = run->Ok_0;
    lemma_sorted_by_id_dense(reg_n);
    let (t2sr, srs) = derivation(details, strategy, rows)->Ok_0;
    assert(srs == reg_n && t2sr == t2sr0);
}

/// Direction symmetry: two trips whose pattern keys are exact reverses
/// of one another — and not palindromes, where forward and reverse
/// coincide — share a service route and run in opposite directions.
pub proof fn lemma_direction_symmetry(
    details: Seq<StopTimeDetailView>,
    strategy: IdentifyStrategy,
    rows: Seq<ServiceRouteIdentityView>,
    t2sr: Seq<Trip2ServiceRouteView>,
    srs: Seq<ServiceRouteView>,
    t: int,
    u: int,
)
    requires
        !(strategy is IdentityTable),
        derivation(details, strategy, rows) == Ok::<_, GtfsErrorView>((t2sr, srs)),
        0 <= t < t2sr.len(),
        0 <= u < t2sr.len(),
        pattern_key(strategy, ordered_trip(details, t2sr[t].trip_id)) == pattern_key(
            strategy,
            ordered_trip(details, t2sr[u].trip_id),
        ).reverse(),
        pattern_key(strategy, ordered_trip(details, t2sr[t].trip_id)) != pattern_key(
            strategy,
            ordered_trip(details, t2sr[u].trip_id),
        ),
    ensures
        t2sr[t].service_route_id == t2sr[u].service_route_id,
        t2sr[t].service_route_direction_id + t2sr[u].service_route_direction_id == 1,
{
    lemma_assignments(details, strategy, rows);
    let kt = pattern_key(strategy, ordered_trip(details, t2sr[t].trip_id));
    let ku = pattern_key(strategy, ordered_trip(details, t2sr[u].trip_id));
    lemma_reverse_involution(ku);
    let (t2sr2, srs2) = derivation(details, strategy, rows)->Ok_0;
    assert(t2sr2 == t2sr && srs2 == srs);
    assert(registry_patterns_unique(srs));
    assert(assigned_to(srs2, kt, t2sr2[t]));
    assert(assigned_to(srs2, ku, t2sr2[u]));
    assert(assigned_to(srs, kt, t2sr[t]));
    assert(assigned_to(srs, ku, t2sr[u]));
    let e1 = choose|e: int| #![trigger srs[e]]
        0 <= e < srs.len() && srs[e].service_route_id == t2sr[t].service_route_id && ((srs[e].stop_pattern == kt && t2sr[t].service_route_direction_id == 0) || (srs[e].stop_pattern != kt
        && srs[e].stop_pattern == kt.reverse() && t2sr[t].service_route_direction_id == 1));
    let e2 = choose|e: int| #![trigger srs[e]]
        0 <= e < srs.len() && srs[e].service_route_id == t2sr[u].service_route_id && ((srs[e].stop_pattern == ku && t2sr[u].service_route_direction_id == 0) || (srs[e].stop_pattern != ku
        && srs[e].stop_pattern == ku.reverse() && t2sr[u].service_route_direction_id == 1));
    lemma_reverse_involution(srs[e1].stop_pattern);
    lemma_reverse_involution(srs[e2].stop_pattern);
    if e1 != e2 {
        assert(srs[e1].stop_pattern != srs[e2].stop_pattern);
        assert(srs[e1].stop_pattern != srs[e2].stop_pattern.reverse());
        assert(srs[e2].stop_pattern != srs[e1].stop_pattern.reverse());
        assert(false);
    }
}

/// Pattern uniqueness: two trips with the same pattern key are assigned
/// the same service route and the same direction — so no two distinct
/// service-route ids share a pattern-direction pair.
pub proof fn lemma_pattern_uniqueness(
    details: Seq<StopTimeDetailView>,
    strategy: IdentifyStrategy,
    rows: Seq<ServiceRouteIdentityView>,
    t2sr: Seq<Trip2ServiceRouteView>,
    srs: Seq<ServiceRouteView>,
    t: int,
    u: int,
)
    requires
        !(strategy is IdentityTable),
        derivation(details, strategy, rows) == Ok::<_, GtfsErrorView>((t2sr, srs)),
        0 <= t < t2sr.len(),
        0 <= u < t2sr.len(),
        pattern_key(strategy, ordered_trip(details, t2sr[t].trip_id)) == pattern_key(
            strategy,
            ordered_trip(details, t2sr[u].trip_id),
        ),
    ensures
        t2sr[t].service_route_id == t2sr[u].service_route_id,
        t2sr[t].service_route_direction_id == t2sr[u].service_route_direction_id,
{
    lemma_assignments(details, strategy, rows);
    let kt = pattern_key(strategy, ordered_trip(details, t2sr[t].trip_id));
    let (t2sr2, srs2) = derivation(details, strategy, rows)->Ok_0;
    assert(t2sr2 == t2sr && srs2 == srs);
    assert(registry_patterns_unique(srs));
    assert(assigned_to(srs2, kt, t2sr2[t]));
    assert(assigned_to(srs2, kt, t2sr2[u]));
    assert(assigned_to(srs, kt, t2sr[t]));
    assert(assigned_to(srs, kt, t2sr[u]));
    let e1 = choose|e: int| #![trigger srs[e]]
        0 <= e < srs.len() && srs[e].service_route_id == t2sr[t].service_route_id && ((srs[e].stop_pattern == kt && t2sr[t].service_route_direction_id == 0) || (srs[e].stop_pattern != kt
        && srs[e].stop_pattern == kt.reverse() && t2sr[t].service_route_direction_id == 1));
    let e2 = choose|e: int| #![trigger srs[e]]
        0 <= e < srs.len() && srs[e].service_route_id == t2sr[u].service_route_id && ((srs[e].stop_pattern == kt && t2sr[u].service_route_direction_id == 0) || (srs[e].stop_pattern != kt
        && srs[e].stop_pattern == kt.reverse() && t2sr[u].service_route_direction_id == 1));
    lemma_reverse_involution(srs[e1].stop_pattern);
    lemma_reverse_involution(srs[e2].stop_pattern);
    if e1 != e2 {
        assert(srs[e1].stop_pattern != srs[e2].stop_pattern);
        assert(srs[e1].stop_pattern != srs[e2].stop_pattern.reverse());
        assert(srs[e2].stop_pattern != srs[e1].stop_pattern.reverse());
        assert(false);
    }
}

} // verus!
// The derivation never raises the empty-trip error: every trip id it
// processes comes from some row of the feed, so its group is non-empty.

verus! {

/// A run over non-empty trip groups never reports an empty trip.
pub proof fn lemma_run_trips_no_empty_trip(
    strategy: IdentifyStrategy,
    rows: Seq<ServiceRouteIdentityView>,
    reg: Seq<ServiceRouteView>,
    details: Seq<StopTimeDetailView>,
    ids: Seq<Seq<char>>,
)
    requires
        forall|t: int| 0 <= t < ids.len() ==> trip_details(details, #[trigger] ids[t]).len() > 0,
    ensures
        !(run_trips(strategy, rows, reg, details, ids) matches Err(e) && e is EmptyTrip),
    decreases ids.len(),
{
    if ids.len() > 0 {
        assert(ids[0] == ids.first());
        lemma_sorted_by_stop_sequence_len(trip_details(details, ids.first()));
        let step = generate_step(strategy, rows, reg, ordered_trip(details, ids.first()));
        if step is Ok {
            let (reg2, sr) = step->Ok_0;
            assert forall|t: int|
                0 <= t < ids.drop_first().len() implies trip_details(
                details,
                #[trigger] ids.drop_first()[t],
            ).len() > 0 by {
                assert(ids.drop_first()[t] == ids[t + 1]);
            }
            lemma_run_trips_no_empty_trip(strategy, rows, reg2, details, ids.drop_first());
        }
    }
}

/// The derivation never fails with the empty-trip error: a trip appears
/// in the run only because the feed has rows for it.
pub proof fn lemma_derivation_no_empty_trip(
    details: Seq<StopTimeDetailView>,
    strategy: IdentifyStrategy,
    rows: Seq<ServiceRouteIdentityView>,
)
    ensures
        !(derivation(details, strategy, rows) matches Err(e) && e is EmptyTrip),
{
    let ids = trip_ids_sorted(details);
    assert forall|t: int| 0 <= t < ids.len() implies trip_details(
        details,
        #[trigger] ids[t],
    ).len() > 0 by {
        assert(ids.contains(ids[t]));
        lemma_trip_ids_membership(details, ids[t]);
        lemma_trip_details_nonempty(details, ids[t]);
    }
    lemma_run_trips_no_empty_trip(
        strategy,
        rows,
        Seq::<ServiceRouteView>::empty(),
        details,
        ids,
    );
}

} // verus!
// Which errors a run can raise at all: the generator itself knows only
// the empty trip and the unresolved pattern; everything else comes from
// the sink or the source, outside the derivation.

verus! {

/// A run fails only with the empty-trip or the unresolved-pattern error.
pub proof fn lemma_run_trips_error_kinds(
    strategy: IdentifyStrategy,
    rows: Seq<ServiceRouteIdentityView>,
    reg: Seq<ServiceRouteView>,
    details: Seq<StopTimeDetailView>,
    ids: Seq<Seq<char>>,
)
    ensures
        run_trips(strategy, rows, reg, details, ids) matches Err(e) ==> (e is EmptyTrip || e
            is UnknownServiceRoute),
    decreases ids.len(),
{
    if ids.len() > 0 {
        let step = generate_step(strategy, rows, reg, ordered_trip(details, ids.first()));
        if step is Ok {
            let (reg2, sr) = step->Ok_0;
            lemma_run_trips_error_kinds(strategy, rows, reg2, details, ids.drop_first());
        }
    }
}

/// The derivation fails only with the unresolved-pattern error: its trip
/// groups are never empty, and no other error kind is its own.
pub proof fn lemma_derivation_error_kinds(
    details: Seq<StopTimeDetailView>,
    strategy: IdentifyStrategy,
    rows: Seq<ServiceRouteIdentityView>,
)
    ensures
        derivation(details, strategy, rows) matches Err(e) ==> e is UnknownServiceRoute,
{
    lemma_derivation_no_empty_trip(details, strategy, rows);
    lemma_run_trips_error_kinds(
        strategy,
        rows,
        Seq::<ServiceRouteView>::empty(),
        details,
        trip_ids_sorted(details),
    );
}

} // verus!
