//! The node generator: deduplicated top-level stops. A stop whose
//! `parent_station` is non-empty is a child platform and is skipped;
//! each retained stop gets the next dense id, in input iteration order.

use vstd::prelude::*;

use crate::types::{Node, NodeView, StopDetail, StopDetailView};

verus! {

/// A stop is a node exactly when it has no parent station.
pub open spec fn is_node_stop(s: StopDetailView) -> bool {
    match s.parent_station {
        None => true,
        Some(p) => p.len() == 0,
    }
}

/// The nodes derived from the stop rows, in input order, with dense ids
/// starting at one.
pub open spec fn nodes_of(stops: Seq<StopDetailView>) -> Seq<NodeView>
    decreases stops.len(),
{
    if stops.len() == 0 {
        Seq::<NodeView>::empty()
    } else {
        let rest = nodes_of(stops.drop_last());
        let s = stops.last();
        if is_node_stop(s) {
            rest.push(
                NodeView {
                    node_id: rest.len() as int + 1,
                    node_name: s.stop_name,
                    node_ruby: s.stop_ruby,
                },
            )
        } else {
            rest
        }
    }
}

/// Each retained stop contributes one node, so never more nodes than stops.
pub proof fn lemma_nodes_len(stops: Seq<StopDetailView>)
    ensures
        nodes_of(stops).len() <= stops.len(),
    decreases stops.len(),
{
    if stops.len() > 0 {
        lemma_nodes_len(stops.drop_last());
    }
}

/// Copies an optional string; the copy has the same view.
pub(crate) fn clone_opt_string(o: &Option<String>) -> (r: Option<String>)
    ensures
        r.deep_view() == o.deep_view(),
{
    match o {
        Some(s) => Some(s.clone()),
        None => None,
    }
}

/// Derives the node rows from the stop rows: skips every stop with a
/// non-empty `parent_station`, keeps the rest in input order, and gives
/// the row at output position `i` the id `i + 1`. Follows [`nodes_of`]
/// exactly, so a second run over the same input yields the same rows.
pub fn derive_nodes(stops: &Vec<StopDetail>) -> (r: Vec<Node>)
    ensures
        r.deep_view() == nodes_of(stops.deep_view()),
{
    let ghost dv = stops.deep_view();
    let mut out: Vec<Node> = Vec::new();
    let mut i: usize = 0;
    assert(out.deep_view() =~= nodes_of(dv.take(0)));
    while i < stops.len()
        invariant
            i <= stops@.len(),
            dv == stops.deep_view(),
            out.deep_view() == nodes_of(dv.take(i as int)),
            out@.len() == nodes_of(dv.take(i as int)).len(),
        decreases stops@.len() - i,
    {
        assert(dv.take(i + 1).drop_last() =~= dv.take(i as int));
        assert(dv.take(i + 1).last() == dv[i as int]);
        assert(dv[i as int] == stops@[i as int]@);
        let retained: bool = match &stops[i].parent_station {
            None => true,
            Some(p) => p.as_str().is_empty(),
        };
        assert(retained == is_node_stop(dv[i as int]));
        if retained {
            proof {
                lemma_nodes_len(dv.take(i as int));
                assert(usize::MAX <= u64::MAX);
            }
            let node = Node {
                node_id: out.len() as u64 + 1,
                node_name: stops[i].stop_name.clone(),
                node_ruby: clone_opt_string(&stops[i].stop_ruby),
            };
            let ghost prev_dv = out.deep_view();
            let ghost prev_raw = out@;
            assert(node@ == NodeView {
                node_id: prev_dv.len() as int + 1,
                node_name: dv[i as int].stop_name,
                node_ruby: dv[i as int].stop_ruby,
            });
            out.push(node);
            assert(out.deep_view() =~= prev_dv.push(
                NodeView {
                    node_id: prev_dv.len() as int + 1,
                    node_name: dv[i as int].stop_name,
                    node_ruby: dv[i as int].stop_ruby,
                },
            )) by {
                assert forall|j: int| 0 <= j < prev_raw.len() implies out@[j] == prev_raw[j] by {}
            }
        }
        i += 1;
    }
    assert(dv.take(stops@.len() as int) =~= dv);
    out
}

} // verus!
