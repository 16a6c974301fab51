//! Properties of the assembler, proved against the specification-level
//! transition `step` and fold `run` that the executable assembler is
//! proved to compute.

use vstd::prelude::*;

use crate::assemble::{last_dest_match, run, step, whole_object_entry, AsmState};
use crate::event::{Event, EventKind, Func, MirLoc, PlaceModel, Pointer};
use crate::graph::NodeModel;

verus! {

/// Replaying the same trace against the same location backing store
/// always yields the same graph forest and the same latest-assignment
/// table: the assembler has no hidden nondeterminism.
pub proof fn lemma_deterministic(
    events: Seq<Event>,
    locations: Seq<MirLoc>,
    first: AsmState,
    second: AsmState,
)
    requires
        first == run(events, locations),
        second == run(events, locations),
    ensures
        first.graphs == second.graphs,
        first.latest == second.latest,
{
}

/// One sequence of nodes is a prefix of another.
pub open spec fn is_prefix_of(a: Seq<NodeModel>, b: Seq<NodeModel>) -> bool {
    a.len() <= b.len() && forall|n: int| 0 <= n < a.len() ==> a[n] == b[n]
}

/// One arena extends another: no graph is removed, and every graph of
/// the earlier arena is a prefix of its counterpart in the later one.
pub open spec fn extends(pre: Seq<Seq<NodeModel>>, post: Seq<Seq<NodeModel>>) -> bool {
    &&& pre.len() <= post.len()
    &&& forall|g: int| 0 <= g < pre.len() ==> #[trigger] is_prefix_of(pre[g], post[g])
}

/// Extension is reflexive.
pub proof fn lemma_extends_refl(a: Seq<Seq<NodeModel>>)
    ensures
        extends(a, a),
{
}

/// Extension is transitive.
pub proof fn lemma_extends_trans(a: Seq<Seq<NodeModel>>, b: Seq<Seq<NodeModel>>, c: Seq<
    Seq<NodeModel>,
>)
    requires
        extends(a, b),
        extends(b, c),
    ensures
        extends(a, c),
{
    assert forall|g: int| 0 <= g < a.len() implies #[trigger] is_prefix_of(a[g], c[g]) by {
        assert(is_prefix_of(a[g], b[g]));
        assert(is_prefix_of(b[g], c[g]));
    }
}

/// One step only appends: it either grows exactly one existing graph by
/// one node at its end, or adds one new graph; nothing already emitted
/// changes.
pub proof fn lemma_step_extends(st: AsmState, ev: Event, locations: Seq<MirLoc>)
    ensures
        extends(st.graphs, step(st, ev, locations).state.graphs),
{
    let post = step(st, ev, locations).state.graphs;
    assert forall|g: int| 0 <= g < st.graphs.len() implies #[trigger] is_prefix_of(
        st.graphs[g],
        post[g],
    ) by {}
}

/// Append-only: after processing a prefix of the trace, nothing that
/// prefix produced — no graph and no node — changes as the remaining
/// events are processed.
pub proof fn lemma_append_only(events: Seq<Event>, locations: Seq<MirLoc>, k: int)
    requires
        0 <= k <= events.len(),
    ensures
        extends(run(events.take(k), locations).graphs, run(events, locations).graphs),
    decreases events.len() - k,
{
    if k == events.len() {
        assert(events.take(k) =~= events);
        lemma_extends_refl(run(events, locations).graphs);
    } else {
        assert(events.drop_last() =~= events.take(events.len() - 1));
        assert(events.take(k) =~= events.take(events.len() - 1).take(k));
        lemma_append_only(events.take(events.len() - 1), locations, k);
        lemma_step_extends(run(events.drop_last(), locations), events.last(), locations);
        lemma_extends_trans(
            run(events.take(k), locations).graphs,
            run(events.drop_last(), locations).graphs,
            run(events, locations).graphs,
        );
    }
}

/// Every node whose kind comes from a lineage-starting event records no
/// predecessor.
pub open spec fn roots_unparented(graphs: Seq<Seq<NodeModel>>) -> bool {
    forall|g: int, n: int|
        0 <= g < graphs.len() && 0 <= n < graphs[g].len() && ((#[trigger] graphs[g][n].kind)
            is Malloc || graphs[g][n].kind is AddrOfLocal) ==> graphs[g][n].source is None
}

/// One step preserves `roots_unparented`: old nodes are unchanged, and
/// a new node of a lineage-starting kind is appended with no source,
/// because such events never pass the has-parent filter.
pub proof fn lemma_step_roots(st: AsmState, ev: Event, locations: Seq<MirLoc>)
    requires
        roots_unparented(st.graphs),
    ensures
        roots_unparented(step(st, ev, locations).state.graphs),
{
    let post = step(st, ev, locations).state.graphs;
    assert forall|g: int, n: int|
        0 <= g < post.len() && 0 <= n < post[g].len() && ((#[trigger] post[g][n].kind) is Malloc
            || post[g][n].kind is AddrOfLocal) implies post[g][n].source is None by {
        if g < st.graphs.len() && n < st.graphs[g].len() {
            assert(st.graphs[g][n] == post[g][n]) by {
                lemma_step_extends(st, ev, locations);
                assert(is_prefix_of(st.graphs[g], post[g]));
            }
        }
    }
}

/// Has-parent invariant: in the forest assembled from any trace, every
/// node whose kind maps from an allocation, reallocation or
/// address-taking event has an empty `source`.
pub proof fn lemma_has_parent_invariant(events: Seq<Event>, locations: Seq<MirLoc>)
    ensures
        roots_unparented(run(events, locations).graphs),
    decreases events.len(),
{
    if events.len() == 0 {
    } else {
        lemma_has_parent_invariant(events.drop_last(), locations);
        lemma_step_roots(run(events.drop_last(), locations), events.last(), locations);
    }
}

/// At-most-one-writer for copies: if a pointer already has a provenance
/// entry, processing a pointer-copy event for it never changes that
/// entry.
pub proof fn lemma_copy_keeps_provenance(
    st: AsmState,
    ev: Event,
    locations: Seq<MirLoc>,
    p: Pointer,
)
    requires
        ev.kind == EventKind::CopyPtr(p),
        st.prov.contains_key(p),
    ensures
        step(st, ev, locations).state.prov.contains_key(p),
        step(st, ev, locations).state.prov[p] == st.prov[p],
{
}

/// Whole-object precedence: when the latest assignment on record for a
/// slot is a whole-object write, processing a field write to the same
/// slot leaves that entry in place.
pub proof fn lemma_whole_object_precedence(
    st: AsmState,
    ev: Event,
    locations: Seq<MirLoc>,
    f: Func,
    slot: u32,
)
    requires
        st.latest.contains_key((f, slot)),
        whole_object_entry(st.graphs, st.latest[(f, slot)]),
        ev.mir_loc < locations.len(),
        ({
            let loc = locations[ev.mir_loc as int];
            &&& loc.metadata.destination matches Option::Some(d) && d.projection@.len() > 0
                && d.local == slot
            &&& crate::assemble::dest_func(loc) == f
        }),
    ensures
        step(st, ev, locations).state.latest.contains_key((f, slot)),
        step(st, ev, locations).state.latest[(f, slot)] == st.latest[(f, slot)],
{
    let res = step(st, ev, locations);
    if res.state.latest == st.latest {
    } else {
        let entry = st.latest[(f, slot)];
        let post = res.state.graphs;
        lemma_step_extends(st, ev, locations);
        assert(is_prefix_of(st.graphs[entry.0 as int], post[entry.0 as int]));
        assert(whole_object_entry(post, entry));
    }
}

/// A graph-and-node reference denotes an existing node.
pub open spec fn ref_valid(graphs: Seq<Seq<NodeModel>>, r: (usize, usize)) -> bool {
    r.0 < graphs.len() && r.1 < graphs[r.0 as int].len()
}

/// The structural invariants of an assembly state: both trackers point
/// at existing nodes, every graph holds at least one node, and every
/// node's `source` refers to an earlier node of its own graph — no
/// forward references and no cycles.
pub open spec fn state_wf(st: AsmState) -> bool {
    &&& forall|p: Pointer| #[trigger] st.prov.contains_key(p) ==> ref_valid(st.graphs, st.prov[p])
    &&& forall|k: (Func, u32)| #[trigger] st.latest.contains_key(k) ==> ref_valid(
        st.graphs,
        st.latest[k],
    )
    &&& forall|g: int| 0 <= g < st.graphs.len() ==> (#[trigger] st.graphs[g]).len() >= 1
    &&& forall|g: int, n: int|
        0 <= g < st.graphs.len() && 0 <= n < st.graphs[g].len() ==> ((#[trigger] st.graphs[g][n].source)
            matches Option::Some(s) ==> s < n)
}

/// An exact-match scan yields an index inside the scanned graph.
pub proof fn lemma_last_dest_match_bound(nodes: Seq<NodeModel>, src: PlaceModel)
    ensures
        match last_dest_match(nodes, src) {
            Option::Some(n) => n < nodes.len(),
            Option::None => true,
        },
    decreases nodes.len(),
{
    if nodes.len() == 0 {
    } else if nodes.last().dest matches Option::Some(d) && d == src {
    } else {
        lemma_last_dest_match_bound(nodes.drop_last(), src);
    }
}

/// One step preserves the structural invariants.
pub proof fn lemma_step_wf(st: AsmState, ev: Event, locations: Seq<MirLoc>)
    requires
        state_wf(st),
    ensures
        state_wf(step(st, ev, locations).state),
{
    let res = step(st, ev, locations);
    if res.state == st {
    } else {
        if ev.mir_loc < locations.len() {
            let loc = locations[ev.mir_loc as int];
            let head = crate::assemble::head_of(st.prov, ev.kind);
            match head {
                Option::Some(h) => {
                    if h.0 < st.graphs.len() {
                        lemma_last_dest_match_bound(
                            st.graphs[h.0 as int],
                            match crate::event::place_view(loc.metadata.source) {
                                Option::Some(s) => s,
                                Option::None => PlaceModel { local: 0, projection: Seq::empty() },
                            },
                        );
                    }
                },
                Option::None => {},
            }
        }
        assert forall|g: int, n: int|
            0 <= g < res.state.graphs.len() && 0 <= n < res.state.graphs[g].len() implies ((
        #[trigger] res.state.graphs[g][n].source) matches Option::Some(s) ==> s < n) by {
            if g < st.graphs.len() && n < st.graphs[g].len() {
                assert(st.graphs[g][n] == res.state.graphs[g][n]) by {
                    lemma_step_extends(st, ev, locations);
                    assert(is_prefix_of(st.graphs[g], res.state.graphs[g]));
                }
            }
        }
    }
}

/// Structural invariants of the finished forest: in the state assembled
/// from any trace, both trackers point at existing nodes, every graph
/// holds at least one node (graphs are created only at the moment a
/// node needs one), and every node's `source` refers to an earlier node
/// of its own graph.
pub proof fn lemma_run_well_formed(events: Seq<Event>, locations: Seq<MirLoc>)
    ensures
        state_wf(run(events, locations)),
    decreases events.len(),
{
    if events.len() == 0 {
    } else {
        lemma_run_well_formed(events.drop_last(), locations);
        lemma_step_wf(run(events.drop_last(), locations), events.last(), locations);
    }
}

} // verus!
