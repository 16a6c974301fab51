//! The graph assembler: a single streaming pass that classifies each
//! event, resolves its candidate provenance sources, decides which graph
//! and predecessor to attach to, appends the node, and updates the two
//! trackers.
//!
//! The whole algorithm is mirrored by a specification-level transition
//! function, `step`, over the mathematical state `AsmState`; the
//! executable assembler is proved to compute exactly that transition,
//! and a full run to compute the fold `run` of `step` over the trace.

use vstd::prelude::*;

use crate::event::{
    place_view, Event, EventKind, EventMetadata, Func, MirLoc, MirPlace, PlaceModel, Pointer,
    TransferKind,
};
use crate::graph::{Graph, GraphId, Graphs, Node, NodeId, NodeKind, NodeModel};
use crate::tables::ProvenanceTable;

verus! {

/// The mathematical state of one assembly run: the graph arena, the
/// latest-assignment table, and the provenance table.
#[verifier::ext_equal]
pub ghost struct AsmState {
    pub graphs: Seq<Seq<NodeModel>>,
    pub latest: Map<(Func, u32), (GraphId, NodeId)>,
    pub prov: Map<Pointer, (GraphId, NodeId)>,
}

/// What one event does to the state, and the node it produced, if any.
#[verifier::ext_equal]
pub ghost struct StepResult {
    pub state: AsmState,
    pub produced: Option<NodeId>,
}

/// Where a node was appended, and the arena afterwards.
#[verifier::ext_equal]
pub ghost struct Placement {
    pub graphs: Seq<Seq<NodeModel>>,
    pub gid: GraphId,
    pub nid: NodeId,
}

/// The state before any event has been processed.
pub open spec fn init_state() -> AsmState {
    AsmState { graphs: Seq::empty(), latest: Map::empty(), prov: Map::empty() }
}

/// The function an event's value comes from: the enclosing function,
/// except for a return transfer, whose value comes from the callee.
pub open spec fn source_func(loc: MirLoc) -> Func {
    match loc.metadata.transfer_kind {
        TransferKind::Intra => loc.func,
        TransferKind::Arg(_) => loc.func,
        TransferKind::Ret(f) => f,
    }
}

/// The function an event's value goes to: the enclosing function,
/// except for an argument transfer, whose value goes to the callee.
pub open spec fn dest_func(loc: MirLoc) -> Func {
    match loc.metadata.transfer_kind {
        TransferKind::Intra => loc.func,
        TransferKind::Arg(f) => f,
        TransferKind::Ret(_) => loc.func,
    }
}

/// The block index recorded for a node: an argument transfer is observed
/// as if freshly introduced at the callee's entry point.
pub open spec fn block_of(loc: MirLoc) -> usize {
    match loc.metadata.transfer_kind {
        TransferKind::Arg(_) => 0,
        _ => loc.basic_block_idx,
    }
}

/// The statement index recorded for a node; forced to the entry point
/// for an argument transfer, like the block index.
pub open spec fn statement_of(loc: MirLoc) -> usize {
    match loc.metadata.transfer_kind {
        TransferKind::Arg(_) => 0,
        _ => loc.statement_idx,
    }
}

/// The provenance hit for an event's pointer of interest, if both exist.
pub open spec fn head_of(prov: Map<Pointer, (GraphId, NodeId)>, kind: EventKind) -> Option<
    (GraphId, NodeId),
> {
    match kind.ptr_spec() {
        Option::Some(p) => if prov.contains_key(p) {
            Option::Some(prov[p])
        } else {
            Option::None
        },
        Option::None => Option::None,
    }
}

/// The most recent node of `nodes` whose destination descriptor equals
/// `src` exactly.
pub open spec fn last_dest_match(nodes: Seq<NodeModel>, src: PlaceModel) -> Option<NodeId>
    decreases nodes.len(),
{
    if nodes.len() == 0 {
        Option::None
    } else if nodes.last().dest matches Option::Some(d) && d == src {
        Option::Some((nodes.len() - 1) as usize)
    } else {
        last_dest_match(nodes.drop_last(), src)
    }
}

/// The exact-match refinement of the provenance hit: within the graph
/// `head` resolved to, the most recent node whose destination equals the
/// event's declared source descriptor.
pub open spec fn ptr_of_step(
    graphs: Seq<Seq<NodeModel>>,
    head: Option<(GraphId, NodeId)>,
    src: Option<PlaceModel>,
) -> Option<(GraphId, NodeId)> {
    match (head, src) {
        (Option::Some(h), Option::Some(s)) => {
            if h.0 < graphs.len() {
                match last_dest_match(graphs[h.0 as int], s) {
                    Option::Some(nid) => Option::Some((h.0, nid)),
                    Option::None => Option::None,
                }
            } else {
                Option::None
            }
        },
        _ => Option::None,
    }
}

/// If the graph of a latest-assignment hit ends in a field node, that
/// node: chained field accesses resolve to the innermost field node.
pub open spec fn field_chase(graphs: Seq<Seq<NodeModel>>, la: Option<(GraphId, NodeId)>) -> Option<
    (GraphId, NodeId),
> {
    match la {
        Option::Some(hit) => {
            if hit.0 < graphs.len() && graphs[hit.0 as int].len() > 0 && graphs[hit.0 as int].last().kind
                is Field {
                Option::Some((hit.0, (graphs[hit.0 as int].len() - 1) as usize))
            } else {
                Option::None
            }
        },
        Option::None => Option::None,
    }
}

/// The resolved predecessor of an event: the exact match if present;
/// else, through the latest assignment of the declared source slot, with
/// the field chase for projected sources; else the raw provenance hit.
pub open spec fn source_of_step(
    graphs: Seq<Seq<NodeModel>>,
    latest: Map<(Func, u32), (GraphId, NodeId)>,
    head: Option<(GraphId, NodeId)>,
    ptr: Option<(GraphId, NodeId)>,
    src_fn: Func,
    kind: EventKind,
    src: Option<PlaceModel>,
) -> Option<(GraphId, NodeId)> {
    if ptr is Some {
        ptr
    } else {
        match src {
            Option::Some(s) => {
                let la = if latest.contains_key((src_fn, s.local)) {
                    Option::Some(latest[(src_fn, s.local)])
                } else {
                    Option::None
                };
                if s.projection.len() > 0 && field_chase(graphs, la) is Some {
                    field_chase(graphs, la)
                } else if s.projection.len() == 0 {
                    la
                } else if kind is Field {
                    la
                } else {
                    head
                }
            },
            Option::None => Option::None,
        }
    }
}

/// The first present candidate of two.
pub open spec fn opt_or(a: Option<(GraphId, NodeId)>, b: Option<(GraphId, NodeId)>) -> Option<
    (GraphId, NodeId),
> {
    if a is Some {
        a
    } else {
        b
    }
}

/// A candidate predecessor filtered through the has-parent rule.
pub open spec fn opt_parent(kind: EventKind, obj: Option<(GraphId, NodeId)>) -> Option<
    (GraphId, NodeId),
> {
    match obj {
        Option::Some(p) => kind.parent_spec(p),
        Option::None => Option::None,
    }
}

/// The node an event gives rise to. Only the node index of the filtered
/// predecessor is kept: a source always lies within the chosen graph.
pub open spec fn built_node(
    loc: MirLoc,
    kind: NodeKind,
    dest_fn: Func,
    node_src: Option<(GraphId, NodeId)>,
) -> NodeModel {
    NodeModel {
        function: dest_fn,
        block: block_of(loc),
        statement_idx: statement_of(loc),
        kind: kind,
        source: match node_src {
            Option::Some(p) => Option::Some(p.1),
            Option::None => Option::None,
        },
        dest: place_view(loc.metadata.destination),
    }
}

/// Append `node` to the graph of the filtered insertion candidate, or to
/// a freshly allocated graph when there is none.
pub open spec fn place_node(
    graphs: Seq<Seq<NodeModel>>,
    insert_ref: Option<(GraphId, NodeId)>,
    node: NodeModel,
) -> Placement {
    match insert_ref {
        Option::Some(p) => {
            if p.0 < graphs.len() {
                Placement {
                    graphs: graphs.update(p.0 as int, graphs[p.0 as int].push(node)),
                    gid: p.0,
                    nid: graphs[p.0 as int].len() as usize,
                }
            } else {
                Placement { graphs: graphs.push(seq![node]), gid: graphs.len() as usize, nid: 0 }
            }
        },
        Option::None => Placement {
            graphs: graphs.push(seq![node]),
            gid: graphs.len() as usize,
            nid: 0,
        },
    }
}

/// How one event updates the provenance table: allocation, reallocation,
/// offset, address-of and reference-copy events rebind their result
/// pointer unconditionally; a pointer copy binds only if the pointer has
/// no existing entry.
pub open spec fn update_prov_spec(
    prov: Map<Pointer, (GraphId, NodeId)>,
    kind: EventKind,
    meta: EventMetadata,
    target: (GraphId, NodeId),
) -> Map<Pointer, (GraphId, NodeId)> {
    match kind {
        EventKind::Alloc { ptr, .. } => prov.insert(ptr, target),
        EventKind::CopyPtr(p) => if prov.contains_key(p) {
            prov
        } else {
            prov.insert(p, target)
        },
        EventKind::Realloc { new_ptr, .. } => prov.insert(new_ptr, target),
        EventKind::Offset(_, _, new_ptr) => prov.insert(new_ptr, target),
        EventKind::CopyRef => match meta.destination {
            Option::Some(d) => prov.insert(d.local as usize, target),
            Option::None => prov,
        },
        EventKind::AddrOfLocal(p, _) => prov.insert(p, target),
        _ => prov,
    }
}

/// Whether an existing tracker entry denotes a whole-object write: its
/// node's destination descriptor has an empty projection path.
pub open spec fn whole_object_entry(graphs: Seq<Seq<NodeModel>>, entry: (GraphId, NodeId)) -> bool {
    &&& entry.0 < graphs.len()
    &&& entry.1 < graphs[entry.0 as int].len()
    &&& graphs[entry.0 as int][entry.1 as int].dest matches Option::Some(pd) && pd.projection.len()
        == 0
}

/// How one event updates the latest-assignment table: the written slot
/// is rebound to the new node, except that a field write never displaces
/// a whole-object write already on record for the slot.
pub open spec fn update_latest_spec(
    graphs: Seq<Seq<NodeModel>>,
    latest: Map<(Func, u32), (GraphId, NodeId)>,
    dest: Option<MirPlace>,
    dest_fn: Func,
    target: (GraphId, NodeId),
) -> Map<(Func, u32), (GraphId, NodeId)> {
    match dest {
        Option::None => latest,
        Option::Some(d) => {
            let key = (dest_fn, d.local);
            if latest.contains_key(key) && d.projection@.len() > 0 && whole_object_entry(
                graphs,
                latest[key],
            ) {
                latest
            } else {
                latest.insert(key, target)
            }
        },
    }
}

/// The transition one event makes: the whole per-event algorithm as a
/// mathematical function of the state, the event, and the location
/// backing store.
pub open spec fn step(st: AsmState, ev: Event, locations: Seq<MirLoc>) -> StepResult {
    match ev.kind.node_kind_spec() {
        Option::None => StepResult { state: st, produced: Option::None },
        Option::Some(nk) => {
            if ev.mir_loc >= locations.len() {
                StepResult { state: st, produced: Option::None }
            } else {
                let loc = locations[ev.mir_loc as int];
                let head = head_of(st.prov, ev.kind);
                let ptr = ptr_of_step(st.graphs, head, place_view(loc.metadata.source));
                let source = source_of_step(
                    st.graphs,
                    st.latest,
                    head,
                    ptr,
                    source_func(loc),
                    ev.kind,
                    place_view(loc.metadata.source),
                );
                let node = built_node(loc, nk, dest_func(loc), opt_parent(ev.kind, source));
                let placed = place_node(
                    st.graphs,
                    opt_parent(ev.kind, opt_or(opt_or(source, ptr), head)),
                    node,
                );
                let prov2 = update_prov_spec(
                    st.prov,
                    ev.kind,
                    loc.metadata,
                    (placed.gid, placed.nid),
                );
                let latest2 = update_latest_spec(
                    placed.graphs,
                    st.latest,
                    loc.metadata.destination,
                    dest_func(loc),
                    (placed.gid, placed.nid),
                );
                StepResult {
                    state: AsmState { graphs: placed.graphs, latest: latest2, prov: prov2 },
                    produced: Option::Some(placed.nid),
                }
            }
        },
    }
}

/// The state after a whole trace, in order: the fold of `step` from the
/// empty state.
pub open spec fn run(events: Seq<Event>, locations: Seq<MirLoc>) -> AsmState
    decreases events.len(),
{
    if events.len() == 0 {
        init_state()
    } else {
        step(run(events.drop_last(), locations), events.last(), locations).state
    }
}

/// The most recent node of `g` whose destination descriptor equals
/// `src` exactly.
fn find_dest_match(g: &Graph, src: &MirPlace) -> (r: Option<NodeId>)
    ensures
        r == last_dest_match(g@, src@),
{
    let mut i: usize = g.nodes.len();
    proof {
        assert(g@.take(i as int) =~= g@);
    }
    while i > 0
        invariant
            i <= g.nodes.len(),
            last_dest_match(g@, src@) == last_dest_match(g@.take(i as int), src@),
        decreases i,
    {
        proof {
            assert(g@.take(i as int).drop_last() =~= g@.take(i as int - 1));
            assert(g@.take(i as int).last() == g@[i as int - 1]);
            assert(g@[i as int - 1] == g.nodes@[i as int - 1]@);
        }
        let matched = match &g.nodes[i - 1].dest {
            Some(d) => d.same_place(src),
            None => false,
        };
        if matched {
            return Some(i - 1);
        }
        i = i - 1;
    }
    proof {
        assert(g@.take(0) =~= Seq::<NodeModel>::empty());
    }
    None
}

/// The exact-match refinement of the provenance hit (see `ptr_of_step`).
fn compute_ptr(graphs: &Graphs, head: Option<(GraphId, NodeId)>, src: &Option<MirPlace>) -> (r:
    Option<(GraphId, NodeId)>)
    ensures
        r == ptr_of_step(graphs.gview(), head, place_view(*src)),
{
    if let Some(h) = head {
        if let Some(s) = src {
            if h.0 < graphs.graphs.len() {
                proof {
                    assert(graphs.gview()[h.0 as int] == graphs.graphs@[h.0 as int]@);
                }
                match find_dest_match(&graphs.graphs[h.0], s) {
                    Some(nid) => Some((h.0, nid)),
                    None => None,
                }
            } else {
                None
            }
        } else {
            None
        }
    } else {
        None
    }
}

/// The resolved predecessor of an event (see `source_of_step`).
fn compute_source(
    graphs: &Graphs,
    head: Option<(GraphId, NodeId)>,
    ptr: Option<(GraphId, NodeId)>,
    src_fn: Func,
    kind: &EventKind,
    src: &Option<MirPlace>,
) -> (r: Option<(GraphId, NodeId)>)
    ensures
        r == source_of_step(
            graphs.gview(),
            graphs.latest_assignment@,
            head,
            ptr,
            src_fn,
            *kind,
            place_view(*src),
        ),
{
    if ptr.is_some() {
        return ptr;
    }
    let s = match src {
        Some(s) => s,
        None => {
            return None;
        },
    };
    let la = graphs.latest_assignment.get(src_fn, s.local);
    if s.projection.len() > 0 {
        if let Some(hit) = la {
            if hit.0 < graphs.graphs.len() {
                let g = &graphs.graphs[hit.0];
                if g.nodes.len() > 0 {
                    proof {
                        assert(graphs.gview()[hit.0 as int] == graphs.graphs@[hit.0 as int]@);
                        assert(g@[g.nodes@.len() - 1] == g.nodes@[g.nodes@.len() - 1]@);
                    }
                    let last_is_field = match g.nodes[g.nodes.len() - 1].kind {
                        NodeKind::Field(_) => true,
                        _ => false,
                    };
                    if last_is_field {
                        return Some((hit.0, g.nodes.len() - 1));
                    }
                }
            }
        }
    }
    if s.projection.len() == 0 {
        la
    } else if matches!(kind, EventKind::Field(..)) {
        la
    } else {
        head
    }
}

/// Update the provenance table for one event (see `update_prov_spec`).
fn update_provenance(
    provenances: &mut ProvenanceTable,
    event_kind: &EventKind,
    metadata: &EventMetadata,
    mapping: (GraphId, NodeId),
)
    ensures
        final(provenances)@ == update_prov_spec(
            old(provenances)@,
            *event_kind,
            *metadata,
            mapping,
        ),
{
    match *event_kind {
        EventKind::Alloc { ptr, .. } => {
            provenances.insert(ptr, mapping);
        },
        EventKind::CopyPtr(ptr) => {
            // at-most-one-writer: a pointer that already has a
            // provenance entry keeps it; the copy's source is treated
            // as untracked.
            match provenances.get(ptr) {
                Some(_) => {},
                None => {
                    provenances.insert(ptr, mapping);
                },
            }
        },
        EventKind::Realloc { new_ptr, .. } => {
            provenances.insert(new_ptr, mapping);
        },
        EventKind::Offset(_, _, new_ptr) => {
            provenances.insert(new_ptr, mapping);
        },
        EventKind::CopyRef => {
            if let Some(d) = &metadata.destination {
                provenances.insert(d.local as usize, mapping);
            }
        },
        EventKind::AddrOfLocal(ptr, _) => {
            provenances.insert(ptr, mapping);
        },
        _ => {},
    }
}

/// Process one event: classify it, resolve its provenance, append the
/// node it maps to, and update both trackers. Returns the index of the
/// appended node, or `None` for an event that produces no node or whose
/// location is absent from the backing store (such an event is skipped
/// and assembly continues).
pub fn add_node(
    graphs: &mut Graphs,
    provenances: &mut ProvenanceTable,
    event: &Event,
    locations: &Vec<MirLoc>,
) -> (r: Option<NodeId>)
    ensures
        ({
            let res = step(
                AsmState {
                    graphs: old(graphs).gview(),
                    latest: old(graphs).latest_assignment@,
                    prov: old(provenances)@,
                },
                *event,
                locations@,
            );
            &&& final(graphs).gview() == res.state.graphs
            &&& final(graphs).latest_assignment@ == res.state.latest
            &&& final(provenances)@ == res.state.prov
            &&& r == res.produced
        }),
{
    let node_kind = match event.kind.to_node_kind() {
        Some(nk) => nk,
        None => {
            return None;
        },
    };
    if event.mir_loc >= locations.len() {
        // an event whose location cannot be resolved is skipped; the
        // graph is best-effort over the remainder of the trace
        return None;
    }
    let loc = &locations[event.mir_loc];
    let src_fn = match loc.metadata.transfer_kind {
        TransferKind::Intra => loc.func,
        TransferKind::Arg(_) => loc.func,
        TransferKind::Ret(f) => f,
    };
    let dest_fn = match loc.metadata.transfer_kind {
        TransferKind::Intra => loc.func,
        TransferKind::Arg(f) => f,
        TransferKind::Ret(_) => loc.func,
    };
    let (block, statement_idx) = match loc.metadata.transfer_kind {
        TransferKind::Arg(_) => (0usize, 0usize),
        _ => (loc.basic_block_idx, loc.statement_idx),
    };
    let head = match event.kind.ptr(&loc.metadata) {
        Some(p) => provenances.get(p),
        None => None,
    };
    let ptr = compute_ptr(graphs, head, &loc.metadata.source);
    let source = compute_source(graphs, head, ptr, src_fn, &event.kind, &loc.metadata.source);
    let node_source = match source {
        Some(p) => event.kind.parent(p),
        None => None,
    };
    let candidate = if source.is_some() {
        source
    } else if ptr.is_some() {
        ptr
    } else {
        head
    };
    let insert_ref = match candidate {
        Some(p) => event.kind.parent(p),
        None => None,
    };
    let dest_copy = match &loc.metadata.destination {
        Some(d) => Some(d.duplicate()),
        None => None,
    };
    let node = Node {
        function: dest_fn,
        block,
        statement_idx,
        kind: node_kind,
        source: match node_source {
            Some(p) => Some(p.1),
            None => None,
        },
        dest: dest_copy,
    };
    let ghost pre_graphs = graphs.gview();
    let ghost node_model = node@;
    proof {
        assert(node_model =~= built_node(
            locations@[event.mir_loc as int],
            node_kind,
            dest_fn,
            opt_parent(event.kind, source),
        ));
    }
    let ghost placed = place_node(pre_graphs, insert_ref, node_model);
    let (graph_id, node_id): (GraphId, NodeId) = match insert_ref {
        Some(p) => {
            if p.0 < graphs.graphs.len() {
                let nid = graphs.append_node(p.0, node);
                (p.0, nid)
            } else {
                let gid = graphs.append_new_graph(node);
                (gid, 0)
            }
        },
        None => {
            let gid = graphs.append_new_graph(node);
            (gid, 0)
        },
    };
    proof {
        assert(graphs.gview() == placed.graphs);
        assert(graph_id == placed.gid);
        assert(node_id == placed.nid);
    }
    update_provenance(provenances, &event.kind, &loc.metadata, (graph_id, node_id));
    if let Some(d) = &loc.metadata.destination {
        let prev = graphs.latest_assignment.get(dest_fn, d.local);
        let keep_old = match prev {
            Some(entry) => {
                if d.projection.len() > 0 && entry.0 < graphs.graphs.len() {
                    let g = &graphs.graphs[entry.0];
                    if entry.1 < g.nodes.len() {
                        proof {
                            assert(graphs.gview()[entry.0 as int] == graphs.graphs@[
                                entry.0 as int
                            ]@);
                            assert(g@[entry.1 as int] == g.nodes@[entry.1 as int]@);
                        }
                        match &g.nodes[entry.1].dest {
                            Some(pd) => pd.projection.len() == 0,
                            None => false,
                        }
                    } else {
                        false
                    }
                } else {
                    false
                }
            },
            None => false,
        };
        if !keep_old {
            graphs.latest_assignment.insert(dest_fn, d.local, (graph_id, node_id));
        }
    }
    Some(node_id)
}

/// Assemble the whole trace, in order, starting from an empty arena and
/// empty trackers, and hand back the finished graph forest together
/// with the latest-assignment table.
pub fn construct_pdg(events: &Vec<Event>, locations: &Vec<MirLoc>) -> (r: Graphs)
    ensures
        r.gview() == run(events@, locations@).graphs,
        r.latest_assignment@ == run(events@, locations@).latest,
{
    let mut graphs = Graphs::new();
    let mut provenances = ProvenanceTable::new();
    let mut i: usize = 0;
    proof {
        assert(events@.take(0) =~= Seq::<Event>::empty());
    }
    while i < events.len()
        invariant
            i <= events.len(),
            graphs.gview() == run(events@.take(i as int), locations@).graphs,
            graphs.latest_assignment@ == run(events@.take(i as int), locations@).latest,
            provenances@ == run(events@.take(i as int), locations@).prov,
        decreases events.len() - i,
    {
        add_node(&mut graphs, &mut provenances, &events[i], locations);
        proof {
            assert(events@.take(i as int + 1).drop_last() =~= events@.take(i as int));
            assert(events@.take(i as int + 1).last() == events@[i as int]);
        }
        i += 1;
    }
    proof {
        assert(events@.take(events@.len() as int) =~= events@);
    }
    graphs
}

} // verus!
