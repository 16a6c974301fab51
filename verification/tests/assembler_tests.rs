use pdg::assemble::{add_node, construct_pdg};
use pdg::event::{
    Event, EventKind, EventMetadata, Func, MirLoc, MirPlace, Projection, TransferKind,
};
use pdg::graph::NodeKind;
use pdg::graph::Graphs;
use pdg::tables::ProvenanceTable;

fn func_a() -> Func {
    Func { hi: 1, lo: 10 }
}

fn func_b() -> Func {
    Func { hi: 2, lo: 20 }
}

fn place(local: u32) -> MirPlace {
    MirPlace { local, projection: vec![] }
}

fn field_place(local: u32, field: usize) -> MirPlace {
    MirPlace { local, projection: vec![Projection::Field(field)] }
}

fn loc(
    func: Func,
    block: usize,
    stmt: usize,
    source: Option<MirPlace>,
    destination: Option<MirPlace>,
    transfer_kind: TransferKind,
) -> MirLoc {
    MirLoc {
        func,
        basic_block_idx: block,
        statement_idx: stmt,
        metadata: EventMetadata { source, destination, transfer_kind },
    }
}

fn ev(mir_loc: usize, kind: EventKind) -> Event {
    Event { mir_loc, kind }
}

#[test]
fn alloc_creates_single_root() {
    let locations = vec![loc(func_a(), 3, 7, None, None, TransferKind::Intra)];
    let events = vec![ev(0, EventKind::Alloc { size: 1, ptr: 0x10 })];
    let graphs = construct_pdg(&events, &locations);
    assert_eq!(graphs.graphs.len(), 1);
    assert_eq!(graphs.graphs[0].nodes.len(), 1);
    let node = &graphs.graphs[0].nodes[0];
    assert_eq!(node.kind, NodeKind::Malloc(1));
    assert_eq!(node.source, None);
    assert_eq!(node.function, func_a());
    assert_eq!(node.block, 3);
    assert_eq!(node.statement_idx, 7);
    assert_eq!(node.dest, None);
}

#[test]
fn copy_attaches_to_alloc() {
    let locations = vec![
        loc(func_a(), 0, 0, None, Some(place(1)), TransferKind::Intra),
        loc(func_a(), 0, 1, Some(place(1)), None, TransferKind::Intra),
    ];
    let events = vec![
        ev(0, EventKind::Alloc { size: 1, ptr: 0x10 }),
        ev(1, EventKind::CopyPtr(0x10)),
    ];
    let graphs = construct_pdg(&events, &locations);
    assert_eq!(graphs.graphs.len(), 1);
    assert_eq!(graphs.graphs[0].nodes.len(), 2);
    let copy = &graphs.graphs[0].nodes[1];
    assert_eq!(copy.kind, NodeKind::Copy);
    assert_eq!(copy.source, Some(0));
}

#[test]
fn arg_transfer_crosses_functions() {
    let locations = vec![
        loc(func_a(), 2, 5, None, Some(place(1)), TransferKind::Intra),
        loc(func_a(), 4, 9, Some(place(1)), None, TransferKind::Arg(func_b())),
    ];
    let events = vec![
        ev(0, EventKind::Alloc { size: 1, ptr: 0x10 }),
        ev(1, EventKind::CopyPtr(0x10)),
    ];
    let graphs = construct_pdg(&events, &locations);
    assert_eq!(graphs.graphs.len(), 1);
    assert_eq!(graphs.graphs[0].nodes.len(), 2);
    let arg = &graphs.graphs[0].nodes[1];
    assert_eq!(arg.function, func_b());
    assert_eq!(arg.block, 0);
    assert_eq!(arg.statement_idx, 0);
    assert_eq!(arg.source, Some(0));
}

#[test]
fn copy_of_unseen_pointer_starts_new_graph() {
    let locations = vec![loc(func_a(), 1, 1, None, None, TransferKind::Intra)];
    let events = vec![ev(0, EventKind::CopyPtr(0x99))];
    let graphs = construct_pdg(&events, &locations);
    assert_eq!(graphs.graphs.len(), 1);
    assert_eq!(graphs.graphs[0].nodes.len(), 1);
    let node = &graphs.graphs[0].nodes[0];
    assert_eq!(node.kind, NodeKind::Copy);
    assert_eq!(node.source, None);
}

#[test]
fn copy_does_not_overwrite_provenance() {
    let locations = vec![
        loc(func_a(), 0, 0, None, None, TransferKind::Intra),
        loc(func_a(), 0, 1, None, None, TransferKind::Intra),
    ];
    let mut graphs = Graphs::new();
    let mut provenances = ProvenanceTable::new();
    let alloc = ev(0, EventKind::Alloc { size: 1, ptr: 0x10 });
    let copy = ev(1, EventKind::CopyPtr(0x10));
    add_node(&mut graphs, &mut provenances, &alloc, &locations);
    assert_eq!(provenances.get(0x10), Some((0, 0)));
    add_node(&mut graphs, &mut provenances, &copy, &locations);
    // the copy appended a node, but the existing entry for 0x10 is kept
    assert_eq!(graphs.graphs[0].nodes.len(), 2);
    assert_eq!(provenances.get(0x10), Some((0, 0)));
}

#[test]
fn field_write_keeps_whole_object_entry() {
    let locations = vec![
        loc(func_a(), 0, 0, None, Some(place(2)), TransferKind::Intra),
        loc(func_a(), 0, 1, None, Some(field_place(2, 0)), TransferKind::Intra),
    ];
    let events = vec![
        ev(0, EventKind::Alloc { size: 1, ptr: 0x10 }),
        ev(1, EventKind::StoreAddr(0x10)),
    ];
    let graphs = construct_pdg(&events, &locations);
    assert_eq!(graphs.graphs[0].nodes.len(), 2);
    let items = graphs.latest_assignment.items();
    let hit = items
        .iter()
        .find(|entry| entry.0 == (func_a(), 2))
        .expect("slot 2 should be bound");
    // the whole-object write, not the later field write, is on record
    assert_eq!(hit.1, (0, 0));
}

#[test]
fn field_write_without_anchor_binds_slot() {
    let locations = vec![
        loc(func_a(), 0, 0, None, Some(field_place(2, 1)), TransferKind::Intra),
    ];
    let events = vec![ev(0, EventKind::StoreAddr(0x10))];
    let graphs = construct_pdg(&events, &locations);
    let items = graphs.latest_assignment.items();
    let hit = items
        .iter()
        .find(|entry| entry.0 == (func_a(), 2))
        .expect("slot 2 should be bound");
    assert_eq!(hit.1, (0, 0));
}

#[test]
fn ret_and_done_produce_no_nodes() {
    let locations = vec![loc(func_a(), 0, 0, None, None, TransferKind::Intra)];
    let events = vec![ev(0, EventKind::Ret(0x10)), ev(0, EventKind::Done)];
    let graphs = construct_pdg(&events, &locations);
    assert_eq!(graphs.graphs.len(), 0);
    assert!(graphs.latest_assignment.items().is_empty());
}

#[test]
fn unresolvable_location_is_skipped() {
    let locations = vec![loc(func_a(), 0, 0, None, None, TransferKind::Intra)];
    let events = vec![
        ev(5, EventKind::Alloc { size: 1, ptr: 0x20 }),
        ev(0, EventKind::Alloc { size: 1, ptr: 0x10 }),
    ];
    let graphs = construct_pdg(&events, &locations);
    // the event with an unknown location produced nothing; the rest of
    // the trace was still processed
    assert_eq!(graphs.graphs.len(), 1);
    assert_eq!(graphs.graphs[0].nodes.len(), 1);
}

fn replay_fixture() -> (Vec<Event>, Vec<MirLoc>) {
    let locations = vec![
        loc(func_a(), 0, 0, None, Some(place(1)), TransferKind::Intra),
        loc(func_a(), 0, 1, Some(place(1)), Some(place(2)), TransferKind::Intra),
        loc(func_a(), 1, 0, Some(place(2)), None, TransferKind::Arg(func_b())),
        loc(func_b(), 2, 2, None, Some(field_place(3, 0)), TransferKind::Intra),
    ];
    let events = vec![
        ev(0, EventKind::Alloc { size: 4, ptr: 0x100 }),
        ev(1, EventKind::CopyPtr(0x100)),
        ev(2, EventKind::CopyPtr(0x100)),
        ev(3, EventKind::StoreValue(0x100)),
        ev(0, EventKind::Free { ptr: 0x100 }),
    ];
    (events, locations)
}

#[test]
fn replay_is_deterministic() {
    let (events1, locations1) = replay_fixture();
    let (events2, locations2) = replay_fixture();
    let first = construct_pdg(&events1, &locations1);
    let second = construct_pdg(&events2, &locations2);
    assert_eq!(first, second);
}

#[test]
fn earlier_output_is_stable() {
    let (events, locations) = replay_fixture();
    let prefix: Vec<Event> = events[..2].to_vec();
    let partial = construct_pdg(&prefix, &locations);
    let full = construct_pdg(&events, &locations);
    // everything the prefix produced is unchanged in the full run
    assert!(partial.graphs.len() <= full.graphs.len());
    for (g, graph) in partial.graphs.iter().enumerate() {
        assert!(graph.nodes.len() <= full.graphs[g].nodes.len());
        for (n, node) in graph.nodes.iter().enumerate() {
            assert_eq!(*node, full.graphs[g].nodes[n]);
        }
    }
}

#[test]
fn realloc_starts_new_lineage() {
    let locations = vec![loc(func_a(), 0, 0, None, None, TransferKind::Intra)];
    let events = vec![
        ev(0, EventKind::Alloc { size: 1, ptr: 0x10 }),
        ev(0, EventKind::Realloc { old_ptr: 0x10, size: 8, new_ptr: 0x20 }),
        ev(0, EventKind::Free { ptr: 0x20 }),
    ];
    let graphs = construct_pdg(&events, &locations);
    assert_eq!(graphs.graphs.len(), 2);
    assert_eq!(graphs.graphs[0].nodes.len(), 1);
    assert_eq!(graphs.graphs[1].nodes.len(), 2);
    let realloc = &graphs.graphs[1].nodes[0];
    assert_eq!(realloc.kind, NodeKind::Malloc(1));
    assert_eq!(realloc.source, None);
    // the freed pointer resolved to the reallocation's lineage
    assert_eq!(graphs.graphs[1].nodes[1].kind, NodeKind::Free);
}

#[test]
fn offset_rebinds_provenance() {
    let locations = vec![loc(func_a(), 0, 0, None, None, TransferKind::Intra)];
    let events = vec![
        ev(0, EventKind::Alloc { size: 1, ptr: 0x10 }),
        ev(0, EventKind::Offset(0x10, 4, 0x18)),
        ev(0, EventKind::LoadAddr(0x18)),
    ];
    let graphs = construct_pdg(&events, &locations);
    assert_eq!(graphs.graphs.len(), 1);
    assert_eq!(graphs.graphs[0].nodes.len(), 3);
    assert_eq!(graphs.graphs[0].nodes[1].kind, NodeKind::Offset(4));
    assert_eq!(graphs.graphs[0].nodes[2].kind, NodeKind::LoadAddr);
}

#[test]
fn projected_source_resolves_to_field_node() {
    let locations = vec![
        loc(func_a(), 0, 0, None, Some(place(1)), TransferKind::Intra),
        loc(func_a(), 0, 1, Some(field_place(1, 3)), None, TransferKind::Intra),
        loc(func_a(), 0, 2, Some(field_place(1, 3)), None, TransferKind::Intra),
    ];
    let events = vec![
        ev(0, EventKind::Alloc { size: 1, ptr: 0x10 }),
        ev(1, EventKind::Field(0x10, 3)),
        ev(2, EventKind::LoadValue(0x77)),
    ];
    let graphs = construct_pdg(&events, &locations);
    assert_eq!(graphs.graphs.len(), 1);
    assert_eq!(graphs.graphs[0].nodes.len(), 3);
    assert_eq!(graphs.graphs[0].nodes[1].kind, NodeKind::Field(3));
    assert_eq!(graphs.graphs[0].nodes[1].source, Some(0));
    // the projected read chains to the field node, not the base object
    assert_eq!(graphs.graphs[0].nodes[2].source, Some(1));
}

#[test]
fn copy_ref_binds_destination_slot() {
    let locations = vec![
        loc(func_a(), 0, 0, None, Some(place(5)), TransferKind::Intra),
        loc(func_a(), 0, 1, None, None, TransferKind::Intra),
    ];
    let mut graphs = Graphs::new();
    let mut provenances = ProvenanceTable::new();
    let copy_ref = ev(0, EventKind::CopyRef);
    let copy_ptr = ev(1, EventKind::CopyPtr(5));
    add_node(&mut graphs, &mut provenances, &copy_ref, &locations);
    // the reference copy is keyed by its destination slot number
    assert_eq!(provenances.get(5), Some((0, 0)));
    add_node(&mut graphs, &mut provenances, &copy_ptr, &locations);
    assert_eq!(graphs.graphs.len(), 1);
    assert_eq!(graphs.graphs[0].nodes.len(), 2);
}

#[test]
fn event_kinds_map_to_node_kinds() {
    assert_eq!(
        EventKind::Alloc { size: 9, ptr: 1 }.to_node_kind(),
        Some(NodeKind::Malloc(1))
    );
    assert_eq!(
        EventKind::Realloc { old_ptr: 1, size: 2, new_ptr: 3 }.to_node_kind(),
        Some(NodeKind::Malloc(1))
    );
    assert_eq!(EventKind::Free { ptr: 1 }.to_node_kind(), Some(NodeKind::Free));
    assert_eq!(EventKind::CopyPtr(1).to_node_kind(), Some(NodeKind::Copy));
    assert_eq!(EventKind::CopyRef.to_node_kind(), Some(NodeKind::Copy));
    assert_eq!(EventKind::Field(1, 4).to_node_kind(), Some(NodeKind::Field(4)));
    assert_eq!(EventKind::LoadAddr(1).to_node_kind(), Some(NodeKind::LoadAddr));
    assert_eq!(EventKind::StoreAddr(1).to_node_kind(), Some(NodeKind::StoreAddr));
    assert_eq!(EventKind::LoadValue(1).to_node_kind(), Some(NodeKind::LoadValue));
    assert_eq!(EventKind::StoreValue(1).to_node_kind(), Some(NodeKind::StoreValue));
    assert_eq!(
        EventKind::AddrOfLocal(1, 7).to_node_kind(),
        Some(NodeKind::AddrOfLocal(7))
    );
    assert_eq!(EventKind::ToInt(1).to_node_kind(), Some(NodeKind::PtrToInt));
    assert_eq!(EventKind::FromInt(1).to_node_kind(), Some(NodeKind::IntToPtr));
    assert_eq!(EventKind::Offset(1, -2, 3).to_node_kind(), Some(NodeKind::Offset(-2)));
    assert_eq!(EventKind::Ret(1).to_node_kind(), None);
    assert_eq!(EventKind::Done.to_node_kind(), None);
}

#[test]
fn pointer_of_interest() {
    let meta = EventMetadata { source: None, destination: None, transfer_kind: TransferKind::Intra };
    assert_eq!(EventKind::CopyPtr(0x11).ptr(&meta), Some(0x11));
    assert_eq!(EventKind::CopyRef.ptr(&meta), None);
    assert_eq!(EventKind::Done.ptr(&meta), None);
    assert_eq!(
        EventKind::Realloc { old_ptr: 0x21, size: 1, new_ptr: 0x31 }.ptr(&meta),
        Some(0x21)
    );
    assert_eq!(EventKind::Offset(0x41, 8, 0x51).ptr(&meta), Some(0x41));
    assert_eq!(EventKind::AddrOfLocal(0x61, 2).ptr(&meta), Some(0x61));
}

#[test]
fn lineage_starting_kinds_have_no_parent() {
    assert!(!EventKind::Alloc { size: 1, ptr: 1 }.has_parent());
    assert!(!EventKind::Realloc { old_ptr: 1, size: 1, new_ptr: 2 }.has_parent());
    assert!(!EventKind::AddrOfLocal(1, 0).has_parent());
    assert!(!EventKind::Done.has_parent());
    assert!(EventKind::CopyPtr(1).has_parent());
    assert!(EventKind::Free { ptr: 1 }.has_parent());
    assert_eq!(EventKind::CopyPtr(1).parent((3, 4)), Some((3, 4)));
    assert_eq!(EventKind::Alloc { size: 1, ptr: 1 }.parent((3, 4)), None);
}

#[test]
fn addr_of_local_starts_its_own_graph() {
    let locations = vec![loc(func_a(), 0, 0, None, Some(place(9)), TransferKind::Intra)];
    let events = vec![
        ev(0, EventKind::Alloc { size: 1, ptr: 0x10 }),
        ev(0, EventKind::AddrOfLocal(0x70, 9)),
    ];
    let graphs = construct_pdg(&events, &locations);
    assert_eq!(graphs.graphs.len(), 2);
    let node = &graphs.graphs[1].nodes[0];
    assert_eq!(node.kind, NodeKind::AddrOfLocal(9));
    assert_eq!(node.source, None);
}

#[test]
fn descriptor_comparison_and_copy() {
    let a = field_place(1, 3);
    let b = field_place(1, 3);
    let c = place(1);
    assert!(a.same_place(&b));
    assert!(!a.same_place(&c));
    assert!(!c.same_place(&a));
    let d = a.duplicate();
    assert_eq!(a, d);
}
