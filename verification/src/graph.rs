//! The graph store: an arena of append-only graphs, each an ordered
//! sequence of nodes. Graphs and nodes are referenced only by integer
//! index, never by direct reference.

use vstd::prelude::*;

use crate::event::{place_view, Func, MirPlace, PlaceModel};
use crate::tables::AssignmentTable;

verus! {

/// Index of a graph within the arena. Indices are append-only and are
/// never reused or invalidated.
pub type GraphId = usize;

/// Index of a node within its graph.
pub type NodeId = usize;

/// The subset of event kinds that is meaningful to the graph.
#[derive(Clone, Copy, PartialEq, Eq, Structural, Debug)]
pub enum NodeKind {
    Copy,
    Field(u32),
    Malloc(usize),
    Free,
    LoadAddr,
    StoreAddr,
    LoadValue,
    StoreValue,
    PtrToInt,
    IntToPtr,
    AddrOfLocal(u32),
    Offset(isize),
}

/// One memory operation, immutable once appended to its graph. `source`
/// refers to the predecessor node this operation's pointer was derived
/// from, by node index within the same graph only.
#[derive(Debug, PartialEq, Eq)]
pub struct Node {
    pub function: Func,
    pub block: usize,
    pub statement_idx: usize,
    pub kind: NodeKind,
    pub source: Option<NodeId>,
    pub dest: Option<MirPlace>,
}

/// The mathematical value of a `Node`.
#[verifier::ext_equal]
pub ghost struct NodeModel {
    pub function: Func,
    pub block: usize,
    pub statement_idx: usize,
    pub kind: NodeKind,
    pub source: Option<NodeId>,
    pub dest: Option<PlaceModel>,
}

impl View for Node {
    type V = NodeModel;

    open spec fn view(&self) -> NodeModel {
        NodeModel {
            function: self.function,
            block: self.block,
            statement_idx: self.statement_idx,
            kind: self.kind,
            source: self.source,
            dest: place_view(self.dest),
        }
    }
}

/// One provenance root: the lineage of one allocation or address-taking
/// event and everything derived from it. Ordered and append-only.
#[derive(Debug, PartialEq, Eq)]
pub struct Graph {
    pub nodes: Vec<Node>,
}

impl View for Graph {
    type V = Seq<NodeModel>;

    open spec fn view(&self) -> Seq<NodeModel> {
        self.nodes@.map_values(|n: Node| n@)
    }
}

impl Graph {
    /// An empty graph.
    pub fn new() -> (r: Graph)
        ensures
            r@ == Seq::<NodeModel>::empty(),
    {
        let nodes: Vec<Node> = Vec::new();
        let r = Graph { nodes };
        proof {
            assert(r@ =~= Seq::<NodeModel>::empty());
        }
        r
    }
}

/// The arena of graphs plus the latest-assignment table: the sole mutable
/// state threaded through assembly.
#[derive(Debug, PartialEq, Eq)]
pub struct Graphs {
    pub graphs: Vec<Graph>,
    pub latest_assignment: AssignmentTable,
}

impl Graphs {
    /// The mathematical value of the graph arena: one node sequence per
    /// graph, in arena order.
    pub open spec fn gview(&self) -> Seq<Seq<NodeModel>> {
        self.graphs@.map_values(|g: Graph| g@)
    }

    /// An empty arena with an empty latest-assignment table.
    pub fn new() -> (r: Graphs)
        ensures
            r.gview() == Seq::<Seq<NodeModel>>::empty(),
            r.latest_assignment@ == Map::<(Func, u32), (GraphId, NodeId)>::empty(),
    {
        let graphs: Vec<Graph> = Vec::new();
        let r = Graphs { graphs, latest_assignment: AssignmentTable::new() };
        proof {
            assert(r.gview() =~= Seq::<Seq<NodeModel>>::empty());
        }
        r
    }

    /// Append `node` to the existing graph `gid` and return the new
    /// node's index within it.
    pub fn append_node(&mut self, gid: GraphId, node: Node) -> (nid: NodeId)
        requires
            gid < old(self).gview().len(),
        ensures
            final(self).gview() == old(self).gview().update(
                gid as int,
                old(self).gview()[gid as int].push(node@),
            ),
            nid == old(self).gview()[gid as int].len(),
            final(self).latest_assignment@ == old(self).latest_assignment@,
    {
        let ghost pre = self.gview();
        let mut g = self.graphs.remove(gid);
        let nid = g.nodes.len();
        g.nodes.push(node);
        self.graphs.insert(gid, g);
        proof {
            assert(self.gview() =~~= pre.update(gid as int, pre[gid as int].push(node@)));
        }
        nid
    }

    /// Allocate a new graph holding only `node` and return its index.
    pub fn append_new_graph(&mut self, node: Node) -> (gid: GraphId)
        ensures
            final(self).gview() == old(self).gview().push(seq![node@]),
            gid == old(self).gview().len(),
            final(self).latest_assignment@ == old(self).latest_assignment@,
    {
        let ghost pre = self.gview();
        let gid = self.graphs.len();
        let mut g = Graph::new();
        g.nodes.push(node);
        self.graphs.push(g);
        proof {
            assert(self.gview() =~~= pre.push(seq![node@]));
        }
        gid
    }
}

} // verus!
