//! The event model: the vocabulary of observable memory operations and
//! their payloads, as recorded by compile-time instrumentation.

use vstd::prelude::*;

use crate::graph::{GraphId, NodeId, NodeKind};

verus! {

/// A raw pointer value observed during execution, carried as a plain
/// machine word.
pub type Pointer = usize;

/// Identity of a function, as the stable hash pair the trace producer
/// assigns to it.
#[derive(Clone, Copy, PartialEq, Eq, Structural, Debug, Hash)]
pub struct Func {
    pub hi: u64,
    pub lo: u64,
}

/// One step of a field-projection path in an operand descriptor.
#[derive(Clone, Copy, PartialEq, Eq, Structural, Debug)]
pub enum Projection {
    Deref,
    Field(usize),
    Index(usize),
    Unsupported,
}

/// An operand descriptor: the variable slot an event reads or writes,
/// refined by a field-projection path (empty for a whole-object access).
#[derive(Debug, PartialEq, Eq)]
pub struct MirPlace {
    pub local: u32,
    pub projection: Vec<Projection>,
}

/// The mathematical value of a `MirPlace`.
#[verifier::ext_equal]
pub ghost struct PlaceModel {
    pub local: u32,
    pub projection: Seq<Projection>,
}

impl View for MirPlace {
    type V = PlaceModel;

    open spec fn view(&self) -> PlaceModel {
        PlaceModel { local: self.local, projection: self.projection@ }
    }
}

/// The view of an optional operand descriptor.
pub open spec fn place_view(p: Option<MirPlace>) -> Option<PlaceModel> {
    match p {
        Option::Some(q) => Option::Some(q@),
        Option::None => Option::None,
    }
}

impl MirPlace {
    /// Whether two descriptors name exactly the same place: the same
    /// variable slot under the same projection path.
    pub fn same_place(&self, other: &MirPlace) -> (r: bool)
        ensures
            r == (self@ == other@),
    {
        if self.local != other.local {
            return false;
        }
        if self.projection.len() != other.projection.len() {
            return false;
        }
        let mut i: usize = 0;
        while i < self.projection.len()
            invariant
                i <= self.projection.len(),
                self.projection.len() == other.projection.len(),
                self.local == other.local,
                forall|j: int| 0 <= j < i ==> self.projection@[j] == other.projection@[j],
            decreases self.projection.len() - i,
        {
            if self.projection[i] != other.projection[i] {
                return false;
            }
            i += 1;
        }
        proof {
            assert(self.projection@ =~= other.projection@);
            assert(self@ =~= other@);
        }
        true
    }

    /// An independent copy with the same mathematical value.
    pub fn duplicate(&self) -> (r: MirPlace)
        ensures
            r@ == self@,
    {
        let mut projection: Vec<Projection> = Vec::new();
        let mut i: usize = 0;
        while i < self.projection.len()
            invariant
                i <= self.projection.len(),
                projection@.len() == i,
                forall|j: int| 0 <= j < i ==> projection@[j] == self.projection@[j],
            decreases self.projection.len() - i,
        {
            projection.push(self.projection[i]);
            i += 1;
        }
        proof {
            assert(projection@ =~= self.projection@);
        }
        MirPlace { local: self.local, projection }
    }
}

/// Indicates that an event's value crosses a call boundary: not at all,
/// as an argument into the named function, or as a return value out of it.
#[derive(Clone, Copy, PartialEq, Eq, Structural, Debug)]
pub enum TransferKind {
    Intra,
    Arg(Func),
    Ret(Func),
}

/// Per-event metadata: the declared source and destination operand
/// descriptors and the transfer hint.
#[derive(Debug)]
pub struct EventMetadata {
    pub source: Option<MirPlace>,
    pub destination: Option<MirPlace>,
    pub transfer_kind: TransferKind,
}

/// One resolved entry of the location backing store: the enclosing
/// function and position of an instrumentation point, plus the event
/// metadata recorded for it.
#[derive(Debug)]
pub struct MirLoc {
    pub func: Func,
    pub basic_block_idx: usize,
    pub statement_idx: usize,
    pub metadata: EventMetadata,
}

/// One observed memory operation: an opaque location reference (an index
/// into the location backing store) and the operation's kind and payload.
#[derive(Clone, Copy, Debug)]
pub struct Event {
    pub mir_loc: usize,
    pub kind: EventKind,
}

/// The closed set of observable memory operations.
#[derive(Clone, Copy, PartialEq, Eq, Structural, Debug)]
pub enum EventKind {
    CopyPtr(Pointer),
    CopyRef,
    Field(Pointer, u32),
    Alloc { size: usize, ptr: Pointer },
    Free { ptr: Pointer },
    Realloc { old_ptr: Pointer, size: usize, new_ptr: Pointer },
    Ret(Pointer),
    Done,
    Offset(Pointer, isize, Pointer),
    LoadAddr(Pointer),
    StoreAddr(Pointer),
    LoadValue(Pointer),
    StoreValue(Pointer),
    ToInt(Pointer),
    FromInt(Pointer),
    AddrOfLocal(Pointer, u32),
}

impl EventKind {
    /// The single pointer of interest for this event, if it has one.
    pub open spec fn ptr_spec(self) -> Option<Pointer> {
        match self {
            EventKind::CopyPtr(lhs) => Option::Some(lhs),
            EventKind::CopyRef => Option::None,
            EventKind::Field(ptr, _) => Option::Some(ptr),
            EventKind::Alloc { ptr, .. } => Option::Some(ptr),
            EventKind::Free { ptr } => Option::Some(ptr),
            EventKind::Realloc { old_ptr, .. } => Option::Some(old_ptr),
            EventKind::Ret(ptr) => Option::Some(ptr),
            EventKind::Done => Option::None,
            EventKind::Offset(ptr, _, _) => Option::Some(ptr),
            EventKind::LoadAddr(ptr) => Option::Some(ptr),
            EventKind::StoreAddr(ptr) => Option::Some(ptr),
            EventKind::LoadValue(ptr) => Option::Some(ptr),
            EventKind::StoreValue(ptr) => Option::Some(ptr),
            EventKind::ToInt(ptr) => Option::Some(ptr),
            EventKind::FromInt(lhs) => Option::Some(lhs),
            EventKind::AddrOfLocal(lhs, _) => Option::Some(lhs),
        }
    }

    /// Return the pointer of interest for this event, if it has one.
    pub fn ptr(&self, _metadata: &EventMetadata) -> (r: Option<Pointer>)
        ensures
            r == self.ptr_spec(),
    {
        match *self {
            EventKind::CopyPtr(lhs) => Some(lhs),
            EventKind::CopyRef => None,
            EventKind::Field(ptr, _) => Some(ptr),
            EventKind::Alloc { ptr, .. } => Some(ptr),
            EventKind::Free { ptr } => Some(ptr),
            EventKind::Realloc { old_ptr, .. } => Some(old_ptr),
            EventKind::Ret(ptr) => Some(ptr),
            EventKind::Done => None,
            EventKind::Offset(ptr, _, _) => Some(ptr),
            EventKind::LoadAddr(ptr) => Some(ptr),
            EventKind::StoreAddr(ptr) => Some(ptr),
            EventKind::LoadValue(ptr) => Some(ptr),
            EventKind::StoreValue(ptr) => Some(ptr),
            EventKind::ToInt(ptr) => Some(ptr),
            EventKind::FromInt(lhs) => Some(lhs),
            EventKind::AddrOfLocal(lhs, _) => Some(lhs),
        }
    }

    /// Whether this event chains to a predecessor. Allocation and
    /// address-taking events start a new lineage and never chain.
    pub open spec fn has_parent_spec(self) -> bool {
        match self {
            EventKind::Realloc { .. } => false,
            EventKind::Alloc { .. } => false,
            EventKind::AddrOfLocal(_, _) => false,
            EventKind::Done => false,
            _ => true,
        }
    }

    /// Whether this event chains to a predecessor.
    pub fn has_parent(&self) -> (r: bool)
        ensures
            r == self.has_parent_spec(),
    {
        match *self {
            EventKind::Realloc { .. } => false,
            EventKind::Alloc { .. } => false,
            EventKind::AddrOfLocal(_, _) => false,
            EventKind::Done => false,
            _ => true,
        }
    }

    /// The predecessor reference this event keeps of a resolved
    /// candidate: the candidate itself when the event chains, nothing
    /// when it starts a new lineage.
    pub open spec fn parent_spec(self, obj: (GraphId, NodeId)) -> Option<(GraphId, NodeId)> {
        if self.has_parent_spec() {
            Option::Some(obj)
        } else {
            Option::None
        }
    }

    /// Filter a resolved candidate predecessor through the has-parent
    /// rule.
    pub fn parent(&self, obj: (GraphId, NodeId)) -> (r: Option<(GraphId, NodeId)>)
        ensures
            r == self.parent_spec(obj),
    {
        if self.has_parent() {
            Some(obj)
        } else {
            None
        }
    }

    /// The node kind this event maps to; events that produce no node
    /// map to nothing.
    pub open spec fn node_kind_spec(self) -> Option<NodeKind> {
        match self {
            EventKind::Alloc { .. } => Option::Some(NodeKind::Malloc(1)),
            EventKind::Realloc { .. } => Option::Some(NodeKind::Malloc(1)),
            EventKind::Free { .. } => Option::Some(NodeKind::Free),
            EventKind::CopyPtr(_) => Option::Some(NodeKind::Copy),
            EventKind::CopyRef => Option::Some(NodeKind::Copy),
            EventKind::Field(_, field) => Option::Some(NodeKind::Field(field)),
            EventKind::LoadAddr(_) => Option::Some(NodeKind::LoadAddr),
            EventKind::StoreAddr(_) => Option::Some(NodeKind::StoreAddr),
            EventKind::LoadValue(_) => Option::Some(NodeKind::LoadValue),
            EventKind::StoreValue(_) => Option::Some(NodeKind::StoreValue),
            EventKind::AddrOfLocal(_, local) => Option::Some(NodeKind::AddrOfLocal(local)),
            EventKind::ToInt(_) => Option::Some(NodeKind::PtrToInt),
            EventKind::FromInt(_) => Option::Some(NodeKind::IntToPtr),
            EventKind::Ret(_) => Option::None,
            EventKind::Offset(_, offset, _) => Option::Some(NodeKind::Offset(offset)),
            EventKind::Done => Option::None,
        }
    }

    /// Map this event to the node kind it produces, if any.
    pub fn to_node_kind(&self) -> (r: Option<NodeKind>)
        ensures
            r == self.node_kind_spec(),
    {
        match *self {
            EventKind::Alloc { .. } => Some(NodeKind::Malloc(1)),
            EventKind::Realloc { .. } => Some(NodeKind::Malloc(1)),
            EventKind::Free { .. } => Some(NodeKind::Free),
            EventKind::CopyPtr(_) => Some(NodeKind::Copy),
            EventKind::CopyRef => Some(NodeKind::Copy),
            EventKind::Field(_, field) => Some(NodeKind::Field(field)),
            EventKind::LoadAddr(_) => Some(NodeKind::LoadAddr),
            EventKind::StoreAddr(_) => Some(NodeKind::StoreAddr),
            EventKind::LoadValue(_) => Some(NodeKind::LoadValue),
            EventKind::StoreValue(_) => Some(NodeKind::StoreValue),
            EventKind::AddrOfLocal(_, local) => Some(NodeKind::AddrOfLocal(local)),
            EventKind::ToInt(_) => Some(NodeKind::PtrToInt),
            EventKind::FromInt(_) => Some(NodeKind::IntToPtr),
            EventKind::Ret(_) => None,
            EventKind::Offset(_, offset, _) => Some(NodeKind::Offset(offset)),
            EventKind::Done => None,
        }
    }
}

} // verus!
