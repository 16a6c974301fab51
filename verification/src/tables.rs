//! The two trackers read and written during assembly: the provenance
//! table (pointer value to the node that most recently produced it) and
//! the latest-assignment table (function and variable slot to the node
//! that most recently wrote that slot).
//!
//! Both are association lists whose view is a map; a later binding for a
//! key shadows an earlier one. Lookups return absence rather than
//! failing, and absence always routes assembly to its next fallback.

use vstd::prelude::*;

use crate::event::{Func, Pointer};

verus! {

/// The map an association list denotes: later entries shadow earlier ones.
pub open spec fn assoc_map<K, V>(s: Seq<(K, V)>) -> Map<K, V>
    decreases s.len(),
{
    if s.len() == 0 {
        Map::empty()
    } else {
        assoc_map(s.drop_last()).insert(s.last().0, s.last().1)
    }
}

/// The index of the binding in force for a key: the last entry of the
/// association list that carries it, or -1 when there is none.
pub open spec fn last_index_of<K, V>(s: Seq<(K, V)>, k: K) -> int
    decreases s.len(),
{
    if s.len() == 0 {
        -1
    } else if s.last().0 == k {
        s.len() - 1
    } else {
        last_index_of(s.drop_last(), k)
    }
}

/// A key the association list binds has a last binding; that binding
/// carries the map's value for the key, and no later entry carries the
/// key.
pub proof fn lemma_assoc_last_index<K, V>(s: Seq<(K, V)>, k: K)
    requires
        assoc_map(s).contains_key(k),
    ensures
        0 <= last_index_of(s, k) < s.len(),
        s[last_index_of(s, k)].0 == k,
        assoc_map(s)[k] == s[last_index_of(s, k)].1,
        forall|j: int| last_index_of(s, k) < j < s.len() ==> (#[trigger] s[j]).0 != k,
    decreases s.len(),
{
    if s.len() == 0 {
    } else if s.last().0 == k {
    } else {
        lemma_assoc_last_index(s.drop_last(), k);
        assert forall|j: int| last_index_of(s, k) < j < s.len() implies (#[trigger] s[j]).0
            != k by {
            if j < s.len() - 1 {
                assert(s[j] == s.drop_last()[j]);
            } else {
                assert(s[j] == s.last());
            }
        }
    }
}

/// Pointer value to the graph and node that most recently produced it.
/// A scratch structure local to one assembly run.
pub struct ProvenanceTable {
    entries: Vec<(Pointer, (usize, usize))>,
}

impl View for ProvenanceTable {
    type V = Map<Pointer, (usize, usize)>;

    closed spec fn view(&self) -> Map<Pointer, (usize, usize)> {
        assoc_map(self.entries@)
    }
}

impl ProvenanceTable {
    /// An empty table.
    pub fn new() -> (r: ProvenanceTable)
        ensures
            r@ == Map::<Pointer, (usize, usize)>::empty(),
    {
        let entries: Vec<(Pointer, (usize, usize))> = Vec::new();
        let r = ProvenanceTable { entries };
        proof {
            assert(r@ =~= Map::<Pointer, (usize, usize)>::empty());
        }
        r
    }

    /// Look `ptr` up; absent keys yield `None`.
    pub fn get(&self, ptr: Pointer) -> (r: Option<(usize, usize)>)
        ensures
            r == (if self@.contains_key(ptr) {
                Option::Some(self@[ptr])
            } else {
                Option::None::<(usize, usize)>
            }),
    {
        let mut i: usize = self.entries.len();
        proof {
            assert(self.entries@.take(i as int) =~= self.entries@);
        }
        while i > 0
            invariant
                i <= self.entries.len(),
                self@.contains_key(ptr) == assoc_map(self.entries@.take(i as int)).contains_key(
                    ptr,
                ),
                self@.contains_key(ptr) ==> self@[ptr] == assoc_map(
                    self.entries@.take(i as int),
                )[ptr],
            decreases i,
        {
            let e = self.entries[i - 1];
            proof {
                assert(self.entries@.take(i as int).drop_last() =~= self.entries@.take(
                    i as int - 1,
                ));
                assert(self.entries@.take(i as int).last() == self.entries@[i as int - 1]);
            }
            if e.0 == ptr {
                return Some(e.1);
            }
            i = i - 1;
        }
        proof {
            assert(self.entries@.take(0) =~= Seq::<(Pointer, (usize, usize))>::empty());
        }
        None
    }

    /// Bind `ptr` to `target`, shadowing any earlier binding.
    pub fn insert(&mut self, ptr: Pointer, target: (usize, usize))
        ensures
            final(self)@ == old(self)@.insert(ptr, target),
    {
        self.entries.push((ptr, target));
        proof {
            assert(self.entries@.drop_last() =~= old(self).entries@);
            assert(self@ =~= old(self)@.insert(ptr, target));
        }
    }
}

/// Function identity and variable slot to the graph and node that most
/// recently wrote that slot.
#[derive(Debug, PartialEq, Eq)]
pub struct AssignmentTable {
    entries: Vec<((Func, u32), (usize, usize))>,
}

impl View for AssignmentTable {
    type V = Map<(Func, u32), (usize, usize)>;

    closed spec fn view(&self) -> Map<(Func, u32), (usize, usize)> {
        assoc_map(self.entries@)
    }
}

impl AssignmentTable {
    /// An empty table.
    pub fn new() -> (r: AssignmentTable)
        ensures
            r@ == Map::<(Func, u32), (usize, usize)>::empty(),
    {
        let entries: Vec<((Func, u32), (usize, usize))> = Vec::new();
        let r = AssignmentTable { entries };
        proof {
            assert(r@ =~= Map::<(Func, u32), (usize, usize)>::empty());
        }
        r
    }

    /// Look the slot `local` of function `func` up; absent keys yield
    /// `None`.
    pub fn get(&self, func: Func, local: u32) -> (r: Option<(usize, usize)>)
        ensures
            r == (if self@.contains_key((func, local)) {
                Option::Some(self@[(func, local)])
            } else {
                Option::None::<(usize, usize)>
            }),
    {
        let mut i: usize = self.entries.len();
        proof {
            assert(self.entries@.take(i as int) =~= self.entries@);
        }
        while i > 0
            invariant
                i <= self.entries.len(),
                self@.contains_key((func, local)) == assoc_map(
                    self.entries@.take(i as int),
                ).contains_key((func, local)),
                self@.contains_key((func, local)) ==> self@[(func, local)] == assoc_map(
                    self.entries@.take(i as int),
                )[(func, local)],
            decreases i,
        {
            let e = self.entries[i - 1];
            proof {
                assert(self.entries@.take(i as int).drop_last() =~= self.entries@.take(
                    i as int - 1,
                ));
                assert(self.entries@.take(i as int).last() == self.entries@[i as int - 1]);
            }
            if e.0.0 == func && e.0.1 == local {
                proof {
                    assert(e.0 == (func, local));
                }
                return Some(e.1);
            }
            i = i - 1;
        }
        proof {
            assert(self.entries@.take(0) =~= Seq::<((Func, u32), (usize, usize))>::empty());
        }
        None
    }

    /// Bind the slot `local` of function `func` to `target`, shadowing
    /// any earlier binding.
    pub fn insert(&mut self, func: Func, local: u32, target: (usize, usize))
        ensures
            final(self)@ == old(self)@.insert((func, local), target),
    {
        self.entries.push(((func, local), target));
        proof {
            assert(self.entries@.drop_last() =~= old(self).entries@);
            assert(self@ =~= old(self)@.insert((func, local), target));
        }
    }

    /// The bindings currently in force: every returned pair is bound in
    /// the table, and every bound slot appears. Entries shadowed by a
    /// later binding for the same slot are left out.
    pub fn items(&self) -> (r: Vec<((Func, u32), (usize, usize))>)
        ensures
            forall|j: int|
                0 <= j < r@.len() ==> self@.contains_key(#[trigger] r@[j].0) && self@[r@[j].0]
                    == r@[j].1,
            forall|k: (Func, u32)|
                #[trigger] self@.contains_key(k) ==> exists|j: int|
                    0 <= j < r@.len() && (#[trigger] r@[j]).0 == k,
    {
        let mut out: Vec<((Func, u32), (usize, usize))> = Vec::new();
        let mut i: usize = 0;
        proof {
            assert forall|k: (Func, u32)|
                #[trigger] self@.contains_key(k) && last_index_of(self.entries@, k)
                    < 0 implies exists|j: int| 0 <= j < out@.len() && out@[j].0 == k by {
                lemma_assoc_last_index(self.entries@, k);
            }
        }
        while i < self.entries.len()
            invariant
                i <= self.entries.len(),
                forall|j: int|
                    0 <= j < out@.len() ==> self@.contains_key(#[trigger] out@[j].0)
                        && self@[out@[j].0] == out@[j].1,
                forall|k: (Func, u32)|
                    #[trigger] self@.contains_key(k) && last_index_of(self.entries@, k)
                        < i ==> exists|j: int| 0 <= j < out@.len() && out@[j].0 == k,
            decreases self.entries.len() - i,
        {
            let ghost prev_out = out@;
            let e = self.entries[i];
            let current = self.get(e.0.0, e.0.1);
            let in_force = match current {
                Some(c) => c.0 == e.1.0 && c.1 == e.1.1,
                None => false,
            };
            if in_force {
                proof {
                    assert(e.0 == (e.0.0, e.0.1));
                }
                out.push(e);
            }
            proof {
                assert forall|k: (Func, u32)|
                    #[trigger] self@.contains_key(k) && last_index_of(self.entries@, k) < i
                        + 1 implies exists|j: int| 0 <= j < out@.len() && out@[j].0 == k by {
                    lemma_assoc_last_index(self.entries@, k);
                    if last_index_of(self.entries@, k) < i {
                        let jj = choose|j: int| 0 <= j < prev_out.len() && prev_out[j].0 == k;
                        assert(out@[jj].0 == k);
                    } else {
                        // the binding in force for k is this very entry
                        assert(self.entries@[i as int].0 == k);
                        assert(e.0 == (e.0.0, e.0.1));
                        assert(self@[k] == e.1);
                        assert(in_force);
                        assert(out@ == prev_out.push(e));
                        assert(out@[out@.len() - 1].0 == k);
                    }
                }
            }
            i += 1;
        }
        proof {
            assert forall|k: (Func, u32)| #[trigger] self@.contains_key(k) implies exists|j: int|
                0 <= j < out@.len() && out@[j].0 == k by {
                lemma_assoc_last_index(self.entries@, k);
            }
        }
        out
    }
}

} // verus!
