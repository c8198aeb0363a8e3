//! A plain-value model of the incremental engine's self-reported state: the
//! names and locations it allocates, the flat operation trace it emits, and
//! the snapshot of its dependency graph.  The harness never inspects the
//! engine's own structures; renderers hand the library these values and the
//! library's reconstruction logic works on them alone.

use vstd::prelude::*;

verus! {

/// A name, as the engine reports it: its display text.  Viewed as that
/// text's character sequence.
#[derive(Debug)]
pub struct Name {
    pub text: String,
}

impl View for Name {
    type V = Seq<char>;

    open spec fn view(&self) -> Seq<char> {
        self.text@
    }
}

impl Name {
    /// An owned copy carrying the same text.
    pub fn duplicate(&self) -> (r: Name)
        ensures
            r@ == self@,
    {
        Name { text: self.text.clone() }
    }
}

/// The mathematical content of a location: its identity, its path's texts,
/// and its name's text.
pub ghost struct LocView {
    pub id: u64,
    pub path: Seq<Seq<char>>,
    pub name: Seq<char>,
}

/// The view of a sequence of names: their texts, in order.
pub open spec fn path_view(p: Seq<Name>) -> Seq<Seq<char>> {
    p.map(|i: int, n: Name| n@)
}

/// A location in the engine's graph: a path of names, a distinguished name,
/// and a numeric identity.  Two locations denote the same graph node exactly
/// when their identities agree; the path and name are carried for display.
#[derive(Debug)]
pub struct Loc {
    pub id: u64,
    pub path: Vec<Name>,
    pub name: Name,
}

impl View for Loc {
    type V = LocView;

    open spec fn view(&self) -> LocView {
        LocView { id: self.id, path: path_view(self.path@), name: self.name@ }
    }
}

impl Loc {
    /// An owned copy denoting the same location.
    pub fn duplicate(&self) -> (r: Loc)
        ensures
            r@ == self@,
    {
        let mut path: Vec<Name> = Vec::new();
        let mut i: usize = 0;
        while i < self.path.len()
            invariant
                i <= self.path@.len(),
                path@.len() == i,
                forall|j: int| 0 <= j < i ==> path@[j]@ == self.path@[j]@,
            decreases self.path@.len() - i,
        {
            path.push(self.path[i].duplicate());
            i = i + 1;
        }
        let r = Loc { id: self.id, path, name: self.name.duplicate() };
        proof {
            assert(r@.path =~= self@.path);
        }
        r
    }
}

/// The kind of a dependency edge: producing content at a location, or
/// consuming (demanding) it.
#[derive(Clone, Copy, Debug, PartialEq, Eq, Structural)]
pub enum Effect {
    Alloc,
    Force,
}

/// An outgoing dependency edge: its target, its kind, and whether the engine
/// currently considers it dirty.
#[derive(Debug)]
pub struct Succ {
    pub loc: Loc,
    pub effect: Effect,
    pub dirty: bool,
}

/// An edge as reported in the operation trace: an optional source (absent
/// when the actor is the editor, outside the graph) and the successor record
/// naming the target and kind.
#[derive(Debug)]
pub struct Edge {
    pub loc: Option<Loc>,
    pub succ: Succ,
}

/// Distinguishes fresh allocations from those that reuse an existing
/// location.
#[derive(Clone, Copy, Debug, PartialEq, Eq, Structural)]
pub enum AllocCase {
    LocFresh,
    LocExists,
}

/// What kind of articulation an allocation created.
#[derive(Clone, Copy, Debug, PartialEq, Eq, Structural)]
pub enum AllocKind {
    RefCell,
    Thunk,
}

/// How a force was satisfied: by re-evaluating, from the cache, or by a
/// direct read of a reference cell.
#[derive(Clone, Copy, Debug, PartialEq, Eq, Structural)]
pub enum ForceCase {
    CompCacheMiss,
    CompCacheHit,
    RefGet,
}

/// The effect tag of one traced operation.
#[derive(Clone, Copy, Debug, PartialEq, Eq, Structural)]
pub enum TraceEffect {
    CleanRec,
    CleanEval,
    CleanEdge,
    Dirty,
    Remove,
    Alloc(AllocCase, AllocKind),
    Force(ForceCase),
}

/// One backend-reported operation: its effect tag, the edge it acts on, and
/// the operations that occurred within its dynamic extent.
#[derive(Debug)]
pub struct TraceRec {
    pub effect: TraceEffect,
    pub edge: Edge,
    pub extent: Vec<TraceRec>,
}

/// One node of a graph snapshot: its location and its outgoing edges.
/// `succs` is `None` for nodes that can have no successors (reference
/// cells), and `Some` with the ordered edge list otherwise.
#[derive(Debug)]
pub struct DcgNode {
    pub loc: Loc,
    pub succs: Option<Vec<Succ>>,
}

/// A snapshot of the incremental engine's dependency graph: its nodes, keyed
/// by the numeric identity of their locations.
#[derive(Debug)]
pub struct DcgSnapshot {
    pub nodes: Vec<DcgNode>,
}

impl DcgSnapshot {
    /// Well-formed snapshots give each node a distinct location identity, so
    /// that an identity determines a node.
    pub open spec fn wf(self) -> bool {
        forall|i: int, j: int|
            0 <= i < self.nodes@.len() && 0 <= j < self.nodes@.len()
                && self.nodes@[i].loc.id == self.nodes@[j].loc.id ==> i == j
    }

    /// Whether some node carries the identity `id`.
    pub open spec fn has_id(self, id: u64) -> bool {
        exists|i: int| 0 <= i < self.nodes@.len() && self.nodes@[i].loc.id == id
    }

    /// The index of the node carrying `id`.
    pub open spec fn index_of_id(self, id: u64) -> int {
        choose|i: int| 0 <= i < self.nodes@.len() && self.nodes@[i].loc.id == id
    }

    /// The node carrying `id`.
    pub open spec fn node_of_id(self, id: u64) -> DcgNode {
        self.nodes@[self.index_of_id(id)]
    }

    /// Looks a location identity up in the snapshot, returning the index of
    /// its node.
    pub fn find_node(&self, id: u64) -> (r: Option<usize>)
        ensures
            match r {
                Some(i) => i < self.nodes@.len() && self.nodes@[i as int].loc.id == id
                    && self.has_id(id),
                None => !self.has_id(id),
            },
    {
        let mut i: usize = 0;
        while i < self.nodes.len()
            invariant
                i <= self.nodes@.len(),
                forall|j: int| 0 <= j < i ==> self.nodes@[j].loc.id != id,
            decreases self.nodes@.len() - i,
        {
            if self.nodes[i].loc.id == id {
                return Some(i);
            }
            i = i + 1;
        }
        None
    }
}

/// A reflected value: a universal representation for captured snapshots of a
/// scenario's inputs and outputs.
#[derive(Debug)]
pub enum Val {
    Nat(u64),
    Int(i64),
    Text(String),
    List(Vec<Val>),
}

} // verus!
