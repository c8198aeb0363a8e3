//! Reconstruction of render trees from the incremental engine's reflected
//! state: small `Div` projections of names, locations and edges, and the two
//! derived trees (allocation tree and force tree) rebuilt from a graph
//! snapshot by following edges of a single kind.

use vstd::prelude::*;

use crate::trace::{
    AllocCase, AllocKind, DcgSnapshot, Edge, Effect, ForceCase, Loc, LocView, Name, Succ, TraceRec,
    TraceEffect, path_view,
};

verus! {

/// A restricted form of an HTML `<div>` element: a tag, further CSS classes,
/// child elements, and optional text.  A derived, display-only projection,
/// never parsed back into domain data.
#[derive(Debug)]
pub struct Div {
    pub tag: String,
    pub classes: Vec<String>,
    pub extent: Vec<Div>,
    pub text: Option<String>,
}

/// Failures of tree reconstruction.  Either is fatal only to the rendering
/// of the one sample whose snapshot was malformed.
#[derive(Clone, Copy, Debug, PartialEq, Eq, Structural)]
pub enum ReflectError {
    /// A location referenced by an edge is missing from the snapshot.
    DanglingLocation(u64),
    /// A location was reached twice along one recursion: the snapshot is not
    /// a tree-shaped (acyclic, non-sharing) graph along this edge kind.
    RevisitedLocation(u64),
}

/// The `Div` that renders a name: its text both as a class and as content.
pub open spec fn is_name_div(d: Div, n: Seq<char>) -> bool {
    &&& d.tag@ == "name"@
    &&& d.classes@.len() == 1
    &&& d.classes@[0]@ == n
    &&& d.extent@.len() == 0
    &&& match d.text {
        Some(t) => t@ == n,
        None => false,
    }
}

pub fn div_of_name(n: &Name) -> (d: Div)
    ensures
        is_name_div(d, n@),
{
    Div {
        tag: "name".to_owned(),
        classes: vec![n.text.clone()],
        extent: Vec::new(),
        text: Some(n.text.clone()),
    }
}

/// The `Div` that renders a path: one name `Div` per element, in order.
pub open spec fn is_path_div(d: Div, p: Seq<Seq<char>>) -> bool {
    &&& d.tag@ == "path"@
    &&& d.classes@.len() == 0
    &&& d.extent@.len() == p.len()
    &&& forall|i: int| 0 <= i < p.len() ==> is_name_div(#[trigger] d.extent@[i], p[i])
    &&& d.text is None
}

pub fn div_of_path(p: &Vec<Name>) -> (d: Div)
    ensures
        is_path_div(d, path_view(p@)),
{
    let mut extent: Vec<Div> = Vec::new();
    let mut i: usize = 0;
    while i < p.len()
        invariant
            i <= p@.len(),
            extent@.len() == i,
            forall|j: int| 0 <= j < i ==> is_name_div(#[trigger] extent@[j], p@[j]@),
        decreases p@.len() - i,
    {
        extent.push(div_of_name(&p[i]));
        i = i + 1;
    }
    Div { tag: "path".to_owned(), classes: Vec::new(), extent, text: None }
}

/// The `Div` that renders a location: its path and its name.
pub open spec fn is_loc_div(d: Div, l: LocView) -> bool {
    &&& d.tag@ == "loc"@
    &&& d.classes@.len() == 0
    &&& d.extent@.len() == 2
    &&& is_path_div(d.extent@[0], l.path)
    &&& is_name_div(d.extent@[1], l.name)
    &&& d.text is None
}

pub fn div_of_loc(l: &Loc) -> (d: Div)
    ensures
        is_loc_div(d, l@),
{
    Div {
        tag: "loc".to_owned(),
        classes: Vec::new(),
        extent: vec![div_of_path(&l.path), div_of_name(&l.name)],
        text: None,
    }
}

/// The `Div` that renders an optional source location.  The source is
/// deliberately elided from the rendering: the element is always empty.
pub open spec fn is_oploc_div(d: Div) -> bool {
    &&& d.tag@ == "oploc"@
    &&& d.classes@.len() == 0
    &&& d.extent@.len() == 0
    &&& d.text is None
}

pub fn div_of_oploc(ol: &Option<Loc>) -> (d: Div)
    ensures
        is_oploc_div(d),
{
    Div { tag: "oploc".to_owned(), classes: Vec::new(), extent: Vec::new(), text: None }
}

/// The class that marks an edge's kind.
pub open spec fn effect_class(e: Effect) -> Seq<char> {
    match e {
        Effect::Alloc => "succ-alloc"@,
        Effect::Force => "succ-force"@,
    }
}

/// The class that marks an edge's dirty flag.
pub open spec fn dirty_class(dirty: bool) -> Seq<char> {
    if dirty {
        "succ-dirty"@
    } else {
        "succ-not-dirty"@
    }
}

/// The `Div` that renders a successor edge: kind class, dirty class, and the
/// target location.
pub open spec fn is_succ_div(d: Div, s: Succ) -> bool {
    &&& d.tag@ == "succ"@
    &&& d.classes@.len() == 2
    &&& d.classes@[0]@ == effect_class(s.effect)
    &&& d.classes@[1]@ == dirty_class(s.dirty)
    &&& d.extent@.len() == 1
    &&& is_loc_div(d.extent@[0], s.loc@)
    &&& d.text is None
}

pub fn div_of_succ(s: &Succ) -> (d: Div)
    ensures
        is_succ_div(d, *s),
{
    let effect_str: String = match s.effect {
        Effect::Alloc => "succ-alloc".to_owned(),
        Effect::Force => "succ-force".to_owned(),
    };
    let dirty_str: String = if s.dirty {
        "succ-dirty".to_owned()
    } else {
        "succ-not-dirty".to_owned()
    };
    Div {
        tag: "succ".to_owned(),
        classes: vec![effect_str, dirty_str],
        extent: vec![div_of_loc(&s.loc)],
        text: None,
    }
}

/// The `Div` that renders a trace edge: its optional source and its
/// successor record.
pub open spec fn is_edge_div(d: Div, e: Edge) -> bool {
    &&& d.tag@ == "edge"@
    &&& d.classes@.len() == 0
    &&& d.extent@.len() == 2
    &&& is_oploc_div(d.extent@[0])
    &&& is_succ_div(d.extent@[1], e.succ)
    &&& d.text is None
}

pub fn div_of_edge(e: &Edge) -> (d: Div)
    ensures
        is_edge_div(d, *e),
{
    Div {
        tag: "edge".to_owned(),
        classes: Vec::new(),
        extent: vec![div_of_oploc(&e.loc), div_of_succ(&e.succ)],
        text: None,
    }
}

/// A tree of locations: the result of following, from a root location, only
/// the graph's outgoing edges of one kind.
#[derive(Debug)]
pub struct LocTree {
    pub loc: Loc,
    pub children: Vec<LocTree>,
}

/// The targets of a node's outgoing edges of kind `kind`, in edge order.
pub open spec fn kind_succ_locs(succs: Seq<Succ>, kind: Effect) -> Seq<LocView>
    decreases succs.len(),
{
    if succs.len() == 0 {
        Seq::empty()
    } else {
        let rest = kind_succ_locs(succs.drop_last(), kind);
        if succs.last().effect == kind {
            rest.push(succs.last().loc@)
        } else {
            rest
        }
    }
}

/// What it means for `t` to be the complete span of `dcg` along edges of
/// kind `kind`, starting at `t.loc`: the root is present in the snapshot,
/// and its children are, in order, the spans of exactly the `kind`-typed
/// successors of the root.
pub open spec fn span_tree_ok(dcg: DcgSnapshot, t: LocTree, kind: Effect) -> bool
    decreases t,
{
    &&& dcg.has_id(t.loc.id)
    &&& match dcg.node_of_id(t.loc.id).succs {
        None => t.children@.len() == 0,
        Some(succs) => {
            let locs = kind_succ_locs(succs@, kind);
            &&& t.children@.len() == locs.len()
            &&& forall|k: int|
                0 <= k < locs.len() ==> (#[trigger] t.children@[k]).loc@ == locs[k]
                    && span_tree_ok(dcg, t.children@[k], kind)
        },
    }
}

/// Whether the tree `t` walks an edge from the node with identity `p` to a
/// child with identity `c` anywhere in its recursion.
pub open spec fn tree_has_edge(t: LocTree, p: u64, c: u64) -> bool
    decreases t,
{
    exists|k: int|
        0 <= k < t.children@.len() && ((t.loc.id == p && (#[trigger] t.children@[k]).loc.id == c)
            || tree_has_edge(t.children@[k], p, c))
}

/// Whether the snapshot records an edge of kind `kind` from the node with
/// identity `p` to a location with identity `c`.
pub open spec fn graph_edge_in(dcg: DcgSnapshot, p: u64, c: u64, kind: Effect) -> bool {
    &&& dcg.has_id(p)
    &&& match dcg.node_of_id(p).succs {
        None => false,
        Some(succs) => exists|j: int|
            0 <= j < succs@.len() && (#[trigger] succs@[j]).effect == kind && succs@[j].loc.id
                == c,
    }
}

/// The node identities the walk visits: the root, then each child's
/// subtree, in walk order.
pub open spec fn span_ids(t: LocTree) -> Seq<u64>
    decreases t, t.children@.len() + 1,
{
    seq![t.loc.id] + span_ids_children(t, t.children@.len() as int)
}

/// The identities of the first `k` children's subtrees, in walk order.
pub open spec fn span_ids_children(t: LocTree, k: int) -> Seq<u64>
    decreases t, k,
{
    if 0 < k <= t.children@.len() {
        span_ids_children(t, k - 1) + span_ids(t.children@[k - 1])
    } else {
        Seq::empty()
    }
}

/// The identities of a walk's first `k` children depend only on those
/// children.
proof fn lemma_span_ids_children_prefix(t1: LocTree, t2: LocTree, k: int)
    requires
        k <= t1.children@.len(),
        k <= t2.children@.len(),
        forall|j: int| 0 <= j < k ==> t1.children@[j] == t2.children@[j],
    ensures
        span_ids_children(t1, k) == span_ids_children(t2, k),
    decreases k,
{
    if k > 0 {
        lemma_span_ids_children_prefix(t1, t2, k - 1);
    }
}

/// Two complete spans of the same snapshot along the same kind, rooted at
/// the same identity, visit the same identities in the same order: the walk
/// is determined by the snapshot, the kind and the root.
pub proof fn lemma_span_ids_unique(dcg: DcgSnapshot, t1: LocTree, t2: LocTree, kind: Effect)
    requires
        dcg.wf(),
        span_tree_ok(dcg, t1, kind),
        span_tree_ok(dcg, t2, kind),
        t1.loc.id == t2.loc.id,
    ensures
        span_ids(t1) == span_ids(t2),
    decreases t1, t1.children@.len() + 1,
{
    lemma_span_ids_children_unique(dcg, t1, t2, kind, t1.children@.len() as int);
}

proof fn lemma_span_ids_children_unique(
    dcg: DcgSnapshot,
    t1: LocTree,
    t2: LocTree,
    kind: Effect,
    k: int,
)
    requires
        dcg.wf(),
        span_tree_ok(dcg, t1, kind),
        span_tree_ok(dcg, t2, kind),
        t1.loc.id == t2.loc.id,
        k <= t1.children@.len(),
    ensures
        t1.children@.len() == t2.children@.len(),
        span_ids_children(t1, k) == span_ids_children(t2, k),
    decreases t1, (if k >= 0 { k } else { 0 }),
{
    if k > 0 {
        lemma_span_ids_children_unique(dcg, t1, t2, kind, k - 1);
        match dcg.node_of_id(t1.loc.id).succs {
            None => {},
            Some(succs) => {
                let locs = kind_succ_locs(succs@, kind);
                assert(t1.children@[k - 1].loc@ == locs[k - 1]);
                assert(t2.children@[k - 1].loc@ == locs[k - 1]);
                assert(t1.children@[k - 1].loc.id == t2.children@[k - 1].loc.id);
                lemma_span_ids_unique(dcg, t1.children@[k - 1], t2.children@[k - 1], kind);
            },
        }
    }
}

/// A shorter prefix of the kind-filtered targets agrees with the longer
/// list, position by position.
proof fn lemma_kind_succ_locs_take(succs: Seq<Succ>, kind: Effect, k: int)
    requires
        0 <= k <= succs.len(),
    ensures
        kind_succ_locs(succs.subrange(0, k), kind).len() <= kind_succ_locs(succs, kind).len(),
        forall|m: int|
            0 <= m < kind_succ_locs(succs.subrange(0, k), kind).len() ==> kind_succ_locs(
                succs,
                kind,
            )[m] == kind_succ_locs(succs.subrange(0, k), kind)[m],
    decreases succs.len() - k,
{
    if k == succs.len() {
        assert(succs.subrange(0, k) =~= succs);
    } else {
        lemma_kind_succ_locs_take(succs, kind, k + 1);
        let pre = succs.subrange(0, k);
        let post = succs.subrange(0, k + 1);
        assert(post.drop_last() =~= pre);
        assert(post.last() == succs[k]);
    }
}

/// A shorter prefix of the walk's child identities agrees with the longer
/// one, position by position.
proof fn lemma_span_ids_children_take(t: LocTree, j: int, j2: int)
    requires
        0 <= j <= j2 <= t.children@.len(),
    ensures
        span_ids_children(t, j).len() <= span_ids_children(t, j2).len(),
        forall|a: int|
            0 <= a < span_ids_children(t, j).len() ==> span_ids_children(t, j2)[a]
                == span_ids_children(t, j)[a],
    decreases j2 - j,
{
    if j < j2 {
        lemma_span_ids_children_take(t, j, j2 - 1);
    }
}

/// Walks whose children visit the same identities visit the same
/// identities.
proof fn lemma_span_ids_children_congruent(t1: LocTree, t2: LocTree, m: int)
    requires
        m <= t1.children@.len(),
        m <= t2.children@.len(),
        forall|j: int|
            0 <= j < m ==> span_ids(#[trigger] t1.children@[j]) == span_ids(t2.children@[j]),
    ensures
        span_ids_children(t1, m) == span_ids_children(t2, m),
    decreases m,
{
    if m > 0 {
        lemma_span_ids_children_congruent(t1, t2, m - 1);
    }
}

/// Every identity a complete span visits is present in the snapshot.
proof fn lemma_span_ids_has_id(dcg: DcgSnapshot, t: LocTree, kind: Effect)
    requires
        span_tree_ok(dcg, t, kind),
    ensures
        forall|x: u64| #[trigger] span_ids(t).contains(x) ==> dcg.has_id(x),
    decreases t, t.children@.len() + 1,
{
    lemma_span_ids_has_id_children(dcg, t, kind, t.children@.len() as int);
    assert forall|x: u64| #[trigger] span_ids(t).contains(x) implies dcg.has_id(x) by {
        let w = choose|w: int| 0 <= w < span_ids(t).len() && span_ids(t)[w] == x;
        if w == 0 {
            assert(x == t.loc.id);
        } else {
            assert(span_ids_children(t, t.children@.len() as int)[w - 1] == x);
            assert(span_ids_children(t, t.children@.len() as int).contains(x));
        }
    }
}

proof fn lemma_span_ids_has_id_children(dcg: DcgSnapshot, t: LocTree, kind: Effect, k: int)
    requires
        span_tree_ok(dcg, t, kind),
        k <= t.children@.len(),
    ensures
        forall|x: u64| #[trigger] span_ids_children(t, k).contains(x) ==> dcg.has_id(x),
    decreases t, (if k >= 0 { k } else { 0 }),
{
    if k > 0 {
        lemma_span_ids_has_id_children(dcg, t, kind, k - 1);
        match dcg.node_of_id(t.loc.id).succs {
            None => {},
            Some(succs) => {
                lemma_span_ids_has_id(dcg, t.children@[k - 1], kind);
            },
        }
        assert forall|x: u64| #[trigger] span_ids_children(t, k).contains(x) implies dcg.has_id(
            x,
        ) by {
            let w = choose|w: int|
                0 <= w < span_ids_children(t, k).len() && span_ids_children(t, k)[w] == x;
            let base = span_ids_children(t, k - 1).len() as int;
            if w < base {
                assert(span_ids_children(t, k - 1)[w] == x);
                assert(span_ids_children(t, k - 1).contains(x));
            } else {
                assert(span_ids(t.children@[k - 1])[w - base] == x);
                assert(span_ids(t.children@[k - 1]).contains(x));
            }
        }
    }
}

/// How many entries of `s` are set.
pub open spec fn count_true(s: Seq<bool>) -> int
    decreases s.len(),
{
    if s.len() == 0 {
        0
    } else {
        count_true(s.drop_last()) + if s.last() {
            1int
        } else {
            0int
        }
    }
}

proof fn lemma_count_true_le(s: Seq<bool>)
    ensures
        0 <= count_true(s) <= s.len(),
    decreases s.len(),
{
    if s.len() > 0 {
        lemma_count_true_le(s.drop_last());
    }
}

proof fn lemma_count_true_update(s: Seq<bool>, i: int)
    requires
        0 <= i < s.len(),
        !s[i],
    ensures
        count_true(s.update(i, true)) == count_true(s) + 1,
    decreases s.len(),
{
    let s2 = s.update(i, true);
    if i == s.len() - 1 {
        assert(s2.drop_last() =~= s.drop_last());
    } else {
        assert(s2.drop_last() =~= s.drop_last().update(i, true));
        lemma_count_true_update(s.drop_last(), i);
    }
}

/// One step of the reconstruction: expands the node at `loc`, recursing into
/// the targets of its `kind`-typed edges.  `seen` marks, per snapshot index,
/// the nodes already expanded along the current walk; a node reached twice
/// is evidence of a malformed (cyclic or sharing) graph and stops the walk.
#[verifier::loop_isolation(false)]
fn span_tree_rec(dcg: &DcgSnapshot, seen: Vec<bool>, loc: &Loc, kind: Effect) -> (r: (Result<
    LocTree,
    ReflectError,
>, Vec<bool>))
    requires
        dcg.wf(),
        seen@.len() == dcg.nodes@.len(),
    ensures
        r.1@.len() == dcg.nodes@.len(),
        forall|i: int| 0 <= i < seen@.len() && seen@[i] ==> r.1@[i],
        count_true(r.1@) >= count_true(seen@),
        match r.0 {
            Ok(t) => t.loc@ == loc@ && span_tree_ok(*dcg, t, kind) && count_true(r.1@)
                > count_true(seen@) && span_ids(t).no_duplicates() && (forall|x: u64|
                #[trigger] span_ids(t).contains(x) ==> dcg.has_id(x) && !seen@[dcg.index_of_id(
                    x,
                )] && r.1@[dcg.index_of_id(x)]) && (forall|i: int|
                0 <= i < r.1@.len() && #[trigger] r.1@[i] ==> seen@[i] || span_ids(t).contains(
                    dcg.nodes@[i].loc.id,
                )),
            Err(ReflectError::DanglingLocation(id)) => !dcg.has_id(id),
            Err(ReflectError::RevisitedLocation(id)) => dcg.has_id(id) && ((id == loc.id
                && seen@[dcg.index_of_id(id)]) || exists|p: u64|
                graph_edge_in(*dcg, p, id, kind)),
        },
        (exists|w: LocTree|
            span_tree_ok(*dcg, w, kind) && w.loc.id == loc.id && span_ids(w).no_duplicates() && (
            forall|x: u64|
                #[trigger] span_ids(w).contains(x) ==> !seen@[dcg.index_of_id(x)])) ==> r.0
            is Ok,
    decreases dcg.nodes@.len() - count_true(seen@),
{
    proof {
        lemma_count_true_le(seen@);
    }
    let idx = match dcg.find_node(loc.id) {
        None => {
            proof {
                assert forall|w: LocTree|
                    !(span_tree_ok(*dcg, w, kind) && w.loc.id == loc.id) by {
                    if span_tree_ok(*dcg, w, kind) {
                        assert(dcg.has_id(w.loc.id));
                    }
                }
            }
            return (Err(ReflectError::DanglingLocation(loc.id)), seen);
        },
        Some(i) => i,
    };
    if seen[idx] {
        proof {
            assert(0 <= idx < dcg.nodes@.len() && dcg.nodes@[idx as int].loc.id == loc.id);
            assert(dcg.index_of_id(loc.id) == idx as int);
            assert forall|w: LocTree|
                !(span_tree_ok(*dcg, w, kind) && w.loc.id == loc.id && span_ids(
                    w,
                ).no_duplicates() && (forall|x: u64|
                    #[trigger] span_ids(w).contains(x) ==> !seen@[dcg.index_of_id(x)])) by {
                if span_tree_ok(*dcg, w, kind) && w.loc.id == loc.id && (forall|x: u64|
                    #[trigger] span_ids(w).contains(x) ==> !seen@[dcg.index_of_id(x)]) {
                    assert(span_ids(w)[0] == loc.id);
                    assert(span_ids(w).contains(loc.id));
                }
            }
        }
        return (Err(ReflectError::RevisitedLocation(loc.id)), seen);
    }
    let ghost seen0 = seen@;
    let mut seen = seen;
    seen.set(idx, true);
    proof {
        lemma_count_true_update(seen0, idx as int);
        lemma_count_true_le(seen@);
    }
    let ghost seen1 = seen@;
    proof {
        assert(0 <= idx < dcg.nodes@.len() && dcg.nodes@[idx as int].loc.id == loc.id);
        assert(dcg.index_of_id(loc.id) == idx as int);
        assert(!seen0[idx as int]);
        assert(seen1 == seen0.update(idx as int, true));
        assert(seen1[idx as int]);
    }
    let mut children: Vec<LocTree> = Vec::new();
    match &dcg.nodes[idx].succs {
        None => {},
        Some(succs) => {
            let mut k: usize = 0;
            while k < succs.len()
                invariant
                    dcg.wf(),
                    idx < dcg.nodes@.len(),
                    dcg.nodes@[idx as int].succs == Some(*succs),
                    k <= succs@.len(),
                    seen@.len() == dcg.nodes@.len(),
                    forall|i: int| 0 <= i < seen1.len() && seen1[i] ==> seen@[i],
                    count_true(seen@) >= count_true(seen1),
                    count_true(seen1) == count_true(seen0) + 1,
                    seen1.len() == seen0.len(),
                    forall|i: int| 0 <= i < seen0.len() && seen0[i] ==> seen1[i],
                    children@.len() == kind_succ_locs(succs@.subrange(0, k as int), kind).len(),
                    forall|j: int|
                        0 <= j < children@.len() ==> (#[trigger] children@[j]).loc@
                            == kind_succ_locs(succs@.subrange(0, k as int), kind)[j]
                            && span_tree_ok(*dcg, children@[j], kind),
                    ({
                        let cids = span_ids_children(
                            LocTree { loc: *loc, children: children },
                            children@.len() as int,
                        );
                        &&& cids.no_duplicates()
                        &&& forall|x: u64|
                            #[trigger] cids.contains(x) ==> dcg.has_id(x) && !seen1[
                                dcg.index_of_id(x)] && seen@[dcg.index_of_id(x)]
                        &&& forall|i: int|
                            0 <= i < seen@.len() && #[trigger] seen@[i] ==> seen0[i] || i
                                == idx as int || cids.contains(dcg.nodes@[i].loc.id)
                    }),
                decreases succs@.len() - k,
            {
                let succ_matches = match (&succs[k].effect, &kind) {
                    (Effect::Force, Effect::Force) => true,
                    (Effect::Alloc, Effect::Alloc) => true,
                    _ => false,
                };
                if succ_matches {
                    proof {
                        lemma_count_true_le(seen@);
                    }
                    let ghost seen_pre = seen@;
                    let ghost pre_children = children@;
                    let (sub, seen2) = span_tree_rec(dcg, seen, &succs[k].loc, kind);
                    seen = seen2;
                    match sub {
                        Ok(t) => {
                            let ghost part_old = LocTree { loc: *loc, children: children };
                            children.push(t);
                            proof {
                                let part_new = LocTree { loc: *loc, children: children };
                                let n = pre_children.len() as int;
                                assert(part_new.children@ =~= pre_children.push(t));
                                assert(forall|j: int|
                                    0 <= j < n ==> part_new.children@[j]
                                        == part_old.children@[j]);
                                lemma_span_ids_children_prefix(part_old, part_new, n);
                                let old_ids = span_ids_children(part_old, n);
                                let new_ids = span_ids_children(part_new, n + 1);
                                assert(part_new.children@[n] == t);
                                assert(new_ids == old_ids + span_ids(t));
                                let ol = old_ids.len() as int;
                                assert forall|x: u64| #[trigger] new_ids.contains(x) implies dcg
                                    .has_id(x) && !seen1[dcg.index_of_id(x)] && seen@[
                                dcg.index_of_id(x)] by {
                                    let w = choose|w: int|
                                        0 <= w < new_ids.len() && new_ids[w] == x;
                                    if w < ol {
                                        assert(old_ids[w] == x);
                                        assert(old_ids.contains(x));
                                    } else {
                                        assert(span_ids(t)[w - ol] == x);
                                        assert(span_ids(t).contains(x));
                                    }
                                }
                                assert forall|i: int|
                                    0 <= i < seen@.len() && #[trigger] seen@[i] implies seen0[i]
                                    || i == idx as int || new_ids.contains(
                                    dcg.nodes@[i].loc.id,
                                ) by {
                                    if seen@[i] && !seen_pre[i] {
                                        assert(span_ids(t).contains(dcg.nodes@[i].loc.id));
                                        let a = choose|a: int|
                                            0 <= a < span_ids(t).len() && span_ids(t)[a]
                                                == dcg.nodes@[i].loc.id;
                                        assert(new_ids[ol + a] == dcg.nodes@[i].loc.id);
                                        assert(new_ids.contains(dcg.nodes@[i].loc.id));
                                    } else if seen@[i] && seen_pre[i] {
                                        if !seen0[i] && i != idx as int {
                                            assert(old_ids.contains(dcg.nodes@[i].loc.id));
                                            let a = choose|a: int|
                                                0 <= a < old_ids.len() && old_ids[a]
                                                    == dcg.nodes@[i].loc.id;
                                            assert(new_ids[a] == dcg.nodes@[i].loc.id);
                                            assert(new_ids.contains(dcg.nodes@[i].loc.id));
                                        }
                                    }
                                }
                                assert forall|i: int, j: int|
                                    0 <= i < j < new_ids.len() implies new_ids[i] != new_ids[
                                j] by {
                                    if j < ol {
                                        assert(old_ids[i] != old_ids[j]);
                                    } else if i >= ol {
                                        assert(span_ids(t)[i - ol] != span_ids(t)[j - ol]);
                                    } else {
                                        let x = new_ids[i];
                                        let y = new_ids[j];
                                        assert(old_ids[i] == x);
                                        assert(old_ids.contains(x));
                                        assert(span_ids(t)[j - ol] == y);
                                        assert(span_ids(t).contains(y));
                                        assert(seen_pre[dcg.index_of_id(x)]);
                                        assert(!seen_pre[dcg.index_of_id(y)]);
                                    }
                                }
                            }
                        },
                        Err(e) => {
                            proof {
                                if let ReflectError::RevisitedLocation(id) = e {
                                    if id == succs@[k as int].loc.id {
                                        let p = dcg.nodes@[idx as int].loc.id;
                                        assert(0 <= idx < dcg.nodes@.len());
                                        assert(dcg.has_id(p));
                                        assert(dcg.index_of_id(p) == idx as int);
                                        assert(dcg.node_of_id(p) == dcg.nodes@[idx as int]);
                                        assert((#[trigger] succs@[k as int]).effect == kind
                                            && succs@[k as int].loc.id == id);
                                        assert(graph_edge_in(*dcg, p, id, kind));
                                    }
                                }
                                assert forall|w: LocTree|
                                    !(span_tree_ok(*dcg, w, kind) && w.loc.id == loc.id
                                        && span_ids(w).no_duplicates() && (forall|x: u64|
                                        #[trigger] span_ids(w).contains(x) ==> !seen0[
                                    dcg.index_of_id(x)])) by {
                                    if span_tree_ok(*dcg, w, kind) && w.loc.id == loc.id
                                        && span_ids(w).no_duplicates() && (forall|x: u64|
                                        #[trigger] span_ids(w).contains(x) ==> !seen0[
                                    dcg.index_of_id(x)]) {
                                        lemma_span_ids_has_id(*dcg, w, kind);
                                        assert(dcg.node_of_id(w.loc.id) == dcg.nodes@[
                                        idx as int]);
                                        let locs = kind_succ_locs(succs@, kind);
                                        assert(w.children@.len() == locs.len());
                                        let m = children@.len() as int;
                                        let pre2 = succs@.subrange(0, k as int);
                                        let post2 = succs@.subrange(0, k as int + 1);
                                        assert(post2.drop_last() =~= pre2);
                                        assert(post2.last() == succs@[k as int]);
                                        assert(kind_succ_locs(post2, kind) == kind_succ_locs(
                                            pre2,
                                            kind,
                                        ).push(succs@[k as int].loc@));
                                        lemma_kind_succ_locs_take(succs@, kind, k as int + 1);
                                        assert(m + 1 <= locs.len());
                                        assert(locs[m] == succs@[k as int].loc@);
                                        let wk = w.children@[m];
                                        assert(wk.loc@ == locs[m] && span_tree_ok(
                                            *dcg,
                                            wk,
                                            kind,
                                        ));
                                        assert(wk.loc.id == succs@[k as int].loc.id);
                                        let fullw = w.children@.len() as int;
                                        assert(span_ids_children(w, m + 1) == span_ids_children(
                                            w,
                                            m,
                                        ) + span_ids(wk));
                                        lemma_span_ids_children_take(w, m + 1, fullw);
                                        lemma_span_ids_children_take(w, m, fullw);
                                        let base = span_ids_children(w, m).len() as int;
                                        let fullids = span_ids_children(w, fullw);
                                        assert(span_ids(w) == seq![w.loc.id] + fullids);
                                        assert(forall|a: int|
                                            0 <= a < span_ids(wk).len()
                                                ==> span_ids_children(w, m + 1)[base + a]
                                                == #[trigger] span_ids(wk)[a]);
                                        assert(forall|a: int|
                                            0 <= a < span_ids(wk).len() ==> fullids[base + a]
                                                == #[trigger] span_ids(wk)[a]);
                                        assert(forall|a: int|
                                            0 <= a < span_ids(wk).len() ==> span_ids(w)[1 + base
                                                + a] == #[trigger] span_ids(wk)[a]);
                                        assert forall|a: int, b: int|
                                            0 <= a < b < span_ids(wk).len() implies span_ids(
                                            wk,
                                        )[a] != span_ids(wk)[b] by {
                                            assert(span_ids(w)[1 + base + a] != span_ids(w)[1
                                                + base + b]);
                                        }
                                        assert forall|j: int|
                                            0 <= j < m implies span_ids(
                                            #[trigger] children@[j],
                                        ) == span_ids(w.children@[j]) by {
                                            lemma_kind_succ_locs_take(succs@, kind, k as int);
                                            assert(children@[j].loc@ == kind_succ_locs(
                                                pre2,
                                                kind,
                                            )[j]);
                                            assert(kind_succ_locs(pre2, kind)[j] == locs[j]);
                                            assert(w.children@[j].loc@ == locs[j]);
                                            assert(children@[j].loc.id == w.children@[
                                            j].loc.id);
                                            lemma_span_ids_unique(
                                                *dcg,
                                                children@[j],
                                                w.children@[j],
                                                kind,
                                            );
                                        }
                                        let part = LocTree { loc: *loc, children: children };
                                        lemma_span_ids_children_congruent(part, w, m);
                                        let cids = span_ids_children(part, m);
                                        assert(cids == span_ids_children(w, m));
                                        assert(cids.len() == base);
                                        assert forall|x: u64|
                                            #[trigger] span_ids(wk).contains(x) implies !
                                        seen_pre[dcg.index_of_id(x)] by {
                                            let a = choose|a: int|
                                                0 <= a < span_ids(wk).len() && span_ids(wk)[a]
                                                    == x;
                                            assert(span_ids(w)[1 + base + a] == x);
                                            assert(span_ids(w).contains(x));
                                            assert(!seen0[dcg.index_of_id(x)]);
                                            assert(dcg.has_id(x));
                                            if dcg.index_of_id(x) == idx as int {
                                                assert(dcg.nodes@[idx as int].loc.id == x);
                                                assert(x == loc.id);
                                                assert(span_ids(w)[0] == x);
                                                assert(false);
                                            }
                                            if cids.contains(x) {
                                                let b = choose|b: int|
                                                    0 <= b < cids.len() && cids[b] == x;
                                                assert(span_ids_children(w, m)[b] == x);
                                                assert(fullids[b] == x);
                                                assert(span_ids(w)[1 + b] == x);
                                                assert(false);
                                            }
                                            if seen_pre[dcg.index_of_id(x)] {
                                                let j2 = dcg.index_of_id(x);
                                                assert(seen_pre[j2] ==> seen0[j2] || j2
                                                    == idx as int || cids.contains(
                                                    dcg.nodes@[j2].loc.id,
                                                ));
                                                assert(dcg.nodes@[j2].loc.id == x);
                                                assert(false);
                                            }
                                        }
                                        assert(span_tree_ok(*dcg, wk, kind) && wk.loc.id
                                            == succs@[k as int].loc.id && span_ids(
                                            wk,
                                        ).no_duplicates() && (forall|x: u64|
                                            #[trigger] span_ids(wk).contains(x) ==> !seen_pre[
                                        dcg.index_of_id(x)]));
                                        assert(false);
                                    }
                                }
                            }
                            return (Err(e), seen);
                        },
                    }
                }
                proof {
                    let pre = succs@.subrange(0, k as int);
                    let post = succs@.subrange(0, k + 1);
                    assert(post.drop_last() =~= pre);
                    assert(post.last() == succs@[k as int]);
                }
                k = k + 1;
            }
            proof {
                assert(succs@.subrange(0, succs@.len() as int) =~= succs@);
            }
        },
    }
    let tree = LocTree { loc: loc.duplicate(), children };
    proof {
        assert(dcg.has_id(loc.id));
        assert(dcg.node_of_id(loc.id) == dcg.nodes@[idx as int]);
        let part = LocTree { loc: *loc, children: children };
        let n = children@.len() as int;
        let cids = span_ids_children(part, n);
        assert(cids.no_duplicates() && forall|x: u64|
            #[trigger] cids.contains(x) ==> dcg.has_id(x) && !seen1[dcg.index_of_id(x)]
                && seen@[dcg.index_of_id(x)]) by {
            if children@.len() == 0 {
                assert(cids =~= Seq::<u64>::empty());
            }
        }
        assert(forall|j: int| 0 <= j < n ==> tree.children@[j] == part.children@[j]);
        lemma_span_ids_children_prefix(part, tree, n);
        assert(tree.loc.id == loc.id);
        assert(span_ids(tree) == seq![loc.id] + span_ids_children(tree, n));
        assert(span_ids(tree) == seq![loc.id] + cids);
        assert forall|i: int, j: int|
            0 <= i < j < span_ids(tree).len() implies span_ids(tree)[i] != span_ids(tree)[
        j] by {
            if i == 0 {
                let y = span_ids(tree)[j];
                assert(cids[j - 1] == y);
                assert(cids.contains(y));
                assert(!seen1[dcg.index_of_id(y)]);
            } else {
                assert(cids[i - 1] != cids[j - 1]);
            }
        }
        assert forall|x: u64| #[trigger] span_ids(tree).contains(x) implies dcg.has_id(x)
            && !seen0[dcg.index_of_id(x)] && seen@[dcg.index_of_id(x)] by {
            let w = choose|w: int| 0 <= w < span_ids(tree).len() && span_ids(tree)[w] == x;
            if w == 0 {
                assert(x == loc.id);
            } else {
                assert(cids[w - 1] == x);
                assert(cids.contains(x));
                assert(!seen1[dcg.index_of_id(x)]);
                assert(!seen0[dcg.index_of_id(x)]);
            }
        }
        assert forall|i: int|
            0 <= i < seen@.len() && #[trigger] seen@[i] implies seen0[i] || span_ids(
            tree,
        ).contains(dcg.nodes@[i].loc.id) by {
            if seen@[i] && !seen0[i] {
                if i == idx as int {
                    assert(span_ids(tree)[0] == dcg.nodes@[i].loc.id);
                    assert(span_ids(tree).contains(dcg.nodes@[i].loc.id));
                } else {
                    assert(cids.contains(dcg.nodes@[i].loc.id));
                    let a = choose|a: int|
                        0 <= a < cids.len() && cids[a] == dcg.nodes@[i].loc.id;
                    assert(span_ids(tree)[1 + a] == dcg.nodes@[i].loc.id);
                    assert(span_ids(tree).contains(dcg.nodes@[i].loc.id));
                }
            }
        }
    }
    (Ok(tree), seen)
}

/// Reconstructs the force tree rooted at `loc`: the recursive span of the
/// snapshot along force-typed edges only.
pub fn force_tree_of(dcg: &DcgSnapshot, loc: &Loc) -> (r: Result<LocTree, ReflectError>)
    requires
        dcg.wf(),
    ensures
        match r {
            Ok(t) => t.loc@ == loc@ && span_tree_ok(*dcg, t, Effect::Force) && span_ids(
                t,
            ).no_duplicates(),
            Err(ReflectError::DanglingLocation(id)) => !dcg.has_id(id),
            Err(ReflectError::RevisitedLocation(id)) => dcg.has_id(id) && exists|p: u64|
                graph_edge_in(*dcg, p, id, Effect::Force),
        },
        (exists|w: LocTree|
            span_tree_ok(*dcg, w, Effect::Force) && w.loc.id == loc.id && span_ids(
                w,
            ).no_duplicates()) ==> r is Ok,
{
    let mut seen: Vec<bool> = Vec::new();
    let mut i: usize = 0;
    while i < dcg.nodes.len()
        invariant
            seen@.len() == i,
            i <= dcg.nodes@.len(),
            forall|j: int| 0 <= j < i ==> !seen@[j],
        decreases dcg.nodes@.len() - i,
    {
        seen.push(false);
        i = i + 1;
    }
    let ghost s0 = seen@;
    let (r, _) = span_tree_rec(dcg, seen, loc, Effect::Force);
    proof {
        if exists|w: LocTree|
            span_tree_ok(*dcg, w, Effect::Force) && w.loc.id == loc.id && span_ids(
                w,
            ).no_duplicates() {
            let w = choose|w: LocTree|
                span_tree_ok(*dcg, w, Effect::Force) && w.loc.id == loc.id && span_ids(
                    w,
                ).no_duplicates();
            lemma_span_ids_has_id(*dcg, w, Effect::Force);
            assert forall|x: u64| #[trigger] span_ids(w).contains(x) implies !s0[
            dcg.index_of_id(x)] by {
                assert(dcg.has_id(x));
            }
            assert(span_tree_ok(*dcg, w, Effect::Force) && w.loc.id == loc.id && span_ids(
                w,
            ).no_duplicates() && (forall|x: u64|
                #[trigger] span_ids(w).contains(x) ==> !s0[dcg.index_of_id(x)]));
        }
    }
    r
}

/// Reconstructs the allocation tree rooted at `loc`: the recursive span of
/// the snapshot along alloc-typed edges only.
pub fn alloc_tree_of(dcg: &DcgSnapshot, loc: &Loc) -> (r: Result<LocTree, ReflectError>)
    requires
        dcg.wf(),
    ensures
        match r {
            Ok(t) => t.loc@ == loc@ && span_tree_ok(*dcg, t, Effect::Alloc) && span_ids(
                t,
            ).no_duplicates(),
            Err(ReflectError::DanglingLocation(id)) => !dcg.has_id(id),
            Err(ReflectError::RevisitedLocation(id)) => dcg.has_id(id) && exists|p: u64|
                graph_edge_in(*dcg, p, id, Effect::Alloc),
        },
        (exists|w: LocTree|
            span_tree_ok(*dcg, w, Effect::Alloc) && w.loc.id == loc.id && span_ids(
                w,
            ).no_duplicates()) ==> r is Ok,
{
    let mut seen: Vec<bool> = Vec::new();
    let mut i: usize = 0;
    while i < dcg.nodes.len()
        invariant
            seen@.len() == i,
            i <= dcg.nodes@.len(),
            forall|j: int| 0 <= j < i ==> !seen@[j],
        decreases dcg.nodes@.len() - i,
    {
        seen.push(false);
        i = i + 1;
    }
    let ghost s0 = seen@;
    let (r, _) = span_tree_rec(dcg, seen, loc, Effect::Alloc);
    proof {
        if exists|w: LocTree|
            span_tree_ok(*dcg, w, Effect::Alloc) && w.loc.id == loc.id && span_ids(
                w,
            ).no_duplicates() {
            let w = choose|w: LocTree|
                span_tree_ok(*dcg, w, Effect::Alloc) && w.loc.id == loc.id && span_ids(
                    w,
                ).no_duplicates();
            lemma_span_ids_has_id(*dcg, w, Effect::Alloc);
            assert forall|x: u64| #[trigger] span_ids(w).contains(x) implies !s0[
            dcg.index_of_id(x)] by {
                assert(dcg.has_id(x));
            }
            assert(span_tree_ok(*dcg, w, Effect::Alloc) && w.loc.id == loc.id && span_ids(
                w,
            ).no_duplicates() && (forall|x: u64|
                #[trigger] span_ids(w).contains(x) ==> !s0[dcg.index_of_id(x)]));
        }
    }
    r
}

/// Every target recorded by `kind_succ_locs` comes from a successor entry of
/// that kind.
proof fn lemma_kind_succ_locs_from(succs: Seq<Succ>, kind: Effect, m: int)
    requires
        0 <= m < kind_succ_locs(succs, kind).len(),
    ensures
        exists|j: int|
            0 <= j < succs.len() && (#[trigger] succs[j]).effect == kind && succs[j].loc@
                == kind_succ_locs(succs, kind)[m],
    decreases succs.len(),
{
    let locs = kind_succ_locs(succs, kind);
    if succs.len() > 0 {
        let rest = kind_succ_locs(succs.drop_last(), kind);
        if succs.last().effect == kind && m == locs.len() - 1 {
            assert(succs[succs.len() - 1].effect == kind);
            assert(succs[succs.len() - 1].loc@ == locs[m]);
        } else {
            lemma_kind_succ_locs_from(succs.drop_last(), kind, m);
            let j = choose|j: int|
                0 <= j < succs.drop_last().len() && (#[trigger] succs.drop_last()[j]).effect
                    == kind && succs.drop_last()[j].loc@ == rest[m];
            assert(succs[j].effect == kind && succs[j].loc@ == locs[m]);
        }
    }
}

/// Every edge the span tree walks is backed by a successor entry of the
/// tree's own kind in the snapshot.
proof fn lemma_span_tree_edges(dcg: DcgSnapshot, t: LocTree, kind: Effect, p: u64, c: u64)
    requires
        dcg.wf(),
        span_tree_ok(dcg, t, kind),
        tree_has_edge(t, p, c),
    ensures
        graph_edge_in(dcg, p, c, kind),
    decreases t,
{
    let k = choose|k: int|
        0 <= k < t.children@.len() && ((t.loc.id == p && (#[trigger] t.children@[k]).loc.id == c)
            || tree_has_edge(t.children@[k], p, c));
    let succs = dcg.node_of_id(t.loc.id).succs->Some_0;
    let locs = kind_succ_locs(succs@, kind);
    if t.loc.id == p && t.children@[k].loc.id == c {
        lemma_kind_succ_locs_from(succs@, kind, k);
    } else {
        lemma_span_tree_edges(dcg, t.children@[k], kind, p, c);
    }
}

/// The allocation tree and the force tree partition the snapshot's
/// successor entries disjointly by kind: an edge the force tree walks is
/// backed by a force-typed successor, an edge the allocation tree walks by
/// an alloc-typed successor, and no successor entry carries both kinds.
pub proof fn lemma_trace_partition(
    dcg: DcgSnapshot,
    ft: LocTree,
    at: LocTree,
    p: u64,
    c: u64,
)
    requires
        dcg.wf(),
        span_tree_ok(dcg, ft, Effect::Force),
        span_tree_ok(dcg, at, Effect::Alloc),
    ensures
        tree_has_edge(ft, p, c) ==> graph_edge_in(dcg, p, c, Effect::Force),
        tree_has_edge(at, p, c) ==> graph_edge_in(dcg, p, c, Effect::Alloc),
{
    if tree_has_edge(ft, p, c) {
        lemma_span_tree_edges(dcg, ft, Effect::Force, p, c);
    }
    if tree_has_edge(at, p, c) {
        lemma_span_tree_edges(dcg, at, Effect::Alloc, p, c);
    }
}

/// The tag of a rendered span tree of the given kind.
pub open spec fn span_tag(kind: Effect) -> Seq<char> {
    match kind {
        Effect::Force => "force-tree"@,
        Effect::Alloc => "alloc-tree"@,
    }
}

/// The `Div` that renders a span tree: the root location first, then one
/// rendered subtree per child; a leaf is marked by the `no-extent` class.
pub open spec fn is_span_div(d: Div, t: LocTree, tag: Seq<char>) -> bool
    decreases t,
{
    &&& d.tag@ == tag
    &&& d.text is None
    &&& if t.children@.len() == 0 {
        d.classes@.len() == 1 && d.classes@[0]@ == "no-extent"@
    } else {
        d.classes@.len() == 0
    }
    &&& d.extent@.len() == 1 + t.children@.len()
    &&& is_loc_div(d.extent@[0], t.loc@)
    &&& forall|k: int|
        0 <= k < t.children@.len() ==> is_span_div(
            #[trigger] d.extent@[k + 1],
            t.children@[k],
            tag,
        )
}

/// Renders a reconstructed span tree.
fn div_of_span_tree(t: &LocTree, kind: Effect) -> (d: Div)
    ensures
        is_span_div(d, *t, span_tag(kind)),
    decreases *t,
{
    let tag: String = match kind {
        Effect::Force => "force-tree".to_owned(),
        Effect::Alloc => "alloc-tree".to_owned(),
    };
    let mut extent: Vec<Div> = Vec::new();
    extent.push(div_of_loc(&t.loc));
    let mut k: usize = 0;
    while k < t.children.len()
        invariant
            k <= t.children@.len(),
            extent@.len() == 1 + k,
            is_loc_div(extent@[0], t.loc@),
            forall|j: int|
                0 <= j < k ==> is_span_div(#[trigger] extent@[j + 1], t.children@[j], span_tag(kind)),
        decreases t.children@.len() - k,
    {
        extent.push(div_of_span_tree(&t.children[k], kind));
        k = k + 1;
    }
    let classes: Vec<String> = if t.children.len() == 0 {
        vec!["no-extent".to_owned()]
    } else {
        Vec::new()
    };
    Div { tag, classes, extent, text: None }
}

/// Reconstructs and renders the force tree rooted at `loc`.
pub fn div_of_force_tree(dcg: &DcgSnapshot, loc: &Loc) -> (r: Result<Div, ReflectError>)
    requires
        dcg.wf(),
    ensures
        match r {
            Ok(d) => exists|t: LocTree|
                span_tree_ok(*dcg, t, Effect::Force) && t.loc@ == loc@ && is_span_div(
                    d,
                    t,
                    "force-tree"@,
                ),
            Err(ReflectError::DanglingLocation(id)) => !dcg.has_id(id),
            Err(ReflectError::RevisitedLocation(id)) => dcg.has_id(id) && exists|p: u64|
                graph_edge_in(*dcg, p, id, Effect::Force),
        },
        (exists|w: LocTree|
            span_tree_ok(*dcg, w, Effect::Force) && w.loc.id == loc.id && span_ids(
                w,
            ).no_duplicates()) ==> r is Ok,
{
    let t = match force_tree_of(dcg, loc) {
        Ok(t) => t,
        Err(e) => {
            return Err(e);
        },
    };
    let d = div_of_span_tree(&t, Effect::Force);
    proof {
        assert(span_tree_ok(*dcg, t, Effect::Force) && t.loc@ == loc@ && is_span_div(
            d,
            t,
            "force-tree"@,
        ));
    }
    Ok(d)
}

/// Reconstructs and renders the allocation tree rooted at `loc`.
pub fn div_of_alloc_tree(dcg: &DcgSnapshot, loc: &Loc) -> (r: Result<Div, ReflectError>)
    requires
        dcg.wf(),
    ensures
        match r {
            Ok(d) => exists|t: LocTree|
                span_tree_ok(*dcg, t, Effect::Alloc) && t.loc@ == loc@ && is_span_div(
                    d,
                    t,
                    "alloc-tree"@,
                ),
            Err(ReflectError::DanglingLocation(id)) => !dcg.has_id(id),
            Err(ReflectError::RevisitedLocation(id)) => dcg.has_id(id) && exists|p: u64|
                graph_edge_in(*dcg, p, id, Effect::Alloc),
        },
        (exists|w: LocTree|
            span_tree_ok(*dcg, w, Effect::Alloc) && w.loc.id == loc.id && span_ids(
                w,
            ).no_duplicates()) ==> r is Ok,
{
    let t = match alloc_tree_of(dcg, loc) {
        Ok(t) => t,
        Err(e) => {
            return Err(e);
        },
    };
    let d = div_of_span_tree(&t, Effect::Alloc);
    proof {
        assert(span_tree_ok(*dcg, t, Effect::Alloc) && t.loc@ == loc@ && is_span_div(
            d,
            t,
            "alloc-tree"@,
        ));
    }
    Ok(d)
}

/// The targets of a log's `kind`-typed edges, in log order: the roots from
/// which that kind's trees are rebuilt.
pub open spec fn kind_log_roots(log: Seq<TraceRec>, kind: Effect) -> Seq<LocView>
    decreases log.len(),
{
    if log.len() == 0 {
        Seq::empty()
    } else {
        let rest = kind_log_roots(log.drop_last(), kind);
        if log.last().edge.succ.effect == kind {
            rest.push(log.last().edge.succ.loc@)
        } else {
            rest
        }
    }
}

fn span_trees_of_log(dcg: &DcgSnapshot, log: &Vec<TraceRec>, kind: Effect) -> (r: Vec<
    Result<Div, ReflectError>,
>)
    requires
        dcg.wf(),
    ensures
        r@.len() == kind_log_roots(log@, kind).len(),
        forall|i: int|
            0 <= i < r@.len() ==> (match #[trigger] r@[i] {
                Ok(d) => exists|t: LocTree|
                    span_tree_ok(*dcg, t, kind) && t.loc@ == kind_log_roots(log@, kind)[i]
                        && is_span_div(d, t, span_tag(kind)),
                Err(ReflectError::DanglingLocation(id)) => !dcg.has_id(id),
                Err(ReflectError::RevisitedLocation(id)) => dcg.has_id(id) && exists|p: u64|
                    graph_edge_in(*dcg, p, id, kind),
            }),
{
    let mut out: Vec<Result<Div, ReflectError>> = Vec::new();
    let mut i: usize = 0;
    while i < log.len()
        invariant
            dcg.wf(),
            i <= log@.len(),
            out@.len() == kind_log_roots(log@.subrange(0, i as int), kind).len(),
            forall|j: int|
                0 <= j < out@.len() ==> (match #[trigger] out@[j] {
                    Ok(d) => exists|t: LocTree|
                        span_tree_ok(*dcg, t, kind) && t.loc@ == kind_log_roots(
                            log@.subrange(0, i as int),
                            kind,
                        )[j] && is_span_div(d, t, span_tag(kind)),
                    Err(ReflectError::DanglingLocation(id)) => !dcg.has_id(id),
                    Err(ReflectError::RevisitedLocation(id)) => dcg.has_id(id) && exists|p: u64|
                        graph_edge_in(*dcg, p, id, kind),
                }),
        decreases log@.len() - i,
    {
        let ghost pre = log@.subrange(0, i as int);
        let matches_kind = match (&log[i].edge.succ.effect, &kind) {
            (Effect::Force, Effect::Force) => true,
            (Effect::Alloc, Effect::Alloc) => true,
            _ => false,
        };
        if matches_kind {
            let t = match kind {
                Effect::Force => force_tree_of(dcg, &log[i].edge.succ.loc),
                Effect::Alloc => alloc_tree_of(dcg, &log[i].edge.succ.loc),
            };
            match t {
                Ok(tree) => {
                    let d = div_of_span_tree(&tree, kind);
                    proof {
                        assert(span_tree_ok(*dcg, tree, kind) && tree.loc@
                            == log@[i as int].edge.succ.loc@ && is_span_div(
                            d,
                            tree,
                            span_tag(kind),
                        ));
                    }
                    out.push(Ok(d));
                },
                Err(e) => {
                    out.push(Err(e));
                },
            }
        }
        proof {
            let post = log@.subrange(0, i + 1);
            assert(post.drop_last() =~= pre);
            assert(post.last() == log@[i as int]);
        }
        i = i + 1;
    }
    proof {
        assert(log@.subrange(0, log@.len() as int) =~= log@);
    }
    out
}

/// Rebuilds and renders one allocation tree per alloc-typed edge of the
/// captured log, rooted at that edge's target.
pub fn alloc_trees_of_log(dcg: &DcgSnapshot, log: &Vec<TraceRec>) -> (r: Vec<
    Result<Div, ReflectError>,
>)
    requires
        dcg.wf(),
    ensures
        r@.len() == kind_log_roots(log@, Effect::Alloc).len(),
        forall|i: int|
            0 <= i < r@.len() ==> (match #[trigger] r@[i] {
                Ok(d) => exists|t: LocTree|
                    span_tree_ok(*dcg, t, Effect::Alloc) && t.loc@ == kind_log_roots(
                        log@,
                        Effect::Alloc,
                    )[i] && is_span_div(d, t, "alloc-tree"@),
                Err(ReflectError::DanglingLocation(id)) => !dcg.has_id(id),
                Err(ReflectError::RevisitedLocation(id)) => dcg.has_id(id) && exists|p: u64|
                    graph_edge_in(*dcg, p, id, Effect::Alloc),
            }),
{
    span_trees_of_log(dcg, log, Effect::Alloc)
}

/// Rebuilds and renders one force tree per force-typed edge of the captured
/// log, rooted at that edge's target.
pub fn force_trees_of_log(dcg: &DcgSnapshot, log: &Vec<TraceRec>) -> (r: Vec<
    Result<Div, ReflectError>,
>)
    requires
        dcg.wf(),
    ensures
        r@.len() == kind_log_roots(log@, Effect::Force).len(),
        forall|i: int|
            0 <= i < r@.len() ==> (match #[trigger] r@[i] {
                Ok(d) => exists|t: LocTree|
                    span_tree_ok(*dcg, t, Effect::Force) && t.loc@ == kind_log_roots(
                        log@,
                        Effect::Force,
                    )[i] && is_span_div(d, t, "force-tree"@),
                Err(ReflectError::DanglingLocation(id)) => !dcg.has_id(id),
                Err(ReflectError::RevisitedLocation(id)) => dcg.has_id(id) && exists|p: u64|
                    graph_edge_in(*dcg, p, id, Effect::Force),
            }),
{
    span_trees_of_log(dcg, log, Effect::Force)
}

/// The class that marks a traced operation's effect tag.
pub open spec fn trace_effect_class(e: TraceEffect) -> Seq<char> {
    match e {
        TraceEffect::CleanRec => "tr-clean-rec"@,
        TraceEffect::CleanEval => "tr-clean-eval"@,
        TraceEffect::CleanEdge => "tr-clean-edge"@,
        TraceEffect::Dirty => "tr-dirty"@,
        TraceEffect::Remove => "tr-remove"@,
        TraceEffect::Alloc(AllocCase::LocFresh, _) => "tr-alloc-loc-fresh"@,
        TraceEffect::Alloc(AllocCase::LocExists, _) => "tr-alloc-loc-exists"@,
        TraceEffect::Force(ForceCase::CompCacheMiss) => "tr-force-compcache-miss"@,
        TraceEffect::Force(ForceCase::CompCacheHit) => "tr-force-compcache-hit"@,
        TraceEffect::Force(ForceCase::RefGet) => "tr-force-refget"@,
    }
}

/// The display name of a traced operation's effect tag.
pub open spec fn trace_effect_name(e: TraceEffect) -> Seq<char> {
    match e {
        TraceEffect::CleanRec => "CleanRec"@,
        TraceEffect::CleanEval => "CleanEval"@,
        TraceEffect::CleanEdge => "CleanEdge"@,
        TraceEffect::Dirty => "Dirty"@,
        TraceEffect::Remove => "Remove"@,
        TraceEffect::Alloc(AllocCase::LocFresh, _) => "Alloc(LocFresh)"@,
        TraceEffect::Alloc(AllocCase::LocExists, _) => "Alloc(LocExists)"@,
        TraceEffect::Force(ForceCase::CompCacheMiss) => "Force(CompCacheMiss)"@,
        TraceEffect::Force(ForceCase::CompCacheHit) => "Force(CompCacheHit)"@,
        TraceEffect::Force(ForceCase::RefGet) => "Force(RefGet)"@,
    }
}

/// The extra class that marks what kind of articulation an allocation made,
/// if the effect is an allocation.
pub open spec fn alloc_kind_class(e: TraceEffect) -> Option<Seq<char>> {
    match e {
        TraceEffect::Alloc(_, AllocKind::RefCell) => Some("alloc-kind-refcell"@),
        TraceEffect::Alloc(_, AllocKind::Thunk) => Some("alloc-kind-thunk"@),
        _ => None,
    }
}

/// The symbol drawn for an allocation: a box for a reference cell, a circle
/// for a thunk.
pub open spec fn trace_symbol(e: TraceEffect) -> Option<Seq<char>> {
    match e {
        TraceEffect::Alloc(_, AllocKind::RefCell) => Some("\u{25a3}"@),
        TraceEffect::Alloc(_, AllocKind::Thunk) => Some("\u{25ef}"@),
        _ => None,
    }
}

/// The classes of a rendered trace: its effect class, the allocation-kind
/// class if any, and a marker for whether the operation had an extent.
pub open spec fn trace_classes(e: TraceEffect, has_extent: bool) -> Seq<Seq<char>> {
    let kind = match alloc_kind_class(e) {
        Some(c) => seq![c],
        None => Seq::<Seq<char>>::empty(),
    };
    let ext = if has_extent {
        "has-extent"@
    } else {
        "no-extent"@
    };
    seq![trace_effect_class(e)] + kind + seq![ext]
}

/// The `Div` that renders one traced operation: its effect tag, its symbol,
/// its edge, and - when the operation had a dynamic extent - the rendered
/// sub-operations.
pub open spec fn is_trace_div(d: Div, tr: TraceRec) -> bool
    decreases tr,
{
    let cs = trace_classes(tr.effect, tr.extent@.len() > 0);
    &&& d.tag@ == "trace"@
    &&& d.text is None
    &&& d.classes@.len() == cs.len()
    &&& forall|i: int| 0 <= i < cs.len() ==> (#[trigger] d.classes@[i])@ == cs[i]
    &&& d.extent@.len() == (if tr.extent@.len() > 0 {
        4int
    } else {
        3int
    })
    &&& {
        let eff = d.extent@[0];
        &&& eff.tag@ == "tr-effect"@
        &&& eff.classes@.len() == 0
        &&& eff.extent@.len() == 0
        &&& match eff.text {
            Some(t) => t@ == trace_effect_name(tr.effect),
            None => false,
        }
    }
    &&& {
        let sym = d.extent@[1];
        &&& sym.tag@ == "tr-symbols"@
        &&& sym.classes@.len() == 0
        &&& sym.extent@.len() == 0
        &&& match (sym.text, trace_symbol(tr.effect)) {
            (Some(t), Some(sy)) => t@ == sy,
            (None, None) => true,
            _ => false,
        }
    }
    &&& is_edge_div(d.extent@[2], tr.edge)
    &&& tr.extent@.len() > 0 ==> {
        let sub = d.extent@[3];
        &&& sub.tag@ == "tr-extent"@
        &&& sub.classes@.len() == 0
        &&& sub.text is None
        &&& sub.extent@.len() == tr.extent@.len()
        &&& forall|k: int|
            0 <= k < tr.extent@.len() ==> is_trace_div(#[trigger] sub.extent@[k], tr.extent@[k])
    }
}

/// Renders one traced operation.
pub fn div_of_trace(tr: &TraceRec) -> (d: Div)
    ensures
        is_trace_div(d, *tr),
    decreases *tr,
{
    let effect_str: String = match &tr.effect {
        TraceEffect::CleanRec => "tr-clean-rec".to_owned(),
        TraceEffect::CleanEval => "tr-clean-eval".to_owned(),
        TraceEffect::CleanEdge => "tr-clean-edge".to_owned(),
        TraceEffect::Dirty => "tr-dirty".to_owned(),
        TraceEffect::Remove => "tr-remove".to_owned(),
        TraceEffect::Alloc(AllocCase::LocFresh, _) => "tr-alloc-loc-fresh".to_owned(),
        TraceEffect::Alloc(AllocCase::LocExists, _) => "tr-alloc-loc-exists".to_owned(),
        TraceEffect::Force(ForceCase::CompCacheMiss) => "tr-force-compcache-miss".to_owned(),
        TraceEffect::Force(ForceCase::CompCacheHit) => "tr-force-compcache-hit".to_owned(),
        TraceEffect::Force(ForceCase::RefGet) => "tr-force-refget".to_owned(),
    };
    let effect_name: String = match &tr.effect {
        TraceEffect::CleanRec => "CleanRec".to_owned(),
        TraceEffect::CleanEval => "CleanEval".to_owned(),
        TraceEffect::CleanEdge => "CleanEdge".to_owned(),
        TraceEffect::Dirty => "Dirty".to_owned(),
        TraceEffect::Remove => "Remove".to_owned(),
        TraceEffect::Alloc(AllocCase::LocFresh, _) => "Alloc(LocFresh)".to_owned(),
        TraceEffect::Alloc(AllocCase::LocExists, _) => "Alloc(LocExists)".to_owned(),
        TraceEffect::Force(ForceCase::CompCacheMiss) => "Force(CompCacheMiss)".to_owned(),
        TraceEffect::Force(ForceCase::CompCacheHit) => "Force(CompCacheHit)".to_owned(),
        TraceEffect::Force(ForceCase::RefGet) => "Force(RefGet)".to_owned(),
    };
    let symbol: Option<String> = match &tr.effect {
        TraceEffect::Alloc(_, AllocKind::RefCell) => Some("\u{25a3}".to_owned()),
        TraceEffect::Alloc(_, AllocKind::Thunk) => Some("\u{25ef}".to_owned()),
        _ => None,
    };
    let mut classes: Vec<String> = Vec::new();
    classes.push(effect_str);
    match &tr.effect {
        TraceEffect::Alloc(_, AllocKind::RefCell) => classes.push("alloc-kind-refcell".to_owned()),
        TraceEffect::Alloc(_, AllocKind::Thunk) => classes.push("alloc-kind-thunk".to_owned()),
        _ => {},
    }
    let mut extent: Vec<Div> = Vec::new();
    extent.push(
        Div {
            tag: "tr-effect".to_owned(),
            text: Some(effect_name),
            classes: Vec::new(),
            extent: Vec::new(),
        },
    );
    extent.push(
        Div { tag: "tr-symbols".to_owned(), text: symbol, classes: Vec::new(), extent: Vec::new() },
    );
    extent.push(div_of_edge(&tr.edge));
    if tr.extent.len() > 0 {
        classes.push("has-extent".to_owned());
        let mut subs: Vec<Div> = Vec::new();
        let mut k: usize = 0;
        while k < tr.extent.len()
            invariant
                k <= tr.extent@.len(),
                subs@.len() == k,
                forall|j: int| 0 <= j < k ==> is_trace_div(#[trigger] subs@[j], tr.extent@[j]),
            decreases tr.extent@.len() - k,
        {
            subs.push(div_of_trace(&tr.extent[k]));
            k = k + 1;
        }
        extent.push(
            Div {
                tag: "tr-extent".to_owned(),
                text: None,
                classes: Vec::new(),
                extent: subs,
            },
        );
    } else {
        classes.push("no-extent".to_owned());
    }
    Div { tag: "trace".to_owned(), text: None, classes, extent }
}

} // verus!
