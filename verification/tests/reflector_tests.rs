use adapton_lab::labviz::{
    alloc_tree_of, alloc_trees_of_log, div_of_alloc_tree, div_of_edge, div_of_force_tree,
    div_of_loc, div_of_name, div_of_oploc, div_of_path, div_of_succ, div_of_trace, force_tree_of,
    force_trees_of_log, LocTree, ReflectError,
};
use adapton_lab::trace::{
    AllocCase, AllocKind, DcgNode, DcgSnapshot, Edge, Effect, Loc, Name, Succ, TraceRec,
};

fn name(s: &str) -> Name {
    Name { text: s.to_string() }
}

fn loc(id: u64, s: &str) -> Loc {
    Loc { id, path: vec![name("root")], name: name(s) }
}

fn succ(id: u64, effect: Effect, dirty: bool) -> Succ {
    Succ { loc: loc(id, "target"), effect, dirty }
}

fn snapshot() -> DcgSnapshot {
    // Node 1 has one force-typed and one alloc-typed edge; 2 and 3 are
    // leaves (a ref cell without successors, and a node with no edges).
    DcgSnapshot {
        nodes: vec![
            DcgNode {
                loc: loc(1, "a"),
                succs: Some(vec![
                    succ(2, Effect::Force, false),
                    succ(3, Effect::Alloc, false),
                ]),
            },
            DcgNode { loc: loc(2, "b"), succs: None },
            DcgNode { loc: loc(3, "c"), succs: Some(vec![]) },
        ],
    }
}

fn child_ids(t: &LocTree) -> Vec<u64> {
    t.children.iter().map(|c| c.loc.id).collect()
}

#[test]
fn force_tree_follows_only_force_edges() {
    let dcg = snapshot();
    let t = force_tree_of(&dcg, &loc(1, "a")).unwrap();
    assert_eq!(t.loc.id, 1);
    assert_eq!(child_ids(&t), vec![2]);
    assert!(t.children[0].children.is_empty());
}

#[test]
fn alloc_tree_follows_only_alloc_edges() {
    let dcg = snapshot();
    let t = alloc_tree_of(&dcg, &loc(1, "a")).unwrap();
    assert_eq!(child_ids(&t), vec![3]);
}

#[test]
fn trees_partition_edges_by_kind() {
    let dcg = snapshot();
    let ft = force_tree_of(&dcg, &loc(1, "a")).unwrap();
    let at = alloc_tree_of(&dcg, &loc(1, "a")).unwrap();
    for f in child_ids(&ft) {
        for a in child_ids(&at) {
            assert_ne!(f, a);
        }
    }
}

#[test]
fn dangling_location_is_an_error() {
    let dcg = snapshot();
    assert!(matches!(
        force_tree_of(&dcg, &loc(99, "ghost")),
        Err(ReflectError::DanglingLocation(99))
    ));
    let mut bad = snapshot();
    bad.nodes[0].succs = Some(vec![succ(42, Effect::Force, false)]);
    assert!(matches!(
        force_tree_of(&bad, &loc(1, "a")),
        Err(ReflectError::DanglingLocation(42))
    ));
}

#[test]
fn cyclic_graph_is_a_revisit_error() {
    let cyc = DcgSnapshot {
        nodes: vec![DcgNode {
            loc: loc(1, "a"),
            succs: Some(vec![succ(1, Effect::Force, false)]),
        }],
    };
    assert!(matches!(
        force_tree_of(&cyc, &loc(1, "a")),
        Err(ReflectError::RevisitedLocation(1))
    ));
}

#[test]
fn rendered_tree_shape() {
    let dcg = snapshot();
    let d = div_of_force_tree(&dcg, &loc(1, "a")).unwrap();
    assert_eq!(d.tag, "force-tree");
    // Root has a force child, so no leaf marker; extent holds the location
    // and one subtree.
    assert!(d.classes.is_empty());
    assert_eq!(d.extent.len(), 2);
    assert_eq!(d.extent[0].tag, "loc");
    assert_eq!(d.extent[1].tag, "force-tree");
    assert_eq!(d.extent[1].classes, vec!["no-extent".to_string()]);
    let a = div_of_alloc_tree(&dcg, &loc(1, "a")).unwrap();
    assert_eq!(a.tag, "alloc-tree");
}

#[test]
fn name_and_path_divs() {
    let d = div_of_name(&name("alpha"));
    assert_eq!(d.tag, "name");
    assert_eq!(d.classes, vec!["alpha".to_string()]);
    assert_eq!(d.text.as_deref(), Some("alpha"));
    assert!(d.extent.is_empty());

    let p = div_of_path(&vec![name("a"), name("b")]);
    assert_eq!(p.tag, "path");
    assert_eq!(p.extent.len(), 2);
    assert_eq!(p.extent[1].text.as_deref(), Some("b"));
}

#[test]
fn loc_succ_edge_divs() {
    let l = loc(7, "spot");
    let d = div_of_loc(&l);
    assert_eq!(d.tag, "loc");
    assert_eq!(d.extent.len(), 2);
    assert_eq!(d.extent[0].tag, "path");
    assert_eq!(d.extent[1].tag, "name");

    let s = succ(7, Effect::Force, true);
    let ds = div_of_succ(&s);
    assert_eq!(ds.tag, "succ");
    assert_eq!(
        ds.classes,
        vec!["succ-force".to_string(), "succ-dirty".to_string()]
    );

    let e = Edge { loc: None, succ: succ(7, Effect::Alloc, false) };
    let de = div_of_edge(&e);
    assert_eq!(de.tag, "edge");
    assert_eq!(de.extent[0].tag, "oploc");
    assert_eq!(de.extent[1].classes[0], "succ-alloc");
    assert_eq!(de.extent[1].classes[1], "succ-not-dirty");

    let o = div_of_oploc(&Some(loc(9, "x")));
    assert!(o.extent.is_empty());
}

#[test]
fn trace_div_alloc_classes() {
    let tr = TraceRec {
        effect: adapton_lab::trace::TraceEffect::Alloc(AllocCase::LocFresh, AllocKind::Thunk),
        edge: Edge { loc: None, succ: succ(1, Effect::Alloc, false) },
        extent: vec![],
    };
    let d = div_of_trace(&tr);
    assert_eq!(d.tag, "trace");
    assert_eq!(
        d.classes,
        vec![
            "tr-alloc-loc-fresh".to_string(),
            "alloc-kind-thunk".to_string(),
            "no-extent".to_string()
        ]
    );
    assert_eq!(d.extent.len(), 3);
    assert_eq!(d.extent[0].tag, "tr-effect");
    assert_eq!(d.extent[0].text.as_deref(), Some("Alloc(LocFresh)"));
    assert_eq!(d.extent[1].tag, "tr-symbols");
    assert_eq!(d.extent[1].text.as_deref(), Some("\u{25ef}"));
    assert_eq!(d.extent[2].tag, "edge");
}

#[test]
fn trace_div_nested_extent() {
    let inner = TraceRec {
        effect: adapton_lab::trace::TraceEffect::Dirty,
        edge: Edge { loc: None, succ: succ(2, Effect::Force, true) },
        extent: vec![],
    };
    let tr = TraceRec {
        effect: adapton_lab::trace::TraceEffect::Force(
            adapton_lab::trace::ForceCase::CompCacheMiss,
        ),
        edge: Edge { loc: Some(loc(1, "src")), succ: succ(2, Effect::Force, false) },
        extent: vec![inner],
    };
    let d = div_of_trace(&tr);
    assert_eq!(
        d.classes,
        vec!["tr-force-compcache-miss".to_string(), "has-extent".to_string()]
    );
    assert_eq!(d.extent.len(), 4);
    assert_eq!(d.extent[3].tag, "tr-extent");
    assert_eq!(d.extent[3].extent.len(), 1);
    assert_eq!(d.extent[3].extent[0].classes[0], "tr-dirty");
    assert_eq!(d.extent[1].text, None);
}

#[test]
fn log_drivers_build_one_tree_per_edge_kind() {
    let dcg = snapshot();
    let log = vec![
        TraceRec {
            effect: adapton_lab::trace::TraceEffect::Alloc(AllocCase::LocFresh, AllocKind::Thunk),
            edge: Edge { loc: Some(loc(1, "a")), succ: succ(1, Effect::Alloc, false) },
            extent: vec![],
        },
        TraceRec {
            effect: adapton_lab::trace::TraceEffect::Force(
                adapton_lab::trace::ForceCase::CompCacheMiss,
            ),
            edge: Edge { loc: None, succ: succ(1, Effect::Force, false) },
            extent: vec![],
        },
    ];
    let alloc_divs = alloc_trees_of_log(&dcg, &log);
    assert_eq!(alloc_divs.len(), 1);
    let ad = alloc_divs.into_iter().next().unwrap().unwrap();
    assert_eq!(ad.tag, "alloc-tree");
    let force_divs = force_trees_of_log(&dcg, &log);
    assert_eq!(force_divs.len(), 1);
    let fd = force_divs.into_iter().next().unwrap().unwrap();
    assert_eq!(fd.tag, "force-tree");
    // The two recursions used disjoint edge kinds: the alloc tree descends
    // to node 3, the force tree to node 2.
    assert_eq!(ad.extent.len(), 2);
    assert_eq!(fd.extent.len(), 2);
}

#[test]
fn shared_target_is_a_revisit_error() {
    // A diamond: both of node 1's force-children reach node 4, so the walk
    // revisits it.
    let dcg = DcgSnapshot {
        nodes: vec![
            DcgNode {
                loc: loc(1, "a"),
                succs: Some(vec![
                    succ(2, Effect::Force, false),
                    succ(3, Effect::Force, false),
                ]),
            },
            DcgNode { loc: loc(2, "b"), succs: Some(vec![succ(4, Effect::Force, false)]) },
            DcgNode { loc: loc(3, "c"), succs: Some(vec![succ(4, Effect::Force, false)]) },
            DcgNode { loc: loc(4, "d"), succs: None },
        ],
    };
    assert!(matches!(
        force_tree_of(&dcg, &loc(1, "a")),
        Err(ReflectError::RevisitedLocation(4))
    ));
    // The same snapshot has no alloc edges at all, so the alloc tree is a
    // bare root.
    let at = alloc_tree_of(&dcg, &loc(1, "a")).unwrap();
    assert!(at.children.is_empty());
}
