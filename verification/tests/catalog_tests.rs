use adapton_lab::catalog::{
    all_labs, list_eq, list_filter, list_reverse, list_split, tree_eq, Archivist, EagerFilter,
    EagerMap, EagerMap2, EagerMergesort1, EagerMergesort3, Editor, EditorOopsla2015Sec2,
    ExampleCleanDirty, LabKind, LazyFilter, LazyMap, LazyMergesort2, List, ListReverse, ListTree,
    ListTreeMax, ListTreeSum, RazDouble, RazMax, Tree, UniformInsert, UniformPrepend, VecMax,
};
use adapton_lab::labdef::{
    Compute, ComputeDemand, Edit, Generate, GenerateParams, LabError, NominalStrategy,
};
use adapton_lab::rng::LabRng;

fn elems_of(l: &List) -> Vec<u64> {
    let mut out = Vec::new();
    let mut cur = l;
    loop {
        match cur {
            List::Nil => break,
            List::Cons(v, t) => {
                out.push(*v);
                cur = t;
            }
            List::Name(_, t) => {
                cur = t;
            }
        }
    }
    out
}

fn names_of(l: &List) -> Vec<u64> {
    let mut out = Vec::new();
    let mut cur = l;
    loop {
        match cur {
            List::Nil => break,
            List::Cons(_, t) => {
                cur = t;
            }
            List::Name(n, t) => {
                out.push(*n);
                cur = t;
            }
        }
    }
    out
}

fn from_elems(vals: &[u64]) -> List {
    let mut l = List::Nil;
    for v in vals.iter().rev() {
        l = List::Cons(*v, Box::new(l));
    }
    l
}

fn gp(size: usize, gauge: usize) -> GenerateParams {
    GenerateParams { size, gauge, nominal_strategy: NominalStrategy::Regular }
}

#[test]
fn generate_size_four_exact() {
    let mut rng = LabRng::from_seeds(&vec![0usize]);
    let l = UniformPrepend::generate(&mut rng, &gp(4, 1));
    assert_eq!(elems_of(&l), vec![83, 340, 393, 66]);
    assert_eq!(names_of(&l), vec![3, 2, 1, 0]);
}

#[test]
fn generate_gauge_one_checkpoints_every_element() {
    let mut rng = LabRng::from_seeds(&vec![5usize]);
    let l = UniformPrepend::generate(&mut rng, &gp(9, 1));
    assert_eq!(names_of(&l).len(), 9);
    assert_eq!(elems_of(&l).len(), 9);
}

#[test]
fn generate_gauge_size_single_checkpoint() {
    let mut rng = LabRng::from_seeds(&vec![5usize]);
    let l = UniformPrepend::generate(&mut rng, &gp(9, 9));
    assert_eq!(names_of(&l).len(), 1);
    assert_eq!(elems_of(&l).len(), 9);
}

#[test]
fn generate_by_content_names_match_elements() {
    let mut rng = LabRng::from_seeds(&vec![0usize]);
    let params = GenerateParams {
        size: 4,
        gauge: 1,
        nominal_strategy: NominalStrategy::ByContent,
    };
    let l = UniformPrepend::generate(&mut rng, &params);
    assert_eq!(names_of(&l), elems_of(&l));
}

#[test]
fn generate_is_deterministic() {
    let mut r1 = LabRng::from_seeds(&vec![3usize, 4usize]);
    let mut r2 = LabRng::from_seeds(&vec![3usize, 4usize]);
    let a = UniformPrepend::generate(&mut r1, &gp(12, 3));
    let b = UniformPrepend::generate(&mut r2, &gp(12, 3));
    assert!(list_eq(&a, &b));
    assert_eq!(r1.state, r2.state);
}

#[test]
fn edit_prepends_one_element() {
    let mut rng = LabRng::from_seeds(&vec![0usize]);
    let l = UniformPrepend::generate(&mut rng, &gp(4, 1));
    let st = UniformPrepend::edit_init(&mut rng, &gp(4, 1));
    assert_eq!(st, 4);
    let (l2, st2) = UniformPrepend::edit(l, st, &mut rng, &gp(4, 1));
    assert_eq!(st2, 5);
    assert_eq!(elems_of(&l2).len(), 5);
    assert_eq!(names_of(&l2), vec![4, 3, 2, 1, 0]);
}

#[test]
fn squares_exact() {
    let mut rng = LabRng::from_seeds(&vec![0usize]);
    let l = UniformPrepend::generate(&mut rng, &gp(4, 1));
    let out = <EagerMap as Compute<List, List>>::compute(&l).unwrap();
    assert_eq!(elems_of(&out), vec![6889, 115600, 154449, 4356]);
    assert_eq!(names_of(&out), vec![3, 2, 1, 0]);
}

#[test]
fn square_wraps_at_word_size() {
    let l = from_elems(&[1u64 << 33, 3]);
    let out = <EagerMap as Compute<List, List>>::compute(&l).unwrap();
    assert_eq!(elems_of(&out), vec![0, 9]);
}

#[test]
fn filter_keeps_multiples_of_three() {
    let l = from_elems(&[1, 3, 6, 5, 9, 0]);
    let out = <EagerFilter as Compute<List, List>>::compute(&l).unwrap();
    assert_eq!(elems_of(&out), vec![3, 6, 9, 0]);
}

#[test]
fn reverse_exact() {
    let l = from_elems(&[1, 2, 3, 4]);
    let out = <ListReverse as Compute<List, List>>::compute(&l).unwrap();
    assert_eq!(elems_of(&out), vec![4, 3, 2, 1]);
}

#[test]
fn vec_max_exact() {
    let l = from_elems(&[17, 99, 4, 98]);
    let out = <VecMax as Compute<List, u64>>::compute(&l).unwrap();
    assert_eq!(out, 99);
}

#[test]
fn vec_max_empty_is_zero() {
    let out = <VecMax as Compute<List, u64>>::compute(&List::Nil).unwrap();
    assert_eq!(out, 0);
}

#[test]
fn vec_max_generates_requested_size() {
    let mut rng = LabRng::from_seeds(&vec![0usize]);
    let l = VecMax::generate(&mut rng, &gp(4, 1));
    assert_eq!(elems_of(&l).len(), 4);
    assert_eq!(names_of(&l).len(), 0);
}

#[test]
fn stubs_are_unimplemented() {
    let l = from_elems(&[1, 2]);
    assert!(matches!(list_filter(&l), Err(LabError::UnimplementedScenario)));
    assert!(matches!(list_split(&l), Err(LabError::UnimplementedScenario)));
    assert!(matches!(list_reverse(&l), Err(LabError::UnimplementedScenario)));
}

#[test]
fn list_eq_distinguishes() {
    let a = from_elems(&[1, 2, 3]);
    let b = from_elems(&[1, 2, 3]);
    let c = from_elems(&[1, 2, 4]);
    let d = from_elems(&[1, 2]);
    assert!(list_eq(&a, &b));
    assert!(!list_eq(&a, &c));
    assert!(!list_eq(&a, &d));
    assert!(!list_eq(&a, &List::Name(1, Box::new(List::Nil))));
}

#[test]
fn catalog_lists_twenty_four_labs() {
    let labs = all_labs();
    assert_eq!(labs.len(), 24);
    assert_eq!(labs[0].identity.text, "eg-clean-dirty");
    assert_eq!(labs[1].identity.text, "eg-oopsla2015-sec2");
    assert_eq!(labs[2].identity.text, "eg-oopsla2015-sec2-rev1");
    assert_eq!(labs[3].identity.text, "eg-oopsla2015-sec2-rev2");
    assert_eq!(labs[4].identity.text, "list-lazy-map");
    assert_eq!(labs[5].identity.text, "list-lazy-filter");
    assert_eq!(labs[6].identity.text, "list-tree");
    assert_eq!(labs[7].identity.text, "list-tree-max");
    assert_eq!(labs[8].identity.text, "list-tree-sum");
    assert_eq!(labs[9].identity.text, "list-eager-mergesort3");
    assert_eq!(labs[10].identity.text, "list-lazy-mergesort3");
    assert_eq!(labs[11].identity.text, "list-eager-mergesort2");
    assert_eq!(labs[12].identity.text, "list-lazy-mergesort2");
    assert_eq!(labs[13].identity.text, "list-eager-mergesort1");
    assert_eq!(labs[14].identity.text, "list-lazy-mergesort1");
    assert_eq!(labs[15].identity.text, "list-eager-map");
    assert_eq!(labs[16].identity.text, "list-eager-filter");
    assert_eq!(labs[17].identity.text, "list-reverse");
    assert_eq!(labs[18].identity.text, "raz-max");
    assert_eq!(labs[19].identity.text, "vec-max");
    assert_eq!(labs[20].identity.text, "raz-double");
    assert_eq!(labs[21].identity.text, "hammer-s17-hw0-filter");
    assert_eq!(labs[22].identity.text, "hammer-s17-hw0-split");
    assert_eq!(labs[23].identity.text, "hammer-s17-hw0-reverse");
    assert!(matches!(labs[23].kind, LabKind::RunReverse));
}

#[test]
fn clean_dirty_cycle() {
    let mut rng = LabRng::from_seeds(&vec![0usize]);
    let cell = ExampleCleanDirty::generate(&mut rng, &gp(1, 1));
    assert_eq!(cell, 2);
    let st = <ExampleCleanDirty as Edit<i32, u64>>::edit_init(&mut rng, &gp(1, 1));
    let (c1, s1) = <ExampleCleanDirty as Edit<i32, u64>>::edit(cell, st, &mut rng, &gp(1, 1));
    assert_eq!((c1, s1), (-2, 1));
    let (c2, s2) = <ExampleCleanDirty as Edit<i32, u64>>::edit(c1, s1, &mut rng, &gp(1, 1));
    assert_eq!((c2, s2), (3, 2));
    let (c3, s3) = <ExampleCleanDirty as Edit<i32, u64>>::edit(c2, s2, &mut rng, &gp(1, 1));
    assert_eq!((c3, s3), (2, 0));
    assert_eq!(<ExampleCleanDirty as Compute<i32, i32>>::compute(&-2).unwrap(), 4);
    assert_eq!(<ExampleCleanDirty as Compute<i32, i32>>::compute(&3).unwrap(), 9);
    assert_eq!(<ExampleCleanDirty as Compute<i32, i32>>::compute(&50).unwrap(), 100);
}

#[test]
fn oopsla_editor_splices_once() {
    let mut rng = LabRng::from_seeds(&vec![0usize]);
    let l = EditorOopsla2015Sec2::generate(&mut rng, &gp(1, 1));
    assert_eq!(elems_of(&l), vec![97, 98, 99, 0, 1, 3]);
    assert_eq!(names_of(&l), vec![5, 4, 3, 2, 1, 0]);
    let st = <EditorOopsla2015Sec2 as Edit<List, u64>>::edit_init(&mut rng, &gp(1, 1));
    let (l1, s1) = <EditorOopsla2015Sec2 as Edit<List, u64>>::edit(l, st, &mut rng, &gp(1, 1));
    assert_eq!(s1, 1);
    assert_eq!(elems_of(&l1), vec![97, 98, 99, 0, 1, 2, 3]);
    assert_eq!(names_of(&l1), vec![5, 4, 3, 2, 1, 6, 0]);
    let (l2, s2) = <EditorOopsla2015Sec2 as Edit<List, u64>>::edit(l1, s1, &mut rng, &gp(1, 1));
    assert_eq!(s2, 1);
    assert_eq!(elems_of(&l2), vec![97, 98, 99, 0, 1, 2, 3]);
}

#[test]
fn lazy_filter_respects_demand() {
    let l = from_elems(&[3, 1, 6, 9, 12]);
    let out = <LazyFilter as ComputeDemand<List, List>>::compute(&l, 2).unwrap();
    assert_eq!(elems_of(&out), vec![3, 6]);
    let all = <LazyFilter as ComputeDemand<List, List>>::compute(&l, 99).unwrap();
    assert_eq!(elems_of(&all), vec![3, 6, 9, 12]);
}

#[test]
fn lazy_map_respects_demand() {
    let l = from_elems(&[2, 3, 4, 5]);
    let out = <LazyMap as ComputeDemand<List, List>>::compute(&l, 2).unwrap();
    assert_eq!(elems_of(&out), vec![4, 9]);
    let all = <LazyMap as ComputeDemand<List, List>>::compute(&l, 10).unwrap();
    assert_eq!(elems_of(&all), vec![4, 9, 16, 25]);
    let none = <LazyMap as ComputeDemand<List, List>>::compute(&l, 0).unwrap();
    assert!(elems_of(&none).is_empty());
}

#[test]
fn lazy_map_keeps_demanded_checkpoints() {
    let l = List::Name(9, Box::new(from_elems(&[2, 3])));
    let out = <LazyMap as ComputeDemand<List, List>>::compute(&l, 5).unwrap();
    assert_eq!(names_of(&out), vec![9]);
    assert_eq!(elems_of(&out), vec![4, 9]);
    // A demand of zero truncates even the leading checkpoint.
    let cut = <LazyMap as ComputeDemand<List, List>>::compute(&l, 0).unwrap();
    assert!(names_of(&cut).is_empty());
}

#[test]
fn mergesort_sorts_and_permutes() {
    let l = from_elems(&[5, 1, 4, 1, 9, 0]);
    let out = <EagerMergesort3 as Compute<List, List>>::compute(&l).unwrap();
    assert_eq!(elems_of(&out), vec![0, 1, 1, 4, 5, 9]);
    // Checkpoints are dropped by sorting.
    let named = List::Name(7, Box::new(from_elems(&[3, 2])));
    let out2 = <EagerMergesort3 as Compute<List, List>>::compute(&named).unwrap();
    assert_eq!(elems_of(&out2), vec![2, 3]);
    assert_eq!(names_of(&out2).len(), 0);
}

#[test]
fn tree_folds_exact() {
    let l = from_elems(&[7, 2, 9, 4]);
    assert_eq!(<ListTreeMax as Compute<List, u64>>::compute(&l).unwrap(), 9);
    assert_eq!(<ListTreeSum as Compute<List, u64>>::compute(&l).unwrap(), 22);
    let w = from_elems(&[u64::MAX, 3]);
    assert_eq!(<ListTreeSum as Compute<List, u64>>::compute(&w).unwrap(), 2);
}

#[test]
fn generate_empty_input() {
    let mut rng = LabRng::from_seeds(&vec![0usize]);
    let l = UniformPrepend::generate(&mut rng, &gp(0, 1));
    assert!(elems_of(&l).is_empty());
    assert!(names_of(&l).is_empty());
}

#[test]
fn generate_gauge_above_size() {
    let mut rng = LabRng::from_seeds(&vec![2usize]);
    let l = UniformPrepend::generate(&mut rng, &gp(3, 5));
    // Only the zeroth element falls on the gauge.
    assert_eq!(names_of(&l), vec![0]);
    assert_eq!(elems_of(&l).len(), 3);
}

#[test]
fn lazy_mergesort_demanded_prefix() {
    let l = from_elems(&[5, 1, 4, 1, 9, 0]);
    let out = <LazyMergesort2 as ComputeDemand<List, List>>::compute(&l, 3).unwrap();
    assert_eq!(elems_of(&out), vec![0, 1, 1]);
    let all = <LazyMergesort2 as ComputeDemand<List, List>>::compute(&l, 99).unwrap();
    assert_eq!(elems_of(&all), vec![0, 1, 1, 4, 5, 9]);
}

#[test]
fn mergesort_renderings_agree() {
    let l = from_elems(&[8, 3, 5]);
    let a = <EagerMergesort1 as Compute<List, List>>::compute(&l).unwrap();
    let b = <EagerMergesort3 as Compute<List, List>>::compute(&l).unwrap();
    assert!(list_eq(&a, &b));
}

#[test]
fn map_renderings_agree() {
    let l = from_elems(&[2, 3]);
    let a = <EagerMap as Compute<List, List>>::compute(&l).unwrap();
    let b = <EagerMap2 as Compute<List, List>>::compute(&l).unwrap();
    let c = <Archivist as Compute<List, List>>::compute(&l).unwrap();
    assert!(list_eq(&a, &b));
    assert!(list_eq(&a, &c));
}

fn inorder_of(t: &Tree) -> Vec<u64> {
    match t {
        Tree::Leaf => Vec::new(),
        Tree::Bin(l, v, r) => {
            let mut out = inorder_of(l);
            out.push(*v);
            out.extend(inorder_of(r));
            out
        }
    }
}

#[test]
fn list_tree_holds_elements_in_order() {
    let l = from_elems(&[4, 7, 1, 9, 2]);
    let t = <ListTree as Compute<List, Tree>>::compute(&l).unwrap();
    assert_eq!(inorder_of(&t), vec![4, 7, 1, 9, 2]);
    let t2 = <ListTree as Compute<List, Tree>>::compute(&l).unwrap();
    assert!(tree_eq(&t, &t2));
}

#[test]
fn uniform_insert_splices_at_random_position() {
    let mut rng = LabRng::from_seeds(&vec![0usize]);
    let l = UniformInsert::generate(&mut rng, &gp(3, 1));
    // Deterministic counter elements, marked by a million, newest first.
    assert_eq!(elems_of(&l), vec![1000002, 1000001, 1000000]);
    assert_eq!(names_of(&l), vec![2, 1, 0]);
    let st = <UniformInsert as Edit<List, u64>>::edit_init(&mut rng, &gp(3, 1));
    assert_eq!(st, 3);
    let (l2, st2) = <UniformInsert as Edit<List, u64>>::edit(l, st, &mut rng, &gp(3, 1));
    assert_eq!(st2, 4);
    let e = elems_of(&l2);
    assert_eq!(e.len(), 4);
    assert!(e.contains(&1000003));
}

#[test]
fn raz_computations_exact() {
    let l = from_elems(&[3, 11, 7]);
    assert_eq!(<RazMax as Compute<List, u64>>::compute(&l).unwrap(), 11);
    let d = <RazDouble as Compute<List, List>>::compute(&l).unwrap();
    assert_eq!(elems_of(&d), vec![6, 22, 14]);
    let w = from_elems(&[1u64 << 63]);
    let dw = <RazDouble as Compute<List, List>>::compute(&w).unwrap();
    assert_eq!(elems_of(&dw), vec![0]);
}

#[test]
fn small_editor_splices_once() {
    let mut rng = LabRng::from_seeds(&vec![0usize]);
    let l = Editor::generate(&mut rng, &gp(1, 1));
    assert_eq!(elems_of(&l), vec![0, 1, 3]);
    assert_eq!(names_of(&l), vec![2, 1, 0]);
    let st = <Editor as Edit<List, u64>>::edit_init(&mut rng, &gp(1, 1));
    let (l1, s1) = <Editor as Edit<List, u64>>::edit(l, st, &mut rng, &gp(1, 1));
    assert_eq!(s1, 1);
    assert_eq!(elems_of(&l1), vec![0, 1, 2, 3]);
    assert_eq!(names_of(&l1), vec![2, 1, 3, 0]);
    let (l2, s2) = <Editor as Edit<List, u64>>::edit(l1, s1, &mut rng, &gp(1, 1));
    assert_eq!(s2, 1);
    assert_eq!(elems_of(&l2), vec![0, 1, 2, 3]);
}
