//! Concrete scenario instances for the harness: a checkpointed cons-list
//! input with a uniform prepend distribution, a handful of pure
//! computations over it, and the declared stubs whose invocation is a
//! terminal error for their scenario.

use vstd::prelude::*;

use crate::labdef::{
    Compute, ComputeDemand, Edit, Generate, GenerateParams, LabError, LabParams, LabResults,
    NominalStrategy,
};
use crate::labrun::{spec_input_at, LabDef};
use crate::rng::{rng_next_of, LabRng};
use crate::trace::{Name, Val};

verus! {

/// A checkpointed input list.  `Cons` carries one element; `Name` wraps the
/// rest of the list in a named checkpoint, the stable indirection point at
/// which later edits splice in changes.
#[derive(Debug)]
pub enum List {
    Nil,
    Cons(u64, Box<List>),
    Name(u64, Box<List>),
}

/// The element values of a list, head first, checkpoints skipped.
pub open spec fn elems(l: List) -> Seq<u64>
    decreases l,
{
    match l {
        List::Nil => Seq::empty(),
        List::Cons(v, t) => seq![v] + elems(*t),
        List::Name(_, t) => elems(*t),
    }
}

/// How many checkpoints a list holds.
pub open spec fn checkpoint_count(l: List) -> nat
    decreases l,
{
    match l {
        List::Nil => 0,
        List::Cons(_, t) => checkpoint_count(*t),
        List::Name(_, t) => 1 + checkpoint_count(*t),
    }
}

/// Structural equality of two lists.
pub fn list_eq(a: &List, b: &List) -> (r: bool)
    ensures
        r == (*a == *b),
    decreases *a,
{
    match (a, b) {
        (List::Nil, List::Nil) => true,
        (List::Cons(x, t1), List::Cons(y, t2)) => {
            if *x == *y {
                list_eq(t1, t2)
            } else {
                false
            }
        },
        (List::Name(x, t1), List::Name(y, t2)) => {
            if *x == *y {
                list_eq(t1, t2)
            } else {
                false
            }
        },
        _ => false,
    }
}

/// What a display snapshot of a list must hold: exactly the list's element
/// values, in list order.
pub open spec fn val_is_elems(v: Val, l: List) -> bool {
    match v {
        Val::List(items) => items@.len() == elems(l).len() && forall|j: int|
            0 <= j < items@.len() ==> items@[j] == Val::Nat(elems(l)[j]),
        _ => false,
    }
}

/// A display snapshot of a list: its element values, in list order.
pub fn val_of_list(l: &List) -> (v: Val)
    ensures
        val_is_elems(v, *l),
{
    let mut items: Vec<Val> = Vec::new();
    let mut cur: &List = l;
    loop
        invariant_except_break
            items@.len() <= elems(*l).len(),
            forall|j: int| 0 <= j < items@.len() ==> items@[j] == Val::Nat(elems(*l)[j]),
            elems(*cur) =~= elems(*l).subrange(items@.len() as int, elems(*l).len() as int),
        ensures
            items@.len() == elems(*l).len(),
            forall|j: int| 0 <= j < items@.len() ==> items@[j] == Val::Nat(elems(*l)[j]),
        decreases *cur,
    {
        match cur {
            List::Nil => {
                break ;
            },
            List::Cons(x, t) => {
                proof {
                    assert(elems(*cur)[0] == elems(*l)[items@.len() as int]);
                    assert(elems(**t) =~= elems(*cur).subrange(1, elems(*cur).len() as int));
                    assert(elems(**t) =~= elems(*l).subrange(
                        items@.len() as int + 1,
                        elems(*l).len() as int,
                    ));
                }
                items.push(Val::Nat(*x));
                cur = t;
            },
            List::Name(_, t) => {
                cur = t;
            },
        }
    }
    Val::List(items)
}

/// The exclusive upper bound on generated element values: one hundred per
/// requested element, clamped to the machine word and kept positive.
pub open spec fn elem_bound(size: usize) -> u64 {
    let m: int = if (size as int) * 100 > u64::MAX as int {
        u64::MAX as int
    } else {
        (size as int) * 100
    };
    if m < 1 {
        1
    } else {
        m as u64
    }
}

fn elem_bound_exec(size: usize) -> (r: u64)
    ensures
        r == elem_bound(size),
        r >= 1,
{
    let s = size as u64;
    let m: u64 = if s > u64::MAX / 100 {
        u64::MAX
    } else {
        s * 100
    };
    if m < 1 {
        1
    } else {
        m
    }
}

/// The name of a checkpoint placed before element `i` holding `v`: the
/// element's index under the `Regular` strategy, or derived from the
/// element's content under `ByContent`.
pub open spec fn chk_name(strategy: NominalStrategy, i: u64, v: u64) -> u64 {
    match strategy {
        NominalStrategy::Regular => i,
        NominalStrategy::ByContent => v,
    }
}

/// A counter stepped without overflow.
pub open spec fn wrap_inc(i: u64) -> u64 {
    if i == u64::MAX {
        0
    } else {
        (i + 1) as u64
    }
}

/// The uniformly generated input of `n` elements: element `i` (innermost
/// first) is one pseudo-random draw reduced below the element bound, and
/// every `gauge`-th element is wrapped in a checkpoint.
pub open spec fn gen_list(n: nat, gp: GenerateParams, rng: LabRng) -> (List, LabRng)
    decreases n,
{
    if n == 0 {
        (List::Nil, rng)
    } else {
        let (rest, r0) = gen_list((n - 1) as nat, gp, rng);
        let s1 = rng_next_of(r0.state);
        let v = s1 % elem_bound(gp.size);
        let i = (n - 1) as u64;
        let tail = if (n - 1) as int % (gp.gauge as int) == 0 {
            List::Name(chk_name(gp.nominal_strategy, i, v), Box::new(rest))
        } else {
            rest
        };
        (List::Cons(v, Box::new(tail)), LabRng { state: s1 })
    }
}

/// An input distribution that prepends one pseudo-random element per step,
/// wrapping every `gauge`-th element in a checkpoint.  The edit-state is
/// the index of the next element to prepend.
#[derive(Clone, Debug)]
pub struct UniformPrepend {}

impl Generate<List> for UniformPrepend {
    open spec fn generate_spec(rng: LabRng, params: GenerateParams) -> (List, LabRng) {
        gen_list(params.size as nat, params, rng)
    }

    #[verifier::loop_isolation(false)]
    fn generate(rng: &mut LabRng, params: &GenerateParams) -> (t: List) {
        let ghost rng0 = *rng;
        let mut l = List::Nil;
        let mut i: usize = 0;
        while i < params.size
            invariant
                i <= params.size,
                ({
                    let (l0, r0) = gen_list(i as nat, *params, rng0);
                    l == l0 && *rng == r0
                }),
            decreases params.size - i,
        {
            let bound = elem_bound_exec(params.size);
            let v = rng.gen_mod(bound);
            let named = if i % params.gauge == 0 {
                let name = match params.nominal_strategy {
                    NominalStrategy::Regular => i as u64,
                    NominalStrategy::ByContent => v,
                };
                List::Name(name, Box::new(l))
            } else {
                l
            };
            l = List::Cons(v, Box::new(named));
            i = i + 1;
        }
        l
    }
}

impl Edit<List, u64> for UniformPrepend {
    open spec fn edit_init_spec(rng: LabRng, params: GenerateParams) -> (u64, LabRng) {
        (params.size as u64, rng)
    }

    fn edit_init(rng: &mut LabRng, params: &GenerateParams) -> (s: u64) {
        params.size as u64
    }

    open spec fn edit_spec(pre_edit: List, st: u64, rng: LabRng, params: GenerateParams) -> (
        List,
        u64,
        LabRng,
    ) {
        let s1 = rng_next_of(rng.state);
        let v = s1 % elem_bound(params.size);
        let named = if st as int % (params.gauge as int) == 0 {
            List::Name(chk_name(params.nominal_strategy, st, v), Box::new(pre_edit))
        } else {
            pre_edit
        };
        (List::Cons(v, Box::new(named)), wrap_inc(st), LabRng { state: s1 })
    }

    fn edit(pre_edit: List, st: u64, rng: &mut LabRng, params: &GenerateParams) -> (r: (
        List,
        u64,
    )) {
        let bound = elem_bound_exec(params.size);
        let v = rng.gen_mod(bound);
        let named = if st % (params.gauge as u64) == 0 {
            let name = match params.nominal_strategy {
                NominalStrategy::Regular => st,
                NominalStrategy::ByContent => v,
            };
            List::Name(name, Box::new(pre_edit))
        } else {
            pre_edit
        };
        let next = if st == u64::MAX {
            0
        } else {
            st + 1
        };
        (List::Cons(v, Box::new(named)), next)
    }
}

/// Squaring an element, wrapped to the machine word.
pub open spec fn square_u64(v: u64) -> u64 {
    ((v * v) % 0x1_0000_0000_0000_0000) as u64
}

/// The element-wise square of a list, checkpoints kept in place.
pub open spec fn map_square(l: List) -> List
    decreases l,
{
    match l {
        List::Nil => List::Nil,
        List::Cons(v, t) => List::Cons(square_u64(v), Box::new(map_square(*t))),
        List::Name(n, t) => List::Name(n, Box::new(map_square(*t))),
    }
}

fn square_exec(v: u64) -> (r: u64)
    ensures
        r == square_u64(v),
{
    proof {
        assert((v as int) * (v as int) < 0x1_0000_0000_0000_0000 * 0x1_0000_0000_0000_0000)
            by (nonlinear_arith)
            requires
                v <= 0xFFFF_FFFF_FFFF_FFFFu64,
        ;
    }
    let wide: u128 = (v as u128) * (v as u128);
    (wide % 0x1_0000_0000_0000_0000u128) as u64
}

fn square_list(l: &List) -> (r: List)
    ensures
        r == map_square(*l),
    decreases *l,
{
    match l {
        List::Nil => List::Nil,
        List::Cons(v, t) => List::Cons(square_exec(*v), Box::new(square_list(t))),
        List::Name(n, t) => List::Name(*n, Box::new(square_list(t))),
    }
}

/// The computation "square every element", evaluated eagerly.
#[derive(Clone, Debug)]
pub struct EagerMap {}

impl Compute<List, List> for EagerMap {
    open spec fn compute_spec(inp: List) -> Option<List> {
        Some(map_square(inp))
    }

    fn compute(inp: &List) -> (r: Result<List, LabError>) {
        Ok(square_list(inp))
    }

    open spec fn output_eq_spec(a: List, b: List) -> bool {
        a == b
    }

    fn output_eq(a: &List, b: &List) -> (r: bool) {
        list_eq(a, b)
    }

    proof fn output_eq_refl(a: List) {
    }

    open spec fn reflect_input_ok(inp: List, v: Val) -> bool {
        val_is_elems(v, inp)
    }

    fn reflect_input(inp: &List) -> (v: Val) {
        val_of_list(inp)
    }

    open spec fn reflect_output_ok(out: List, v: Val) -> bool {
        val_is_elems(v, out)
    }

    fn reflect_output(out: &List) -> (v: Val) {
        val_of_list(out)
    }
}

/// The sublist of elements divisible by three, checkpoints kept in place.
pub open spec fn filter_div3(l: List) -> List
    decreases l,
{
    match l {
        List::Nil => List::Nil,
        List::Cons(v, t) => if v % 3 == 0 {
            List::Cons(v, Box::new(filter_div3(*t)))
        } else {
            filter_div3(*t)
        },
        List::Name(n, t) => List::Name(n, Box::new(filter_div3(*t))),
    }
}

fn filter_div3_exec(l: &List) -> (r: List)
    ensures
        r == filter_div3(*l),
    decreases *l,
{
    match l {
        List::Nil => List::Nil,
        List::Cons(v, t) => {
            if *v % 3 == 0 {
                List::Cons(*v, Box::new(filter_div3_exec(t)))
            } else {
                filter_div3_exec(t)
            }
        },
        List::Name(n, t) => List::Name(*n, Box::new(filter_div3_exec(t))),
    }
}

/// The computation "keep the elements divisible by three", evaluated
/// eagerly.
#[derive(Clone, Debug)]
pub struct EagerFilter {}

impl Compute<List, List> for EagerFilter {
    open spec fn compute_spec(inp: List) -> Option<List> {
        Some(filter_div3(inp))
    }

    fn compute(inp: &List) -> (r: Result<List, LabError>) {
        Ok(filter_div3_exec(inp))
    }

    open spec fn output_eq_spec(a: List, b: List) -> bool {
        a == b
    }

    fn output_eq(a: &List, b: &List) -> (r: bool) {
        list_eq(a, b)
    }

    proof fn output_eq_refl(a: List) {
    }

    open spec fn reflect_input_ok(inp: List, v: Val) -> bool {
        val_is_elems(v, inp)
    }

    fn reflect_input(inp: &List) -> (v: Val) {
        val_of_list(inp)
    }

    open spec fn reflect_output_ok(out: List, v: Val) -> bool {
        val_is_elems(v, out)
    }

    fn reflect_output(out: &List) -> (v: Val) {
        val_of_list(out)
    }
}

/// The list reversed onto an accumulator, node by node.
pub open spec fn rev_onto(l: List, acc: List) -> List
    decreases l,
{
    match l {
        List::Nil => acc,
        List::Cons(v, t) => rev_onto(*t, List::Cons(v, Box::new(acc))),
        List::Name(n, t) => rev_onto(*t, List::Name(n, Box::new(acc))),
    }
}

fn rev_onto_exec(l: &List, acc: List) -> (r: List)
    ensures
        r == rev_onto(*l, acc),
    decreases *l,
{
    match l {
        List::Nil => acc,
        List::Cons(v, t) => rev_onto_exec(t, List::Cons(*v, Box::new(acc))),
        List::Name(n, t) => rev_onto_exec(t, List::Name(*n, Box::new(acc))),
    }
}

/// The computation "reverse the list".
#[derive(Clone, Debug)]
pub struct ListReverse {}

impl Compute<List, List> for ListReverse {
    open spec fn compute_spec(inp: List) -> Option<List> {
        Some(rev_onto(inp, List::Nil))
    }

    fn compute(inp: &List) -> (r: Result<List, LabError>) {
        Ok(rev_onto_exec(inp, List::Nil))
    }

    open spec fn output_eq_spec(a: List, b: List) -> bool {
        a == b
    }

    fn output_eq(a: &List, b: &List) -> (r: bool) {
        list_eq(a, b)
    }

    proof fn output_eq_refl(a: List) {
    }

    open spec fn reflect_input_ok(inp: List, v: Val) -> bool {
        val_is_elems(v, inp)
    }

    fn reflect_input(inp: &List) -> (v: Val) {
        val_of_list(inp)
    }

    open spec fn reflect_output_ok(out: List, v: Val) -> bool {
        val_is_elems(v, out)
    }

    fn reflect_output(out: &List) -> (v: Val) {
        val_of_list(out)
    }
}

/// The plainly generated input of `n` elements, without checkpoints.
pub open spec fn gen_plain(n: nat, gp: GenerateParams, rng: LabRng) -> (List, LabRng)
    decreases n,
{
    if n == 0 {
        (List::Nil, rng)
    } else {
        let (rest, r0) = gen_plain((n - 1) as nat, gp, rng);
        let s1 = rng_next_of(r0.state);
        let v = s1 % elem_bound(gp.size);
        (List::Cons(v, Box::new(rest)), LabRng { state: s1 })
    }
}

/// The largest element of a list, or zero for an empty one.
pub open spec fn max_elem(l: List) -> u64
    decreases l,
{
    match l {
        List::Nil => 0,
        List::Cons(v, t) => if v > max_elem(*t) {
            v
        } else {
            max_elem(*t)
        },
        List::Name(_, t) => max_elem(*t),
    }
}

fn max_elem_exec(l: &List) -> (r: u64)
    ensures
        r == max_elem(*l),
    decreases *l,
{
    match l {
        List::Nil => 0,
        List::Cons(v, t) => {
            let rest = max_elem_exec(t);
            if *v > rest {
                *v
            } else {
                rest
            }
        },
        List::Name(_, t) => max_elem_exec(t),
    }
}

/// A plain scenario that finds the maximum pseudo-random element.  Its
/// distribution generates one pseudo-random element per requested slot,
/// without checkpoints, and its edits only step the counter, leaving the
/// input unchanged.
#[derive(Clone, Debug)]
pub struct VecMax {}

impl Generate<List> for VecMax {
    open spec fn generate_spec(rng: LabRng, params: GenerateParams) -> (List, LabRng) {
        gen_plain(params.size as nat, params, rng)
    }

    #[verifier::loop_isolation(false)]
    fn generate(rng: &mut LabRng, params: &GenerateParams) -> (t: List) {
        let ghost rng0 = *rng;
        let mut l = List::Nil;
        let mut i: usize = 0;
        while i < params.size
            invariant
                i <= params.size,
                ({
                    let (l0, r0) = gen_plain(i as nat, *params, rng0);
                    l == l0 && *rng == r0
                }),
            decreases params.size - i,
        {
            let bound = elem_bound_exec(params.size);
            let v = rng.gen_mod(bound);
            l = List::Cons(v, Box::new(l));
            i = i + 1;
        }
        l
    }
}

impl Edit<List, u64> for VecMax {
    open spec fn edit_init_spec(rng: LabRng, params: GenerateParams) -> (u64, LabRng) {
        (0u64, rng)
    }

    fn edit_init(rng: &mut LabRng, params: &GenerateParams) -> (s: u64) {
        0
    }

    open spec fn edit_spec(pre_edit: List, st: u64, rng: LabRng, params: GenerateParams) -> (
        List,
        u64,
        LabRng,
    ) {
        (pre_edit, wrap_inc(st), rng)
    }

    fn edit(pre_edit: List, st: u64, rng: &mut LabRng, params: &GenerateParams) -> (r: (
        List,
        u64,
    )) {
        let next = if st == u64::MAX {
            0
        } else {
            st + 1
        };
        (pre_edit, next)
    }
}

impl Compute<List, u64> for VecMax {
    open spec fn compute_spec(inp: List) -> Option<u64> {
        Some(max_elem(inp))
    }

    fn compute(inp: &List) -> (r: Result<u64, LabError>) {
        Ok(max_elem_exec(inp))
    }

    open spec fn output_eq_spec(a: u64, b: u64) -> bool {
        a == b
    }

    fn output_eq(a: &u64, b: &u64) -> (r: bool) {
        *a == *b
    }

    proof fn output_eq_refl(a: u64) {
    }

    open spec fn reflect_input_ok(inp: List, v: Val) -> bool {
        val_is_elems(v, inp)
    }

    fn reflect_input(inp: &List) -> (v: Val) {
        val_of_list(inp)
    }

    open spec fn reflect_output_ok(out: u64, v: Val) -> bool {
        v == Val::Nat(out)
    }

    fn reflect_output(out: &u64) -> (v: Val) {
        Val::Nat(*out)
    }
}

/// A simple scenario to exercise dirtying and cleaning: its input is a
/// single mutable cell holding a small integer, its editor rewrites the
/// cell through the cycle two, minus two, three, and its computation maps
/// the cell's square through a cap of one hundred.
#[derive(Clone, Debug)]
pub struct ExampleCleanDirty {}

/// The capped square that `ExampleCleanDirty` computes.
pub open spec fn capped_square(x: i32) -> i32 {
    if x * x < 100 {
        (x * x) as i32
    } else {
        100
    }
}

impl Generate<i32> for ExampleCleanDirty {
    open spec fn generate_spec(rng: LabRng, params: GenerateParams) -> (i32, LabRng) {
        (2i32, rng)
    }

    fn generate(rng: &mut LabRng, params: &GenerateParams) -> (t: i32) {
        2
    }
}

impl Edit<i32, u64> for ExampleCleanDirty {
    open spec fn edit_init_spec(rng: LabRng, params: GenerateParams) -> (u64, LabRng) {
        (0u64, rng)
    }

    fn edit_init(rng: &mut LabRng, params: &GenerateParams) -> (s: u64) {
        0
    }

    open spec fn edit_spec(pre_edit: i32, st: u64, rng: LabRng, params: GenerateParams) -> (
        i32,
        u64,
        LabRng,
    ) {
        if st == 0 {
            (-2i32, 1u64, rng)
        } else if st == 1 {
            (3i32, 2u64, rng)
        } else {
            (2i32, 0u64, rng)
        }
    }

    fn edit(pre_edit: i32, st: u64, rng: &mut LabRng, params: &GenerateParams) -> (r: (
        i32,
        u64,
    )) {
        if st == 0 {
            (-2i32, 1u64)
        } else if st == 1 {
            (3i32, 2u64)
        } else {
            (2i32, 0u64)
        }
    }
}

impl Compute<i32, i32> for ExampleCleanDirty {
    open spec fn compute_spec(inp: i32) -> Option<i32> {
        Some(capped_square(inp))
    }

    fn compute(inp: &i32) -> (r: Result<i32, LabError>) {
        proof {
            assert((*inp as int) * (*inp as int) < 0x8000_0000_0000_0000) by (nonlinear_arith)
                requires
                    -0x8000_0000 <= *inp <= 0x7FFF_FFFF,
            ;
            assert((*inp as int) * (*inp as int) >= 0) by (nonlinear_arith);
        }
        let sq: i64 = (*inp as i64) * (*inp as i64);
        if sq < 100 {
            Ok(sq as i32)
        } else {
            Ok(100)
        }
    }

    open spec fn output_eq_spec(a: i32, b: i32) -> bool {
        a == b
    }

    fn output_eq(a: &i32, b: &i32) -> (r: bool) {
        *a == *b
    }

    proof fn output_eq_refl(a: i32) {
    }

    open spec fn reflect_input_ok(inp: i32, v: Val) -> bool {
        v == Val::Int(inp as i64)
    }

    fn reflect_input(inp: &i32) -> (v: Val) {
        Val::Int(*inp as i64)
    }

    open spec fn reflect_output_ok(out: i32, v: Val) -> bool {
        v == Val::Int(out as i64)
    }

    fn reflect_output(out: &i32) -> (v: Val) {
        Val::Int(*out as i64)
    }
}

/// The fixed six-element named list that the editor below generates: the
/// elements, head first, are ninety-seven, ninety-eight, ninety-nine, zero,
/// one and three, each behind its own checkpoint (numbered innermost
/// first).
pub open spec fn oopsla_initial() -> List {
    List::Cons(
        97,
        Box::new(
            List::Name(
                5,
                Box::new(
                    List::Cons(
                        98,
                        Box::new(
                            List::Name(
                                4,
                                Box::new(
                                    List::Cons(
                                        99,
                                        Box::new(
                                            List::Name(
                                                3,
                                                Box::new(
                                                    List::Cons(
                                                        0,
                                                        Box::new(
                                                            List::Name(
                                                                2,
                                                                Box::new(
                                                                    List::Cons(
                                                                        1,
                                                                        Box::new(
                                                                            List::Name(
                                                                                1,
                                                                                Box::new(
                                                                                    List::Cons(
                                                                                        3,
                                                                                        Box::new(
                                                                                            List::Name(
                                                                                                0,
                                                                                                Box::new(List::Nil),
                                                                                            ),
                                                                                        ),
                                                                                    ),
                                                                                ),
                                                                            ),
                                                                        ),
                                                                    ),
                                                                ),
                                                            ),
                                                        ),
                                                    ),
                                                ),
                                            ),
                                        ),
                                    ),
                                ),
                            ),
                        ),
                    ),
                ),
            ),
        ),
    )
}

/// The list after the single splice: a new element two, behind a fresh
/// checkpoint, inserted before the last element.
pub open spec fn oopsla_edited() -> List {
    List::Cons(
        97,
        Box::new(
            List::Name(
                5,
                Box::new(
                    List::Cons(
                        98,
                        Box::new(
                            List::Name(
                                4,
                                Box::new(
                                    List::Cons(
                                        99,
                                        Box::new(
                                            List::Name(
                                                3,
                                                Box::new(
                                                    List::Cons(
                                                        0,
                                                        Box::new(
                                                            List::Name(
                                                                2,
                                                                Box::new(
                                                                    List::Cons(
                                                                        1,
                                                                        Box::new(
                                                                            List::Name(
                                                                                1,
                                                                                Box::new(
                                                                                    List::Cons(
                                                                                        2,
                                                                                        Box::new(
                                                                                            List::Name(
                                                                                                6,
                                                                                                Box::new(
                                                                                                    List::Cons(
                                                                                                        3,
                                                                                                        Box::new(
                                                                                                            List::Name(
                                                                                                                0,
                                                                                                                Box::new(List::Nil),
                                                                                                            ),
                                                                                                        ),
                                                                                                    ),
                                                                                                ),
                                                                                            ),
                                                                                        ),
                                                                                    ),
                                                                                ),
                                                                            ),
                                                                        ),
                                                                    ),
                                                                ),
                                                            ),
                                                        ),
                                                    ),
                                                ),
                                            ),
                                        ),
                                    ),
                                ),
                            ),
                        ),
                    ),
                ),
            ),
        ),
    )
}

fn build_oopsla_list(with_splice: bool) -> (r: List)
    ensures
        !with_splice ==> r == oopsla_initial(),
        with_splice ==> r == oopsla_edited(),
{
    let mut l = List::Name(0, Box::new(List::Nil));
    l = List::Cons(3, Box::new(l));
    if with_splice {
        l = List::Name(6, Box::new(l));
        l = List::Cons(2, Box::new(l));
    }
    l = List::Name(1, Box::new(l));
    l = List::Cons(1, Box::new(l));
    l = List::Name(2, Box::new(l));
    l = List::Cons(0, Box::new(l));
    l = List::Name(3, Box::new(l));
    l = List::Cons(99, Box::new(l));
    l = List::Name(4, Box::new(l));
    l = List::Cons(98, Box::new(l));
    l = List::Name(5, Box::new(l));
    l = List::Cons(97, Box::new(l));
    l
}

/// An editor that generates the fixed named list above and performs a
/// single splice on its first edit, leaving the list unchanged thereafter.
/// It consumes no randomness.
#[derive(Clone, Debug)]
pub struct EditorOopsla2015Sec2 {}

impl Generate<List> for EditorOopsla2015Sec2 {
    open spec fn generate_spec(rng: LabRng, params: GenerateParams) -> (List, LabRng) {
        (oopsla_initial(), rng)
    }

    fn generate(rng: &mut LabRng, params: &GenerateParams) -> (t: List) {
        build_oopsla_list(false)
    }
}

impl Edit<List, u64> for EditorOopsla2015Sec2 {
    open spec fn edit_init_spec(rng: LabRng, params: GenerateParams) -> (u64, LabRng) {
        (0u64, rng)
    }

    fn edit_init(rng: &mut LabRng, params: &GenerateParams) -> (s: u64) {
        0
    }

    open spec fn edit_spec(pre_edit: List, st: u64, rng: LabRng, params: GenerateParams) -> (
        List,
        u64,
        LabRng,
    ) {
        if st == 0 {
            (oopsla_edited(), 1u64, rng)
        } else {
            (pre_edit, st, rng)
        }
    }

    fn edit(pre_edit: List, st: u64, rng: &mut LabRng, params: &GenerateParams) -> (r: (
        List,
        u64,
    )) {
        if st == 0 {
            (build_oopsla_list(true), 1)
        } else {
            (pre_edit, st)
        }
    }
}

/// The element-wise square of the list, stopped after `demand` produced
/// elements: the part of the lazy map's output that the demand forces.
pub open spec fn map_square_demand(l: List, demand: nat) -> List
    decreases l,
{
    match l {
        List::Nil => List::Nil,
        List::Cons(v, t) => if demand == 0 {
            List::Nil
        } else {
            List::Cons(square_u64(v), Box::new(map_square_demand(*t, (demand - 1) as nat)))
        },
        List::Name(n, t) => if demand == 0 {
            List::Nil
        } else {
            List::Name(n, Box::new(map_square_demand(*t, demand)))
        },
    }
}

fn square_list_demand(l: &List, demand: usize) -> (r: List)
    ensures
        r == map_square_demand(*l, demand as nat),
    decreases *l,
{
    match l {
        List::Nil => List::Nil,
        List::Cons(v, t) => {
            if demand == 0 {
                List::Nil
            } else {
                List::Cons(square_exec(*v), Box::new(square_list_demand(t, demand - 1)))
            }
        },
        List::Name(n, t) => {
            if demand == 0 {
                List::Nil
            } else {
                List::Name(*n, Box::new(square_list_demand(t, demand)))
            }
        },
    }
}

/// The computation "square every element", evaluated lazily: only the
/// demanded prefix of the output is produced.
#[derive(Clone, Debug)]
pub struct LazyMap {}

impl crate::labdef::ComputeDemand<List, List> for LazyMap {
    open spec fn compute_demand_spec(inp: List, demand: usize) -> Option<List> {
        Some(map_square_demand(inp, demand as nat))
    }

    fn compute(inp: &List, demand: usize) -> (r: Result<List, LabError>) {
        Ok(square_list_demand(inp, demand))
    }

    open spec fn output_eq_spec(a: List, b: List) -> bool {
        a == b
    }

    fn output_eq(a: &List, b: &List) -> (r: bool) {
        list_eq(a, b)
    }

    proof fn output_eq_refl(a: List) {
    }

    open spec fn reflect_input_ok(inp: List, v: Val) -> bool {
        val_is_elems(v, inp)
    }

    fn reflect_input(inp: &List) -> (v: Val) {
        val_of_list(inp)
    }

    open spec fn reflect_output_ok(out: List, v: Val) -> bool {
        val_is_elems(v, out)
    }

    fn reflect_output(out: &List) -> (v: Val) {
        val_of_list(out)
    }
}

/// When the demand strictly exceeds the element count, the lazy map agrees
/// with the eager one.  (Strictly: a demand equal to the element count
/// still truncates checkpoints standing after the last demanded element.)
pub proof fn lemma_lazy_map_agrees_when_demanded(l: List, demand: nat)
    requires
        elems(l).len() < demand,
    ensures
        map_square_demand(l, demand) == map_square(l),
    decreases l,
{
    match l {
        List::Nil => {},
        List::Cons(v, t) => {
            assert(elems(l) =~= seq![v] + elems(*t));
            assert(elems(l).len() == 1 + elems(*t).len());
            lemma_lazy_map_agrees_when_demanded(*t, (demand - 1) as nat);
        },
        List::Name(n, t) => {
            assert(elems(l) =~= elems(*t));
            lemma_lazy_map_agrees_when_demanded(*t, demand);
        },
    }
}


/// The multiples-of-three filter, stopped after `demand` produced
/// elements: the part of the lazy filter's output that the demand forces.
pub open spec fn filter_div3_demand(l: List, demand: nat) -> List
    decreases l,
{
    match l {
        List::Nil => List::Nil,
        List::Cons(v, t) => if demand == 0 {
            List::Nil
        } else if v % 3 == 0 {
            List::Cons(v, Box::new(filter_div3_demand(*t, (demand - 1) as nat)))
        } else {
            filter_div3_demand(*t, demand)
        },
        List::Name(n, t) => if demand == 0 {
            List::Nil
        } else {
            List::Name(n, Box::new(filter_div3_demand(*t, demand)))
        },
    }
}

fn filter_div3_demand_exec(l: &List, demand: usize) -> (r: List)
    ensures
        r == filter_div3_demand(*l, demand as nat),
    decreases *l,
{
    match l {
        List::Nil => List::Nil,
        List::Cons(v, t) => {
            if demand == 0 {
                List::Nil
            } else if *v % 3 == 0 {
                List::Cons(*v, Box::new(filter_div3_demand_exec(t, demand - 1)))
            } else {
                filter_div3_demand_exec(t, demand)
            }
        },
        List::Name(n, t) => {
            if demand == 0 {
                List::Nil
            } else {
                List::Name(*n, Box::new(filter_div3_demand_exec(t, demand)))
            }
        },
    }
}

/// The computation "keep the elements divisible by three", evaluated
/// lazily: only the demanded prefix of the output is produced.
#[derive(Clone, Debug)]
pub struct LazyFilter {}

impl crate::labdef::ComputeDemand<List, List> for LazyFilter {
    open spec fn compute_demand_spec(inp: List, demand: usize) -> Option<List> {
        Some(filter_div3_demand(inp, demand as nat))
    }

    fn compute(inp: &List, demand: usize) -> (r: Result<List, LabError>) {
        Ok(filter_div3_demand_exec(inp, demand))
    }

    open spec fn output_eq_spec(a: List, b: List) -> bool {
        a == b
    }

    fn output_eq(a: &List, b: &List) -> (r: bool) {
        list_eq(a, b)
    }

    proof fn output_eq_refl(a: List) {
    }

    open spec fn reflect_input_ok(inp: List, v: Val) -> bool {
        val_is_elems(v, inp)
    }

    fn reflect_input(inp: &List) -> (v: Val) {
        val_of_list(inp)
    }

    open spec fn reflect_output_ok(out: List, v: Val) -> bool {
        val_is_elems(v, out)
    }

    fn reflect_output(out: &List) -> (v: Val) {
        val_of_list(out)
    }
}

/// Whether a sequence of elements is in non-decreasing order.
pub open spec fn sorted_seq(s: Seq<u64>) -> bool {
    forall|i: int, j: int| 0 <= i < j < s.len() ==> s[i] <= s[j]
}

/// `v` inserted before the first larger element; checkpoints are dropped,
/// as sorting does not preserve the positions they name.
pub open spec fn insert_elem(v: u64, l: List) -> List
    decreases l,
{
    match l {
        List::Nil => List::Cons(v, Box::new(List::Nil)),
        List::Cons(x, t) => if v <= x {
            List::Cons(v, Box::new(l))
        } else {
            List::Cons(x, Box::new(insert_elem(v, *t)))
        },
        List::Name(_, t) => insert_elem(v, *t),
    }
}

/// The list sorted by repeated insertion, checkpoints dropped.
pub open spec fn sort_list(l: List) -> List
    decreases l,
{
    match l {
        List::Nil => List::Nil,
        List::Cons(v, t) => insert_elem(v, sort_list(*t)),
        List::Name(_, t) => sort_list(*t),
    }
}

fn insert_elem_exec(v: u64, l: List) -> (r: List)
    ensures
        r == insert_elem(v, l),
    decreases l,
{
    match l {
        List::Nil => List::Cons(v, Box::new(List::Nil)),
        List::Cons(x, t) => {
            if v <= x {
                List::Cons(v, Box::new(List::Cons(x, t)))
            } else {
                List::Cons(x, Box::new(insert_elem_exec(v, *t)))
            }
        },
        List::Name(_, t) => insert_elem_exec(v, *t),
    }
}

fn sort_list_exec(l: &List) -> (r: List)
    ensures
        r == sort_list(*l),
    decreases *l,
{
    match l {
        List::Nil => List::Nil,
        List::Cons(v, t) => insert_elem_exec(*v, sort_list_exec(t)),
        List::Name(_, t) => sort_list_exec(t),
    }
}

/// Inserting adds exactly the inserted element to the list's element
/// multiset.
proof fn lemma_elems_insert(v: u64, l: List)
    ensures
        elems(insert_elem(v, l)).to_multiset() =~= elems(l).to_multiset().insert(v),
    decreases l,
{
    broadcast use vstd::seq_lib::group_to_multiset_ensures;
    broadcast use vstd::multiset::group_multiset_axioms;

    match l {
        List::Nil => {
            assert(elems(insert_elem(v, l)) =~= Seq::<u64>::empty().push(v));
        },
        List::Cons(x, t) => {
            if v <= x {
                assert(elems(insert_elem(v, l)) =~= seq![v] + elems(l));
                vstd::seq_lib::lemma_multiset_commutative(seq![v], elems(l));
                assert(seq![v] =~= Seq::<u64>::empty().push(v));
            } else {
                lemma_elems_insert(v, *t);
                assert(elems(insert_elem(v, l)) =~= seq![x] + elems(insert_elem(v, *t)));
                vstd::seq_lib::lemma_multiset_commutative(seq![x], elems(insert_elem(v, *t)));
                vstd::seq_lib::lemma_multiset_commutative(seq![x], elems(*t));
                assert(elems(l) =~= seq![x] + elems(*t));
            }
        },
        List::Name(_, t) => {
            lemma_elems_insert(v, *t);
        },
    }
}

/// Inserting into a sorted list keeps it sorted.
proof fn lemma_sorted_insert(v: u64, l: List)
    requires
        sorted_seq(elems(l)),
    ensures
        sorted_seq(elems(insert_elem(v, l))),
    decreases l,
{
    broadcast use vstd::seq_lib::group_to_multiset_ensures;
    broadcast use vstd::multiset::group_multiset_axioms;

    match l {
        List::Nil => {},
        List::Cons(x, t) => {
            let s = elems(l);
            let st = elems(*t);
            assert(s =~= seq![x] + st);
            if v <= x {
                let r = elems(insert_elem(v, l));
                assert(r =~= seq![v] + s);
                assert forall|i: int, j: int| 0 <= i < j < r.len() implies r[i] <= r[j] by {
                    if i > 0 {
                        assert(r[i] == s[i - 1] && r[j] == s[j - 1]);
                    } else {
                        assert(r[j] == s[j - 1]);
                        if j > 1 {
                            assert(s[0] <= s[j - 1]);
                        }
                    }
                }
            } else {
                assert(sorted_seq(st)) by {
                    assert(forall|i: int| 0 <= i < st.len() ==> st[i] == s[i + 1]);
                }
                lemma_sorted_insert(v, *t);
                lemma_elems_insert(v, *t);
                let si = elems(insert_elem(v, *t));
                let r = elems(insert_elem(v, l));
                assert(r =~= seq![x] + si);
                assert forall|k: int| 0 <= k < si.len() implies x <= si[k] by {
                    assert(si.contains(si[k]));
                    assert(si.to_multiset().count(si[k]) > 0);
                    if si[k] == v {
                    } else {
                        assert(st.to_multiset().count(si[k]) > 0);
                        assert(st.contains(si[k]));
                        let w = choose|w: int| 0 <= w < st.len() && st[w] == si[k];
                        assert(s[0] <= s[w + 1]);
                    }
                }
                assert forall|i: int, j: int| 0 <= i < j < r.len() implies r[i] <= r[j] by {
                    if i > 0 {
                        assert(r[i] == si[i - 1] && r[j] == si[j - 1]);
                    } else {
                        assert(x <= si[j - 1]);
                    }
                }
            }
        },
        List::Name(_, t) => {
            assert(elems(l) =~= elems(*t));
            lemma_sorted_insert(v, *t);
        },
    }
}

/// Sorting permutes the elements - the sorted list carries exactly the
/// input's element multiset - and leaves them in non-decreasing order.
pub proof fn lemma_sort_list(l: List)
    ensures
        elems(sort_list(l)).to_multiset() =~= elems(l).to_multiset(),
        sorted_seq(elems(sort_list(l))),
    decreases l,
{
    broadcast use vstd::seq_lib::group_to_multiset_ensures;
    broadcast use vstd::multiset::group_multiset_axioms;

    match l {
        List::Nil => {},
        List::Cons(v, t) => {
            lemma_sort_list(*t);
            lemma_elems_insert(v, sort_list(*t));
            lemma_sorted_insert(v, sort_list(*t));
            assert(elems(l) =~= seq![v] + elems(*t));
            vstd::seq_lib::lemma_multiset_commutative(seq![v], elems(*t));
            assert(seq![v] =~= Seq::<u64>::empty().push(v));
        },
        List::Name(_, t) => {
            lemma_sort_list(*t);
        },
    }
}

/// The computation "sort the elements", evaluated eagerly.
#[derive(Clone, Debug)]
pub struct EagerMergesort3 {}

impl Compute<List, List> for EagerMergesort3 {
    open spec fn compute_spec(inp: List) -> Option<List> {
        Some(sort_list(inp))
    }

    fn compute(inp: &List) -> (r: Result<List, LabError>) {
        Ok(sort_list_exec(inp))
    }

    open spec fn output_eq_spec(a: List, b: List) -> bool {
        a == b
    }

    fn output_eq(a: &List, b: &List) -> (r: bool) {
        list_eq(a, b)
    }

    proof fn output_eq_refl(a: List) {
    }

    open spec fn reflect_input_ok(inp: List, v: Val) -> bool {
        val_is_elems(v, inp)
    }

    fn reflect_input(inp: &List) -> (v: Val) {
        val_of_list(inp)
    }

    open spec fn reflect_output_ok(out: List, v: Val) -> bool {
        val_is_elems(v, out)
    }

    fn reflect_output(out: &List) -> (v: Val) {
        val_of_list(out)
    }
}

/// The sum of a list's elements, wrapped to the machine word.
pub open spec fn sum_elems(l: List) -> u64
    decreases l,
{
    match l {
        List::Nil => 0,
        List::Cons(v, t) => (((v + sum_elems(*t)) as int) % 0x1_0000_0000_0000_0000) as u64,
        List::Name(_, t) => sum_elems(*t),
    }
}

fn sum_elems_exec(l: &List) -> (r: u64)
    ensures
        r == sum_elems(*l),
    decreases *l,
{
    match l {
        List::Nil => 0,
        List::Cons(v, t) => {
            let rest = sum_elems_exec(t);
            (((*v as u128) + (rest as u128)) % 0x1_0000_0000_0000_0000u128) as u64
        },
        List::Name(_, t) => sum_elems_exec(t),
    }
}

/// The computation "fold the list with the maximum monoid".
#[derive(Clone, Debug)]
pub struct ListTreeMax {}

impl Compute<List, u64> for ListTreeMax {
    open spec fn compute_spec(inp: List) -> Option<u64> {
        Some(max_elem(inp))
    }

    fn compute(inp: &List) -> (r: Result<u64, LabError>) {
        Ok(max_elem_exec(inp))
    }

    open spec fn output_eq_spec(a: u64, b: u64) -> bool {
        a == b
    }

    fn output_eq(a: &u64, b: &u64) -> (r: bool) {
        *a == *b
    }

    proof fn output_eq_refl(a: u64) {
    }

    open spec fn reflect_input_ok(inp: List, v: Val) -> bool {
        val_is_elems(v, inp)
    }

    fn reflect_input(inp: &List) -> (v: Val) {
        val_of_list(inp)
    }

    open spec fn reflect_output_ok(out: u64, v: Val) -> bool {
        v == Val::Nat(out)
    }

    fn reflect_output(out: &u64) -> (v: Val) {
        Val::Nat(*out)
    }
}

/// The computation "fold the list with the sum monoid".
#[derive(Clone, Debug)]
pub struct ListTreeSum {}

impl Compute<List, u64> for ListTreeSum {
    open spec fn compute_spec(inp: List) -> Option<u64> {
        Some(sum_elems(inp))
    }

    fn compute(inp: &List) -> (r: Result<u64, LabError>) {
        Ok(sum_elems_exec(inp))
    }

    open spec fn output_eq_spec(a: u64, b: u64) -> bool {
        a == b
    }

    fn output_eq(a: &u64, b: &u64) -> (r: bool) {
        *a == *b
    }

    proof fn output_eq_refl(a: u64) {
    }

    open spec fn reflect_input_ok(inp: List, v: Val) -> bool {
        val_is_elems(v, inp)
    }

    fn reflect_input(inp: &List) -> (v: Val) {
        val_of_list(inp)
    }

    open spec fn reflect_output_ok(out: u64, v: Val) -> bool {
        v == Val::Nat(out)
    }

    fn reflect_output(out: &u64) -> (v: Val) {
        Val::Nat(*out)
    }
}

/// List filter: a declared stub, not yet implemented.
pub fn list_filter(inp: &List) -> (r: Result<List, LabError>)
    ensures
        r == Err::<List, LabError>(LabError::UnimplementedScenario),
{
    Err(LabError::UnimplementedScenario)
}

/// List split: a declared stub, not yet implemented.
pub fn list_split(inp: &List) -> (r: Result<(List, List), LabError>)
    ensures
        r == Err::<(List, List), LabError>(LabError::UnimplementedScenario),
{
    Err(LabError::UnimplementedScenario)
}

/// List reverse: a declared stub, not yet implemented.
pub fn list_reverse(inp: &List) -> (r: Result<List, LabError>)
    ensures
        r == Err::<List, LabError>(LabError::UnimplementedScenario),
{
    Err(LabError::UnimplementedScenario)
}

/// Runs the stub `list_filter`: a scenario whose computation is declared
/// but not implemented.
#[derive(Clone, Debug)]
pub struct RunFilter {}

impl Compute<List, List> for RunFilter {
    open spec fn compute_spec(inp: List) -> Option<List> {
        None
    }

    fn compute(inp: &List) -> (r: Result<List, LabError>) {
        list_filter(inp)
    }

    open spec fn output_eq_spec(a: List, b: List) -> bool {
        a == b
    }

    fn output_eq(a: &List, b: &List) -> (r: bool) {
        list_eq(a, b)
    }

    proof fn output_eq_refl(a: List) {
    }

    open spec fn reflect_input_ok(inp: List, v: Val) -> bool {
        val_is_elems(v, inp)
    }

    fn reflect_input(inp: &List) -> (v: Val) {
        val_of_list(inp)
    }

    open spec fn reflect_output_ok(out: List, v: Val) -> bool {
        val_is_elems(v, out)
    }

    fn reflect_output(out: &List) -> (v: Val) {
        val_of_list(out)
    }
}

/// Runs the stub `list_split`.
#[derive(Clone, Debug)]
pub struct RunSplit {}

impl Compute<List, (List, List)> for RunSplit {
    open spec fn compute_spec(inp: List) -> Option<(List, List)> {
        None
    }

    fn compute(inp: &List) -> (r: Result<(List, List), LabError>) {
        list_split(inp)
    }

    open spec fn output_eq_spec(a: (List, List), b: (List, List)) -> bool {
        a == b
    }

    fn output_eq(a: &(List, List), b: &(List, List)) -> (r: bool) {
        list_eq(&a.0, &b.0) && list_eq(&a.1, &b.1)
    }

    proof fn output_eq_refl(a: (List, List)) {
    }

    open spec fn reflect_input_ok(inp: List, v: Val) -> bool {
        val_is_elems(v, inp)
    }

    fn reflect_input(inp: &List) -> (v: Val) {
        val_of_list(inp)
    }

    open spec fn reflect_output_ok(out: (List, List), v: Val) -> bool {
        match v {
            Val::List(items) => items@.len() == 2 && val_is_elems(items@[0], out.0)
                && val_is_elems(items@[1], out.1),
            _ => false,
        }
    }

    fn reflect_output(out: &(List, List)) -> (v: Val) {
        Val::List(vec![val_of_list(&out.0), val_of_list(&out.1)])
    }
}

/// Runs the stub `list_reverse`.
#[derive(Clone, Debug)]
pub struct RunReverse {}

impl Compute<List, List> for RunReverse {
    open spec fn compute_spec(inp: List) -> Option<List> {
        None
    }

    fn compute(inp: &List) -> (r: Result<List, LabError>) {
        list_reverse(inp)
    }

    open spec fn output_eq_spec(a: List, b: List) -> bool {
        a == b
    }

    fn output_eq(a: &List, b: &List) -> (r: bool) {
        list_eq(a, b)
    }

    proof fn output_eq_refl(a: List) {
    }

    open spec fn reflect_input_ok(inp: List, v: Val) -> bool {
        val_is_elems(v, inp)
    }

    fn reflect_input(inp: &List) -> (v: Val) {
        val_of_list(inp)
    }

    open spec fn reflect_output_ok(out: List, v: Val) -> bool {
        val_is_elems(v, out)
    }

    fn reflect_output(out: &List) -> (v: Val) {
        val_of_list(out)
    }
}


/// The list truncated after `demand` produced elements: the part of a lazy
/// output that the demand forces.
pub open spec fn list_take(l: List, demand: nat) -> List
    decreases l,
{
    match l {
        List::Nil => List::Nil,
        List::Cons(v, t) => if demand == 0 {
            List::Nil
        } else {
            List::Cons(v, Box::new(list_take(*t, (demand - 1) as nat)))
        },
        List::Name(n, t) => if demand == 0 {
            List::Nil
        } else {
            List::Name(n, Box::new(list_take(*t, demand)))
        },
    }
}

fn list_take_exec(l: &List, demand: usize) -> (r: List)
    ensures
        r == list_take(*l, demand as nat),
    decreases *l,
{
    match l {
        List::Nil => List::Nil,
        List::Cons(v, t) => {
            if demand == 0 {
                List::Nil
            } else {
                List::Cons(*v, Box::new(list_take_exec(t, demand - 1)))
            }
        },
        List::Name(n, t) => {
            if demand == 0 {
                List::Nil
            } else {
                List::Name(*n, Box::new(list_take_exec(t, demand)))
            }
        },
    }
}

/// A second rendering of the eager element-wise square; it computes the
/// same function as `EagerMap`.
#[derive(Clone, Debug)]
pub struct EagerMap2 {}

impl Compute<List, List> for EagerMap2 {
    open spec fn compute_spec(inp: List) -> Option<List> {
        Some(map_square(inp))
    }

    fn compute(inp: &List) -> (r: Result<List, LabError>) {
        Ok(square_list(inp))
    }

    open spec fn output_eq_spec(a: List, b: List) -> bool {
        a == b
    }

    fn output_eq(a: &List, b: &List) -> (r: bool) {
        list_eq(a, b)
    }

    proof fn output_eq_refl(a: List) {
    }

    open spec fn reflect_input_ok(inp: List, v: Val) -> bool {
        val_is_elems(v, inp)
    }

    fn reflect_input(inp: &List) -> (v: Val) {
        val_of_list(inp)
    }

    open spec fn reflect_output_ok(out: List, v: Val) -> bool {
        val_is_elems(v, out)
    }

    fn reflect_output(out: &List) -> (v: Val) {
        val_of_list(out)
    }
}

/// The archivist of the small named-list example: it maps the input list
/// to the list of element squares.
#[derive(Clone, Debug)]
pub struct Archivist {}

impl Compute<List, List> for Archivist {
    open spec fn compute_spec(inp: List) -> Option<List> {
        Some(map_square(inp))
    }

    fn compute(inp: &List) -> (r: Result<List, LabError>) {
        Ok(square_list(inp))
    }

    open spec fn output_eq_spec(a: List, b: List) -> bool {
        a == b
    }

    fn output_eq(a: &List, b: &List) -> (r: bool) {
        list_eq(a, b)
    }

    proof fn output_eq_refl(a: List) {
    }

    open spec fn reflect_input_ok(inp: List, v: Val) -> bool {
        val_is_elems(v, inp)
    }

    fn reflect_input(inp: &List) -> (v: Val) {
        val_of_list(inp)
    }

    open spec fn reflect_output_ok(out: List, v: Val) -> bool {
        val_is_elems(v, out)
    }

    fn reflect_output(out: &List) -> (v: Val) {
        val_of_list(out)
    }
}

/// The first rendering of the eager sort; it computes the same sorted
/// list as `EagerMergesort3`.
#[derive(Clone, Debug)]
pub struct EagerMergesort1 {}

impl Compute<List, List> for EagerMergesort1 {
    open spec fn compute_spec(inp: List) -> Option<List> {
        Some(sort_list(inp))
    }

    fn compute(inp: &List) -> (r: Result<List, LabError>) {
        Ok(sort_list_exec(inp))
    }

    open spec fn output_eq_spec(a: List, b: List) -> bool {
        a == b
    }

    fn output_eq(a: &List, b: &List) -> (r: bool) {
        list_eq(a, b)
    }

    proof fn output_eq_refl(a: List) {
    }

    open spec fn reflect_input_ok(inp: List, v: Val) -> bool {
        val_is_elems(v, inp)
    }

    fn reflect_input(inp: &List) -> (v: Val) {
        val_of_list(inp)
    }

    open spec fn reflect_output_ok(out: List, v: Val) -> bool {
        val_is_elems(v, out)
    }

    fn reflect_output(out: &List) -> (v: Val) {
        val_of_list(out)
    }
}

/// The second rendering of the eager sort; it computes the same sorted
/// list as `EagerMergesort3`.
#[derive(Clone, Debug)]
pub struct EagerMergesort2 {}

impl Compute<List, List> for EagerMergesort2 {
    open spec fn compute_spec(inp: List) -> Option<List> {
        Some(sort_list(inp))
    }

    fn compute(inp: &List) -> (r: Result<List, LabError>) {
        Ok(sort_list_exec(inp))
    }

    open spec fn output_eq_spec(a: List, b: List) -> bool {
        a == b
    }

    fn output_eq(a: &List, b: &List) -> (r: bool) {
        list_eq(a, b)
    }

    proof fn output_eq_refl(a: List) {
    }

    open spec fn reflect_input_ok(inp: List, v: Val) -> bool {
        val_is_elems(v, inp)
    }

    fn reflect_input(inp: &List) -> (v: Val) {
        val_of_list(inp)
    }

    open spec fn reflect_output_ok(out: List, v: Val) -> bool {
        val_is_elems(v, out)
    }

    fn reflect_output(out: &List) -> (v: Val) {
        val_of_list(out)
    }
}

/// The first rendering of the lazy sort: the demanded prefix of the
/// sorted list.
#[derive(Clone, Debug)]
pub struct LazyMergesort1 {}

impl crate::labdef::ComputeDemand<List, List> for LazyMergesort1 {
    open spec fn compute_demand_spec(inp: List, demand: usize) -> Option<List> {
        Some(list_take(sort_list(inp), demand as nat))
    }

    fn compute(inp: &List, demand: usize) -> (r: Result<List, LabError>) {
        Ok(list_take_exec(&sort_list_exec(inp), demand))
    }

    open spec fn output_eq_spec(a: List, b: List) -> bool {
        a == b
    }

    fn output_eq(a: &List, b: &List) -> (r: bool) {
        list_eq(a, b)
    }

    proof fn output_eq_refl(a: List) {
    }

    open spec fn reflect_input_ok(inp: List, v: Val) -> bool {
        val_is_elems(v, inp)
    }

    fn reflect_input(inp: &List) -> (v: Val) {
        val_of_list(inp)
    }

    open spec fn reflect_output_ok(out: List, v: Val) -> bool {
        val_is_elems(v, out)
    }

    fn reflect_output(out: &List) -> (v: Val) {
        val_of_list(out)
    }
}

/// The second rendering of the lazy sort: the demanded prefix of the
/// sorted list.
#[derive(Clone, Debug)]
pub struct LazyMergesort2 {}

impl crate::labdef::ComputeDemand<List, List> for LazyMergesort2 {
    open spec fn compute_demand_spec(inp: List, demand: usize) -> Option<List> {
        Some(list_take(sort_list(inp), demand as nat))
    }

    fn compute(inp: &List, demand: usize) -> (r: Result<List, LabError>) {
        Ok(list_take_exec(&sort_list_exec(inp), demand))
    }

    open spec fn output_eq_spec(a: List, b: List) -> bool {
        a == b
    }

    fn output_eq(a: &List, b: &List) -> (r: bool) {
        list_eq(a, b)
    }

    proof fn output_eq_refl(a: List) {
    }

    open spec fn reflect_input_ok(inp: List, v: Val) -> bool {
        val_is_elems(v, inp)
    }

    fn reflect_input(inp: &List) -> (v: Val) {
        val_of_list(inp)
    }

    open spec fn reflect_output_ok(out: List, v: Val) -> bool {
        val_is_elems(v, out)
    }

    fn reflect_output(out: &List) -> (v: Val) {
        val_of_list(out)
    }
}

/// The third rendering of the lazy sort: the demanded prefix of the
/// sorted list.
#[derive(Clone, Debug)]
pub struct LazyMergesort3 {}

impl crate::labdef::ComputeDemand<List, List> for LazyMergesort3 {
    open spec fn compute_demand_spec(inp: List, demand: usize) -> Option<List> {
        Some(list_take(sort_list(inp), demand as nat))
    }

    fn compute(inp: &List, demand: usize) -> (r: Result<List, LabError>) {
        Ok(list_take_exec(&sort_list_exec(inp), demand))
    }

    open spec fn output_eq_spec(a: List, b: List) -> bool {
        a == b
    }

    fn output_eq(a: &List, b: &List) -> (r: bool) {
        list_eq(a, b)
    }

    proof fn output_eq_refl(a: List) {
    }

    open spec fn reflect_input_ok(inp: List, v: Val) -> bool {
        val_is_elems(v, inp)
    }

    fn reflect_input(inp: &List) -> (v: Val) {
        val_of_list(inp)
    }

    open spec fn reflect_output_ok(out: List, v: Val) -> bool {
        val_is_elems(v, out)
    }

    fn reflect_output(out: &List) -> (v: Val) {
        val_of_list(out)
    }
}

/// The fixed three-element named list that the small editor generates:
/// elements zero, one and three, each behind its own checkpoint (numbered
/// innermost first).
pub open spec fn editor_initial() -> List {
    List::Cons(
        0,
        Box::new(
            List::Name(
                2,
                Box::new(
                    List::Cons(
                        1,
                        Box::new(
                            List::Name(
                                1,
                                Box::new(
                                    List::Cons(3, Box::new(List::Name(0, Box::new(List::Nil)))),
                                ),
                            ),
                        ),
                    ),
                ),
            ),
        ),
    )
}

/// The three-element list after the single splice: a new element two,
/// behind a fresh checkpoint, inserted before the last element.
pub open spec fn editor_edited() -> List {
    List::Cons(
        0,
        Box::new(
            List::Name(
                2,
                Box::new(
                    List::Cons(
                        1,
                        Box::new(
                            List::Name(
                                1,
                                Box::new(
                                    List::Cons(
                                        2,
                                        Box::new(
                                            List::Name(
                                                3,
                                                Box::new(
                                                    List::Cons(
                                                        3,
                                                        Box::new(
                                                            List::Name(
                                                                0,
                                                                Box::new(List::Nil),
                                                            ),
                                                        ),
                                                    ),
                                                ),
                                            ),
                                        ),
                                    ),
                                ),
                            ),
                        ),
                    ),
                ),
            ),
        ),
    )
}

fn build_editor_list(with_splice: bool) -> (r: List)
    ensures
        !with_splice ==> r == editor_initial(),
        with_splice ==> r == editor_edited(),
{
    let mut l = List::Name(0, Box::new(List::Nil));
    l = List::Cons(3, Box::new(l));
    if with_splice {
        l = List::Name(3, Box::new(l));
        l = List::Cons(2, Box::new(l));
    }
    l = List::Name(1, Box::new(l));
    l = List::Cons(1, Box::new(l));
    l = List::Name(2, Box::new(l));
    l = List::Cons(0, Box::new(l));
    l
}

/// The small editor shared by the named-list example and the homework
/// scenarios: it generates a fixed three-element named list and performs a
/// single splice on its first edit, leaving the list unchanged thereafter.
/// It consumes no randomness.
#[derive(Clone, Debug)]
pub struct Editor {}

impl Generate<List> for Editor {
    open spec fn generate_spec(rng: LabRng, params: GenerateParams) -> (List, LabRng) {
        (editor_initial(), rng)
    }

    fn generate(rng: &mut LabRng, params: &GenerateParams) -> (t: List) {
        build_editor_list(false)
    }
}

impl Edit<List, u64> for Editor {
    open spec fn edit_init_spec(rng: LabRng, params: GenerateParams) -> (u64, LabRng) {
        (0u64, rng)
    }

    fn edit_init(rng: &mut LabRng, params: &GenerateParams) -> (s: u64) {
        0
    }

    open spec fn edit_spec(pre_edit: List, st: u64, rng: LabRng, params: GenerateParams) -> (
        List,
        u64,
        LabRng,
    ) {
        if st == 0 {
            (editor_edited(), 1u64, rng)
        } else {
            (pre_edit, st, rng)
        }
    }

    fn edit(pre_edit: List, st: u64, rng: &mut LabRng, params: &GenerateParams) -> (r: (
        List,
        u64,
    )) {
        if st == 0 {
            (build_editor_list(true), 1)
        } else {
            (pre_edit, st)
        }
    }
}


/// A binary tree of elements, the output shape of the tree-building
/// computation.
#[derive(Debug)]
pub enum Tree {
    Leaf,
    Bin(Box<Tree>, u64, Box<Tree>),
}

/// The elements of a tree, in order.
pub open spec fn tree_inorder(t: Tree) -> Seq<u64>
    decreases t,
{
    match t {
        Tree::Leaf => Seq::empty(),
        Tree::Bin(l, v, r) => tree_inorder(*l) + seq![v] + tree_inorder(*r),
    }
}

/// The balanced tree holding `s[lo..hi]` in order: the middle element at
/// the root, the halves below it.
pub open spec fn tree_of_range(s: Seq<u64>, lo: int, hi: int) -> Tree
    decreases hi - lo,
{
    if lo >= hi {
        Tree::Leaf
    } else {
        let mid = lo + (hi - lo) / 2;
        Tree::Bin(
            Box::new(tree_of_range(s, lo, mid)),
            s[mid],
            Box::new(tree_of_range(s, mid + 1, hi)),
        )
    }
}

/// The balanced tree of a range holds exactly that range, in order.
pub proof fn lemma_tree_of_range_inorder(s: Seq<u64>, lo: int, hi: int)
    requires
        0 <= lo <= hi <= s.len(),
    ensures
        tree_inorder(tree_of_range(s, lo, hi)) =~= s.subrange(lo, hi),
    decreases hi - lo,
{
    if lo < hi {
        let mid = lo + (hi - lo) / 2;
        lemma_tree_of_range_inorder(s, lo, mid);
        lemma_tree_of_range_inorder(s, mid + 1, hi);
        assert(s.subrange(lo, mid) + seq![s[mid]] + s.subrange(mid + 1, hi) =~= s.subrange(
            lo,
            hi,
        ));
    }
}

fn build_tree(v: &Vec<u64>, lo: usize, hi: usize) -> (r: Tree)
    requires
        lo <= hi <= v@.len(),
    ensures
        r == tree_of_range(v@, lo as int, hi as int),
    decreases hi - lo,
{
    if lo >= hi {
        Tree::Leaf
    } else {
        let mid = lo + (hi - lo) / 2;
        Tree::Bin(
            Box::new(build_tree(v, lo, mid)),
            v[mid],
            Box::new(build_tree(v, mid + 1, hi)),
        )
    }
}

/// The element values of a list as a vector, in list order.
fn elems_vec(l: &List) -> (v: Vec<u64>)
    ensures
        v@ == elems(*l),
{
    let mut items: Vec<u64> = Vec::new();
    let mut cur: &List = l;
    loop
        invariant_except_break
            items@.len() <= elems(*l).len(),
            forall|j: int| 0 <= j < items@.len() ==> items@[j] == elems(*l)[j],
            elems(*cur) =~= elems(*l).subrange(items@.len() as int, elems(*l).len() as int),
        ensures
            items@.len() == elems(*l).len(),
            forall|j: int| 0 <= j < items@.len() ==> items@[j] == elems(*l)[j],
        decreases *cur,
    {
        match cur {
            List::Nil => {
                break ;
            },
            List::Cons(x, t) => {
                proof {
                    assert(elems(*cur)[0] == elems(*l)[items@.len() as int]);
                    assert(elems(**t) =~= elems(*cur).subrange(1, elems(*cur).len() as int));
                    assert(elems(**t) =~= elems(*l).subrange(
                        items@.len() as int + 1,
                        elems(*l).len() as int,
                    ));
                }
                items.push(*x);
                cur = t;
            },
            List::Name(_, t) => {
                cur = t;
            },
        }
    }
    proof {
        assert(items@ =~= elems(*l));
    }
    items
}

/// Structural equality of two trees.
pub fn tree_eq(a: &Tree, b: &Tree) -> (r: bool)
    ensures
        r == (*a == *b),
    decreases *a,
{
    match (a, b) {
        (Tree::Leaf, Tree::Leaf) => true,
        (Tree::Bin(l1, v1, r1), Tree::Bin(l2, v2, r2)) => {
            if *v1 == *v2 {
                if tree_eq(l1, l2) {
                    tree_eq(r1, r2)
                } else {
                    false
                }
            } else {
                false
            }
        },
        _ => false,
    }
}

/// The tree's elements prepended, in order, onto an accumulator list.
fn tree_onto(t: &Tree, acc: List) -> (r: List)
    ensures
        elems(r) == tree_inorder(*t) + elems(acc),
    decreases *t,
{
    match t {
        Tree::Leaf => {
            proof {
                assert(tree_inorder(*t) + elems(acc) =~= elems(acc));
            }
            acc
        },
        Tree::Bin(l, v, r0) => {
            let rest = tree_onto(r0, acc);
            let mid = List::Cons(*v, Box::new(rest));
            let whole = tree_onto(l, mid);
            proof {
                assert(elems(mid) =~= seq![*v] + elems(rest));
                assert(elems(whole) =~= tree_inorder(*t) + elems(acc));
            }
            whole
        },
    }
}

/// What a display snapshot of a tree must hold: exactly the tree's
/// elements, in order.
pub open spec fn val_is_inorder(v: Val, t: Tree) -> bool {
    match v {
        Val::List(items) => items@.len() == tree_inorder(t).len() && forall|j: int|
            0 <= j < items@.len() ==> items@[j] == Val::Nat(tree_inorder(t)[j]),
        _ => false,
    }
}

/// The computation "build a balanced binary tree of the list's elements";
/// the tree holds exactly the input's elements, in order.
#[derive(Clone, Debug)]
pub struct ListTree {}

impl Compute<List, Tree> for ListTree {
    open spec fn compute_spec(inp: List) -> Option<Tree> {
        Some(tree_of_range(elems(inp), 0, elems(inp).len() as int))
    }

    fn compute(inp: &List) -> (r: Result<Tree, LabError>) {
        let v = elems_vec(inp);
        Ok(build_tree(&v, 0, v.len()))
    }

    open spec fn output_eq_spec(a: Tree, b: Tree) -> bool {
        a == b
    }

    fn output_eq(a: &Tree, b: &Tree) -> (r: bool) {
        tree_eq(a, b)
    }

    proof fn output_eq_refl(a: Tree) {
    }

    open spec fn reflect_input_ok(inp: List, v: Val) -> bool {
        val_is_elems(v, inp)
    }

    fn reflect_input(inp: &List) -> (v: Val) {
        val_of_list(inp)
    }

    open spec fn reflect_output_ok(out: Tree, v: Val) -> bool {
        val_is_inorder(v, out)
    }

    fn reflect_output(out: &Tree) -> (v: Val) {
        let lst = tree_onto(out, List::Nil);
        let v = val_of_list(&lst);
        proof {
            assert(elems(lst) =~= tree_inorder(*out));
        }
        v
    }
}

/// The element value of the random-access insertion distribution at
/// counter `i`: the insertion count, marked by adding a million.
pub open spec fn raz_elem(i: u64) -> u64 {
    (((i + 1000000) as int) % 0x1_0000_0000_0000_0000) as u64
}

fn raz_elem_exec(i: u64) -> (r: u64)
    ensures
        r == raz_elem(i),
{
    (((i as u128) + 1000000u128) % 0x1_0000_0000_0000_0000u128) as u64
}

/// The list with one element spliced in before element position `p`
/// (counting elements only; a position past the end appends), the element's
/// rest wrapped in a checkpoint when one is requested.
pub open spec fn splice(l: List, p: nat, v: u64, chk: Option<u64>) -> List
    decreases l,
{
    match l {
        List::Nil => (match chk {
            Some(n) => List::Cons(v, Box::new(List::Name(n, Box::new(List::Nil)))),
            None => List::Cons(v, Box::new(List::Nil)),
        }),
        List::Cons(x, t) => if p == 0 {
            (match chk {
                Some(n) => List::Cons(v, Box::new(List::Name(n, Box::new(l)))),
                None => List::Cons(v, Box::new(l)),
            })
        } else {
            List::Cons(x, Box::new(splice(*t, (p - 1) as nat, v, chk)))
        },
        List::Name(n0, t) => List::Name(n0, Box::new(splice(*t, p, v, chk))),
    }
}

fn splice_exec(l: List, p: u64, v: u64, chk: Option<u64>) -> (r: List)
    ensures
        r == splice(l, p as nat, v, chk),
    decreases l,
{
    match l {
        List::Nil => {
            match chk {
                Some(n) => List::Cons(v, Box::new(List::Name(n, Box::new(List::Nil)))),
                None => List::Cons(v, Box::new(List::Nil)),
            }
        },
        List::Cons(x, t) => {
            if p == 0 {
                let whole = List::Cons(x, t);
                match chk {
                    Some(n) => List::Cons(v, Box::new(List::Name(n, Box::new(whole)))),
                    None => List::Cons(v, Box::new(whole)),
                }
            } else {
                List::Cons(x, Box::new(splice_exec(*t, p - 1, v, chk)))
            }
        },
        List::Name(n0, t) => List::Name(n0, Box::new(splice_exec(*t, p, v, chk))),
    }
}

/// The generated input of the random-access insertion distribution: `n`
/// deterministic counter elements, every `gauge`-th behind a checkpoint.
pub open spec fn gen_raz(n: nat, gp: GenerateParams) -> List
    decreases n,
{
    if n == 0 {
        List::Nil
    } else {
        let rest = gen_raz((n - 1) as nat, gp);
        let i = (n - 1) as u64;
        let tail = if (n - 1) as int % (gp.gauge as int) == 0 {
            List::Name(i, Box::new(rest))
        } else {
            rest
        };
        List::Cons(raz_elem(i), Box::new(tail))
    }
}

/// An input distribution that inserts one element per step at a
/// pseudo-random position, wrapping every `gauge`-th insertion in a
/// checkpoint.  Generation places deterministic counter elements, so only
/// the edits draw randomness; the replaced collection's internal balancing
/// draws are not part of the model.
#[derive(Clone, Debug)]
pub struct UniformInsert {}

impl Generate<List> for UniformInsert {
    open spec fn generate_spec(rng: LabRng, params: GenerateParams) -> (List, LabRng) {
        (gen_raz(params.size as nat, params), rng)
    }

    #[verifier::loop_isolation(false)]
    fn generate(rng: &mut LabRng, params: &GenerateParams) -> (t: List) {
        let mut l = List::Nil;
        let mut i: usize = 0;
        while i < params.size
            invariant
                i <= params.size,
                l == gen_raz(i as nat, *params),
            decreases params.size - i,
        {
            let named = if i % params.gauge == 0 {
                List::Name(i as u64, Box::new(l))
            } else {
                l
            };
            l = List::Cons(raz_elem_exec(i as u64), Box::new(named));
            i = i + 1;
        }
        l
    }
}

impl Edit<List, u64> for UniformInsert {
    open spec fn edit_init_spec(rng: LabRng, params: GenerateParams) -> (u64, LabRng) {
        (params.size as u64, rng)
    }

    fn edit_init(rng: &mut LabRng, params: &GenerateParams) -> (s: u64) {
        params.size as u64
    }

    open spec fn edit_spec(pre_edit: List, st: u64, rng: LabRng, params: GenerateParams) -> (
        List,
        u64,
        LabRng,
    ) {
        let s1 = rng_next_of(rng.state);
        let denom = if st == u64::MAX {
            u64::MAX
        } else {
            (st + 1) as u64
        };
        let p = s1 % denom;
        let chk = if st as int % (params.gauge as int) == 0 {
            Some(st)
        } else {
            None
        };
        (splice(pre_edit, p as nat, raz_elem(st), chk), wrap_inc(st), LabRng { state: s1 })
    }

    fn edit(pre_edit: List, st: u64, rng: &mut LabRng, params: &GenerateParams) -> (r: (
        List,
        u64,
    )) {
        let denom = if st == u64::MAX {
            u64::MAX
        } else {
            st + 1
        };
        let p = rng.gen_mod(denom);
        let chk: Option<u64> = if st % (params.gauge as u64) == 0 {
            Some(st)
        } else {
            None
        };
        let next = if st == u64::MAX {
            0
        } else {
            st + 1
        };
        (splice_exec(pre_edit, p, raz_elem_exec(st), chk), next)
    }
}

/// The computation "fold the random-access sequence with the maximum
/// monoid" (zero for an empty one).
#[derive(Clone, Debug)]
pub struct RazMax {}

impl Compute<List, u64> for RazMax {
    open spec fn compute_spec(inp: List) -> Option<u64> {
        Some(max_elem(inp))
    }

    fn compute(inp: &List) -> (r: Result<u64, LabError>) {
        Ok(max_elem_exec(inp))
    }

    open spec fn output_eq_spec(a: u64, b: u64) -> bool {
        a == b
    }

    fn output_eq(a: &u64, b: &u64) -> (r: bool) {
        *a == *b
    }

    proof fn output_eq_refl(a: u64) {
    }

    open spec fn reflect_input_ok(inp: List, v: Val) -> bool {
        val_is_elems(v, inp)
    }

    fn reflect_input(inp: &List) -> (v: Val) {
        val_of_list(inp)
    }

    open spec fn reflect_output_ok(out: u64, v: Val) -> bool {
        v == Val::Nat(out)
    }

    fn reflect_output(out: &u64) -> (v: Val) {
        Val::Nat(*out)
    }
}

/// An element doubled, wrapped to the machine word.
pub open spec fn double_u64(v: u64) -> u64 {
    (((2 * v) as int) % 0x1_0000_0000_0000_0000) as u64
}

/// The element-wise double of a list, checkpoints kept in place.
pub open spec fn map_double(l: List) -> List
    decreases l,
{
    match l {
        List::Nil => List::Nil,
        List::Cons(v, t) => List::Cons(double_u64(v), Box::new(map_double(*t))),
        List::Name(n, t) => List::Name(n, Box::new(map_double(*t))),
    }
}

fn double_list(l: &List) -> (r: List)
    ensures
        r == map_double(*l),
    decreases *l,
{
    match l {
        List::Nil => List::Nil,
        List::Cons(v, t) => {
            let w = (((2u128) * (*v as u128)) % 0x1_0000_0000_0000_0000u128) as u64;
            List::Cons(w, Box::new(double_list(t)))
        },
        List::Name(n, t) => List::Name(*n, Box::new(double_list(t))),
    }
}

/// The computation "double every element", over the random-access
/// sequence.
#[derive(Clone, Debug)]
pub struct RazDouble {}

impl Compute<List, List> for RazDouble {
    open spec fn compute_spec(inp: List) -> Option<List> {
        Some(map_double(inp))
    }

    fn compute(inp: &List) -> (r: Result<List, LabError>) {
        Ok(double_list(inp))
    }

    open spec fn output_eq_spec(a: List, b: List) -> bool {
        a == b
    }

    fn output_eq(a: &List, b: &List) -> (r: bool) {
        list_eq(a, b)
    }

    proof fn output_eq_refl(a: List) {
    }

    open spec fn reflect_input_ok(inp: List, v: Val) -> bool {
        val_is_elems(v, inp)
    }

    fn reflect_input(inp: &List) -> (v: Val) {
        val_of_list(inp)
    }

    open spec fn reflect_output_ok(out: List, v: Val) -> bool {
        val_is_elems(v, out)
    }

    fn reflect_output(out: &List) -> (v: Val) {
        val_of_list(out)
    }
}

/// How many of the first `n` element indices fall on a checkpoint: one for
/// every index divisible by the gauge.
pub open spec fn expected_checkpoints(n: nat, gauge: usize) -> nat
    decreases n,
{
    if n == 0 {
        0
    } else {
        expected_checkpoints((n - 1) as nat, gauge) + (if (n - 1) as int % (gauge as int) == 0 {
            1nat
        } else {
            0nat
        })
    }
}

/// The generated input holds exactly one checkpoint per element index
/// divisible by the gauge.
pub proof fn lemma_gen_list_checkpoints(n: nat, gp: GenerateParams, rng: LabRng)
    requires
        gp.wf(),
    ensures
        checkpoint_count(gen_list(n, gp, rng).0) == expected_checkpoints(n, gp.gauge),
    decreases n,
{
    if n > 0 {
        lemma_gen_list_checkpoints((n - 1) as nat, gp, rng);
        let (rest, r0) = gen_list((n - 1) as nat, gp, rng);
        let s1 = rng_next_of(r0.state);
        let v = s1 % elem_bound(gp.size);
        let i = (n - 1) as u64;
        if (n - 1) as int % (gp.gauge as int) == 0 {
            let tail = List::Name(chk_name(gp.nominal_strategy, i, v), Box::new(rest));
            assert(gen_list(n, gp, rng).0 == List::Cons(v, Box::new(tail)));
            assert(checkpoint_count(List::Cons(v, Box::new(tail))) == checkpoint_count(tail));
            assert(checkpoint_count(tail) == 1 + checkpoint_count(rest));
        } else {
            assert(gen_list(n, gp, rng).0 == List::Cons(v, Box::new(rest)));
            assert(checkpoint_count(List::Cons(v, Box::new(rest))) == checkpoint_count(rest));
        }
    }
}

proof fn lemma_expected_all(n: nat)
    ensures
        expected_checkpoints(n, 1) == n,
    decreases n,
{
    if n > 0 {
        lemma_expected_all((n - 1) as nat);
    }
}

proof fn lemma_expected_single(k: nat, g: usize)
    requires
        1 <= k <= g,
    ensures
        expected_checkpoints(k, g) == 1,
    decreases k,
{
    if k == 1 {
        assert(0int % (g as int) == 0) by {
            vstd::arithmetic::div_mod::lemma_small_mod(0nat, g as nat);
        };
        assert(expected_checkpoints(1, g) == expected_checkpoints(0, g) + 1);
    } else {
        lemma_expected_single((k - 1) as nat, g);
        assert((k - 1) as int % (g as int) == (k - 1) as int) by {
            vstd::arithmetic::div_mod::lemma_small_mod((k - 1) as nat, g as nat);
        };
        assert(expected_checkpoints(k, g) == expected_checkpoints((k - 1) as nat, g));
    }
}

/// Gauge boundary, full density: with `gauge == 1`, every generated
/// element is wrapped in a checkpoint.
pub proof fn lemma_gauge_boundary_full(n: nat, gp: GenerateParams, rng: LabRng)
    requires
        gp.wf(),
        gp.gauge == 1,
    ensures
        checkpoint_count(gen_list(n, gp, rng).0) == n,
{
    lemma_gen_list_checkpoints(n, gp, rng);
    lemma_expected_all(n);
}

/// Gauge boundary, sparsest density: with `gauge == size` and a non-empty
/// input, exactly one checkpoint exists in the initial generation.
pub proof fn lemma_gauge_boundary_single(gp: GenerateParams, rng: LabRng)
    requires
        gp.wf(),
        gp.gauge == gp.size,
        gp.size >= 1,
    ensures
        checkpoint_count(gen_list(gp.size as nat, gp, rng).0) == 1,
{
    lemma_gen_list_checkpoints(gp.size as nat, gp, rng);
    lemma_expected_single(gp.size as nat, gp.gauge);
}

/// Which catalog scenario a lab entry runs.
#[derive(Clone, Copy, Debug, PartialEq, Eq, Structural)]
pub enum LabKind {
    CleanDirty,
    Oopsla2015,
    Oopsla2015Rev1,
    Oopsla2015Rev2,
    LazyMap,
    LazyFilter,
    ListTree,
    ListTreeMax,
    ListTreeSum,
    EagerMergesort3,
    LazyMergesort3,
    EagerMergesort2,
    LazyMergesort2,
    EagerMergesort1,
    LazyMergesort1,
    EagerMap,
    EagerFilter,
    ListReverse,
    RazMax,
    VecMax,
    RazDouble,
    RunFilter,
    RunSplit,
    RunReverse,
}

/// The three homework kinds whose computation is a declared stub.
pub open spec fn is_stub_kind(k: LabKind) -> bool {
    k == LabKind::RunFilter || k == LabKind::RunSplit || k == LabKind::RunReverse
}

/// One registered lab: a display name, an optional documentation URL, and
/// the scenario it runs.
#[derive(Debug)]
pub struct LabEntry {
    pub identity: Name,
    pub url: Option<String>,
    pub kind: LabKind,
}

fn lab_entry(name: &str, url: &str, kind: LabKind) -> (r: LabEntry)
    ensures
        r.identity@ == name@,
        r.kind == kind,
{
    LabEntry {
        identity: Name { text: name.to_owned() },
        url: Some(url.to_owned()),
        kind,
    }
}

/// The master list of all labs in the current catalog, in catalog order.
pub fn all_labs() -> (r: Vec<LabEntry>)
    ensures
        r@.len() == 24,
        r@[0].kind == LabKind::CleanDirty,
        r@[1].kind == LabKind::Oopsla2015,
        r@[2].kind == LabKind::Oopsla2015Rev1,
        r@[3].kind == LabKind::Oopsla2015Rev2,
        r@[4].kind == LabKind::LazyMap,
        r@[5].kind == LabKind::LazyFilter,
        r@[6].kind == LabKind::ListTree,
        r@[7].kind == LabKind::ListTreeMax,
        r@[8].kind == LabKind::ListTreeSum,
        r@[9].kind == LabKind::EagerMergesort3,
        r@[10].kind == LabKind::LazyMergesort3,
        r@[11].kind == LabKind::EagerMergesort2,
        r@[12].kind == LabKind::LazyMergesort2,
        r@[13].kind == LabKind::EagerMergesort1,
        r@[14].kind == LabKind::LazyMergesort1,
        r@[15].kind == LabKind::EagerMap,
        r@[16].kind == LabKind::EagerFilter,
        r@[17].kind == LabKind::ListReverse,
        r@[18].kind == LabKind::RazMax,
        r@[19].kind == LabKind::VecMax,
        r@[20].kind == LabKind::RazDouble,
        r@[21].kind == LabKind::RunFilter,
        r@[22].kind == LabKind::RunSplit,
        r@[23].kind == LabKind::RunReverse,
{
    let doc_root = "http://adapton.org/rustdoc/adapton_lab/catalog/";
    let mut labs: Vec<LabEntry> = Vec::new();
    labs.push(
        lab_entry(
            "eg-clean-dirty",
            "http://adapton.org/rustdoc/adapton_lab/catalog/struct.ExampleCleanDirty.html",
            LabKind::CleanDirty,
        ),
    );
    labs.push(
        lab_entry(
            "eg-oopsla2015-sec2",
            doc_root,
            LabKind::Oopsla2015,
        ),
    );
    labs.push(
        lab_entry(
            "eg-oopsla2015-sec2-rev1",
            "http://adapton.org/rustdoc/adapton_lab/catalog/struct.EditorOopsla2015Sec2.html",
            LabKind::Oopsla2015Rev1,
        ),
    );
    labs.push(
        lab_entry(
            "eg-oopsla2015-sec2-rev2",
            "http://adapton.org/rustdoc/adapton_lab/catalog/struct.EditorOopsla2015Sec2.html",
            LabKind::Oopsla2015Rev2,
        ),
    );
    labs.push(
        lab_entry(
            "list-lazy-map",
            "http://adapton.org/rustdoc/adapton_lab/catalog/struct.LazyMap.html",
            LabKind::LazyMap,
        ),
    );
    labs.push(
        lab_entry(
            "list-lazy-filter",
            "http://adapton.org/rustdoc/adapton_lab/catalog/struct.LazyFilter.html",
            LabKind::LazyFilter,
        ),
    );
    labs.push(
        lab_entry(
            "list-tree",
            "http://adapton.org/rustdoc/adapton_lab/catalog/struct.ListTree.html",
            LabKind::ListTree,
        ),
    );
    labs.push(
        lab_entry(
            "list-tree-max",
            "http://adapton.org/rustdoc/adapton_lab/catalog/struct.ListTreeMax.html",
            LabKind::ListTreeMax,
        ),
    );
    labs.push(
        lab_entry(
            "list-tree-sum",
            "http://adapton.org/rustdoc/adapton_lab/catalog/struct.ListTreeSum.html",
            LabKind::ListTreeSum,
        ),
    );
    labs.push(
        lab_entry(
            "list-eager-mergesort3",
            "http://adapton.org/rustdoc/adapton_lab/catalog/struct.EagerMergesort3.html",
            LabKind::EagerMergesort3,
        ),
    );
    labs.push(
        lab_entry(
            "list-lazy-mergesort3",
            "http://adapton.org/rustdoc/adapton_lab/catalog/struct.LazyMergesort3.html",
            LabKind::LazyMergesort3,
        ),
    );
    labs.push(
        lab_entry(
            "list-eager-mergesort2",
            "http://adapton.org/rustdoc/adapton_lab/catalog/struct.EagerMergesort2.html",
            LabKind::EagerMergesort2,
        ),
    );
    labs.push(
        lab_entry(
            "list-lazy-mergesort2",
            "http://adapton.org/rustdoc/adapton_lab/catalog/struct.LazyMergesort2.html",
            LabKind::LazyMergesort2,
        ),
    );
    labs.push(
        lab_entry(
            "list-eager-mergesort1",
            "http://adapton.org/rustdoc/adapton_lab/catalog/struct.EagerMergesort1.html",
            LabKind::EagerMergesort1,
        ),
    );
    labs.push(
        lab_entry(
            "list-lazy-mergesort1",
            "http://adapton.org/rustdoc/adapton_lab/catalog/struct.LazyMergesort1.html",
            LabKind::LazyMergesort1,
        ),
    );
    labs.push(
        lab_entry(
            "list-eager-map",
            "http://adapton.org/rustdoc/adapton_lab/catalog/struct.EagerMap.html",
            LabKind::EagerMap,
        ),
    );
    labs.push(
        lab_entry(
            "list-eager-filter",
            "http://adapton.org/rustdoc/adapton_lab/catalog/struct.EagerFilter.html",
            LabKind::EagerFilter,
        ),
    );
    labs.push(
        lab_entry(
            "list-reverse",
            "http://adapton.org/rustdoc/adapton_lab/catalog/struct.ListReverse.html",
            LabKind::ListReverse,
        ),
    );
    labs.push(
        lab_entry(
            "raz-max",
            "http://adapton.org/rustdoc/adapton_lab/catalog/struct.RazMax.html",
            LabKind::RazMax,
        ),
    );
    labs.push(
        lab_entry(
            "vec-max",
            "http://adapton.org/rustdoc/adapton_lab/catalog/struct.VecMax.html",
            LabKind::VecMax,
        ),
    );
    labs.push(
        lab_entry(
            "raz-double",
            "http://adapton.org/rustdoc/adapton_lab/catalog/struct.RazDouble.html",
            LabKind::RazDouble,
        ),
    );
    labs.push(
        lab_entry(
            "hammer-s17-hw0-filter",
            doc_root,
            LabKind::RunFilter,
        ),
    );
    labs.push(
        lab_entry(
            "hammer-s17-hw0-split",
            doc_root,
            LabKind::RunSplit,
        ),
    );
    labs.push(
        lab_entry(
            "hammer-s17-hw0-reverse",
            doc_root,
            LabKind::RunReverse,
        ),
    );
    labs
}

/// Runs one registered lab under the given parameters.  On well-formed
/// parameters and an implemented scenario this yields one sample per change
/// batch, indexed in order and each validated when validation is on;
/// malformed parameters are rejected as a configuration error, and only as
/// that; and only the declared homework stubs can end as an unimplemented
/// scenario.
pub fn run_lab_entry(entry: &LabEntry, params: &LabParams) -> (r: Result<LabResults, LabError>)
    ensures
        (match r {
            Ok(res) => {
                &&& params.wf()
                &&& res.samples@.len() == params.change_batch_loopc + 1
                &&& forall|i: int|
                    0 <= i < res.samples@.len() ==> (#[trigger] res.samples@[i]).batch_name == i
                &&& (params.sample_params.validate_output ==> forall|i: int|
                    0 <= i < res.samples@.len() ==> (#[trigger] res.samples@[i]).output_valid
                        == Some(true))
            },
            Err(e) => {
                &&& (e == LabError::Configuration <==> !params.wf())
                &&& (e == LabError::UnimplementedScenario ==> is_stub_kind(entry.kind))
            },
        }),
{
    match entry.kind {
        LabKind::CleanDirty => {
            let def = LabDef::<i32, u64, i32, ExampleCleanDirty, ExampleCleanDirty>::new(
                entry.identity.duplicate(),
                None,
            );
            let r = def.run_lab(params);
            proof {
                assert forall|n: nat|
                    n <= params.change_batch_loopc implies <ExampleCleanDirty as ComputeDemand<
                    i32,
                    i32,
                >>::compute_demand_spec(
                    #[trigger] spec_input_at::<i32, u64, ExampleCleanDirty>(
                        params.sample_params.generate_params,
                        params.sample_params.input_seeds@,
                        n,
                    ),
                    params.sample_params.demand,
                ) is Some by {}
            }
            r
        },
        LabKind::Oopsla2015 => {
            let def = LabDef::<List, u64, List, Editor, Archivist>::new(
                entry.identity.duplicate(),
                None,
            );
            let r = def.run_lab(params);
            proof {
                assert forall|n: nat|
                    n <= params.change_batch_loopc implies <Archivist as ComputeDemand<
                    List,
                    List,
                >>::compute_demand_spec(
                    #[trigger] spec_input_at::<List, u64, Editor>(
                        params.sample_params.generate_params,
                        params.sample_params.input_seeds@,
                        n,
                    ),
                    params.sample_params.demand,
                ) is Some by {}
            }
            r
        },
        LabKind::Oopsla2015Rev1 => {
            let def = LabDef::<List, u64, List, EditorOopsla2015Sec2, EagerMap>::new(
                entry.identity.duplicate(),
                None,
            );
            let r = def.run_lab(params);
            proof {
                assert forall|n: nat|
                    n <= params.change_batch_loopc implies <EagerMap as ComputeDemand<
                    List,
                    List,
                >>::compute_demand_spec(
                    #[trigger] spec_input_at::<List, u64, EditorOopsla2015Sec2>(
                        params.sample_params.generate_params,
                        params.sample_params.input_seeds@,
                        n,
                    ),
                    params.sample_params.demand,
                ) is Some by {}
            }
            r
        },
        LabKind::Oopsla2015Rev2 => {
            let def = LabDef::<List, u64, List, EditorOopsla2015Sec2, EagerMap2>::new(
                entry.identity.duplicate(),
                None,
            );
            let r = def.run_lab(params);
            proof {
                assert forall|n: nat|
                    n <= params.change_batch_loopc implies <EagerMap2 as ComputeDemand<
                    List,
                    List,
                >>::compute_demand_spec(
                    #[trigger] spec_input_at::<List, u64, EditorOopsla2015Sec2>(
                        params.sample_params.generate_params,
                        params.sample_params.input_seeds@,
                        n,
                    ),
                    params.sample_params.demand,
                ) is Some by {}
            }
            r
        },
        LabKind::LazyMap => {
            let def = LabDef::<List, u64, List, UniformPrepend, LazyMap>::new(
                entry.identity.duplicate(),
                None,
            );
            let r = def.run_lab(params);
            proof {
                assert forall|n: nat|
                    n <= params.change_batch_loopc implies <LazyMap as ComputeDemand<
                    List,
                    List,
                >>::compute_demand_spec(
                    #[trigger] spec_input_at::<List, u64, UniformPrepend>(
                        params.sample_params.generate_params,
                        params.sample_params.input_seeds@,
                        n,
                    ),
                    params.sample_params.demand,
                ) is Some by {}
            }
            r
        },
        LabKind::LazyFilter => {
            let def = LabDef::<List, u64, List, UniformPrepend, LazyFilter>::new(
                entry.identity.duplicate(),
                None,
            );
            let r = def.run_lab(params);
            proof {
                assert forall|n: nat|
                    n <= params.change_batch_loopc implies <LazyFilter as ComputeDemand<
                    List,
                    List,
                >>::compute_demand_spec(
                    #[trigger] spec_input_at::<List, u64, UniformPrepend>(
                        params.sample_params.generate_params,
                        params.sample_params.input_seeds@,
                        n,
                    ),
                    params.sample_params.demand,
                ) is Some by {}
            }
            r
        },
        LabKind::ListTree => {
            let def = LabDef::<List, u64, Tree, UniformPrepend, ListTree>::new(
                entry.identity.duplicate(),
                None,
            );
            let r = def.run_lab(params);
            proof {
                assert forall|n: nat|
                    n <= params.change_batch_loopc implies <ListTree as ComputeDemand<
                    List,
                    Tree,
                >>::compute_demand_spec(
                    #[trigger] spec_input_at::<List, u64, UniformPrepend>(
                        params.sample_params.generate_params,
                        params.sample_params.input_seeds@,
                        n,
                    ),
                    params.sample_params.demand,
                ) is Some by {}
            }
            r
        },
        LabKind::ListTreeMax => {
            let def = LabDef::<List, u64, u64, UniformPrepend, ListTreeMax>::new(
                entry.identity.duplicate(),
                None,
            );
            let r = def.run_lab(params);
            proof {
                assert forall|n: nat|
                    n <= params.change_batch_loopc implies <ListTreeMax as ComputeDemand<
                    List,
                    u64,
                >>::compute_demand_spec(
                    #[trigger] spec_input_at::<List, u64, UniformPrepend>(
                        params.sample_params.generate_params,
                        params.sample_params.input_seeds@,
                        n,
                    ),
                    params.sample_params.demand,
                ) is Some by {}
            }
            r
        },
        LabKind::ListTreeSum => {
            let def = LabDef::<List, u64, u64, UniformPrepend, ListTreeSum>::new(
                entry.identity.duplicate(),
                None,
            );
            let r = def.run_lab(params);
            proof {
                assert forall|n: nat|
                    n <= params.change_batch_loopc implies <ListTreeSum as ComputeDemand<
                    List,
                    u64,
                >>::compute_demand_spec(
                    #[trigger] spec_input_at::<List, u64, UniformPrepend>(
                        params.sample_params.generate_params,
                        params.sample_params.input_seeds@,
                        n,
                    ),
                    params.sample_params.demand,
                ) is Some by {}
            }
            r
        },
        LabKind::EagerMergesort3 => {
            let def = LabDef::<List, u64, List, UniformPrepend, EagerMergesort3>::new(
                entry.identity.duplicate(),
                None,
            );
            let r = def.run_lab(params);
            proof {
                assert forall|n: nat|
                    n <= params.change_batch_loopc implies <EagerMergesort3 as ComputeDemand<
                    List,
                    List,
                >>::compute_demand_spec(
                    #[trigger] spec_input_at::<List, u64, UniformPrepend>(
                        params.sample_params.generate_params,
                        params.sample_params.input_seeds@,
                        n,
                    ),
                    params.sample_params.demand,
                ) is Some by {}
            }
            r
        },
        LabKind::LazyMergesort3 => {
            let def = LabDef::<List, u64, List, UniformPrepend, LazyMergesort3>::new(
                entry.identity.duplicate(),
                None,
            );
            let r = def.run_lab(params);
            proof {
                assert forall|n: nat|
                    n <= params.change_batch_loopc implies <LazyMergesort3 as ComputeDemand<
                    List,
                    List,
                >>::compute_demand_spec(
                    #[trigger] spec_input_at::<List, u64, UniformPrepend>(
                        params.sample_params.generate_params,
                        params.sample_params.input_seeds@,
                        n,
                    ),
                    params.sample_params.demand,
                ) is Some by {}
            }
            r
        },
        LabKind::EagerMergesort2 => {
            let def = LabDef::<List, u64, List, UniformPrepend, EagerMergesort2>::new(
                entry.identity.duplicate(),
                None,
            );
            let r = def.run_lab(params);
            proof {
                assert forall|n: nat|
                    n <= params.change_batch_loopc implies <EagerMergesort2 as ComputeDemand<
                    List,
                    List,
                >>::compute_demand_spec(
                    #[trigger] spec_input_at::<List, u64, UniformPrepend>(
                        params.sample_params.generate_params,
                        params.sample_params.input_seeds@,
                        n,
                    ),
                    params.sample_params.demand,
                ) is Some by {}
            }
            r
        },
        LabKind::LazyMergesort2 => {
            let def = LabDef::<List, u64, List, UniformPrepend, LazyMergesort2>::new(
                entry.identity.duplicate(),
                None,
            );
            let r = def.run_lab(params);
            proof {
                assert forall|n: nat|
                    n <= params.change_batch_loopc implies <LazyMergesort2 as ComputeDemand<
                    List,
                    List,
                >>::compute_demand_spec(
                    #[trigger] spec_input_at::<List, u64, UniformPrepend>(
                        params.sample_params.generate_params,
                        params.sample_params.input_seeds@,
                        n,
                    ),
                    params.sample_params.demand,
                ) is Some by {}
            }
            r
        },
        LabKind::EagerMergesort1 => {
            let def = LabDef::<List, u64, List, UniformPrepend, EagerMergesort1>::new(
                entry.identity.duplicate(),
                None,
            );
            let r = def.run_lab(params);
            proof {
                assert forall|n: nat|
                    n <= params.change_batch_loopc implies <EagerMergesort1 as ComputeDemand<
                    List,
                    List,
                >>::compute_demand_spec(
                    #[trigger] spec_input_at::<List, u64, UniformPrepend>(
                        params.sample_params.generate_params,
                        params.sample_params.input_seeds@,
                        n,
                    ),
                    params.sample_params.demand,
                ) is Some by {}
            }
            r
        },
        LabKind::LazyMergesort1 => {
            let def = LabDef::<List, u64, List, UniformPrepend, LazyMergesort1>::new(
                entry.identity.duplicate(),
                None,
            );
            let r = def.run_lab(params);
            proof {
                assert forall|n: nat|
                    n <= params.change_batch_loopc implies <LazyMergesort1 as ComputeDemand<
                    List,
                    List,
                >>::compute_demand_spec(
                    #[trigger] spec_input_at::<List, u64, UniformPrepend>(
                        params.sample_params.generate_params,
                        params.sample_params.input_seeds@,
                        n,
                    ),
                    params.sample_params.demand,
                ) is Some by {}
            }
            r
        },
        LabKind::EagerMap => {
            let def = LabDef::<List, u64, List, UniformPrepend, EagerMap>::new(
                entry.identity.duplicate(),
                None,
            );
            let r = def.run_lab(params);
            proof {
                assert forall|n: nat|
                    n <= params.change_batch_loopc implies <EagerMap as ComputeDemand<
                    List,
                    List,
                >>::compute_demand_spec(
                    #[trigger] spec_input_at::<List, u64, UniformPrepend>(
                        params.sample_params.generate_params,
                        params.sample_params.input_seeds@,
                        n,
                    ),
                    params.sample_params.demand,
                ) is Some by {}
            }
            r
        },
        LabKind::EagerFilter => {
            let def = LabDef::<List, u64, List, UniformPrepend, EagerFilter>::new(
                entry.identity.duplicate(),
                None,
            );
            let r = def.run_lab(params);
            proof {
                assert forall|n: nat|
                    n <= params.change_batch_loopc implies <EagerFilter as ComputeDemand<
                    List,
                    List,
                >>::compute_demand_spec(
                    #[trigger] spec_input_at::<List, u64, UniformPrepend>(
                        params.sample_params.generate_params,
                        params.sample_params.input_seeds@,
                        n,
                    ),
                    params.sample_params.demand,
                ) is Some by {}
            }
            r
        },
        LabKind::ListReverse => {
            let def = LabDef::<List, u64, List, UniformPrepend, ListReverse>::new(
                entry.identity.duplicate(),
                None,
            );
            let r = def.run_lab(params);
            proof {
                assert forall|n: nat|
                    n <= params.change_batch_loopc implies <ListReverse as ComputeDemand<
                    List,
                    List,
                >>::compute_demand_spec(
                    #[trigger] spec_input_at::<List, u64, UniformPrepend>(
                        params.sample_params.generate_params,
                        params.sample_params.input_seeds@,
                        n,
                    ),
                    params.sample_params.demand,
                ) is Some by {}
            }
            r
        },
        LabKind::RazMax => {
            let def = LabDef::<List, u64, u64, UniformInsert, RazMax>::new(
                entry.identity.duplicate(),
                None,
            );
            let r = def.run_lab(params);
            proof {
                assert forall|n: nat|
                    n <= params.change_batch_loopc implies <RazMax as ComputeDemand<
                    List,
                    u64,
                >>::compute_demand_spec(
                    #[trigger] spec_input_at::<List, u64, UniformInsert>(
                        params.sample_params.generate_params,
                        params.sample_params.input_seeds@,
                        n,
                    ),
                    params.sample_params.demand,
                ) is Some by {}
            }
            r
        },
        LabKind::VecMax => {
            let def = LabDef::<List, u64, u64, VecMax, VecMax>::new(
                entry.identity.duplicate(),
                None,
            );
            let r = def.run_lab(params);
            proof {
                assert forall|n: nat|
                    n <= params.change_batch_loopc implies <VecMax as ComputeDemand<
                    List,
                    u64,
                >>::compute_demand_spec(
                    #[trigger] spec_input_at::<List, u64, VecMax>(
                        params.sample_params.generate_params,
                        params.sample_params.input_seeds@,
                        n,
                    ),
                    params.sample_params.demand,
                ) is Some by {}
            }
            r
        },
        LabKind::RazDouble => {
            let def = LabDef::<List, u64, List, UniformInsert, RazDouble>::new(
                entry.identity.duplicate(),
                None,
            );
            let r = def.run_lab(params);
            proof {
                assert forall|n: nat|
                    n <= params.change_batch_loopc implies <RazDouble as ComputeDemand<
                    List,
                    List,
                >>::compute_demand_spec(
                    #[trigger] spec_input_at::<List, u64, UniformInsert>(
                        params.sample_params.generate_params,
                        params.sample_params.input_seeds@,
                        n,
                    ),
                    params.sample_params.demand,
                ) is Some by {}
            }
            r
        },
        LabKind::RunFilter => {
            let def = LabDef::<List, u64, List, Editor, RunFilter>::new(
                entry.identity.duplicate(),
                None,
            );
            let r = def.run_lab(params);
            r
        },
        LabKind::RunSplit => {
            let def = LabDef::<List, u64, (List, List), Editor, RunSplit>::new(
                entry.identity.duplicate(),
                None,
            );
            let r = def.run_lab(params);
            r
        },
        LabKind::RunReverse => {
            let def = LabDef::<List, u64, List, Editor, RunReverse>::new(
                entry.identity.duplicate(),
                None,
            );
            let r = def.run_lab(params);
            r
        },
    }
}

} // verus!
