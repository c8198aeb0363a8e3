//! Configuration model for a lab experiment, the pluggable contracts that an
//! input distribution and a computation must satisfy, and the record types
//! that one run produces.

use vstd::prelude::*;

use crate::rng::LabRng;
use crate::trace::Val;

verus! {

/// Controls how checkpoint identities are derived while generating an input:
/// from sequential counters, or from the content of the generated elements.
#[derive(Clone, Copy, Debug, PartialEq, Eq, Structural)]
pub enum NominalStrategy {
    Regular,
    ByContent,
}

/// Parameters for generating and editing a synthetic input: `size` elements
/// are produced, and every `gauge`-th element is additionally wrapped in a
/// named checkpoint.  Well-formed only when `gauge >= 1`.
#[derive(Clone, Copy, Debug, PartialEq, Eq, Structural)]
pub struct GenerateParams {
    pub size: usize,
    pub gauge: usize,
    pub nominal_strategy: NominalStrategy,
}

impl GenerateParams {
    /// A zero gauge would place a checkpoint "every zeroth element", which is
    /// meaningless; such parameters are rejected before a run starts.
    pub open spec fn wf(self) -> bool {
        self.gauge >= 1
    }
}

/// The error taxonomy of the harness.  A validation mismatch is recorded as
/// data in a `Sample`, not raised, so it does not appear here.
#[derive(Clone, Copy, Debug, PartialEq, Eq, Structural)]
pub enum LabError {
    /// Malformed parameters (for example `gauge == 0`); rejected before a
    /// run starts.
    Configuration,
    /// A scenario's computation or input distribution is a declared stub;
    /// fatal to that scenario's run only.
    UnimplementedScenario,
    /// An installed-backend assertion failed; the harness itself is broken,
    /// so the run aborts immediately.
    BackendDesync,
}

/// Parameters for collecting a single sample.  In addition to these
/// parameters, the experiment maintains a pseudo-random generator seeded from
/// `input_seeds`; this generator drives every `generate` and `edit` call, and
/// is sequenced identically across the two engines' sample sequences.
#[derive(Clone, Debug)]
pub struct SampleParams {
    /// Converted into a pseudo-random generator before generating and editing.
    pub input_seeds: Vec<usize>,
    /// Parameters for generating and editing the input.
    pub generate_params: GenerateParams,
    /// For lazy algorithms, the number of output elements to force; eager
    /// algorithms ignore this parameter.
    pub demand: usize,
    /// Whether to compare the two engines' outputs after each computation.
    pub validate_output: bool,
    /// Size of each batch of changes.
    pub change_batch_size: usize,
    /// Whether to capture the incremental engine's operation trace.
    pub reflect_trace: bool,
    /// Whether to capture a snapshot of the incremental engine's graph.
    pub reflect_dcg: bool,
}

impl SampleParams {
    pub open spec fn wf(self) -> bool {
        &&& self.generate_params.wf()
        &&& self.change_batch_size >= 1
    }
}

/// Parameters for running a single lab experiment.
#[derive(Clone, Debug)]
pub struct LabParams {
    pub sample_params: SampleParams,
    /// Number of change-batches to perform in a loop; each is interposed
    /// with computing the new output.
    pub change_batch_loopc: usize,
}

impl LabParams {
    /// Well-formed experiment parameters: well-formed sample parameters, and
    /// a batch count whose successor (the number of collected samples) still
    /// fits in a machine word.
    pub open spec fn wf(self) -> bool {
        &&& self.sample_params.wf()
        &&& self.change_batch_loopc < usize::MAX
    }
}

/// Whether two sample-parameter records carry the same configuration.
pub open spec fn sample_params_eqv(a: SampleParams, b: SampleParams) -> bool {
    &&& a.input_seeds@ == b.input_seeds@
    &&& a.generate_params == b.generate_params
    &&& a.demand == b.demand
    &&& a.validate_output == b.validate_output
    &&& a.change_batch_size == b.change_batch_size
    &&& a.reflect_trace == b.reflect_trace
    &&& a.reflect_dcg == b.reflect_dcg
}

/// Whether two experiment-parameter records carry the same configuration.
pub open spec fn lab_params_eqv(a: LabParams, b: LabParams) -> bool {
    &&& sample_params_eqv(a.sample_params, b.sample_params)
    &&& a.change_batch_loopc == b.change_batch_loopc
}

/// An owned copy of an experiment's parameters, carrying the same
/// configuration.
pub fn duplicate_lab_params(p: &LabParams) -> (r: LabParams)
    ensures
        lab_params_eqv(r, *p),
{
    let mut seeds: Vec<usize> = Vec::new();
    let mut i: usize = 0;
    while i < p.sample_params.input_seeds.len()
        invariant
            i <= p.sample_params.input_seeds@.len(),
            seeds@ == p.sample_params.input_seeds@.subrange(0, i as int),
        decreases p.sample_params.input_seeds@.len() - i,
    {
        seeds.push(p.sample_params.input_seeds[i]);
        proof {
            assert(seeds@ =~= p.sample_params.input_seeds@.subrange(0, i + 1));
        }
        i = i + 1;
    }
    proof {
        assert(p.sample_params.input_seeds@.subrange(
            0,
            p.sample_params.input_seeds@.len() as int,
        ) =~= p.sample_params.input_seeds@);
    }
    LabParams {
        sample_params: SampleParams {
            input_seeds: seeds,
            generate_params: p.sample_params.generate_params,
            demand: p.sample_params.demand,
            validate_output: p.sample_params.validate_output,
            change_batch_size: p.sample_params.change_batch_size,
            reflect_trace: p.sample_params.reflect_trace,
            reflect_dcg: p.sample_params.reflect_dcg,
        },
        change_batch_loopc: p.change_batch_loopc,
    }
}

/// Rejects malformed parameters before a run starts: a run may begin only
/// with well-formed parameters, and this check is exactly the `wf` predicate.
pub fn check_lab_params(params: &LabParams) -> (r: Result<(), LabError>)
    ensures
        r == Ok::<(), LabError>(()) <==> params.wf(),
        !params.wf() ==> r == Err::<(), LabError>(LabError::Configuration),
{
    if params.sample_params.generate_params.gauge >= 1 && params.sample_params.change_batch_size
        >= 1 && params.change_batch_loopc < usize::MAX {
        Ok(())
    } else {
        Err(LabError::Configuration)
    }
}

/// Generic contract for generating a random input.  What is produced, and
/// where the generator is left, is a pure function of the generator's
/// position and the parameters: this is what lets two engines observe the
/// same input from equal generator positions.
pub trait Generate<T> {
    /// The generated input and the generator position after generating.
    spec fn generate_spec(rng: LabRng, params: GenerateParams) -> (T, LabRng);

    fn generate(rng: &mut LabRng, params: &GenerateParams) -> (t: T)
        requires
            params.wf(),
        ensures
            ({
                let (t0, rng0) = Self::generate_spec(*old(rng), *params);
                t == t0 && *final (rng) == rng0
            }),
    ;
}

/// Generic contract for editing an input randomly, in a stateful sequence of
/// edits.  The scenario threads its own edit-state of type `S` from one edit
/// to the next; both operations are pure functions of their arguments and
/// the generator's position.
pub trait Edit<T, S> {
    /// The initial edit-state and the generator position after producing it.
    spec fn edit_init_spec(rng: LabRng, params: GenerateParams) -> (S, LabRng);

    fn edit_init(rng: &mut LabRng, params: &GenerateParams) -> (s: S)
        requires
            params.wf(),
        ensures
            ({
                let (s0, rng0) = Self::edit_init_spec(*old(rng), *params);
                s == s0 && *final (rng) == rng0
            }),
    ;

    /// The edited input, the new edit-state, and the generator position
    /// after editing.
    spec fn edit_spec(pre_edit: T, st: S, rng: LabRng, params: GenerateParams) -> (T, S, LabRng);

    fn edit(pre_edit: T, st: S, rng: &mut LabRng, params: &GenerateParams) -> (r: (T, S))
        requires
            params.wf(),
        ensures
            ({
                let (t0, s0, rng0) = Self::edit_spec(pre_edit, st, *old(rng), *params);
                r.0 == t0 && r.1 == s0 && *final (rng) == rng0
            }),
    ;
}

/// Generic notion of a computation to run under both engines: a pure map
/// from an input to an output.  `compute_spec` returning `None` declares the
/// scenario a stub: invoking it is a terminal error for that scenario's run.
pub trait Compute<I, O> {
    /// The output, or `None` for a declared stub.
    spec fn compute_spec(inp: I) -> Option<O>;

    fn compute(inp: &I) -> (r: Result<O, LabError>)
        ensures
            (match Self::compute_spec(*inp) {
                Some(o) => r == Ok::<O, LabError>(o),
                None => r == Err::<O, LabError>(LabError::UnimplementedScenario),
            }),
    ;

    /// What it means for two outputs to agree when validating.
    spec fn output_eq_spec(a: O, b: O) -> bool;

    fn output_eq(a: &O, b: &O) -> (r: bool)
        ensures
            r == Self::output_eq_spec(*a, *b),
    ;

    /// Output agreement is reflexive: equal outputs always validate.
    proof fn output_eq_refl(a: O)
        ensures
            Self::output_eq_spec(a, a),
    ;

    /// What a display snapshot of an input must hold.
    spec fn reflect_input_ok(inp: I, v: Val) -> bool;

    /// A display snapshot of an input.
    fn reflect_input(inp: &I) -> (v: Val)
        ensures
            Self::reflect_input_ok(*inp, v),
    ;

    /// What a display snapshot of an output must hold.
    spec fn reflect_output_ok(out: O, v: Val) -> bool;

    /// A display snapshot of an output.
    fn reflect_output(out: &O) -> (v: Val)
        ensures
            Self::reflect_output_ok(*out, v),
    ;
}

/// Like `Compute`, but also provided a demand size bounding how much of a
/// lazily-produced output must be forced; eager computations ignore it.
pub trait ComputeDemand<I, O> {
    /// The output under the given demand, or `None` for a declared stub.
    spec fn compute_demand_spec(inp: I, demand: usize) -> Option<O>;

    fn compute(inp: &I, demand: usize) -> (r: Result<O, LabError>)
        ensures
            (match Self::compute_demand_spec(*inp, demand) {
                Some(o) => r == Ok::<O, LabError>(o),
                None => r == Err::<O, LabError>(LabError::UnimplementedScenario),
            }),
    ;

    /// What it means for two outputs to agree when validating.
    spec fn output_eq_spec(a: O, b: O) -> bool;

    fn output_eq(a: &O, b: &O) -> (r: bool)
        ensures
            r == Self::output_eq_spec(*a, *b),
    ;

    /// Output agreement is reflexive: equal outputs always validate.
    proof fn output_eq_refl(a: O)
        ensures
            Self::output_eq_spec(a, a),
    ;

    /// What a display snapshot of an input must hold.
    spec fn reflect_input_ok(inp: I, v: Val) -> bool;

    /// A display snapshot of an input.
    fn reflect_input(inp: &I) -> (v: Val)
        ensures
            Self::reflect_input_ok(*inp, v),
    ;

    /// What a display snapshot of an output must hold.
    spec fn reflect_output_ok(out: O, v: Val) -> bool;

    /// A display snapshot of an output.
    fn reflect_output(out: &O) -> (v: Val)
        ensures
            Self::reflect_output_ok(*out, v),
    ;
}

impl<I, O, X: Compute<I, O>> ComputeDemand<I, O> for X {
    open spec fn compute_demand_spec(inp: I, demand: usize) -> Option<O> {
        X::compute_spec(inp)
    }

    fn compute(inp: &I, demand: usize) -> (r: Result<O, LabError>) {
        X::compute(inp)
    }

    open spec fn output_eq_spec(a: O, b: O) -> bool {
        X::output_eq_spec(a, b)
    }

    fn output_eq(a: &O, b: &O) -> (r: bool) {
        X::output_eq(a, b)
    }

    proof fn output_eq_refl(a: O) {
        X::output_eq_refl(a);
    }

    open spec fn reflect_input_ok(inp: I, v: Val) -> bool {
        X::reflect_input_ok(inp, v)
    }

    fn reflect_input(inp: &I) -> (v: Val) {
        X::reflect_input(inp)
    }

    open spec fn reflect_output_ok(out: O, v: Val) -> bool {
        X::reflect_output_ok(out, v)
    }

    fn reflect_output(out: &O) -> (v: Val) {
        X::reflect_output(out)
    }
}

/// The result of a lab is a sequence of samples.
pub struct LabResults {
    pub samples: Vec<Sample>,
}

/// One step's paired record: for each sample the experiment switches between
/// the naive engine and the incremental engine, so that outputs and metrics
/// can be compared on a fine-grained scale.
pub struct Sample {
    /// Index of the change batch; one sample per compute + change batch.
    pub batch_name: usize,
    pub dcg_sample: EngineSample,
    pub naive_sample: EngineSample,
    /// Whether the two engines' outputs agreed; `None` when validation is
    /// disabled.
    pub output_valid: Option<bool>,
}

/// Metrics of one engine's step: processing the input (generating or
/// editing it), then computing the output over it.
pub struct EngineSample {
    pub process_input: EngineMetrics,
    pub compute_output: EngineMetrics,
    /// A display snapshot of the processed input, when graph capture is on.
    pub input: Option<Val>,
    /// A display snapshot of the computed output, when graph capture is on.
    pub output: Option<Val>,
}

/// For each engine, for each sampled subcomputation: the real time in
/// nanoseconds, the reflected operation traces (empty unless trace capture
/// is on), the engine's structured counter set folded from those traces,
/// and a snapshot of the incremental engine's graph at the end of the
/// subcomputation (absent unless graph capture is on).
pub struct EngineMetrics {
    pub time_ns: u64,
    pub operation_counts: adapton::reflect::trace::TraceCount,
    pub reflect_traces: Vec<adapton::reflect::trace::Trace>,
    pub reflect_dcg: Option<adapton::reflect::DCG>,
}

/// The default experiment configuration: one seed, a small regular input
/// with a checkpoint on every element, validation enabled, trace and graph
/// capture enabled, and ten change batches after the initial generation.
pub fn lab_params_defaults() -> (r: LabParams)
    ensures
        r.wf(),
        r.sample_params.input_seeds@ == seq![0usize],
        r.sample_params.generate_params.size == 16,
        r.sample_params.generate_params.gauge == 1,
        r.sample_params.generate_params.nominal_strategy == NominalStrategy::Regular,
        r.sample_params.demand == 16,
        r.sample_params.validate_output == true,
        r.sample_params.change_batch_size == 1,
        r.sample_params.reflect_trace == true,
        r.sample_params.reflect_dcg == true,
        r.change_batch_loopc == 10,
{
    let do_reflect = true;
    let mut seeds: Vec<usize> = Vec::new();
    seeds.push(0);
    LabParams {
        sample_params: SampleParams {
            input_seeds: seeds,
            generate_params: GenerateParams {
                size: 16,
                gauge: 1,
                nominal_strategy: NominalStrategy::Regular,
            },
            demand: 16,
            validate_output: true,
            change_batch_size: 1,
            reflect_dcg: do_reflect,
            reflect_trace: do_reflect,
        },
        change_batch_loopc: 10,
    }
}

} // verus!
