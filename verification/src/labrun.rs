//! The sample harness: a state machine that advances the naive (baseline)
//! and incremental engines in lockstep over a bounded number of edit
//! batches, guaranteeing that both observe exactly the same sequence of
//! pseudo-random edits, and recording per-step metrics for both.

use vstd::prelude::*;

use core::marker::PhantomData;

use crate::backend::{
    capture_compute_phase, capture_phase, dcg_reflect_now, engine_is_dcg, engine_is_naive,
    engine_naive, init_dcg, ns_compute_phase, precise_time_ns, trace_count, use_engine,
};
use crate::labdef::{
    check_lab_params, duplicate_lab_params, lab_params_eqv, ComputeDemand, Edit, EngineMetrics,
    EngineSample, Generate, GenerateParams, LabError, LabParams, LabResults, Sample, SampleParams,
};
use crate::rng::{rng_seed_of, LabRng};
use crate::trace::{Name, Val};

verus! {

/// One engine's whole observation of a step: processing the input (either
/// generating it afresh or editing the prior one) leaves the generator at a
/// position that, like the produced input and edit-state, is a pure function
/// of the starting point.
pub open spec fn spec_engine_step<I, S, Ed: Generate<I> + Edit<I, S>>(
    gp: GenerateParams,
    cur: Option<(I, S)>,
    rng: LabRng,
) -> ((I, S), LabRng) {
    match cur {
        None => {
            let (t, rng1) = Ed::generate_spec(rng, gp);
            let (s, rng2) = Ed::edit_init_spec(rng1, gp);
            ((t, s), rng2)
        },
        Some((t, s)) => {
            let (t2, s2, rng2) = Ed::edit_spec(t, s, rng, gp);
            ((t2, s2), rng2)
        },
    }
}

/// The canonical replay: the input/edit-state pair held after `n` steps,
/// and the generator position from which step `n` starts.  Both engines'
/// observations are pinned to this one function of the configuration.
pub open spec fn spec_replay<I, S, Ed: Generate<I> + Edit<I, S>>(
    gp: GenerateParams,
    seeds: Seq<usize>,
    n: nat,
) -> (Option<(I, S)>, LabRng)
    decreases n,
{
    if n == 0 {
        (None::<(I, S)>, LabRng { state: rng_seed_of(seeds) })
    } else {
        let (cur, rng) = spec_replay::<I, S, Ed>(gp, seeds, (n - 1) as nat);
        let (pair, rng2) = spec_engine_step::<I, S, Ed>(gp, cur, rng);
        (Some(pair), rng2)
    }
}

/// The input the canonical replay processes during step `n` (counting from
/// zero), handed to the computation at that step.
pub open spec fn spec_input_at<I, S, Ed: Generate<I> + Edit<I, S>>(
    gp: GenerateParams,
    seeds: Seq<usize>,
    n: nat,
) -> I {
    spec_replay::<I, S, Ed>(gp, seeds, n + 1).0->Some_0.0
}

/// One engine's persisted state across steps: its engine token, and the
/// input/edit-state pair it last observed (none before the first step).
pub struct LabEngineState<I, S> {
    pub engine: adapton::engine::Engine,
    pub input: Option<(I, S)>,
}

/// The whole harness state: the configuration, the single running
/// generator, the batch counter, both engines' persisted states, and the
/// samples collected so far.
pub struct LabState<I, S> {
    pub params: LabParams,
    pub rng: LabRng,
    pub change_batch_num: usize,
    pub dcg_state: LabEngineState<I, S>,
    pub naive_state: LabEngineState<I, S>,
    pub samples: Vec<Sample>,
}

/// The harness invariant: both engines hold the same input/edit-state pair,
/// which together with the running generator equals the canonical replay at
/// the current batch index.
pub open spec fn lab_inv<I, S, Ed: Generate<I> + Edit<I, S>>(st: LabState<I, S>) -> bool {
    &&& st.params.wf()
    &&& st.change_batch_num <= st.params.change_batch_loopc + 1
    &&& {
        let (cur, rng) = spec_replay::<I, S, Ed>(
            st.params.sample_params.generate_params,
            st.params.sample_params.input_seeds@,
            st.change_batch_num as nat,
        );
        &&& st.naive_state.input == cur
        &&& st.dcg_state.input == cur
        &&& st.rng == rng
    }
}

/// Processing one engine's input for a step: generate it afresh (then draw
/// the initial edit-state), or edit the prior one; exactly the canonical
/// step from the given generator position.
fn process_input_step<I, S, Ed: Generate<I> + Edit<I, S>>(
    input: Option<(I, S)>,
    rng: LabRng,
    gp: &GenerateParams,
) -> (r: (I, S, LabRng))
    requires
        gp.wf(),
    ensures
        ({
            let ((i2, s2), rng2) = spec_engine_step::<I, S, Ed>(*gp, input, rng);
            r.0 == i2 && r.1 == s2 && r.2 == rng2
        }),
{
    let mut rng2 = rng;
    match input {
        None => {
            let t = Ed::generate(&mut rng2, gp);
            let s = Ed::edit_init(&mut rng2, gp);
            (t, s, rng2)
        },
        Some((t, s)) => {
            let (t2, s2) = Ed::edit(t, s, &mut rng2, gp);
            (t2, s2, rng2)
        },
    }
}

/// Assembles one measurement's metrics: the elapsed time around the phase,
/// the captured traces, the engine's counter set folded from them, and a
/// graph snapshot when graph capture is on.
fn get_engine_metrics(
    params: &SampleParams,
    start_ns: u64,
    traces: Vec<adapton::reflect::trace::Trace>,
) -> (m: EngineMetrics)
    ensures
        m.reflect_traces == traces,
        !params.reflect_dcg ==> m.reflect_dcg is None,
{
    let end_ns = precise_time_ns();
    let time_ns: u64 = if end_ns >= start_ns {
        end_ns - start_ns
    } else {
        0
    };
    let operation_counts = trace_count(&traces);
    let reflect_dcg: Option<adapton::reflect::DCG> = if params.reflect_dcg {
        dcg_reflect_now()
    } else {
        None
    };
    EngineMetrics { time_ns, operation_counts, reflect_traces: traces, reflect_dcg }
}

/// One engine's share of a step: process the input (generate it, or edit
/// the prior one) and compute the output over it, measuring both phases.
/// The produced input, edit-state and generator position equal the
/// canonical step; the output is the computation's specified value.
fn get_engine_sample<I, S, O, Ed: Generate<I> + Edit<I, S>, Ar: ComputeDemand<I, O>>(
    rng: &mut LabRng,
    params: &SampleParams,
    input: Option<(I, S)>,
) -> (r: Result<(O, I, S, EngineSample), LabError>)
    requires
        params.wf(),
    ensures
        ({
            let ((i2, s2), rng2) = spec_engine_step::<I, S, Ed>(
                params.generate_params,
                input,
                *old(rng),
            );
            match r {
                Ok(res) => res.1 == i2 && res.2 == s2 && *final (rng) == rng2
                    && Ar::compute_demand_spec(i2, params.demand) == Some(res.0) && (
                !params.reflect_dcg ==> res.3.input is None && res.3.output is None
                    && res.3.process_input.reflect_dcg is None
                    && res.3.compute_output.reflect_dcg is None) && (!params.reflect_trace
                    ==> res.3.process_input.reflect_traces@.len() == 0
                    && res.3.compute_output.reflect_traces@.len() == 0) && (params.reflect_dcg
                    ==> (match res.3.input {
                    Some(v) => Ar::reflect_input_ok(i2, v),
                    None => false,
                }) && (match res.3.output {
                    Some(v) => Ar::reflect_output_ok(res.0, v),
                    None => false,
                })),
                Err(e) => e == LabError::UnimplementedScenario && Ar::compute_demand_spec(
                    i2,
                    params.demand,
                ) is None,
            }
        }),
{
    let gp = &params.generate_params;
    let process = |a: (Option<(I, S)>, LabRng)| -> (res: (I, S, LabRng))
        requires
            gp.wf(),
        ensures
            ({
                let ((i2, s2), rng2) = spec_engine_step::<I, S, Ed>(*gp, a.0, a.1);
                res.0 == i2 && res.1 == s2 && res.2 == rng2
            }),
        { process_input_step::<I, S, Ed>(a.0, a.1, gp) };
    let arg = (input, *rng);
    let t0 = precise_time_ns();
    let (stepped, traces) = if params.reflect_trace {
        capture_phase(arg, process)
    } else {
        (process(arg), Vec::new())
    };
    let (edited_input, editst, rng_after) = stepped;
    *rng = rng_after;
    let process_input = get_engine_metrics(params, t0, traces);
    let input_r: Option<Val> = if params.reflect_dcg {
        Some(Ar::reflect_input(&edited_input))
    } else {
        None
    };
    let compute = |d: usize| -> (res: Result<O, LabError>)
        ensures
            (match Ar::compute_demand_spec(edited_input, d) {
                Some(o) => res == Ok::<O, LabError>(o),
                None => res == Err::<O, LabError>(LabError::UnimplementedScenario),
            }),
        { Ar::compute(&edited_input, d) };
    let t1 = precise_time_ns();
    let (computed, traces2) = if params.reflect_trace {
        capture_compute_phase(params.demand, compute)
    } else {
        (ns_compute_phase(params.demand, compute), Vec::new())
    };
    let compute_output = get_engine_metrics(params, t1, traces2);
    let output = match computed {
        Ok(o) => o,
        Err(_) => {
            return Err(LabError::UnimplementedScenario);
        },
    };
    let output_r: Option<Val> = if params.reflect_dcg {
        Some(Ar::reflect_output(&output))
    } else {
        None
    };
    let engine_sample = EngineSample {
        process_input,
        compute_output,
        input: input_r,
        output: output_r,
    };
    Ok((output, edited_input, editst, engine_sample))
}

impl<I, S> LabState<I, S> {
    /// Advances the harness by one sample of each engine: under the naive
    /// engine and then under the restored incremental engine, processes the
    /// current input and computes a new output over it, both times from the
    /// same generator position; optionally compares the outputs.  Returns
    /// `None` once the batch index has passed the configured loop count.
    pub fn sample<O, Ed: Generate<I> + Edit<I, S>, Ar: ComputeDemand<I, O>>(&mut self) -> (r:
        Result<Option<Sample>, LabError>)
        requires
            lab_inv::<I, S, Ed>(*old(self)),
        ensures
            old(self).change_batch_num > old(self).params.change_batch_loopc ==> r == Ok::<
                Option<Sample>,
                LabError,
            >(None),
            (match r {
                Ok(Some(s)) => {
                    let step_input = spec_input_at::<I, S, Ed>(
                        old(self).params.sample_params.generate_params,
                        old(self).params.sample_params.input_seeds@,
                        old(self).change_batch_num as nat,
                    );
                    let step_output = Ar::compute_demand_spec(
                        step_input,
                        old(self).params.sample_params.demand,
                    )->Some_0;
                    &&& lab_inv::<I, S, Ed>(*final (self))
                    &&& old(self).change_batch_num <= old(self).params.change_batch_loopc
                    &&& final (self).change_batch_num == old(self).change_batch_num + 1
                    &&& final (self).params == old(self).params
                    &&& final (self).samples == old(self).samples
                    &&& s.batch_name == old(self).change_batch_num
                    &&& Ar::compute_demand_spec(
                        step_input,
                        old(self).params.sample_params.demand,
                    ) is Some
                    &&& (old(self).params.sample_params.validate_output ==> s.output_valid
                        == Some(true))
                    &&& (!old(self).params.sample_params.validate_output ==> s.output_valid
                        is None)
                    &&& (old(self).params.sample_params.reflect_dcg ==> (match s.dcg_sample.input {
                        Some(v) => Ar::reflect_input_ok(step_input, v),
                        None => false,
                    }) && (match s.dcg_sample.output {
                        Some(v) => Ar::reflect_output_ok(step_output, v),
                        None => false,
                    }) && (match s.naive_sample.input {
                        Some(v) => Ar::reflect_input_ok(step_input, v),
                        None => false,
                    }) && (match s.naive_sample.output {
                        Some(v) => Ar::reflect_output_ok(step_output, v),
                        None => false,
                    }))
                    &&& (!old(self).params.sample_params.reflect_dcg ==> s.dcg_sample.input
                        is None && s.dcg_sample.output is None && s.naive_sample.input is None
                        && s.naive_sample.output is None)
                },
                Ok(None) => *final (self) == *old(self) && old(self).change_batch_num > old(
                    self,
                ).params.change_batch_loopc,
                Err(e) => {
                    &&& (e == LabError::UnimplementedScenario || e == LabError::BackendDesync)
                    &&& final (self).params == old(self).params
                    &&& final (self).samples == old(self).samples
                    &&& old(self).change_batch_num <= old(self).params.change_batch_loopc
                    &&& (e == LabError::UnimplementedScenario ==> Ar::compute_demand_spec(
                        spec_input_at::<I, S, Ed>(
                            old(self).params.sample_params.generate_params,
                            old(self).params.sample_params.input_seeds@,
                            old(self).change_batch_num as nat,
                        ),
                        old(self).params.sample_params.demand,
                    ) is None)
                },
            }),
    {
        if self.change_batch_num > self.params.change_batch_loopc {
            return Ok(None);
        }
        // Run the naive engine's share: install it and fail fast if the
        // installation did not take effect.
        let _resting = use_engine(engine_naive());
        if !engine_is_naive() {
            return Err(LabError::BackendDesync);
        }
        let mut rng_naive: LabRng = self.rng;
        let naive_input = self.naive_state.input.take();
        let naive_res = get_engine_sample::<I, S, O, Ed, Ar>(
            &mut rng_naive,
            &self.params.sample_params,
            naive_input,
        );
        let (naive_output, naive_inp, naive_st, naive_sample) = match naive_res {
            Ok(x) => x,
            Err(e) => {
                return Err(e);
            },
        };
        self.naive_state.input = Some((naive_inp, naive_st));
        // Run the incremental engine's share: restore its persisted engine
        // token, fail fast if the installation did not take effect, and
        // clone the generator from the same pre-step position the naive
        // engine started at.
        let mut saved_engine = engine_naive();
        core::mem::swap(&mut saved_engine, &mut self.dcg_state.engine);
        let _resting2 = use_engine(saved_engine);
        if !engine_is_dcg() {
            return Err(LabError::BackendDesync);
        }
        let mut rng_dcg: LabRng = self.rng;
        let dcg_input = self.dcg_state.input.take();
        let dcg_res = get_engine_sample::<I, S, O, Ed, Ar>(
            &mut rng_dcg,
            &self.params.sample_params,
            dcg_input,
        );
        let (dcg_output, dcg_inp, dcg_st, dcg_sample) = match dcg_res {
            Ok(x) => x,
            Err(e) => {
                return Err(e);
            },
        };
        // Swap the incremental engine back out and persist it, along with
        // the new input and edit-state.
        self.dcg_state.engine = use_engine(engine_naive());
        self.dcg_state.input = Some((dcg_inp, dcg_st));
        // Advance the single running generator to the post-step position;
        // both engines consumed an identical prefix of randomness, so either
        // clone's final position is the canonical one.
        self.rng = rng_dcg;
        // Compare the two outputs for equality.
        let output_valid: Option<bool> = if self.params.sample_params.validate_output {
            let eq = Ar::output_eq(&dcg_output, &naive_output);
            proof {
                Ar::output_eq_refl(dcg_output);
            }
            Some(eq)
        } else {
            None
        };
        let sample = Sample {
            batch_name: self.change_batch_num,
            dcg_sample,
            naive_sample,
            output_valid,
        };
        self.change_batch_num = self.change_batch_num + 1;
        Ok(Some(sample))
    }
}

/// Determinism of the harness: its whole observable position - the held
/// input and edit-state pair of either engine, and the generator - is a
/// function of the configuration and the batch index alone.  Two runs over
/// the same seeds and parameters stand at identical values after the same
/// number of steps, whatever else happened around them.
pub proof fn lemma_determinism<I, S, Ed: Generate<I> + Edit<I, S>>(
    a: LabState<I, S>,
    b: LabState<I, S>,
)
    requires
        lab_inv::<I, S, Ed>(a),
        lab_inv::<I, S, Ed>(b),
        lab_params_eqv(a.params, b.params),
        a.change_batch_num == b.change_batch_num,
    ensures
        a.naive_state.input == b.naive_state.input,
        a.dcg_state.input == b.dcg_state.input,
        a.rng == b.rng,
{
}

/// Cross-engine input equality: at every step, the input and edit-state
/// pair the naive engine holds is equal - as a value, not merely in shape -
/// to the pair the incremental engine holds.
pub proof fn lemma_cross_engine_input_equality<I, S, Ed: Generate<I> + Edit<I, S>>(
    st: LabState<I, S>,
)
    requires
        lab_inv::<I, S, Ed>(st),
    ensures
        st.naive_state.input == st.dcg_state.input,
{
}

/// Creates the initial harness state: rejects malformed parameters, seeds
/// the generator, installs a fresh, empty incremental engine and captures
/// its token, then leaves the naive engine as the resting context.
pub fn get_sample_gen<I, S, Ed: Generate<I> + Edit<I, S>>(params: &LabParams) -> (r: Result<
    LabState<I, S>,
    LabError,
>)
    ensures
        (match r {
            Ok(st) => {
                &&& params.wf()
                &&& lab_inv::<I, S, Ed>(st)
                &&& st.change_batch_num == 0
                &&& st.samples@.len() == 0
                &&& lab_params_eqv(st.params, *params)
            },
            Err(e) => {
                &&& (e == LabError::Configuration || e == LabError::BackendDesync)
                &&& (e == LabError::Configuration <==> !params.wf())
            },
        }),
{
    match check_lab_params(params) {
        Ok(()) => {},
        Err(e) => {
            return Err(e);
        },
    }
    // Create an empty incremental graph, check it took effect, and swap it
    // out again: the naive engine is the resting context between steps.
    let _prior = init_dcg();
    if !engine_is_dcg() {
        return Err(LabError::BackendDesync);
    }
    let empty_dcg = use_engine(engine_naive());
    let rng = LabRng::from_seeds(&params.sample_params.input_seeds);
    Ok(
        LabState {
            params: duplicate_lab_params(params),
            rng,
            change_batch_num: 0,
            dcg_state: LabEngineState { engine: empty_dcg, input: None },
            naive_state: LabEngineState { engine: engine_naive(), input: None },
            samples: Vec::new(),
        },
    )
}

/// What one run guarantees about its result.  On success the run was
/// configured with well-formed parameters, produced one sample per change
/// batch (indexed in order, each validated when validation is on), and the
/// scenario's computation was implemented at every executed step; a
/// configuration error comes exactly on malformed parameters, and a
/// scenario-stub error only when some executed step's computation is a
/// declared stub.
pub open spec fn lab_run_post<I, S, O, Ed: Generate<I> + Edit<I, S>, Ar: ComputeDemand<I, O>>(
    params: LabParams,
    r: Result<LabResults, LabError>,
) -> bool {
    match r {
        Ok(res) => {
            &&& params.wf()
            &&& res.samples@.len() == params.change_batch_loopc + 1
            &&& forall|i: int|
                0 <= i < res.samples@.len() ==> (#[trigger] res.samples@[i]).batch_name == i
            &&& (params.sample_params.validate_output ==> forall|i: int|
                0 <= i < res.samples@.len() ==> (#[trigger] res.samples@[i]).output_valid
                    == Some(true))
            &&& (!params.sample_params.validate_output ==> forall|i: int|
                0 <= i < res.samples@.len() ==> (#[trigger] res.samples@[i]).output_valid
                    is None)
            &&& forall|n: nat|
                n <= params.change_batch_loopc ==> Ar::compute_demand_spec(
                    #[trigger] spec_input_at::<I, S, Ed>(
                        params.sample_params.generate_params,
                        params.sample_params.input_seeds@,
                        n,
                    ),
                    params.sample_params.demand,
                ) is Some
        },
        Err(e) => {
            &&& (e == LabError::Configuration <==> !params.wf())
            &&& (e == LabError::UnimplementedScenario ==> exists|n: nat|
                n <= params.change_batch_loopc && Ar::compute_demand_spec(
                    #[trigger] spec_input_at::<I, S, Ed>(
                        params.sample_params.generate_params,
                        params.sample_params.input_seeds@,
                        n,
                    ),
                    params.sample_params.demand,
                ) is None)
        },
    }
}

/// A lab definition: a generic notion of an incremental computation that
/// can be evaluated and tested, instantiated once for each scenario in the
/// catalog.  It binds an input distribution (`Ed`) and a computation (`Ar`)
/// under a display name and an optional documentation URL.
pub struct LabDef<I, S, O, Ed: Generate<I> + Edit<I, S>, Ar: ComputeDemand<I, O>> {
    pub identity: Name,
    pub url: Option<String>,
    pub editor: PhantomData<Ed>,
    pub archivist: PhantomData<Ar>,
    pub input: PhantomData<I>,
    pub editst: PhantomData<S>,
    pub output: PhantomData<O>,
}

/// Abstracts over the parts of a `LabDef`: hides its input, output and
/// scenario types behind a uniform run operation, while each implementor
/// publishes, through the spec functions, its display name, its URL, and
/// what a run of it guarantees.
pub trait Lab {
    /// The display name this lab runs under.
    spec fn name_spec(&self) -> Seq<char>;

    /// The documentation URL, if any.
    spec fn url_spec(&self) -> Option<Seq<char>>;

    /// What one run of this lab guarantees about its result.
    spec fn run_post(&self, params: LabParams, r: Result<LabResults, LabError>) -> bool;

    fn name(&self) -> (n: Name)
        ensures
            n@ == self.name_spec(),
    ;

    fn url(&self) -> (u: &Option<String>)
        ensures
            (match u {
                Some(s) => self.url_spec() == Some(s@),
                None => self.url_spec() is None,
            }),
    ;

    fn run(&self, params: &LabParams) -> (r: Result<LabResults, LabError>)
        ensures
            self.run_post(*params, r),
    ;
}

impl<I, S, O, Ed: Generate<I> + Edit<I, S>, Ar: ComputeDemand<I, O>> LabDef<I, S, O, Ed, Ar> {
    /// Binds a scenario under a display name and optional URL.
    pub fn new(identity: Name, url: Option<String>) -> (r: LabDef<I, S, O, Ed, Ar>)
        ensures
            r.identity@ == identity@,
            r.url == url,
    {
        LabDef {
            identity,
            url,
            editor: PhantomData,
            archivist: PhantomData,
            input: PhantomData,
            editst: PhantomData,
            output: PhantomData,
        }
    }

    /// Runs one experiment: collects one sample per change batch, from the
    /// initial generation through `change_batch_loopc` further batches.  On
    /// well-formed parameters and an implemented scenario this yields
    /// exactly `change_batch_loopc + 1` samples, indexed in order, every
    /// one validated when validation is on; a stub scenario terminates the
    /// run with no partial sample sequence.
    pub fn run_lab(&self, params: &LabParams) -> (r: Result<LabResults, LabError>)
        ensures
            lab_run_post::<I, S, O, Ed, Ar>(*params, r),
    {
        let mut st: LabState<I, S> = match get_sample_gen::<I, S, Ed>(params) {
            Ok(st) => st,
            Err(e) => {
                return Err(e);
            },
        };
        loop
            invariant_except_break
                lab_inv::<I, S, Ed>(st),
                lab_params_eqv(st.params, *params),
                params.wf(),
                st.samples@.len() == st.change_batch_num,
                forall|n: nat|
                    n < st.change_batch_num ==> Ar::compute_demand_spec(
                        #[trigger] spec_input_at::<I, S, Ed>(
                            params.sample_params.generate_params,
                            params.sample_params.input_seeds@,
                            n,
                        ),
                        params.sample_params.demand,
                    ) is Some,
                forall|i: int|
                    0 <= i < st.samples@.len() ==> (#[trigger] st.samples@[i]).batch_name == i,
                params.sample_params.validate_output ==> forall|i: int|
                    0 <= i < st.samples@.len() ==> (#[trigger] st.samples@[i]).output_valid
                        == Some(true),
                !params.sample_params.validate_output ==> forall|i: int|
                    0 <= i < st.samples@.len() ==> (#[trigger] st.samples@[i]).output_valid
                        is None,
            ensures
                st.samples@.len() == params.change_batch_loopc + 1,
                forall|n: nat|
                    n <= params.change_batch_loopc ==> Ar::compute_demand_spec(
                        #[trigger] spec_input_at::<I, S, Ed>(
                            params.sample_params.generate_params,
                            params.sample_params.input_seeds@,
                            n,
                        ),
                        params.sample_params.demand,
                    ) is Some,
                forall|i: int|
                    0 <= i < st.samples@.len() ==> (#[trigger] st.samples@[i]).batch_name == i,
                params.sample_params.validate_output ==> forall|i: int|
                    0 <= i < st.samples@.len() ==> (#[trigger] st.samples@[i]).output_valid
                        == Some(true),
                !params.sample_params.validate_output ==> forall|i: int|
                    0 <= i < st.samples@.len() ==> (#[trigger] st.samples@[i]).output_valid
                        is None,
            decreases params.change_batch_loopc + 2 - st.change_batch_num,
        {
            let next = st.sample::<O, Ed, Ar>();
            match next {
                Ok(Some(s)) => {
                    st.samples.push(s);
                },
                Ok(None) => {
                    break ;
                },
                Err(e) => {
                    return Err(e);
                },
            }
        }
        Ok(LabResults { samples: st.samples })
    }
}

impl<I, S, O, Ed: Generate<I> + Edit<I, S>, Ar: ComputeDemand<I, O>> Lab for LabDef<
    I,
    S,
    O,
    Ed,
    Ar,
> {
    open spec fn name_spec(&self) -> Seq<char> {
        self.identity@
    }

    open spec fn url_spec(&self) -> Option<Seq<char>> {
        match self.url {
            Some(u) => Some(u@),
            None => None,
        }
    }

    open spec fn run_post(&self, params: LabParams, r: Result<LabResults, LabError>) -> bool {
        lab_run_post::<I, S, O, Ed, Ar>(params, r)
    }

    fn name(&self) -> (n: Name) {
        self.identity.duplicate()
    }

    fn url(&self) -> (u: &Option<String>) {
        &self.url
    }

    fn run(&self, params: &LabParams) -> (r: Result<LabResults, LabError>) {
        self.run_lab(params)
    }
}

} // verus!
