//! The backend abstraction: exactly two evaluation engines are supported, a
//! stateless baseline that recomputes from scratch and an incremental engine
//! that keeps a persistent dependency graph.  Installing an engine is a
//! global swap; after every switch the harness asserts, by a cheap read-only
//! query, that the intended engine is active.
//!
//! The engine itself is an outside collaborator: this module declares its
//! token, snapshot and counter types opaquely and wraps the handful of calls
//! the harness makes, stating nothing the engine's source does not show.
//! The engine refuses a trace capture opened twice, so opening and draining
//! the capture buffer is never exposed separately: each capture wrapper
//! opens the buffer, runs the given thunk, and drains, pairing the two calls
//! by construction.

use vstd::prelude::*;

verus! {

/// The engine token: either the stateless naive engine or an incremental
/// engine holding its demanded-computation graph.  Opaque to the harness.
#[verifier::external_type_specification]
#[verifier::external_body]
pub struct ExEngine(adapton::engine::Engine);

/// A reflected snapshot of the incremental engine's graph.  Opaque here;
/// renderers convert it to this library's own snapshot model.
#[verifier::external_type_specification]
#[verifier::external_body]
pub struct ExReflectDcg(adapton::reflect::DCG);

/// One reflected operation of the incremental engine.  Opaque here;
/// renderers convert it to this library's own trace model.
#[verifier::external_type_specification]
#[verifier::external_body]
pub struct ExReflectTrace(adapton::reflect::trace::Trace);

/// The engine's structured counter set over a captured trace log.  Opaque
/// here; renderers read its public counter fields directly.
#[verifier::external_type_specification]
#[verifier::external_body]
pub struct ExTraceCount(adapton::reflect::trace::TraceCount);

/// Relies on adapton::engine::Engine::Naive: constructs the token of the
/// stateless baseline engine.
#[verifier::external_body]
pub(crate) fn engine_naive() -> adapton::engine::Engine {
    adapton::engine::Engine::Naive
}

/// Relies on adapton::engine::manage::init_dcg: installs a fresh, empty
/// incremental engine globally and returns the token that was installed
/// before.
#[verifier::external_body]
pub(crate) fn init_dcg() -> adapton::engine::Engine {
    adapton::engine::manage::init_dcg()
}

/// Relies on adapton::engine::manage::use_engine: installs the given engine
/// globally and returns the token that was installed before.
#[verifier::external_body]
pub(crate) fn use_engine(engine: adapton::engine::Engine) -> adapton::engine::Engine {
    adapton::engine::manage::use_engine(engine)
}

/// Relies on adapton::engine::manage::engine_is_naive: whether the globally
/// installed engine is the naive one.
#[verifier::external_body]
pub(crate) fn engine_is_naive() -> bool {
    adapton::engine::manage::engine_is_naive()
}

/// Relies on adapton::engine::manage::engine_is_dcg: whether the globally
/// installed engine is an incremental one.
#[verifier::external_body]
pub(crate) fn engine_is_dcg() -> bool {
    adapton::engine::manage::engine_is_dcg()
}

/// Relies on adapton::engine::reflect_dcg::dcg_reflect_begin and
/// dcg_reflect_end: runs the thunk with the global trace buffer open and
/// returns its result beside the drained buffer.  The engine panics on a
/// nested capture, so the thunk must not reach another capture wrapper; the
/// harness runs captures strictly one after another.
#[verifier::external_body]
pub(crate) fn capture_phase<A, X, F: FnOnce(A) -> X>(arg: A, f: F) -> (r: (
    X,
    Vec<adapton::reflect::trace::Trace>,
))
    requires
        call_requires(f, (arg,)),
    ensures
        call_ensures(f, (arg,), r.0),
{
    adapton::engine::reflect_dcg::dcg_reflect_begin();
    let x = f(arg);
    let traces = adapton::engine::reflect_dcg::dcg_reflect_end();
    (x, traces)
}

/// Relies on adapton::engine::reflect_dcg::{dcg_reflect_begin,
/// dcg_reflect_end}, adapton::engine::ns and
/// adapton::engine::name_of_str: like `capture_phase`, but runs the thunk
/// inside the engine's named measurement scope for computations.
#[verifier::external_body]
pub(crate) fn capture_compute_phase<A, X, F: FnOnce(A) -> X>(arg: A, f: F) -> (r: (
    X,
    Vec<adapton::reflect::trace::Trace>,
))
    requires
        call_requires(f, (arg,)),
    ensures
        call_ensures(f, (arg,), r.0),
{
    adapton::engine::reflect_dcg::dcg_reflect_begin();
    let x = adapton::engine::ns(adapton::engine::name_of_str("compute"), move || f(arg));
    let traces = adapton::engine::reflect_dcg::dcg_reflect_end();
    (x, traces)
}

/// Relies on adapton::engine::ns and adapton::engine::name_of_str: runs the
/// thunk inside the engine's named measurement scope for computations,
/// without capturing a trace.
#[verifier::external_body]
pub(crate) fn ns_compute_phase<A, X, F: FnOnce(A) -> X>(arg: A, f: F) -> (r: X)
    requires
        call_requires(f, (arg,)),
    ensures
        call_ensures(f, (arg,), r),
{
    adapton::engine::ns(adapton::engine::name_of_str("compute"), move || f(arg))
}

/// Relies on adapton::engine::reflect_dcg::dcg_reflect_now: a snapshot of
/// the installed incremental engine's graph, or `None` under the naive
/// engine.  Reflecting runs every stored value through the engine's value
/// parser, which rejects some value shapes; it is total on graphs whose
/// values the parser supports, and trivially on empty graphs, which are the
/// only ones this crate's own scenarios produce.
#[verifier::external_body]
pub(crate) fn dcg_reflect_now() -> Option<adapton::reflect::DCG> {
    adapton::engine::reflect_dcg::dcg_reflect_now()
}

/// Relies on adapton::reflect::trace::trace_count: folds a captured trace
/// log into the engine's structured counter set.
#[verifier::external_body]
pub(crate) fn trace_count(
    traces: &Vec<adapton::reflect::trace::Trace>,
) -> adapton::reflect::trace::TraceCount {
    adapton::reflect::trace::trace_count(traces, None)
}

/// Relies on time::precise_time_ns: the current time in nanoseconds since
/// an unspecified epoch.
#[verifier::external_body]
pub(crate) fn precise_time_ns() -> u64 {
    time::precise_time_ns()
}

} // verus!
