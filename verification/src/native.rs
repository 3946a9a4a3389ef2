//! The engine's entry points as values: what the lifecycle decides to call, for
//! its caller to carry out.

use vstd::prelude::*;
use vstd::multiset::Multiset;
use crate::numa::NumaStrategy;

verus! {

/// One call into the engine.
#[derive(Clone, Copy, Debug, PartialEq, Eq, Structural)]
pub enum NativeCall {
    /// The initialisation entry point. It takes no argument.
    BackendInit,
    /// The NUMA configuration entry point, with the integer code of a policy.
    NumaInit(u32),
    /// The registration of the log callback, with an empty context.
    LogSet,
    /// The teardown entry point. It takes no argument.
    BackendFree,
}

/// The calls that bring the engine up under a policy, in the order in which
/// they are made: initialisation, then the policy, then the log callback.
pub open spec fn startup_calls(numa: NumaStrategy) -> Seq<NativeCall> {
    seq![NativeCall::BackendInit, NativeCall::NumaInit(numa.code()), NativeCall::LogSet]
}

/// The one call that tears the engine down.
pub open spec fn teardown_calls() -> Seq<NativeCall> {
    seq![NativeCall::BackendFree]
}


/// How far the engine has been brought up.
pub enum EngineState {
    /// Not initialised.
    Down,
    /// Initialised; no policy configured yet.
    Started,
    /// Policy configured; no log callback registered yet.
    Configured,
    /// Fully brought up: models and sessions may exist.
    Ready,
}

/// The state in which a call leaves the engine, or `None` where the engine's
/// interface does not allow the call in that state. Initialisation is allowed
/// only while the engine is down, the policy only directly after it and with
/// the code of a policy, the log callback only directly after that, and
/// teardown only of an engine that is fully up.
pub open spec fn engine_step(state: EngineState, call: NativeCall) -> Option<EngineState> {
    match (state, call) {
        (EngineState::Down, NativeCall::BackendInit) => Some(EngineState::Started),
        (EngineState::Started, NativeCall::NumaInit(code)) => if NumaStrategy::from_code(
            code,
        ) is Some {
            Some(EngineState::Configured)
        } else {
            None
        },
        (EngineState::Configured, NativeCall::LogSet) => Some(EngineState::Ready),
        (EngineState::Ready, NativeCall::BackendFree) => Some(EngineState::Down),
        _ => None,
    }
}

/// The state in which a sequence of calls leaves the engine, or `None` where
/// one of them is not allowed when it is made.
pub open spec fn engine_run(state: EngineState, calls: Seq<NativeCall>) -> Option<EngineState>
    decreases calls.len(),
{
    if calls.len() == 0 {
        Some(state)
    } else {
        match engine_step(state, calls.first()) {
            Some(next) => engine_run(next, calls.drop_first()),
            None => None,
        }
    }
}

/// How often a call occurs in a sequence of calls.
pub open spec fn occurrences(calls: Seq<NativeCall>, call: NativeCall) -> nat {
    calls.to_multiset().count(call)
}

/// Running two sequences of calls one after the other is running their
/// concatenation.
pub proof fn lemma_engine_run_concat(state: EngineState, a: Seq<NativeCall>, b: Seq<NativeCall>)
    ensures
        engine_run(state, a + b) == match engine_run(state, a) {
            Some(mid) => engine_run(mid, b),
            None => None,
        },
    decreases a.len(),
{
    if a.len() == 0 {
        assert(a + b =~= b);
    } else {
        assert((a + b).first() == a.first());
        assert((a + b).drop_first() =~= a.drop_first() + b);
        match engine_step(state, a.first()) {
            Some(next) => {
                lemma_engine_run_concat(next, a.drop_first(), b);
            },
            None => {},
        }
    }
}

/// Bringing the engine up under any policy takes it from down to ready, and
/// tearing it down takes it from ready to down.
pub proof fn lemma_startup_teardown(numa: NumaStrategy)
    ensures
        engine_run(EngineState::Down, startup_calls(numa)) == Some(EngineState::Ready),
        engine_run(EngineState::Ready, teardown_calls()) == Some(EngineState::Down),
{
    reveal_with_fuel(engine_run, 4);
    NumaStrategy::lemma_round_trip(numa);
    let up = startup_calls(numa);
    assert(up.drop_first() =~= seq![NativeCall::NumaInit(numa.code()), NativeCall::LogSet]);
    assert(up.drop_first().drop_first() =~= seq![NativeCall::LogSet]);
    assert(up.drop_first().drop_first().drop_first() =~= Seq::<NativeCall>::empty());
    assert(teardown_calls().drop_first() =~= Seq::<NativeCall>::empty());
}

/// The occurrences of a call in a concatenation are those in its two parts.
pub proof fn lemma_occurrences_concat(a: Seq<NativeCall>, b: Seq<NativeCall>, call: NativeCall)
    ensures
        occurrences(a + b, call) == occurrences(a, call) + occurrences(b, call),
{
    vstd::seq_lib::lemma_multiset_commutative(a, b);
}

/// Bringing the engine up calls each of its three entry points once and does
/// not tear down; tearing down is the one teardown call.
pub proof fn lemma_occurrences_startup_teardown(numa: NumaStrategy)
    ensures
        occurrences(Seq::empty(), NativeCall::BackendInit) == 0,
        occurrences(Seq::empty(), NativeCall::BackendFree) == 0,
        occurrences(startup_calls(numa), NativeCall::BackendInit) == 1,
        occurrences(startup_calls(numa), NativeCall::NumaInit(numa.code())) == 1,
        occurrences(startup_calls(numa), NativeCall::LogSet) == 1,
        occurrences(startup_calls(numa), NativeCall::BackendFree) == 0,
        occurrences(teardown_calls(), NativeCall::BackendInit) == 0,
        occurrences(teardown_calls(), NativeCall::BackendFree) == 1,
{
    broadcast use vstd::multiset::group_multiset_axioms;
    broadcast use vstd::seq_lib::to_multiset_build;

    let e = Seq::<NativeCall>::empty();
    assert(e.to_multiset() =~= Multiset::<NativeCall>::empty()) by {
        e.to_multiset_ensures();
    }
    let a = e.push(NativeCall::BackendInit);
    let b = a.push(NativeCall::NumaInit(numa.code()));
    let c = b.push(NativeCall::LogSet);
    assert(c =~= startup_calls(numa));
    assert(e.push(NativeCall::BackendFree) =~= teardown_calls());
}

} // verus!
