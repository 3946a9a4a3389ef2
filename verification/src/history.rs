//! Histories of handle operations on one slot, as the lock orders them, and
//! what holds of every history.

use vstd::prelude::*;
use crate::backend::acquire_calls;
use crate::backend::acquired;
use crate::backend::default_strategy;
use crate::backend::release_calls;
use crate::backend::released;
use crate::native::engine_run;
use crate::native::lemma_engine_run_concat;
use crate::native::lemma_occurrences_concat;
use crate::native::lemma_occurrences_startup_teardown;
use crate::native::lemma_startup_teardown;
use crate::native::occurrences;
use crate::native::teardown_calls;
use crate::native::EngineState;
use crate::native::NativeCall;

verus! {

/// One operation on a handle.
pub enum HandleOp {
    /// `BackendRef::new`.
    Acquire,
    /// `BackendRef::clone`.
    Clone,
    /// `BackendRef::drop`.
    Release,
}

/// The number of handles after an operation.
pub open spec fn count_step(count: nat, op: HandleOp) -> nat {
    match op {
        HandleOp::Acquire => acquired(count),
        HandleOp::Clone => acquired(count),
        HandleOp::Release => released(count),
    }
}

/// The calls into the engine that an operation has its caller make.
pub open spec fn calls_step(count: nat, op: HandleOp) -> Seq<NativeCall> {
    match op {
        HandleOp::Acquire => acquire_calls(count),
        HandleOp::Clone => acquire_calls(count),
        HandleOp::Release => release_calls(count),
    }
}

/// The number of handles after a history that starts with `count` handles.
pub open spec fn count_after(count: nat, ops: Seq<HandleOp>) -> nat
    decreases ops.len(),
{
    if ops.len() == 0 {
        count
    } else {
        count_after(count_step(count, ops.first()), ops.drop_first())
    }
}

/// The calls into the engine made during a history, in order.
pub open spec fn calls_during(count: nat, ops: Seq<HandleOp>) -> Seq<NativeCall>
    decreases ops.len(),
{
    if ops.len() == 0 {
        Seq::empty()
    } else {
        calls_step(count, ops.first()) + calls_during(
            count_step(count, ops.first()),
            ops.drop_first(),
        )
    }
}

/// How often during a history the count leaves zero: the number of maximal
/// intervals of nonzero count that begin in it.
pub open spec fn rises(count: nat, ops: Seq<HandleOp>) -> nat
    decreases ops.len(),
{
    if ops.len() == 0 {
        0
    } else {
        let next = count_step(count, ops.first());
        let here: nat = if count == 0 && next > 0 {
            1
        } else {
            0
        };
        here + rises(next, ops.drop_first())
    }
}

/// How often during a history the count returns to zero.
pub open spec fn falls(count: nat, ops: Seq<HandleOp>) -> nat
    decreases ops.len(),
{
    if ops.len() == 0 {
        0
    } else {
        let next = count_step(count, ops.first());
        let here: nat = if count > 0 && next == 0 {
            1
        } else {
            0
        };
        here + falls(next, ops.drop_first())
    }
}

/// The state that the engine is to be in beside a count: ready while there
/// are handles, down while there are none.
pub open spec fn engine_for(count: nat) -> EngineState {
    if count > 0 {
        EngineState::Ready
    } else {
        EngineState::Down
    }
}

/// The number of handles that exist after a history, where `handles` existed
/// at its start: every acquire and every clone makes one, every release
/// consumes one.
pub open spec fn handles_after(handles: int, ops: Seq<HandleOp>) -> int
    decreases ops.len(),
{
    if ops.len() == 0 {
        handles
    } else {
        match ops.first() {
            HandleOp::Acquire => handles_after(handles + 1, ops.drop_first()),
            HandleOp::Clone => handles_after(handles + 1, ops.drop_first()),
            HandleOp::Release => handles_after(handles - 1, ops.drop_first()),
        }
    }
}

/// Whether every clone and every release in a history is made through a
/// handle that exists, where `handles` exist at its start.
pub open spec fn through_handles(handles: int, ops: Seq<HandleOp>) -> bool
    decreases ops.len(),
{
    if ops.len() == 0 {
        true
    } else {
        match ops.first() {
            HandleOp::Acquire => through_handles(handles + 1, ops.drop_first()),
            HandleOp::Clone => handles > 0 && through_handles(handles + 1, ops.drop_first()),
            HandleOp::Release => handles > 0 && through_handles(handles - 1, ops.drop_first()),
        }
    }
}

/// Whether `merged` is an interleaving of the histories `a` and `b` of two
/// threads: it holds the operations of both, each thread's in its own order.
pub open spec fn interleaves(a: Seq<HandleOp>, b: Seq<HandleOp>, merged: Seq<HandleOp>) -> bool
    decreases merged.len(),
{
    if merged.len() == 0 {
        a.len() == 0 && b.len() == 0
    } else {
        ||| (a.len() > 0 && a.first() == merged.first() && interleaves(
            a.drop_first(),
            b,
            merged.drop_first(),
        ))
        ||| (b.len() > 0 && b.first() == merged.first() && interleaves(
            a,
            b.drop_first(),
            merged.drop_first(),
        ))
    }
}

/// One operation uses the engine as its interface allows, and leaves it ready
/// exactly if handles remain.
pub proof fn lemma_step_keeps_engine(count: nat, op: HandleOp)
    ensures
        engine_run(engine_for(count), calls_step(count, op)) == Some(
            engine_for(count_step(count, op)),
        ),
{
    lemma_startup_teardown(default_strategy());
}

/// Every history uses the engine as its interface allows: it is initialised
/// only while down, configured and given its log callback once each time it
/// is initialised, and torn down only while ready. After the history the
/// engine is ready exactly if handles remain.
pub proof fn lemma_history_keeps_engine(count: nat, ops: Seq<HandleOp>)
    ensures
        engine_run(engine_for(count), calls_during(count, ops)) == Some(
            engine_for(count_after(count, ops)),
        ),
    decreases ops.len(),
{
    if ops.len() > 0 {
        let next = count_step(count, ops.first());
        lemma_step_keeps_engine(count, ops.first());
        lemma_history_keeps_engine(next, ops.drop_first());
        lemma_engine_run_concat(
            engine_for(count),
            calls_step(count, ops.first()),
            calls_during(next, ops.drop_first()),
        );
    }
}

/// At every point of a history the engine is ready exactly if the count is
/// not zero: it is never torn down while a handle is counted, and never left
/// up without one.
pub proof fn lemma_engine_matches_count(count: nat, ops: Seq<HandleOp>, i: int)
    requires
        0 <= i <= ops.len(),
    ensures
        engine_run(engine_for(count), calls_during(count, ops.take(i))) == Some(
            if count_after(count, ops.take(i)) > 0 {
                EngineState::Ready
            } else {
                EngineState::Down
            },
        ),
{
    lemma_history_keeps_engine(count, ops.take(i));
}

/// One operation tears the engine down exactly if it takes the count from
/// nonzero to zero, and initialises it exactly if it takes the count from
/// zero to nonzero.
pub proof fn lemma_step_edges(count: nat, op: HandleOp)
    ensures
        occurrences(calls_step(count, op), NativeCall::BackendFree) == (if count > 0 && count_step(
            count,
            op,
        ) == 0 {
            1nat
        } else {
            0nat
        }),
        occurrences(calls_step(count, op), NativeCall::BackendInit) == (if count == 0 && count_step(
            count,
            op,
        ) > 0 {
            1nat
        } else {
            0nat
        }),
{
    lemma_occurrences_startup_teardown(default_strategy());
}

/// In every history the engine's initialisation is called once for each
/// maximal interval of nonzero count, and its teardown once for each return
/// of the count to zero.
pub proof fn lemma_init_and_teardown_once(count: nat, ops: Seq<HandleOp>)
    ensures
        occurrences(calls_during(count, ops), NativeCall::BackendInit) == rises(count, ops),
        occurrences(calls_during(count, ops), NativeCall::BackendFree) == falls(count, ops),
    decreases ops.len(),
{
    if ops.len() == 0 {
        lemma_occurrences_startup_teardown(default_strategy());
    } else {
        let next = count_step(count, ops.first());
        lemma_step_edges(count, ops.first());
        lemma_init_and_teardown_once(next, ops.drop_first());
        lemma_occurrences_concat(
            calls_step(count, ops.first()),
            calls_during(next, ops.drop_first()),
            NativeCall::BackendInit,
        );
        lemma_occurrences_concat(
            calls_step(count, ops.first()),
            calls_during(next, ops.drop_first()),
            NativeCall::BackendFree,
        );
    }
}

/// A history without a release adds one handle per operation. From the empty
/// slot its calls are those of one startup, whatever the order of the
/// operations: the engine is initialised once.
pub proof fn lemma_acquire_only(count: nat, ops: Seq<HandleOp>)
    requires
        forall|i: int| 0 <= i < ops.len() ==> ops[i] != HandleOp::Release,
    ensures
        count_after(count, ops) == count + ops.len(),
        calls_during(count, ops) == (if ops.len() == 0 {
            Seq::empty()
        } else {
            acquire_calls(count)
        }),
        count == 0 && ops.len() > 0 ==> occurrences(
            calls_during(count, ops),
            NativeCall::BackendInit,
        ) == 1,
    decreases ops.len(),
{
    if ops.len() > 0 {
        let next = count_step(count, ops.first());
        assert(ops[0] != HandleOp::Release);
        assert forall|i: int| 0 <= i < ops.drop_first().len() implies ops.drop_first()[i]
            != HandleOp::Release by {
            assert(ops.drop_first()[i] == ops[i + 1]);
        }
        lemma_acquire_only(next, ops.drop_first());
        assert(calls_during(count, ops) =~= acquire_calls(count));
        lemma_occurrences_startup_teardown(default_strategy());
    }
}

/// Releasing as many handles as there are empties the slot. The one call
/// made is the teardown, with the last release.
pub proof fn lemma_release_all(count: nat, ops: Seq<HandleOp>)
    requires
        ops.len() == count,
        forall|i: int| 0 <= i < ops.len() ==> ops[i] == HandleOp::Release,
    ensures
        count_after(count, ops) == 0,
        calls_during(count, ops) == (if count == 0 {
            Seq::empty()
        } else {
            teardown_calls()
        }),
        count > 0 ==> occurrences(calls_during(count, ops), NativeCall::BackendFree) == 1,
    decreases ops.len(),
{
    if ops.len() > 0 {
        let next = count_step(count, ops.first());
        assert(ops[0] == HandleOp::Release);
        assert forall|i: int| 0 <= i < ops.drop_first().len() implies ops.drop_first()[i]
            == HandleOp::Release by {
            assert(ops.drop_first()[i] == ops[i + 1]);
        }
        lemma_release_all(next, ops.drop_first());
        assert(calls_during(count, ops) =~= teardown_calls());
        lemma_occurrences_startup_teardown(default_strategy());
    }
}

/// A clone never tears the engine down, and beside a live handle it makes no
/// call at all. Cloning a handle and then releasing the handle it was cloned
/// from leaves the count as it was, not zero, with no call made.
pub proof fn lemma_clone_then_release(count: nat)
    ensures
        occurrences(calls_step(count, HandleOp::Clone), NativeCall::BackendFree) == 0,
        count_step(count, HandleOp::Clone) > 0,
        count > 0 ==> calls_step(count, HandleOp::Clone) == Seq::<NativeCall>::empty(),
        count > 0 ==> count_after(count, seq![HandleOp::Clone, HandleOp::Release]) == count,
        count > 0 ==> calls_during(count, seq![HandleOp::Clone, HandleOp::Release]) == Seq::<
            NativeCall,
        >::empty(),
{
    lemma_occurrences_startup_teardown(default_strategy());
    if count > 0 {
        reveal_with_fuel(count_after, 3);
        reveal_with_fuel(calls_during, 3);
        let ops = seq![HandleOp::Clone, HandleOp::Release];
        assert(ops.drop_first() =~= seq![HandleOp::Release]);
        assert(ops.drop_first().drop_first() =~= Seq::<HandleOp>::empty());
        assert(calls_during(count, ops) =~= Seq::<NativeCall>::empty());
    }
}

/// Where every clone and every release is made through a handle that exists,
/// the count is the number of handles at every point of the history: it
/// never goes below zero, and no release finds the slot empty.
pub proof fn lemma_count_is_handles(count: nat, ops: Seq<HandleOp>, i: int)
    requires
        through_handles(count as int, ops),
        0 <= i <= ops.len(),
    ensures
        count_after(count, ops.take(i)) == handles_after(count as int, ops.take(i)),
        handles_after(count as int, ops.take(i)) >= 0,
        i < ops.len() && ops[i] == HandleOp::Release ==> count_after(count, ops.take(i)) > 0,
    decreases i,
{
    if i == 0 {
        assert(ops.take(0) =~= Seq::<HandleOp>::empty());
    } else {
        let next = count_step(count, ops.first());
        let rest = ops.drop_first();
        lemma_count_is_handles(next, rest, i - 1);
        assert(ops.take(i).first() == ops.first());
        assert(ops.take(i).drop_first() =~= rest.take(i - 1));
        if i < ops.len() {
            assert(rest[i - 1] == ops[i]);
        }
    }
}

/// While handles remain no call into the engine is made: a history that
/// never empties the slot neither initialises the engine again, nor
/// configures it, nor registers the log callback again, nor tears it down.
pub proof fn lemma_no_call_while_held(count: nat, ops: Seq<HandleOp>)
    requires
        forall|i: int| 0 <= i <= ops.len() ==> count_after(count, #[trigger] ops.take(i)) > 0,
    ensures
        calls_during(count, ops) == Seq::<NativeCall>::empty(),
    decreases ops.len(),
{
    assert(ops.take(0) =~= Seq::<HandleOp>::empty());
    assert(count_after(count, ops.take(0)) > 0);
    if ops.len() > 0 {
        let next = count_step(count, ops.first());
        let rest = ops.drop_first();
        assert(count_after(count, ops.take(1)) == next) by {
            assert(ops.take(1).first() == ops.first());
            assert(ops.take(1).drop_first() =~= Seq::<HandleOp>::empty());
            assert(count_after(next, Seq::<HandleOp>::empty()) == next);
        }
        assert forall|j: int| 0 <= j <= rest.len() implies count_after(
            next,
            #[trigger] rest.take(j),
        ) > 0 by {
            assert(ops.take(j + 1).drop_first() =~= rest.take(j));
            assert(count_after(count, ops.take(j + 1)) > 0);
        }
        lemma_no_call_while_held(next, rest);
        assert(calls_during(count, ops) =~= Seq::<NativeCall>::empty());
    }
}

/// Whatever the interleaving of two threads' operations, each thread working
/// through handles of its own: in the interleaved history too every clone
/// and release is made through a handle that exists, and after it the count
/// is the number of handles that the two threads hold together.
pub proof fn lemma_interleaving(
    x: nat,
    y: nat,
    a: Seq<HandleOp>,
    b: Seq<HandleOp>,
    merged: Seq<HandleOp>,
)
    requires
        through_handles(x as int, a),
        through_handles(y as int, b),
        interleaves(a, b, merged),
    ensures
        through_handles((x + y) as int, merged),
        count_after(x + y, merged) == handles_after(x as int, a) + handles_after(y as int, b),
{
    lemma_interleaving_handles(x, y, a, b, merged);
    lemma_count_is_handles(x + y, merged, merged.len() as int);
    assert(merged.take(merged.len() as int) =~= merged);
}

/// The bookkeeping of handles under an interleaving: the handles of the two
/// threads add up.
proof fn lemma_interleaving_handles(
    x: nat,
    y: nat,
    a: Seq<HandleOp>,
    b: Seq<HandleOp>,
    merged: Seq<HandleOp>,
)
    requires
        through_handles(x as int, a),
        through_handles(y as int, b),
        interleaves(a, b, merged),
    ensures
        through_handles((x + y) as int, merged),
        handles_after((x + y) as int, merged) == handles_after(x as int, a) + handles_after(
            y as int,
            b,
        ),
    decreases merged.len(),
{
    if merged.len() > 0 {
        let rest = merged.drop_first();
        if a.len() > 0 && a.first() == merged.first() && interleaves(a.drop_first(), b, rest) {
            let x_next = count_step(x, a.first());
            lemma_interleaving_handles(x_next, y, a.drop_first(), b, rest);
        } else {
            let y_next = count_step(y, b.first());
            lemma_interleaving_handles(x, y_next, a, b.drop_first(), rest);
        }
    }
}

} // verus!
