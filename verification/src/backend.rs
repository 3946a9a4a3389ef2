//! The engine's marker, the shared slot that counts its users, and the handle
//! that each user holds.

use vstd::prelude::*;
use crate::native::NativeCall;
use crate::native::startup_calls;
use crate::native::teardown_calls;
use crate::numa::NumaStrategy;

verus! {

/// The policy that the engine is brought up under when none is asked for.
pub open spec fn default_strategy() -> NumaStrategy {
    NumaStrategy::Distribute
}

/// The number of handles after one more is acquired or cloned.
pub open spec fn acquired(count: nat) -> nat {
    count + 1
}

/// The number of handles after one is released. A release that finds none
/// leaves none.
pub open spec fn released(count: nat) -> nat {
    if count == 0 {
        0
    } else {
        (count - 1) as nat
    }
}

/// What acquiring a handle has the caller do, by the number of handles before.
pub open spec fn acquire_calls(count: nat) -> Seq<NativeCall> {
    if count == 0 {
        startup_calls(default_strategy())
    } else {
        Seq::empty()
    }
}

/// What releasing a handle has the caller do, by the number of handles before.
pub open spec fn release_calls(count: nat) -> Seq<NativeCall> {
    if count == 1 {
        teardown_calls()
    } else {
        Seq::empty()
    }
}

/// Marker of an initialised engine. It carries nothing.
#[derive(Debug)]
pub struct Backend {
    marker: (),
}

impl Backend {
    /// Brings the engine up under the default policy, `Distribute`.
    #[must_use]
    pub fn init() -> (res: (Backend, Vec<NativeCall>))
        ensures
            res.1@ == startup_calls(default_strategy()),
    {
        Self::init_with_numa(NumaStrategy::Distribute)
    }

    /// Brings the engine up under `numa`: the marker, and the calls that the
    /// caller makes for it, in order. It is for the holder of the lock to
    /// call, on a slot that is empty.
    #[must_use]
    pub fn init_with_numa(numa: NumaStrategy) -> (res: (Backend, Vec<NativeCall>))
        ensures
            res.1@ == startup_calls(numa),
    {
        let calls = vec![
            NativeCall::BackendInit,
            NativeCall::NumaInit(numa.into()),
            NativeCall::LogSet,
        ];
        (Backend { marker: () }, calls)
    }

    /// Gives the marker up: the calls that tear the engine down. It is for
    /// the holder of the lock to call, when the last handle is released.
    #[must_use]
    pub fn drop(self) -> (calls: Vec<NativeCall>)
        ensures
            calls@ == teardown_calls(),
    {
        vec![NativeCall::BackendFree]
    }
}

/// A release that found the slot empty: the engine was torn down before.
#[derive(Clone, Copy, Debug, PartialEq, Eq, Structural)]
pub struct AlreadyFreed {}

/// The shared lifecycle state: the marker of the engine and the number of
/// handles, or nothing. Its holder keeps it behind one lock, and carries out
/// the calls that an operation returns before unlocking.
#[derive(Debug)]
pub struct BackendSlot {
    entry: Option<(Backend, usize)>,
}

impl View for BackendSlot {
    type V = nat;

    /// The number of live handles; 0 stands for the empty slot.
    closed spec fn view(&self) -> nat {
        match self.entry {
            Some((_, count)) => count as nat,
            None => 0,
        }
    }
}

impl BackendSlot {
    /// A stored count is at least 1.
    #[verifier::type_invariant]
    spec fn counted(self) -> bool {
        self.entry matches Some((_, count)) ==> count >= 1
    }

    /// The empty slot.
    pub fn new() -> (slot: BackendSlot)
        ensures
            slot@ == 0,
    {
        BackendSlot { entry: None }
    }

    /// The number of live handles.
    pub fn count(&self) -> (count: usize)
        ensures
            count == self@,
    {
        match &self.entry {
            Some((_, count)) => *count,
            None => 0,
        }
    }

    /// Whether the engine is initialised: whether there is a live handle.
    pub fn is_initialized(&self) -> (live: bool)
        ensures
            live == (self@ > 0),
    {
        proof {
            use_type_invariant(self);
        }
        self.entry.is_some()
    }
}

/// One unit of ownership of the engine. A handle is counted from `new` or
/// `clone` until it is handed to `drop`; one that merely goes out of scope
/// stays counted, and the engine stays up.
#[derive(Debug)]
pub struct BackendRef {
    marker: (),
}

impl BackendRef {
    /// Acquires a handle. On the empty slot the engine is brought up first,
    /// under the default policy, and the count becomes one; else the count
    /// goes up by one and no call is made.
    #[must_use]
    pub fn new(slot: &mut BackendSlot) -> (res: (BackendRef, Vec<NativeCall>))
        requires
            old(slot)@ < usize::MAX,
        ensures
            final(slot)@ == acquired(old(slot)@),
            res.1@ == acquire_calls(old(slot)@),
    {
        proof {
            use_type_invariant(&*slot);
        }
        let mut entry = None;
        std::mem::swap(&mut entry, &mut slot.entry);
        let calls = match entry {
            Some((backend, count)) => {
                slot.entry = Some((backend, count + 1));
                Vec::new()
            },
            None => {
                let (backend, calls) = Backend::init();
                slot.entry = Some((backend, 1));
                calls
            },
        };
        (BackendRef { marker: () }, calls)
    }

    /// A further handle beside this one: it is acquired as by `new`. A clone
    /// never tears the engine down.
    #[must_use]
    pub fn clone(&self, slot: &mut BackendSlot) -> (res: (BackendRef, Vec<NativeCall>))
        requires
            old(slot)@ < usize::MAX,
        ensures
            final(slot)@ == acquired(old(slot)@),
            res.1@ == acquire_calls(old(slot)@),
    {
        Self::new(slot)
    }

    /// Releases the handle. The count goes down by one, and with the last
    /// handle the engine is torn down. On the empty slot nothing changes and
    /// the release is reported.
    pub fn drop(self, slot: &mut BackendSlot) -> (res: Result<Vec<NativeCall>, AlreadyFreed>)
        ensures
            final(slot)@ == released(old(slot)@),
            res is Err <==> old(slot)@ == 0,
            res matches Ok(calls) ==> calls@ == release_calls(old(slot)@),
    {
        proof {
            use_type_invariant(&*slot);
        }
        let mut entry = None;
        std::mem::swap(&mut entry, &mut slot.entry);
        match entry {
            Some((backend, count)) => {
                if count == 1 {
                    Ok(backend.drop())
                } else {
                    slot.entry = Some((backend, count - 1));
                    Ok(Vec::new())
                }
            },
            None => Err(AlreadyFreed {}),
        }
    }
}

} // verus!
