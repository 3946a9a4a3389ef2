//! Hardware memory-affinity policies and their integer codes in the engine.

use vstd::prelude::*;

verus! {

/// A hardware memory-affinity (NUMA) policy that the engine is configured with
/// when it is initialised.
///
/// Further policies may be added; match with a fallback arm.
#[non_exhaustive]
#[derive(Clone, Copy, Debug, PartialEq, Eq, Structural)]
pub enum NumaStrategy {
    Disable,
    Distribute,
    Isolate,
    Numactl,
    Mirror,
    Count,
}

/// The rejection of an integer that is not the code of any policy.
#[derive(Clone, Copy, Debug, PartialEq, Eq, Structural)]
pub struct UnknownNumaCode {
    /// The integer that was rejected.
    pub code: u32,
}

impl NumaStrategy {
    /// The engine's integer code of a policy.
    pub open spec fn code(self) -> u32 {
        match self {
            NumaStrategy::Disable => 0,
            NumaStrategy::Distribute => 1,
            NumaStrategy::Isolate => 2,
            NumaStrategy::Numactl => 3,
            NumaStrategy::Mirror => 4,
            NumaStrategy::Count => 5,
        }
    }

    /// The policy whose code is the given integer, if there is one.
    pub open spec fn from_code(code: u32) -> Option<NumaStrategy> {
        if code == NumaStrategy::Disable.code() {
            Some(NumaStrategy::Disable)
        } else if code == NumaStrategy::Distribute.code() {
            Some(NumaStrategy::Distribute)
        } else if code == NumaStrategy::Isolate.code() {
            Some(NumaStrategy::Isolate)
        } else if code == NumaStrategy::Numactl.code() {
            Some(NumaStrategy::Numactl)
        } else if code == NumaStrategy::Mirror.code() {
            Some(NumaStrategy::Mirror)
        } else if code == NumaStrategy::Count.code() {
            Some(NumaStrategy::Count)
        } else {
            None
        }
    }

    /// Converting a policy to its code and back yields the policy.
    pub proof fn lemma_round_trip(s: NumaStrategy)
        ensures
            Self::from_code(s.code()) == Some(s),
    {
    }

    /// An integer is accepted exactly when some policy has it as its code, and
    /// the policy found for it then has that code; the accepted integers are
    /// those from 0 to 5.
    pub proof fn lemma_from_code(code: u32)
        ensures
            Self::from_code(code) is Some <==> exists|s: NumaStrategy| #[trigger] s.code() == code,
            Self::from_code(code) is Some <==> code <= 5,
            Self::from_code(code) matches Some(s) ==> s.code() == code,
    {
        if let Some(s) = Self::from_code(code) {
            assert(s.code() == code);
        }
    }

    /// No two policies share a code.
    pub proof fn lemma_code_injective(a: NumaStrategy, b: NumaStrategy)
        requires
            a.code() == b.code(),
        ensures
            a == b,
    {
    }
}

impl From<NumaStrategy> for u32 {
    /// The engine's integer code of a policy.
    fn from(value: NumaStrategy) -> (code: u32) {
        match value {
            NumaStrategy::Disable => 0,
            NumaStrategy::Distribute => 1,
            NumaStrategy::Isolate => 2,
            NumaStrategy::Numactl => 3,
            NumaStrategy::Mirror => 4,
            NumaStrategy::Count => 5,
        }
    }
}

impl vstd::std_specs::convert::FromSpecImpl<NumaStrategy> for u32 {
    open spec fn obeys_from_spec() -> bool {
        true
    }

    open spec fn from_spec(value: NumaStrategy) -> u32 {
        value.code()
    }
}

impl TryFrom<u32> for NumaStrategy {
    type Error = UnknownNumaCode;

    /// The policy with the given code. An integer that is no policy's code is
    /// rejected, and handed back in the error.
    fn try_from(code: u32) -> (res: Result<NumaStrategy, UnknownNumaCode>) {
        match code {
            0 => Ok(NumaStrategy::Disable),
            1 => Ok(NumaStrategy::Distribute),
            2 => Ok(NumaStrategy::Isolate),
            3 => Ok(NumaStrategy::Numactl),
            4 => Ok(NumaStrategy::Mirror),
            5 => Ok(NumaStrategy::Count),
            _ => Err(UnknownNumaCode { code }),
        }
    }
}

impl vstd::std_specs::convert::TryFromSpecImpl<u32> for NumaStrategy {
    open spec fn obeys_try_from_spec() -> bool {
        true
    }

    open spec fn try_from_spec(code: u32) -> Result<NumaStrategy, UnknownNumaCode> {
        match Self::from_code(code) {
            Some(s) => Ok(s),
            None => Err(UnknownNumaCode { code }),
        }
    }
}

} // verus!
