//! The two per-host state machines: allocation and health.
//!
//! Health is the state the reconciliation engine owns.  Its only legal
//! transitions form the cycle `Good -> NeedsMaintenance -> InMaintenance ->
//! Good`; `Invalid` is a defensive decode fallback and is never stored.

use vstd::prelude::*;

verus! {

/// Health of a host: the state machine driven by the reconciliation engine.
#[derive(Clone, Copy, PartialEq, Eq, Structural, Debug)]
pub enum HealthState {
    Good,
    NeedsMaintenance,
    InMaintenance,
    Invalid,
}

/// Allocation of a host; orthogonal to health and never touched by the
/// reconciliation engine.
#[derive(Clone, Copy, PartialEq, Eq, Structural, Debug)]
pub enum AllocationState {
    Unallocated,
    Allocated,
    Invalid,
}

/// Storage/wire encoding of a health state: 0 = Good, 1 = NeedsMaintenance,
/// 2 = InMaintenance.  `Invalid` has no encoding of its own; it stands for
/// any out-of-range code on decode.
pub open spec fn health_code(s: HealthState) -> int {
    match s {
        HealthState::Good => 0,
        HealthState::NeedsMaintenance => 1,
        HealthState::InMaintenance => 2,
        HealthState::Invalid => 3,
    }
}

/// Decoding of a stored/wire health code; anything out of range is `Invalid`.
pub open spec fn health_from_code(c: int) -> HealthState {
    if c == 0 {
        HealthState::Good
    } else if c == 1 {
        HealthState::NeedsMaintenance
    } else if c == 2 {
        HealthState::InMaintenance
    } else {
        HealthState::Invalid
    }
}

/// Storage/wire encoding of an allocation state: 0 = Unallocated,
/// 1 = Allocated; `Invalid` stands for any out-of-range code on decode.
pub open spec fn alloc_code(s: AllocationState) -> int {
    match s {
        AllocationState::Unallocated => 0,
        AllocationState::Allocated => 1,
        AllocationState::Invalid => 2,
    }
}

/// Decoding of a stored/wire allocation code.
pub open spec fn alloc_from_code(c: int) -> AllocationState {
    if c == 0 {
        AllocationState::Unallocated
    } else if c == 1 {
        AllocationState::Allocated
    } else {
        AllocationState::Invalid
    }
}

/// The only legal health transitions, one step of the maintenance cycle:
/// `Good -> NeedsMaintenance` (flagged over RPC), `NeedsMaintenance ->
/// InMaintenance` (claimed by the engine), `InMaintenance -> Good`
/// (maintenance completed).
pub open spec fn health_edge(from: HealthState, to: HealthState) -> bool {
    ||| (from == HealthState::Good && to == HealthState::NeedsMaintenance)
    ||| (from == HealthState::NeedsMaintenance && to == HealthState::InMaintenance)
    ||| (from == HealthState::InMaintenance && to == HealthState::Good)
}

/// The successor of a valid state on the maintenance cycle.
pub open spec fn next_in_cycle(s: HealthState) -> HealthState {
    match s {
        HealthState::Good => HealthState::NeedsMaintenance,
        HealthState::NeedsMaintenance => HealthState::InMaintenance,
        HealthState::InMaintenance => HealthState::Good,
        HealthState::Invalid => HealthState::Invalid,
    }
}

/// State-machine closure: every legal edge stays on the cycle
/// `Good -> NeedsMaintenance -> InMaintenance -> Good`, moves exactly one
/// step along it, and never enters or leaves `Invalid`.
pub proof fn lemma_health_closure(from: HealthState, to: HealthState)
    requires
        health_edge(from, to),
    ensures
        from != HealthState::Invalid,
        to != HealthState::Invalid,
        to == next_in_cycle(from),
{
}

impl HealthState {
    /// Encode for storage or the wire.  `Invalid` is never encoded: it is
    /// never a stored value.
    pub fn to_code(self) -> (c: i32)
        requires
            self != HealthState::Invalid,
        ensures
            c == health_code(self),
    {
        match self {
            HealthState::Good => 0,
            HealthState::NeedsMaintenance => 1,
            HealthState::InMaintenance => 2,
            HealthState::Invalid => 3,
        }
    }

    /// Decode a stored/wire code; out-of-range codes decode to `Invalid`.
    pub fn from_code(c: i32) -> (s: HealthState)
        ensures
            s == health_from_code(c as int),
    {
        if c == 0 {
            HealthState::Good
        } else if c == 1 {
            HealthState::NeedsMaintenance
        } else if c == 2 {
            HealthState::InMaintenance
        } else {
            HealthState::Invalid
        }
    }
}

impl AllocationState {
    /// Encode for storage or the wire.  `Invalid` is never encoded.
    pub fn to_code(self) -> (c: i32)
        requires
            self != AllocationState::Invalid,
        ensures
            c == alloc_code(self),
    {
        match self {
            AllocationState::Unallocated => 0,
            AllocationState::Allocated => 1,
            AllocationState::Invalid => 2,
        }
    }

    /// Decode a stored/wire code; out-of-range codes decode to `Invalid`.
    pub fn from_code(c: i32) -> (s: AllocationState)
        ensures
            s == alloc_from_code(c as int),
    {
        if c == 0 {
            AllocationState::Unallocated
        } else if c == 1 {
            AllocationState::Allocated
        } else {
            AllocationState::Invalid
        }
    }
}

/// Encoding then decoding a valid state gives the state back.
pub proof fn lemma_health_code_round_trip(s: HealthState)
    requires
        s != HealthState::Invalid,
    ensures
        health_from_code(health_code(s)) == s,
{
}

/// Encoding then decoding a valid allocation state gives the state back.
pub proof fn lemma_alloc_code_round_trip(s: AllocationState)
    requires
        s != AllocationState::Invalid,
    ensures
        alloc_from_code(alloc_code(s)) == s,
{
}

} // verus!
