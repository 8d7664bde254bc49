use vstd::prelude::*;

verus! {

/// The flag's value while nobody holds the lock.
pub const UNLOCKED: bool = false;

/// The flag's value while one thread holds the lock.
pub const LOCKED: bool = true;

/// Where a thread stands in the lock operation.
#[derive(Clone, Copy, Debug, PartialEq, Eq, Structural)]
pub enum Phase {
    /// Not inside the lock operation.
    Idle,
    /// About to try the compare-and-swap from `UNLOCKED` to `LOCKED`.
    Trying,
    /// Reading the flag until it is seen `UNLOCKED`.
    Spinning,
    /// Holds the lock: the body may run on the guarded value.
    Holding,
}

/// What the weak compare-and-swap from `UNLOCKED` to `LOCKED` reports on a
/// flag that holds `current`: `Ok` with the old value where it swapped, `Err`
/// with the value found where it did not. The weak form may fail even on
/// `UNLOCKED`; `spurious` says whether it did.
pub open spec fn exchange_outcome(current: bool, spurious: bool) -> Result<bool, bool> {
    if current == UNLOCKED && !spurious {
        Ok(UNLOCKED)
    } else {
        Err(current)
    }
}

/// The phase that follows a compare-and-swap with the given outcome.
pub open spec fn phase_after_exchange(outcome: Result<bool, bool>) -> Phase {
    match outcome {
        Ok(_) => Phase::Holding,
        Err(_) => Phase::Spinning,
    }
}

/// The phase that follows a read of the flag that returned `observed`.
pub open spec fn phase_after_load(observed: bool) -> Phase {
    if observed == UNLOCKED {
        Phase::Trying
    } else {
        Phase::Spinning
    }
}

/// Decides what a trying thread does once its compare-and-swap has reported:
/// it holds the lock exactly when the swap succeeded, and spins otherwise.
pub fn after_exchange(outcome: Result<bool, bool>) -> (p: Phase)
    ensures
        p == phase_after_exchange(outcome),
        outcome is Ok <==> p == Phase::Holding,
        outcome is Err <==> p == Phase::Spinning,
{
    match outcome {
        Ok(_) => Phase::Holding,
        Err(_) => Phase::Spinning,
    }
}

/// Decides what a spinning thread does once it has read the flag: it tries
/// the swap again exactly when the flag was seen `UNLOCKED`, and keeps
/// spinning otherwise.
pub fn after_load(observed: bool) -> (p: Phase)
    ensures
        p == phase_after_load(observed),
        observed == UNLOCKED <==> p == Phase::Trying,
        observed == LOCKED <==> p == Phase::Spinning,
{
    if observed == UNLOCKED {
        Phase::Trying
    } else {
        Phase::Spinning
    }
}

/// What a thread does next in the lock operation.
#[derive(Clone, Copy, Debug, PartialEq, Eq, Structural)]
pub enum Action {
    /// Start the operation.
    Enter,
    /// Make the compare-and-swap from `UNLOCKED` to `LOCKED`.
    Swap,
    /// Read the flag with relaxed ordering, and yield if it was `LOCKED`.
    Read,
    /// Run the body on the guarded value, then release the lock.
    Run,
}

/// The only action that a thread in phase `p` can take.
pub open spec fn action_for(p: Phase) -> Action {
    match p {
        Phase::Idle => Action::Enter,
        Phase::Trying => Action::Swap,
        Phase::Spinning => Action::Read,
        Phase::Holding => Action::Run,
    }
}

/// Decides what a thread in phase `p` does next: it swaps while trying,
/// reads the flag while spinning, and runs the body and releases while
/// holding.
pub fn next_action(p: Phase) -> (a: Action)
    ensures
        a == action_for(p),
        p == Phase::Idle <==> a == Action::Enter,
        p == Phase::Trying <==> a == Action::Swap,
        p == Phase::Spinning <==> a == Action::Read,
        p == Phase::Holding <==> a == Action::Run,
{
    match p {
        Phase::Idle => Action::Enter,
        Phase::Trying => Action::Swap,
        Phase::Spinning => Action::Read,
        Phase::Holding => Action::Run,
    }
}

} // verus!
