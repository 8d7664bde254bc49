use std::sync::atomic::{AtomicBool, Ordering};
use vstd::prelude::*;

use crate::protocol::{after_exchange, after_load, Phase, LOCKED, UNLOCKED};

verus! {

/// A guarded value beside the atomic flag that decides who may touch it.
///
/// Both fields are private. The flag starts out `UNLOCKED`; the only way to
/// the value is a `Held`, which `try_lock` hands out only when its own
/// compare-and-swap moved the flag from `UNLOCKED` to `LOCKED`, and which
/// `release` gives up.
pub struct Mutex<T> {
    is_locked: AtomicBool,
    v: T,
}

/// Proof that the flag of one `Mutex` was taken: it gives the holder the
/// guarded value until `release` stores `UNLOCKED` again. Its field is
/// private, so only a successful `try_lock` makes one. A guard dropped
/// without `release` leaves the lock taken for good, as a holder that never
/// returns would.
pub struct Held<'a, T> {
    mutex: &'a Mutex<T>,
}

impl<T> Mutex<T> {
    /// The guarded value.
    pub closed spec fn value(&self) -> T {
        self.v
    }

    /// Wraps `t` as the guarded value, with the flag `UNLOCKED`.
    pub fn new(t: T) -> (m: Self)
        ensures
            m.value() == t,
    {
        Mutex { is_locked: AtomicBool::new(UNLOCKED), v: t }
    }

    /// One attempt to take the lock: a weak compare-and-swap of the flag from
    /// `UNLOCKED` to `LOCKED`, with acquire ordering where it succeeds. The
    /// phase that follows is `Holding`, with the value's guard, where the
    /// swap succeeded, and `Spinning`, with no guard, where it failed.
    pub fn try_lock(&self) -> (r: (Phase, Option<Held<'_, T>>))
        ensures
            r.0 == Phase::Holding || r.0 == Phase::Spinning,
            r.1 is Some <==> r.0 == Phase::Holding,
            r.1 is Some ==> r.1->0.payload() == self.value(),
    {
        let outcome = self.is_locked.compare_exchange_weak(
            UNLOCKED,
            LOCKED,
            Ordering::Acquire,
            Ordering::Relaxed,
        );
        let p = after_exchange(outcome);
        match p {
            Phase::Holding => (p, Some(Held { mutex: self })),
            _ => (p, None),
        }
    }

    /// One relaxed read of the flag by a spinning thread: the phase that
    /// follows is `Trying` where the flag was seen `UNLOCKED`, and
    /// `Spinning` where it was seen `LOCKED`.
    pub fn poll(&self) -> (p: Phase)
        ensures
            p == Phase::Trying || p == Phase::Spinning,
    {
        after_load(self.is_locked.load(Ordering::Relaxed))
    }
}

impl<'a, T> Held<'a, T> {
    /// The guarded value of the mutex whose flag was taken.
    pub closed spec fn payload(&self) -> T {
        self.mutex.v
    }

    /// The guarded value, for as long as the lock is held.
    pub fn get(&self) -> (r: &T)
        ensures
            *r == self.payload(),
    {
        &self.mutex.v
    }

    /// Gives the lock up: stores `UNLOCKED` with release ordering, after
    /// every use of the value that the guard gave.
    pub fn release(self) {
        self.mutex.is_locked.store(UNLOCKED, Ordering::Release);
    }
}

} // verus!
