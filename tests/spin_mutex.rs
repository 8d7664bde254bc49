use std::cell::Cell;

use spinmutex::mutex::{Held, Mutex};
use spinmutex::protocol::{after_exchange, after_load, next_action, Action, Phase, LOCKED, UNLOCKED};

/// Runs `f` on the guarded value under the lock, driven by the protocol's
/// decisions.
fn with_lock<T, R>(m: &Mutex<T>, f: impl FnOnce(&T) -> R) -> R {
    let mut phase = Phase::Trying;
    let mut guard: Option<Held<'_, T>> = None;
    while next_action(phase) != Action::Run {
        match next_action(phase) {
            Action::Swap => {
                let (p, g) = m.try_lock();
                phase = p;
                guard = g;
            }
            _ => phase = m.poll(),
        }
    }
    let held = guard.unwrap();
    let r = f(held.get());
    held.release();
    r
}

#[test]
fn fresh_mutex_reads_back_initial_value() {
    let m = Mutex::new(42u32);
    assert_eq!(with_lock(&m, |v| *v), 42);
    let (p, g) = m.try_lock();
    assert_eq!(p, Phase::Holding);
    assert_eq!(*g.unwrap().get(), 42);
}

#[test]
fn fresh_mutex_starts_unlocked() {
    let m = Mutex::new(String::from("payload"));
    assert_eq!(m.poll(), Phase::Trying);
    let (p, g) = m.try_lock();
    assert_eq!(p, Phase::Holding);
    let held = g.unwrap();
    assert_eq!(held.get(), "payload");
    held.release();
    assert_eq!(m.poll(), Phase::Trying);
}

#[test]
fn successful_exchange_holds() {
    assert_eq!(after_exchange(Ok(UNLOCKED)), Phase::Holding);
}

#[test]
fn failed_exchange_spins() {
    assert_eq!(after_exchange(Err(LOCKED)), Phase::Spinning);
}

#[test]
fn spurious_failure_spins() {
    assert_eq!(after_exchange(Err(UNLOCKED)), Phase::Spinning);
}

#[test]
fn unlocked_read_retries() {
    assert_eq!(after_load(UNLOCKED), Phase::Trying);
}

#[test]
fn locked_read_keeps_spinning() {
    assert_eq!(after_load(LOCKED), Phase::Spinning);
}

#[test]
fn each_phase_has_its_action() {
    assert_eq!(next_action(Phase::Idle), Action::Enter);
    assert_eq!(next_action(Phase::Trying), Action::Swap);
    assert_eq!(next_action(Phase::Spinning), Action::Read);
    assert_eq!(next_action(Phase::Holding), Action::Run);
}

#[test]
fn second_thread_waits_for_release() {
    let m = Mutex::new(Cell::new(0u32));
    let (p, g) = m.try_lock();
    assert_eq!(p, Phase::Holding);
    let first = g.unwrap();
    let (p, g) = m.try_lock();
    assert_eq!(p, Phase::Spinning);
    assert!(g.is_none());
    assert_eq!(m.poll(), Phase::Spinning);
    first.get().set(first.get().get() + 1);
    first.release();
    assert_eq!(m.poll(), Phase::Trying);
    let (p, g) = m.try_lock();
    assert_eq!(p, Phase::Holding);
    let second = g.unwrap();
    assert_eq!(second.get().get(), 1);
    second.release();
    assert_eq!(m.poll(), Phase::Trying);
}

#[test]
fn hundred_by_thousand_increments_in_one_thread() {
    let m = Mutex::new(Cell::new(0u32));
    for _worker in 0..100 {
        for _ in 0..1000 {
            with_lock(&m, |v| v.set(v.get() + 1));
        }
    }
    assert_eq!(with_lock(&m, |v| v.get()), 100 * 1000);
}

#[test]
fn interleaved_workers_lose_no_update() {
    let m = Mutex::new(Cell::new(0u32));
    let mut phases = vec![Phase::Trying; 4];
    let mut guards: Vec<Option<Held<'_, Cell<u32>>>> = vec![None, None, None, None];
    let mut done = vec![0u32; 4];
    let mut round: u32 = 0;
    while done.iter().any(|&d| d < 250) {
        round += 1;
        for w in 0..4 {
            if done[w] == 250 {
                continue;
            }
            match next_action(phases[w]) {
                Action::Swap => {
                    let (p, g) = m.try_lock();
                    phases[w] = p;
                    guards[w] = g;
                }
                Action::Read => phases[w] = m.poll(),
                Action::Run => {
                    // A holder keeps the lock for a round before it writes
                    // and releases, so the others meet it locked.
                    if round % 2 == 0 {
                        let held = guards[w].take().unwrap();
                        held.get().set(held.get().get() + 1);
                        held.release();
                        done[w] += 1;
                        phases[w] = Phase::Trying;
                    }
                }
                Action::Enter => phases[w] = Phase::Trying,
            }
        }
    }
    assert_eq!(with_lock(&m, |v| v.get()), 1000);
}
