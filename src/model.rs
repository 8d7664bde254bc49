use vstd::prelude::*;

use crate::protocol::{
    action_for, exchange_outcome, phase_after_exchange, phase_after_load, Action, Phase, LOCKED,
    UNLOCKED,
};

verus! {

/// A lock shared by `phases.len()` threads, as the protocol sees it.
///
/// Memory is modelled by release and acquire: each thread has its own view
/// of the guarded value; the release-store of the flag publishes the
/// releasing thread's view, and a successful acquiring swap hands the
/// published value to the new holder.
pub struct LockState<V> {
    pub flag: bool,
    pub phases: Seq<Phase>,
    pub published: V,
    pub views: Seq<V>,
}

/// One atomic step of one thread, named by its index.
pub enum Move<V> {
    /// The thread enters the lock operation.
    Call(int),
    /// The thread's weak compare-and-swap; the `bool` says whether it
    /// failed spuriously.
    Exchange(int, bool),
    /// The thread's relaxed read of the flag, with the value it returned,
    /// which may be stale.
    Load(int, bool),
    /// The holder writes the guarded value.
    Write(int, V),
    /// The holder stores `UNLOCKED` with release ordering.
    Release(int),
}

/// A lock made with value `v` and `n` threads, none of them inside it.
pub open spec fn fresh<V>(n: nat, v: V) -> LockState<V> {
    LockState {
        flag: UNLOCKED,
        phases: Seq::new(n, |i: int| Phase::Idle),
        published: v,
        views: Seq::new(n, |i: int| v),
    }
}

/// Thread `i` exists and stands in phase `p`.
pub open spec fn in_phase<V>(s: LockState<V>, i: int, p: Phase) -> bool {
    0 <= i < s.phases.len() && s.phases[i] == p
}

/// Thread `i` holds the lock.
pub open spec fn holding<V>(s: LockState<V>, i: int) -> bool {
    in_phase(s, i, Phase::Holding)
}

/// The state after move `m`; a move that its thread cannot make in `s`
/// changes nothing.
pub open spec fn apply<V>(s: LockState<V>, m: Move<V>) -> LockState<V> {
    match m {
        Move::Call(i) => if in_phase(s, i, Phase::Idle) {
            LockState { phases: s.phases.update(i, Phase::Trying), ..s }
        } else {
            s
        },
        Move::Exchange(i, spurious) => if in_phase(s, i, Phase::Trying) {
            let outcome = exchange_outcome(s.flag, spurious);
            let p = phase_after_exchange(outcome);
            if outcome is Ok {
                LockState {
                    flag: LOCKED,
                    phases: s.phases.update(i, p),
                    views: s.views.update(i, s.published),
                    ..s
                }
            } else {
                LockState { phases: s.phases.update(i, p), ..s }
            }
        } else {
            s
        },
        Move::Load(i, observed) => if in_phase(s, i, Phase::Spinning) {
            LockState { phases: s.phases.update(i, phase_after_load(observed)), ..s }
        } else {
            s
        },
        Move::Write(i, x) => if holding(s, i) {
            LockState { views: s.views.update(i, x), ..s }
        } else {
            s
        },
        Move::Release(i) => if holding(s, i) {
            LockState {
                flag: UNLOCKED,
                phases: s.phases.update(i, Phase::Idle),
                published: s.views[i],
                ..s
            }
        } else {
            s
        },
    }
}

/// The state after the moves of `trace`, in order.
pub open spec fn run<V>(s: LockState<V>, trace: Seq<Move<V>>) -> LockState<V>
    decreases trace.len(),
{
    if trace.len() == 0 {
        s
    } else {
        apply(run(s, trace.drop_last()), trace.last())
    }
}

/// At most one thread holds the lock.
pub open spec fn exclusive<V>(s: LockState<V>) -> bool {
    forall|i: int, j: int| holding(s, i) && holding(s, j) ==> i == j
}

/// What every state reached from a fresh lock satisfies.
pub open spec fn consistent<V>(s: LockState<V>) -> bool {
    &&& exclusive(s)
    &&& s.flag == UNLOCKED ==> forall|i: int| !holding(s, i)
    &&& s.flag == LOCKED ==> exists|i: int| holding(s, i)
    &&& s.views.len() == s.phases.len()
}

proof fn lemma_apply_consistent<V>(s: LockState<V>, m: Move<V>)
    requires
        consistent(s),
    ensures
        consistent(apply(s, m)),
{
    let t = apply(s, m);
    match m {
        Move::Exchange(i, spurious) => {
            if in_phase(s, i, Phase::Trying) && exchange_outcome(s.flag, spurious) is Ok {
                assert forall|a: int| holding(t, a) implies a == i by {
                    if a != i {
                        assert(holding(s, a));
                    }
                }
                assert(holding(t, i));
            } else if in_phase(s, i, Phase::Trying) {
                lemma_same_holders(s, t, i);
            }
        },
        Move::Release(i) => {
            if holding(s, i) {
                assert forall|a: int| !holding(t, a) by {
                    if holding(t, a) {
                        assert(holding(s, a));
                    }
                }
            }
        },
        Move::Write(i, _) => {
            assert forall|a: int| holding(t, a) == holding(s, a) by {}
        },
        Move::Call(i) => {
            if in_phase(s, i, Phase::Idle) {
                lemma_same_holders(s, t, i);
            }
        },
        Move::Load(i, _) => {
            if in_phase(s, i, Phase::Spinning) {
                lemma_same_holders(s, t, i);
            }
        },
    }
}

proof fn lemma_same_holders<V>(s: LockState<V>, t: LockState<V>, i: int)
    requires
        consistent(s),
        t.flag == s.flag,
        t.views.len() == s.views.len(),
        t.phases.len() == s.phases.len(),
        !holding(s, i),
        !holding(t, i),
        forall|a: int| 0 <= a < s.phases.len() && a != i ==> t.phases[a] == s.phases[a],
    ensures
        consistent(t),
{
    assert forall|a: int| holding(t, a) == holding(s, a) by {}
    if s.flag == LOCKED {
        let h = choose|h: int| holding(s, h);
        assert(holding(t, h));
    }
}

proof fn lemma_run_consistent<V>(s: LockState<V>, trace: Seq<Move<V>>)
    requires
        consistent(s),
    ensures
        consistent(run(s, trace)),
    decreases trace.len(),
{
    if trace.len() > 0 {
        lemma_run_consistent(s, trace.drop_last());
        lemma_apply_consistent(run(s, trace.drop_last()), trace.last());
    }
}

/// Mutual exclusion: from a fresh lock, whatever moves the threads make and
/// in whatever order, at most one thread holds the lock at any time.
pub proof fn lemma_mutual_exclusion<V>(n: nat, v: V, trace: Seq<Move<V>>)
    ensures
        exclusive(run(fresh(n, v), trace)),
{
    lemma_run_consistent(fresh(n, v), trace);
}

proof fn lemma_published_kept<V>(s: LockState<V>, trace: Seq<Move<V>>)
    requires
        forall|k: int| 0 <= k < trace.len() ==> !(trace[k] is Release),
    ensures
        run(s, trace).published == s.published,
    decreases trace.len(),
{
    if trace.len() > 0 {
        let rest = trace.drop_last();
        assert forall|k: int| 0 <= k < rest.len() implies !(rest[k] is Release) by {
            assert(rest[k] == trace[k]);
        }
        lemma_published_kept(s, rest);
        assert(!(trace[trace.len() - 1] is Release));
    }
}

/// Visibility: in any state reached from a fresh lock, when the holder `i`
/// writes `x` and releases, the next thread `j` whose swap takes the lock
/// sees `x`, whatever other moves came in between, none of them a release.
pub proof fn lemma_visibility<V>(
    n: nat,
    v: V,
    earlier: Seq<Move<V>>,
    i: int,
    x: V,
    between: Seq<Move<V>>,
    j: int,
    spurious: bool,
)
    requires
        holding(run(fresh(n, v), earlier), i),
        forall|k: int| 0 <= k < between.len() ==> !(between[k] is Release),
    ensures
        ({
            let released = apply(
                apply(run(fresh(n, v), earlier), Move::Write(i, x)),
                Move::Release(i),
            );
            let before = run(released, between);
            let after = apply(before, Move::Exchange(j, spurious));
            !holding(before, j) && holding(after, j) ==> after.views[j] == x
        }),
{
    let s = run(fresh(n, v), earlier);
    lemma_run_consistent(fresh(n, v), earlier);
    let written = apply(s, Move::Write(i, x));
    assert(written.views[i] == x);
    let released = apply(written, Move::Release(i));
    assert(released.published == x);
    lemma_apply_consistent(s, Move::Write(i, x));
    lemma_apply_consistent(written, Move::Release(i));
    lemma_run_consistent(released, between);
    lemma_published_kept(released, between);
    let before = run(released, between);
    let after = apply(before, Move::Exchange(j, spurious));
    if !holding(before, j) && holding(after, j) {
        assert(in_phase(before, j, Phase::Trying));
        assert(exchange_outcome(before.flag, spurious) is Ok);
        assert(after.views[j] == before.published);
    }
}

/// Reading a fresh lock: a thread of a lock made with `v` that enters and
/// swaps holds the lock and sees `v`; when it releases, the lock is again as
/// it was made. A swap that fails spuriously, followed by the read of the
/// flag, only brings the thread back to trying, with nothing else changed,
/// so no number of such failures keeps it out.
pub proof fn lemma_fresh_read<V>(n: nat, v: V, i: int)
    requires
        0 <= i < n,
    ensures
        ({
            let called = apply(fresh(n, v), Move::Call(i));
            let entered = apply(called, Move::Exchange(i, false));
            &&& apply(apply(called, Move::Exchange(i, true)), Move::Load(i, UNLOCKED)) == called
            &&& holding(entered, i)
            &&& entered.views[i] == v
            &&& apply(entered, Move::Release(i)) == fresh(n, v)
        }),
{
    let s = fresh(n, v);
    let called = apply(s, Move::Call(i));
    let retried = apply(apply(called, Move::Exchange(i, true)), Move::Load(i, UNLOCKED));
    assert(retried.phases =~= called.phases);
    let entered = apply(called, Move::Exchange(i, false));
    let left = apply(entered, Move::Release(i));
    assert(left.phases =~= s.phases);
    assert(left.views =~= s.views);
}

/// Handover: in any state reached from a fresh lock, once the holder `i`
/// releases, a spinning thread `j` that reads the flag as `UNLOCKED` and then
/// swaps without spurious failure holds the lock.
pub proof fn lemma_handover<V>(n: nat, v: V, earlier: Seq<Move<V>>, i: int, j: int)
    requires
        holding(run(fresh(n, v), earlier), i),
        in_phase(run(fresh(n, v), earlier), j, Phase::Spinning),
    ensures
        ({
            let s = run(fresh(n, v), earlier);
            let released = apply(s, Move::Release(i));
            let retried = apply(released, Move::Load(j, UNLOCKED));
            &&& released.flag == UNLOCKED
            &&& in_phase(retried, j, Phase::Trying)
            &&& holding(apply(retried, Move::Exchange(j, false)), j)
        }),
{
}

/// The thread that makes move `m`.
pub open spec fn mover<V>(m: Move<V>) -> int {
    match m {
        Move::Call(i) => i,
        Move::Exchange(i, _) => i,
        Move::Load(i, _) => i,
        Move::Write(i, _) => i,
        Move::Release(i) => i,
    }
}

/// The action of which move `m` is a step.
pub open spec fn action_of_move<V>(m: Move<V>) -> Action {
    match m {
        Move::Call(_) => Action::Enter,
        Move::Exchange(_, _) => Action::Swap,
        Move::Load(_, _) => Action::Read,
        Move::Write(_, _) => Action::Run,
        Move::Release(_) => Action::Run,
    }
}

/// A move changes the lock only where it is a step of the action that its
/// thread's phase calls for.
pub proof fn lemma_only_the_phase_action_moves<V>(s: LockState<V>, m: Move<V>)
    requires
        apply(s, m) != s,
    ensures
        0 <= mover(m) < s.phases.len(),
        action_for(s.phases[mover(m)]) == action_of_move(m),
{
}

/// Every write in `trace`, made from `s`, adds one to its thread's view.
pub open spec fn increments_only(s: LockState<int>, trace: Seq<Move<int>>) -> bool
    decreases trace.len(),
{
    trace.len() == 0 || {
        &&& increments_only(s, trace.drop_last())
        &&& match trace.last() {
            Move::Write(i, x) => x == run(s, trace.drop_last()).views[i] + 1,
            _ => true,
        }
    }
}

/// How many writes in `trace`, made from `s`, were made by a holder.
pub open spec fn writes_made<V>(s: LockState<V>, trace: Seq<Move<V>>) -> nat
    decreases trace.len(),
{
    if trace.len() == 0 {
        0
    } else {
        let before = run(s, trace.drop_last());
        writes_made(s, trace.drop_last()) + match trace.last() {
            Move::Write(i, _) => if holding(before, i) {
                1nat
            } else {
                0nat
            },
            _ => 0nat,
        }
    }
}

/// The count kept by a counter lock: the published value while nobody
/// holds it, the holder's view while somebody does.
pub open spec fn counts(s: LockState<int>, w: nat) -> bool {
    &&& (forall|i: int| !holding(s, i)) ==> s.published == w
    &&& forall|i: int| holding(s, i) ==> s.views[i] == w
}

proof fn lemma_run_counts(n: nat, trace: Seq<Move<int>>)
    requires
        increments_only(fresh(n, 0), trace),
    ensures
        consistent(run(fresh(n, 0), trace)),
        counts(run(fresh(n, 0), trace), writes_made(fresh(n, 0), trace)),
    decreases trace.len(),
{
    let s0 = fresh(n, 0int);
    if trace.len() == 0 {
        assert forall|a: int| !holding(s0, a) by {}
    } else {
        let rest = trace.drop_last();
        lemma_run_counts(n, rest);
        let s = run(s0, rest);
        let w = writes_made(s0, rest);
        let m = trace.last();
        let t = apply(s, m);
        lemma_apply_consistent(s, m);
        assert(run(s0, trace) == t);
        match m {
            Move::Exchange(i, spurious) => {
                if in_phase(s, i, Phase::Trying) && exchange_outcome(s.flag, spurious) is Ok {
                    assert forall|a: int| holding(t, a) implies t.views[a] == w by {
                        if a != i {
                            assert(holding(s, a));
                        }
                    }
                } else {
                    assert forall|a: int| holding(t, a) == holding(s, a) by {}
                }
                assert(writes_made(s0, trace) == w);
            },
            Move::Release(i) => {
                if holding(s, i) {
                    assert forall|a: int| !holding(t, a) by {
                        if holding(t, a) {
                            assert(holding(s, a));
                        }
                    }
                }
                assert(writes_made(s0, trace) == w);
            },
            Move::Write(i, x) => {
                if holding(s, i) {
                    assert forall|a: int| holding(t, a) implies t.views[a] == w + 1 by {
                        assert(holding(s, a));
                    }
                    assert(holding(t, i));
                    assert(writes_made(s0, trace) == w + 1);
                } else {
                    assert(writes_made(s0, trace) == w);
                }
            },
            _ => {
                assert forall|a: int| holding(t, a) == holding(s, a) by {}
                assert(writes_made(s0, trace) == w);
            },
        }
        assert(counts(t, writes_made(s0, trace)));
    }
}

/// No lost updates: when the threads of a lock made with 0 only ever add
/// one to the value they hold, then whenever nobody holds the lock, the
/// published value is the number of writes that holders made.
pub proof fn lemma_no_lost_updates(n: nat, trace: Seq<Move<int>>)
    requires
        increments_only(fresh(n, 0), trace),
    ensures
        (forall|i: int| !holding(run(fresh(n, 0), trace), i)) ==> run(
            fresh(n, 0),
            trace,
        ).published == writes_made(fresh(n, 0), trace),
{
    lemma_run_counts(n, trace);
}

/// Freedom from deadlock: in any state reached from a fresh lock, a thread
/// `j` that waits for the lock takes it within three moves: the release of
/// the holder, where the flag is `LOCKED`; a read of the flag, which moves
/// `j` from spinning to trying and changes nothing where it already tries;
/// and a swap that does not fail spuriously.
pub proof fn lemma_waiter_can_enter<V>(n: nat, v: V, earlier: Seq<Move<V>>, j: int)
    requires
        in_phase(run(fresh(n, v), earlier), j, Phase::Trying) || in_phase(
            run(fresh(n, v), earlier),
            j,
            Phase::Spinning,
        ),
    ensures
        ({
            let s = run(fresh(n, v), earlier);
            let freed = if s.flag == LOCKED {
                apply(s, Move::Release(choose|i: int| holding(s, i)))
            } else {
                s
            };
            let ready = apply(freed, Move::Load(j, UNLOCKED));
            &&& freed.flag == UNLOCKED
            &&& holding(apply(ready, Move::Exchange(j, false)), j)
        }),
{
    let s = run(fresh(n, v), earlier);
    lemma_run_consistent(fresh(n, v), earlier);
    if s.flag == LOCKED {
        let h = choose|i: int| holding(s, i);
        assert(holding(s, h));
        assert(h != j);
    }
}

} // verus!
