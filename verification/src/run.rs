use vstd::prelude::*;

use crate::event::CompletionEvent;
use crate::system::due_events;
use crate::system::event_of;
use crate::system::lemma_still_pending_bounds;
use crate::system::still_pending;
use crate::system::Pending;

verus! {

/// Every completion a run of `n` ticks starting from time `t0` on queue
/// `ops` delivers, in delivery order. One tick of the run delivers and
/// removes what is due, exactly as `MemorySystem::tick` does.
pub open spec fn run_events(ops: Seq<Pending>, t0: int, n: nat) -> Seq<CompletionEvent>
    decreases n,
{
    if n == 0 {
        Seq::empty()
    } else {
        due_events(ops, t0 + 1) + run_events(still_pending(ops, t0 + 1), t0 + 1, (n - 1) as nat)
    }
}

/// How many times `e` occurs in `evs`.
pub open spec fn event_count(evs: Seq<CompletionEvent>, e: CompletionEvent) -> nat
    decreases evs.len(),
{
    if evs.len() == 0 {
        0
    } else if evs.last() == e {
        event_count(evs.drop_last(), e) + 1
    } else {
        event_count(evs.drop_last(), e)
    }
}

/// How many operations of `ops` would produce event `e` and are due by
/// time `deadline`.
pub open spec fn pending_count(ops: Seq<Pending>, e: CompletionEvent, deadline: int) -> nat
    decreases ops.len(),
{
    if ops.len() == 0 {
        0
    } else if event_of(ops.last()) == e && ops.last().ready_at <= deadline {
        pending_count(ops.drop_last(), e, deadline) + 1
    } else {
        pending_count(ops.drop_last(), e, deadline)
    }
}

/// The queue left after a run of `n` ticks starting from time `t0`:
/// each tick keeps what is not yet due at its end time, exactly as
/// `MemorySystem::tick` does.
pub open spec fn queue_after(ops: Seq<Pending>, t0: int, n: nat) -> Seq<Pending>
    decreases n,
{
    if n == 0 {
        ops
    } else {
        queue_after(still_pending(ops, t0 + 1), t0 + 1, (n - 1) as nat)
    }
}

proof fn lemma_still_pending_deadline(ops: Seq<Pending>, now: int, d: int)
    requires
        forall|i: int| 0 <= i < ops.len() ==> #[trigger] ops[i].ready_at <= d,
    ensures
        forall|i: int|
            0 <= i < still_pending(ops, now).len() ==> #[trigger] still_pending(
                ops,
                now,
            )[i].ready_at <= d,
    decreases ops.len(),
{
    if ops.len() > 0 {
        assert(ops[ops.len() - 1].ready_at <= d);
        assert forall|i: int| 0 <= i < ops.drop_last().len() implies #[trigger] ops.drop_last()[i].ready_at
            <= d by {
            assert(ops.drop_last()[i] == ops[i]);
        }
        lemma_still_pending_deadline(ops.drop_last(), now, d);
        let sp = still_pending(ops, now);
        let spd = still_pending(ops.drop_last(), now);
        assert forall|i: int| 0 <= i < sp.len() implies #[trigger] sp[i].ready_at <= d by {
            if ops.last().ready_at > now {
                if i < sp.len() - 1 {
                    assert(sp[i] == spd[i]);
                } else {
                    assert(sp[i] == ops.last());
                }
            } else {
                assert(sp[i] == spd[i]);
            }
        }
    }
}

/// Law: a caller that keeps ticking sees the system drain — a run long
/// enough to reach every pending completion time leaves the queue
/// empty, so nothing is pending forever. The first precondition is the
/// facade's invariant; the second says the run reaches the last
/// completion.
pub proof fn lemma_enough_ticks_drain(ops: Seq<Pending>, t0: int, n: nat)
    requires
        forall|i: int| 0 <= i < ops.len() ==> #[trigger] ops[i].ready_at > t0,
        forall|i: int| 0 <= i < ops.len() ==> #[trigger] ops[i].ready_at <= t0 + n,
    ensures
        queue_after(ops, t0, n) == Seq::<Pending>::empty(),
    decreases n,
{
    if n == 0 {
        if ops.len() > 0 {
            assert(ops[0].ready_at > t0);
            assert(ops[0].ready_at <= t0);
        }
        assert(ops =~= Seq::<Pending>::empty());
    } else {
        lemma_still_pending_bounds(ops, t0 + 1);
        lemma_still_pending_deadline(ops, t0 + 1, t0 + n);
        lemma_enough_ticks_drain(still_pending(ops, t0 + 1), t0 + 1, (n - 1) as nat);
    }
}

proof fn lemma_event_count_append(a: Seq<CompletionEvent>, b: Seq<CompletionEvent>, e: CompletionEvent)
    ensures
        event_count(a + b, e) == event_count(a, e) + event_count(b, e),
    decreases b.len(),
{
    if b.len() == 0 {
        assert(a + b =~= a);
    } else {
        assert((a + b).drop_last() =~= a + b.drop_last());
        lemma_event_count_append(a, b.drop_last(), e);
    }
}

/// One tick's deliveries out of `ops` contain `e` once per operation of
/// `ops` that produces `e` and is due.
proof fn lemma_due_count(ops: Seq<Pending>, e: CompletionEvent, now: int)
    ensures
        event_count(due_events(ops, now), e) == pending_count(ops, e, now),
    decreases ops.len(),
{
    if ops.len() > 0 {
        lemma_due_count(ops.drop_last(), e, now);
        if ops.last().ready_at <= now {
            assert(due_events(ops, now).drop_last() =~= due_events(ops.drop_last(), now));
        }
    }
}

/// Splitting a deadline at an intermediate tick: what is due by `d` is
/// what is due by `m` plus what survives `m` and is due by `d`.
proof fn lemma_pending_count_split(ops: Seq<Pending>, e: CompletionEvent, m: int, d: int)
    requires
        m <= d,
    ensures
        pending_count(ops, e, d) == pending_count(ops, e, m) + pending_count(
            still_pending(ops, m),
            e,
            d,
        ),
    decreases ops.len(),
{
    if ops.len() > 0 {
        lemma_pending_count_split(ops.drop_last(), e, m, d);
        if ops.last().ready_at > m {
            assert(still_pending(ops, m).drop_last() =~= still_pending(ops.drop_last(), m));
        }
    }
}

proof fn lemma_pending_count_none(ops: Seq<Pending>, e: CompletionEvent, deadline: int)
    requires
        forall|i: int| 0 <= i < ops.len() ==> #[trigger] ops[i].ready_at > deadline,
    ensures
        pending_count(ops, e, deadline) == 0,
    decreases ops.len(),
{
    if ops.len() > 0 {
        assert(ops[ops.len() - 1].ready_at > deadline);
        lemma_pending_count_none(ops.drop_last(), e, deadline);
    }
}

/// Law: a run delivers each pending operation's completion exactly once,
/// and nothing else — across `n` ticks starting at time `t0`, the event
/// `e` is observed exactly as many times as the queue holds operations
/// that produce `e` and fall due within the run. The precondition is the
/// facade's invariant: every pending operation completes in the future.
pub proof fn lemma_run_delivers_due(ops: Seq<Pending>, t0: int, n: nat, e: CompletionEvent)
    requires
        forall|i: int| 0 <= i < ops.len() ==> #[trigger] ops[i].ready_at > t0,
    ensures
        event_count(run_events(ops, t0, n), e) == pending_count(ops, e, t0 + n),
    decreases n,
{
    if n == 0 {
        lemma_pending_count_none(ops, e, t0);
    } else {
        let sp = still_pending(ops, t0 + 1);
        lemma_still_pending_bounds(ops, t0 + 1);
        lemma_run_delivers_due(sp, t0 + 1, (n - 1) as nat, e);
        lemma_event_count_append(
            due_events(ops, t0 + 1),
            run_events(sp, t0 + 1, (n - 1) as nat),
            e,
        );
        lemma_due_count(ops, e, t0 + 1);
        lemma_pending_count_split(ops, e, t0 + 1, t0 + n);
    }
}

/// Law: an accepted operation is completed exactly once. Submitting `p`
/// on top of queue `ops` makes a run of enough ticks — enough to reach
/// `p.ready_at` — deliver `p`'s event exactly one more time than the
/// same run without it.
pub proof fn lemma_single_completion(ops: Seq<Pending>, t0: int, p: Pending, n: nat)
    requires
        forall|i: int| 0 <= i < ops.len() ==> #[trigger] ops[i].ready_at > t0,
        p.ready_at > t0,
        p.ready_at <= t0 + n,
    ensures
        event_count(run_events(ops.push(p), t0, n), event_of(p)) == event_count(
            run_events(ops, t0, n),
            event_of(p),
        ) + 1,
{
    assert forall|i: int| 0 <= i < ops.push(p).len() implies #[trigger] ops.push(
        p,
    )[i].ready_at > t0 by {
        if i < ops.len() {
            assert(ops.push(p)[i] == ops[i]);
        } else {
            assert(ops.push(p)[i] == p);
        }
    }
    lemma_run_delivers_due(ops, t0, n, event_of(p));
    lemma_run_delivers_due(ops.push(p), t0, n, event_of(p));
    assert(ops.push(p).drop_last() =~= ops);
    assert(ops.push(p).last() == p);
}

/// Law: an empty system never completes anything — with nothing
/// pending, no number of ticks delivers any event.
pub proof fn lemma_no_completions_when_empty(t0: int, n: nat)
    ensures
        run_events(Seq::<Pending>::empty(), t0, n) == Seq::<CompletionEvent>::empty(),
    decreases n,
{
    if n > 0 {
        lemma_no_completions_when_empty(t0 + 1, (n - 1) as nat);
        assert(still_pending(Seq::<Pending>::empty(), t0 + 1) =~= Seq::<Pending>::empty());
        assert(due_events(Seq::<Pending>::empty(), t0 + 1) + run_events(
            Seq::<Pending>::empty(),
            t0 + 1,
            (n - 1) as nat,
        ) =~= Seq::<CompletionEvent>::empty());
    }
}

} // verus!
