use vstd::prelude::*;

use crate::config::Config;
use crate::config::ConfigError;
use crate::event::CompletionEvent;
use crate::event::CompletionHandler;
use crate::slot::CallbackSlot;

verus! {

/// One operation the engine has accepted and not yet completed:
/// the operation itself and the tick at which it completes.
#[derive(Clone, Copy, PartialEq, Eq, Structural, Debug)]
pub struct Pending {
    pub addr: u64,
    pub is_write: bool,
    pub ready_at: u64,
}

/// The completion event a pending operation produces.
pub open spec fn event_of(p: Pending) -> CompletionEvent {
    CompletionEvent { addr: p.addr, is_write: p.is_write }
}

/// The completions a tick ending at time `now` delivers out of the queue
/// `ops`, in queue order: every pending operation whose `ready_at` has
/// been reached.
pub open spec fn due_events(ops: Seq<Pending>, now: int) -> Seq<CompletionEvent>
    decreases ops.len(),
{
    if ops.len() == 0 {
        Seq::empty()
    } else if ops.last().ready_at <= now {
        due_events(ops.drop_last(), now).push(event_of(ops.last()))
    } else {
        due_events(ops.drop_last(), now)
    }
}

/// The operations of `ops` still pending after a tick ending at time
/// `now`: those whose `ready_at` lies strictly in the future, in queue
/// order.
pub open spec fn still_pending(ops: Seq<Pending>, now: int) -> Seq<Pending>
    decreases ops.len(),
{
    if ops.len() == 0 {
        Seq::empty()
    } else if ops.last().ready_at > now {
        still_pending(ops.drop_last(), now).push(ops.last())
    } else {
        still_pending(ops.drop_last(), now)
    }
}

/// The facade over one engine instance: the sole owner of the engine's
/// queue state, its clock, and the callback slot through which
/// completions are delivered.
pub struct MemorySystem {
    cfg: Config,
    clock: u64,
    pending: Vec<Pending>,
    slot: CallbackSlot,
}

impl MemorySystem {
    /// The parameters this instance was created with.
    pub closed spec fn cfg(self) -> Config {
        self.cfg
    }

    /// How many ticks this instance has advanced since creation.
    pub closed spec fn clock(self) -> u64 {
        self.clock
    }

    /// The accepted, not yet completed operations, in acceptance order.
    pub closed spec fn pending(self) -> Seq<Pending> {
        self.pending@
    }

    /// The callback slot's state, `Invalid` between ticks.
    pub closed spec fn slot_invalid(self) -> bool {
        self.slot.is_invalid()
    }

    /// The facade's invariant: the configuration is one the engine
    /// accepts, no handler is installed between ticks, the queue never
    /// exceeds its depth, and every pending operation completes strictly
    /// in the future.
    pub open spec fn wf(self) -> bool {
        &&& self.cfg().wf()
        &&& self.slot_invalid()
        &&& self.pending().len() <= self.cfg().queue_depth
        &&& forall|i: int|
            0 <= i < self.pending().len() ==> #[trigger] self.pending()[i].ready_at
                > self.clock()
    }

    /// Create an engine instance. Succeeds exactly on the configurations
    /// the engine accepts; a rejected configuration surfaces as an error
    /// and no instance exists.
    pub fn new(cfg: Config) -> (r: Result<MemorySystem, ConfigError>)
        ensures
            cfg.wf() ==> (r matches Ok(sys) && sys.wf() && sys.cfg() == cfg && sys.clock() == 0
                && sys.pending() == Seq::<Pending>::empty()),
            !cfg.wf() ==> r == Result::<MemorySystem, ConfigError>::Err(ConfigError::ZeroLatency),
    {
        if cfg.latency == 0 {
            Err(ConfigError::ZeroLatency)
        } else {
            let sys = MemorySystem { cfg, clock: 0, pending: Vec::new(), slot: CallbackSlot::new() };
            Ok(sys)
        }
    }

    /// Whether `add` would currently accept an operation: true exactly
    /// when the queue has room. Pure; the engine's state is unchanged.
    pub open spec fn spec_can_add(self) -> bool {
        self.pending().len() < self.cfg().queue_depth
    }

    /// Ask whether the engine would accept an operation right now,
    /// without submitting anything. Admission depends only on queue
    /// occupancy, so the operation itself is not examined.
    pub fn can_add(&self, _addr: u64, _is_write: bool) -> (r: bool)
        ensures
            r == self.spec_can_add(),
    {
        self.pending.len() < self.cfg.queue_depth
    }

    /// Submit one operation. Accepted exactly when the queue has room —
    /// the same condition `can_add` reports — and then queued to complete
    /// `latency` ticks from now. Rejected otherwise, leaving the engine
    /// unchanged; the caller retries on a later tick. At most one
    /// enqueue attempt is made per call.
    pub fn add(&mut self, addr: u64, is_write: bool) -> (accepted: bool)
        requires
            old(self).wf(),
            old(self).clock() + old(self).cfg().latency <= u64::MAX,
        ensures
            final(self).wf(),
            final(self).cfg() == old(self).cfg(),
            final(self).clock() == old(self).clock(),
            accepted == old(self).spec_can_add(),
            accepted ==> final(self).pending() == old(self).pending().push(
                (Pending {
                    addr,
                    is_write,
                    ready_at: (old(self).clock() + old(self).cfg().latency) as u64,
                })),
            !accepted ==> final(self).pending() == old(self).pending(),
    {
        if self.pending.len() < self.cfg.queue_depth {
            let ready_at = self.clock + self.cfg.latency;
            self.pending.push(Pending { addr, is_write, ready_at });
            true
        } else {
            false
        }
    }

    /// Advance the engine by one tick. Each operation whose completion
    /// time is reached is handed to `handler` exactly once, in queue
    /// order, before the call returns; it leaves the queue and is never
    /// delivered again. The handler is installed in the callback slot
    /// only for the duration of this call. Parameters are untouched.
    pub fn tick<H: CompletionHandler>(&mut self, handler: &mut H)
        requires
            old(self).wf(),
            old(self).clock() < u64::MAX,
        ensures
            final(self).wf(),
            final(self).cfg() == old(self).cfg(),
            final(self).clock() == old(self).clock() + 1,
            final(self).pending() == still_pending(
                old(self).pending(),
                old(self).clock() + 1,
            ),
            final(handler).observed() == old(handler).observed() + due_events(
                old(self).pending(),
                old(self).clock() + 1,
            ),
    {
        self.slot.install();
        let now = self.clock + 1;
        self.clock = now;
        let mut remaining: Vec<Pending> = Vec::new();
        let mut i: usize = 0;
        proof {
            assert(old(self).pending().take(0) =~= Seq::<Pending>::empty());
        }
        while i < self.pending.len()
            invariant
                i <= self.pending.len(),
                self.pending@ == old(self).pending(),
                now == old(self).clock() + 1,
                handler.observed() == old(handler).observed() + due_events(
                    old(self).pending().take(i as int),
                    now as int,
                ),
                remaining@ == still_pending(old(self).pending().take(i as int), now as int),
            decreases self.pending.len() - i,
        {
            let p = self.pending[i];
            proof {
                lemma_take_one_more(old(self).pending(), i as int, now as int);
            }
            if p.ready_at <= now {
                handler.on_complete(p.addr, p.is_write);
            } else {
                remaining.push(p);
            }
            i = i + 1;
        }
        proof {
            assert(old(self).pending().take(self.pending@.len() as int) =~= old(self).pending());
        }
        self.pending = remaining;
        self.slot.clear();
        proof {
            lemma_still_pending_bounds(old(self).pending(), now as int);
        }
    }

    /// The clock period, in femtoseconds. Constant for this instance.
    pub fn tck(&self) -> (r: u64)
        ensures
            r == self.cfg().tck_fs,
    {
        self.cfg.tck_fs
    }

    /// The data-bus width, in bits. Constant for this instance.
    pub fn bus_bits(&self) -> (r: usize)
        ensures
            r == self.cfg().bus_bits,
    {
        self.cfg.bus_bits
    }

    /// The burst length. Constant for this instance.
    pub fn burst_length(&self) -> (r: usize)
        ensures
            r == self.cfg().burst_length,
    {
        self.cfg.burst_length
    }

    /// The queue depth. Constant for this instance.
    pub fn queue_size(&self) -> (r: usize)
        ensures
            r == self.cfg().queue_depth,
    {
        self.cfg.queue_depth
    }
}

/// What survives a tick is shorter than what went in, and everything in
/// it is still strictly in the future.
pub proof fn lemma_still_pending_bounds(ops: Seq<Pending>, now: int)
    ensures
        still_pending(ops, now).len() <= ops.len(),
        forall|i: int|
            0 <= i < still_pending(ops, now).len() ==> #[trigger] still_pending(
                ops,
                now,
            )[i].ready_at > now,
    decreases ops.len(),
{
    if ops.len() > 0 {
        lemma_still_pending_bounds(ops.drop_last(), now);
    }
}

/// How one more element of the queue extends the delivered and surviving
/// prefixes.
proof fn lemma_take_one_more(ops: Seq<Pending>, i: int, now: int)
    requires
        0 <= i < ops.len(),
    ensures
        ops[i].ready_at <= now ==> due_events(ops.take(i + 1), now) == due_events(
            ops.take(i),
            now,
        ).push(event_of(ops[i])),
        ops[i].ready_at <= now ==> still_pending(ops.take(i + 1), now) == still_pending(
            ops.take(i),
            now,
        ),
        ops[i].ready_at > now ==> due_events(ops.take(i + 1), now) == due_events(
            ops.take(i),
            now,
        ),
        ops[i].ready_at > now ==> still_pending(ops.take(i + 1), now) == still_pending(
            ops.take(i),
            now,
        ).push(ops[i]),
{
    assert(ops.take(i + 1).drop_last() =~= ops.take(i));
    assert(ops.take(i + 1).last() == ops[i]);
}

} // verus!
