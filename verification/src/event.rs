use vstd::prelude::*;

verus! {

/// One memory operation the engine has finished servicing: its address
/// and whether it was a write. Delivered to the installed handler during
/// the tick in which the operation completes, and never again.
#[derive(Clone, Copy, PartialEq, Eq, Structural, Debug)]
pub struct CompletionEvent {
    pub addr: u64,
    pub is_write: bool,
}

/// The capability through which completions reach the host: a handler is
/// borrowed for the scope of one `tick` call and receives each completion
/// exactly once, in queue order. `observed` is the handler's abstract log
/// of everything it has been handed so far, oldest first; `on_complete`
/// must extend that log by exactly the event it was given.
pub trait CompletionHandler: Sized {
    /// The events this handler has been handed so far, oldest first.
    /// The default stands only so that unverified handlers need not
    /// name it; an implementation that proves `on_complete` gives its
    /// own.
    open spec fn observed(&self) -> Seq<CompletionEvent> {
        Seq::empty()
    }

    /// Receive one completion.
    fn on_complete(&mut self, addr: u64, is_write: bool)
        ensures
            final(self).observed() == old(self).observed().push(
                (CompletionEvent { addr, is_write })),
    ;
}

/// A ready-made handler that records every completion it receives.
pub struct EventLog {
    events: Vec<CompletionEvent>,
}

impl EventLog {
    pub fn new() -> (log: EventLog)
        ensures
            log.observed() == Seq::<CompletionEvent>::empty(),
    {
        EventLog { events: Vec::new() }
    }

    /// Everything recorded so far, oldest first.
    pub fn events(&self) -> (r: &Vec<CompletionEvent>)
        ensures
            r@ == self.observed(),
    {
        &self.events
    }
}

impl CompletionHandler for EventLog {
    closed spec fn observed(&self) -> Seq<CompletionEvent> {
        self.events@
    }

    fn on_complete(&mut self, addr: u64, is_write: bool) {
        self.events.push(CompletionEvent { addr, is_write });
    }
}

} // verus!
