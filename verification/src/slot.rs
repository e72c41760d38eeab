use vstd::prelude::*;

verus! {

/// The state of the callback slot. It is `Active` exactly while a `tick`
/// call is in progress; at every other moment it is `Invalid`, so a
/// completion arriving outside a tick has nowhere to go.
#[derive(Clone, Copy, PartialEq, Eq, Structural, Debug)]
pub enum SlotState {
    Invalid,
    Active,
}

/// The single location through which the engine reaches back into the
/// host during a tick. Its contract enforces the bracketing discipline:
/// `install` demands an `Invalid` slot, so steps cannot nest or reenter,
/// and `clear` unconditionally returns the slot to `Invalid` when the
/// tick is over.
pub struct CallbackSlot {
    state: SlotState,
}

impl CallbackSlot {
    pub closed spec fn spec_state(self) -> SlotState {
        self.state
    }

    pub open spec fn is_invalid(self) -> bool {
        self.spec_state() == SlotState::Invalid
    }

    pub open spec fn is_active(self) -> bool {
        self.spec_state() == SlotState::Active
    }

    /// A fresh slot, in which no handler is installed.
    pub fn new() -> (slot: CallbackSlot)
        ensures
            slot.is_invalid(),
    {
        CallbackSlot { state: SlotState::Invalid }
    }

    /// Mark a handler as installed for the duration of one tick.
    /// Requires the slot to be empty: a tick must not start while
    /// another is still delivering.
    pub fn install(&mut self)
        requires
            old(self).is_invalid(),
        ensures
            final(self).is_active(),
    {
        self.state = SlotState::Active;
    }

    /// Return the slot to its empty state once the tick has returned.
    pub fn clear(&mut self)
        ensures
            final(self).is_invalid(),
    {
        self.state = SlotState::Invalid;
    }

    /// The current state of the slot.
    pub fn state(&self) -> (s: SlotState)
        ensures
            s == self.spec_state(),
    {
        self.state
    }
}

} // verus!
