//! A single-use, single-value reply slot.
//!
//! One slot is created per submission and is private to it. The executor
//! resolves the slot exactly once with the operation's output; the awaiting
//! caller then takes that value exactly once, consuming the slot. Resolving
//! twice, taking twice, or taking before resolution are ruled out by the
//! contracts here, which is what "exactly-once delivery" rests on.

use vstd::prelude::*;

verus! {

/// The abstract state of a reply slot: not yet resolved, resolved with a
/// value, and nothing else — a taken slot is consumed by move.
pub enum ReplyState<Output> {
    Pending,
    Resolved(Output),
}

/// A single-use handoff cell for one operation's output.
pub struct ReplySlot<Output> {
    value: Option<Output>,
}

impl<Output> View for ReplySlot<Output> {
    type V = ReplyState<Output>;

    closed spec fn view(&self) -> ReplyState<Output> {
        match self.value {
            None => ReplyState::Pending,
            Some(v) => ReplyState::Resolved(v),
        }
    }
}

impl<Output> ReplySlot<Output> {
    /// A fresh, unresolved slot, created alongside its submission.
    pub fn new() -> (slot: Self)
        ensures
            slot@ == ReplyState::<Output>::Pending,
    {
        ReplySlot { value: None }
    }

    /// True exactly when the slot has been resolved.
    pub fn is_resolved(&self) -> (r: bool)
        ensures
            r == (self@ matches ReplyState::Resolved(_)),
    {
        match &self.value {
            None => false,
            Some(_) => true,
        }
    }

    /// Resolve the slot with an output. Only the executor holds the right to
    /// do this, and only once: a resolved slot can never be resolved again.
    pub fn resolve(&mut self, out: Output)
        requires
            old(self)@ == ReplyState::<Output>::Pending,
        ensures
            final(self)@ == ReplyState::Resolved(out),
    {
        self.value = Some(out);
    }

    /// Take the delivered value, consuming the slot. The caller receives
    /// exactly the value the slot was resolved with.
    pub fn take(self) -> (out: Output)
        requires
            self@ matches ReplyState::Resolved(_),
        ensures
            self@ == ReplyState::Resolved(out),
    {
        match self.value {
            Some(v) => v,
            None => unreached(),
        }
    }
}

} // verus!
