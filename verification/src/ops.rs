//! The slot that keeps operator and automatic operations apart.

use vstd::prelude::*;

verus! {

/// Whether a slot is given to one who asks for it.
pub open spec fn grants(busy: bool) -> bool {
    !busy
}

/// Whether a slot is held after someone asked for it.
pub open spec fn after_try(busy: bool) -> bool {
    busy || grants(busy)
}

/// Whether a slot is held after it was given back.
pub open spec fn after_release(busy: bool) -> bool {
    false
}

/// Whether a slot is held after an operation was accepted with it, or not.
pub open spec fn occupied(busy: bool, accepted: bool) -> bool {
    busy || accepted
}

/// Held by at most one failover or switchover at a time.
#[derive(Debug)]
pub struct OpSlot {
    busy: bool,
}

impl View for OpSlot {
    type V = bool;

    /// Whether an operation is in progress.
    closed spec fn view(&self) -> bool {
        self.busy
    }
}

impl OpSlot {
    /// A slot that nobody holds.
    pub fn new() -> (r: Self)
        ensures
            !r@,
    {
        OpSlot { busy: false }
    }

    /// Takes the slot if nobody holds it, and tells whether it did.
    pub fn try_acquire(&mut self) -> (r: bool)
        ensures
            r == !old(self)@,
            final(self)@,
            r == grants(old(self)@),
            final(self)@ == after_try(old(self)@),
    {
        if self.busy {
            false
        } else {
            self.busy = true;
            true
        }
    }

    /// Gives the slot back.
    pub fn release(&mut self)
        ensures
            !final(self)@,
            final(self)@ == after_release(old(self)@),
    {
        self.busy = false;
    }

    /// Whether an operation is in progress.
    pub fn is_busy(&self) -> (r: bool)
        ensures
            r == self@,
    {
        self.busy
    }
}

/// Whoever asks for a free slot gets it; whoever asks after that does not, until
/// it is given back. Asking in vain does not free it.
pub proof fn lemma_one_holder(busy: bool)
    ensures
        grants(false),
        !grants(true),
        !grants(after_try(busy)),
        grants(after_release(busy)),
        grants(after_release(after_try(busy))),
        !grants(after_try(after_try(busy))),
        !grants(occupied(busy, true)),
        occupied(busy, false) == busy,
{
}

} // verus!
