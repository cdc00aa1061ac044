use vstd::prelude::*;

verus! {

/// A two-state latch that holds back the input reader while a command it sent has
/// not been acknowledged.
#[derive(Clone, Copy, Debug, PartialEq, Eq)]
pub struct InputGate {
    blocked: bool,
}

impl InputGate {
    pub closed spec fn is_blocked_spec(&self) -> bool {
        self.blocked
    }

    /// A gate that lets the reader through.
    pub fn new() -> (r: InputGate)
        ensures
            !r.is_blocked_spec(),
    {
        InputGate { blocked: false }
    }

    /// Whether the reader has to wait.
    pub fn is_blocked(&self) -> (r: bool)
        ensures
            r == self.is_blocked_spec(),
    {
        self.blocked
    }

    /// Re-arms the latch after the reader sent a command.
    pub fn block_input_thread(&mut self)
        ensures
            final(self).is_blocked_spec(),
    {
        self.blocked = true;
    }

    /// Opens the latch; opening an open latch changes nothing.
    pub fn unblock_input_thread(&mut self)
        ensures
            !final(self).is_blocked_spec(),
            !old(self).is_blocked_spec() ==> *final(self) == *old(self),
    {
        self.blocked = false;
    }
}

} // verus!
