//! Cooperative cancellation.
//!
//! A `ShutdownSignal` is the sole control channel between the interrupt
//! handler and the two relay workers: a single boolean, initially `false`,
//! set to `true` at most once and never reset. Workers poll it once per
//! loop iteration; the embedding shares it by broadcast (each worker reads
//! the latest value), so its state machine is the whole contract.

use vstd::prelude::*;

verus! {

/// The set-once cancellation flag.
pub struct ShutdownSignal {
    fired: bool,
}

impl ShutdownSignal {
    /// Whether the signal has been raised.
    pub closed spec fn spec_fired(&self) -> bool {
        self.fired
    }

    /// A fresh signal that has not fired.
    pub fn new() -> (r: ShutdownSignal)
        ensures
            !r.spec_fired(),
    {
        ShutdownSignal { fired: false }
    }

    /// Raises the signal. Idempotent: the signal is fired afterwards
    /// whether or not it had already fired, and a fired signal is unchanged.
    pub fn signal(&mut self)
        ensures
            final(self).spec_fired(),
            old(self).spec_fired() ==> *final(self) == *old(self),
    {
        self.fired = true;
    }

    /// Reads the current state without blocking or side effects.
    pub fn has_fired(&self) -> (r: bool)
        ensures
            r == self.spec_fired(),
    {
        self.fired
    }
}

} // verus!
