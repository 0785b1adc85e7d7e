//! What a panic does on this core: before the unwinder and symbol tables
//! are ready, and for a panic inside a panic, the core halts; a panic that
//! cannot unwind halts after its report; any other unwinds towards the
//! task wrapper that catches it.
use vstd::prelude::*;

verus! {

/// What the panic handler does.
#[derive(Clone, Copy, Debug, PartialEq, Eq)]
pub enum PanicAction {
    /// Early boot: print what can be printed and halt.
    HaltDuringInit,
    /// A panic while another is being handled on this core: halt at once.
    HaltRecursive,
    /// The panic cannot unwind: report it and halt.
    HaltNoUnwind,
    /// Throw the payload towards the nearest catching frame.
    Unwind,
}

/// Per-core panic bookkeeping.
pub struct PanicState {
    /// Set once unwinding and backtraces are available.
    pub full: bool,
    /// Panics being handled on this core.
    pub depth: u32,
}

impl PanicState {
    /// Early boot: nothing in flight.
    pub fn new() -> (r: Self)
        ensures
            !r.full,
            r.depth == 0,
    {
        PanicState { full: false, depth: 0 }
    }

    /// Unwinding and backtraces are ready from now on.
    pub fn late_init(&mut self)
        ensures
            final(self).full,
            final(self).depth == old(self).depth,
    {
        self.full = true;
    }

    /// A panic begins. Once past early boot it counts as in flight (the
    /// count saturates) until its payload is dropped.
    pub fn on_panic(&mut self, can_unwind: bool) -> (r: PanicAction)
        ensures
            !old(self).full ==> r == PanicAction::HaltDuringInit && *final(self) == *old(self),
            old(self).full && old(self).depth > 0 ==> r == PanicAction::HaltRecursive,
            old(self).full && old(self).depth == 0 && !can_unwind ==> r == PanicAction::HaltNoUnwind,
            old(self).full && old(self).depth == 0 && can_unwind ==> r == PanicAction::Unwind,
            old(self).full ==> final(self).full && final(self).depth == (if old(self).depth < u32::MAX {
                old(self).depth + 1
            } else {
                old(self).depth as int
            }),
    {
        if !self.full {
            return PanicAction::HaltDuringInit;
        }
        let nested = self.depth > 0;
        self.depth = self.depth.saturating_add(1);
        if nested {
            PanicAction::HaltRecursive
        } else if !can_unwind {
            PanicAction::HaltNoUnwind
        } else {
            PanicAction::Unwind
        }
    }

    /// A caught panic's payload was dropped: it is no longer in flight.
    pub fn on_payload_dropped(&mut self)
        ensures
            final(self).full == old(self).full,
            final(self).depth == (if old(self).depth > 0 { old(self).depth - 1 } else { 0 }),
    {
        self.depth = self.depth.saturating_sub(1);
    }
}

} // verus!
