//! The HPET's memory-mapped registers, as values: reading a field and the
//! value to write back to change one.
use vstd::prelude::*;
use crate::clock::HpetReading;

verus! {

/// Timers in the register block.
pub const MAX_TIMERS: usize = 32;

/// Bit `i` of `x`.
pub open spec fn bit(x: u64, i: u64) -> bool {
    (x >> i) & 1 == 1
}

/// One comparator's registers.
#[derive(Clone, Copy, Debug, PartialEq, Eq)]
pub struct HpetTimer {
    pub configuration_and_capabilities: u64,
    pub comparator_value: u64,
    pub fsb_interrupt: u64,
}

/// The general registers and the comparators of an HPET.
/// Capabilities: revision in bits 0..8, index of the last timer in bits
/// 8..13, counter period in femtoseconds in bits 32..64. Configuration:
/// counter enable in bit 0. Interrupt status: one bit per timer.
pub struct Hpet {
    pub capabilities_and_id: u64,
    pub configuration: u64,
    pub general_interrupt_status: u64,
    pub counter_value: u64,
    pub timers: Vec<HpetTimer>,
}

impl Hpet {
    /// The counter period in femtoseconds.
    pub fn counter_period(&self) -> (r: u32)
        ensures
            r == self.capabilities_and_id / 0x1_0000_0000,
    {
        let c = self.capabilities_and_id;
        assert(c >> 32u64 == c / 0x1_0000_0000) by (bit_vector);
        (c >> 32u64) as u32
    }

    /// The main counter.
    pub fn counter_value(&self) -> (r: u64)
        ensures
            r == self.counter_value,
    {
        self.counter_value
    }

    /// Whether timer `timer` is asserting a level-triggered interrupt.
    pub fn interrupt_status(&self, timer: u8) -> (r: bool)
        requires
            timer < 32,
        ensures
            r == bit(self.general_interrupt_status, timer as u64),
    {
        (self.general_interrupt_status >> (timer as u64)) & 1 == 1
    }

    /// Clears timer `timer`'s interrupt: writes 1 to its status bit, leaving
    /// the other bits as read.
    pub fn clear_interrupt_status(&mut self, timer: u8)
        requires
            timer < 32,
        ensures
            bit(final(self).general_interrupt_status, timer as u64),
            forall|i: u64| i < 64 && i != timer ==> bit(final(self).general_interrupt_status, i) == bit(old(self).general_interrupt_status, i),
            final(self).capabilities_and_id == old(self).capabilities_and_id,
            final(self).configuration == old(self).configuration,
            final(self).counter_value == old(self).counter_value,
            final(self).timers@ == old(self).timers@,
    {
        let s = self.general_interrupt_status;
        let t = timer as u64;
        let v = s | (1u64 << t);
        assert(forall|i: u64| i < 64 && i != t ==> ((v >> i) & 1 == 1) == ((s >> i) & 1 == 1)) by (bit_vector)
            requires v == s | (1u64 << t), t < 32;
        assert((v >> t) & 1 == 1) by (bit_vector)
            requires v == s | (1u64 << t), t < 32;
        self.general_interrupt_status = v;
    }

    /// Starts or halts the main counter.
    pub fn set_counter_enable(&mut self, enable: bool)
        ensures
            bit(final(self).configuration, 0) == enable,
            forall|i: u64| 0 < i < 64 ==> bit(final(self).configuration, i) == bit(old(self).configuration, i),
            final(self).capabilities_and_id == old(self).capabilities_and_id,
            final(self).general_interrupt_status == old(self).general_interrupt_status,
            final(self).counter_value == old(self).counter_value,
            final(self).timers@ == old(self).timers@,
    {
        let c = self.configuration;
        let v = if enable { c | 1 } else { c & !1u64 };
        assert(forall|i: u64| 0 < i < 64 ==> ((v >> i) & 1 == 1) == ((c >> i) & 1 == 1)) by (bit_vector)
            requires v == c | 1 || v == c & !1u64;
        assert(enable ==> (v >> 0u64) & 1 == 1) by (bit_vector)
            requires enable ==> v == c | 1;
        assert(!enable ==> (v >> 0u64) & 1 == 0) by (bit_vector)
            requires !enable ==> v == c & !1u64;
        self.configuration = v;
    }

    /// The timers that the HPET implements: up to the last index its
    /// capabilities name.
    pub fn timers(&self) -> (r: Vec<HpetTimer>)
        requires
            self.timers@.len() == MAX_TIMERS,
        ensures
            r@ == self.timers@.subrange(0, (self.capabilities_and_id / 256) % 32 + 1),
    {
        let last = ((self.capabilities_and_id >> 8u64) & 0x1F) as usize;
        let c = self.capabilities_and_id;
        assert((c >> 8u64) & 0x1F == (c / 256) % 32) by (bit_vector);
        let mut r: Vec<HpetTimer> = Vec::new();
        let mut i: usize = 0;
        while i <= last
            invariant
                last < 32,
                self.timers@.len() == MAX_TIMERS,
                0 <= i <= last + 1,
                r@ == self.timers@.subrange(0, i as int),
            decreases last + 1 - i,
        {
            r.push(self.timers[i]);
            proof {
                assert(self.timers@.subrange(0, i + 1) == self.timers@.subrange(0, i as int).push(self.timers@[i as int]));
            }
            i = i + 1;
        }
        r
    }
}

/// The main counter, when an HPET is present.
pub fn get_counter(hpet: Option<&Hpet>) -> (r: Option<u64>)
    ensures
        r == (match hpet {
            Some(h) => Some(h.counter_value),
            None => None,
        }),
{
    match hpet {
        Some(h) => Some(h.counter_value()),
        None => None,
    }
}

/// The counter period in femtoseconds, when an HPET is present.
pub fn get_counter_period(hpet: Option<&Hpet>) -> (r: Option<u32>)
    ensures
        r == (match hpet {
            Some(h) => Some((h.capabilities_and_id / 0x1_0000_0000) as u32),
            None => None,
        }),
{
    match hpet {
        Some(h) => Some(h.counter_period()),
        None => None,
    }
}

/// The reading that the clock interpolates from, when an HPET is present.
pub fn reading(hpet: Option<&Hpet>) -> (r: Option<HpetReading>)
    ensures
        r == (match hpet {
            Some(h) => Some(HpetReading { counter: h.counter_value, period_fs: (h.capabilities_and_id / 0x1_0000_0000) as u32 }),
            None => None,
        }),
{
    match hpet {
        Some(h) => Some(HpetReading { counter: h.counter_value(), period_fs: h.counter_period() }),
        None => None,
    }
}

} // verus!
