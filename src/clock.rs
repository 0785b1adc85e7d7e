//! The monotonic clock and wall time. CPU 0 adds one timer interval to the
//! uptime on each timer tick; when an HPET is present, readings between
//! ticks interpolate from its counter, up to one interval.
use vstd::prelude::*;

verus! {

/// Milliseconds between two timer ticks.
pub const TIMER_INTERVAL_MS: u64 = 5;

/// Nanoseconds in a millisecond.
pub const NANOS_PER_MS: u128 = 1_000_000;

/// Femtoseconds in a nanosecond.
pub const FEMTOS_PER_NANO: u128 = 1_000_000;

/// Nanoseconds in a second.
pub const NANOS_PER_SEC: u128 = 1_000_000_000;

/// Uptime, boot time and the HPET counter at the last tick.
pub struct Clock {
    pub uptime_ms: u64,
    pub boot_sec: u64,
    pub last_hpet: u64,
}

/// An HPET reading: the counter and its period in femtoseconds.
#[derive(Clone, Copy, Debug, PartialEq, Eq)]
pub struct HpetReading {
    pub counter: u64,
    pub period_fs: u32,
}

/// Nanoseconds since the last tick that an HPET reading shows, at most one
/// timer interval.
pub open spec fn spec_since_tick(last: u64, h: HpetReading) -> int {
    let elapsed = if h.counter >= last { h.counter - last } else { 0 };
    let ns = (elapsed * h.period_fs) / FEMTOS_PER_NANO as int;
    if ns > TIMER_INTERVAL_MS * NANOS_PER_MS {
        (TIMER_INTERVAL_MS * NANOS_PER_MS) as int
    } else {
        ns
    }
}

/// Nanoseconds since boot.
pub open spec fn spec_now(c: Clock, hpet: Option<HpetReading>) -> int {
    c.uptime_ms * NANOS_PER_MS + match hpet {
        Some(h) => spec_since_tick(c.last_hpet, h),
        None => 0,
    }
}

impl Clock {
    /// A clock at boot, `boot_sec` seconds after the epoch.
    pub fn new(boot_sec: u64) -> (r: Self)
        ensures
            r.uptime_ms == 0,
            r.boot_sec == boot_sec,
            r.last_hpet == 0,
    {
        Clock { uptime_ms: 0, boot_sec, last_hpet: 0 }
    }

    /// One timer tick: the uptime grows by one interval (saturating), and
    /// the HPET counter, if any, is latched.
    pub fn on_tick(&mut self, hpet_counter: Option<u64>)
        ensures
            final(self).uptime_ms == (if old(self).uptime_ms + TIMER_INTERVAL_MS <= u64::MAX {
                old(self).uptime_ms + TIMER_INTERVAL_MS
            } else {
                u64::MAX as int
            }),
            final(self).boot_sec == old(self).boot_sec,
            final(self).last_hpet == (match hpet_counter {
                Some(c) => c,
                None => old(self).last_hpet,
            }),
    {
        self.uptime_ms = self.uptime_ms.saturating_add(TIMER_INTERVAL_MS);
        if let Some(c) = hpet_counter {
            self.last_hpet = c;
        }
    }

    /// Nanoseconds since boot.
    pub fn now(&self, hpet: Option<HpetReading>) -> (r: u128)
        ensures
            r == spec_now(*self, hpet),
    {
        let base = self.uptime_ms as u128 * NANOS_PER_MS;
        match hpet {
            None => base,
            Some(h) => {
                let elapsed = h.counter.saturating_sub(self.last_hpet);
                proof {
                    assert(elapsed as u128 * h.period_fs as u128 <= u64::MAX as u128 * u32::MAX as u128) by (nonlinear_arith)
                        requires elapsed <= u64::MAX, h.period_fs <= u32::MAX;
                }
                let ns = elapsed as u128 * h.period_fs as u128 / FEMTOS_PER_NANO;
                let cap = TIMER_INTERVAL_MS as u128 * NANOS_PER_MS;
                base + if ns > cap { cap } else { ns }
            },
        }
    }

    /// Nanoseconds since the epoch.
    pub fn timestamp(&self, hpet: Option<HpetReading>) -> (r: u128)
        ensures
            r == self.boot_sec * NANOS_PER_SEC + spec_now(*self, hpet),
    {
        self.boot_sec as u128 * NANOS_PER_SEC + self.now(hpet)
    }
}

/// The LAPIC timer interrupt on core `pid`. It fires on every core, but
/// only core 0 advances the clock and pends a tick for the timer wheel, so
/// each interval is counted once. The wheel's tick count saturates.
pub fn on_timer_interrupt(clock: &mut Clock, wheel_ticks: &mut u64, pid: u32, hpet_counter: Option<u64>)
    ensures
        pid != 0 ==> *final(clock) == *old(clock) && *final(wheel_ticks) == *old(wheel_ticks),
        pid == 0 ==> final(clock).uptime_ms == (if old(clock).uptime_ms + TIMER_INTERVAL_MS <= u64::MAX {
            old(clock).uptime_ms + TIMER_INTERVAL_MS
        } else {
            u64::MAX as int
        }) && final(clock).boot_sec == old(clock).boot_sec
            && final(clock).last_hpet == (match hpet_counter {
                Some(c) => c,
                None => old(clock).last_hpet,
            })
            && *final(wheel_ticks) == (if *old(wheel_ticks) < u64::MAX { *old(wheel_ticks) + 1 } else { u64::MAX as int }),
{
    if pid == 0 {
        *wheel_ticks = wheel_ticks.saturating_add(1);
        clock.on_tick(hpet_counter);
    }
}

/// The clock never runs backwards. Between ticks, a later HPET reading
/// gives a later time; across a tick, any reading before it is at most any
/// reading after it. Without an HPET the same holds of the tick count.
/// (At the top of the `u64` millisecond range, after some 584 million
/// years, the uptime saturates and the cross-tick claim is not made.)
pub proof fn lemma_now_monotonic(c0: Clock, c1: Clock, before: Option<HpetReading>, at_tick: Option<u64>, after: Option<HpetReading>)
    requires
        c0.uptime_ms + TIMER_INTERVAL_MS <= u64::MAX,
        c1.uptime_ms == c0.uptime_ms + TIMER_INTERVAL_MS,
        c1.last_hpet == (match at_tick {
            Some(t) => t,
            None => c0.last_hpet,
        }),
    ensures
        spec_now(c0, before) <= spec_now(c1, after),
        spec_now(c0, None) <= spec_now(c1, None),
{
    let a = match before {
        Some(h) => spec_since_tick(c0.last_hpet, h),
        None => 0,
    };
    let b = match after {
        Some(h) => spec_since_tick(c1.last_hpet, h),
        None => 0,
    };
    if let Some(h) = before {
        assert(spec_since_tick(c0.last_hpet, h) >= 0) by {
            let elapsed = if h.counter >= c0.last_hpet { h.counter - c0.last_hpet } else { 0 };
            assert(elapsed * h.period_fs >= 0) by (nonlinear_arith)
                requires elapsed >= 0, h.period_fs >= 0;
        }
    }
    if let Some(h) = after {
        assert(spec_since_tick(c1.last_hpet, h) >= 0) by {
            let elapsed = if h.counter >= c1.last_hpet { h.counter - c1.last_hpet } else { 0 };
            assert(elapsed * h.period_fs >= 0) by (nonlinear_arith)
                requires elapsed >= 0, h.period_fs >= 0;
        }
    }
    assert(a <= TIMER_INTERVAL_MS * NANOS_PER_MS);
    assert(c1.uptime_ms * NANOS_PER_MS == c0.uptime_ms * NANOS_PER_MS + TIMER_INTERVAL_MS * NANOS_PER_MS);
}

/// Between two ticks, a later HPET counter never gives an earlier time.
pub proof fn lemma_now_monotonic_between_ticks(c: Clock, h0: HpetReading, h1: HpetReading)
    requires
        h0.counter <= h1.counter,
        h0.period_fs == h1.period_fs,
    ensures
        spec_now(c, Some(h0)) <= spec_now(c, Some(h1)),
{
    let e0 = if h0.counter >= c.last_hpet { h0.counter - c.last_hpet } else { 0 };
    let e1 = if h1.counter >= c.last_hpet { h1.counter - c.last_hpet } else { 0 };
    assert(e0 <= e1);
    assert(e0 * h0.period_fs <= e1 * h1.period_fs) by (nonlinear_arith)
        requires e0 <= e1, h0.period_fs == h1.period_fs, e0 >= 0, h0.period_fs >= 0;
    vstd::arithmetic::div_mod::lemma_div_is_ordered(e0 * h0.period_fs, e1 * h1.period_fs, FEMTOS_PER_NANO as int);
}

/// The monotonic clock never decreases between any two observations made
/// in order: either at least one tick separates them (the second clock's
/// uptime is at least one interval later, whatever either HPET reading
/// says), or they fall between the same two ticks, where the HPET counter
/// only grows at a fixed period.
pub proof fn lemma_now_never_decreases(c0: Clock, h0: Option<HpetReading>, c1: Clock, h1: Option<HpetReading>)
    requires
        c1.uptime_ms >= c0.uptime_ms + TIMER_INTERVAL_MS || (c1 == c0 && match (h0, h1) {
            (Some(a), Some(b)) => a.counter <= b.counter && a.period_fs == b.period_fs,
            (None, None) => true,
            _ => false,
        }),
    ensures
        spec_now(c0, h0) <= spec_now(c1, h1),
{
    lemma_since_tick_bounds(c0, h0);
    lemma_since_tick_bounds(c1, h1);
    if c1.uptime_ms >= c0.uptime_ms + TIMER_INTERVAL_MS {
        assert(c1.uptime_ms * NANOS_PER_MS >= c0.uptime_ms * NANOS_PER_MS + TIMER_INTERVAL_MS * NANOS_PER_MS) by (nonlinear_arith)
            requires c1.uptime_ms >= c0.uptime_ms + TIMER_INTERVAL_MS;
    } else {
        if let (Some(a), Some(b)) = (h0, h1) {
            lemma_now_monotonic_between_ticks(c0, a, b);
        }
    }
}

proof fn lemma_since_tick_bounds(c: Clock, h: Option<HpetReading>)
    ensures
        0 <= spec_now(c, h) - c.uptime_ms * NANOS_PER_MS <= TIMER_INTERVAL_MS * NANOS_PER_MS,
{
    if let Some(r) = h {
        let elapsed = if r.counter >= c.last_hpet { r.counter - c.last_hpet } else { 0 };
        assert(elapsed * r.period_fs >= 0) by (nonlinear_arith)
            requires elapsed >= 0, r.period_fs >= 0;
    }
}

} // verus!
