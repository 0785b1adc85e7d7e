//! LAPIC timer calibration: the frequency comes from CPUID where it is
//! advertised, else from PIT-timed samples with outliers dropped.
use vstd::prelude::*;
use crate::clock::TIMER_INTERVAL_MS;

verus! {

/// The LAPIC timer runs at the bus clock divided by this.
pub const TIMER_DIVISOR: u64 = 16;

/// The values of `s` are in ascending order.
pub open spec fn is_sorted(s: Seq<u32>) -> bool {
    forall|i: int, j: int| 0 <= i <= j < s.len() ==> s[i] <= s[j]
}

/// Relies on `slice::sort_unstable`: the slice ends sorted ascending and
/// holds the same values.
#[verifier::external_body]
fn sort_samples(v: &mut Vec<u32>)
    ensures
        is_sorted(final(v)@),
        final(v)@.to_multiset() == old(v)@.to_multiset(),
{
    v.sort_unstable();
}

/// Sum and count of the first `n` values of `s` that lie in `[lo, hi]`.
pub open spec fn trimmed(s: Seq<u32>, lo: u32, hi: u32, n: int) -> (int, int)
    decreases n,
{
    if n <= 0 {
        (0, 0)
    } else {
        let (sum, count) = trimmed(s, lo, hi, n - 1);
        if lo <= s[n - 1] <= hi {
            (sum + s[n - 1], count + 1)
        } else {
            (sum, count)
        }
    }
}

/// First and third quartile of a sorted sample.
pub open spec fn quartiles(s: Seq<u32>) -> (u32, u32) {
    (s[s.len() as int / 4], s[3 * s.len() as int / 4])
}

proof fn lemma_trimmed_bounds(s: Seq<u32>, lo: u32, hi: u32, n: int)
    requires
        0 <= n <= s.len(),
    ensures
        0 <= trimmed(s, lo, hi, n).1 <= n,
        0 <= trimmed(s, lo, hi, n).0 <= n * u32::MAX,
        trimmed(s, lo, hi, n).0 <= trimmed(s, lo, hi, n).1 * u32::MAX,
    decreases n,
{
    if n > 0 {
        lemma_trimmed_bounds(s, lo, hi, n - 1);
    }
}

proof fn lemma_trimmed_counts(s: Seq<u32>, lo: u32, hi: u32, n: int, k: int)
    requires
        0 <= k < n <= s.len(),
        lo <= s[k] <= hi,
    ensures
        trimmed(s, lo, hi, n).1 >= 1,
    decreases n,
{
    lemma_trimmed_bounds(s, lo, hi, n - 1);
    if k < n - 1 {
        lemma_trimmed_counts(s, lo, hi, n - 1, k);
    }
}

/// Sorts the samples and returns the sum and count of those between the
/// first and third quartile, both included.
pub fn average_without_some_outliers(data: &mut Vec<u32>) -> (r: (u64, u64))
    requires
        old(data)@.len() > 0,
        old(data)@.len() <= u32::MAX,
    ensures
        is_sorted(final(data)@),
        final(data)@.to_multiset() == old(data)@.to_multiset(),
        (r.0 as int, r.1 as int) == trimmed(final(data)@, quartiles(final(data)@).0, quartiles(final(data)@).1, final(data)@.len() as int),
        r.1 >= 1,
{
    sort_samples(data);
    proof {
        assert(data@.len() == old(data)@.len()) by {
            vstd::seq_lib::to_multiset_len(data@);
            vstd::seq_lib::to_multiset_len(old(data)@);
        }
    }
    let n = data.len();
    let lo = data[n / 4];
    let hi = data[(3 * (n as u64) / 4) as usize];
    let mut sum: u64 = 0;
    let mut count: u64 = 0;
    let mut i: usize = 0;
    while i < n
        invariant
            n == data@.len(),
            0 < n <= u32::MAX,
            0 <= i <= n,
            lo == data@[n as int / 4],
            hi == data@[3 * n as int / 4],
            (sum as int, count as int) == trimmed(data@, lo, hi, i as int),
        decreases n - i,
    {
        proof {
            lemma_trimmed_bounds(data@, lo, hi, i as int);
            lemma_trimmed_bounds(data@, lo, hi, i + 1);
            assert(i * u32::MAX + u32::MAX <= u64::MAX) by (nonlinear_arith)
                requires i < 0x1_0000_0000int;
        }
        let x = data[i];
        if lo <= x && x <= hi {
            sum = sum + x as u64;
            count = count + 1;
        }
        i = i + 1;
    }
    proof {
        assert(is_sorted(data@));
        assert(lo <= data@[n as int / 4] <= hi);
        lemma_trimmed_counts(data@, lo, hi, n as int, (n / 4) as int);
    }
    (sum, count)
}

/// Timer frequency in Hz from CPUID, if it advertises one: the
/// hypervisor's APIC bus frequency (in kHz), else the TSC's nominal
/// frequency, each divided by the timer divisor. Zero counts as absent.
pub fn advertised_frequency_hz(hypervisor_khz: Option<u32>, tsc_hz: Option<u64>) -> (r: Option<u64>)
    ensures
        r == (match hypervisor_khz {
            Some(k) if k as int * 1000 / TIMER_DIVISOR as int > 0 => Some((k as int * 1000 / TIMER_DIVISOR as int) as u64),
            _ => match tsc_hz {
                Some(t) if t as int / TIMER_DIVISOR as int > 0 => Some((t as int / TIMER_DIVISOR as int) as u64),
                _ => None,
            },
        }),
{
    if let Some(k) = hypervisor_khz {
        let f = k as u64 * 1000 / TIMER_DIVISOR;
        if f > 0 {
            return Some(f);
        }
    }
    if let Some(t) = tsc_hz {
        let f = t / TIMER_DIVISOR;
        if f > 0 {
            return Some(f);
        }
    }
    None
}

/// Timer frequency in Hz from ticks counted over one timer interval each:
/// the trimmed mean scaled from one interval to one second.
pub fn frequency_from_samples(samples: &mut Vec<u32>) -> (r: u64)
    requires
        old(samples)@.len() > 0,
        old(samples)@.len() <= u32::MAX,
    ensures
        is_sorted(final(samples)@),
        final(samples)@.to_multiset() == old(samples)@.to_multiset(),
        ({
            let (sum, count) = trimmed(final(samples)@, quartiles(final(samples)@).0, quartiles(final(samples)@).1, final(samples)@.len() as int);
            r == sum * (1000int / TIMER_INTERVAL_MS as int) / count
        }),
{
    let (sum, count) = average_without_some_outliers(samples);
    proof {
        lemma_trimmed_bounds(samples@, quartiles(samples@).0, quartiles(samples@).1, samples@.len() as int);
        assert(sum as int * 200 <= count as int * (u32::MAX as int * 200)) by (nonlinear_arith)
            requires sum <= count * 0xFFFF_FFFFint;
        vstd::arithmetic::div_mod::lemma_div_is_ordered(sum as int * 200, count as int * (u32::MAX as int * 200), count as int);
        vstd::arithmetic::div_mod::lemma_div_by_multiple(u32::MAX as int * 200, count as int);
        assert(count as int * (u32::MAX as int * 200) == (u32::MAX as int * 200) * count as int) by (nonlinear_arith);
    }
    let r = (sum as u128 * (1000 / TIMER_INTERVAL_MS) as u128 / count as u128) as u64;
    r
}

/// LAPIC counts per timer interval at `frequency_hz`, rounded to the
/// nearest count and capped at the 32-bit maximum.
pub fn ticks_per_interval(frequency_hz: u64) -> (r: u32)
    ensures
        r == (if (frequency_hz * TIMER_INTERVAL_MS + 500) / 1000 > u32::MAX {
            u32::MAX as int
        } else {
            (frequency_hz * TIMER_INTERVAL_MS + 500) / 1000
        }),
{
    assert(frequency_hz as u128 * 5 <= u128::MAX);
    let t = (frequency_hz as u128 * TIMER_INTERVAL_MS as u128 + 500) / 1000;
    if t > u32::MAX as u128 {
        u32::MAX
    } else {
        t as u32
    }
}

} // verus!
