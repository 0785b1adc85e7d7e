//! The CMOS real-time clock: decoding its registers into a date and time,
//! and the boot time in seconds since the epoch.
use vstd::prelude::*;

verus! {

/// The RTC's raw registers, as read once no update was in progress.
#[derive(Clone, Copy, Debug, PartialEq, Eq)]
pub struct RtcRegisters {
    pub second: u8,
    pub minute: u8,
    pub hour: u8,
    pub day: u8,
    pub month: u8,
    pub year: u8,
    /// The century register named by the FADT, if it names one.
    pub century: Option<u8>,
    /// Status register B: bit 1 set for 24-hour mode, bit 2 set for binary.
    pub register_b: u8,
}

/// A decoded calendar date and time of day.
#[derive(Clone, Copy, Debug, PartialEq, Eq)]
pub struct RtcDateTime {
    pub year: u16,
    pub month: u8,
    pub day: u8,
    pub hour: u8,
    pub minute: u8,
    pub second: u8,
}

/// A BCD byte as a binary value.
pub open spec fn from_bcd(x: u8) -> int {
    x % 16 + (x / 16) * 10
}

/// The hour register as binary, keeping the PM flag in bit 7.
pub open spec fn hour_from_bcd(h: u8) -> int {
    h % 16 + ((h / 16) % 8) * 10 + (if h >= 128 { 128int } else { 0int })
}

/// Register B bit 2: values are binary rather than BCD.
pub open spec fn binary_mode(r: RtcRegisters) -> bool {
    (r.register_b / 4) % 2 == 1
}

/// Register B bit 1: hours run 0 to 23 rather than 1 to 12 with a PM flag.
pub open spec fn twenty_four_hour(r: RtcRegisters) -> bool {
    (r.register_b / 2) % 2 == 1
}

/// A date or time register's value.
pub open spec fn field_value(r: RtcRegisters, x: u8) -> int {
    if binary_mode(r) { x as int } else { from_bcd(x) }
}

/// The hour register's value, PM flag (bit 7) kept.
pub open spec fn raw_hour(r: RtcRegisters) -> int {
    if binary_mode(r) { r.hour as int } else { hour_from_bcd(r.hour) }
}

/// The hour of the day: a flagged 12-hour value has 12 added, modulo 24.
pub open spec fn hour_of_day(r: RtcRegisters) -> int {
    if !twenty_four_hour(r) && raw_hour(r) >= 128 { (raw_hour(r) % 128 + 12) % 24 } else { raw_hour(r) }
}

/// What the registers say, with the century register's value, or 20 when
/// there is none.
pub open spec fn spec_decode(r: RtcRegisters) -> RtcDateTime {
    let century = match r.century {
        Some(c) => field_value(r, c),
        None => 20,
    };
    RtcDateTime {
        year: (field_value(r, r.year) + century * 100) as u16,
        month: field_value(r, r.month) as u8,
        day: field_value(r, r.day) as u8,
        hour: hour_of_day(r) as u8,
        minute: field_value(r, r.minute) as u8,
        second: field_value(r, r.second) as u8,
    }
}

fn bcd_to_binary(x: u8) -> (r: u8)
    ensures
        r == from_bcd(x),
{
    x % 16 + (x / 16) * 10
}

/// Decodes the RTC registers.
pub fn decode_rtc(r: RtcRegisters) -> (d: RtcDateTime)
    ensures
        d == spec_decode(r),
{
    let bcd = r.register_b % 8 < 4;
    let conv = |x: u8| -> (y: u8)
        ensures
            y == field_value(r, x),
    {
        if bcd { bcd_to_binary(x) } else { x }
    };
    let hour = if bcd {
        r.hour % 16 + ((r.hour / 16) % 8) * 10 + if r.hour >= 128 { 128 } else { 0 }
    } else {
        r.hour
    };
    let hour24 = if r.register_b % 4 < 2 && hour >= 128 { (hour % 128 + 12) % 24 } else { hour };
    let century: u16 = match r.century {
        Some(c) => conv(c) as u16,
        None => 20,
    };
    RtcDateTime {
        year: conv(r.year) as u16 + century * 100,
        month: conv(r.month),
        day: conv(r.day),
        hour: hour24,
        minute: conv(r.minute),
        second: conv(r.second),
    }
}

/// `y` is a leap year in the Gregorian calendar.
pub open spec fn is_leap(y: int) -> bool {
    (y % 4 == 0 && y % 100 != 0) || y % 400 == 0
}

/// Days in month `m` of year `y`.
pub open spec fn days_in_month(y: int, m: int) -> int {
    if m == 2 {
        if is_leap(y) { 29 } else { 28 }
    } else if m == 4 || m == 6 || m == 9 || m == 11 {
        30
    } else {
        31
    }
}

/// `d` names a real date and time of day.
pub open spec fn valid_date_time(d: RtcDateTime) -> bool {
    &&& 1 <= d.month <= 12
    &&& 1 <= d.day <= days_in_month(d.year as int, d.month as int)
    &&& d.hour < 24
    &&& d.minute < 60
    &&& d.second < 60
}

/// Days from 1970-01-01 to the given date of the proleptic Gregorian
/// calendar: years are counted from March, so that the leap day ends a
/// year, and grouped in 400-year eras of 146097 days.
pub open spec fn days_from_civil(year: int, month: int, day: int) -> int {
    let y = if month <= 2 { year - 1 } else { year };
    let era = y / 400;
    let yoe = y - era * 400;
    let mp = if month > 2 { month - 3 } else { month + 9 };
    let doy = (153 * mp + 2) / 5 + day - 1;
    let doe = yoe * 365 + yoe / 4 - yoe / 100 + doy;
    era * 146097 + doe - 719468
}

/// Seconds since 1970-01-01 00:00:00 UTC of a date and time.
pub open spec fn utc_timestamp(year: int, month: int, day: int, hour: int, minute: int, second: int) -> int {
    days_from_civil(year, month, day) * 86400 + hour * 3600 + minute * 60 + second
}

/// Relies on chrono's `NaiveDate::from_ymd_opt` (`None` unless the month
/// and day name a date of that year), `NaiveDate::and_hms_opt` (`None`
/// unless hour < 24, minute < 60, second < 60) and
/// `NaiveDateTime::and_utc().timestamp()` (seconds since the epoch).
#[verifier::external_body]
fn chrono_timestamp(d: RtcDateTime) -> (r: Option<i64>)
    ensures
        r is Some <==> valid_date_time(d),
        r matches Some(t) ==> t == utc_timestamp(d.year as int, d.month as int, d.day as int, d.hour as int, d.minute as int, d.second as int),
{
    match chrono::NaiveDate::from_ymd_opt(d.year as i32, d.month as u32, d.day as u32) {
        Some(date) => match date.and_hms_opt(d.hour as u32, d.minute as u32, d.second as u32) {
            Some(t) => Some(t.and_utc().timestamp()),
            None => None,
        },
        None => None,
    }
}

/// Seconds since the epoch at which the RTC registers were read; `None`
/// when they do not name a valid date and time.
pub fn boot_seconds(r: RtcRegisters) -> (s: Option<i64>)
    ensures
        s is Some <==> valid_date_time(spec_decode(r)),
        s matches Some(t) ==> {
            let d = spec_decode(r);
            t == utc_timestamp(d.year as int, d.month as int, d.day as int, d.hour as int, d.minute as int, d.second as int)
        },
{
    chrono_timestamp(decode_rtc(r))
}

/// The six time registers as read in one pass.
#[derive(Clone, Copy, Debug, PartialEq, Eq)]
pub struct RtcSample {
    pub second: u8,
    pub minute: u8,
    pub hour: u8,
    pub day: u8,
    pub month: u8,
    pub year: u8,
}

fn same_sample(a: RtcSample, b: RtcSample) -> (r: bool)
    ensures
        r == (a == b),
{
    a.second == b.second && a.minute == b.minute && a.hour == b.hour && a.day == b.day && a.month == b.month
        && a.year == b.year
}

/// Reads the RTC consistently: a pass taken while an update is in progress
/// is discarded, and a pass is accepted once two accepted passes in a row
/// agree.
pub struct RtcSampler {
    pub last: Option<RtcSample>,
}

impl RtcSampler {
    /// Nothing read yet.
    pub fn new() -> (r: Self)
        ensures
            r.last is None,
    {
        RtcSampler { last: None }
    }

    /// Takes one pass; `Some` with the time once it is stable, `None` when
    /// another pass is needed.
    pub fn on_sample(&mut self, sample: RtcSample, update_in_progress: bool) -> (r: Option<RtcSample>)
        ensures
            update_in_progress ==> r is None && final(self).last == old(self).last,
            !update_in_progress && old(self).last == Some(sample) ==> r == Some(sample),
            !update_in_progress && old(self).last != Some(sample) ==> r is None && final(self).last == Some(sample),
    {
        if update_in_progress {
            return None;
        }
        match self.last {
            Some(prev) => {
                if same_sample(prev, sample) {
                    return Some(sample);
                }
            },
            None => {},
        }
        self.last = Some(sample);
        None
    }
}

} // verus!
