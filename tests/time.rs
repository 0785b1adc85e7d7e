use kcore::rtc::{RtcSample, RtcSampler};
use kcore::calibration::{advertised_frequency_hz, average_without_some_outliers, frequency_from_samples, ticks_per_interval};
use kcore::clock::{on_timer_interrupt, Clock, HpetReading};
use kcore::hpet::{get_counter, get_counter_period, reading, Hpet, HpetTimer};
use kcore::pit::{command_byte, divisor_bytes, divisor_for, AccessMode, ChannelSelect, OperatingMode, Pit};
use kcore::rtc::{boot_seconds, decode_rtc, RtcDateTime, RtcRegisters};

#[test]
fn clock_ticks_and_interpolates() {
    let mut c = Clock::new(1_700_000_000);
    assert_eq!(c.now(None), 0);
    c.on_tick(Some(1000));
    c.on_tick(None);
    assert_eq!(c.uptime_ms, 10);
    assert_eq!(c.last_hpet, 1000);
    assert_eq!(c.now(None), 10_000_000);
    let h = HpetReading { counter: 1100, period_fs: 10_000_000 };
    assert_eq!(c.now(Some(h)), 10_000_000 + 1_000);
    let far = HpetReading { counter: 1_000_000_000, period_fs: 10_000_000 };
    assert_eq!(c.now(Some(far)), 15_000_000);
    let behind = HpetReading { counter: 10, period_fs: 10_000_000 };
    assert_eq!(c.now(Some(behind)), 10_000_000);
    assert_eq!(c.timestamp(None), 1_700_000_000u128 * 1_000_000_000 + 10_000_000);
}

#[test]
fn clock_is_monotonic_across_a_tick() {
    let mut c = Clock::new(0);
    c.on_tick(Some(0));
    let before = c.now(Some(HpetReading { counter: 900_000, period_fs: 10_000_000 }));
    c.on_tick(Some(900_001));
    let after = c.now(Some(HpetReading { counter: 900_001, period_fs: 10_000_000 }));
    assert!(before <= after);
    assert_eq!(before, 10_000_000);
    assert_eq!(after, 10_000_000);
}

#[test]
fn uptime_saturates() {
    let mut c = Clock { uptime_ms: u64::MAX - 2, boot_sec: 0, last_hpet: 0 };
    c.on_tick(None);
    assert_eq!(c.uptime_ms, u64::MAX);
}

#[test]
fn advertised_frequencies_in_priority_order() {
    assert_eq!(advertised_frequency_hz(Some(1_000_000), Some(3_200_000_000)), Some(62_500_000));
    assert_eq!(advertised_frequency_hz(Some(0), Some(3_200_000_000)), Some(200_000_000));
    assert_eq!(advertised_frequency_hz(None, Some(15)), None);
    assert_eq!(advertised_frequency_hz(None, None), None);
}

#[test]
fn outliers_are_dropped_before_averaging() {
    let mut v = vec![100, 5, 102, 98, 101, 99, 1000, 100];
    let (sum, count) = average_without_some_outliers(&mut v);
    assert_eq!(v, vec![5, 98, 99, 100, 100, 101, 102, 1000]);
    assert_eq!((sum, count), (99 + 100 + 100 + 101 + 102, 5));
}

#[test]
fn frequency_from_interval_samples() {
    let mut v = vec![62_500u32; 100];
    v[3] = 1;
    v[50] = 4_000_000;
    assert_eq!(frequency_from_samples(&mut v), 12_500_000);
    assert_eq!(ticks_per_interval(12_500_000), 62_500);
    assert_eq!(ticks_per_interval(1_099), 5);
    assert_eq!(ticks_per_interval(u64::MAX), u32::MAX);
    let mut one = vec![7u32];
    assert_eq!(frequency_from_samples(&mut one), 1400);
}

#[test]
fn pit_divisor_and_command() {
    assert_eq!(divisor_for(5), 5966);
    assert_eq!(divisor_for(1), 1193);
    assert_eq!(divisor_for(55), 65535);
    assert_eq!(divisor_for(0), 0);
    assert_eq!(divisor_bytes(5966), (0x4E, 0x17));
    assert_eq!(command_byte(false, OperatingMode::Interrupt, AccessMode::Both, ChannelSelect::Channel0), 0x30);
    assert_eq!(command_byte(true, OperatingMode::SquareWave, AccessMode::LowByte, ChannelSelect::Channel2), 0x97);
    for b in 0u8..8 {
        assert_eq!(OperatingMode::try_from_bits(b).into_bits(), b);
    }
    for b in 0u8..4 {
        assert_eq!(AccessMode::try_from_bits(b).into_bits(), b);
        assert_eq!(ChannelSelect::try_from_bits(b).into_bits(), b);
    }
}

#[test]
fn pit_sleep_flag() {
    let mut p = Pit { sleeping: false };
    assert!(!p.on_tick());
    assert!(p.begin_sleep());
    assert!(!p.begin_sleep());
    assert!(p.on_tick());
    assert!(!p.sleeping);
}

fn hpet() -> Hpet {
    Hpet {
        capabilities_and_id: (10_000_000u64 << 32) | (0x8086 << 16) | (1 << 13) | (2 << 8) | 1,
        configuration: 0b10,
        general_interrupt_status: 0b100,
        counter_value: 12345,
        timers: (0..32).map(|i| HpetTimer { configuration_and_capabilities: i, comparator_value: 0, fsb_interrupt: 0 }).collect(),
    }
}

#[test]
fn hpet_registers_decode() {
    let mut h = hpet();
    assert_eq!(h.counter_period(), 10_000_000);
    assert_eq!(h.counter_value(), 12345);
    assert!(h.interrupt_status(2));
    assert!(!h.interrupt_status(1));
    h.clear_interrupt_status(1);
    assert_eq!(h.general_interrupt_status, 0b110);
    h.set_counter_enable(true);
    assert_eq!(h.configuration, 0b11);
    h.set_counter_enable(false);
    assert_eq!(h.configuration, 0b10);
    let t = h.timers();
    assert_eq!(t.len(), 3);
    assert_eq!(t[2].configuration_and_capabilities, 2);
    assert_eq!(get_counter(Some(&h)), Some(12345));
    assert_eq!(get_counter_period(Some(&h)), Some(10_000_000));
    assert_eq!(get_counter(None), None);
    assert_eq!(reading(Some(&h)), Some(HpetReading { counter: 12345, period_fs: 10_000_000 }));
}

#[test]
fn rtc_bcd_twelve_hour() {
    let regs = RtcRegisters {
        second: 0x45,
        minute: 0x30,
        hour: 0x81,
        day: 0x29,
        month: 0x02,
        year: 0x24,
        century: Some(0x20),
        register_b: 0x00,
    };
    let d = decode_rtc(regs);
    assert_eq!(d, RtcDateTime { year: 2024, month: 2, day: 29, hour: 13, minute: 30, second: 45 });
    assert_eq!(boot_seconds(regs), Some(1_709_213_445));
}

#[test]
fn rtc_binary_24_hour_without_century() {
    let regs = RtcRegisters { second: 5, minute: 0, hour: 0, day: 1, month: 1, year: 70, century: None, register_b: 0x06 };
    assert_eq!(decode_rtc(regs), RtcDateTime { year: 2070, month: 1, day: 1, hour: 0, minute: 0, second: 5 });
    let epoch = RtcRegisters { second: 0, minute: 0, hour: 0, day: 1, month: 1, year: 70, century: Some(19), register_b: 0x06 };
    assert_eq!(boot_seconds(epoch), Some(0));
}

#[test]
fn rtc_invalid_date_has_no_timestamp() {
    let regs = RtcRegisters { second: 0, minute: 0, hour: 0, day: 30, month: 2, year: 23, century: Some(20), register_b: 0x06 };
    assert_eq!(boot_seconds(regs), None);
    let midnight_pm = RtcRegisters { second: 0, minute: 0, hour: 0x92, day: 1, month: 1, year: 0, century: Some(0x20), register_b: 0 };
    assert_eq!(decode_rtc(midnight_pm).hour, 0);
}

#[test]
fn rtc_sampler_waits_for_two_equal_passes() {
    let a = RtcSample { second: 1, minute: 2, hour: 3, day: 4, month: 5, year: 6 };
    let b = RtcSample { second: 2, ..a };
    let mut s = RtcSampler::new();
    assert_eq!(s.on_sample(a, false), None);
    assert_eq!(s.on_sample(a, true), None);
    assert_eq!(s.on_sample(b, false), None);
    assert_eq!(s.on_sample(b, false), Some(b));
}

#[test]
fn only_core_zero_counts_timer_ticks() {
    let mut c = Clock::new(0);
    let mut ticks = 0u64;
    on_timer_interrupt(&mut c, &mut ticks, 1, Some(5));
    assert_eq!((c.uptime_ms, ticks, c.last_hpet), (0, 0, 0));
    on_timer_interrupt(&mut c, &mut ticks, 0, Some(5));
    assert_eq!((c.uptime_ms, ticks, c.last_hpet), (5, 1, 5));
}

#[test]
fn clock_later_ticks_beat_any_reading() {
    let mut c = Clock::new(0);
    c.on_tick(Some(0));
    let early = c.now(Some(HpetReading { counter: u64::MAX, period_fs: u32::MAX }));
    on_timer_interrupt(&mut c, &mut 0, 0, Some(7));
    let late = c.now(Some(HpetReading { counter: 0, period_fs: 1 }));
    assert!(early <= late);
}
