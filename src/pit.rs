//! The legacy programmable interval timer, used to measure a known
//! interval while the LAPIC timer is calibrated.
use vstd::prelude::*;

verus! {

/// The PIT's input clock in Hz.
pub const BASE_FREQUENCY_HZ: u64 = 1193182;

/// Counting mode, bits 1..4 of the command byte.
#[derive(Debug, Clone, Copy, PartialEq, Eq)]
pub enum OperatingMode {
    Interrupt,
    HwOneshot,
    RateGenerator,
    SquareWave,
    SwStrobe,
    HwStrobe,
    RateGenerator2,
    SquareWave2,
}

/// Which bytes of the count are written, bits 4..6 of the command byte.
#[derive(Debug, Clone, Copy, PartialEq, Eq)]
pub enum AccessMode {
    LatchCount,
    LowByte,
    HighByte,
    Both,
}

/// The channel addressed, bits 6..8 of the command byte.
#[derive(Debug, Clone, Copy, PartialEq, Eq)]
pub enum ChannelSelect {
    Channel0,
    Channel1,
    Channel2,
    Readback,
}

impl OperatingMode {
    pub open spec fn bits(self) -> u8 {
        match self {
            OperatingMode::Interrupt => 0,
            OperatingMode::HwOneshot => 1,
            OperatingMode::RateGenerator => 2,
            OperatingMode::SquareWave => 3,
            OperatingMode::SwStrobe => 4,
            OperatingMode::HwStrobe => 5,
            OperatingMode::RateGenerator2 => 6,
            OperatingMode::SquareWave2 => 7,
        }
    }

    /// The mode that a 3-bit pattern encodes.
    pub fn try_from_bits(bits: u8) -> (r: Self)
        requires
            bits < 8,
        ensures
            r.bits() == bits,
    {
        match bits {
            0 => OperatingMode::Interrupt,
            1 => OperatingMode::HwOneshot,
            2 => OperatingMode::RateGenerator,
            3 => OperatingMode::SquareWave,
            4 => OperatingMode::SwStrobe,
            5 => OperatingMode::HwStrobe,
            6 => OperatingMode::RateGenerator2,
            _ => OperatingMode::SquareWave2,
        }
    }

    /// The 3-bit pattern of this mode.
    pub fn into_bits(self) -> (r: u8)
        ensures
            r == self.bits(),
    {
        match self {
            OperatingMode::Interrupt => 0,
            OperatingMode::HwOneshot => 1,
            OperatingMode::RateGenerator => 2,
            OperatingMode::SquareWave => 3,
            OperatingMode::SwStrobe => 4,
            OperatingMode::HwStrobe => 5,
            OperatingMode::RateGenerator2 => 6,
            OperatingMode::SquareWave2 => 7,
        }
    }
}

impl AccessMode {
    pub open spec fn bits(self) -> u8 {
        match self {
            AccessMode::LatchCount => 0,
            AccessMode::LowByte => 1,
            AccessMode::HighByte => 2,
            AccessMode::Both => 3,
        }
    }

    /// The access mode that a 2-bit pattern encodes.
    pub fn try_from_bits(bits: u8) -> (r: Self)
        requires
            bits < 4,
        ensures
            r.bits() == bits,
    {
        match bits {
            0 => AccessMode::LatchCount,
            1 => AccessMode::LowByte,
            2 => AccessMode::HighByte,
            _ => AccessMode::Both,
        }
    }

    /// The 2-bit pattern of this access mode.
    pub fn into_bits(self) -> (r: u8)
        ensures
            r == self.bits(),
    {
        match self {
            AccessMode::LatchCount => 0,
            AccessMode::LowByte => 1,
            AccessMode::HighByte => 2,
            AccessMode::Both => 3,
        }
    }
}

impl ChannelSelect {
    pub open spec fn bits(self) -> u8 {
        match self {
            ChannelSelect::Channel0 => 0,
            ChannelSelect::Channel1 => 1,
            ChannelSelect::Channel2 => 2,
            ChannelSelect::Readback => 3,
        }
    }

    /// The channel that a 2-bit pattern encodes.
    pub fn try_from_bits(bits: u8) -> (r: Self)
        requires
            bits < 4,
        ensures
            r.bits() == bits,
    {
        match bits {
            0 => ChannelSelect::Channel0,
            1 => ChannelSelect::Channel1,
            2 => ChannelSelect::Channel2,
            _ => ChannelSelect::Readback,
        }
    }

    /// The 2-bit pattern of this channel.
    pub fn into_bits(self) -> (r: u8)
        ensures
            r == self.bits(),
    {
        match self {
            ChannelSelect::Channel0 => 0,
            ChannelSelect::Channel1 => 1,
            ChannelSelect::Channel2 => 2,
            ChannelSelect::Readback => 3,
        }
    }
}

/// The command byte: BCD flag in bit 0, then mode, access and channel.
pub fn command_byte(bcd: bool, mode: OperatingMode, access: AccessMode, channel: ChannelSelect) -> (r: u8)
    ensures
        r == (if bcd { 1int } else { 0int }) + 2 * mode.bits() + 16 * access.bits() + 64 * channel.bits(),
{
    let b: u8 = if bcd { 1 } else { 0 };
    b + 2 * mode.into_bits() + 16 * access.into_bits() + 64 * channel.into_bits()
}

/// The reload value that makes channel 0 fire after `duration_ms`
/// milliseconds: the input clock times the duration, rounded to the
/// nearest count and capped at the 16-bit maximum.
pub fn divisor_for(duration_ms: u64) -> (r: u16)
    ensures
        r == (if (BASE_FREQUENCY_HZ * duration_ms + 500) / 1000 > u16::MAX {
            u16::MAX as int
        } else {
            (BASE_FREQUENCY_HZ * duration_ms + 500) / 1000
        }),
{
    if duration_ms > 1000 {
        proof {
            assert(BASE_FREQUENCY_HZ * duration_ms > 1000 * 65535 + 1000) by (nonlinear_arith)
                requires duration_ms > 1000;
        }
        return u16::MAX;
    }
    let t = (BASE_FREQUENCY_HZ * duration_ms + 500) / 1000;
    if t > u16::MAX as u64 {
        u16::MAX
    } else {
        t as u16
    }
}

/// The low and high bytes of a reload value, in the order they are written.
pub fn divisor_bytes(divisor: u16) -> (r: (u8, u8))
    ensures
        r.0 == divisor % 256,
        r.1 == divisor / 256,
{
    ((divisor % 256) as u8, (divisor / 256) as u8)
}

/// Whether a sleep is in progress; the PIT interrupt ends it.
pub struct Pit {
    pub sleeping: bool,
}

impl Pit {
    /// The PIT interrupt: ends the current sleep, if any. Returns whether
    /// one was in progress.
    pub fn on_tick(&mut self) -> (r: bool)
        ensures
            r == old(self).sleeping,
            !final(self).sleeping,
    {
        let was = self.sleeping;
        self.sleeping = false;
        was
    }

    /// Starts a sleep; false, changing nothing, if one is already running.
    pub fn begin_sleep(&mut self) -> (r: bool)
        ensures
            r == !old(self).sleeping,
            final(self).sleeping,
    {
        if self.sleeping {
            false
        } else {
            self.sleeping = true;
            true
        }
    }
}

} // verus!
