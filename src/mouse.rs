//! PS/2 mouse packets: three bytes per movement report.
use vstd::prelude::*;

verus! {

/// Command byte that enables data reporting.
pub const ENABLE_REPORTING: u8 = 0xF4;

/// A 9-bit two's-complement movement from its overflow flag, sign flag and
/// low byte; an overflow saturates to -256 or 256.
pub open spec fn signed_9(overflow: bool, sign: bool, val: u8) -> int {
    if sign {
        if overflow { -256 } else { val - 256 }
    } else {
        if overflow { 256 } else { val as int }
    }
}

/// The pointer position and buttons.
#[derive(Debug, Clone, Copy, PartialEq, Eq)]
pub struct MouseState {
    pub x: u16,
    pub y: u16,
    pub left: bool,
    pub right: bool,
    pub middle: bool,
}

/// Where the decoder stands within a packet.
#[derive(Debug, Clone, Copy, PartialEq, Eq)]
pub enum PacketState {
    /// Waiting for the device to acknowledge the enable command.
    Ack,
    /// Waiting for the first byte of a packet.
    Idle,
    /// Got the flags byte.
    WaitByte2(u8),
    /// Got the flags byte and the X movement.
    WaitByte3(u8, u8),
}

/// `x + d`, held to `0..=u16::MAX`.
pub open spec fn clamp_add(x: u16, d: int) -> u16 {
    if x + d < 0 {
        0
    } else if x + d > u16::MAX {
        u16::MAX
    } else {
        (x + d) as u16
    }
}

/// Bit `i` of `b`.
pub open spec fn flag(b: u8, i: int) -> bool {
    (b as int / pow2_u8(i)) % 2 == 1
}

pub open spec fn pow2_u8(i: int) -> int {
    if i == 0 { 1 } else if i == 1 { 2 } else if i == 2 { 4 } else if i == 3 { 8 }
    else if i == 4 { 16 } else if i == 5 { 32 } else if i == 6 { 64 } else { 128 }
}

/// The state a complete packet `b1 b2 b3` leads to from `s`: X moves
/// right, Y moves up (screen Y grows downward), buttons from `b1`.
pub open spec fn apply_packet(s: MouseState, b1: u8, b2: u8, b3: u8) -> MouseState {
    MouseState {
        x: clamp_add(s.x, signed_9(flag(b1, 6), flag(b1, 4), b2)),
        y: clamp_add(s.y, -signed_9(flag(b1, 7), flag(b1, 5), b3)),
        left: flag(b1, 0),
        right: flag(b1, 1),
        middle: flag(b1, 2),
    }
}

/// The movement encoded by an overflow flag, a sign flag and a low byte.
pub fn get_signed_9(overflow: bool, sign: bool, val: u8) -> (r: i16)
    ensures
        r == signed_9(overflow, sign, val),
{
    if sign {
        if overflow { -256 } else { val as i16 - 0x100 }
    } else {
        if overflow { 256 } else { val as i16 }
    }
}

fn saturating_add_signed(x: u16, d: i16) -> (r: u16)
    ensures
        r == clamp_add(x, d as int),
{
    let s = x as i32 + d as i32;
    if s < 0 {
        0
    } else if s > u16::MAX as i32 {
        u16::MAX
    } else {
        s as u16
    }
}

fn bit_of(b: u8, i: u8) -> (r: bool)
    requires
        i < 8,
    ensures
        r == flag(b, i as int),
{
    let d: u8 = match i {
        0 => 1,
        1 => 2,
        2 => 4,
        3 => 8,
        4 => 16,
        5 => 32,
        6 => 64,
        _ => 128,
    };
    (b / d) % 2 == 1
}

/// A decoder that tracks the pointer.
pub struct Mouse {
    state: PacketState,
    mouse_state: MouseState,
}

impl Mouse {
    pub closed spec fn state(&self) -> PacketState {
        self.state
    }

    pub closed spec fn position(&self) -> MouseState {
        self.mouse_state
    }

    /// A decoder at the origin with no button held, and the command that
    /// starts the device reporting.
    pub fn new() -> (r: (Option<u8>, Self))
        ensures
            r.0 == Some(ENABLE_REPORTING),
            r.1.state() == PacketState::Ack,
            r.1.position() == (MouseState { x: 0, y: 0, left: false, right: false, middle: false }),
    {
        (
            Some(ENABLE_REPORTING),
            Mouse {
                state: PacketState::Ack,
                mouse_state: MouseState { x: 0, y: 0, left: false, right: false, middle: false },
            },
        )
    }

    /// Takes one byte. The acknowledgement is skipped; a first byte must
    /// have bit 3 set or it is dropped; the third byte completes a packet,
    /// and the new state comes back when it differs from the old one.
    pub fn handle_data(&mut self, data: u8) -> (r: Option<MouseState>)
        ensures
            match old(self).state() {
                PacketState::Ack => final(self).state() == PacketState::Idle
                    && final(self).position() == old(self).position() && r is None,
                PacketState::Idle => final(self).state() == (if flag(data, 3) { PacketState::WaitByte2(data) } else { PacketState::Idle })
                    && final(self).position() == old(self).position() && r is None,
                PacketState::WaitByte2(b1) => final(self).state() == PacketState::WaitByte3(b1, data)
                    && final(self).position() == old(self).position() && r is None,
                PacketState::WaitByte3(b1, b2) => {
                    let n = apply_packet(old(self).position(), b1, b2, data);
                    &&& final(self).state() == PacketState::Idle
                    &&& final(self).position() == n
                    &&& r == (if n != old(self).position() { Some(n) } else { None })
                },
            },
    {
        match self.state {
            PacketState::Ack => {
                self.state = PacketState::Idle;
                None
            },
            PacketState::Idle => {
                if bit_of(data, 3) {
                    self.state = PacketState::WaitByte2(data);
                }
                None
            },
            PacketState::WaitByte2(b1) => {
                self.state = PacketState::WaitByte3(b1, data);
                None
            },
            PacketState::WaitByte3(b1, b2) => {
                let dx = get_signed_9(bit_of(b1, 6), bit_of(b1, 4), b2);
                let dy = get_signed_9(bit_of(b1, 7), bit_of(b1, 5), data);
                let new_state = MouseState {
                    x: saturating_add_signed(self.mouse_state.x, dx),
                    y: saturating_add_signed(self.mouse_state.y, -dy),
                    left: bit_of(b1, 0),
                    right: bit_of(b1, 1),
                    middle: bit_of(b1, 2),
                };
                self.state = PacketState::Idle;
                let old_state = self.mouse_state;
                self.mouse_state = new_state;
                if new_state.x != old_state.x || new_state.y != old_state.y || new_state.left != old_state.left
                    || new_state.right != old_state.right || new_state.middle != old_state.middle {
                    Some(new_state)
                } else {
                    None
                }
            },
        }
    }
}

} // verus!
