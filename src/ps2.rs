//! The PS/2 controller's interrupt lines: which status bit says that a
//! byte from that line's device is waiting.
use vstd::prelude::*;

verus! {

/// Which IRQ is being handled: the keyboard's or the mouse's.
#[derive(Debug, Clone, Copy, PartialEq, Eq)]
pub enum Irq {
    Irq1,
    Irq12,
}

/// Controller command that sends the next data byte to the second port.
pub const WRITE_SECOND_PORT: u8 = 0xD4;

/// Status bit that the interrupt's device has data: bit 0 for the
/// keyboard, bit 5 for the mouse.
pub fn status_mask(irq: Irq) -> (r: u8)
    ensures
        r == (match irq {
            Irq::Irq1 => 0x01u8,
            Irq::Irq12 => 0x20u8,
        }),
{
    match irq {
        Irq::Irq1 => 0x01,
        Irq::Irq12 => 0x20,
    }
}

/// Whether the status register shows a byte for `irq`'s device.
pub fn has_data(irq: Irq, status: u8) -> (r: bool)
    ensures
        r == (match irq {
            Irq::Irq1 => status % 2 == 1,
            Irq::Irq12 => (status / 32) % 2 == 1,
        }),
{
    let m = status_mask(irq);
    let r = status & m != 0;
    assert(status & 0x01u8 != 0 <==> status % 2 == 1) by (bit_vector);
    assert(status & 0x20u8 != 0 <==> (status / 32) % 2 == 1) by (bit_vector);
    r
}

/// The controller command that must precede a reply byte to the device
/// of `irq`: the mouse sits on the second port.
pub fn reply_prefix(irq: Irq) -> (r: Option<u8>)
    ensures
        r == (match irq {
            Irq::Irq1 => None,
            Irq::Irq12 => Some(WRITE_SECOND_PORT),
        }),
{
    match irq {
        Irq::Irq1 => None,
        Irq::Irq12 => Some(WRITE_SECOND_PORT),
    }
}

} // verus!
