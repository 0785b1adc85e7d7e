//! The verified core of a small x86_64 kernel: the slab heap, physical
//! frames and the kernel address space; interrupt routing and vector
//! ownership; the monotonic clock and timer calibration; application
//! processor start-up; scheduling decisions and panic isolation; PCI
//! enumeration, ACPI-derived configuration and network configuration; and
//! the registers of the HPET, PIT, RTC and PS/2 devices.

pub mod acpi;
pub mod calibration;
pub mod clock;
pub mod console;
pub mod executor;
pub mod frames;
pub mod gdt;
pub mod heap;
pub mod hpet;
pub mod interrupts;
pub mod local;
pub mod mouse;
pub mod net;
pub mod paging;
pub mod panic;
pub mod pci;
pub mod pit;
pub mod ps2;
pub mod rtc;
pub mod slab;
pub mod smp;
pub mod symbols;
pub mod syscall;
