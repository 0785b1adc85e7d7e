//! Segment selectors of each core's global descriptor table.
use vstd::prelude::*;

verus! {

/// Entries a table holds, the null entry included.
pub const GDT_ENTRIES: u16 = 8;

/// Requested privilege level of user segments.
pub const USER_RPL: u16 = 3;

/// The selectors the kernel loads.
#[derive(Clone, Copy, Debug, PartialEq, Eq)]
pub struct Selectors {
    pub kernel_code: u16,
    pub kernel_data: u16,
    pub user_code: u16,
    pub user_data: u16,
    pub tss: u16,
}

/// A selector: the entry index times eight, plus the privilege level.
pub open spec fn selector(index: int, rpl: int) -> int {
    index * 8 + rpl
}

/// Entries handed out so far; entry 0 is the null descriptor. A system
/// segment (the TSS) takes two entries.
pub struct GdtLayout {
    next: u16,
}

impl GdtLayout {
    pub closed spec fn used(&self) -> int {
        self.next as int
    }

    /// A table with only the null descriptor.
    pub fn new() -> (r: Self)
        ensures
            r.used() == 1,
    {
        GdtLayout { next: 1 }
    }

    /// Adds a descriptor and returns its selector.
    pub fn add_entry(&mut self, user: bool, system: bool) -> (r: u16)
        requires
            old(self).used() + (if system { 2int } else { 1int }) <= GDT_ENTRIES,
            old(self).used() >= 1,
        ensures
            r == selector(old(self).used(), if user { USER_RPL as int } else { 0 }),
            final(self).used() == old(self).used() + (if system { 2int } else { 1int }),
    {
        let index = self.next;
        self.next = self.next + if system { 2 } else { 1 };
        index * 8 + if user { USER_RPL } else { 0 }
    }
}

/// The selectors of a table laid out in the order `syscall`/`sysret`
/// need: kernel code, kernel data, user data, user code, then the TSS.
pub fn build() -> (r: Selectors)
    ensures
        r == (Selectors { kernel_code: 8, kernel_data: 16, user_data: 27, user_code: 35, tss: 40 }),
{
    let mut gdt = GdtLayout::new();
    let kernel_code = gdt.add_entry(false, false);
    let kernel_data = gdt.add_entry(false, false);
    let user_data = gdt.add_entry(true, false);
    let user_code = gdt.add_entry(true, false);
    let tss = gdt.add_entry(false, true);
    Selectors { kernel_code, kernel_data, user_code, user_data, tss }
}

} // verus!
