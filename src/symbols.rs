//! Naming return addresses in a backtrace: each symbol of the kernel's
//! symbol table is moved from its link address to where the kernel was
//! loaded, and an address belongs to the first symbol whose range holds it.
use vstd::prelude::*;

verus! {

/// Link address at which the kernel is built when the image names none.
pub const DEFAULT_LINK_BASE: u64 = 0xffff_ffff_8000_0000;

/// A symbol-table entry: link address and size in bytes.
#[derive(Clone, Copy, Debug, PartialEq, Eq)]
pub struct SymbolEntry {
    pub value: u64,
    pub size: u64,
}

/// One frame of a backtrace: the return address and, when a symbol holds
/// it, that symbol's load address and index in the symbol table.
#[derive(Clone, Copy, Debug, PartialEq, Eq)]
pub struct StackFrame {
    pub address: u64,
    pub function: Option<(u64, usize)>,
}

/// Where symbol `s` starts once the kernel is loaded at `load_base`.
pub open spec fn loaded_start(s: SymbolEntry, load_base: u64, link_base: u64) -> int {
    s.value + load_base - link_base
}

/// `s`, once loaded, holds `addr` (a symbol that would start below
/// address 0 holds nothing).
pub open spec fn holds(s: SymbolEntry, load_base: u64, link_base: u64, addr: u64) -> bool {
    0 <= loaded_start(s, load_base, link_base) <= addr < loaded_start(s, load_base, link_base) + s.size
}

/// The first symbol that holds `addr`, as its load address and index.
pub fn find_symbol(symbols: &Vec<SymbolEntry>, load_base: u64, link_base: u64, addr: u64) -> (r: Option<(u64, usize)>)
    ensures
        r matches Some((start, i)) ==> i < symbols@.len() && holds(symbols@[i as int], load_base, link_base, addr)
            && start == loaded_start(symbols@[i as int], load_base, link_base)
            && forall|j: int| 0 <= j < i ==> !holds(#[trigger] symbols@[j], load_base, link_base, addr),
        r is None ==> forall|j: int| 0 <= j < symbols@.len() ==> !holds(#[trigger] symbols@[j], load_base, link_base, addr),
{
    let mut i: usize = 0;
    while i < symbols.len()
        invariant
            0 <= i <= symbols@.len(),
            forall|j: int| 0 <= j < i ==> !holds(#[trigger] symbols@[j], load_base, link_base, addr),
        decreases symbols@.len() - i,
    {
        let s = symbols[i];
        let start = s.value as i128 + load_base as i128 - link_base as i128;
        let end = start + s.size as i128;
        if 0 <= start && start <= addr as i128 && (addr as i128) < end {
            proof {
                assert(holds(symbols@[i as int], load_base, link_base, addr));
            }
            return Some((start as u64, i));
        }
        i = i + 1;
    }
    None
}

/// The frame for return address `address`.
pub fn frame_for(symbols: &Vec<SymbolEntry>, load_base: u64, link_base: u64, address: u64) -> (r: StackFrame)
    ensures
        r.address == address,
        r.function matches Some((start, i)) ==> i < symbols@.len() && holds(symbols@[i as int], load_base, link_base, address)
            && start == loaded_start(symbols@[i as int], load_base, link_base)
            && forall|j: int| 0 <= j < i ==> !holds(#[trigger] symbols@[j], load_base, link_base, address),
        r.function is None ==> forall|j: int| 0 <= j < symbols@.len() ==> !holds(#[trigger] symbols@[j], load_base, link_base, address),
{
    StackFrame { address, function: find_symbol(symbols, load_base, link_base, address) }
}

/// Frames a backtrace collects, at most.
pub const MAX_FRAMES: usize = 16;

/// Whether the walk records the frame at `frame_pointer` returning to
/// `return_address`, after `taken` frames: it stops at the frame limit, at
/// a null frame pointer, and at a null return address.
pub fn record_frame(taken: usize, frame_pointer: u64, return_address: u64) -> (r: bool)
    ensures
        r == (taken < MAX_FRAMES && frame_pointer != 0 && return_address != 0),
{
    taken < MAX_FRAMES && frame_pointer != 0 && return_address != 0
}

} // verus!
