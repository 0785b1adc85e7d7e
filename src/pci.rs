//! PCI configuration space: where each function's registers live in the
//! PCIe enhanced configuration mechanism (ECAM).
use vstd::prelude::*;

verus! {

/// One MCFG entry: the buses of a segment group and where their
/// configuration space starts.
#[derive(Clone, Copy, Debug, PartialEq, Eq)]
pub struct PciConfigRegion {
    pub segment_group: u16,
    pub bus_start: u8,
    pub bus_end: u8,
    pub base_address: u64,
}

/// Offset of function `(bus, device, function)` within its region.
pub open spec fn ecam_offset(bus_start: u8, bus: u8, device: u8, function: u8) -> int {
    (bus - bus_start) * 0x10_0000 + device * 0x8000 + function * 0x1000
}

/// `r` covers bus `bus` of segment `segment`.
pub open spec fn covers(r: PciConfigRegion, segment: u16, bus: u8) -> bool {
    r.segment_group == segment && r.bus_start <= bus <= r.bus_end
}

/// The configuration regions of every segment group.
pub struct ConfigRegionAccess {
    pub regions: Vec<PciConfigRegion>,
}

impl ConfigRegionAccess {
    /// Physical address of the configuration space of a function: in the
    /// first region that covers its segment and bus, at
    /// `base + (bus - bus_start) << 20 | device << 15 | function << 12`.
    /// `None` when no region covers it.
    pub fn physical_address(&self, segment: u16, bus: u8, device: u8, function: u8) -> (r: Option<u64>)
        requires
            device < 32,
            function < 8,
            forall|i: int| 0 <= i < self.regions@.len() ==> (#[trigger] self.regions@[i]).base_address <= u64::MAX - 0x1000_0000,
        ensures
            r matches Some(a) ==> exists|i: int| 0 <= i < self.regions@.len()
                && covers(#[trigger] self.regions@[i], segment, bus)
                && (forall|j: int| 0 <= j < i ==> !covers(#[trigger] self.regions@[j], segment, bus))
                && a == self.regions@[i].base_address + ecam_offset(self.regions@[i].bus_start, bus, device, function),
            r is None <==> forall|i: int| 0 <= i < self.regions@.len() ==> !covers(#[trigger] self.regions@[i], segment, bus),
    {
        let mut i: usize = 0;
        while i < self.regions.len()
            invariant
                0 <= i <= self.regions@.len(),
                forall|j: int| 0 <= j < i ==> !covers(#[trigger] self.regions@[j], segment, bus),
                forall|j: int| 0 <= j < self.regions@.len() ==> (#[trigger] self.regions@[j]).base_address <= u64::MAX - 0x1000_0000,
                device < 32,
                function < 8,
            decreases self.regions@.len() - i,
        {
            let r = self.regions[i];
            if r.segment_group == segment && r.bus_start <= bus && bus <= r.bus_end {
                let off = (bus - r.bus_start) as u64 * 0x10_0000 + device as u64 * 0x8000 + function as u64 * 0x1000;
                proof {
                    assert(covers(self.regions@[i as int], segment, bus));
                    assert(self.regions@[i as int].base_address <= u64::MAX - 0x1000_0000);
                }
                return Some(r.base_address + off);
            }
            i = i + 1;
        }
        None
    }
}

/// Bit 4 of the status register: the function has a capability list.
pub const STATUS_CAPABILITIES_LIST: u16 = 0x10;

/// Where the capability list starts: the pointer at offset 0x34 with its
/// two low bits cleared, when the status register says there is a list.
pub fn capabilities_offset(status: u16, pointer_register: u32) -> (r: Option<u8>)
    ensures
        (status / 16) % 2 == 1 ==> r == Some(((pointer_register % 256) / 4 * 4) as u8),
        (status / 16) % 2 == 0 ==> r is None,
{
    if (status / 16) % 2 == 1 {
        Some(((pointer_register % 256) / 4 * 4) as u8)
    } else {
        None
    }
}

/// A function's place: segment group, bus, device and function.
#[derive(Clone, Copy, Debug, PartialEq, Eq)]
pub struct PciAddress {
    pub segment: u16,
    pub bus: u8,
    pub device: u8,
    pub function: u8,
}

/// The kind of configuration header a function has.
#[derive(Clone, Copy, Debug, PartialEq, Eq)]
pub enum HeaderKind {
    Endpoint,
    PciPciBridge,
    Other,
}

/// A base address register, decoded.
#[derive(Clone, Copy, Debug, PartialEq, Eq)]
pub enum Bar {
    Memory32 { address: u32, size: u32, prefetchable: bool },
    Memory64 { address: u64, size: u64, prefetchable: bool },
    Io { port: u32 },
}

/// The header fields that enumeration reads, implemented by the kernel
/// over its configuration-space access. Each method returns what its spec
/// function names for the function at `address`.
pub trait PciProbe {
    spec fn spec_id(&self, address: PciAddress) -> (u16, u16);

    spec fn spec_multiple_functions(&self, address: PciAddress) -> bool;

    spec fn spec_header_kind(&self, address: PciAddress) -> HeaderKind;

    spec fn spec_bridge_buses(&self, address: PciAddress) -> (u8, u8);

    spec fn spec_bar(&self, address: PciAddress, slot: u8) -> Option<Bar>;

    spec fn spec_capability(&self, address: PciAddress, offset: u8) -> (u8, u8);

    spec fn spec_read(&self, address: PciAddress, offset: u16) -> u32;

    /// The configuration dword at `offset`.
    fn read(&self, address: PciAddress, offset: u16) -> (r: u32)
        ensures
            r == self.spec_read(address, offset),
    ;

    /// Vendor and device id; `0xffff` means no function answers.
    fn id(&self, address: PciAddress) -> (r: (u16, u16))
        ensures
            r == self.spec_id(address),
    ;

    /// Whether the device implements functions 1 to 7.
    fn has_multiple_functions(&self, address: PciAddress) -> (r: bool)
        ensures
            r == self.spec_multiple_functions(address),
    ;

    fn header_kind(&self, address: PciAddress) -> (r: HeaderKind)
        ensures
            r == self.spec_header_kind(address),
    ;

    /// A bridge's secondary and subordinate bus numbers.
    fn bridge_buses(&self, address: PciAddress) -> (r: (u8, u8))
        ensures
            r == self.spec_bridge_buses(address),
    ;

    /// Base address register `slot` of an endpoint, read as a 32-bit
    /// register, or as the lower half of a 64-bit one.
    fn bar(&self, address: PciAddress, slot: u8) -> (r: Option<Bar>)
        requires
            slot < 6,
        ensures
            r == self.spec_bar(address, slot),
    ;

    /// The capability at configuration offset `offset`: its id and the
    /// offset of the next one (0 ends the list).
    fn capability(&self, address: PciAddress, offset: u8) -> (r: (u8, u8))
        ensures
            r == self.spec_capability(address, offset),
    ;
}

/// Capabilities in a list: at most one per dword of the device-specific
/// part of the header.
pub const MAX_CAPABILITIES: u8 = 48;

/// The capability list from `offset` on, as (offset, id) pairs, following
/// at most `fuel` links.
pub open spec fn capability_chain<P: PciProbe>(probe: &P, a: PciAddress, offset: u8, fuel: nat) -> Seq<(u8, u8)>
    decreases fuel,
{
    if fuel == 0 || offset == 0 {
        Seq::empty()
    } else {
        seq![(offset, probe.spec_capability(a, offset).0)]
            + capability_chain(probe, a, probe.spec_capability(a, offset).1, (fuel - 1) as nat)
    }
}

/// Walks the capability list that starts at `first` (from
/// `capabilities_offset`), at most `MAX_CAPABILITIES` entries, so a looping
/// list ends.
pub fn capabilities<P: PciProbe>(probe: &P, a: PciAddress, first: u8) -> (r: Vec<(u8, u8)>)
    ensures
        r@ == capability_chain(probe, a, first, MAX_CAPABILITIES as nat),
{
    let mut r: Vec<(u8, u8)> = Vec::new();
    let mut offset = first;
    let mut n: u8 = 0;
    while n < MAX_CAPABILITIES && offset != 0
        invariant
            n <= MAX_CAPABILITIES,
            r@ + capability_chain(probe, a, offset, (MAX_CAPABILITIES - n) as nat)
                == capability_chain(probe, a, first, MAX_CAPABILITIES as nat),
        decreases MAX_CAPABILITIES - n,
    {
        let (id, next) = probe.capability(a, offset);
        let ghost r0 = r@;
        proof {
            let fuel = (MAX_CAPABILITIES - n) as nat;
            assert(capability_chain(probe, a, offset, fuel) == seq![(offset, id)]
                + capability_chain(probe, a, next, (fuel - 1) as nat));
        }
        r.push((offset, id));
        proof {
            assert(r@ == r0 + seq![(offset, id)]);
            assert(r0 + (seq![(offset, id)] + capability_chain(probe, a, next, (MAX_CAPABILITIES - n - 1) as nat))
                =~= r@ + capability_chain(probe, a, next, (MAX_CAPABILITIES - n - 1) as nat));
        }
        offset = next;
        n = n + 1;
    }
    proof {
        assert(capability_chain(probe, a, offset, (MAX_CAPABILITIES - n) as nat) =~= Seq::<(u8, u8)>::empty());
        assert(r@ + Seq::<(u8, u8)>::empty() =~= r@);
    }
    r
}

/// An endpoint that enumeration may return: covered by a region, with
/// valid ids and an endpoint header.
pub open spec fn endpoint_ok<P: PciProbe>(access: &ConfigRegionAccess, probe: &P, a: PciAddress) -> bool {
    &&& present(access, a)
    &&& probe.spec_id(a).0 != 0xffff
    &&& probe.spec_id(a).1 != 0xffff
    &&& probe.spec_header_kind(a) == HeaderKind::Endpoint
}

/// What `read_bars` returns in slot `i`: nothing after a 64-bit BAR, whose
/// upper half that slot holds; else the BAR read there.
pub open spec fn bar_slot<P: PciProbe>(probe: &P, a: PciAddress, bars: Seq<Option<Bar>>, i: int) -> Option<Bar> {
    if i > 0 && bars[i - 1] matches Some(Bar::Memory64 { .. }) {
        None
    } else if i == 5 && probe.spec_bar(a, 5) matches Some(Bar::Memory64 { .. }) {
        None
    } else {
        probe.spec_bar(a, i as u8)
    }
}

/// The six BARs of an endpoint; a 64-bit BAR takes two slots, so the slot
/// after it is left empty, and one claimed by the last slot, whose upper
/// half would lie past the BARs, is dropped.
pub fn read_bars<P: PciProbe>(probe: &P, a: PciAddress) -> (r: Vec<Option<Bar>>)
    ensures
        r@.len() == 6,
        forall|i: int| 0 <= i < 6 ==> #[trigger] r@[i] == bar_slot(probe, a, r@, i),
        forall|i: int| 0 <= i < 6 && (#[trigger] r@[i] matches Some(Bar::Memory64 { .. })) ==> i < 5 && r@[i + 1] is None,
{
    let mut r: Vec<Option<Bar>> = Vec::new();
    let mut skip = false;
    let mut i: u8 = 0;
    while i < 6
        invariant
            0 <= i <= 6,
            r@.len() == i,
            skip == (i > 0 && r@[i - 1] matches Some(Bar::Memory64 { .. })),
            forall|j: int| 0 <= j < i ==> #[trigger] r@[j] == bar_slot(probe, a, r@, j),
        decreases 6 - i,
    {
        let ghost r0 = r@;
        if skip {
            r.push(None);
            skip = false;
        } else {
            let b = probe.bar(a, i);
            let wide = match b {
                Some(Bar::Memory64 { .. }) => true,
                _ => false,
            };
            if wide && i == 5 {
                r.push(None);
            } else {
                skip = wide;
                r.push(b);
            }
        }
        proof {
            assert forall|j: int| 0 <= j < i + 1 implies #[trigger] r@[j] == bar_slot(probe, a, r@, j) by {
                if j < i {
                    assert(r@[j] == r0[j]);
                    if j > 0 {
                        assert(r@[j - 1] == r0[j - 1]);
                    }
                    assert(bar_slot(probe, a, r@, j) == bar_slot(probe, a, r0, j));
                }
            }
        }
        i = i + 1;
    }
    r
}

/// Byte `i` (least significant first) of a configuration dword.
pub open spec fn byte_of(d: u32, i: int) -> u8 {
    ((d as int / (if i == 0 { 1int } else if i == 1 { 0x100int } else if i == 2 { 0x1_0000int } else { 0x100_0000int })) % 256) as u8
}

fn byte_at(d: u32, i: u8) -> (r: u8)
    requires
        i < 4,
    ensures
        r == byte_of(d, i as int),
{
    let div: u32 = match i {
        0 => 1,
        1 => 0x100,
        2 => 0x1_0000,
        _ => 0x100_0000,
    };
    ((d / div) % 256) as u8
}

/// What enumeration records of an endpoint.
#[derive(Clone, Debug, PartialEq, Eq)]
pub struct PciDevice {
    pub address: PciAddress,
    pub configuration_address: u64,
    pub vendor_id: u16,
    pub device_id: u16,
    pub revision: u8,
    pub interface: u8,
    pub sub_class: u8,
    pub class: u8,
    pub sub_vendor_id: u16,
    pub sub_device_id: u16,
    pub interrupt_line: u8,
    pub interrupt_pin: u8,
    pub bars: Vec<Option<Bar>>,
    pub capabilities: Vec<(u8, u8)>,
}

/// Configuration-header offsets that the record reads.
pub const CLASS_REGISTER: u16 = 0x08;
pub const STATUS_REGISTER: u16 = 0x04;
pub const SUBSYSTEM_REGISTER: u16 = 0x2C;
pub const CAPABILITIES_POINTER: u16 = 0x34;
pub const INTERRUPT_REGISTER: u16 = 0x3C;

/// The record of endpoint `a`: its configuration address, ids, class
/// bytes (revision, interface, sub-class, class from low to high), the
/// subsystem ids, the interrupt line and pin, its BARs and its capability
/// list.
pub fn describe<P: PciProbe>(access: &ConfigRegionAccess, probe: &P, a: PciAddress) -> (r: PciDevice)
    requires
        a.device < 32,
        a.function < 8,
        forall|i: int| 0 <= i < access.regions@.len() ==> (#[trigger] access.regions@[i]).base_address <= u64::MAX - 0x1000_0000,
    ensures
        r.address == a,
        present(access, a) ==> exists|i: int| 0 <= i < access.regions@.len()
            && covers(#[trigger] access.regions@[i], a.segment, a.bus)
            && (forall|j: int| 0 <= j < i ==> !covers(#[trigger] access.regions@[j], a.segment, a.bus))
            && r.configuration_address == access.regions@[i].base_address + ecam_offset(access.regions@[i].bus_start, a.bus, a.device, a.function),
        !present(access, a) ==> r.configuration_address == 0,
        (r.vendor_id, r.device_id) == probe.spec_id(a),
        r.revision == byte_of(probe.spec_read(a, CLASS_REGISTER), 0),
        r.interface == byte_of(probe.spec_read(a, CLASS_REGISTER), 1),
        r.sub_class == byte_of(probe.spec_read(a, CLASS_REGISTER), 2),
        r.class == byte_of(probe.spec_read(a, CLASS_REGISTER), 3),
        r.sub_vendor_id == probe.spec_read(a, SUBSYSTEM_REGISTER) % 0x1_0000,
        r.sub_device_id == probe.spec_read(a, SUBSYSTEM_REGISTER) / 0x1_0000,
        r.interrupt_line == byte_of(probe.spec_read(a, INTERRUPT_REGISTER), 0),
        r.interrupt_pin == byte_of(probe.spec_read(a, INTERRUPT_REGISTER), 1),
        r.bars@.len() == 6,
        forall|i: int| 0 <= i < 6 ==> #[trigger] r.bars@[i] == bar_slot(probe, a, r.bars@, i),
        forall|i: int| 0 <= i < 6 && (#[trigger] r.bars@[i] matches Some(Bar::Memory64 { .. })) ==> i < 5 && r.bars@[i + 1] is None,
        ((probe.spec_read(a, STATUS_REGISTER) / 0x1_0000) as u16 / 16) % 2 == 1 ==> r.capabilities@ == capability_chain(
            probe, a, ((probe.spec_read(a, CAPABILITIES_POINTER) % 256) / 4 * 4) as u8, MAX_CAPABILITIES as nat),
        ((probe.spec_read(a, STATUS_REGISTER) / 0x1_0000) as u16 / 16) % 2 == 0 ==> r.capabilities@.len() == 0,
{
    let configuration_address = match access.physical_address(a.segment, a.bus, a.device, a.function) {
        Some(p) => p,
        None => 0,
    };
    let (vendor_id, device_id) = probe.id(a);
    let class_reg = probe.read(a, CLASS_REGISTER);
    let sub = probe.read(a, SUBSYSTEM_REGISTER);
    let irq = probe.read(a, INTERRUPT_REGISTER);
    let status = (probe.read(a, STATUS_REGISTER) / 0x1_0000) as u16;
    let pointer = probe.read(a, CAPABILITIES_POINTER);
    let capabilities = match capabilities_offset(status, pointer) {
        Some(first) => capabilities(probe, a, first),
        None => Vec::new(),
    };
    PciDevice {
        address: a,
        configuration_address,
        vendor_id,
        device_id,
        revision: byte_at(class_reg, 0),
        interface: byte_at(class_reg, 1),
        sub_class: byte_at(class_reg, 2),
        class: byte_at(class_reg, 3),
        sub_vendor_id: (sub % 0x1_0000) as u16,
        sub_device_id: (sub / 0x1_0000) as u16,
        interrupt_line: byte_at(irq, 0),
        interrupt_pin: byte_at(irq, 1),
        bars: read_bars(probe, a),
        capabilities,
    }
}

/// Number of `true` entries in `s`.
pub open spec fn count_true(s: Seq<bool>) -> nat
    decreases s.len(),
{
    if s.len() == 0 {
        0
    } else {
        count_true(s.drop_last()) + if s.last() { 1nat } else { 0nat }
    }
}

proof fn lemma_count_bound(s: Seq<bool>)
    ensures
        count_true(s) <= s.len(),
    decreases s.len(),
{
    if s.len() > 0 {
        lemma_count_bound(s.drop_last());
    }
}

proof fn lemma_count_set(s: Seq<bool>, i: int)
    requires
        0 <= i < s.len(),
        !s[i],
    ensures
        count_true(s.update(i, true)) == count_true(s) + 1,
    decreases s.len(),
{
    let t = s.update(i, true);
    if i == s.len() - 1 {
        assert(t.drop_last() =~= s.drop_last());
    } else {
        assert(t.drop_last() =~= s.drop_last().update(i, true));
        lemma_count_set(s.drop_last(), i);
    }
}

/// An address that the regions cover, for a device and function in range.
pub open spec fn present(access: &ConfigRegionAccess, a: PciAddress) -> bool {
    &&& a.device < 32
    &&& a.function < 8
    &&& exists|i: int| 0 <= i < access.regions@.len() && covers(#[trigger] access.regions@[i], a.segment, a.bus)
}

/// Function `a` is looked at: its device's function 0 is covered by a
/// region, `a` is function 0 or that device has several functions, and
/// `a` itself is covered.
pub open spec fn fn_scanned<P: PciProbe>(access: &ConfigRegionAccess, probe: &P, a: PciAddress) -> bool {
    let a0 = PciAddress { segment: a.segment, bus: a.bus, device: a.device, function: 0 };
    &&& a.device < 32
    &&& a.function < 8
    &&& present(access, a0)
    &&& (a.function == 0 || probe.spec_multiple_functions(a0))
    &&& present(access, a)
}

/// Neither id of `a` is `0xffff`.
pub open spec fn ids_valid<P: PciProbe>(probe: &P, a: PciAddress) -> bool {
    probe.spec_id(a).0 != 0xffff && probe.spec_id(a).1 != 0xffff
}

/// `a` is looked at and is an endpoint.
pub open spec fn good_endpoint<P: PciProbe>(access: &ConfigRegionAccess, probe: &P, a: PciAddress) -> bool {
    fn_scanned(access, probe, a) && ids_valid(probe, a) && probe.spec_header_kind(a) == HeaderKind::Endpoint
}

/// `a` is looked at and is a PCI-PCI bridge.
pub open spec fn bridge_at<P: PciProbe>(access: &ConfigRegionAccess, probe: &P, a: PciAddress) -> bool {
    fn_scanned(access, probe, a) && ids_valid(probe, a) && probe.spec_header_kind(a) == HeaderKind::PciPciBridge
}

/// Bus `nb` lies behind bridge `a`.
pub open spec fn behind<P: PciProbe>(probe: &P, a: PciAddress, nb: u8) -> bool {
    probe.spec_bridge_buses(a).0 <= nb <= probe.spec_bridge_buses(a).1
}

/// The buses a segment's scan starts from: 0 to 7 when the host bridge is
/// covered and has several functions, else bus 0.
pub open spec fn initial_bus<P: PciProbe>(access: &ConfigRegionAccess, probe: &P, segment: u16, b: u8) -> bool {
    let host = PciAddress { segment, bus: 0, device: 0, function: 0 };
    if present(access, host) && probe.spec_multiple_functions(host) { b < 8 } else { b == 0 }
}

/// `s` holds the initial buses and every bus behind a bridge on a bus of `s`.
pub open spec fn closed<P: PciProbe>(access: &ConfigRegionAccess, probe: &P, segment: u16, s: Set<u8>) -> bool {
    &&& forall|b: u8| #[trigger] initial_bus(access, probe, segment, b) ==> s.contains(b)
    &&& forall|a: PciAddress, nb: u8| #![trigger behind(probe, a, nb)]
        a.segment == segment && s.contains(a.bus) && bridge_at(access, probe, a) && behind(probe, a, nb) ==> s.contains(nb)
}

/// Bus `b` is reached from the initial buses through bridges: it lies in
/// every closed set of buses.
pub open spec fn reachable<P: PciProbe>(access: &ConfigRegionAccess, probe: &P, segment: u16, b: u8) -> bool {
    forall|s: Set<u8>| closed(access, probe, segment, s) ==> #[trigger] s.contains(b)
}

/// `a` is an endpoint that enumeration finds.
pub open spec fn enumerated<P: PciProbe>(access: &ConfigRegionAccess, probe: &P, a: PciAddress) -> bool {
    reachable(access, probe, a.segment, a.bus) && good_endpoint(access, probe, a)
}

proof fn lemma_push_contains<T>(s: Seq<T>, x: T, y: T)
    ensures
        s.push(x).contains(y) <==> (s.contains(y) || y == x),
{
    if s.contains(y) {
        let j = choose|j: int| 0 <= j < s.len() && s[j] == y;
        assert(s.push(x)[j] == y);
    }
    if y == x {
        assert(s.push(x)[s.len() as int] == x);
    }
    if s.push(x).contains(y) {
        let j = choose|j: int| 0 <= j < s.push(x).len() && s.push(x)[j] == y;
        if j < s.len() {
            assert(s[j] == y);
        }
    }
}

/// Walks the topology: in each segment group, bus 0 (buses 0 to 7 when
/// the host bridge has several functions), then every bus behind each
/// PCI-PCI bridge found, each bus once. Returns exactly the endpoints on
/// the buses so reached, each once.
#[verifier::spinoff_prover]
pub fn enumerate<P: PciProbe>(access: &ConfigRegionAccess, probe: &P) -> (r: Vec<PciAddress>)
    requires
        forall|i: int| 0 <= i < access.regions@.len() ==> (#[trigger] access.regions@[i]).base_address <= u64::MAX - 0x1000_0000,
    ensures
        forall|a: PciAddress| r@.contains(a) <==> enumerated(access, probe, a),
        r@.no_duplicates(),
{
    let mut found: Vec<PciAddress> = Vec::new();
    let mut s: usize = 0;
    while s < access.regions.len()
        invariant
            0 <= s <= access.regions@.len(),
            forall|i: int| 0 <= i < access.regions@.len() ==> (#[trigger] access.regions@[i]).base_address <= u64::MAX - 0x1000_0000,
            found@.no_duplicates(),
            forall|a: PciAddress| found@.contains(a) <==> enumerated(access, probe, a)
                && exists|t: int| 0 <= t < s && #[trigger] access.regions@[t].segment_group == a.segment,
        decreases access.regions@.len() - s,
    {
        let segment = access.regions[s].segment_group;
        let mut earlier = false;
        let mut t: usize = 0;
        while t < s
            invariant
                0 <= t <= s < access.regions@.len(),
                earlier == exists|u: int| 0 <= u < t && (#[trigger] access.regions@[u]).segment_group == segment,
            decreases s - t,
        {
            if access.regions[t].segment_group == segment {
                earlier = true;
            }
            t = t + 1;
        }
        let ghost before = found@;
        if !earlier {
            proof {
                assert forall|k: int| 0 <= k < found@.len() implies (#[trigger] found@[k]).segment != segment by {
                    assert(found@.contains(found@[k]));
                }
            }
            scan_segment(access, probe, segment, &mut found);
        }
        proof {
            assert forall|a: PciAddress| found@.contains(a) <==> enumerated(access, probe, a)
                && exists|t: int| 0 <= t < s + 1 && #[trigger] access.regions@[t].segment_group == a.segment by {
                if a.segment == segment {
                    assert(access.regions@[s as int].segment_group == a.segment);
                    if earlier {
                        let u = choose|u: int| 0 <= u < s && (#[trigger] access.regions@[u]).segment_group == segment;
                        assert(access.regions@[u].segment_group == a.segment);
                    }
                }
            }
        }
        s = s + 1;
    }
    proof {
        assert forall|a: PciAddress| enumerated(access, probe, a) implies found@.contains(a) by {
            let i = choose|i: int| 0 <= i < access.regions@.len() && covers(#[trigger] access.regions@[i], a.segment, a.bus);
            assert(access.regions@[i].segment_group == a.segment);
        }
    }
    found
}

fn exists_at(access: &ConfigRegionAccess, a: PciAddress) -> (r: bool)
    requires
        a.device < 32,
        a.function < 8,
        forall|i: int| 0 <= i < access.regions@.len() ==> (#[trigger] access.regions@[i]).base_address <= u64::MAX - 0x1000_0000,
    ensures
        r == present(access, a),
{
    access.physical_address(a.segment, a.bus, a.device, a.function).is_some()
}

/// `a` comes before position `(device, function)` of bus `bus` in the scan.
pub open spec fn before(a: PciAddress, bus: u8, device: int, function: int) -> bool {
    a.bus != bus || a.device < device || (a.device == device && a.function < function)
}

/// The addresses of `found` in `segment` lie on buses of `done`, and on
/// `bus` only before `(device, function)`.
pub open spec fn placed(found: Seq<PciAddress>, segment: u16, done: Set<u8>, bus: u8, device: u8, function: u8) -> bool {
    forall|k: int| 0 <= k < found.len() ==> {
        let a = #[trigger] found[k];
        a.segment != segment || (done.contains(a.bus) && (a.bus != bus || a.device < device
            || (a.device == device && a.function < function)))
    }
}

/// The addresses of `found` in `segment` lie on buses of `done`.
pub open spec fn on_buses(found: Seq<PciAddress>, segment: u16, done: Set<u8>) -> bool {
    forall|k: int| 0 <= k < found.len() ==> (#[trigger] found[k]).segment != segment || done.contains(found[k].bus)
}
#[verifier::spinoff_prover]
fn scan_segment<P: PciProbe>(access: &ConfigRegionAccess, probe: &P, segment: u16, found: &mut Vec<PciAddress>)
    requires
        forall|i: int| 0 <= i < access.regions@.len() ==> (#[trigger] access.regions@[i]).base_address <= u64::MAX - 0x1000_0000,
        forall|k: int| 0 <= k < old(found)@.len() ==> (#[trigger] old(found)@[k]).segment != segment,
        old(found)@.no_duplicates(),
    ensures
        final(found)@.no_duplicates(),
        forall|a: PciAddress| final(found)@.contains(a) <==> old(found)@.contains(a)
            || (a.segment == segment && enumerated(access, probe, a)),
{
    let ghost f0 = found@;
    let mut queued: Vec<bool> = Vec::new();
    let mut n: usize = 0;
    while n < 256
        invariant
            0 <= n <= 256,
            queued@.len() == n,
            forall|j: int| 0 <= j < n ==> !queued@[j],
        decreases 256 - n,
    {
        queued.push(false);
        n = n + 1;
    }
    proof {
        lemma_count_zero(queued@);
    }
    let mut work: Vec<u8> = Vec::new();
    let ghost mut done: Set<u8> = Set::empty();
    let host = PciAddress { segment, bus: 0, device: 0, function: 0 };
    let first: u8 = if exists_at(access, host) && probe.has_multiple_functions(host) { 8 } else { 1 };
    proof {
        assert forall|b: u8| initial_bus(access, probe, segment, b) <==> b < first by {}
    }
    let mut b: u8 = 0;
    while b < first
        invariant
            first <= 8,
            0 <= b <= first,
            queued@.len() == 256,
            work@.len() == b,
            count_true(queued@) == b,
            forall|j: int| 0 <= j < b ==> queued@[j],
            forall|j: int| b <= j < 256 ==> !queued@[j],
            forall|j: int| 0 <= j < b ==> work@[j] == j,
        decreases first - b,
    {
        proof {
            lemma_count_set(queued@, b as int);
        }
        queued.set(b as usize, true);
        work.push(b);
        b = b + 1;
    }
    proof {
        assert(work@.no_duplicates());
        assert forall|x: u8| #[trigger] work@.contains(x) implies queued@[x as int] && reachable(access, probe, segment, x) by {
            let j = choose|j: int| 0 <= j < work@.len() && work@[j] == x;
            assert(initial_bus(access, probe, segment, x));
        }
        assert forall|x: u8| #[trigger] initial_bus(access, probe, segment, x) implies work@.contains(x) || done.contains(x) by {
            assert(work@[x as int] == x);
        }
        assert forall|a: PciAddress| found@.contains(a) <==> f0.contains(a)
            || (a.segment == segment && good_endpoint(access, probe, a) && done.contains(a.bus)) by {}
        assert forall|x: u8| #[trigger] work@.contains(x) implies !done.contains(x) && queued@[x as int] by {
            let j = choose|j: int| 0 <= j < work@.len() && work@[j] == x;
        }
        assert forall|x: u8| #![trigger queued@[x as int]] 0 <= x && queued@[x as int] implies work@.contains(x) || done.contains(x) by {
            assert(work@[x as int] == x);
        }
    }
    while work.len() > 0
        invariant
            queued@.len() == 256,
            count_true(queued@) <= 256,
            forall|i: int| 0 <= i < access.regions@.len() ==> (#[trigger] access.regions@[i]).base_address <= u64::MAX - 0x1000_0000,
            found@.no_duplicates(),
            on_buses(found@, segment, done),
            work@.no_duplicates(),
            forall|x: u8| #[trigger] work@.contains(x) ==> !done.contains(x),
            forall|x: u8| #[trigger] work@.contains(x) ==> queued@[x as int],
            forall|x: u8| #![trigger queued@[x as int]] 0 <= x && queued@[x as int] ==> work@.contains(x) || done.contains(x),
            forall|x: u8| #[trigger] done.contains(x) ==> queued@[x as int],
            forall|x: u8| #[trigger] work@.contains(x) ==> reachable(access, probe, segment, x),
            forall|x: u8| #[trigger] done.contains(x) ==> reachable(access, probe, segment, x),
            forall|x: u8| #[trigger] initial_bus(access, probe, segment, x) ==> work@.contains(x) || done.contains(x),
            forall|a: PciAddress, nb: u8| #![trigger behind(probe, a, nb)]
                a.segment == segment && done.contains(a.bus) && bridge_at(access, probe, a) && behind(probe, a, nb)
                ==> work@.contains(nb) || done.contains(nb),
            forall|a: PciAddress| #![trigger found@.contains(a)] found@.contains(a) <==> f0.contains(a)
                || (a.segment == segment && good_endpoint(access, probe, a) && done.contains(a.bus)),
            forall|k: int| 0 <= k < f0.len() ==> (#[trigger] f0[k]).segment != segment,
        decreases 2 * (256 - count_true(queued@)) + work@.len(),
    {
        let ghost w0 = work@;
        let bus = work.pop().unwrap();
        let ghost d0 = done;
        proof {
            assert(w0.contains(bus)) by {
                assert(w0[w0.len() - 1] == bus);
            }
            assert forall|x: u8| work@.contains(x) implies w0.contains(x) && x != bus by {
                let j = choose|j: int| 0 <= j < work@.len() && work@[j] == x;
                assert(w0[j] == x);
                assert(w0[w0.len() - 1] == bus);
                assert(w0.no_duplicates());
            }
            assert forall|x: u8| #[trigger] w0.contains(x) implies work@.contains(x) || x == bus by {
                let j = choose|j: int| 0 <= j < w0.len() && w0[j] == x;
                if j < w0.len() - 1 {
                    assert(work@[j] == x);
                }
            }
            done = done.insert(bus);
            assert forall|x: u8| #[trigger] work@.contains(x) implies !done.contains(x) && queued@[x as int]
                && reachable(access, probe, segment, x) by {
                assert(w0.contains(x) && x != bus);
                assert(!d0.contains(x));
            }
            assert forall|x: u8| #[trigger] done.contains(x) implies queued@[x as int] && reachable(access, probe, segment, x) by {
                if x != bus {
                    assert(d0.contains(x));
                }
            }
            assert forall|x: u8| #![trigger queued@[x as int]] 0 <= x && queued@[x as int] implies work@.contains(x) || done.contains(x) by {
                if !d0.contains(x) && x != bus {
                    assert(w0.contains(x));
                }
            }
            assert forall|x: u8| #[trigger] initial_bus(access, probe, segment, x) implies work@.contains(x) || done.contains(x) by {
                if !d0.contains(x) && x != bus {
                    assert(w0.contains(x));
                }
            }
            assert forall|a: PciAddress| #![trigger found@.contains(a)] found@.contains(a) <==> f0.contains(a)
                || (a.segment == segment && good_endpoint(access, probe, a) && done.contains(a.bus) && before(a, bus, 0, 0)) by {
                assert(found@.contains(a) <==> f0.contains(a)
                    || (a.segment == segment && good_endpoint(access, probe, a) && d0.contains(a.bus)));
                if a.bus == bus {
                    assert(!d0.contains(bus));
                }
            }
            assert forall|a: PciAddress, nb: u8| #![trigger behind(probe, a, nb)]
                a.segment == segment && done.contains(a.bus) && bridge_at(access, probe, a) && before(a, bus, 0, 0)
                && behind(probe, a, nb) implies work@.contains(nb) || done.contains(nb) by {
                assert(d0.contains(a.bus));
                assert(w0.contains(nb) || d0.contains(nb));
                if w0.contains(nb) && nb != bus {
                    assert(work@.contains(nb));
                }
            }
            assert(placed(found@, segment, done, bus, 0, 0)) by {
                assert forall|k: int| 0 <= k < found@.len() implies {
                    let a = #[trigger] found@[k];
                    a.segment != segment || (done.contains(a.bus) && (a.bus != bus || a.device < 0u8
                        || (a.device == 0u8 && a.function < 0u8)))
                } by {
                    if found@[k].segment == segment {
                        assert(d0.contains(found@[k].bus));
                    }
                }
            }
        }
        let ghost old_q = queued@;
        let ghost old_w = work@.len();
        let mut device: u8 = 0;
        while device < 32
            invariant
                0 <= device <= 32,
                queued@.len() == 256,
                count_true(queued@) <= 256,
                2 * (256 - count_true(queued@)) + work@.len() <= 2 * (256 - count_true(old_q)) + old_w,
                forall|i: int| 0 <= i < access.regions@.len() ==> (#[trigger] access.regions@[i]).base_address <= u64::MAX - 0x1000_0000,
                found@.no_duplicates(),
                done.contains(bus),
                placed(found@, segment, done, bus, device, 0),
                work@.no_duplicates(),
                forall|x: u8| #[trigger] work@.contains(x) ==> !done.contains(x),
                forall|x: u8| #[trigger] work@.contains(x) ==> queued@[x as int],
                forall|x: u8| #![trigger queued@[x as int]] 0 <= x && queued@[x as int] ==> work@.contains(x) || done.contains(x),
                forall|x: u8| #[trigger] done.contains(x) ==> queued@[x as int],
                forall|x: u8| #[trigger] work@.contains(x) ==> reachable(access, probe, segment, x),
                forall|x: u8| #[trigger] done.contains(x) ==> reachable(access, probe, segment, x),
                forall|x: u8| #[trigger] initial_bus(access, probe, segment, x) ==> work@.contains(x) || done.contains(x),
                forall|a: PciAddress, nb: u8| #![trigger behind(probe, a, nb)]
                    a.segment == segment && done.contains(a.bus) && bridge_at(access, probe, a) && before(a, bus, device as int, 0)
                    && behind(probe, a, nb) ==> work@.contains(nb) || done.contains(nb),
                forall|a: PciAddress| #![trigger found@.contains(a)] found@.contains(a) <==> f0.contains(a)
                    || (a.segment == segment && good_endpoint(access, probe, a) && done.contains(a.bus) && before(a, bus, device as int, 0)),
                forall|k: int| 0 <= k < f0.len() ==> (#[trigger] f0[k]).segment != segment,
            decreases 32 - device,
        {
            let a0 = PciAddress { segment, bus, device, function: 0 };
            let mut last: u8 = 0;
            if exists_at(access, a0) {
                last = if probe.has_multiple_functions(a0) { 8 } else { 1 };
            }
            proof {
                assert forall|f: u8| last <= f implies !#[trigger] fn_scanned(access, probe, PciAddress { segment, bus, device, function: f }) by {}
            }
            let mut function: u8 = 0;
            while function < last
                invariant
                    last <= 8,
                    0 <= function <= last,
                    device < 32,
                    a0 == (PciAddress { segment, bus, device, function: 0 }),
                    forall|f: u8| last <= f ==> !#[trigger] fn_scanned(access, probe, PciAddress { segment, bus, device, function: f }),
                    last > 0 ==> present(access, a0),
                    last > 1 ==> probe.spec_multiple_functions(a0),
                    queued@.len() == 256,
                    count_true(queued@) <= 256,
                    2 * (256 - count_true(queued@)) + work@.len() <= 2 * (256 - count_true(old_q)) + old_w,
                    forall|i: int| 0 <= i < access.regions@.len() ==> (#[trigger] access.regions@[i]).base_address <= u64::MAX - 0x1000_0000,
                    found@.no_duplicates(),
                    done.contains(bus),
                    placed(found@, segment, done, bus, device, function),
                    work@.no_duplicates(),
                    forall|x: u8| #[trigger] work@.contains(x) ==> !done.contains(x),
                    forall|x: u8| #[trigger] work@.contains(x) ==> queued@[x as int],
                    forall|x: u8| #![trigger queued@[x as int]] 0 <= x && queued@[x as int] ==> work@.contains(x) || done.contains(x),
                    forall|x: u8| #[trigger] done.contains(x) ==> queued@[x as int],
                    forall|x: u8| #[trigger] work@.contains(x) ==> reachable(access, probe, segment, x),
                    forall|x: u8| #[trigger] done.contains(x) ==> reachable(access, probe, segment, x),
                    forall|x: u8| #[trigger] initial_bus(access, probe, segment, x) ==> work@.contains(x) || done.contains(x),
                    forall|a: PciAddress, nb: u8| #![trigger behind(probe, a, nb)]
                        a.segment == segment && done.contains(a.bus) && bridge_at(access, probe, a)
                        && before(a, bus, device as int, function as int) && behind(probe, a, nb) ==> work@.contains(nb) || done.contains(nb),
                    forall|a: PciAddress| #![trigger found@.contains(a)] found@.contains(a) <==> f0.contains(a)
                        || (a.segment == segment && good_endpoint(access, probe, a) && done.contains(a.bus)
                        && before(a, bus, device as int, function as int)),
                    forall|k: int| 0 <= k < f0.len() ==> (#[trigger] f0[k]).segment != segment,
                decreases last - function,
            {
                let a = PciAddress { segment, bus, device, function };
                let ghost fb = found@;
                let here = exists_at(access, a);
                let mut kind = HeaderKind::Other;
                if here {
                    let (vendor, dev_id) = probe.id(a);
                    if vendor != 0xffff && dev_id != 0xffff {
                        kind = probe.header_kind(a);
                    }
                }
                proof {
                    assert(fn_scanned(access, probe, a) == here);
                    assert(kind == HeaderKind::Endpoint <==> good_endpoint(access, probe, a));
                    assert(kind == HeaderKind::PciPciBridge <==> bridge_at(access, probe, a));
                }
                match kind {
                    HeaderKind::Endpoint => {
                        proof {
                            assert forall|k: int| 0 <= k < fb.len() implies fb[k] != a by {
                                assert(placed(fb, segment, done, bus, device, function));
                            }
                            lemma_push_contains(fb, a, a);
                        }
                        found.push(a);
                        proof {
                            assert forall|i: int, j: int| 0 <= i < j < found@.len() implies found@[i] != found@[j] by {
                                if j < fb.len() {
                                    assert(fb[i] == found@[i] && fb[j] == found@[j]);
                                } else {
                                    assert(fb[i] == found@[i]);
                                }
                            }
                            assert forall|k: int| 0 <= k < found@.len() implies {
                                let y = #[trigger] found@[k];
                                y.segment != segment || (done.contains(y.bus) && (y.bus != bus || y.device < device
                                    || (y.device == device && y.function < function + 1)))
                            } by {
                                if k < fb.len() {
                                    assert(fb[k] == found@[k]);
                                }
                            }
                        }
                    },
                    HeaderKind::PciPciBridge => {
                        let (start, end) = probe.bridge_buses(a);
                        proof {
                            assert(reachable(access, probe, segment, bus));
                        }
                        let mut nb: u16 = start as u16;
                        while nb <= end as u16
                            invariant
                                start <= nb <= 256,
                                (start, end) == probe.spec_bridge_buses(a),
                                found@ == fb,
                                kind == HeaderKind::PciPciBridge,
                                forall|x: PciAddress| fb.contains(x) <==> f0.contains(x)
                                    || (x.segment == segment && good_endpoint(access, probe, x) && done.contains(x.bus)
                                    && before(x, bus, device as int, function as int)),
                                bridge_at(access, probe, a),
                                a == (PciAddress { segment, bus, device, function }),
                                done.contains(bus),
                                reachable(access, probe, segment, bus),
                                forall|x: u8| #![trigger work@.contains(x)] #![trigger done.contains(x)]
                                    start <= x && (x as int) < nb ==> work@.contains(x) || done.contains(x),
                                queued@.len() == 256,
                                count_true(queued@) <= 256,
                                2 * (256 - count_true(queued@)) + work@.len() <= 2 * (256 - count_true(old_q)) + old_w,
                                work@.no_duplicates(),
                                forall|x: u8| #[trigger] work@.contains(x) ==> !done.contains(x),
                                forall|x: u8| #[trigger] work@.contains(x) ==> queued@[x as int],
                                forall|x: u8| #![trigger queued@[x as int]] 0 <= x && queued@[x as int] ==> work@.contains(x) || done.contains(x),
                                forall|x: u8| #[trigger] done.contains(x) ==> queued@[x as int],
                                forall|x: u8| #[trigger] work@.contains(x) ==> reachable(access, probe, segment, x),
                                forall|x: u8| #[trigger] initial_bus(access, probe, segment, x) ==> work@.contains(x) || done.contains(x),
                                forall|a2: PciAddress, nb2: u8| #![trigger behind(probe, a2, nb2)]
                                    a2.segment == segment && done.contains(a2.bus) && bridge_at(access, probe, a2)
                                    && before(a2, bus, device as int, function as int) && behind(probe, a2, nb2) ==> work@.contains(nb2) || done.contains(nb2),
                            decreases 256 - nb,
                        {
                            let ghost wb = work@;
                            if !queued[nb as usize] {
                                proof {
                                    lemma_count_set(queued@, nb as int);
                                    lemma_count_bound(queued@.update(nb as int, true));
                                }
                                let ghost qb = queued@;
                                queued.set(nb as usize, true);
                                work.push(nb as u8);
                                proof {
                                    let x0 = nb as u8;
                                    assert(!wb.contains(x0) && !done.contains(x0));
                                    assert(reachable(access, probe, segment, x0)) by {
                                        assert forall|st: Set<u8>| closed(access, probe, segment, st) implies #[trigger] st.contains(x0) by {
                                            assert(st.contains(bus));
                                            assert(behind(probe, a, x0));
                                        }
                                    }
                                    assert forall|y: u8| #[trigger] work@.contains(y) implies !done.contains(y)
                                        && reachable(access, probe, segment, y) by {
                                        lemma_push_contains(wb, x0, y);
                                        if y != x0 {
                                            assert(wb.contains(y));
                                            assert(!done.contains(y));
                                            assert(reachable(access, probe, segment, y));
                                        }
                                    }
                                    assert forall|y: u8| #![trigger queued@[y as int]] 0 <= y && queued@[y as int] implies work@.contains(y) || done.contains(y) by {
                                        lemma_push_contains(wb, x0, y);
                                        if y != x0 {
                                            assert(queued@[y as int] == qb[y as int]);
                                        }
                                    }
                                    assert forall|y: u8| wb.contains(y) implies #[trigger] work@.contains(y) by {
                                        lemma_push_contains(wb, x0, y);
                                    }
                                    lemma_push_contains(wb, x0, x0);
                                    assert forall|i: int, j: int| 0 <= i < j < work@.len() implies work@[i] != work@[j] by {
                                        if j < wb.len() {
                                            assert(wb[i] == work@[i] && wb[j] == work@[j]);
                                        } else {
                                            assert(wb[i] == work@[i]);
                                            assert(wb.contains(wb[i]));
                                        }
                                    }
                                    assert forall|x: u8| #[trigger] work@.contains(x) implies queued@[x as int] by {
                                        lemma_push_contains(wb, x0, x);
                                        if x != x0 {
                                            assert(wb.contains(x));
                                            assert(queued@[x as int] == qb[x as int]);
                                        }
                                    }
                                    assert forall|x: u8| #[trigger] done.contains(x) implies queued@[x as int] by {
                                        if x != x0 {
                                            assert(queued@[x as int] == qb[x as int]);
                                        }
                                    }
                                }
                            } else {
                                proof {
                                    let x0 = nb as u8;
                                    assert(queued@[x0 as int]);
                                    assert(work@.contains(x0) || done.contains(x0));
                                }
                            }
                            nb = nb + 1;
                        }
                        proof {
                            assert forall|a2: PciAddress, nb2: u8| #![trigger behind(probe, a2, nb2)]
                                a2.segment == segment && done.contains(a2.bus) && bridge_at(access, probe, a2)
                                && before(a2, bus, device as int, function + 1) && behind(probe, a2, nb2) implies work@.contains(nb2) || done.contains(nb2) by {
                                if !before(a2, bus, device as int, function as int) {
                                    assert(a2 == a);
                                }
                            }
                            assert(placed(found@, segment, done, bus, device, (function + 1) as u8)) by {
                                assert forall|k: int| 0 <= k < found@.len() implies {
                                    let y = #[trigger] found@[k];
                                    y.segment != segment || (done.contains(y.bus) && (y.bus != bus || y.device < device
                                        || (y.device == device && y.function < function + 1)))
                                } by {
                                    assert(placed(found@, segment, done, bus, device, function));
                                }
                            }
                        }
                    },
                    HeaderKind::Other => {
                        proof {
                            assert(placed(found@, segment, done, bus, device, (function + 1) as u8)) by {
                                assert forall|k: int| 0 <= k < found@.len() implies {
                                    let y = #[trigger] found@[k];
                                    y.segment != segment || (done.contains(y.bus) && (y.bus != bus || y.device < device
                                        || (y.device == device && y.function < function + 1)))
                                } by {
                                    assert(placed(found@, segment, done, bus, device, function));
                                }
                            }
                        }
                    },
                }
                proof {
                    assert forall|x: PciAddress| #![trigger found@.contains(x)] found@.contains(x) <==> f0.contains(x)
                        || (x.segment == segment && good_endpoint(access, probe, x) && done.contains(x.bus)
                        && before(x, bus, device as int, function + 1)) by {
                        if kind == HeaderKind::Endpoint {
                            lemma_push_contains(fb, a, x);
                        } else {
                            assert(found@ == fb);
                        }
                        assert(fb.contains(x) <==> f0.contains(x)
                            || (x.segment == segment && good_endpoint(access, probe, x) && done.contains(x.bus)
                            && before(x, bus, device as int, function as int)));
                        if x.segment == segment && x.bus == bus && x.device == device && x.function == function {
                            assert(x == a);
                            assert(good_endpoint(access, probe, a) <==> kind == HeaderKind::Endpoint);
                        }
                    }
                    assert forall|a2: PciAddress, nb2: u8| #![trigger behind(probe, a2, nb2)]
                        a2.segment == segment && done.contains(a2.bus) && bridge_at(access, probe, a2)
                        && before(a2, bus, device as int, function + 1) && behind(probe, a2, nb2) implies work@.contains(nb2) || done.contains(nb2) by {
                        if !before(a2, bus, device as int, function as int) {
                            assert(a2 == a);
                        }
                    }
                }
                function = function + 1;
            }
            proof {
                assert forall|x: PciAddress| found@.contains(x) <==> f0.contains(x)
                    || (x.segment == segment && good_endpoint(access, probe, x) && done.contains(x.bus)
                    && before(x, bus, device + 1, 0)) by {
                    assert(function == last);
                    assert(found@.contains(x) <==> f0.contains(x)
                        || (x.segment == segment && good_endpoint(access, probe, x) && done.contains(x.bus)
                        && before(x, bus, device as int, function as int)));
                    if x.segment == segment && x.bus == bus && x.device == device && x.function >= last {
                        assert(x == (PciAddress { segment, bus, device, function: x.function }));
                        assert(!fn_scanned(access, probe, PciAddress { segment, bus, device, function: x.function }));
                        assert(!good_endpoint(access, probe, x));
                    }
                }
                assert forall|a2: PciAddress, nb2: u8| #![trigger behind(probe, a2, nb2)]
                    a2.segment == segment && done.contains(a2.bus) && bridge_at(access, probe, a2)
                    && before(a2, bus, device + 1, 0) && behind(probe, a2, nb2) implies work@.contains(nb2) || done.contains(nb2) by {
                    if a2.bus == bus && a2.device == device && a2.function >= last {
                        assert(a2 == (PciAddress { segment, bus, device, function: a2.function }));
                        assert(!fn_scanned(access, probe, PciAddress { segment, bus, device, function: a2.function }));
                    }
                }
                assert forall|k: int| 0 <= k < found@.len() implies {
                    let y = #[trigger] found@[k];
                    y.segment != segment || (done.contains(y.bus) && (y.bus != bus || y.device < device + 1
                        || (y.device == device + 1 && y.function < 0u8)))
                } by {
                    assert(placed(found@, segment, done, bus, device, function));
                }
            }
            device = device + 1;
        }
        proof {
            assert forall|k: int| 0 <= k < found@.len() implies (#[trigger] found@[k]).segment != segment || done.contains(found@[k].bus) by {
                assert(placed(found@, segment, done, bus, device, 0));
            }
        }
    }
    proof {
        assert(closed(access, probe, segment, done)) by {
            assert forall|x: u8| #[trigger] initial_bus(access, probe, segment, x) implies done.contains(x) by {
                assert(!work@.contains(x));
            }
            assert forall|a: PciAddress, nb: u8| #![trigger behind(probe, a, nb)]
                a.segment == segment && done.contains(a.bus) && bridge_at(access, probe, a) && behind(probe, a, nb) implies done.contains(nb) by {
                assert(!work@.contains(nb));
            }
        }
        assert forall|a: PciAddress| found@.contains(a) <==> f0.contains(a)
            || (a.segment == segment && enumerated(access, probe, a)) by {
            if a.segment == segment && reachable(access, probe, segment, a.bus) {
                assert(done.contains(a.bus));
            }
        }
    }
}

proof fn lemma_count_zero(s: Seq<bool>)
    requires
        forall|j: int| 0 <= j < s.len() ==> !s[j],
    ensures
        count_true(s) == 0,
    decreases s.len(),
{
    if s.len() > 0 {
        lemma_count_zero(s.drop_last());
    }
}

/// BAR registers in an endpoint header.
pub const BAR_SLOTS: u8 = 6;

/// The BAR slot read after `slot`: a 64-bit memory BAR takes two slots,
/// so the one after it is skipped.
pub fn next_bar_slot(slot: u8, memory64: bool) -> (r: u8)
    requires
        slot < BAR_SLOTS,
    ensures
        r == slot + if memory64 { 2int } else { 1int },
{
    if memory64 { slot + 2 } else { slot + 1 }
}

} // verus!
