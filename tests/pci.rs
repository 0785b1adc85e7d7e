use kcore::pci::{capabilities, describe, enumerate, next_bar_slot, read_bars, Bar, ConfigRegionAccess, HeaderKind, PciAddress, PciConfigRegion, PciProbe};

struct Machine;

fn at(bus: u8, device: u8, function: u8) -> PciAddress {
    PciAddress { segment: 0, bus, device, function }
}

impl PciProbe for Machine {
    fn spec_id(&self, a: PciAddress) -> (u16, u16) {
        self.id(a)
    }
    fn spec_multiple_functions(&self, a: PciAddress) -> bool {
        self.has_multiple_functions(a)
    }
    fn spec_header_kind(&self, a: PciAddress) -> HeaderKind {
        self.header_kind(a)
    }
    fn spec_bridge_buses(&self, a: PciAddress) -> (u8, u8) {
        self.bridge_buses(a)
    }
    fn spec_bar(&self, a: PciAddress, slot: u8) -> Option<Bar> {
        self.bar(a, slot)
    }
    fn spec_capability(&self, a: PciAddress, offset: u8) -> (u8, u8) {
        self.capability(a, offset)
    }
    fn spec_read(&self, a: PciAddress, offset: u16) -> u32 {
        self.read(a, offset)
    }
    fn read(&self, _a: PciAddress, offset: u16) -> u32 {
        match offset {
            0x04 => 0x0010_0007,
            0x08 => 0x0200_0003,
            0x2C => 0x1100_1af4,
            0x34 => 0x43,
            0x3C => 0x0000_010b,
            _ => 0,
        }
    }
    fn capability(&self, a: PciAddress, offset: u8) -> (u8, u8) {
        match (a.device, offset) {
            (0, 0x40) => (0x05, 0x50),
            (0, 0x50) => (0x11, 0x00),
            (_, o) => (0x09, o),
        }
    }
    fn id(&self, a: PciAddress) -> (u16, u16) {
        match (a.bus, a.device, a.function) {
            (0, 0, 0) | (0, 1, 0) | (0, 1, 1) | (0, 2, 0) | (1, 0, 0) | (2, 3, 0) => (0x8086, 0x1234),
            _ => (0xffff, 0xffff),
        }
    }
    fn has_multiple_functions(&self, a: PciAddress) -> bool {
        a.bus == 0 && a.device == 1
    }
    fn header_kind(&self, a: PciAddress) -> HeaderKind {
        match (a.bus, a.device) {
            (0, 2) | (1, 0) => HeaderKind::PciPciBridge,
            _ => HeaderKind::Endpoint,
        }
    }
    fn bridge_buses(&self, a: PciAddress) -> (u8, u8) {
        if a.bus == 0 { (1, 2) } else { (2, 2) }
    }
    fn bar(&self, _a: PciAddress, slot: u8) -> Option<Bar> {
        match slot {
            0 => Some(Bar::Memory64 { address: 0xfebf_0000, size: 0x1000, prefetchable: false }),
            1 => Some(Bar::Io { port: 0xdead }),
            2 => Some(Bar::Io { port: 0xc000 }),
            4 => Some(Bar::Memory32 { address: 0xfeb0_0000, size: 0x100, prefetchable: true }),
            _ => None,
        }
    }
}

#[test]
fn bars_skip_upper_half_of_64_bit() {
    let bars = read_bars(&Machine, at(0, 0, 0));
    assert_eq!(bars.len(), 6);
    assert_eq!(bars[0], Some(Bar::Memory64 { address: 0xfebf_0000, size: 0x1000, prefetchable: false }));
    assert_eq!(bars[1], None);
    assert_eq!(bars[2], Some(Bar::Io { port: 0xc000 }));
    assert_eq!(bars[3], None);
    assert_eq!(bars[4], Some(Bar::Memory32 { address: 0xfeb0_0000, size: 0x100, prefetchable: true }));
}

#[test]
fn enumeration_follows_bridges_once() {
    let access = ConfigRegionAccess {
        regions: vec![PciConfigRegion { segment_group: 0, bus_start: 0, bus_end: 255, base_address: 0xB000_0000 }],
    };
    let mut found = enumerate(&access, &Machine);
    found.sort_by_key(|a| (a.bus, a.device, a.function));
    assert_eq!(found, vec![at(0, 0, 0), at(0, 1, 0), at(0, 1, 1), at(2, 3, 0)]);
}

#[test]
fn enumeration_skips_uncovered_buses() {
    let access = ConfigRegionAccess {
        regions: vec![PciConfigRegion { segment_group: 0, bus_start: 0, bus_end: 1, base_address: 0xB000_0000 }],
    };
    let mut found = enumerate(&access, &Machine);
    found.sort_by_key(|a| (a.bus, a.device, a.function));
    assert_eq!(found, vec![at(0, 0, 0), at(0, 1, 0), at(0, 1, 1)]);
    assert!(enumerate(&ConfigRegionAccess { regions: Vec::new() }, &Machine).is_empty());
}

#[test]
fn bar_slots_skip_upper_half() {
    assert_eq!(next_bar_slot(0, false), 1);
    assert_eq!(next_bar_slot(0, true), 2);
    assert_eq!(next_bar_slot(4, true), 6);
}

#[test]
fn capability_list_walk() {
    assert_eq!(capabilities(&Machine, at(0, 0, 0), 0x40), vec![(0x40, 0x05), (0x50, 0x11)]);
    assert_eq!(capabilities(&Machine, at(0, 0, 0), 0), Vec::<(u8, u8)>::new());
    assert_eq!(capabilities(&Machine, at(0, 3, 0), 0x60).len(), 48);
}

struct WideLast;

impl PciProbe for WideLast {
    fn spec_id(&self, a: PciAddress) -> (u16, u16) { self.id(a) }
    fn spec_multiple_functions(&self, a: PciAddress) -> bool { self.has_multiple_functions(a) }
    fn spec_header_kind(&self, a: PciAddress) -> HeaderKind { self.header_kind(a) }
    fn spec_bridge_buses(&self, a: PciAddress) -> (u8, u8) { self.bridge_buses(a) }
    fn spec_bar(&self, a: PciAddress, slot: u8) -> Option<Bar> { self.bar(a, slot) }
    fn spec_capability(&self, a: PciAddress, offset: u8) -> (u8, u8) { self.capability(a, offset) }
    fn spec_read(&self, a: PciAddress, offset: u16) -> u32 { self.read(a, offset) }
    fn id(&self, _a: PciAddress) -> (u16, u16) { (1, 2) }
    fn has_multiple_functions(&self, _a: PciAddress) -> bool { false }
    fn header_kind(&self, _a: PciAddress) -> HeaderKind { HeaderKind::Endpoint }
    fn bridge_buses(&self, _a: PciAddress) -> (u8, u8) { (0, 0) }
    fn bar(&self, _a: PciAddress, slot: u8) -> Option<Bar> {
        if slot == 5 { Some(Bar::Memory64 { address: 0x1000, size: 0x1000, prefetchable: false }) } else { None }
    }
    fn capability(&self, _a: PciAddress, _offset: u8) -> (u8, u8) { (0, 0) }
    fn read(&self, _a: PciAddress, _offset: u16) -> u32 { 0 }
}

#[test]
fn wide_bar_in_last_slot_is_dropped() {
    let bars = read_bars(&WideLast, at(0, 0, 0));
    assert_eq!(bars, vec![None; 6]);
}

#[test]
fn device_record_from_config_registers() {
    let access = ConfigRegionAccess {
        regions: vec![PciConfigRegion { segment_group: 0, bus_start: 0, bus_end: 255, base_address: 0xB000_0000 }],
    };
    let d = describe(&access, &Machine, at(0, 1, 0));
    assert_eq!(d.configuration_address, 0xB000_0000 + (1 << 15));
    assert_eq!((d.vendor_id, d.device_id), (0x8086, 0x1234));
    assert_eq!((d.revision, d.interface, d.sub_class, d.class), (3, 0, 0, 2));
    assert_eq!((d.sub_vendor_id, d.sub_device_id), (0x1af4, 0x1100));
    assert_eq!((d.interrupt_line, d.interrupt_pin), (0x0b, 1));
    assert_eq!(d.bars.len(), 6);
    assert_eq!(d.capabilities, capabilities(&Machine, at(0, 1, 0), 0x40));
    assert_eq!(d.capabilities.len(), 48);
}
