use kcore::acpi::init_ioapic;
use kcore::interrupts::{
    resolve_override, CapabilityKind, InterruptController, InterruptError, InterruptGuard, InterruptHandler,
    InterruptSourceOverride, InterruptType, IoApicInfo, IoApicSet, MaskSource, MsiMessage, Polarity, TriggerMode,
    MSI_ADDRESS_BASE,
};

type Handler = InterruptHandler<u32, String>;

fn controller() -> InterruptController<u32, String> {
    let apics = vec![
        IoApicInfo { gsi_base: 24, max_table_entry: 23 },
        IoApicInfo { gsi_base: 0, max_table_entry: 23 },
    ];
    InterruptController::new(init_ioapic(&apics))
}

fn keyboard_override() -> Vec<InterruptSourceOverride> {
    vec![
        InterruptSourceOverride { isa_source: 0, global_system_interrupt: 2, polarity: Polarity::SameAsBus, trigger_mode: TriggerMode::SameAsBus },
        InterruptSourceOverride { isa_source: 9, global_system_interrupt: 9, polarity: Polarity::ActiveLow, trigger_mode: TriggerMode::Level },
        InterruptSourceOverride { isa_source: 9, global_system_interrupt: 30, polarity: Polarity::ActiveHigh, trigger_mode: TriggerMode::Edge },
    ]
}

#[test]
fn overrides_apply_first_match() {
    let isos = keyboard_override();
    assert_eq!(resolve_override(&isos, 0, InterruptType::EdgeHigh), (2, InterruptType::EdgeHigh));
    assert_eq!(resolve_override(&isos, 9, InterruptType::EdgeHigh), (9, InterruptType::LevelLow));
    assert_eq!(resolve_override(&isos, 1, InterruptType::EdgeLow), (1, InterruptType::EdgeLow));
}

#[test]
fn ioapics_sorted_and_looked_up() {
    let mut set = IoApicSet::new();
    set.insert(IoApicInfo { gsi_base: 24, max_table_entry: 23 });
    set.insert(IoApicInfo { gsi_base: 0, max_table_entry: 23 });
    assert_eq!(set.get_io_apic(5), 0);
    assert_eq!(set.get_io_apic(30), 1);
    assert_eq!(set.find_io_apic(48), None);
    assert_eq!(set.first_free_vector(), 32 + 24 + 23 + 1);
    assert_eq!(IoApicSet::new().first_free_vector(), 32);
}

#[test]
fn vector_lifecycle_for_keyboard() {
    let mut c = controller();
    let (guard, route) = c
        .set_interrupt(&keyboard_override(), 1, InterruptType::EdgeHigh, Handler::Static(7))
        .unwrap();
    assert_eq!(guard, InterruptGuard::IoApic(1));
    assert_eq!(route.apic, 0);
    assert_eq!(route.entry, 1);
    assert_eq!(route.vector, 33);
    assert!(!route.level_triggered && !route.low_active);
    assert!(!c.handler(33).is_none());
    let again = c.set_interrupt(&Vec::new(), 1, InterruptType::EdgeHigh, Handler::Static(8));
    assert_eq!(again.err(), Some(InterruptError::VectorInUse));
    assert_eq!(c.release(guard), MaskSource::IoApic { apic: 0, entry: 1 });
    assert!(c.handler(33).is_none());
}

#[test]
fn override_moves_irq_and_signalling() {
    let mut c = controller();
    let (guard, route) = c
        .set_interrupt(&keyboard_override(), 9, InterruptType::EdgeHigh, Handler::Dynamic(String::from("acpi")))
        .unwrap();
    assert_eq!(guard, InterruptGuard::IoApic(9));
    assert!(route.level_triggered && route.low_active);
    assert_eq!(route.vector, 41);
    let (g2, r2) = c.set_interrupt(&Vec::new(), 30, InterruptType::LevelHigh, Handler::Static(1)).unwrap();
    assert_eq!(g2, InterruptGuard::IoApic(30));
    assert_eq!((r2.apic, r2.entry, r2.vector), (1, 6, 62));
    assert!(r2.level_triggered && !r2.low_active);
}

#[test]
fn registration_errors() {
    let mut c = controller();
    assert_eq!(c.set_interrupt(&Vec::new(), 60, InterruptType::EdgeHigh, Handler::Static(1)).err(), Some(InterruptError::NoIoApic));
    let mut big = InterruptController::<u32, String>::new(init_ioapic(&vec![IoApicInfo { gsi_base: 200, max_table_entry: 40 }]));
    assert_eq!(big.set_interrupt(&Vec::new(), 225, InterruptType::EdgeHigh, Handler::Static(1)).err(), Some(InterruptError::VectorReserved));
}

#[test]
fn msi_takes_first_free_vector_above_ioapics() {
    let mut c = controller();
    let caps = vec![CapabilityKind::Other, CapabilityKind::MsiX, CapabilityKind::Msi];
    let (g, msg) = c.set_interrupt_msi(&caps, Handler::Static(3)).unwrap();
    assert_eq!(g, InterruptGuard::MsiX(1, 80));
    assert_eq!(msg, MsiMessage { address: MSI_ADDRESS_BASE, data: 80 });
    assert_eq!(msg.address, 0xFEE0_0000);
    let (g2, _) = c.set_interrupt_msi(&vec![CapabilityKind::Msi], Handler::Static(4)).unwrap();
    assert_eq!(g2, InterruptGuard::Msi(0, 81));
    assert_eq!(c.release(g), MaskSource::MsiX(1));
    assert!(c.handler(80).is_none());
    assert!(!c.handler(81).is_none());
    let (g3, _) = c.set_interrupt_msi(&vec![CapabilityKind::Msi], Handler::Static(5)).unwrap();
    assert_eq!(g3, InterruptGuard::Msi(0, 80));
}

#[test]
fn msi_without_capability_fails() {
    let mut c = controller();
    assert!(c.set_interrupt_msi(&vec![CapabilityKind::Other], Handler::Static(3)).is_none());
    assert!(c.handler(80).is_none());
}

#[test]
fn msi_runs_out_of_vectors() {
    let mut c = controller();
    let caps = vec![CapabilityKind::Msi];
    let mut n = 0;
    while c.set_interrupt_msi(&caps, Handler::Static(0)).is_some() {
        n += 1;
    }
    assert_eq!(n, 251 - 80 + 1);
}
