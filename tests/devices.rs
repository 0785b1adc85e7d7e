use kcore::console::{console_bytes, debug_line, detect};
use kcore::local::{GsLocalData, LocalIds};
use kcore::panic::{PanicAction, PanicState};
use kcore::acpi::{get_century_register, get_hpet, get_pci_config_regions, get_platform_info, AcpiTables, HpetInfo, PlatformInfo};
use kcore::executor::{next_step, steal_count, victim_from_draw, Executor, JoinSlot, PollOutcome, RunStep, StealAction, StealEvent, StealRound, MAX_STOLEN_PER_TICK};
use kcore::gdt::{build, GdtLayout, Selectors};
use kcore::interrupts::IoApicInfo;
use kcore::mouse::{get_signed_9, Mouse, MouseState};
use kcore::pci::{capabilities_offset, ConfigRegionAccess, PciConfigRegion};
use kcore::ps2::{has_data, reply_prefix, status_mask, Irq};
use kcore::symbols::{find_symbol, frame_for, record_frame, StackFrame, SymbolEntry, DEFAULT_LINK_BASE};
use kcore::syscall::{dispatch_syscall, syscall_args, ScratchRegisters, SyscallStack, SYSCALL_RESULT};

#[test]
fn signed_nine_bit_values() {
    assert_eq!(get_signed_9(false, false, 5), 5);
    assert_eq!(get_signed_9(false, true, 0xFF), -1);
    assert_eq!(get_signed_9(false, true, 0), -256);
    assert_eq!(get_signed_9(true, false, 3), 256);
    assert_eq!(get_signed_9(true, true, 3), -256);
}

#[test]
fn mouse_packets_move_pointer() {
    let (cmd, mut m) = Mouse::new();
    assert_eq!(cmd, Some(0xF4));
    assert_eq!(m.handle_data(0xFA), None);
    assert_eq!(m.handle_data(0x00), None);
    assert_eq!(m.handle_data(0x29), None);
    assert_eq!(m.handle_data(10), None);
    let s = m.handle_data(0xFE);
    assert_eq!(s, Some(MouseState { x: 10, y: 2, left: true, right: false, middle: false }));
    m.handle_data(0x18);
    m.handle_data(0xF0);
    assert_eq!(m.handle_data(0x02), Some(MouseState { x: 0, y: 0, left: false, right: false, middle: false }));
    m.handle_data(0x08);
    m.handle_data(0);
    assert_eq!(m.handle_data(0), None);
}

#[test]
fn ps2_status_bits() {
    assert_eq!(status_mask(Irq::Irq1), 0x01);
    assert_eq!(status_mask(Irq::Irq12), 0x20);
    assert!(has_data(Irq::Irq1, 0x21));
    assert!(!has_data(Irq::Irq1, 0x20));
    assert!(has_data(Irq::Irq12, 0x20));
    assert!(!has_data(Irq::Irq12, 0x01));
    assert_eq!(reply_prefix(Irq::Irq12), Some(0xD4));
    assert_eq!(reply_prefix(Irq::Irq1), None);
}

#[test]
fn ecam_addresses() {
    let access = ConfigRegionAccess {
        regions: vec![
            PciConfigRegion { segment_group: 0, bus_start: 0, bus_end: 63, base_address: 0xB000_0000 },
            PciConfigRegion { segment_group: 1, bus_start: 16, bus_end: 31, base_address: 0xE000_0000 },
        ],
    };
    assert_eq!(access.physical_address(0, 0, 0, 0), Some(0xB000_0000));
    assert_eq!(access.physical_address(0, 2, 3, 1), Some(0xB000_0000 + (2 << 20) + (3 << 15) + (1 << 12)));
    assert_eq!(access.physical_address(1, 17, 31, 7), Some(0xE000_0000 + (1 << 20) + (31 << 15) + (7 << 12)));
    assert_eq!(access.physical_address(1, 15, 0, 0), None);
    assert_eq!(access.physical_address(2, 0, 0, 0), None);
}

#[test]
fn capability_list_pointer() {
    assert_eq!(capabilities_offset(0x0010, 0x0000_0043), Some(0x40));
    assert_eq!(capabilities_offset(0x0000, 0x0000_0040), None);
    assert_eq!(capabilities_offset(0x0290, 0xABCD_12DC), Some(0xDC));
}

fn tables() -> AcpiTables {
    AcpiTables {
        pci_regions: vec![PciConfigRegion { segment_group: 0, bus_start: 0, bus_end: 255, base_address: 0xB000_0000 }],
        fadt_century: 0x32,
        hpet: Some(HpetInfo { base_address: 0xFED0_0000, hpet_number: 0, main_counter_minimum_tick: 128 }),
        platform: PlatformInfo {
            local_apic_address: 0xFEE0_0000,
            io_apics: vec![IoApicInfo { gsi_base: 0, max_table_entry: 23 }],
            interrupt_source_overrides: Vec::new(),
            also_has_legacy_pics: true,
        },
    }
}

#[test]
fn acpi_accessors() {
    let mut t = tables();
    assert_eq!(get_pci_config_regions(&t).regions, t.pci_regions);
    assert_eq!(get_century_register(&t), Some(0x32));
    assert_eq!(get_hpet(&t).map(|h| h.base_address), Some(0xFED0_0000));
    assert_eq!(get_platform_info(&t).local_apic_address, 0xFEE0_0000);
    t.fadt_century = 0;
    assert_eq!(get_century_register(&t), None);
}

#[test]
fn steal_half_capped() {
    assert_eq!(steal_count(0), 0);
    assert_eq!(steal_count(7), 3);
    assert_eq!(steal_count(1000), MAX_STOLEN_PER_TICK);
}

#[test]
fn run_loop_steps() {
    assert_eq!(next_step(true, 0, false), RunStep::Continue);
    assert_eq!(next_step(false, 3, true), RunStep::Continue);
    assert_eq!(next_step(false, 0, false), RunStep::Stop);
    assert_eq!(next_step(false, 0, true), RunStep::Halt);
}

#[test]
fn victims_are_other_cores() {
    let mut e = Executor::new(1, 42);
    assert_eq!(e.pick_victim(1), None);
    assert_eq!(e.pick_victim(0), None);
    let mut seen_other = false;
    for _ in 0..200 {
        if let Some(v) = e.pick_victim(2) {
            assert_eq!(v, 0);
            seen_other = true;
        }
    }
    assert!(seen_other);
    for _ in 0..200 {
        if let Some(v) = e.pick_victim(5) {
            assert!(v < 5 && v != 1);
        }
    }
}

#[test]
fn panicking_task_delivers_err_once() {
    let mut slot: JoinSlot<u32, String> = JoinSlot::new();
    assert!(slot.may_poll());
    slot.on_poll(PollOutcome::Pending);
    assert!(slot.may_poll());
    slot.on_poll(PollOutcome::Panicked(String::from("boom")));
    assert!(!slot.may_poll());
    assert_eq!(slot.take_result(), Some(Err(String::from("boom"))));
    assert_eq!(slot.take_result(), None);
    assert!(!slot.may_poll());
    let mut ok: JoinSlot<u32, String> = JoinSlot::new();
    ok.on_poll(PollOutcome::Ready(9));
    assert_eq!(ok.take_result(), Some(Ok(9)));
}

#[test]
fn gdt_selectors() {
    assert_eq!(build(), Selectors { kernel_code: 0x08, kernel_data: 0x10, user_data: 0x1B, user_code: 0x23, tss: 0x28 });
    let mut g = GdtLayout::new();
    assert_eq!(g.add_entry(false, true), 8);
    assert_eq!(g.add_entry(true, false), 27);
}

#[test]
fn symbols_resolve_after_relocation() {
    let symbols = vec![
        SymbolEntry { value: DEFAULT_LINK_BASE + 0x100, size: 0x50 },
        SymbolEntry { value: DEFAULT_LINK_BASE + 0x140, size: 0x100 },
    ];
    let load = DEFAULT_LINK_BASE + 0x20_0000;
    assert_eq!(find_symbol(&symbols, load, DEFAULT_LINK_BASE, load + 0x120), Some((load + 0x100, 0)));
    assert_eq!(find_symbol(&symbols, load, DEFAULT_LINK_BASE, load + 0x14F), Some((load + 0x100, 0)));
    assert_eq!(find_symbol(&symbols, load, DEFAULT_LINK_BASE, load + 0x150), Some((load + 0x140, 1)));
    assert_eq!(find_symbol(&symbols, load, DEFAULT_LINK_BASE, load + 0x160), Some((load + 0x140, 1)));
    assert_eq!(find_symbol(&symbols, load, DEFAULT_LINK_BASE, load + 0x240), None);
    assert_eq!(frame_for(&symbols, load, DEFAULT_LINK_BASE, 5), StackFrame { address: 5, function: None });
}

#[test]
fn syscall_frame() {
    let mut stack = SyscallStack::default();
    stack.scratch = ScratchRegisters { rax: 7, rdi: 1, rsi: 2, rdx: 3, r10: 4, r8: 5, r9: 6, ..ScratchRegisters::default() };
    let args = syscall_args(&stack.scratch);
    assert_eq!(args.number, 7);
    assert_eq!(args.args, [1, 2, 3, 4, 5, 6]);
    let seen = dispatch_syscall(&mut stack);
    assert_eq!(seen.number, 7);
    assert_eq!(stack.scratch.rax, SYSCALL_RESULT);
    assert_eq!(stack.scratch.rdi, 1);
}

#[test]
fn panic_policy() {
    let mut p = PanicState::new();
    assert_eq!(p.on_panic(true), PanicAction::HaltDuringInit);
    assert_eq!(p.depth, 0);
    p.late_init();
    assert_eq!(p.on_panic(true), PanicAction::Unwind);
    assert_eq!(p.on_panic(true), PanicAction::HaltRecursive);
    p.on_payload_dropped();
    p.on_payload_dropped();
    assert_eq!(p.depth, 0);
    assert_eq!(p.on_panic(false), PanicAction::HaltNoUnwind);
}

#[test]
fn local_slots_created_once() {
    let mut ids = LocalIds::new();
    let a = ids.next_id().unwrap();
    let b = ids.next_id().unwrap();
    assert_ne!(a, b);
    let mut data: GsLocalData<String> = GsLocalData::new();
    assert!(data.is_valid());
    assert_eq!(data.get(a, || String::from("first")), "first");
    assert_eq!(data.get(a, || String::from("second")), "first");
    assert_eq!(data.get(b, || String::from("other")), "other");
    let mut full = LocalIds { next: u64::MAX };
    assert_eq!(full.next_id(), None);
}

#[test]
fn steal_round_prefers_injector_then_victims() {
    let mut e = Executor::new(0, 7);
    let (mut r, a) = StealRound::begin(true);
    assert_eq!(a, StealAction::TakeInjected(256));
    assert_eq!(r.on_event(&mut e, StealEvent::Injected(Some(3)), 2), StealAction::Finished(3));

    let (mut r, _) = StealRound::begin(true);
    let mut a = r.on_event(&mut e, StealEvent::Injected(None), 2);
    assert_eq!(a, StealAction::ProbeVictim(1));
    a = r.on_event(&mut e, StealEvent::VictimTasks(Some(9)), 2);
    assert_eq!(a, StealAction::StealFrom { victim: 1, count: 4 });
    assert_eq!(r.on_event(&mut e, StealEvent::Stolen(4), 2), StealAction::Finished(4));
    assert!(r.attempts <= 16);

    let (mut r, _) = StealRound::begin(true);
    assert_eq!(r.on_event(&mut e, StealEvent::Injected(None), 1), StealAction::TakeInjected(256));
    assert_eq!(r.on_event(&mut e, StealEvent::Injected(None), 1), StealAction::Finished(0));

    let (mut r, _) = StealRound::begin(false);
    assert_eq!(r.on_event(&mut e, StealEvent::Injected(None), 4), StealAction::TakeInjected(256));
    assert_eq!(r.on_event(&mut e, StealEvent::Injected(Some(2)), 4), StealAction::Finished(2));
}

#[test]
fn draws_on_self_name_no_victim() {
    assert_eq!(victim_from_draw(3, 3), None);
    assert_eq!(victim_from_draw(2, 3), Some(2));
}

#[test]
fn e9_console_bytes() {
    assert!(detect(0xE9));
    assert!(!detect(0xFF));
    assert_eq!(console_bytes(&b"a\nb\n".to_vec()), b"a\r\nb\r\n".to_vec());
    assert_eq!(console_bytes(&Vec::new()), Vec::<u8>::new());
    assert_eq!(debug_line(&b"ok".to_vec()), b"ok\r\n".to_vec());
}

#[test]
fn backtrace_stops_at_limit_or_null() {
    assert!(record_frame(0, 0x1000, 0x2000));
    assert!(!record_frame(16, 0x1000, 0x2000));
    assert!(record_frame(15, 0x1000, 0x2000));
    assert!(!record_frame(3, 0, 0x2000));
    assert!(!record_frame(3, 0x1000, 0));
}
