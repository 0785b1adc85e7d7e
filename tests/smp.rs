use kcore::smp::{gdt_descriptor, patch_trampoline, sipi_vector, ApAction, ApBoot, ApEvent, PatchError};

fn trampoline() -> Vec<u8> {
    let mut code = vec![0x90u8; 64];
    code[4..10].copy_from_slice(&[0x66, 0xba, 0x78, 0x56, 0x34, 0x12]);
    code[16..23].copy_from_slice(&[0x66, 0xea, 0x78, 0x56, 0x34, 0x12, 0x08]);
    code[32..42].copy_from_slice(&[0x48, 0xbc, 0x78, 0x56, 0x34, 0x12, 0x78, 0x56, 0x34, 0x12]);
    code
}

#[test]
fn trampoline_slots_are_patched_little_endian() {
    let mut code = trampoline();
    assert_eq!(patch_trampoline(&mut code, 4, 16, 32, 0x0010_2000, 0x4020, 0xffff_8000_1234_5000), Ok(()));
    assert_eq!(&code[4..10], &[0x66, 0xba, 0x00, 0x20, 0x10, 0x00]);
    assert_eq!(&code[16..23], &[0x66, 0xea, 0x20, 0x40, 0x00, 0x00, 0x08]);
    assert_eq!(&code[32..42], &[0x48, 0xbc, 0x00, 0x50, 0x34, 0x12, 0x00, 0x80, 0xff, 0xff]);
    assert_eq!(code[0], 0x90);
    assert_eq!(code[63], 0x90);
}

#[test]
fn trampoline_with_wrong_slot_is_left_alone() {
    let mut code = trampoline();
    let before = code.clone();
    assert_eq!(patch_trampoline(&mut code, 5, 16, 32, 0x1000, 0x4020, 0x8000), Err(PatchError::PageTableSlot));
    assert_eq!(patch_trampoline(&mut code, 4, 17, 32, 0x1000, 0x4020, 0x8000), Err(PatchError::LongModeJumpSlot));
    assert_eq!(patch_trampoline(&mut code, 4, 16, 60, 0x1000, 0x4020, 0x8000), Err(PatchError::StackSlot));
    assert_eq!(patch_trampoline(&mut code, 4, 16, 32, 0x1_0000_0000, 0x4020, 0x8000), Err(PatchError::AddressTooHigh));
    assert_eq!(code, before);
}

#[test]
fn sipi_retries_then_gives_up() {
    assert_eq!(sipi_vector(), 4);
    let mut ap = ApBoot::new();
    assert_eq!(ap.on_event(ApEvent::InitDone), ApAction::SendSipi(4));
    assert_eq!(ap.on_event(ApEvent::Timeout), ApAction::SendSipi(4));
    assert_eq!(ap.on_event(ApEvent::Timeout), ApAction::GiveUp);
    let mut ok = ApBoot::new();
    assert_eq!(ok.on_event(ApEvent::InitDone), ApAction::SendSipi(4));
    assert_eq!(ok.on_event(ApEvent::Ready), ApAction::Started);
}

#[test]
fn gdt_descriptor_uses_window() {
    assert_eq!(gdt_descriptor(0x37, 0x0012_3450), (0x37, 0x5450));
}
