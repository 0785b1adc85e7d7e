//! Waking application processors: patching the real-mode trampoline with
//! the page table, the long-mode jump target and the stack, and the
//! INIT-SIPI retry policy.
use vstd::prelude::*;

verus! {

/// Physical address the trampoline is copied to; its page number is the
/// SIPI vector.
pub const AP_ENTRY_ADDRESS: u64 = 0x4000;

/// Where the trampoline finds the GDT descriptor (limit, then base).
pub const GDT_ADDRESS: u64 = 0x4800;

/// Virtual page through which the BSP's GDT is shown to the trampoline.
pub const GDT_WINDOW: u64 = 0x5000;

/// SIPIs sent before an AP is given up on.
pub const MAX_SIPI_ATTEMPTS: u8 = 2;

/// Why the trampoline could not be patched.
#[derive(Clone, Copy, Debug, PartialEq, Eq)]
pub enum PatchError {
    /// A slot does not hold the instruction bytes it should.
    PageTableSlot,
    LongModeJumpSlot,
    StackSlot,
    /// The page table or the long-mode entry lies above 4 GiB.
    AddressTooHigh,
}

/// `mov edx, imm32` with the placeholder.
pub open spec fn pml4_signature() -> Seq<u8> {
    seq![0x66u8, 0xba, 0x78, 0x56, 0x34, 0x12]
}

/// `jmp far imm32:0x08` with the placeholder.
pub open spec fn jump_signature() -> Seq<u8> {
    seq![0x66u8, 0xea, 0x78, 0x56, 0x34, 0x12, 0x08]
}

/// `mov rsp, imm64` with the placeholder twice.
pub open spec fn stack_signature() -> Seq<u8> {
    seq![0x48u8, 0xbc, 0x78, 0x56, 0x34, 0x12, 0x78, 0x56, 0x34, 0x12]
}

/// `s` holds `sig` from `at` on.
pub open spec fn holds_at(s: Seq<u8>, at: int, sig: Seq<u8>) -> bool {
    0 <= at && at + sig.len() <= s.len() && s.subrange(at, at + sig.len()) == sig
}

/// The `n` little-endian bytes of `v`.
pub open spec fn le_bytes(v: int, n: nat) -> Seq<u8>
    decreases n,
{
    if n == 0 {
        Seq::empty()
    } else {
        seq![(v % 256) as u8] + le_bytes(v / 256, (n - 1) as nat)
    }
}

/// `s` with `bytes` written from `at` on.
pub open spec fn put_bytes(s: Seq<u8>, at: int, bytes: Seq<u8>) -> Seq<u8> {
    s.subrange(0, at) + bytes + s.subrange(at + bytes.len(), s.len() as int)
}

fn signature_at(code: &Vec<u8>, at: usize, sig: &[u8]) -> (r: bool)
    ensures
        r == holds_at(code@, at as int, sig@),
{
    let len = code.len();
    if at > len || sig.len() > len - at {
        return false;
    }
    let mut k: usize = 0;
    while k < sig.len()
        invariant
            at + sig@.len() <= code@.len(),
            code@.len() == len,
            0 <= k <= sig@.len(),
            forall|j: int| 0 <= j < k ==> code@[at + j] == sig@[j],
        decreases sig@.len() - k,
    {
        if code[at + k] != sig[k] {
            proof {
                assert(code@.subrange(at as int, at + sig@.len())[k as int] != sig@[k as int]);
            }
            return false;
        }
        k = k + 1;
    }
    proof {
        assert(code@.subrange(at as int, at + sig@.len()) =~= sig@);
    }
    true
}

fn write_le(code: &mut Vec<u8>, at: usize, v: u64, n: usize)
    requires
        at + n <= old(code)@.len(),
        n <= 8,
    ensures
        final(code)@ == put_bytes(old(code)@, at as int, le_bytes(v as int, n as nat)),
{
    let len = code.len();
    let mut k: usize = 0;
    let mut x: u64 = v;
    let ghost whole = le_bytes(v as int, n as nat);
    proof {
        lemma_le_len(v as int, n as nat);
        assert(whole.subrange(0, n as int) =~= whole);
    }
    while k < n
        invariant
            at + n <= code@.len(),
            code@.len() == len,
            0 <= k <= n,
            n <= 8,
            whole == le_bytes(v as int, n as nat),
            whole.len() == n,
            code@.len() == old(code)@.len(),
            le_bytes(x as int, (n - k) as nat) == whole.subrange(k as int, n as int),
            forall|j: int| 0 <= j < at ==> code@[j] == old(code)@[j],
            forall|j: int| at + n <= j < code@.len() ==> code@[j] == old(code)@[j],
            forall|j: int| 0 <= j < k ==> code@[at + j] == whole[j],
        decreases n - k,
    {
        proof {
            let t = le_bytes(x as int, (n - k) as nat);
            assert(t == seq![(x as int % 256) as u8] + le_bytes(x as int / 256, (n - k - 1) as nat));
            assert(t[0] == whole[k as int]);
            lemma_le_len(x as int / 256, (n - k - 1) as nat);
            assert(t.subrange(1, (n - k) as int) =~= le_bytes(x as int / 256, (n - k - 1) as nat));
            assert(whole.subrange(k as int, n as int).subrange(1, (n - k) as int) =~= whole.subrange(k + 1, n as int));
        }
        code.set(at + k, (x % 256) as u8);
        x = x / 256;
        k = k + 1;
    }
    proof {
        assert(code@ =~= put_bytes(old(code)@, at as int, whole));
    }
}

proof fn lemma_le_len(v: int, n: nat)
    ensures
        le_bytes(v, n).len() == n,
    decreases n,
{
    if n > 0 {
        lemma_le_len(v / 256, (n - 1) as nat);
    }
}

/// Patches a copy of the trampoline: the page-table root into the
/// `mov edx` at `pml4_offset`, the long-mode entry into the far jump at
/// `long_mode_jump_offset`, and the stack top into the `mov rsp` at
/// `long_mode_offset`, each after its two opcode bytes. Every slot must
/// hold its instruction with the placeholder, and the two 32-bit values
/// must fit; otherwise nothing is written.
pub fn patch_trampoline(
    code: &mut Vec<u8>,
    pml4_offset: usize,
    long_mode_jump_offset: usize,
    long_mode_offset: usize,
    page_table: u64,
    long_mode_entry: u64,
    stack_top: u64,
) -> (r: Result<(), PatchError>)
    ensures
        r == (if !holds_at(old(code)@, pml4_offset as int, pml4_signature()) {
            Err::<(), PatchError>(PatchError::PageTableSlot)
        } else if !holds_at(old(code)@, long_mode_jump_offset as int, jump_signature()) {
            Err(PatchError::LongModeJumpSlot)
        } else if !holds_at(old(code)@, long_mode_offset as int, stack_signature()) {
            Err(PatchError::StackSlot)
        } else if page_table > u32::MAX || long_mode_entry > u32::MAX {
            Err(PatchError::AddressTooHigh)
        } else {
            Ok(())
        }),
        r is Err ==> final(code)@ == old(code)@,
        r is Ok ==> final(code)@ == put_bytes(
            put_bytes(
                put_bytes(old(code)@, pml4_offset + 2, le_bytes(page_table as int, 4)),
                long_mode_jump_offset + 2,
                le_bytes(long_mode_entry as int, 4),
            ),
            long_mode_offset + 2,
            le_bytes(stack_top as int, 8),
        ),
{
    let pml4_sig: [u8; 6] = [0x66, 0xba, 0x78, 0x56, 0x34, 0x12];
    let jump_sig: [u8; 7] = [0x66, 0xea, 0x78, 0x56, 0x34, 0x12, 0x08];
    let stack_sig: [u8; 10] = [0x48, 0xbc, 0x78, 0x56, 0x34, 0x12, 0x78, 0x56, 0x34, 0x12];
    proof {
        assert(pml4_sig@ =~= pml4_signature());
        assert(jump_sig@ =~= jump_signature());
        assert(stack_sig@ =~= stack_signature());
    }
    if !signature_at(code, pml4_offset, pml4_sig.as_slice()) {
        return Err(PatchError::PageTableSlot);
    }
    if !signature_at(code, long_mode_jump_offset, jump_sig.as_slice()) {
        return Err(PatchError::LongModeJumpSlot);
    }
    if !signature_at(code, long_mode_offset, stack_sig.as_slice()) {
        return Err(PatchError::StackSlot);
    }
    if page_table > u32::MAX as u64 || long_mode_entry > u32::MAX as u64 {
        return Err(PatchError::AddressTooHigh);
    }
    let len = code.len();
    write_le(code, pml4_offset + 2, page_table, 4);
    proof {
        lemma_le_len(page_table as int, 4);
    }
    write_le(code, long_mode_jump_offset + 2, long_mode_entry, 4);
    proof {
        lemma_le_len(long_mode_entry as int, 4);
    }
    write_le(code, long_mode_offset + 2, stack_top, 8);
    Ok(())
}

/// The SIPI vector that starts an AP at `AP_ENTRY_ADDRESS`: its page number.
pub fn sipi_vector() -> (r: u8)
    ensures
        r * 0x1000 == AP_ENTRY_ADDRESS,
{
    (AP_ENTRY_ADDRESS / 0x1000) as u8
}

/// What the BSP does next for an AP it is waking.
#[derive(Clone, Copy, Debug, PartialEq, Eq)]
pub enum ApAction {
    /// Send a startup IPI with this vector and wait for the AP.
    SendSipi(u8),
    /// The AP reported in.
    Started,
    /// No answer after every attempt: release its resources.
    GiveUp,
}

/// What happened while waiting.
#[derive(Clone, Copy, Debug, PartialEq, Eq)]
pub enum ApEvent {
    /// The INIT IPI's settling delay passed.
    InitDone,
    /// The AP ran its entry code.
    Ready,
    /// A second passed without word from the AP.
    Timeout,
}

/// SIPIs sent so far to one AP.
pub struct ApBoot {
    pub attempts: u8,
}

impl ApBoot {
    /// After the INIT IPI, before any SIPI.
    pub fn new() -> (r: Self)
        ensures
            r.attempts == 0,
    {
        ApBoot { attempts: 0 }
    }

    /// The next step: a ready AP is started; otherwise a SIPI goes out
    /// while fewer than `MAX_SIPI_ATTEMPTS` were sent, and then the AP is
    /// given up on.
    pub fn on_event(&mut self, event: ApEvent) -> (r: ApAction)
        requires
            old(self).attempts <= MAX_SIPI_ATTEMPTS,
        ensures
            final(self).attempts <= MAX_SIPI_ATTEMPTS,
            event == ApEvent::Ready ==> r == ApAction::Started && final(self).attempts == old(self).attempts,
            event != ApEvent::Ready && old(self).attempts < MAX_SIPI_ATTEMPTS ==> r == ApAction::SendSipi(4)
                && final(self).attempts == old(self).attempts + 1,
            event != ApEvent::Ready && old(self).attempts >= MAX_SIPI_ATTEMPTS ==> r == ApAction::GiveUp
                && final(self).attempts == old(self).attempts,
    {
        match event {
            ApEvent::Ready => ApAction::Started,
            _ => {
                if self.attempts >= MAX_SIPI_ATTEMPTS {
                    ApAction::GiveUp
                } else {
                    self.attempts = self.attempts + 1;
                    ApAction::SendSipi(sipi_vector())
                }
            },
        }
    }
}

/// The GDT descriptor the trampoline loads: the BSP's limit, and the base
/// at which the GDT window shows the table's physical address.
pub fn gdt_descriptor(limit: u16, gdt_phys: u64) -> (r: (u16, u32))
    ensures
        r == (limit, (GDT_WINDOW + gdt_phys % 0x1000) as u32),
{
    (limit, (GDT_WINDOW + gdt_phys % 0x1000) as u32)
}

} // verus!
