//! The register frame that the system-call entry pushes, and how the call
//! number and arguments are read from it.
use vstd::prelude::*;

verus! {

/// What every system call returns for now.
pub const SYSCALL_RESULT: u64 = 42;

/// Registers a callee may clobber.
#[derive(Debug, Clone, Copy, Default)]
pub struct ScratchRegisters {
    pub r11: u64,
    pub r10: u64,
    pub r9: u64,
    pub r8: u64,
    pub rsi: u64,
    pub rdi: u64,
    pub rdx: u64,
    pub rcx: u64,
    pub rax: u64,
}

/// Registers a callee must restore.
#[derive(Debug, Clone, Copy, Default)]
pub struct PreservedRegisters {
    pub r15: u64,
    pub r14: u64,
    pub r13: u64,
    pub r12: u64,
    pub rbp: u64,
    pub rbx: u64,
}

/// The frame that `iretq` returns through.
#[derive(Debug, Clone, Copy, Default)]
pub struct IretRegisters {
    pub rip: u64,
    pub cs: u64,
    pub rflags: u64,
    pub rsp: u64,
    pub ss: u64,
}

/// Everything the entry stub saved, lowest address first.
#[derive(Debug, Clone, Copy, Default)]
pub struct SyscallStack {
    pub preserved: PreservedRegisters,
    pub scratch: ScratchRegisters,
    pub iret: IretRegisters,
}

/// A call number and its six arguments.
#[derive(Debug, Clone, Copy, PartialEq, Eq)]
pub struct SyscallArgs {
    pub number: u64,
    pub args: [u64; 6],
}

/// The call number comes in `rax`; the arguments in `rdi`, `rsi`, `rdx`,
/// `r10`, `r8`, `r9`.
pub fn syscall_args(s: &ScratchRegisters) -> (r: SyscallArgs)
    ensures
        r.number == s.rax,
        r.args@ == seq![s.rdi, s.rsi, s.rdx, s.r10, s.r8, s.r9],
{
    let r = SyscallArgs { number: s.rax, args: [s.rdi, s.rsi, s.rdx, s.r10, s.r8, s.r9] };
    assert(r.args@ =~= seq![s.rdi, s.rsi, s.rdx, s.r10, s.r8, s.r9]);
    r
}

/// Handles a system call: the result goes back in `rax`; nothing else in
/// the frame changes.
pub fn dispatch_syscall(stack: &mut SyscallStack) -> (r: SyscallArgs)
    ensures
        r.number == old(stack).scratch.rax,
        final(stack).scratch.rax == SYSCALL_RESULT,
        final(stack).preserved == old(stack).preserved,
        final(stack).iret == old(stack).iret,
        final(stack).scratch.rdi == old(stack).scratch.rdi,
{
    let args = syscall_args(&stack.scratch);
    stack.scratch.rax = SYSCALL_RESULT;
    args
}

} // verus!
