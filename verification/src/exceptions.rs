//! CPU exceptions: the saved register frame, error-code decoding, and
//! the decisions of the exception dispatcher and fault handlers.
use vstd::prelude::*;
use crate::ptrace::{X86_64PtraceGPRegs, zero_regs};
use crate::syscalls::{
    SyscallKind, resolve_args, syscall_arguments, abi_argument_registers, lemma_arguments_follow_the_abi,
    lemma_syscall_arguments_fit,
};
use crate::text::{hex16, decimal, push_hex16, push_decimal};
use vstd::string::StringExecFns;

verus! {

pub const DOUBLE_FAULT: usize = 8;
pub const INVALID_TSS: usize = 10;
pub const SEGMENT_NOT_PRESENT: usize = 11;
pub const STACK_SEGMENT_FAULT: usize = 12;
pub const GENERAL_PROTECTION_FAULT: usize = 13;
pub const PAGE_FAULT: usize = 14;
pub const ALIGNMENT_CHECK: usize = 17;
pub const MACHINE_CHECK: usize = 18;
/// Vector of the `int 0x80` system-call gate.
pub const SYSCALL: usize = 0x80;
/// First hardware-interrupt vector.
pub const IRQ_BASE: usize = 32;

/// Page-fault error-code bits (Intel SDM).
pub const PF_NOT_PRESENT: u64 = 0x1;
pub const PF_WRITE: u64 = 0x2;
pub const PF_USER: u64 = 0x4;
pub const PF_RESERVED: u64 = 0x8;
pub const PF_INSTRUCTION_FETCH: u64 = 0x10;
pub const PF_PROTECTION_KEY: u64 = 0x20;
pub const PF_SHADOW_STACK: u64 = 0x40;

/// Register frame saved by the interrupt entry stubs.
#[derive(Debug, Clone, Copy, PartialEq, Eq, Structural)]
pub struct ExceptionState {
    pub r15: u64,
    pub r14: u64,
    pub r13: u64,
    pub r12: u64,
    pub rbp: u64,
    pub rbx: u64,
    pub r11: u64,
    pub r10: u64,
    pub r9: u64,
    pub r8: u64,
    pub rax: u64,
    pub rcx: u64,
    pub rdx: u64,
    pub rsi: u64,
    pub rdi: u64,
    pub vector_num: u64,
    pub error_code: u64,
    pub rip: u64,
    pub cs: u64,
    pub rflags: u64,
    pub rsp: u64,
    pub ss: u64,
}

/// Description of the error code an exception vector pushes.
pub open spec fn error_code_text(vector: usize) -> Seq<char> {
    if vector == 8 {
        "Double Fault (always 0)"@
    } else if vector == 10 {
        "Invalid TSS"@
    } else if vector == 11 {
        "Segment Not Present"@
    } else if vector == 12 {
        "Stack Segment Fault"@
    } else if vector == 13 {
        "General Protection Fault"@
    } else if vector == 14 {
        "Page Fault"@
    } else if vector == 17 {
        "Alignment Check"@
    } else if vector == 30 {
        "Security Exception"@
    } else {
        "Unknown error code"@
    }
}

/// Human-readable description of the error code of `vector`.
pub fn decode_error_code(vector: usize, error_code: u64) -> (r: &'static str)
    ensures
        r@ == error_code_text(vector),
{
    match vector {
        8 => "Double Fault (always 0)",
        10 => "Invalid TSS",
        11 => "Segment Not Present",
        12 => "Stack Segment Fault",
        13 => "General Protection Fault",
        14 => "Page Fault",
        17 => "Alignment Check",
        30 => "Security Exception",
        _ => "Unknown error code",
    }
}

/// Whether the CPU pushes an error code for `vector`.
pub fn has_error_code(vector: usize) -> (r: bool)
    ensures
        r == (vector == 8 || vector == 10 || vector == 11 || vector == 12 || vector == 13 || vector == 14 || vector
            == 17 || vector == 21 || vector == 29 || vector == 30),
{
    match vector {
        8 | 10 | 11 | 12 | 13 | 14 | 17 | 21 | 29 | 30 => true,
        _ => false,
    }
}

pub open spec fn flag_text(ec: u64, bit: u64, text: Seq<char>) -> Seq<char> {
    if ec & bit != 0 {
        text
    } else {
        Seq::empty()
    }
}

/// The page-fault error code as space-separated flag names, or
/// "UNKNOWN" when none of the known bits is set.
pub open spec fn pf_error_text(ec: u64) -> Seq<char> {
    if ec & 0x7F == 0 {
        "UNKNOWN"@
    } else {
        flag_text(ec, PF_NOT_PRESENT, "PRESENT "@) + flag_text(ec, PF_WRITE, "WRITE "@) + flag_text(
            ec,
            PF_USER,
            "USER "@,
        ) + flag_text(ec, PF_RESERVED, "RESERVED "@) + flag_text(ec, PF_INSTRUCTION_FETCH, "EXEC "@) + flag_text(
            ec,
            PF_PROTECTION_KEY,
            "PK "@,
        ) + flag_text(ec, PF_SHADOW_STACK, "SHADOW_STACK "@)
    }
}

/// Decode a page-fault error code into flag names.
pub fn format_pf_error_code(ec: u64) -> (r: String)
    ensures
        r@ == pf_error_text(ec),
{
    let mut buf = String::new();
    let ghost mut acc: Seq<char> = Seq::empty();
    if ec & PF_NOT_PRESENT != 0 {
        buf.append("PRESENT ");
    }
    proof {
        acc = acc + flag_text(ec, PF_NOT_PRESENT, "PRESENT "@);
        assert(buf@ =~= acc);
    }
    if ec & PF_WRITE != 0 {
        buf.append("WRITE ");
    }
    proof {
        acc = acc + flag_text(ec, PF_WRITE, "WRITE "@);
        assert(buf@ =~= acc);
    }
    if ec & PF_USER != 0 {
        buf.append("USER ");
    }
    proof {
        acc = acc + flag_text(ec, PF_USER, "USER "@);
        assert(buf@ =~= acc);
    }
    if ec & PF_RESERVED != 0 {
        buf.append("RESERVED ");
    }
    proof {
        acc = acc + flag_text(ec, PF_RESERVED, "RESERVED "@);
        assert(buf@ =~= acc);
    }
    if ec & PF_INSTRUCTION_FETCH != 0 {
        buf.append("EXEC ");
    }
    proof {
        acc = acc + flag_text(ec, PF_INSTRUCTION_FETCH, "EXEC "@);
        assert(buf@ =~= acc);
    }
    if ec & PF_PROTECTION_KEY != 0 {
        buf.append("PK ");
    }
    proof {
        acc = acc + flag_text(ec, PF_PROTECTION_KEY, "PK "@);
        assert(buf@ =~= acc);
    }
    if ec & PF_SHADOW_STACK != 0 {
        buf.append("SHADOW_STACK ");
    }
    proof {
        acc = acc + flag_text(ec, PF_SHADOW_STACK, "SHADOW_STACK "@);
        assert(buf@ =~= acc);
    }
    if ec & 0x7F == 0 {
        proof {
            assert(ec & 0x7Fu64 == 0 ==> (ec & 1u64 == 0 && ec & 2u64 == 0 && ec & 4u64 == 0 && ec & 8u64 == 0
                && ec & 0x10u64 == 0 && ec & 0x20u64 == 0 && ec & 0x40u64 == 0)) by (bit_vector);
        }
        buf.append("UNKNOWN");
        assert(buf@ =~= pf_error_text(ec));
    } else {
        assert(buf@ =~= pf_error_text(ec));
    }
    buf
}

/// A fault the kernel cannot recover from, with what its report shows.
#[derive(Debug, Clone, Copy, PartialEq, Eq, Structural)]
pub enum FatalFault {
    PageFault { user: bool, address: u64, error_code: u64 },
    GeneralProtection { error_code: u64 },
    DoubleFault { error_code: u64 },
    InvalidOpcode { rip: u64 },
    DeviceNotAvailable { rip: u64 },
    MachineCheck,
    Unhandled { vector: u64 },
}

/// #PF at linear address `cr2`: fatal, reported as a user or kernel
/// fault by the user bit of the error code.
pub fn handle_page_fault(state: &ExceptionState, cr2: u64) -> (r: FatalFault)
    ensures
        r == (FatalFault::PageFault { user: state.error_code & PF_USER != 0, address: cr2, error_code: state.error_code }),
{
    FatalFault::PageFault { user: state.error_code & PF_USER != 0, address: cr2, error_code: state.error_code }
}

/// #GP is always fatal.
pub fn handle_gp_fault(state: &ExceptionState) -> (r: FatalFault)
    ensures
        r == (FatalFault::GeneralProtection { error_code: state.error_code }),
{
    FatalFault::GeneralProtection { error_code: state.error_code }
}

/// #DF is always fatal.
pub fn handle_double_fault(state: &ExceptionState) -> (r: FatalFault)
    ensures
        r == (FatalFault::DoubleFault { error_code: state.error_code }),
{
    FatalFault::DoubleFault { error_code: state.error_code }
}

/// #UD is fatal and reported at the faulting instruction.
pub fn handle_invalid_opcode(state: &ExceptionState) -> (r: FatalFault)
    ensures
        r == (FatalFault::InvalidOpcode { rip: state.rip }),
{
    FatalFault::InvalidOpcode { rip: state.rip }
}

/// #NM is fatal and reported at the faulting instruction.
pub fn handle_device_not_available(state: &ExceptionState) -> (r: FatalFault)
    ensures
        r == (FatalFault::DeviceNotAvailable { rip: state.rip }),
{
    FatalFault::DeviceNotAvailable { rip: state.rip }
}

/// #MC is always fatal.
pub fn handle_machine_check(state: &ExceptionState) -> (r: FatalFault)
    ensures
        r == FatalFault::MachineCheck,
{
    FatalFault::MachineCheck
}

/// An exception without a handler is fatal.
pub fn default_handler(state: &ExceptionState) -> (r: FatalFault)
    ensures
        r == (FatalFault::Unhandled { vector: state.vector_num }),
{
    FatalFault::Unhandled { vector: state.vector_num }
}

/// Where the dispatcher sends an interrupt or exception.
#[derive(Debug, Clone, Copy, PartialEq, Eq, Structural)]
pub enum InterruptRoute {
    PageFault,
    GeneralProtection,
    DoubleFault,
    Syscall,
    Irq,
    Unhandled,
}

pub open spec fn route_of(vector: usize) -> InterruptRoute {
    if vector == PAGE_FAULT {
        InterruptRoute::PageFault
    } else if vector == GENERAL_PROTECTION_FAULT {
        InterruptRoute::GeneralProtection
    } else if vector == DOUBLE_FAULT {
        InterruptRoute::DoubleFault
    } else if vector == SYSCALL {
        InterruptRoute::Syscall
    } else if IRQ_BASE <= vector <= 255 {
        InterruptRoute::Irq
    } else {
        InterruptRoute::Unhandled
    }
}

/// The route for `vector`: the three handled faults, the system-call
/// gate, hardware IRQs (32-255), and everything else unhandled.
pub fn route_vector(vector: usize) -> (r: InterruptRoute)
    ensures
        r == route_of(vector),
{
    match vector {
        PAGE_FAULT => InterruptRoute::PageFault,
        GENERAL_PROTECTION_FAULT => InterruptRoute::GeneralProtection,
        DOUBLE_FAULT => InterruptRoute::DoubleFault,
        SYSCALL => InterruptRoute::Syscall,
        32..=255 => InterruptRoute::Irq,
        _ => InterruptRoute::Unhandled,
    }
}

/// The exception was taken from ring 3: the code selector's RPL is 3.
pub fn entered_from_user(state: &ExceptionState) -> (r: bool)
    ensures
        r == (state.cs & 3 == 3),
{
    state.cs & 3 == 3
}

/// Kernel code segment selector (GDT entry 1).
pub const KERNEL_CS: u64 = 0x08;
/// Kernel stack segment selector (GDT entry 2).
pub const KERNEL_SS: u64 = 0x10;
/// User code segment selector.
pub const USER_CS: u64 = 0x33;
/// User stack segment selector.
pub const USER_SS: u64 = 0x2B;
/// RFLAGS bits cleared on `syscall` entry (IF).
pub const SYSCALL_FMASK: u64 = 0x200;
/// IA32_EFER.SCE.
pub const EFER_SCE: u64 = 1;

/// The STAR MSR: bits 47:32 hold the kernel code selector that `syscall`
/// loads (SS is the next selector, `KERNEL_SS`); bits 63:48 hold the base
/// from which 64-bit `sysret` loads SS (base + 8 = `USER_SS`) and CS
/// (base + 16 = `USER_CS`); the legacy low half is unused and zero.
pub fn star_msr_value() -> (r: u64)
    ensures
        r == (((USER_CS - 16) as u64) << 48u64) | (KERNEL_CS << 32u64),
        (r >> 32u64) & 0xFFFF == KERNEL_CS,
        ((r >> 32u64) & 0xFFFF) + 8 == KERNEL_SS,
        (r >> 48u64) + 8 == USER_SS,
        (r >> 48u64) + 16 == USER_CS,
        r & 0xFFFF_FFFF == 0,
{
    let r = ((USER_CS - 16) << 48) | (KERNEL_CS << 32);
    assert((r >> 32u64) & 0xFFFFu64 == 0x08 && r >> 48u64 == 0x23 && r & 0xFFFF_FFFFu64 == 0) by (bit_vector)
        requires r == (0x23u64 << 48u64) | (0x08u64 << 32u64);
    r
}

/// EFER with system calls enabled.
pub fn efer_with_syscalls(efer: u64) -> (r: u64)
    ensures
        r == efer | EFER_SCE,
        r & 1 == 1,
        r & !1u64 == efer & !1u64,
{
    proof {
        assert((efer | 1u64) & 1u64 == 1 && (efer | 1u64) & !1u64 == efer & !1u64) by (bit_vector);
    }
    efer | EFER_SCE
}

/// A 64-bit MSR value as the (EAX, EDX) halves `wrmsr` takes.
pub fn msr_halves(value: u64) -> (r: (u32, u32))
    ensures
        r.0 == value as u32,
        r.1 == (value >> 32u64) as u32,
        ((r.1 as u64) << 32u64) | (r.0 as u64) == value,
{
    proof {
        assert(((((value >> 32u64) as u32) as u64) << 32u64) | ((value as u32) as u64) == value) by (bit_vector);
    }
    (value as u32, (value >> 32) as u32)
}

/// The user registers an exception frame carries: the registers both
/// hold, with the ones the frame lacks (`orig_rax`, the segment bases and
/// data selectors) zero.
pub open spec fn user_regs_of(state: ExceptionState) -> X86_64PtraceGPRegs {
    X86_64PtraceGPRegs {
        r15: state.r15,
        r14: state.r14,
        r13: state.r13,
        r12: state.r12,
        rbp: state.rbp,
        rbx: state.rbx,
        r11: state.r11,
        r10: state.r10,
        r9: state.r9,
        r8: state.r8,
        rax: state.rax,
        rcx: state.rcx,
        rdx: state.rdx,
        rsi: state.rsi,
        rdi: state.rdi,
        rip: state.rip,
        cs: state.cs,
        rflags: state.rflags,
        rsp: state.rsp,
        ss: state.ss,
        ..zero_regs()
    }
}

/// The exception frame that returns to user registers `regs`: the
/// registers both hold, with no vector and no error code.
pub open spec fn frame_of(regs: X86_64PtraceGPRegs) -> ExceptionState {
    ExceptionState {
        r15: regs.r15,
        r14: regs.r14,
        r13: regs.r13,
        r12: regs.r12,
        rbp: regs.rbp,
        rbx: regs.rbx,
        r11: regs.r11,
        r10: regs.r10,
        r9: regs.r9,
        r8: regs.r8,
        rax: regs.rax,
        rcx: regs.rcx,
        rdx: regs.rdx,
        rsi: regs.rsi,
        rdi: regs.rdi,
        vector_num: 0,
        error_code: 0,
        rip: regs.rip,
        cs: regs.cs,
        rflags: regs.rflags,
        rsp: regs.rsp,
        ss: regs.ss,
    }
}

impl ExceptionState {
    /// The user registers this frame carries.
    pub fn to_user_regs(&self) -> (r: X86_64PtraceGPRegs)
        ensures
            r == user_regs_of(*self),
    {
        let mut r = X86_64PtraceGPRegs::zeroed();
        r.r15 = self.r15;
        r.r14 = self.r14;
        r.r13 = self.r13;
        r.r12 = self.r12;
        r.rbp = self.rbp;
        r.rbx = self.rbx;
        r.r11 = self.r11;
        r.r10 = self.r10;
        r.r9 = self.r9;
        r.r8 = self.r8;
        r.rax = self.rax;
        r.rcx = self.rcx;
        r.rdx = self.rdx;
        r.rsi = self.rsi;
        r.rdi = self.rdi;
        r.rip = self.rip;
        r.cs = self.cs;
        r.rflags = self.rflags;
        r.rsp = self.rsp;
        r.ss = self.ss;
        r
    }

    /// The frame that returns to `regs`.
    pub fn from_user_regs(regs: &X86_64PtraceGPRegs) -> (r: Self)
        ensures
            r == frame_of(*regs),
    {
        ExceptionState {
            r15: regs.r15,
            r14: regs.r14,
            r13: regs.r13,
            r12: regs.r12,
            rbp: regs.rbp,
            rbx: regs.rbx,
            r11: regs.r11,
            r10: regs.r10,
            r9: regs.r9,
            r8: regs.r8,
            rax: regs.rax,
            rcx: regs.rcx,
            rdx: regs.rdx,
            rsi: regs.rsi,
            rdi: regs.rdi,
            vector_num: 0,
            error_code: 0,
            rip: regs.rip,
            cs: regs.cs,
            rflags: regs.rflags,
            rsp: regs.rsp,
            ss: regs.ss,
        }
    }
}

/// Saving a frame's registers and returning through the saved registers
/// gives back the frame, except for the vector and error code, which
/// only describe the event.
pub proof fn lemma_frame_round_trip(state: ExceptionState)
    ensures
        frame_of(user_regs_of(state)) == (ExceptionState { vector_num: 0, error_code: 0, ..state }),
{
}

/// Saving a frame as user registers keeps every register under its own
/// name, and the frame built to resume user registers holds every
/// register under its own name, with no vector and no error code.
pub proof fn lemma_registers_keep_their_names(state: ExceptionState, regs: X86_64PtraceGPRegs)
    ensures
        user_regs_of(state).r15 == state.r15,
        user_regs_of(state).r14 == state.r14,
        user_regs_of(state).r13 == state.r13,
        user_regs_of(state).r12 == state.r12,
        user_regs_of(state).rbp == state.rbp,
        user_regs_of(state).rbx == state.rbx,
        user_regs_of(state).r11 == state.r11,
        user_regs_of(state).r10 == state.r10,
        user_regs_of(state).r9 == state.r9,
        user_regs_of(state).r8 == state.r8,
        user_regs_of(state).rax == state.rax,
        user_regs_of(state).rcx == state.rcx,
        user_regs_of(state).rdx == state.rdx,
        user_regs_of(state).rsi == state.rsi,
        user_regs_of(state).rdi == state.rdi,
        user_regs_of(state).rip == state.rip,
        user_regs_of(state).cs == state.cs,
        user_regs_of(state).rflags == state.rflags,
        user_regs_of(state).rsp == state.rsp,
        user_regs_of(state).ss == state.ss,
        frame_of(regs).r15 == regs.r15,
        frame_of(regs).r14 == regs.r14,
        frame_of(regs).r13 == regs.r13,
        frame_of(regs).r12 == regs.r12,
        frame_of(regs).rbp == regs.rbp,
        frame_of(regs).rbx == regs.rbx,
        frame_of(regs).r11 == regs.r11,
        frame_of(regs).r10 == regs.r10,
        frame_of(regs).r9 == regs.r9,
        frame_of(regs).r8 == regs.r8,
        frame_of(regs).rax == regs.rax,
        frame_of(regs).rcx == regs.rcx,
        frame_of(regs).rdx == regs.rdx,
        frame_of(regs).rsi == regs.rsi,
        frame_of(regs).rdi == regs.rdi,
        frame_of(regs).rip == regs.rip,
        frame_of(regs).cs == regs.cs,
        frame_of(regs).rflags == regs.rflags,
        frame_of(regs).rsp == regs.rsp,
        frame_of(regs).ss == regs.ss,
        frame_of(regs).vector_num == 0,
        frame_of(regs).error_code == 0,
{
}

/// A system call decoded from the registers saved on entry from user
/// mode reads its arguments from the frame's rdi, rsi, rdx, r10, r8 and
/// r9, in order (for every call but the `open`, `stat` and `clone`
/// entries, whose fixed and swapped arguments `syscall_arguments` lists).
pub proof fn lemma_syscall_arguments_from_frame(state: ExceptionState, k: SyscallKind)
    requires
        k != SyscallKind::Open && k != SyscallKind::Stat && k != SyscallKind::Clone,
    ensures
        resolve_args(user_regs_of(state), syscall_arguments(k)) == seq![
            state.rdi,
            state.rsi,
            state.rdx,
            state.r10,
            state.r8,
            state.r9,
        ].take(syscall_arguments(k).len() as int),
{
    lemma_arguments_follow_the_abi(k, user_regs_of(state));
    lemma_syscall_arguments_fit(k);
    assert(abi_argument_registers(user_regs_of(state)) == seq![
        state.rdi,
        state.rsi,
        state.rdx,
        state.r10,
        state.r8,
        state.r9,
    ]);
}

/// What the dispatcher does with an event.
#[derive(Debug, Clone, Copy, PartialEq, Eq, Structural)]
pub enum DispatchAction {
    /// Run the fault handler the route names.
    Fault(InterruptRoute),
    /// Spawn the system call handler for the current task.
    Syscall,
    /// Hand the IRQ to the root interrupt controller.
    Irq,
    /// Stop: an IRQ arrived before any controller was set up.
    NoInterruptRoot,
    /// Stop: an exception without a handler.
    Unhandled,
}

/// The dispatcher's plan for an event: whether it came from user mode
/// (and then the user registers to save for the task), and the action.
pub struct DispatchPlan {
    pub from_user: bool,
    pub saved_user: Option<X86_64PtraceGPRegs>,
    pub action: DispatchAction,
}

/// The action for an event on `vector`, with or without a root
/// interrupt controller.
pub open spec fn dispatch_action(vector: usize, interrupt_root_ready: bool) -> DispatchAction {
    match route_of(vector) {
        InterruptRoute::PageFault => DispatchAction::Fault(InterruptRoute::PageFault),
        InterruptRoute::GeneralProtection => DispatchAction::Fault(InterruptRoute::GeneralProtection),
        InterruptRoute::DoubleFault => DispatchAction::Fault(InterruptRoute::DoubleFault),
        InterruptRoute::Syscall => DispatchAction::Syscall,
        InterruptRoute::Irq => if interrupt_root_ready {
            DispatchAction::Irq
        } else {
            DispatchAction::NoInterruptRoot
        },
        InterruptRoute::Unhandled => DispatchAction::Unhandled,
    }
}

/// Plan the handling of the event in `state`: an event taken from ring 3
/// saves the user registers first; the vector picks the action.
pub fn plan_dispatch(state: &ExceptionState, interrupt_root_ready: bool) -> (r: DispatchPlan)
    ensures
        r.from_user == (state.cs & 3 == 3),
        r.saved_user == (if state.cs & 3 == 3 {
            Some(user_regs_of(*state))
        } else {
            None::<X86_64PtraceGPRegs>
        }),
        r.action == dispatch_action(state.vector_num as usize, interrupt_root_ready),
{
    let from_user = entered_from_user(state);
    let saved_user = if from_user {
        Some(state.to_user_regs())
    } else {
        None
    };
    let action = match route_vector(state.vector_num as usize) {
        InterruptRoute::PageFault => DispatchAction::Fault(InterruptRoute::PageFault),
        InterruptRoute::GeneralProtection => DispatchAction::Fault(InterruptRoute::GeneralProtection),
        InterruptRoute::DoubleFault => DispatchAction::Fault(InterruptRoute::DoubleFault),
        InterruptRoute::Syscall => DispatchAction::Syscall,
        InterruptRoute::Irq => if interrupt_root_ready {
            DispatchAction::Irq
        } else {
            DispatchAction::NoInterruptRoot
        },
        InterruptRoute::Unhandled => DispatchAction::Unhandled,
    };
    DispatchPlan { from_user, saved_user, action }
}

/// On return to user mode, the frame is rewritten to resume `regs`, the
/// registers of whichever task runs next.
pub fn return_to_user(state: &mut ExceptionState, regs: &X86_64PtraceGPRegs)
    ensures
        *final(state) == frame_of(*regs),
{
    *state = ExceptionState::from_user_regs(regs);
}

/// One line of the register dump: two labelled 16-digit values.
pub open spec fn dump_line(a: Seq<char>, x: u64, b: Seq<char>, y: u64) -> Seq<char> {
    a + hex16(x) + b + hex16(y) + "\n"@
}

/// The register dump of an exception frame: the general registers two
/// per line, a blank line, the instruction pointer, code segment, flags
/// and stack segment, then the vector (decimal) and error code.
pub open spec fn exception_report(s: ExceptionState) -> Seq<char> {
    dump_line("RAX: 0x"@, s.rax, ", RBX: 0x"@, s.rbx)
        + dump_line("RCX: 0x"@, s.rcx, ", RDX: 0x"@, s.rdx)
        + dump_line("RSI: 0x"@, s.rsi, ", RDI: 0x"@, s.rdi)
        + dump_line("RBP: 0x"@, s.rbp, ", RSP: 0x"@, s.rsp)
        + dump_line("R8:  0x"@, s.r8, ", R9:  0x"@, s.r9)
        + dump_line("R10: 0x"@, s.r10, ", R11: 0x"@, s.r11)
        + dump_line("R12: 0x"@, s.r12, ", R13: 0x"@, s.r13)
        + dump_line("R14: 0x"@, s.r14, ", R15: 0x"@, s.r15)
        + "\n"@
        + dump_line("RIP: 0x"@, s.rip, ", CS:  0x"@, s.cs)
        + dump_line("RFLAGS: 0x"@, s.rflags, ", SS: 0x"@, s.ss)
        + "Vector: "@ + decimal(s.vector_num as nat) + ", Error code: 0x"@ + hex16(s.error_code) + "\n"@
}

fn push_dump_line(out: &mut String, a: &str, x: u64, b: &str, y: u64)
    ensures
        final(out)@ == old(out)@ + dump_line(a@, x, b@, y),
{
    let ghost start = out@;
    out.append(a);
    push_hex16(out, x);
    out.append(b);
    push_hex16(out, y);
    out.append("\n");
    proof {
        assert(out@ =~= start + dump_line(a@, x, b@, y));
    }
}

impl ExceptionState {
    /// The register dump printed when the kernel stops on an exception.
    pub fn dump(&self) -> (r: String)
        ensures
            r@ == exception_report(*self),
    {
        let mut out = String::new();
        push_dump_line(&mut out, "RAX: 0x", self.rax, ", RBX: 0x", self.rbx);
        push_dump_line(&mut out, "RCX: 0x", self.rcx, ", RDX: 0x", self.rdx);
        push_dump_line(&mut out, "RSI: 0x", self.rsi, ", RDI: 0x", self.rdi);
        push_dump_line(&mut out, "RBP: 0x", self.rbp, ", RSP: 0x", self.rsp);
        push_dump_line(&mut out, "R8:  0x", self.r8, ", R9:  0x", self.r9);
        push_dump_line(&mut out, "R10: 0x", self.r10, ", R11: 0x", self.r11);
        push_dump_line(&mut out, "R12: 0x", self.r12, ", R13: 0x", self.r13);
        push_dump_line(&mut out, "R14: 0x", self.r14, ", R15: 0x", self.r15);
        out.append("\n");
        push_dump_line(&mut out, "RIP: 0x", self.rip, ", CS:  0x", self.cs);
        push_dump_line(&mut out, "RFLAGS: 0x", self.rflags, ", SS: 0x", self.ss);
        out.append("Vector: ");
        push_decimal(&mut out, self.vector_num);
        out.append(", Error code: 0x");
        push_hex16(&mut out, self.error_code);
        out.append("\n");
        proof {
            assert(out@ =~= exception_report(*self));
        }
        out
    }
}

} // verus!
