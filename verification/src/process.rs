//! Per-task set-up: the idle task and the delivery of signals to user
//! space.
use vstd::prelude::*;
use crate::address::{VirtMemoryRegion, PAGE_SIZE};
use crate::error::KernelError;
use crate::exceptions::{USER_CS, USER_SS};
use crate::mmu::{X86_64ProcessAddressSpace, VDSO_BASE};
use crate::permissions::PtePermissions;
use crate::pg_tables::{PageAllocator, PageTableMapper, MappingContext, mapped_prefix, preserves_valid,
    walk_tables_held, translate_spec, path_table, pg_index_spec, lemma_pg_index_bound,
    level_shift};
use crate::pg_descriptors::desc_valid;
use crate::pg_walk::lemma_zero_invalid;
use crate::ptrace::{X86_64PtraceGPRegs, zero_regs};

verus! {

/// Switch to the address space of the task about to run: the value to
/// load into CR3 (register state is saved and restored at the exception
/// boundary, so nothing else changes).
pub fn context_switch(new_vm: &X86_64ProcessAddressSpace) -> (r: u64)
    ensures
        r == new_vm.root(),
{
    new_vm.activate()
}

/// Virtual address of the idle task's code page.
pub const IDLE_CODE_VA: u64 = 0xd00d_0000;
/// RFLAGS with interrupts enabled.
pub const RFLAGS_IF: u64 = 0x200;

/// The idle task's first user context: at the code page, in ring 3,
/// interrupts on, every other register zero.
pub open spec fn idle_context() -> X86_64PtraceGPRegs {
    X86_64PtraceGPRegs { rip: IDLE_CODE_VA, cs: USER_CS, rflags: RFLAGS_IF, ss: USER_SS, ..zero_regs() }
}

/// A mapped area of a process: its virtual region and its permissions.
#[derive(Debug, Clone, Copy, PartialEq, Eq, Structural)]
pub struct VmArea {
    pub region: VirtMemoryRegion,
    pub perms: PtePermissions,
}

/// What the idle task is made of: its address space, its first user
/// context, the area its code occupies and the contents of its code page.
pub struct IdleTask {
    pub addr_space: X86_64ProcessAddressSpace,
    pub ctx: X86_64PtraceGPRegs,
    pub code_map: VmArea,
    pub code_bytes: Vec<u8>,
}

/// The idle code page: the code image, then zeros to the end of the page.
pub open spec fn idle_page(image: Seq<u8>) -> Seq<u8> {
    image + Seq::new((4096 - image.len()) as nat, |i: int| 0u8)
}

fn page_with_image(image: &[u8]) -> (r: Vec<u8>)
    requires
        image@.len() <= 4096,
    ensures
        r@ == idle_page(image@),
{
    let mut page: Vec<u8> = Vec::new();
    let mut i: usize = 0;
    while i < image.len()
        invariant
            i <= image@.len() <= 4096,
            page@ == image@.take(i as int),
        decreases image@.len() - i,
    {
        page.push(image[i]);
        i = i + 1;
        assert(page@ =~= image@.take(i as int));
    }
    while i < 4096
        invariant
            image@.len() <= i <= 4096,
            page@ == image@ + Seq::new((i - image@.len()) as nat, |j: int| 0u8),
        decreases 4096 - i,
    {
        page.push(0);
        i = i + 1;
        assert(page@ =~= image@ + Seq::new((i - image@.len()) as nat, |j: int| 0u8));
    }
    assert(page@ =~= idle_page(image@));
    page
}

/// Build the idle task around `code_page`, a fresh frame, and `image`,
/// its halt-loop code: the page's contents (the image, then zeros), a
/// fresh address space with the page mapped user read/execute at
/// `IDLE_CODE_VA`, the read/execute code area over the image, and a
/// ring-3 context that starts there with interrupts enabled.
pub fn create_idle_task<A: PageAllocator, M: PageTableMapper>(
    ctx: &mut MappingContext<A, M>,
    code_page: u64,
    image: &[u8],
) -> (r: Result<IdleTask, KernelError>)
    requires
        old(ctx).wf(),
        code_page % 4096 == 0,
        code_page + PAGE_SIZE <= 0x1_0000_0000_0000,
        image@.len() <= PAGE_SIZE,
    ensures
        final(ctx).wf(),
        preserves_valid(old(ctx).mapper.tables(), final(ctx).mapper.tables()),
        r matches Ok(t) ==> {
            &&& t.ctx == idle_context()
            &&& t.code_map == (VmArea {
                region: VirtMemoryRegion { start: IDLE_CODE_VA, size: image@.len() as u64 },
                perms: PtePermissions { read: true, write: false, execute: true, user: true, cow: false },
            })
            &&& t.code_bytes@ == idle_page(image@)
            &&& !old(ctx).mapper.tables().contains_key(t.addr_space.root())
            &&& mapped_prefix(
                final(ctx).mapper.tables(),
                t.addr_space.root(),
                IDLE_CODE_VA,
                code_page,
                4096,
                PtePermissions { read: true, write: false, execute: true, user: true, cow: false },
            )
        },
        old(ctx).can_extend(4) ==> r is Ok,
{
    let mut addr_space = X86_64ProcessAddressSpace::new(ctx)?;
    proof {
        let m1 = ctx.mapper.tables();
        let root = addr_space.root();
        lemma_pg_index_bound(IDLE_CODE_VA, 39);
        lemma_zero_invalid();
        assert(m1[root][pg_index_spec(IDLE_CODE_VA, 39)] == 0u64);
        assert(m1.contains_key(root));
        assert(level_shift(0) == 39);
        assert(!desc_valid(0u64));
        assert(path_table(m1, root, IDLE_CODE_VA, 0) == Some(root));
        assert(path_table(m1, root, IDLE_CODE_VA, 1) is None);
        assert(path_table(m1, root, IDLE_CODE_VA, 2) is None);
        assert(path_table(m1, root, IDLE_CODE_VA, 3) is None);
        assert(walk_tables_held(m1, root, IDLE_CODE_VA));
        assert(translate_spec(m1, root, IDLE_CODE_VA) is None);
    }
    addr_space.map_page(code_page, IDLE_CODE_VA, PtePermissions::rx(true), ctx)?;
    let mut regs = X86_64PtraceGPRegs::zeroed();
    regs.rip = IDLE_CODE_VA;
    regs.cs = USER_CS;
    regs.rflags = RFLAGS_IF;
    regs.ss = USER_SS;
    let code_bytes = page_with_image(image);
    let code_map = VmArea { region: VirtMemoryRegion::new(IDLE_CODE_VA, image.len() as u64), perms: PtePermissions::rx(true) };
    Ok(IdleTask { addr_space, ctx: regs, code_map, code_bytes })
}

/// Size of a signal frame on the user stack: the saved registers and
/// the previous alternate-stack pointer.
pub const SIG_FRAME_SIZE: u64 = 224;

/// The frame pushed on the user stack when a signal is delivered.
#[derive(Debug, Clone, Copy, PartialEq, Eq, Structural)]
pub struct RtSigFrame {
    /// The interrupted user registers, restored on `sigreturn`.
    pub uctx: X86_64PtraceGPRegs,
    /// The alternate stack pointer before this frame, or 0 when the
    /// frame is not on the alternate stack.
    pub alt_stack_prev_addr: u64,
}

/// What user space asked for on a signal.
#[derive(Debug, Clone, Copy, PartialEq, Eq, Structural)]
pub struct SigAction {
    /// Handler entry point.
    pub action: u64,
    /// Return trampoline, if the task supplied one.
    pub restorer: Option<u64>,
    /// `SA_ONSTACK`: run on the alternate signal stack.
    pub on_stack: bool,
}

/// A frame slot carved from the alternate signal stack.
#[derive(Debug, Clone, Copy, PartialEq, Eq, Structural)]
pub struct AltStackSlot {
    /// The alternate stack pointer before the carve.
    pub old_ptr: u64,
    /// Where the frame goes.
    pub data_ptr: u64,
}

/// A signal ready for delivery: the frame to copy, where it goes, and
/// the registers the task resumes with.
#[derive(Debug, Clone, Copy, PartialEq, Eq, Structural)]
pub struct SignalDelivery {
    pub frame_addr: u64,
    pub frame: RtSigFrame,
    pub regs: X86_64PtraceGPRegs,
}

/// Where the frame goes on the ordinary stack: one frame below `rsp`,
/// rounded down to a page boundary.
pub open spec fn stack_frame_addr(rsp: u64) -> u64 {
    ((rsp - SIG_FRAME_SIZE) as u64 / 4096 * 4096) as u64
}

/// Whether the frame goes on the alternate stack.
pub open spec fn uses_alt_stack(sa: SigAction, alt: Option<AltStackSlot>) -> bool {
    sa.on_stack && alt is Some
}

/// The frame pushed for a task interrupted with `regs`.
pub open spec fn signal_frame(regs: X86_64PtraceGPRegs, sa: SigAction, alt: Option<AltStackSlot>) -> RtSigFrame {
    RtSigFrame {
        uctx: regs,
        alt_stack_prev_addr: if uses_alt_stack(sa, alt) {
            alt->Some_0.old_ptr
        } else {
            0
        },
    }
}

/// What `sigreturn` takes from a frame: the registers to resume with and
/// the alternate stack pointer to restore, if any.
pub open spec fn frame_restores(frame: RtSigFrame) -> (X86_64PtraceGPRegs, Option<u64>) {
    (frame.uctx, if frame.alt_stack_prev_addr != 0 {
        Some(frame.alt_stack_prev_addr)
    } else {
        None
    })
}

/// Prepare delivery of signal `signo` to a task interrupted with `regs`.
/// With `SA_ONSTACK` and a slot on the alternate stack (`alt`) the frame
/// goes there and remembers the old alternate stack pointer; otherwise
/// it goes below the stack pointer, page-aligned. The handler starts at
/// the action with the stack pointer at the frame, `rcx` holding the
/// restorer (the VDSO trampoline when none was given) and `rdi` the
/// signal number.
pub fn setup_signal_frame(regs: &X86_64PtraceGPRegs, signo: u64, sa: SigAction, alt: Option<AltStackSlot>) -> (r:
    SignalDelivery)
    requires
        !(sa.on_stack && alt is Some) ==> regs.rsp >= SIG_FRAME_SIZE,
    ensures
        r.frame == signal_frame(*regs, sa, alt),
        r.frame_addr == (if uses_alt_stack(sa, alt) {
            alt->Some_0.data_ptr
        } else {
            stack_frame_addr(regs.rsp)
        }),
        r.regs == (X86_64PtraceGPRegs {
            rsp: r.frame_addr,
            rip: sa.action,
            rcx: match sa.restorer {
                Some(t) => t,
                None => VDSO_BASE,
            },
            rdi: signo,
            ..*regs
        }),
{
    let saved_state = *regs;
    let mut new_state = saved_state;
    let mut frame = RtSigFrame { uctx: saved_state, alt_stack_prev_addr: 0 };
    let restorer = match sa.restorer {
        Some(t) => t,
        None => VDSO_BASE,
    };
    let addr = match (sa.on_stack, alt) {
        (true, Some(slot)) => {
            frame.alt_stack_prev_addr = slot.old_ptr;
            slot.data_ptr
        },
        _ => {
            let below = new_state.rsp - SIG_FRAME_SIZE;
            proof {
                assert(below & !0xFFFu64 == below / 4096 * 4096) by (bit_vector);
            }
            below & !0xFFF
        },
    };
    new_state.rsp = addr;
    new_state.rip = sa.action;
    new_state.rcx = restorer;
    new_state.rdi = signo;
    SignalDelivery { frame_addr: addr, frame, regs: new_state }
}

/// Return from a signal handler with the frame read back from the user
/// stack: the task resumes with the saved registers, and the alternate
/// stack pointer to restore, if the frame was on the alternate stack.
pub fn signal_return(frame: &RtSigFrame) -> (r: (X86_64PtraceGPRegs, Option<u64>))
    ensures
        r == frame_restores(*frame),
{
    let restore = if frame.alt_stack_prev_addr != 0 {
        Some(frame.alt_stack_prev_addr)
    } else {
        None
    };
    (frame.uctx, restore)
}

/// A handler that returns through `sigreturn` with its frame untouched
/// resumes the task with exactly the registers the signal interrupted,
/// and the alternate stack is handed back only for a frame placed on it
/// (and then with the pointer it had before).
pub proof fn lemma_signal_round_trip(regs: X86_64PtraceGPRegs, sa: SigAction, alt: Option<AltStackSlot>)
    ensures
        frame_restores(signal_frame(regs, sa, alt)).0 == regs,
        frame_restores(signal_frame(regs, sa, alt)).1 is Some ==> uses_alt_stack(sa, alt)
            && frame_restores(signal_frame(regs, sa, alt)).1 == Some(alt->Some_0.old_ptr),
        uses_alt_stack(sa, alt) && alt->Some_0.old_ptr != 0 ==> frame_restores(signal_frame(regs, sa, alt)).1
            == Some(alt->Some_0.old_ptr),
{
}

} // verus!
