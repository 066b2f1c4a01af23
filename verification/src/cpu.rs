//! Boot-processor set-up: the TSS and the GDT that holds it, the
//! `syscall` MSRs, the saved interrupt state, and the architecture's
//! identity.
use vstd::prelude::*;
use crate::gdt::{
    DF_IST_SIZE, HW_TSS_SIZE, KERN_IST_SIZE, TSS_SELECTOR, GdtDescriptor, stack_top, tss_low_spec, gdt_image,
    gdt_pointer, kern_ist_top, tss_descriptor_words,
};
use crate::exceptions::{efer_with_syscalls, EFER_SCE, msr_halves};
use crate::ptrace::{X86_64PtraceGPRegs, zero_regs};

verus! {

/// A canonical x86_64 virtual address: bits 48-63 copy bit 47.
pub open spec fn is_canonical(addr: u64) -> bool {
    addr < 0x0000_8000_0000_0000 || addr >= 0xFFFF_8000_0000_0000
}

/// `x86_64::VirtAddr::try_new`: succeeds exactly on canonical addresses,
/// and the address it holds is the one given.
#[verifier::external_body]
fn virt_addr_try_new(addr: u64) -> (r: Option<u64>)
    ensures
        r == (if is_canonical(addr) {
            Some(addr)
        } else {
            None::<u64>
        }),
{
    match x86_64::VirtAddr::try_new(addr) {
        Ok(v) => Some(v.as_u64()),
        Err(_) => None,
    }
}

/// Size of the GDT: eight 8-byte slots.
pub const GDT_ENTRIES: u16 = 8;

/// What `tss_init` loads: the TSS stack pointers, the GDT with the TSS
/// descriptor, its `lgdt` operand and the task register selector.
pub struct TssInit {
    /// RSP0: the ring-0 stack used on entry from ring 3.
    pub rsp0: u64,
    /// IST1: the double-fault stack.
    pub ist1: u64,
    pub gdt: Vec<u64>,
    pub gdt_ptr: GdtDescriptor,
    pub tr: u16,
}

/// The TSS and GDT set-up for a TSS at `tss_base`, a GDT at `gdt_base`,
/// a ring-0 stack at `kern_ist_base` and a double-fault stack at
/// `df_ist_base`: both stack tops rounded down to 16 bytes, the TSS
/// descriptor (limit 103) in GDT slots 6 and 7, and selector 0x30 for the
/// task register. The stack tops must be canonical addresses.
pub fn tss_init(kern_ist_base: u64, df_ist_base: u64, tss_base: u64, gdt_base: u64) -> (r: TssInit)
    requires
        kern_ist_base + KERN_IST_SIZE <= u64::MAX,
        df_ist_base + DF_IST_SIZE <= u64::MAX,
        is_canonical(stack_top(kern_ist_base, KERN_IST_SIZE)),
        is_canonical(stack_top(df_ist_base, DF_IST_SIZE)),
    ensures
        r.rsp0 == stack_top(kern_ist_base, KERN_IST_SIZE),
        r.ist1 == stack_top(df_ist_base, DF_IST_SIZE),
        r.gdt@ == seq![
            0u64,
            crate::gdt::GDT_KERNEL_CODE,
            crate::gdt::GDT_KERNEL_DATA,
            0u64,
            crate::gdt::GDT_USER_DATA,
            crate::gdt::GDT_USER_CODE,
            tss_low_spec(tss_base, (HW_TSS_SIZE - 1) as u64),
            tss_base >> 32u64,
        ],
        r.gdt_ptr == (GdtDescriptor { limit: 63, base: gdt_base }),
        r.tr == TSS_SELECTOR,
{
    let kern_top = kern_ist_base + KERN_IST_SIZE;
    proof {
        assert(kern_top & !0xFu64 == stack_top(kern_ist_base, KERN_IST_SIZE));
    }
    let rsp0 = match virt_addr_try_new(kern_top & !0xF) {
        Some(a) => a,
        None => 0,
    };
    let df_top = df_ist_base + DF_IST_SIZE;
    let ist1 = match virt_addr_try_new(df_top & !0xF) {
        Some(a) => a,
        None => 0,
    };
    let tss_limit = HW_TSS_SIZE - 1;
    let (tss_low, tss_high) = tss_descriptor_words(tss_base, tss_limit);
    let gdt = gdt_image(tss_low, tss_high);
    let gdt_ptr = gdt_pointer(gdt_base, GDT_ENTRIES);
    TssInit { rsp0, ist1, gdt, gdt_ptr, tr: TSS_SELECTOR }
}

/// The TSS ring-0 stack pointer after a switch to a task whose kernel
/// stack top is `rsp0`, which must be canonical.
pub fn set_rsp0(rsp0: u64) -> (r: u64)
    requires
        is_canonical(rsp0),
    ensures
        r == rsp0,
{
    match virt_addr_try_new(rsp0) {
        Some(a) => a,
        None => 0,
    }
}

/// IA32_EFER.
pub const MSR_EFER: u32 = 0xC000_0080;
/// IA32_STAR.
pub const MSR_STAR: u32 = 0xC000_0081;
/// IA32_LSTAR.
pub const MSR_LSTAR: u32 = 0xC000_0082;
/// IA32_FMASK.
pub const MSR_FMASK: u32 = 0xC000_0084;
/// STAR: `syscall` loads CS 0x08 / SS 0x10, `sysret` CS 0x2b / SS 0x23.
pub const SYSCALL_STAR: u64 = 0x0018_0008_0000_0000;
/// RFLAGS cleared on `syscall`: TF, IF and DF.
pub const SYSCALL_SFMASK: u64 = 0x700;

/// A `wrmsr`: the register and the (EAX, EDX) halves of its new value.
#[derive(Debug, Clone, Copy, PartialEq, Eq, Structural)]
pub struct MsrWrite {
    pub msr: u32,
    pub eax: u32,
    pub edx: u32,
}

/// The `wrmsr` of `value` to `msr`.
pub open spec fn msr_write(msr: u32, value: u64) -> MsrWrite {
    MsrWrite { msr, eax: value as u32, edx: (value >> 32u64) as u32 }
}

/// What `syscall_init` does: the stack pointer primed for the entry
/// stub (both scratch slots take it) and the MSR writes, in order.
pub struct SyscallInit {
    pub scratch_rsp: u64,
    pub tss_kern_rsp_top: u64,
    pub writes: Vec<MsrWrite>,
}

fn write_of(msr: u32, value: u64) -> (r: MsrWrite)
    ensures
        r == msr_write(msr, value),
{
    let (eax, edx) = msr_halves(value);
    MsrWrite { msr, eax, edx }
}

/// Set up `syscall`/`sysret` for a ring-0 stack at `kern_ist_base`, the
/// current EFER value `efer` and the entry stub at `lstar`: prime the
/// stack slots with the stack top, then enable SCE in EFER, and write
/// STAR, LSTAR and FMASK.
pub fn syscall_init(kern_ist_base: u64, efer: u64, lstar: u64) -> (r: SyscallInit)
    requires
        kern_ist_base + KERN_IST_SIZE <= u64::MAX,
    ensures
        r.scratch_rsp == stack_top(kern_ist_base, KERN_IST_SIZE),
        r.tss_kern_rsp_top == stack_top(kern_ist_base, KERN_IST_SIZE),
        r.writes@ == seq![
            msr_write(MSR_EFER, efer | EFER_SCE),
            msr_write(MSR_STAR, SYSCALL_STAR),
            msr_write(MSR_LSTAR, lstar),
            msr_write(MSR_FMASK, SYSCALL_SFMASK),
        ],
{
    let stack_top = kern_ist_top(kern_ist_base);
    let new_efer = efer_with_syscalls(efer);
    let star: u64 = SYSCALL_STAR;
    let sfmask: u64 = SYSCALL_SFMASK;
    let mut writes: Vec<MsrWrite> = Vec::new();
    writes.push(write_of(MSR_EFER, new_efer));
    writes.push(write_of(MSR_STAR, star));
    writes.push(write_of(MSR_LSTAR, lstar));
    writes.push(write_of(MSR_FMASK, sfmask));
    proof {
        assert(writes@ =~= seq![
            msr_write(MSR_EFER, efer | EFER_SCE),
            msr_write(MSR_STAR, SYSCALL_STAR),
            msr_write(MSR_LSTAR, lstar),
            msr_write(MSR_FMASK, SYSCALL_SFMASK),
        ]);
    }
    SyscallInit { scratch_rsp: stack_top, tss_kern_rsp_top: stack_top, writes }
}

/// RFLAGS as saved when interrupts were disabled.
#[derive(Debug, Clone, Copy, PartialEq, Eq, Structural)]
pub struct X86_64InterruptFlags(pub u64);

impl X86_64InterruptFlags {
    /// Whether interrupts were enabled (RFLAGS.IF) when these flags were
    /// saved, and so are enabled again on restore.
    pub fn interrupts_enabled(&self) -> (r: bool)
        ensures
            r == (self.0 & 0x200 != 0),
    {
        self.0 & 0x200 != 0
    }
}

/// The x86_64 architecture.
pub struct X86_64 {}

impl X86_64 {
    /// The architecture's name.
    pub fn name() -> (r: &'static str)
        ensures
            r@ == "x86_64"@,
    {
        "x86_64"
    }

    /// Processors the kernel runs on: one.
    pub fn cpu_count() -> (r: usize)
        ensures
            r == 1,
    {
        1
    }

    /// The current processor's number.
    pub fn id() -> (r: usize)
        ensures
            r == 0,
    {
        0
    }

    /// The first user context of a task entering at `entry_point` with
    /// its stack at `stack_top`.
    pub fn new_user_context(entry_point: u64, stack_top: u64) -> (r: X86_64PtraceGPRegs)
        ensures
            r == (X86_64PtraceGPRegs { rip: entry_point, rsp: stack_top, ..zero_regs() }),
    {
        X86_64PtraceGPRegs::new(entry_point, stack_top)
    }

    /// The kernel command line, if the boot loader gave a non-empty one.
    pub fn get_cmdline(cmd: &str) -> (r: Option<String>)
        ensures
            cmd@.len() == 0 ==> r is None,
            cmd@.len() > 0 ==> (r matches Some(s) && s@ == cmd@),
    {
        if cmd.unicode_len() == 0 {
            None
        } else {
            Some(cmd.to_string())
        }
    }
}

/// IA32_GS_BASE: where each processor keeps its slab cache pointer.
pub const IA32_GS_BASE: u32 = 0xC000_0101;

/// The global slab allocator's accessor.
pub struct StaticSlabGetter {}

/// Access to this processor's slab cache, held with interrupts disabled;
/// `flags` restores them when released.
pub struct PerCpuCache {
    pub flags: X86_64InterruptFlags,
}

impl PerCpuCache {
    /// The slab cache pointer from the (EAX, EDX) halves `rdmsr` read
    /// from IA32_GS_BASE; `None` before the processor stored one, which
    /// is too early to allocate.
    pub fn get_ptr(eax: u32, edx: u32) -> (r: Option<u64>)
        ensures
            r == (if ((edx as u64) << 32u64) | (eax as u64) == 0 {
                None::<u64>
            } else {
                Some(((edx as u64) << 32u64) | (eax as u64))
            }),
    {
        let cache = ((edx as u64) << 32) | (eax as u64);
        if cache == 0 {
            None
        } else {
            Some(cache)
        }
    }

    /// The `wrmsr` that stores the slab cache pointer `ptr`.
    pub fn store_ptr(ptr: u64) -> (r: MsrWrite)
        ensures
            r == msr_write(IA32_GS_BASE, ptr),
    {
        write_of(IA32_GS_BASE, ptr)
    }
}

/// A pointer stored through `store_ptr` is the pointer `get_ptr` reads
/// back (a stored null reads as none).
pub proof fn lemma_gs_base_round_trip(ptr: u64)
    ensures
        ((msr_write(IA32_GS_BASE, ptr).edx as u64) << 32u64) | (msr_write(IA32_GS_BASE, ptr).eax as u64) == ptr,
{
    assert(((((ptr >> 32u64) as u32) as u64) << 32u64) | ((ptr as u32) as u64) == ptr) by (bit_vector);
}

} // verus!
