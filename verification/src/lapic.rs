//! The local APIC interrupt controller driver, over a model of its
//! register block (each field holds the last value written to or read
//! from that register).
use vstd::prelude::*;
use crate::error::KernelError;
use crate::interrupts::{InterruptConfig, InterruptDescriptor};
use crate::address::{PhysMemoryRegion, u64_limit, mappable_start, mappable_end};
use crate::mmu::X86_64KernelAddressSpace;
use crate::pg_tables::{PageAllocator, PageTableMapper, MappingContext, preserves_valid, mapped_prefix};
use crate::permissions::PtePermissions;

verus! {

/// Physical base of the local APIC registers.
pub const LAPIC_BASE_PHYS: u64 = 0xFEE0_0000;
/// Size of the local APIC register block.
pub const LAPIC_MMIO_SIZE: u64 = 0x1000;
/// Spurious interrupt vector.
pub const SPURIOUS_VECTOR: u32 = 0xFF;
/// ICR delivery mode: fixed.
pub const DELIVERY_FIXED: u32 = 0;
/// ICR delivery mode: INIT.
pub const DELIVERY_INIT: u32 = 5;
/// ICR destination shorthand: all including self.
pub const DEST_ALL: u32 = 0xC_0000;
/// Vector of the local APIC timer.
pub const LAPIC_TIMER_VECTOR: u32 = 0x40;
/// LVT timer mode: periodic.
pub const TIMER_MODE_PERIODIC: u32 = 0x2_0000;
/// Timer divide configuration: divide by 16.
pub const TMRDIV_DIV16: u32 = 0b011;
/// Mask bit of an LVT entry.
pub const LVT_MASK: u32 = 0x1_0000;

/// The local APIC registers the driver uses.
pub struct LapicRegs {
    pub apic_id: u32,
    pub tpr: u32,
    pub eoi: u32,
    pub spivr: u32,
    /// In-service register: bit `v % 32` of word `v / 32` for vector `v`.
    pub isr: Vec<u32>,
    /// Trigger mode register.
    pub tmr: Vec<u32>,
    /// Interrupt request register.
    pub irr: Vec<u32>,
    pub icr_lo: u32,
    pub icr_hi: u32,
    pub lvt_timer: u32,
    pub lvt_lint0: u32,
    pub lvt_lint1: u32,
    pub lvt_err: u32,
    pub tmrdiv: u32,
}

/// Bit `vector` of an eight-word vector bitmap.
pub open spec fn vector_bit(words: Seq<u32>, vector: int) -> bool {
    (words[vector / 32] >> ((vector % 32) as u32)) & 1 == 1
}

/// The lowest vector whose in-service bit is set, if any.
pub open spec fn lowest_in_service(isr: Seq<u32>, v: int) -> bool {
    &&& 0 <= v < 256
    &&& vector_bit(isr, v)
    &&& forall|u: int| 0 <= u < v ==> !#[trigger] vector_bit(isr, u)
}

/// The local APIC driver.
pub struct X86_64Lapic {
    pub regs: LapicRegs,
}

impl X86_64Lapic {
    pub open spec fn wf(&self) -> bool {
        &&& self.regs.isr@.len() == 8
        &&& self.regs.tmr@.len() == 8
        &&& self.regs.irr@.len() == 8
    }

    /// The delivery-status bit of the command register: an IPI is still
    /// being sent.
    pub open spec fn ipi_busy(&self) -> bool {
        (self.regs.icr_lo >> 12u32) & 1 == 1
    }

    /// The driver over `regs`, initialised.
    pub fn new(regs: LapicRegs) -> (r: Self)
        requires
            regs.isr@.len() == 8,
            regs.tmr@.len() == 8,
            regs.irr@.len() == 8,
        ensures
            r.wf(),
            r.regs.lvt_timer == LAPIC_TIMER_VECTOR | TIMER_MODE_PERIODIC,
            r.regs.lvt_lint0 == 0b111,
            r.regs.lvt_lint1 == 0x400,
            r.regs.lvt_err == LVT_MASK,
            r.regs.tpr == 0,
            r.regs.tmrdiv == TMRDIV_DIV16,
            r.regs.spivr == 0x1FF,
            r.regs.apic_id == regs.apic_id,
            r.regs.isr@ == regs.isr@,
            r.regs.irr@ == regs.irr@,
            r.regs.icr_lo == regs.icr_lo,
            r.regs.icr_hi == regs.icr_hi,
    {
        let mut lapic = X86_64Lapic { regs };
        lapic.init();
        lapic
    }

    /// Mask every LVT entry, accept every priority, programme the timer
    /// (divide by 16, periodic, vector 0x40), set LINT0 to ExtINT and
    /// LINT1 to NMI, and enable the APIC with spurious vector 0xFF.
    pub fn init(&mut self)
        requires
            old(self).wf(),
        ensures
            final(self).wf(),
            final(self).regs.lvt_timer == LAPIC_TIMER_VECTOR | TIMER_MODE_PERIODIC,
            final(self).regs.lvt_lint0 == 0b111,
            final(self).regs.lvt_lint1 == 0x400,
            final(self).regs.lvt_err == LVT_MASK,
            final(self).regs.tpr == 0,
            final(self).regs.tmrdiv == TMRDIV_DIV16,
            final(self).regs.spivr == 0x1FF,
            final(self).regs.apic_id == old(self).regs.apic_id,
            final(self).regs.eoi == old(self).regs.eoi,
            final(self).regs.isr@ == old(self).regs.isr@,
            final(self).regs.tmr@ == old(self).regs.tmr@,
            final(self).regs.irr@ == old(self).regs.irr@,
            final(self).regs.icr_lo == old(self).regs.icr_lo,
            final(self).regs.icr_hi == old(self).regs.icr_hi,
    {
        self.regs.lvt_timer = LVT_MASK;
        self.regs.lvt_lint0 = LVT_MASK;
        self.regs.lvt_lint1 = LVT_MASK;
        self.regs.lvt_err = LVT_MASK;
        self.regs.tpr = 0;
        self.regs.tmrdiv = TMRDIV_DIV16;
        self.regs.lvt_timer = LAPIC_TIMER_VECTOR | TIMER_MODE_PERIODIC;
        self.regs.lvt_lint0 = 0b111;
        // LINT1 delivers NMIs (delivery mode 0b100 in bits 8-10).
        self.regs.lvt_lint1 = 0x400;
        // Spurious vector 0xFF with the software-enable bit (bit 8).
        self.regs.spivr = 0x1FF;
    }

    /// Acknowledge the current interrupt.
    pub fn eoi(&mut self)
        ensures
            final(self).regs.eoi == 0,
            final(self).regs.spivr == old(self).regs.spivr,
            final(self).regs.tpr == old(self).regs.tpr,
            final(self).regs.isr@ == old(self).regs.isr@,
            final(self).regs.irr@ == old(self).regs.irr@,
            final(self).regs.tmr@ == old(self).regs.tmr@,
            final(self).regs.icr_lo == old(self).regs.icr_lo,
            final(self).regs.icr_hi == old(self).regs.icr_hi,
            final(self).regs.apic_id == old(self).regs.apic_id,
    {
        self.regs.eoi = 0;
    }

    /// This processor's APIC ID (ID register bits 24-31).
    pub fn apic_id(&self) -> (r: u32)
        ensures
            r == self.regs.apic_id >> 24u32,
            r < 256,
    {
        proof {
            let a = self.regs.apic_id;
            assert((a >> 24u32) & 0xFFu32 == a >> 24u32 && a >> 24u32 < 256) by (bit_vector);
        }
        (self.regs.apic_id >> 24) & 0xFF
    }

    /// Whether `vector` is being serviced.
    pub fn is_in_service(&self, vector: u32) -> (r: bool)
        requires
            self.wf(),
            vector < 256,
        ensures
            r == vector_bit(self.regs.isr@, vector as int),
    {
        let idx = (vector / 32) as usize;
        let bit = vector % 32;
        (self.regs.isr[idx] >> bit) & 1 == 1
    }

    /// Whether `vector` is pending.
    pub fn is_pending(&self, vector: u32) -> (r: bool)
        requires
            self.wf(),
            vector < 256,
        ensures
            r == vector_bit(self.regs.irr@, vector as int),
    {
        let idx = (vector / 32) as usize;
        let bit = vector % 32;
        (self.regs.irr[idx] >> bit) & 1 == 1
    }

    /// Send an IPI: destination first, then vector and delivery mode,
    /// which starts the send. The previous IPI must have left.
    pub fn send_ipi_raw(&mut self, dest_apic_id: u32, vector: u32, delivery_mode: u32)
        requires
            !old(self).ipi_busy(),
        ensures
            final(self).regs.icr_hi == dest_apic_id << 24u32,
            final(self).regs.icr_lo == vector | (delivery_mode << 8u32),
            final(self).regs.isr@ == old(self).regs.isr@,
            final(self).regs.irr@ == old(self).regs.irr@,
            final(self).regs.tmr@ == old(self).regs.tmr@,
            final(self).regs.spivr == old(self).regs.spivr,
            final(self).regs.tpr == old(self).regs.tpr,
            final(self).regs.apic_id == old(self).regs.apic_id,
    {
        self.regs.icr_hi = dest_apic_id << 24;
        self.regs.icr_lo = vector | (delivery_mode << 8);
    }

    /// Send INIT, level-triggered, to every APIC including this one.
    pub fn send_init_ipi_all(&mut self)
        requires
            !old(self).ipi_busy(),
        ensures
            final(self).regs.icr_hi == 0,
            final(self).regs.icr_lo == 0xC4500,
            final(self).regs.isr@ == old(self).regs.isr@,
            final(self).regs.irr@ == old(self).regs.irr@,
            final(self).regs.tmr@ == old(self).regs.tmr@,
            final(self).regs.spivr == old(self).regs.spivr,
            final(self).regs.tpr == old(self).regs.tpr,
            final(self).regs.apic_id == old(self).regs.apic_id,
    {
        self.regs.icr_hi = 0;
        // INIT delivery (5 in bits 8-10), level assert (bit 14), all
        // including self (bits 18-19).
        self.regs.icr_lo = 0xC4500;
    }

    /// Interrupts reach the local APIC through the I/O APIC or its own
    /// LVT entries, which `init` programmes; enabling one here changes
    /// nothing.
    pub fn enable_interrupt(&mut self, config: InterruptConfig)
        ensures
            *final(self) == *old(self),
    {
    }

    /// Nothing to disable at the local APIC; see `enable_interrupt`.
    pub fn disable_interrupt(&mut self, descriptor: InterruptDescriptor)
        ensures
            *final(self) == *old(self),
    {
    }

    /// The interrupt being serviced: the lowest in-service vector. The
    /// spurious vector is never reported, and with nothing in service
    /// there is none.
    pub fn read_active_interrupt(&self) -> (r: Option<InterruptDescriptor>)
        requires
            self.wf(),
        ensures
            r matches Some(d) ==> exists|v: int| #[trigger]
                lowest_in_service(self.regs.isr@, v) && v != SPURIOUS_VECTOR && d == InterruptDescriptor::Spi(
                    v as usize,
                ),
            r is None ==> forall|v: int| #[trigger]
                lowest_in_service(self.regs.isr@, v) ==> v == SPURIOUS_VECTOR,
    {
        let mut vector: u32 = 0;
        while vector < 256
            invariant
                self.wf(),
                vector <= 256,
                forall|u: int| 0 <= u < vector ==> !#[trigger] vector_bit(self.regs.isr@, u),
            decreases 256 - vector,
        {
            if self.is_in_service(vector) {
                assert(lowest_in_service(self.regs.isr@, vector as int));
                if vector == SPURIOUS_VECTOR {
                    return None;
                }
                return Some(InterruptDescriptor::Spi(vector as usize));
            }
            vector = vector + 1;
        }
        None
    }

    /// Send IPI 0 (fixed delivery) to the APIC `target_cpu_id`.
    pub fn raise_ipi(&mut self, target_cpu_id: usize)
        requires
            !old(self).ipi_busy(),
        ensures
            final(self).regs.icr_hi == (target_cpu_id as u32) << 24u32,
            final(self).regs.icr_lo == 0,
            final(self).regs.isr@ == old(self).regs.isr@,
            final(self).regs.irr@ == old(self).regs.irr@,
            final(self).regs.tmr@ == old(self).regs.tmr@,
            final(self).regs.spivr == old(self).regs.spivr,
            final(self).regs.tpr == old(self).regs.tpr,
            final(self).regs.apic_id == old(self).regs.apic_id,
    {
        self.send_ipi_raw(target_cpu_id as u32, 0, DELIVERY_FIXED);
        assert(0u32 | (0u32 << 8u32) == 0u32) by (bit_vector);
    }

    /// Accept every priority and (re-)enable the APIC on this core.
    pub fn enable_core(&mut self, cpu_id: usize)
        ensures
            final(self).regs.tpr == 0,
            final(self).regs.spivr == 0x1FF,
            final(self).regs.isr@ == old(self).regs.isr@,
            final(self).regs.irr@ == old(self).regs.irr@,
            final(self).regs.tmr@ == old(self).regs.tmr@,
            final(self).regs.icr_lo == old(self).regs.icr_lo,
            final(self).regs.icr_hi == old(self).regs.icr_hi,
            final(self).regs.apic_id == old(self).regs.apic_id,
    {
        self.regs.tpr = 0;
        self.regs.spivr = 0x1FF;
    }

    /// x86_64 takes no interrupt configuration from a device tree.
    pub fn parse_fdt_interrupt_regs(&self, cells: &[u32]) -> (r: Result<InterruptConfig, KernelError>)
        ensures
            r == Err::<InterruptConfig, KernelError>(KernelError::NotSupported),
    {
        Err(KernelError::NotSupported)
    }
}

/// Map one page of device registers at physical `base` into the kernel
/// MMIO window; the result is its virtual address.
pub fn map_device_page<A: PageAllocator, M: PageTableMapper>(
    kspc: &mut X86_64KernelAddressSpace,
    ctx: &mut MappingContext<A, M>,
    base: u64,
) -> (r: Result<u64, KernelError>)
    requires
        old(kspc).wf(),
        old(ctx).wf(),
        base % 4096 == 0,
        base + 0x1000 <= 0x1_0000_0000_0000,
        old(kspc).mmio_next() + 0x1000 <= u64_limit(),
    ensures
        final(kspc).wf(),
        final(ctx).wf(),
        preserves_valid(old(ctx).mapper.tables(), final(ctx).mapper.tables()),
        r is Ok ==> r->Ok_0 == old(kspc).mmio_next() && final(kspc).mmio_next() == old(kspc).mmio_next() + 0x1000,
        r is Ok ==> mapped_prefix(final(ctx).mapper.tables(), old(kspc).root(), r->Ok_0, base, 0x1000, (PtePermissions { read: true, write: true, execute: false, user: false, cow: false })),
        r is Err ==> final(kspc).mmio_next() == old(kspc).mmio_next(),
        old(kspc).mmio_slot_free(old(ctx).mapper.tables()) && old(ctx).can_extend(3) ==> r is Ok,
{
    let region = PhysMemoryRegion::new(base, 0x1000);
    proof {
        assert(mappable_start(region) == base);
        assert(mappable_end(region) == base + 0x1000);
    }
    kspc.map_mmio(region, ctx)
}

/// Bring up the local APIC: map its registers into the kernel MMIO
/// window and initialise the driver over them (`regs`). The result is
/// the mapped address and the driver.
pub fn x86_64_lapic_init<A: PageAllocator, M: PageTableMapper>(
    kspc: &mut X86_64KernelAddressSpace,
    ctx: &mut MappingContext<A, M>,
    regs: LapicRegs,
) -> (r: Result<(u64, X86_64Lapic), KernelError>)
    requires
        old(kspc).wf(),
        old(ctx).wf(),
        old(kspc).mmio_next() + 0x1000 <= u64_limit(),
        regs.isr@.len() == 8,
        regs.tmr@.len() == 8,
        regs.irr@.len() == 8,
    ensures
        final(kspc).wf(),
        final(ctx).wf(),
        preserves_valid(old(ctx).mapper.tables(), final(ctx).mapper.tables()),
        r matches Ok((va, lapic)) ==> va == old(kspc).mmio_next() && lapic.wf() && lapic.regs.spivr == 0x1FF
            && lapic.regs.tpr == 0 && lapic.regs.lvt_timer == LAPIC_TIMER_VECTOR | TIMER_MODE_PERIODIC,
        old(kspc).mmio_slot_free(old(ctx).mapper.tables()) && old(ctx).can_extend(3) ==> r is Ok,
{
    let va = map_device_page(kspc, ctx, LAPIC_BASE_PHYS)?;
    let lapic = X86_64Lapic::new(regs);
    Ok((va, lapic))
}

} // verus!
