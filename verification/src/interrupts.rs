//! Interrupt routing: descriptors, the I/O APIC redirection table and
//! the pending-vector slot of the legacy controller.
use vstd::prelude::*;
use crate::mmu::PAGE_OFFSET;
use crate::devices::{PortIo, PortAccess};
use crate::timers::{LocalApic, LocalApicRegs};
use crate::error::KernelError;
use crate::address::u64_limit;
use crate::lapic::map_device_page;
use crate::mmu::X86_64KernelAddressSpace;
use crate::pg_tables::{PageAllocator, PageTableMapper, MappingContext, preserves_valid};

verus! {

/// Which interrupt a controller is asked about.
#[derive(Debug, Clone, Copy, PartialEq, Eq, Structural)]
pub enum InterruptDescriptor {
    /// Shared peripheral interrupt (an I/O APIC line).
    Spi(usize),
    /// Per-processor interrupt.
    Ppi(usize),
    /// Inter-processor interrupt.
    Ipi(usize),
}

/// Trigger condition of an interrupt line.
#[derive(Debug, Clone, Copy, PartialEq, Eq, Structural)]
pub enum TriggerMode {
    EdgeRising,
    EdgeFalling,
    LevelHigh,
    LevelLow,
}

/// An interrupt together with its trigger mode.
#[derive(Debug, Clone, Copy, PartialEq, Eq, Structural)]
pub struct InterruptConfig {
    pub descriptor: InterruptDescriptor,
    pub trigger: TriggerMode,
}

/// Record that `vector` is waiting to be serviced.
pub fn set_pending_vector(pending: &mut Option<u8>, vector: u8)
    ensures
        *final(pending) == Some(vector),
{
    *pending = Some(vector);
}

/// Take the waiting vector, leaving none.
pub fn take_pending_vector(pending: &mut Option<u8>) -> (r: Option<u8>)
    ensures
        r == *old(pending),
        *final(pending) == None::<u8>,
{
    let r = *pending;
    *pending = None;
    r
}

/// Physical base of the I/O APIC registers.
pub const IOAPIC_PHYS_BASE: u64 = 0xFEC0_0000;
/// Index of the low word of redirection entry 0.
pub const IOREDTBL_BASE: u32 = 0x10;
/// Mask bit of a redirection entry's low word.
pub const IOREDTBL_MASK: u32 = 0x1_0000;

/// A write to an indirectly addressed I/O APIC register.
#[derive(Debug, Clone, Copy, PartialEq, Eq, Structural)]
pub struct RegisterWrite {
    pub index: u32,
    pub value: u32,
}

/// Minimal I/O APIC accessor through the kernel linear map.
pub struct IoApic {
    pub base: u64,
}

impl IoApic {
    /// The accessor for the standard I/O APIC at 0xFEC0_0000.
    pub fn new() -> (r: Self)
        ensures
            r.base == PAGE_OFFSET + IOAPIC_PHYS_BASE,
    {
        IoApic { base: PAGE_OFFSET + IOAPIC_PHYS_BASE }
    }

    /// The writes that route line `gsi` to `vector` on the APIC `dest_id`
    /// (fixed delivery, physical destination, edge, active high,
    /// unmasked): the high word first, so no half-written entry is live.
    pub fn route_irq(&self, gsi: u8, vector: u8, dest_id: u8) -> (r: Vec<RegisterWrite>)
        ensures
            r@ == seq![
                RegisterWrite { index: (IOREDTBL_BASE + 2 * gsi + 1) as u32, value: (dest_id as u32 * 0x100_0000) as u32 },
                RegisterWrite { index: (IOREDTBL_BASE + 2 * gsi) as u32, value: vector as u32 },
            ],
    {
        let lo_reg = IOREDTBL_BASE + 2 * gsi as u32;
        let hi_reg = lo_reg + 1;
        proof {
            assert((dest_id as u32) << 24u32 == dest_id as u32 * 0x100_0000) by (bit_vector);
        }
        let hi_val: u32 = (dest_id as u32) << 24;
        let lo_val: u32 = vector as u32;
        let mut w: Vec<RegisterWrite> = Vec::new();
        w.push(RegisterWrite { index: hi_reg, value: hi_val });
        w.push(RegisterWrite { index: lo_reg, value: lo_val });
        proof {
            assert(w@ =~= seq![
                RegisterWrite { index: (IOREDTBL_BASE + 2 * gsi + 1) as u32, value: (dest_id as u32 * 0x100_0000) as u32 },
                RegisterWrite { index: (IOREDTBL_BASE + 2 * gsi) as u32, value: vector as u32 },
            ]);
        }
        w
    }

    /// The write that masks line `gsi`.
    pub fn mask_irq(&self, gsi: u8) -> (r: RegisterWrite)
        ensures
            r == (RegisterWrite { index: (IOREDTBL_BASE + 2 * gsi) as u32, value: IOREDTBL_MASK }),
    {
        RegisterWrite { index: IOREDTBL_BASE + 2 * gsi as u32, value: IOREDTBL_MASK }
    }
}

/// Number of I/O APIC indirect registers the driver addresses.
pub const IOAPIC_REGISTERS: usize = 0x40;
/// Redirection entries this driver manages at most.
pub const MAX_REDIRECT_ENTRIES: usize = 24;
pub const IOAPIC_ID: u32 = 0x00;
pub const IOAPIC_VER: u32 = 0x01;
pub const IOAPIC_REDIR_BASE: u32 = 0x10;
/// Trigger-mode bit of a redirection entry: set for level, clear for edge.
pub const REDTBL_TRIGGER_LEVEL: u32 = 0x8000;
/// Polarity bit of a redirection entry: clear for active high.
pub const REDTBL_POLARITY_LOW: u32 = 0x2000;
pub const REDTBL_MASK_DISABLED: u32 = 0x1_0000;

/// The I/O APIC register window: the select register and the indirect
/// registers it selects.
pub struct IoApicRegs {
    pub ioregsel: u32,
    pub window: Vec<u32>,
}

/// The I/O APIC driver over its register window.
pub struct X86_64IoApic {
    pub regs: IoApicRegs,
    /// APIC ID of the local APIC interrupts are delivered to, if known.
    pub lapic_id: Option<u32>,
}

/// Low word of a redirection entry delivering `vector` with `trigger`:
/// fixed delivery, active-high polarity (bit 13 clear), the trigger-mode
/// bit 15 set for level triggering, bit 16 set to keep it masked.
pub open spec fn redirection_low(vector: u32, trigger: TriggerMode, mask: bool) -> u32 {
    (vector & 0xFF) | (if trigger == TriggerMode::LevelHigh || trigger == TriggerMode::LevelLow {
        REDTBL_TRIGGER_LEVEL
    } else {
        0
    }) | (if mask { REDTBL_MASK_DISABLED } else { 0 })
}

/// High word of a redirection entry delivering to the local APIC
/// `dest_apic_id` (physical destination mode, four-bit APIC ID).
pub open spec fn redirection_high(dest_apic_id: u32) -> u32 {
    ((dest_apic_id & 0xF) * 0x100_0000) as u32
}

/// Number of redirection entries `init` masks, from the version register.
pub open spec fn managed_entries(ver: u32) -> int {
    let max_redir = ((ver >> 16u32) & 0xFF) as int;
    if max_redir + 1 < MAX_REDIRECT_ENTRIES {
        max_redir + 1
    } else {
        MAX_REDIRECT_ENTRIES as int
    }
}

impl X86_64IoApic {
    pub open spec fn wf(&self) -> bool {
        self.regs.window@.len() == IOAPIC_REGISTERS
    }

    /// The driver over `regs`, with every managed entry masked.
    pub fn new(regs: IoApicRegs, lapic_id: Option<u32>) -> (r: Self)
        requires
            regs.window@.len() == IOAPIC_REGISTERS,
        ensures
            r.wf(),
            r.lapic_id == lapic_id,
            forall|i: int|
                0 <= i < managed_entries(regs.window@[1]) ==> #[trigger] r.regs.window@[0x10 + 2 * i]
                    == regs.window@[0x10 + 2 * i] | REDTBL_MASK_DISABLED,
            forall|i: int|
                0 <= i < managed_entries(regs.window@[1]) ==> #[trigger] r.regs.window@[0x11 + 2 * i] == 0,
            forall|j: int|
                0 <= j < IOAPIC_REGISTERS && (j < 0x10 || j >= 0x10 + 2 * managed_entries(regs.window@[1]))
                    ==> #[trigger] r.regs.window@[j] == regs.window@[j],
    {
        let mut ioapic = X86_64IoApic { regs, lapic_id };
        ioapic.init();
        ioapic
    }

    /// Mask every managed redirection entry and clear its destination.
    pub fn init(&mut self)
        requires
            old(self).wf(),
        ensures
            final(self).wf(),
            final(self).lapic_id == old(self).lapic_id,
            forall|i: int|
                0 <= i < managed_entries(old(self).regs.window@[1]) ==> #[trigger] final(self).regs.window@[0x10 + 2 * i]
                    == old(self).regs.window@[0x10 + 2 * i] | REDTBL_MASK_DISABLED,
            forall|i: int|
                0 <= i < managed_entries(old(self).regs.window@[1]) ==> #[trigger] final(self).regs.window@[0x11 + 2 * i]
                    == 0,
            forall|j: int|
                0 <= j < IOAPIC_REGISTERS && (j < 0x10 || j >= 0x10 + 2 * managed_entries(old(self).regs.window@[1]))
                    ==> #[trigger] final(self).regs.window@[j] == old(self).regs.window@[j],
    {
        let _id = self.read_register(IOAPIC_ID);
        let ver = self.read_register(IOAPIC_VER);
        let max_redir32: u32 = (ver >> 16) & 0xFF;
        proof {
            assert((ver >> 16u32) & 0xFFu32 <= 0xFF) by (bit_vector);
        }
        let max_redir = max_redir32 as usize;
        let entries = if MAX_REDIRECT_ENTRIES < max_redir + 1 { MAX_REDIRECT_ENTRIES } else { max_redir + 1 };
        let ghost w0 = self.regs.window@;
        let mut i: usize = 0;
        while i < entries
            invariant
                self.wf(),
                self.lapic_id == old(self).lapic_id,
                w0 == old(self).regs.window@,
                ver == w0[1],
                entries == managed_entries(ver),
                i <= entries,
                forall|k: int|
                    0 <= k < i ==> #[trigger] self.regs.window@[0x10 + 2 * k] == w0[0x10 + 2 * k] | REDTBL_MASK_DISABLED,
                forall|k: int| 0 <= k < i ==> #[trigger] self.regs.window@[0x11 + 2 * k] == 0,
                forall|j: int|
                    0 <= j < IOAPIC_REGISTERS && (j < 0x10 || j >= 0x10 + 2 * i) ==> #[trigger] self.regs.window@[j] == w0[j],
            decreases entries - i,
        {
            let low_idx = IOAPIC_REDIR_BASE + (i as u32) * 2;
            let high_idx = low_idx + 1;
            let low = self.read_register(low_idx);
            self.write_register(low_idx, low | REDTBL_MASK_DISABLED);
            self.write_register(high_idx, 0);
            i = i + 1;
        }
    }

    /// Read indirect register `index`.
    pub fn read_register(&mut self, index: u32) -> (r: u32)
        requires
            old(self).wf(),
            index < IOAPIC_REGISTERS,
        ensures
            final(self).regs.window@ == old(self).regs.window@,
            final(self).regs.ioregsel == index,
            final(self).lapic_id == old(self).lapic_id,
            r == old(self).regs.window@[index as int],
    {
        self.regs.ioregsel = index;
        self.regs.window[index as usize]
    }

    /// Write indirect register `index`.
    pub fn write_register(&mut self, index: u32, value: u32)
        requires
            old(self).wf(),
            index < IOAPIC_REGISTERS,
        ensures
            final(self).regs.window@ == old(self).regs.window@.update(index as int, value),
            final(self).regs.ioregsel == index,
            final(self).lapic_id == old(self).lapic_id,
    {
        self.regs.ioregsel = index;
        self.regs.window.set(index as usize, value);
    }

    /// Program redirection entry `irq`: `vector`, fixed delivery, active
    /// high, the given trigger and mask, destination `dest_apic_id`.
    pub fn configure_redirection(&mut self, irq: usize, vector: u32, trigger: TriggerMode, mask: bool, dest_apic_id: u32)
        requires
            old(self).wf(),
            irq < MAX_REDIRECT_ENTRIES,
        ensures
            final(self).wf(),
            final(self).lapic_id == old(self).lapic_id,
            final(self).regs.window@ == old(self).regs.window@.update(
                0x10 + 2 * irq,
                redirection_low(vector, trigger, mask),
            ).update(0x11 + 2 * irq, redirection_high(dest_apic_id)),
    {
        let low_idx = IOAPIC_REDIR_BASE + (irq as u32) * 2;
        let high_idx = low_idx + 1;
        let mut low = vector & 0xFF;
        match trigger {
            TriggerMode::EdgeRising | TriggerMode::EdgeFalling => {
                low = low | 0;
            },
            TriggerMode::LevelHigh | TriggerMode::LevelLow => {
                low = low | REDTBL_TRIGGER_LEVEL;
            },
        }
        if mask {
            low = low | REDTBL_MASK_DISABLED;
        } else {
            low = low | 0;
        }
        self.write_register(low_idx, low);
        proof {
            assert((dest_apic_id & 0xFu32) << 24u32 == (dest_apic_id & 0xFu32) * 0x100_0000) by (bit_vector);
        }
        self.write_register(high_idx, (dest_apic_id & 0xF) << 24);
    }

    /// Mask redirection entry `irq`, keeping its other bits.
    pub fn mask_irq(&mut self, irq: usize)
        requires
            old(self).wf(),
            irq < MAX_REDIRECT_ENTRIES,
        ensures
            final(self).wf(),
            final(self).lapic_id == old(self).lapic_id,
            final(self).regs.window@ == old(self).regs.window@.update(
                0x10 + 2 * irq,
                old(self).regs.window@[0x10 + 2 * irq] | REDTBL_MASK_DISABLED,
            ),
    {
        let low_idx = IOAPIC_REDIR_BASE + (irq as u32) * 2;
        let low = self.read_register(low_idx);
        self.write_register(low_idx, low | REDTBL_MASK_DISABLED);
    }

    /// Unmask redirection entry `irq`, keeping its other bits.
    pub fn unmask_irq(&mut self, irq: usize)
        requires
            old(self).wf(),
            irq < MAX_REDIRECT_ENTRIES,
        ensures
            final(self).wf(),
            final(self).lapic_id == old(self).lapic_id,
            final(self).regs.window@ == old(self).regs.window@.update(
                0x10 + 2 * irq,
                old(self).regs.window@[0x10 + 2 * irq] & !REDTBL_MASK_DISABLED,
            ),
    {
        let low_idx = IOAPIC_REDIR_BASE + (irq as u32) * 2;
        let low = self.read_register(low_idx);
        self.write_register(low_idx, low & !REDTBL_MASK_DISABLED);
    }

    /// Route shared interrupt `spi` (I/O APIC line `spi`) to vector
    /// `spi + 32` on the local APIC, unmasked; other kinds and lines past
    /// the table are left alone.
    pub fn enable_interrupt(&mut self, config: InterruptConfig)
        requires
            old(self).wf(),
        ensures
            final(self).wf(),
            final(self).lapic_id == old(self).lapic_id,
            final(self).regs.window@ == (match config.descriptor {
                InterruptDescriptor::Spi(spi) => if spi < MAX_REDIRECT_ENTRIES {
                    old(self).regs.window@.update(
                        0x10 + 2 * spi,
                        redirection_low((spi + 32) as u32, config.trigger, false),
                    ).update(
                        0x11 + 2 * spi,
                        redirection_high(match old(self).lapic_id {
                            Some(id) => id,
                            None => 0u32,
                        }),
                    )
                } else {
                    old(self).regs.window@
                },
                _ => old(self).regs.window@,
            }),
    {
        match config.descriptor {
            InterruptDescriptor::Spi(spi) => {
                if spi < MAX_REDIRECT_ENTRIES {
                    let dest_id = match self.lapic_id {
                        Some(id) => id,
                        None => 0,
                    };
                    self.configure_redirection(spi, (spi + 32) as u32, config.trigger, false, dest_id);
                }
            },
            InterruptDescriptor::Ppi(_) | InterruptDescriptor::Ipi(_) => {},
        }
    }

    /// Mask shared interrupt `spi` if it is a line of the table.
    pub fn disable_interrupt(&mut self, descriptor: InterruptDescriptor)
        requires
            old(self).wf(),
        ensures
            final(self).wf(),
            final(self).lapic_id == old(self).lapic_id,
            final(self).regs.window@ == (match descriptor {
                InterruptDescriptor::Spi(spi) => if spi < MAX_REDIRECT_ENTRIES {
                    old(self).regs.window@.update(
                        0x10 + 2 * spi,
                        old(self).regs.window@[0x10 + 2 * spi] | REDTBL_MASK_DISABLED,
                    )
                } else {
                    old(self).regs.window@
                },
                _ => old(self).regs.window@,
            }),
    {
        if let InterruptDescriptor::Spi(spi) = descriptor {
            if spi < MAX_REDIRECT_ENTRIES {
                self.mask_irq(spi);
            }
        }
    }
}

/// Virtual address of the local APIC registers in the kernel map.
pub const LAPIC_VIRT_BASE: u64 = 0xffff_8000_fee0_0000;
/// Data ports of the two legacy 8259 PICs.
pub const PIC1_DATA: u16 = 0x21;
pub const PIC2_DATA: u16 = 0xA1;

/// The interrupt controller used before the APIC drivers: the local APIC
/// with interrupts handed over through a pending-vector slot.
pub struct X86InterruptController {
    pub lapic: LocalApic,
}

impl X86InterruptController {
    /// Mask every line of both legacy PICs, then enable the local APIC
    /// whose registers are `regs`.
    pub fn new<P: PortIo>(io: &mut P, regs: LocalApicRegs) -> (r: Self)
        ensures
            final(io).accesses() == old(io).accesses().push(PortAccess::Out(PIC1_DATA, 0xFF)).push(
                PortAccess::Out(PIC2_DATA, 0xFF),
            ),
            r.lapic.base == LAPIC_VIRT_BASE,
            r.lapic.regs == (LocalApicRegs { svr: regs.svr | 0x1FF, ..regs }),
    {
        io.outb(PIC1_DATA, 0xFF);
        io.outb(PIC2_DATA, 0xFF);
        let mut lapic = LocalApic::new(LAPIC_VIRT_BASE, regs);
        lapic.init();
        X86InterruptController { lapic }
    }

    /// The interrupt waiting in `pending`, taken out of the slot.
    pub fn read_active_interrupt(&mut self, pending: &mut Option<u8>) -> (r: Option<InterruptDescriptor>)
        ensures
            *final(pending) == None::<u8>,
            r == (match *old(pending) {
                Some(v) => Some(InterruptDescriptor::Spi(v as usize)),
                None => None,
            }),
    {
        match take_pending_vector(pending) {
            Some(v) => Some(InterruptDescriptor::Spi(v as usize)),
            None => None,
        }
    }

    /// Re-enable the local APIC on this core.
    pub fn enable_core(&mut self, cpu_id: usize)
        ensures
            final(self).lapic.base == old(self).lapic.base,
            final(self).lapic.regs == (LocalApicRegs { svr: old(self).lapic.regs.svr | 0x1FF, ..old(self).lapic.regs }),
    {
        self.lapic.init();
    }
}

impl X86_64IoApic {
    /// The I/O APIC has no interrupt acknowledge register: the local APIC
    /// reports the active interrupt.
    pub fn read_active_interrupt(&mut self) -> (r: Option<InterruptDescriptor>)
        ensures
            r is None,
            *final(self) == *old(self),
    {
        None
    }

    /// IPIs go through the local APIC.
    pub fn raise_ipi(&mut self, target_cpu_id: usize)
        ensures
            *final(self) == *old(self),
    {
    }

    /// The I/O APIC has no per-core state.
    pub fn enable_core(&mut self, cpu_id: usize)
        ensures
            *final(self) == *old(self),
    {
    }

    /// x86_64 takes no interrupt configuration from a device tree.
    pub fn parse_fdt_interrupt_regs(&self, cells: &[u32]) -> (r: Result<InterruptConfig, KernelError>)
        ensures
            r == Err::<InterruptConfig, KernelError>(KernelError::NotSupported),
    {
        Err(KernelError::NotSupported)
    }
}

/// Bring up the I/O APIC: map its registers into the kernel MMIO window
/// and build the driver over them (`regs`), every managed entry masked.
pub fn x86_64_ioapic_init<A: PageAllocator, M: PageTableMapper>(
    kspc: &mut X86_64KernelAddressSpace,
    ctx: &mut MappingContext<A, M>,
    regs: IoApicRegs,
    lapic_id: Option<u32>,
) -> (r: Result<(u64, X86_64IoApic), KernelError>)
    requires
        old(kspc).wf(),
        old(ctx).wf(),
        old(kspc).mmio_next() + 0x1000 <= u64_limit(),
        regs.window@.len() == IOAPIC_REGISTERS,
    ensures
        final(kspc).wf(),
        final(ctx).wf(),
        preserves_valid(old(ctx).mapper.tables(), final(ctx).mapper.tables()),
        r matches Ok((va, io)) ==> va == old(kspc).mmio_next() && io.wf() && io.lapic_id == lapic_id && (forall|i: int|
            0 <= i < managed_entries(regs.window@[1]) ==> #[trigger] io.regs.window@[0x10 + 2 * i] == regs.window@[0x10 + 2
                * i] | REDTBL_MASK_DISABLED),
        old(kspc).mmio_slot_free(old(ctx).mapper.tables()) && old(ctx).can_extend(3) ==> r is Ok,
{
    let va = map_device_page(kspc, ctx, IOAPIC_PHYS_BASE)?;
    let io = X86_64IoApic::new(regs, lapic_id);
    Ok((va, io))
}

/// Masking a line and then unmasking it leaves its entry as it was,
/// minus the mask bit: an entry that was unmasked is restored exactly,
/// and masking twice is masking once.
pub proof fn lemma_mask_then_unmask(low: u32)
    ensures
        (low | REDTBL_MASK_DISABLED) & !REDTBL_MASK_DISABLED == low & !REDTBL_MASK_DISABLED,
        low & REDTBL_MASK_DISABLED == 0 ==> (low | REDTBL_MASK_DISABLED) & !REDTBL_MASK_DISABLED == low,
        (low | REDTBL_MASK_DISABLED) | REDTBL_MASK_DISABLED == low | REDTBL_MASK_DISABLED,
{
    assert((low | 0x1_0000u32) & !0x1_0000u32 == low & !0x1_0000u32 && (low & 0x1_0000u32 == 0 ==> (low | 0x1_0000u32)
        & !0x1_0000u32 == low) && (low | 0x1_0000u32) | 0x1_0000u32 == low | 0x1_0000u32) by (bit_vector);
}

proof fn lemma_entry_word_fields(v: u32, level: bool, mask: bool, dest: u32)
    by (bit_vector)
    ensures
        ((dest & 0xFu32) * 0x100_0000u32) as u32 >> 24u32 == dest & 0xFu32,
        ((dest & 0xFu32) * 0x100_0000u32) as u32 & 0xF0FF_FFFFu32 == 0,
        ({
            let x = (v & 0xFFu32) | (if level { 0x8000u32 } else { 0u32 }) | (if mask { 0x1_0000u32 } else { 0u32 });
            &&& x & 0xFFu32 == v & 0xFFu32
            &&& (x & 0x8000u32 != 0) == level
            &&& (x & 0x1_0000u32 != 0) == mask
            &&& x & 0x2000u32 == 0
            &&& x & 0x700u32 == 0
            &&& x & 0x800u32 == 0
        }),
{
}

/// The low word of a programmed redirection entry: its vector byte is
/// the requested vector's low byte; the trigger-mode bit (15) is set
/// exactly for the level modes, `LevelHigh` and `LevelLow`, and clear
/// for the edge modes; the mask bit (16) is set exactly when asked;
/// delivery is fixed (bits 8 to 10 clear), the destination is physical
/// (bit 11 clear) and the polarity active high (bit 13 clear).
pub proof fn lemma_redirection_low_fields(vector: u32, trigger: TriggerMode, mask: bool)
    ensures
        redirection_low(vector, trigger, mask) & 0xFF == vector & 0xFF,
        (redirection_low(vector, trigger, mask) & 0x8000 != 0) <==> (trigger == TriggerMode::LevelHigh || trigger
            == TriggerMode::LevelLow),
        (redirection_low(vector, trigger, mask) & 0x1_0000 != 0) <==> mask,
        redirection_low(vector, trigger, mask) & 0x700 == 0,
        redirection_low(vector, trigger, mask) & 0x800 == 0,
        redirection_low(vector, trigger, mask) & 0x2000 == 0,
{
    lemma_entry_word_fields(vector, trigger == TriggerMode::LevelHigh || trigger == TriggerMode::LevelLow, mask, 0);
}

/// The high word of a programmed redirection entry names the destination
/// local APIC in bits 24 to 27 (the low four bits of its ID) and holds
/// nothing else.
pub proof fn lemma_redirection_high_fields(dest_apic_id: u32)
    ensures
        redirection_high(dest_apic_id) >> 24 == dest_apic_id & 0xF,
        redirection_high(dest_apic_id) & 0xF0FF_FFFF == 0,
{
    lemma_entry_word_fields(0, false, false, dest_apic_id);
}

} // verus!
