//! Timer drivers: the HPET, the local APIC timer and the TSC-driven APIC
//! timer, each over a model of its register block (every field holds
//! the value last written to, or read from, that register).
use vstd::prelude::*;
use crate::address::{PhysMemoryRegion, u64_limit, mappable_start, mappable_end};
use crate::error::{KernelError, ErrorMessage};
use crate::interrupts::{InterruptConfig, InterruptDescriptor, TriggerMode};
use crate::mmu::X86_64KernelAddressSpace;
use crate::pg_tables::{PageAllocator, PageTableMapper, MappingContext, preserves_valid, mapped_prefix};
use crate::permissions::PtePermissions;
use crate::lapic::{map_device_page, LAPIC_BASE_PHYS};

verus! {

/// A point in time: a tick count of a clock running at `freq` Hz.
#[derive(Debug, Clone, Copy, PartialEq, Eq, Structural)]
pub struct Instant {
    pub ticks: u64,
    pub freq: u64,
}

impl Instant {
    pub fn new(ticks: u64, freq: u64) -> (r: Self)
        ensures
            r == (Instant { ticks, freq }),
    {
        Instant { ticks, freq }
    }

    pub fn ticks(&self) -> (r: u64)
        ensures
            r == self.ticks,
    {
        self.ticks
    }
}

// ── HPET ────────────────────────────────────────────────────────────

/// Physical base of the HPET registers.
pub const HPET_BASE_PHYS: u64 = 0xFED0_0000;
/// Size of the HPET register block.
pub const HPET_MMIO_SIZE: u64 = 0x1000;
/// General configuration: counter enable.
pub const HPET_CFG_ENABLE: u64 = 0x1;
/// General configuration: legacy replacement routing.
pub const HPET_CFG_LEG_RT: u64 = 0x2;
/// Timer 0 configuration: interrupt enable.
pub const HPET_T0_CFG_ENABLE: u64 = 0x4;
/// Timer 0 configuration: periodic mode.
pub const HPET_T0_CFG_PERIODIC: u64 = 0x8;
/// Timer 0 configuration: FSB delivery.
pub const HPET_T0_CFG_FSB: u64 = 0x4000;
/// I/O APIC line timer 0 is wired to.
pub const HPET_TIMER0_IRQ: usize = 2;
/// Counter frequency assumed when the capabilities report a zero period.
pub const HPET_FALLBACK_FREQ: u64 = 10_000_000;

/// The HPET registers the driver uses.
#[derive(Debug, Clone, Copy, PartialEq, Eq, Structural)]
pub struct HpetRegs {
    pub capabilities: u64,
    pub config: u64,
    pub interrupt_status: u64,
    pub main_counter: u64,
    pub timer0_config: u64,
    pub timer0_comparator: u64,
}

proof fn lemma_capability_fields(c: u64)
    by (bit_vector)
    ensures
        ((c >> 32u64) & 0xFFFF_FFFFu64) as u32 == c >> 32u64,
        (c & 0xFFu64) as u8 == c % 256,
        ((c >> 8u64) & 0x1Fu64) as u8 == (c / 256) % 32,
{
}

impl HpetRegs {
    /// Counter period in femtoseconds (capabilities bits 32-63).
    pub fn counter_period_fs(&self) -> (r: u32)
        ensures
            r == self.capabilities >> 32u64,
    {
        proof {
            lemma_capability_fields(self.capabilities);
        }
        ((self.capabilities >> 32) & 0xFFFF_FFFF) as u32
    }

    /// Revision ID (capabilities bits 0-7).
    pub fn revision_id(&self) -> (r: u8)
        ensures
            r == self.capabilities % 256,
    {
        proof {
            lemma_capability_fields(self.capabilities);
        }
        (self.capabilities & 0xFF) as u8
    }

    /// Number of timers minus one (capabilities bits 8-12).
    pub fn num_timers(&self) -> (r: u8)
        ensures
            r == (self.capabilities / 256) % 32,
    {
        proof {
            lemma_capability_fields(self.capabilities);
        }
        ((self.capabilities >> 8) & 0x1F) as u8
    }
}

/// Counter frequency for a period of `period_fs` femtoseconds.
pub open spec fn hpet_frequency_spec(period_fs: u32) -> u64 {
    if period_fs > 0 {
        (1_000_000_000_000_000u64 / period_fs as u64) as u64
    } else {
        HPET_FALLBACK_FREQ
    }
}

/// Counter frequency in Hz: 10^15 / period, or 10 MHz for a zero period.
pub fn hpet_frequency(period_fs: u32) -> (r: u64)
    ensures
        r == hpet_frequency_spec(period_fs),
{
    if period_fs > 0 {
        1_000_000_000_000_000u64 / period_fs as u64
    } else {
        HPET_FALLBACK_FREQ
    }
}

/// The registers after the driver's setup: counter enabled with legacy
/// routing off, timer 0 one-shot (periodic and FSB delivery off), the
/// timer 0 interrupt acknowledged.
pub open spec fn hpet_initialised(r: HpetRegs) -> HpetRegs {
    HpetRegs {
        config: HPET_CFG_ENABLE & !HPET_CFG_LEG_RT,
        interrupt_status: 1,
        timer0_config: r.timer0_config & !(HPET_T0_CFG_PERIODIC | HPET_T0_CFG_FSB),
        ..r
    }
}

/// The HPET driver: its registers and counter frequency.
pub struct HpetTimer {
    pub regs: HpetRegs,
    pub frequency: u64,
}

impl HpetTimer {
    /// Set the counter running, one-shot, with timer 0 acknowledged.
    pub fn init(&mut self)
        ensures
            final(self).regs == hpet_initialised(old(self).regs),
            final(self).frequency == old(self).frequency,
    {
        self.regs.config = HPET_CFG_ENABLE;
        let cfg = self.regs.config;
        self.regs.config = cfg & !HPET_CFG_LEG_RT;
        let t0cfg = self.regs.timer0_config;
        self.regs.timer0_config = t0cfg & !(HPET_T0_CFG_PERIODIC | HPET_T0_CFG_FSB);
        self.regs.interrupt_status = 1;
    }

    /// The main counter.
    pub fn counter(&self) -> (r: u64)
        ensures
            r == self.regs.main_counter,
    {
        self.regs.main_counter
    }

    /// The current time: the main counter at the counter frequency.
    pub fn now(&self) -> (r: Instant)
        ensures
            r == (Instant { ticks: self.regs.main_counter, freq: self.frequency }),
    {
        Instant { ticks: self.counter(), freq: self.frequency }
    }

    /// Arm timer 0 to fire when the counter reaches `when`'s ticks, or
    /// disable it for `None`.
    pub fn schedule_interrupt(&mut self, when: Option<Instant>)
        ensures
            final(self).frequency == old(self).frequency,
            final(self).regs == (match when {
                Some(i) => (HpetRegs {
                    timer0_comparator: i.ticks,
                    timer0_config: old(self).regs.timer0_config | HPET_T0_CFG_ENABLE,
                    ..old(self).regs
                }),
                None => (HpetRegs { timer0_config: old(self).regs.timer0_config & !HPET_T0_CFG_ENABLE, ..old(self).regs }),
            }),
    {
        match when {
            Some(instant) => {
                self.regs.timer0_comparator = instant.ticks;
                let cfg = self.regs.timer0_config;
                self.regs.timer0_config = cfg | HPET_T0_CFG_ENABLE;
            },
            None => {
                let cfg = self.regs.timer0_config;
                self.regs.timer0_config = cfg & !HPET_T0_CFG_ENABLE;
            },
        }
    }
}

/// The interrupt the HPET claims: timer 0 on I/O APIC line 2, level high.
pub fn hpet_interrupt_config() -> (r: InterruptConfig)
    ensures
        r == (InterruptConfig { descriptor: InterruptDescriptor::Spi(HPET_TIMER0_IRQ), trigger: TriggerMode::LevelHigh }),
{
    InterruptConfig { descriptor: InterruptDescriptor::Spi(HPET_TIMER0_IRQ), trigger: TriggerMode::LevelHigh }
}

/// Map the HPET registers into the kernel MMIO window; the result is the
/// virtual address of the register block.
pub fn map_hpet<A: PageAllocator, M: PageTableMapper>(kspc: &mut X86_64KernelAddressSpace, ctx: &mut MappingContext<A, M>) -> (r: Result<u64, KernelError>)
    requires
        old(kspc).wf(),
        old(ctx).wf(),
        old(kspc).mmio_next() + HPET_MMIO_SIZE <= u64_limit(),
    ensures
        final(kspc).wf(),
        final(ctx).wf(),
        preserves_valid(old(ctx).mapper.tables(), final(ctx).mapper.tables()),
        r is Ok ==> r->Ok_0 == old(kspc).mmio_next() && final(kspc).mmio_next() == old(kspc).mmio_next() + HPET_MMIO_SIZE,
        r is Ok ==> mapped_prefix(final(ctx).mapper.tables(), old(kspc).root(), r->Ok_0, HPET_BASE_PHYS, HPET_MMIO_SIZE as nat, (PtePermissions { read: true, write: true, execute: false, user: false, cow: false })),
        r is Err ==> final(kspc).mmio_next() == old(kspc).mmio_next(),
        old(kspc).mmio_slot_free(old(ctx).mapper.tables()) && old(ctx).can_extend(3) ==> r is Ok,
{
    let region = PhysMemoryRegion::new(HPET_BASE_PHYS, HPET_MMIO_SIZE);
    proof {
        assert(mappable_start(region) == HPET_BASE_PHYS);
        assert(mappable_end(region) == HPET_BASE_PHYS + HPET_MMIO_SIZE);
    }
    kspc.map_mmio(region, ctx)
}

/// The HPET driver over the freshly mapped `regs`: the frequency comes
/// from the capabilities, the hardware is set up as `init` does, and the
/// first interrupt is armed 5 ms (frequency / 200 ticks) after the
/// current counter value. Without an interrupt controller to deliver
/// timer 0 the driver cannot be installed.
pub fn hpet_timer_setup(regs: HpetRegs, interrupt_root_ready: bool) -> (r: Result<HpetTimer, KernelError>)
    requires
        regs.main_counter + hpet_frequency_spec((regs.capabilities >> 32u64) as u32) / 200 <= u64::MAX,
    ensures
        !interrupt_root_ready ==> r == Err::<HpetTimer, KernelError>(KernelError::Other(ErrorMessage::HpetNoInterruptRoot)),
        interrupt_root_ready ==> (r matches Ok(t) && t.frequency == hpet_frequency_spec((regs.capabilities >> 32u64) as u32)
            && t.regs == (HpetRegs {
            timer0_comparator: (regs.main_counter + t.frequency / 200) as u64,
            timer0_config: hpet_initialised(regs).timer0_config | HPET_T0_CFG_ENABLE,
            ..hpet_initialised(regs)
        })),
{
    let frequency = hpet_frequency(regs.counter_period_fs());
    if !interrupt_root_ready {
        return Err(KernelError::Other(ErrorMessage::HpetNoInterruptRoot));
    }
    let mut timer = HpetTimer { regs, frequency };
    timer.init();
    let now_ticks = timer.counter();
    let deadline_ticks = now_ticks + frequency / 200;
    timer.schedule_interrupt(Some(Instant { ticks: deadline_ticks, freq: frequency }));
    Ok(timer)
}

// ── Local APIC timer ────────────────────────────────────────────────

/// Vector the local APIC timer raises.
pub const LAPIC_TIMER_VECTOR: u32 = 0x40;
/// LVT timer mode: periodic.
pub const LVT_MODE_PERIODIC: u32 = 1;
/// LVT timer mode: one-shot.
pub const LVT_MODE_ONE_SHOT: u32 = 0;
/// LVT timer mask bit as this driver sets it.
pub const LVT_TIMER_MASK: u32 = 0x2000;
/// Divide configuration: divide by 16.
pub const TMRDIV_DIV16: u32 = 0b011;
/// Tick frequency the driver assumes.
pub const LAPIC_TIMER_DEFAULT_FREQUENCY: u64 = 1_000_000;

/// The local APIC timer registers.
#[derive(Debug, Clone, Copy, PartialEq, Eq, Structural)]
pub struct LapicTimerRegs {
    pub lvt_timer: u32,
    pub initial_count: u32,
    pub current_count: u32,
    pub divide_config: u32,
}

/// The one-shot count for a deadline `delta` ticks away: at least one
/// tick, at most `u32::MAX`.
pub open spec fn one_shot_count(delta: int) -> u32 {
    if delta <= 0 {
        1
    } else if delta > 0xFFFF_FFFF {
        0xFFFF_FFFF
    } else {
        delta as u32
    }
}

/// The local APIC timer driver: registers, frequency and the count of
/// timer interrupts seen.
pub struct LapicTimer {
    pub regs: LapicTimerRegs,
    pub frequency: u64,
    pub ticks: u64,
}

impl LapicTimer {
    /// The current time: interrupts seen, at the timer frequency.
    pub fn now(&self) -> (r: Instant)
        ensures
            r == (Instant { ticks: self.ticks, freq: self.frequency }),
    {
        Instant { ticks: self.ticks, freq: self.frequency }
    }

    /// Arm a one-shot interrupt `when.ticks - now` ticks ahead, or mask
    /// the timer for `None`. The count register holds at least one tick
    /// (a deadline already reached fires on the next tick) and at most
    /// `u32::MAX`.
    pub fn schedule_interrupt(&mut self, when: Option<Instant>)
        ensures
            final(self).frequency == old(self).frequency,
            final(self).ticks == old(self).ticks,
            final(self).regs == (match when {
                Some(i) => (LapicTimerRegs {
                    lvt_timer: LAPIC_TIMER_VECTOR,
                    initial_count: one_shot_count(i.ticks - old(self).ticks),
                    ..old(self).regs
                }),
                None => (LapicTimerRegs { lvt_timer: old(self).regs.lvt_timer | LVT_TIMER_MASK, ..old(self).regs }),
            }),
    {
        match when {
            Some(instant) => {
                let current = self.ticks;
                let ticks_until = instant.ticks.saturating_sub(current);
                let count: u32 = if ticks_until == 0 {
                    1
                } else if ticks_until > 0xFFFF_FFFF {
                    0xFFFF_FFFF
                } else {
                    ticks_until as u32
                };
                // One-shot mode (mode 0 in bits 8-12) on the timer vector.
                self.regs.lvt_timer = LAPIC_TIMER_VECTOR;
                self.regs.initial_count = count;
            },
            None => {
                let lvt_entry = self.regs.lvt_timer | LVT_TIMER_MASK;
                self.regs.lvt_timer = lvt_entry;
            },
        }
    }

    /// Count one timer interrupt (the counter wraps).
    pub fn handle_irq(&mut self, desc: InterruptDescriptor)
        ensures
            final(self).ticks == (old(self).ticks + 1) % 0x1_0000_0000_0000_0000,
            final(self).regs == old(self).regs,
            final(self).frequency == old(self).frequency,
    {
        self.ticks = self.ticks.wrapping_add(1);
    }
}

/// The interrupt the local APIC timer claims: its vector, edge-triggered.
pub fn lapic_timer_interrupt_config() -> (r: InterruptConfig)
    ensures
        r == (InterruptConfig {
            descriptor: InterruptDescriptor::Spi(LAPIC_TIMER_VECTOR as usize),
            trigger: TriggerMode::EdgeRising,
        }),
{
    InterruptConfig { descriptor: InterruptDescriptor::Spi(LAPIC_TIMER_VECTOR as usize), trigger: TriggerMode::EdgeRising }
}

/// The local APIC timer driver over the freshly mapped `regs`: divide by
/// 16, periodic mode on its vector, an initial count of one tick period,
/// no interrupts counted yet. It needs an interrupt controller to claim
/// its vector from.
pub fn lapic_timer_setup(regs: LapicTimerRegs, interrupt_root_ready: bool) -> (r: Result<LapicTimer, KernelError>)
    ensures
        !interrupt_root_ready ==> r == Err::<LapicTimer, KernelError>(
            KernelError::Other(ErrorMessage::LapicTimerNoInterruptRoot),
        ),
        interrupt_root_ready ==> (r matches Ok(t) && t.frequency == LAPIC_TIMER_DEFAULT_FREQUENCY && t.ticks == 0
            && t.regs == (LapicTimerRegs {
            divide_config: TMRDIV_DIV16,
            lvt_timer: 0x140,
            initial_count: LAPIC_TIMER_DEFAULT_FREQUENCY as u32,
            ..regs
        })),
{
    if !interrupt_root_ready {
        return Err(KernelError::Other(ErrorMessage::LapicTimerNoInterruptRoot));
    }
    let frequency = LAPIC_TIMER_DEFAULT_FREQUENCY;
    let mut regs = regs;
    regs.divide_config = TMRDIV_DIV16;
    // Periodic mode (mode 1 in bits 8-12) on the timer vector.
    let lvt_entry: u32 = 0x140;
    regs.lvt_timer = lvt_entry;
    regs.initial_count = frequency as u32;
    Ok(LapicTimer { regs, frequency, ticks: 0 })
}

// ── TSC-driven APIC timer ───────────────────────────────────────────

/// The local APIC registers the TSC-driven timer uses.
#[derive(Debug, Clone, Copy, PartialEq, Eq, Structural)]
pub struct LocalApicRegs {
    pub svr: u32,
    pub divide: u32,
    pub lvt_timer: u32,
    pub initial_count: u32,
    pub current_count: u32,
    pub eoi: u32,
}

/// A local APIC reached through its register block at `base`.
pub struct LocalApic {
    pub base: u64,
    pub regs: LocalApicRegs,
}

impl LocalApic {
    pub fn new(base: u64, regs: LocalApicRegs) -> (r: Self)
        ensures
            r.base == base,
            r.regs == regs,
    {
        LocalApic { base, regs }
    }

    /// Enable the APIC with spurious vector 0xFF.
    pub fn init(&mut self)
        ensures
            final(self).base == old(self).base,
            final(self).regs == (LocalApicRegs { svr: old(self).regs.svr | 0x1FF, ..old(self).regs }),
    {
        let svr = self.regs.svr;
        self.regs.svr = svr | 0x100 | 0xFF;
        assert(svr | 0x100u32 | 0xFFu32 == svr | 0x1FFu32) by (bit_vector);
    }

    /// Divide by 16 and one-shot mode on `vector`.
    pub fn setup_timer(&mut self, vector: u8)
        ensures
            final(self).base == old(self).base,
            final(self).regs == (LocalApicRegs { divide: 0x03, lvt_timer: vector as u32, ..old(self).regs }),
    {
        self.regs.divide = 0x03;
        self.regs.lvt_timer = vector as u32;
    }

    /// Start a countdown of `count`.
    pub fn set_timer_count(&mut self, count: u32)
        ensures
            final(self).base == old(self).base,
            final(self).regs == (LocalApicRegs { initial_count: count, ..old(self).regs }),
    {
        self.regs.initial_count = count;
    }

    /// The countdown's current value.
    pub fn get_timer_current(&self) -> (r: u32)
        ensures
            r == self.regs.current_count,
    {
        self.regs.current_count
    }

    /// Signal end of interrupt.
    pub fn eoi(&mut self)
        ensures
            final(self).base == old(self).base,
            final(self).regs == (LocalApicRegs { eoi: 0, ..old(self).regs }),
    {
        self.regs.eoi = 0;
    }
}

/// Frequency of the time-stamp counter the APIC timer is measured by.
pub const TSC_FREQUENCY: u64 = 2_000_000_000;
/// Frequency assumed for the APIC timer.
pub const APIC_TIMER_FREQUENCY: u64 = 100_000_000;

/// An APIC timer whose time is the TSC.
pub struct ApicTimer {
    pub apic: LocalApic,
    pub freq: u64,
}

/// APIC ticks until `target` from `now` (TSC ticks at 2 GHz, APIC at
/// `freq`), truncated to the 32-bit count register, and at least 1.
pub open spec fn apic_countdown(target: u64, now: u64, freq: u64) -> u32 {
    let diff = if target >= now { target - now } else { 0 };
    let ticks = ((diff * freq) / (TSC_FREQUENCY as int)) as u32;
    if ticks == 0 { 1 } else { ticks }
}

impl ApicTimer {
    pub fn new(apic: LocalApic) -> (r: Self)
        ensures
            r.apic == apic,
            r.freq == APIC_TIMER_FREQUENCY,
    {
        ApicTimer { apic, freq: APIC_TIMER_FREQUENCY }
    }

    /// The current time, from the time-stamp counter value `tsc`.
    pub fn now(&self, tsc: u64) -> (r: Instant)
        ensures
            r == (Instant { ticks: tsc, freq: TSC_FREQUENCY }),
    {
        Instant::new(tsc, TSC_FREQUENCY)
    }

    /// Program the countdown for `when`, the current TSC being `tsc`: a
    /// deadline already reached fires after one tick, a later one after
    /// `apic_countdown` ticks, and `None` stops the timer (count 0).
    pub fn schedule_interrupt(&mut self, when: Option<Instant>, tsc: u64)
        requires
            old(self).freq <= APIC_TIMER_FREQUENCY,
        ensures
            final(self).freq == old(self).freq,
            final(self).apic.base == old(self).apic.base,
            final(self).apic.regs == (LocalApicRegs {
                initial_count: match when {
                    Some(t) => if t.ticks <= tsc {
                        1
                    } else {
                        apic_countdown(t.ticks, tsc, old(self).freq)
                    },
                    None => 0,
                },
                ..old(self).apic.regs
            }),
    {
        match when {
            Some(target) => {
                let now = self.now(tsc);
                if target.ticks <= now.ticks {
                    self.apic.set_timer_count(1);
                } else {
                    let diff = target.ticks().saturating_sub(now.ticks());
                    proof {
                        assert(diff as int * self.freq as int <= 0xFFFF_FFFF_FFFF_FFFF * 100_000_000) by (nonlinear_arith)
                            requires diff <= 0xFFFF_FFFF_FFFF_FFFFu64, self.freq <= 100_000_000;
                    }
                    let apic_ticks = (diff as u128 * self.freq as u128 / 2_000_000_000) as u32;
                    let count = if apic_ticks > 1 { apic_ticks } else { 1 };
                    self.apic.set_timer_count(count);
                }
            },
            None => {
                self.apic.set_timer_count(0);
            },
        }
    }
}

/// Bring up the HPET as the system timer: map its registers and build
/// the driver over them (`regs`, see `hpet_timer_setup`). It is called
/// once the root interrupt controller is set up to deliver timer 0 and
/// before any system timer is installed; the boot sequence stops with a
/// panic before calling it otherwise.
pub fn x86_64_hpet_init<A: PageAllocator, M: PageTableMapper>(
    kspc: &mut X86_64KernelAddressSpace,
    ctx: &mut MappingContext<A, M>,
    regs: HpetRegs,
) -> (r: Result<(u64, HpetTimer), KernelError>)
    requires
        old(kspc).wf(),
        old(ctx).wf(),
        old(kspc).mmio_next() + HPET_MMIO_SIZE <= u64_limit(),
        regs.main_counter + hpet_frequency_spec((regs.capabilities >> 32u64) as u32) / 200 <= u64::MAX,
    ensures
        final(kspc).wf(),
        final(ctx).wf(),
        preserves_valid(old(ctx).mapper.tables(), final(ctx).mapper.tables()),
        r matches Ok((va, t)) ==> {
            &&& va == old(kspc).mmio_next()
            &&& mapped_prefix(final(ctx).mapper.tables(), old(kspc).root(), va, HPET_BASE_PHYS, HPET_MMIO_SIZE as nat, (PtePermissions { read: true, write: true, execute: false, user: false, cow: false }))
            &&& t.frequency == hpet_frequency_spec((regs.capabilities >> 32u64) as u32)
            &&& t.regs == (HpetRegs {
                timer0_comparator: (regs.main_counter + t.frequency / 200) as u64,
                timer0_config: hpet_initialised(regs).timer0_config | HPET_T0_CFG_ENABLE,
                ..hpet_initialised(regs)
            })
        },
        r is Err ==> final(kspc).mmio_next() == old(kspc).mmio_next(),
        old(kspc).mmio_slot_free(old(ctx).mapper.tables()) && old(ctx).can_extend(3) ==> r is Ok,
{
    let va = map_hpet(kspc, ctx)?;
    let timer = hpet_timer_setup(regs, true)?;
    Ok((va, timer))
}

/// Bring up the local APIC timer: map the local APIC registers (a failure
/// is `Other(LapicTimerMapFailed)`) and build the driver over them (`regs`, see
/// `lapic_timer_setup`).
pub fn x86_64_lapic_timer_init<A: PageAllocator, M: PageTableMapper>(
    kspc: &mut X86_64KernelAddressSpace,
    ctx: &mut MappingContext<A, M>,
    regs: LapicTimerRegs,
    interrupt_root_ready: bool,
) -> (r: Result<(u64, LapicTimer), KernelError>)
    requires
        old(kspc).wf(),
        old(ctx).wf(),
        old(kspc).mmio_next() + 0x1000 <= u64_limit(),
    ensures
        final(kspc).wf(),
        final(ctx).wf(),
        preserves_valid(old(ctx).mapper.tables(), final(ctx).mapper.tables()),
        r matches Ok((va, t)) ==> {
            &&& va == old(kspc).mmio_next()
            &&& interrupt_root_ready
            &&& mapped_prefix(final(ctx).mapper.tables(), old(kspc).root(), va, LAPIC_BASE_PHYS, 0x1000, (PtePermissions { read: true, write: true, execute: false, user: false, cow: false }))
            &&& t.ticks == 0
            &&& t.frequency == LAPIC_TIMER_DEFAULT_FREQUENCY
            &&& t.regs == (LapicTimerRegs {
                divide_config: TMRDIV_DIV16,
                lvt_timer: 0x140,
                initial_count: LAPIC_TIMER_DEFAULT_FREQUENCY as u32,
                ..regs
            })
        },
        !interrupt_root_ready ==> r is Err,
        old(kspc).mmio_slot_free(old(ctx).mapper.tables()) && old(ctx).can_extend(3) && interrupt_root_ready ==> r is Ok,
{
    let va = match map_device_page(kspc, ctx, LAPIC_BASE_PHYS) {
        Ok(v) => v,
        Err(_) => {
            return Err(KernelError::Other(ErrorMessage::LapicTimerMapFailed));
        },
    };
    let timer = lapic_timer_setup(regs, interrupt_root_ready)?;
    Ok((va, timer))
}

} // verus!
