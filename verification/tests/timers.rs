use moss::error::{KernelError, ErrorMessage};
use moss::interrupts::{InterruptDescriptor, TriggerMode};
use moss::timers::{
    hpet_frequency, hpet_interrupt_config, hpet_timer_setup, lapic_timer_setup, ApicTimer, HpetRegs, HpetTimer,
    Instant, LapicTimer, LapicTimerRegs, LocalApic, LocalApicRegs,
};

fn hpet_regs(period_fs: u64, counter: u64) -> HpetRegs {
    HpetRegs {
        capabilities: (period_fs << 32) | (2 << 8) | 0x01,
        config: 0x3,
        interrupt_status: 0,
        main_counter: counter,
        timer0_config: 0x4008 | 0x4,
        timer0_comparator: 0,
    }
}

#[test]
fn hpet_capability_fields() {
    let r = hpet_regs(10_000_000, 0);
    assert_eq!(r.counter_period_fs(), 10_000_000);
    assert_eq!(r.revision_id(), 1);
    assert_eq!(r.num_timers(), 2);
}

#[test]
fn hpet_frequency_from_period() {
    assert_eq!(hpet_frequency(10_000_000), 100_000_000);
    assert_eq!(hpet_frequency(69_841_279), 14_318_179);
    assert_eq!(hpet_frequency(0), 10_000_000);
}

#[test]
fn hpet_setup_arms_first_interrupt_five_ms_out() {
    let t = hpet_timer_setup(hpet_regs(10_000_000, 1000), true).unwrap();
    assert_eq!(t.frequency, 100_000_000);
    assert_eq!(t.regs.config, 0x1);
    assert_eq!(t.regs.interrupt_status, 1);
    assert_eq!(t.regs.timer0_comparator, 1000 + 500_000);
    assert_eq!(t.regs.timer0_config, 0x4);
    assert_eq!(t.now(), Instant::new(1000, 100_000_000));
}

#[test]
fn hpet_needs_an_interrupt_controller() {
    assert!(matches!(hpet_timer_setup(hpet_regs(10_000_000, 0), false), Err(KernelError::Other(ErrorMessage::HpetNoInterruptRoot))));
}

#[test]
fn hpet_schedule_and_cancel() {
    let mut t = HpetTimer { regs: hpet_regs(10_000_000, 0), frequency: 100 };
    t.schedule_interrupt(Some(Instant::new(777, 100)));
    assert_eq!(t.regs.timer0_comparator, 777);
    assert_eq!(t.regs.timer0_config & 0x4, 0x4);
    t.schedule_interrupt(None);
    assert_eq!(t.regs.timer0_config & 0x4, 0);
    assert_eq!(t.regs.timer0_comparator, 777);
}

#[test]
fn hpet_timer_line() {
    let c = hpet_interrupt_config();
    assert_eq!(c.descriptor, InterruptDescriptor::Spi(2));
    assert_eq!(c.trigger, TriggerMode::LevelHigh);
}

fn lapic_timer_regs() -> LapicTimerRegs {
    LapicTimerRegs { lvt_timer: 0, initial_count: 0, current_count: 0, divide_config: 0 }
}

#[test]
fn lapic_timer_setup_is_periodic() {
    let t = lapic_timer_setup(lapic_timer_regs(), true).unwrap();
    assert_eq!(t.regs.divide_config, 0b011);
    assert_eq!(t.regs.lvt_timer, 0x140);
    assert_eq!(t.regs.initial_count, 1_000_000);
    assert_eq!(t.ticks, 0);
    assert!(lapic_timer_setup(lapic_timer_regs(), false).is_err());
}

#[test]
fn lapic_timer_one_shot_counts_the_remaining_ticks() {
    let mut t = LapicTimer { regs: lapic_timer_regs(), frequency: 1_000_000, ticks: 10 };
    t.schedule_interrupt(Some(Instant::new(25, 1_000_000)));
    assert_eq!(t.regs.lvt_timer, 0x40);
    assert_eq!(t.regs.initial_count, 15);
}

#[test]
fn lapic_timer_arms_a_past_deadline_for_the_next_tick() {
    let mut t = LapicTimer { regs: lapic_timer_regs(), frequency: 1_000_000, ticks: 10 };
    t.schedule_interrupt(Some(Instant::new(7, 1_000_000)));
    assert_eq!(t.regs.lvt_timer, 0x40);
    assert_eq!(t.regs.initial_count, 1);
}

#[test]
fn lapic_timer_count_saturates_at_32_bits() {
    let mut t = LapicTimer { regs: lapic_timer_regs(), frequency: 1_000_000, ticks: 0 };
    t.schedule_interrupt(Some(Instant::new(0x1_0000_0005, 1_000_000)));
    assert_eq!(t.regs.initial_count, 0xFFFF_FFFF);
}

#[test]
fn lapic_timer_cancel_masks() {
    let mut t = LapicTimer { regs: lapic_timer_regs(), frequency: 1_000_000, ticks: 0 };
    t.regs.lvt_timer = 0x40;
    t.schedule_interrupt(None);
    assert_eq!(t.regs.lvt_timer, 0x2040);
}

#[test]
fn lapic_timer_tick_counter_wraps() {
    let mut t = LapicTimer { regs: lapic_timer_regs(), frequency: 1_000_000, ticks: u64::MAX };
    t.handle_irq(InterruptDescriptor::Spi(0x40));
    assert_eq!(t.ticks, 0);
    t.handle_irq(InterruptDescriptor::Spi(0x40));
    assert_eq!(t.now(), Instant::new(1, 1_000_000));
}

fn apic_regs() -> LocalApicRegs {
    LocalApicRegs { svr: 0x0F, divide: 0, lvt_timer: 0, initial_count: 0, current_count: 99, eoi: 7 }
}

#[test]
fn local_apic_registers() {
    let mut a = LocalApic::new(0xffff_8000_fee0_0000, apic_regs());
    a.init();
    assert_eq!(a.regs.svr, 0x1FF);
    a.setup_timer(0x20);
    assert_eq!(a.regs.divide, 3);
    assert_eq!(a.regs.lvt_timer, 0x20);
    a.set_timer_count(1234);
    assert_eq!(a.regs.initial_count, 1234);
    assert_eq!(a.get_timer_current(), 99);
    a.eoi();
    assert_eq!(a.regs.eoi, 0);
}

#[test]
fn apic_timer_countdowns() {
    let mut t = ApicTimer::new(LocalApic::new(0, apic_regs()));
    assert_eq!(t.freq, 100_000_000);
    assert_eq!(t.now(42), Instant::new(42, 2_000_000_000));
    t.schedule_interrupt(Some(Instant::new(1000, 2_000_000_000)), 1000);
    assert_eq!(t.apic.regs.initial_count, 1);
    t.schedule_interrupt(Some(Instant::new(2_000_000_000 + 5, 2_000_000_000)), 5);
    assert_eq!(t.apic.regs.initial_count, 100_000_000);
    t.schedule_interrupt(Some(Instant::new(10, 2_000_000_000)), 5);
    assert_eq!(t.apic.regs.initial_count, 1);
    t.schedule_interrupt(None, 5);
    assert_eq!(t.apic.regs.initial_count, 0);
}
