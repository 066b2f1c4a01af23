use moss::devices::{PortAccess, ScriptedPorts};
use moss::error::KernelError;
use moss::interrupts::{
    set_pending_vector, take_pending_vector, InterruptConfig, InterruptDescriptor, IoApic, IoApicRegs,
    RegisterWrite, TriggerMode, X86InterruptController, X86_64IoApic,
};
use moss::lapic::{LapicRegs, X86_64Lapic};
use moss::timers::LocalApicRegs;

fn lapic_regs(isr: Vec<u32>) -> LapicRegs {
    LapicRegs {
        apic_id: 0x0300_0000,
        tpr: 0xFF,
        eoi: 5,
        spivr: 0,
        isr,
        tmr: vec![0; 8],
        irr: vec![0, 0, 0x4, 0, 0, 0, 0, 0],
        icr_lo: 0,
        icr_hi: 0,
        lvt_timer: 0,
        lvt_lint0: 0,
        lvt_lint1: 0,
        lvt_err: 0,
        tmrdiv: 0,
    }
}

#[test]
fn lapic_init_programs_the_local_vectors() {
    let l = X86_64Lapic::new(lapic_regs(vec![0; 8]));
    assert_eq!(l.regs.lvt_timer, 0x40 | 0x2_0000);
    assert_eq!(l.regs.lvt_lint0, 0b111);
    assert_eq!(l.regs.lvt_lint1, 0x400);
    assert_eq!(l.regs.lvt_err, 0x1_0000);
    assert_eq!(l.regs.tpr, 0);
    assert_eq!(l.regs.tmrdiv, 3);
    assert_eq!(l.regs.spivr, 0x1FF);
    assert_eq!(l.apic_id(), 3);
}

#[test]
fn lapic_in_service_and_pending_bits() {
    let l = X86_64Lapic::new(lapic_regs(vec![0, 1 << 1, 0, 0, 0, 0, 0, 0]));
    assert!(l.is_in_service(33));
    assert!(!l.is_in_service(32));
    assert!(l.is_pending(66));
    assert!(!l.is_pending(65));
}

#[test]
fn lapic_reports_the_lowest_vector_in_service() {
    let l = X86_64Lapic::new(lapic_regs(vec![0, 0, (1 << 3) | (1 << 7), 0, 0, 0, 0, 0]));
    assert_eq!(l.read_active_interrupt(), Some(InterruptDescriptor::Spi(67)));
}

#[test]
fn lapic_never_reports_the_spurious_vector() {
    let l = X86_64Lapic::new(lapic_regs(vec![0, 0, 0, 0, 0, 0, 0, 1 << 31]));
    assert_eq!(l.read_active_interrupt(), None);
    let idle = X86_64Lapic::new(lapic_regs(vec![0; 8]));
    assert_eq!(idle.read_active_interrupt(), None);
}

#[test]
fn lapic_ipis_and_eoi() {
    let mut l = X86_64Lapic::new(lapic_regs(vec![0; 8]));
    l.raise_ipi(2);
    assert_eq!(l.regs.icr_hi, 2 << 24);
    assert_eq!(l.regs.icr_lo, 0);
    l.send_ipi_raw(1, 0x30, 4);
    assert_eq!(l.regs.icr_lo, 0x430);
    l.send_init_ipi_all();
    assert_eq!(l.regs.icr_hi, 0);
    assert_eq!(l.regs.icr_lo, 0xC4500);
    l.eoi();
    assert_eq!(l.regs.eoi, 0);
    l.regs.tpr = 9;
    l.enable_core(0);
    assert_eq!(l.regs.tpr, 0);
    assert_eq!(l.parse_fdt_interrupt_regs(&[1, 2]), Err(KernelError::NotSupported));
}

fn ioapic_regs(max_redir: u32) -> IoApicRegs {
    let mut window = vec![0u32; 0x40];
    window[1] = (max_redir << 16) | 0x11;
    for i in 0..24usize {
        window[0x10 + 2 * i] = 0x30 + i as u32;
        window[0x11 + 2 * i] = 0xFF00_0000;
    }
    IoApicRegs { ioregsel: 0, window }
}

#[test]
fn ioapic_new_masks_the_entries_the_version_reports() {
    let io = X86_64IoApic::new(ioapic_regs(3), Some(1));
    for i in 0..4usize {
        assert_eq!(io.regs.window[0x10 + 2 * i], (0x30 + i as u32) | 0x1_0000);
        assert_eq!(io.regs.window[0x11 + 2 * i], 0);
    }
    assert_eq!(io.regs.window[0x18], 0x34);
    assert_eq!(io.regs.window[0x19], 0xFF00_0000);
}

#[test]
fn ioapic_masks_at_most_24_entries() {
    let io = X86_64IoApic::new(ioapic_regs(0xFF), None);
    assert_eq!(io.regs.window[0x10 + 2 * 23], (0x30 + 23) | 0x1_0000);
}

#[test]
fn ioapic_routes_a_shared_interrupt_to_its_vector() {
    let mut io = X86_64IoApic::new(ioapic_regs(23), Some(0x12));
    io.enable_interrupt(InterruptConfig { descriptor: InterruptDescriptor::Spi(4), trigger: TriggerMode::EdgeRising });
    assert_eq!(io.regs.window[0x18], 36);
    assert_eq!(io.regs.window[0x19], 0x2 << 24);
    io.disable_interrupt(InterruptDescriptor::Spi(4));
    assert_eq!(io.regs.window[0x18], 36 | 0x1_0000);
    io.unmask_irq(4);
    assert_eq!(io.regs.window[0x18], 36);
}

#[test]
fn ioapic_level_triggered_and_out_of_range_lines() {
    let mut io = X86_64IoApic::new(ioapic_regs(23), None);
    io.configure_redirection(2, 0x22, TriggerMode::LevelHigh, true, 1);
    assert_eq!(io.regs.window[0x14], 0x22 | 0x8000 | 0x1_0000);
    assert_eq!(io.regs.window[0x14] & 0x2000, 0);
    assert_eq!(io.regs.window[0x15], 1 << 24);
    let before = io.regs.window.clone();
    io.enable_interrupt(InterruptConfig { descriptor: InterruptDescriptor::Spi(30), trigger: TriggerMode::EdgeRising });
    io.enable_interrupt(InterruptConfig { descriptor: InterruptDescriptor::Ppi(1), trigger: TriggerMode::EdgeRising });
    assert_eq!(io.regs.window, before);
    assert_eq!(io.read_active_interrupt(), None);
}

#[test]
fn simple_ioapic_register_writes() {
    let io = IoApic::new();
    assert_eq!(io.base, 0xffff_8880_0000_0000 + 0xFEC0_0000);
    assert_eq!(
        io.route_irq(1, 0x21, 2),
        vec![RegisterWrite { index: 0x13, value: 2 << 24 }, RegisterWrite { index: 0x12, value: 0x21 }]
    );
    assert_eq!(io.mask_irq(1), RegisterWrite { index: 0x12, value: 0x1_0000 });
}

#[test]
fn pending_vector_slot() {
    let mut slot: Option<u8> = None;
    set_pending_vector(&mut slot, 0x21);
    assert_eq!(take_pending_vector(&mut slot), Some(0x21));
    assert_eq!(take_pending_vector(&mut slot), None);
}

#[test]
fn legacy_controller_masks_the_pics_and_reports_the_pending_vector() {
    let mut ports = ScriptedPorts::new(vec![]);
    let regs = LocalApicRegs { svr: 0, divide: 0, lvt_timer: 0, initial_count: 0, current_count: 0, eoi: 0 };
    let mut c = X86InterruptController::new(&mut ports, regs);
    assert_eq!(ports.log, vec![PortAccess::Out(0x21, 0xFF), PortAccess::Out(0xA1, 0xFF)]);
    assert_eq!(c.lapic.regs.svr, 0x1FF);
    let mut slot = Some(0x30u8);
    assert_eq!(c.read_active_interrupt(&mut slot), Some(InterruptDescriptor::Spi(0x30)));
    assert_eq!(slot, None);
    assert_eq!(c.read_active_interrupt(&mut slot), None);
}
