use moss::error::{KernelError, ErrorMessage, MapError};
use moss::interrupts::{x86_64_ioapic_init, IoApicRegs};
use moss::lapic::{x86_64_lapic_init, LapicRegs};
use moss::mmu::{setup_kern_addr_space, vdso_init, MMIO_BASE, VDSO_BASE};
use moss::permissions::PtePermissions;
use moss::pg_tables::{allocate_zeroed_table, translate_va};
use moss::table_arena::new_arena_context;
use moss::timers::{x86_64_hpet_init, x86_64_lapic_timer_init, HpetRegs, LapicTimerRegs};

fn lapic_regs() -> LapicRegs {
    LapicRegs {
        apic_id: 0,
        tpr: 0,
        eoi: 0,
        spivr: 0,
        isr: vec![0; 8],
        tmr: vec![0; 8],
        irr: vec![0; 8],
        icr_lo: 0,
        icr_hi: 0,
        lvt_timer: 0,
        lvt_lint0: 0,
        lvt_lint1: 0,
        lvt_err: 0,
        tmrdiv: 0,
    }
}

#[test]
fn devices_map_one_after_another_in_the_mmio_window() {
    let mut ctx = new_arena_context(0x1000_0000, 64);
    let root = allocate_zeroed_table(&mut ctx).unwrap();
    let mut kspc = kernel_space(root);
    let (lapic_va, lapic) = x86_64_lapic_init(&mut kspc, &mut ctx, lapic_regs()).unwrap();
    assert_eq!(lapic_va, MMIO_BASE);
    assert_eq!(lapic.regs.spivr, 0x1FF);
    let (io_va, io) = x86_64_ioapic_init(&mut kspc, &mut ctx, IoApicRegs { ioregsel: 0, window: vec![0; 0x40] }, Some(0)).unwrap();
    assert_eq!(io_va, MMIO_BASE + 0x1000);
    assert_eq!(io.regs.window[0x10], 0x1_0000);
    let hpet = HpetRegs { capabilities: 10_000_000 << 32, config: 0, interrupt_status: 0, main_counter: 0, timer0_config: 0, timer0_comparator: 0 };
    let (hpet_va, timer) = x86_64_hpet_init(&mut kspc, &mut ctx, hpet).unwrap();
    assert_eq!(hpet_va, MMIO_BASE + 0x2000);
    assert_eq!(timer.frequency, 100_000_000);
    assert_eq!(translate_va(&mut ctx.mapper, root, MMIO_BASE + 0x2010).unwrap(), Some((0xFED0_0010, PtePermissions::rw(false))));
    assert_eq!(translate_va(&mut ctx.mapper, root, MMIO_BASE + 0x1000).unwrap().map(|t| t.0), Some(0xFEC0_0000));
}

#[test]
fn timers_need_their_services() {
    let mut ctx = new_arena_context(0x1000_0000, 64);
    let root = allocate_zeroed_table(&mut ctx).unwrap();
    let mut kspc = kernel_space(root);
    let regs = LapicTimerRegs { lvt_timer: 0, initial_count: 0, current_count: 0, divide_config: 0 };
    assert!(matches!(x86_64_lapic_timer_init(&mut kspc, &mut ctx, regs, false), Err(KernelError::Other(ErrorMessage::LapicTimerNoInterruptRoot))));
    let (_, t) = x86_64_lapic_timer_init(&mut kspc, &mut ctx, regs, true).unwrap();
    assert_eq!(t.regs.lvt_timer, 0x140);
}

#[test]
fn mapping_failures_are_reported() {
    let mut ctx = new_arena_context(0x1000_0000, 1);
    let root = allocate_zeroed_table(&mut ctx).unwrap();
    let mut kspc = kernel_space(root);
    let regs = LapicTimerRegs { lvt_timer: 0, initial_count: 0, current_count: 0, divide_config: 0 };
    assert!(matches!(x86_64_lapic_timer_init(&mut kspc, &mut ctx, regs, true), Err(KernelError::Other(ErrorMessage::LapicTimerMapFailed))));
    assert!(matches!(x86_64_lapic_init(&mut kspc, &mut ctx, lapic_regs()), Err(KernelError::NoMemory)));
}

#[test]
fn vdso_is_mapped_user_read_execute() {
    let mut ctx = new_arena_context(0x1000_0000, 64);
    let root = allocate_zeroed_table(&mut ctx).unwrap();
    let mut kspc = kernel_space(root);
    vdso_init(&mut kspc, &mut ctx, 0x20_0000, 0x20_0800).unwrap();
    assert_eq!(translate_va(&mut ctx.mapper, root, VDSO_BASE + 0x7ff).unwrap(), Some((0x20_07ff, PtePermissions::rx(true))));
    assert_eq!(translate_va(&mut ctx.mapper, root, VDSO_BASE + 0x1000).unwrap(), None);
}

fn kernel_space(root: u64) -> moss::mmu::X86_64KernelAddressSpace {
    let mut slot = None;
    setup_kern_addr_space(&mut slot, root).unwrap();
    slot.unwrap()
}

#[test]
fn the_kernel_address_space_is_installed_once() {
    let mut slot = None;
    assert_eq!(setup_kern_addr_space(&mut slot, 0x1000), Ok(()));
    assert_eq!(slot.as_ref().map(|k| k.table_pa()), Some(0x1000));
    assert_eq!(setup_kern_addr_space(&mut slot, 0x2000), Err(KernelError::InUse));
    assert_eq!(slot.as_ref().map(|k| k.table_pa()), Some(0x1000));
}

#[test]
fn vdso_of_three_pages_is_mapped_whole() {
    let mut ctx = new_arena_context(0x1000_0000, 4);
    let root = moss::pg_tables::allocate_zeroed_table(&mut ctx).unwrap();
    let mut kspc = kernel_space(root);
    vdso_init(&mut kspc, &mut ctx, 0x20_0800, 0x20_2800).unwrap();
    assert_eq!(translate_va(&mut ctx.mapper, root, VDSO_BASE + 0x2fff).unwrap(), Some((0x20_2fff, PtePermissions::rx(true))));
    assert_eq!(vdso_init(&mut kspc, &mut ctx, 0x20_0800, 0x20_2800), Err(KernelError::Mapping(MapError::AlreadyMapped)));
}
