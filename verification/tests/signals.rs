use moss::mmu::VDSO_BASE;
use moss::process::{setup_signal_frame, signal_return, AltStackSlot, SigAction, SIG_FRAME_SIZE};
use moss::ptrace::X86_64PtraceGPRegs;

fn interrupted() -> X86_64PtraceGPRegs {
    let mut r = X86_64PtraceGPRegs::new(0x40_1234, 0x7fff_ffff_e123);
    r.rax = 3;
    r.rcx = 9;
    r.rdi = 4;
    r
}

#[test]
fn frame_goes_below_the_stack_page_aligned() {
    let sa = SigAction { action: 0x40_5000, restorer: Some(0x40_6000), on_stack: false };
    let d = setup_signal_frame(&interrupted(), 10, sa, None);
    assert_eq!(d.frame_addr, (0x7fff_ffff_e123u64 - SIG_FRAME_SIZE) & !0xFFF);
    assert_eq!(d.frame_addr, 0x7fff_ffff_e000);
    assert_eq!(d.frame.uctx, interrupted());
    assert_eq!(d.frame.alt_stack_prev_addr, 0);
    assert_eq!(d.regs.rsp, d.frame_addr);
    assert_eq!(d.regs.rip, 0x40_5000);
    assert_eq!(d.regs.rcx, 0x40_6000);
    assert_eq!(d.regs.rdi, 10);
    assert_eq!(d.regs.rax, 3);
}

#[test]
fn vdso_trampoline_without_restorer() {
    let sa = SigAction { action: 0x40_5000, restorer: None, on_stack: false };
    let d = setup_signal_frame(&interrupted(), 2, sa, None);
    assert_eq!(d.regs.rcx, VDSO_BASE);
}

#[test]
fn alternate_stack_when_requested_and_available() {
    let slot = AltStackSlot { old_ptr: 0x9000_0000, data_ptr: 0x9000_0f00 };
    let sa = SigAction { action: 0x40_5000, restorer: None, on_stack: true };
    let d = setup_signal_frame(&interrupted(), 2, sa, Some(slot));
    assert_eq!(d.frame_addr, 0x9000_0f00);
    assert_eq!(d.frame.alt_stack_prev_addr, 0x9000_0000);
    let not_requested = setup_signal_frame(&interrupted(), 2, SigAction { on_stack: false, ..sa }, Some(slot));
    assert_eq!(not_requested.frame_addr, 0x7fff_ffff_e000);
}

#[test]
fn sigreturn_restores_the_interrupted_registers() {
    let slot = AltStackSlot { old_ptr: 0x9000_0000, data_ptr: 0x9000_0f00 };
    let sa = SigAction { action: 0x40_5000, restorer: None, on_stack: true };
    let d = setup_signal_frame(&interrupted(), 2, sa, Some(slot));
    assert_eq!(signal_return(&d.frame), (interrupted(), Some(0x9000_0000)));
    let d = setup_signal_frame(&interrupted(), 2, SigAction { on_stack: false, ..sa }, None);
    assert_eq!(signal_return(&d.frame), (interrupted(), None));
}
