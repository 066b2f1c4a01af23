use moss::exceptions::{
    plan_dispatch, return_to_user, DispatchAction, ExceptionState, InterruptRoute,
};
use moss::ptrace::X86_64PtraceGPRegs;

fn frame(vector: u64, cs: u64) -> ExceptionState {
    ExceptionState {
        r15: 15, r14: 14, r13: 13, r12: 12, rbp: 5, rbx: 3, r11: 11, r10: 10, r9: 9, r8: 8,
        rax: 1, rcx: 2, rdx: 4, rsi: 6, rdi: 7,
        vector_num: vector, error_code: 0x6,
        rip: 0x40_1000, cs, rflags: 0x202, rsp: 0x7fff_0000, ss: 0x2b,
    }
}

#[test]
fn user_page_fault_saves_the_user_registers() {
    let p = plan_dispatch(&frame(14, 0x33), true);
    assert!(p.from_user);
    assert_eq!(p.action, DispatchAction::Fault(InterruptRoute::PageFault));
    let saved = p.saved_user.unwrap();
    assert_eq!(saved.rip, 0x40_1000);
    assert_eq!(saved.rax, 1);
    assert_eq!(saved.r15, 15);
    assert_eq!(saved.orig_rax, 0);
}

#[test]
fn kernel_events_save_nothing() {
    let p = plan_dispatch(&frame(13, 0x08), true);
    assert!(!p.from_user);
    assert!(p.saved_user.is_none());
    assert_eq!(p.action, DispatchAction::Fault(InterruptRoute::GeneralProtection));
}

#[test]
fn irqs_need_a_root_controller() {
    assert_eq!(plan_dispatch(&frame(40, 0x08), true).action, DispatchAction::Irq);
    assert_eq!(plan_dispatch(&frame(40, 0x08), false).action, DispatchAction::NoInterruptRoot);
    assert_eq!(plan_dispatch(&frame(255, 0x08), true).action, DispatchAction::Irq);
}

#[test]
fn syscall_gate_and_unhandled_vectors() {
    assert_eq!(plan_dispatch(&frame(0x80, 0x33), true).action, DispatchAction::Syscall);
    assert_eq!(plan_dispatch(&frame(8, 0x08), true).action, DispatchAction::Fault(InterruptRoute::DoubleFault));
    assert_eq!(plan_dispatch(&frame(6, 0x08), true).action, DispatchAction::Unhandled);
    assert_eq!(plan_dispatch(&frame(300, 0x08), true).action, DispatchAction::Unhandled);
}

#[test]
fn returning_to_user_rewrites_the_frame() {
    let mut f = frame(14, 0x33);
    let saved = f.to_user_regs();
    let mut next = X86_64PtraceGPRegs::new(0x50_0000, 0x6000_0000);
    next.cs = 0x33;
    return_to_user(&mut f, &next);
    assert_eq!(f.rip, 0x50_0000);
    assert_eq!(f.rsp, 0x6000_0000);
    assert_eq!(f.rax, 0);
    assert_eq!(f.vector_num, 0);
    let mut g = frame(14, 0x33);
    return_to_user(&mut g, &saved);
    assert_eq!(g, ExceptionState { vector_num: 0, error_code: 0, ..frame(14, 0x33) });
}

#[test]
fn register_dump_text() {
    let mut f = frame(14, 0x33);
    f.rax = 0xdead_beef;
    f.vector_num = 1234;
    f.error_code = 0x1f;
    let text = f.dump();
    let lines: Vec<&str> = text.split('\n').collect();
    assert_eq!(lines[0], "RAX: 0x00000000deadbeef, RBX: 0x0000000000000003");
    assert_eq!(lines[4], "R8:  0x0000000000000008, R9:  0x0000000000000009");
    assert_eq!(lines[8], "");
    assert_eq!(lines[9], "RIP: 0x0000000000401000, CS:  0x0000000000000033");
    assert_eq!(lines[10], "RFLAGS: 0x0000000000000202, SS: 0x000000000000002b");
    assert_eq!(lines[11], "Vector: 1234, Error code: 0x000000000000001f");
    assert_eq!(lines[12], "");
    assert_eq!(lines.len(), 13);
    f.vector_num = 0;
    assert!(f.dump().contains("Vector: 0, Error"));
}
