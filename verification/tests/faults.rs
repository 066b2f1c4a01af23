use moss::exceptions::{
    decode_error_code, default_handler, efer_with_syscalls, format_pf_error_code, handle_device_not_available,
    handle_double_fault, handle_gp_fault, handle_invalid_opcode, handle_machine_check, handle_page_fault,
    has_error_code, msr_halves, route_vector, star_msr_value, ExceptionState, FatalFault, InterruptRoute,
};

fn state(vector: u64, error_code: u64) -> ExceptionState {
    ExceptionState {
        r15: 0, r14: 0, r13: 0, r12: 0, rbp: 0, rbx: 0, r11: 0, r10: 0, r9: 0, r8: 0,
        rax: 0, rcx: 0, rdx: 0, rsi: 0, rdi: 0,
        vector_num: vector, error_code,
        rip: 0xffff_ffff_8010_2030, cs: 0x08, rflags: 0x2, rsp: 0, ss: 0x10,
    }
}

#[test]
fn error_code_descriptions() {
    assert_eq!(decode_error_code(14, 2), "Page Fault");
    assert_eq!(decode_error_code(8, 0), "Double Fault (always 0)");
    assert_eq!(decode_error_code(3, 0), "Unknown error code");
    assert!(has_error_code(13));
    assert!(has_error_code(21));
    assert!(!has_error_code(3));
}

#[test]
fn page_fault_flags() {
    assert_eq!(format_pf_error_code(0x7), "PRESENT WRITE USER ");
    assert_eq!(format_pf_error_code(0x10), "EXEC ");
    assert_eq!(format_pf_error_code(0x60), "PK SHADOW_STACK ");
    assert_eq!(format_pf_error_code(0), "UNKNOWN");
    assert_eq!(format_pf_error_code(0x80), "UNKNOWN");
}

#[test]
fn fatal_fault_reports() {
    assert_eq!(
        handle_page_fault(&state(14, 0x6), 0xdead_0000),
        FatalFault::PageFault { user: true, address: 0xdead_0000, error_code: 0x6 }
    );
    assert_eq!(
        handle_page_fault(&state(14, 0x2), 0x10),
        FatalFault::PageFault { user: false, address: 0x10, error_code: 0x2 }
    );
    assert_eq!(handle_gp_fault(&state(13, 0x18)), FatalFault::GeneralProtection { error_code: 0x18 });
    assert_eq!(handle_double_fault(&state(8, 0)), FatalFault::DoubleFault { error_code: 0 });
    assert_eq!(handle_invalid_opcode(&state(6, 0)), FatalFault::InvalidOpcode { rip: 0xffff_ffff_8010_2030 });
    assert_eq!(handle_device_not_available(&state(7, 0)), FatalFault::DeviceNotAvailable { rip: 0xffff_ffff_8010_2030 });
    assert_eq!(handle_machine_check(&state(18, 0)), FatalFault::MachineCheck);
    assert_eq!(default_handler(&state(5, 0)), FatalFault::Unhandled { vector: 5 });
}

#[test]
fn vector_routes() {
    assert_eq!(route_vector(14), InterruptRoute::PageFault);
    assert_eq!(route_vector(0x80), InterruptRoute::Syscall);
    assert_eq!(route_vector(32), InterruptRoute::Irq);
    assert_eq!(route_vector(31), InterruptRoute::Unhandled);
    assert_eq!(route_vector(256), InterruptRoute::Unhandled);
}

#[test]
fn syscall_entry_registers() {
    assert_eq!(star_msr_value(), 0x0023_0008_0000_0000);
    assert_eq!((star_msr_value() >> 32) & 0xFFFF, 0x08);
    assert_eq!(star_msr_value() & 0xFFFF_FFFF, 0);
    assert_eq!(efer_with_syscalls(0xD00), 0xD01);
    assert_eq!(efer_with_syscalls(0xD01), 0xD01);
    assert_eq!(msr_halves(0x1122_3344_5566_7788), (0x5566_7788, 0x1122_3344));
}
