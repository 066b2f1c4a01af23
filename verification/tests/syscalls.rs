use moss::ptrace::X86_64PtraceGPRegs;
use moss::syscalls::{
    complete_syscall, decode_syscall, syscall_kind, syscall_writes_result, sys_sched_getaffinity,
    sys_sched_setaffinity, sys_sched_yield, SyscallKind, AT_FDCWD,
};
use moss::error::{KernelError, ErrorMessage};

fn regs_with(rax: u64) -> X86_64PtraceGPRegs {
    let mut r = X86_64PtraceGPRegs::zeroed();
    r.rax = rax;
    r.rdi = 11;
    r.rsi = 22;
    r.rdx = 33;
    r.r10 = 44;
    r.r8 = 55;
    r.r9 = 66;
    r
}

#[test]
fn read_takes_three_registers_in_order() {
    let q = decode_syscall(&regs_with(0)).unwrap();
    assert_eq!(q.kind, SyscallKind::Read);
    assert_eq!(q.args, vec![11, 22, 33]);
}

#[test]
fn open_becomes_openat_from_the_cwd() {
    let q = decode_syscall(&regs_with(2)).unwrap();
    assert_eq!(q.kind, SyscallKind::Open);
    assert_eq!(q.args, vec![AT_FDCWD, 11, 22, 33]);
    assert_eq!(AT_FDCWD, (-100i64) as u64);
}

#[test]
fn stat_becomes_newfstatat_with_no_flags() {
    let q = decode_syscall(&regs_with(4)).unwrap();
    assert_eq!(q.kind, SyscallKind::Stat);
    assert_eq!(q.args, vec![AT_FDCWD, 11, 22, 0]);
}

#[test]
fn ftruncate_fchmod_fchown_take_their_registers_in_order() {
    assert_eq!(decode_syscall(&regs_with(0x4d)).unwrap().args, vec![11, 22]);
    assert_eq!(decode_syscall(&regs_with(0x5b)).unwrap().args, vec![11, 22]);
    assert_eq!(decode_syscall(&regs_with(0x5d)).unwrap().args, vec![11, 22, 33]);
}

#[test]
fn clone_passes_tls_before_child_tid() {
    let q = decode_syscall(&regs_with(0x38)).unwrap();
    assert_eq!(q.kind, SyscallKind::Clone);
    assert_eq!(q.args, vec![11, 22, 33, 55, 44]);
}

#[test]
fn six_argument_calls_take_all_registers() {
    let q = decode_syscall(&regs_with(9)).unwrap();
    assert_eq!(q.kind, SyscallKind::Mmap);
    assert_eq!(q.args, vec![11, 22, 33, 44, 55, 66]);
}

#[test]
fn getpid_takes_no_arguments() {
    let q = decode_syscall(&regs_with(0x27)).unwrap();
    assert_eq!(q.kind, SyscallKind::Getpid);
    assert!(q.args.is_empty());
}

#[test]
fn only_the_low_32_bits_of_rax_select_the_call() {
    let q = decode_syscall(&regs_with(0x1_0000_0001)).unwrap();
    assert_eq!(q.kind, SyscallKind::Write);
}

#[test]
fn unknown_numbers_decode_to_nothing() {
    assert!(decode_syscall(&regs_with(5)).is_none());
    assert!(decode_syscall(&regs_with(0x200)).is_none());
    assert_eq!(syscall_kind(0x7fff_ffff), None);
}

#[test]
fn table_numbers_match_the_linux_abi() {
    assert_eq!(syscall_kind(0x3c), Some(SyscallKind::Exit));
    assert_eq!(syscall_kind(231), Some(SyscallKind::ExitGroup));
    assert_eq!(syscall_kind(257), Some(SyscallKind::Openat));
    assert_eq!(syscall_kind(258), Some(SyscallKind::Mkdirat));
    assert_eq!(syscall_kind(262), Some(SyscallKind::Newfstatat));
    assert_eq!(syscall_kind(202), Some(SyscallKind::Futex));
    assert_eq!(syscall_kind(95), Some(SyscallKind::Umask));
    assert_eq!(syscall_kind(228), Some(SyscallKind::ClockGettime));
    assert_eq!(syscall_kind(233), Some(SyscallKind::EpollCtl));
    assert_eq!(syscall_kind(295), Some(SyscallKind::Preadv));
    assert_eq!(syscall_kind(434), Some(SyscallKind::PidfdOpen));
    assert_eq!(syscall_kind(436), Some(SyscallKind::CloseRange));
    assert_eq!(syscall_kind(439), Some(SyscallKind::Faccessat2));
    assert_eq!(syscall_kind(230), Some(SyscallKind::ClockNanosleep));
}

#[test]
fn every_known_number_decodes_to_a_distinct_call() {
    let mut seen: Vec<SyscallKind> = Vec::new();
    for nr in 0u32..0x400 {
        if let Some(k) = syscall_kind(nr) {
            assert!(!seen.contains(&k));
            seen.push(k);
        }
    }
    assert_eq!(seen.len(), 128);
}

#[test]
fn exit_calls_leave_rax_alone() {
    assert!(!syscall_writes_result(SyscallKind::Exit));
    assert!(!syscall_writes_result(SyscallKind::ExitGroup));
    let mut r = regs_with(0x3c);
    complete_syscall(&mut r, SyscallKind::Exit, Ok(5));
    assert_eq!(r, regs_with(0x3c));
}

#[test]
fn results_and_errors_land_in_rax() {
    let mut r = regs_with(0);
    complete_syscall(&mut r, SyscallKind::Read, Ok(7));
    assert_eq!(r.rax, 7);
    assert_eq!(r.rdi, 11);
    complete_syscall(&mut r, SyscallKind::Read, Err(-14));
    assert_eq!(r.rax, (-14i64) as u64);
}

#[test]
fn scheduler_calls() {
    assert_eq!(sys_sched_yield(), Ok(0));
    assert_eq!(sys_sched_getaffinity(1, 8, 0x1000), Err(KernelError::Other(ErrorMessage::SchedGetAffinityNotImplemented)));
    assert_eq!(sys_sched_setaffinity(1, 8, 0x1000), Err(KernelError::Other(ErrorMessage::SchedSetAffinityNotImplemented)));
}

#[test]
fn openat_from_the_cwd_takes_its_four_registers() {
    let mut r = X86_64PtraceGPRegs::new(0x40_1000, 0x7fff_0000);
    r.rax = 257;
    r.rdi = (-100i64) as u64;
    r.rsi = 0x1000;
    r.rdx = 2;
    r.r10 = 0;
    let q = decode_syscall(&r).unwrap();
    assert_eq!(q.kind, SyscallKind::Openat);
    assert_eq!(q.args, vec![AT_FDCWD, 0x1000, 2, 0]);
}

#[test]
fn affinity_errors_keep_their_messages() {
    assert_eq!(ErrorMessage::SchedGetAffinityNotImplemented.text(), "sched_getaffinity not implemented");
    assert_eq!(ErrorMessage::SchedSetAffinityNotImplemented.text(), "sched_setaffinity not implemented");
    assert_eq!(ErrorMessage::LapicTimerMapFailed.text(), "Failed to map LAPIC timer MMIO");
}
