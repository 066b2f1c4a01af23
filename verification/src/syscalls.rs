//! System-call dispatch: which implementation a `syscall` instruction
//! reaches for a number, with which arguments, and what is written back.
use vstd::prelude::*;
use crate::error::{KernelError, ErrorMessage};
use crate::ptrace::X86_64PtraceGPRegs;

verus! {

/// `AT_FDCWD` (-100) as the register value handed to `*at` calls.
pub const AT_FDCWD: u64 = 0xFFFF_FFFF_FFFF_FF9C;

/// Where one argument of a system call implementation comes from.
#[derive(Debug, Clone, Copy, PartialEq, Eq, Structural)]
pub enum ArgSource {
    /// Argument register `n` of the Linux ABI: 1 = rdi, 2 = rsi, 3 = rdx,
    /// 4 = r10, 5 = r8, 6 = r9.
    Reg(u8),
    /// A fixed value.
    Value(u64),
}

/// Argument registers 1 to `n`, in order.
pub open spec fn registers_in_order(n: nat) -> Seq<ArgSource> {
    Seq::new(n, |i: int| ArgSource::Reg((i + 1) as u8))
}

/// The value `src` denotes in the saved user registers `regs`.
pub open spec fn arg_value(regs: X86_64PtraceGPRegs, src: ArgSource) -> u64 {
    match src {
        ArgSource::Reg(1) => regs.rdi,
        ArgSource::Reg(2) => regs.rsi,
        ArgSource::Reg(3) => regs.rdx,
        ArgSource::Reg(4) => regs.r10,
        ArgSource::Reg(5) => regs.r8,
        ArgSource::Reg(6) => regs.r9,
        ArgSource::Reg(_) => 0,
        ArgSource::Value(v) => v,
    }
}

/// The argument values `srcs` denote in `regs`.
pub open spec fn resolve_args(regs: X86_64PtraceGPRegs, srcs: Seq<ArgSource>) -> Seq<u64> {
    srcs.map_values(|s: ArgSource| arg_value(regs, s))
}

/// The system calls the dispatcher knows, one per number of the x86_64 Linux table.
#[derive(Debug, Clone, Copy, PartialEq, Eq, Structural)]
pub enum SyscallKind {
    Read,
    Write,
    Open,
    Close,
    Stat,
    Lseek,
    Ioctl,
    Pread64,
    Pwrite64,
    Readv,
    Writev,
    Preadv,
    Pwritev,
    Sendfile,
    Fcntl,
    Ftruncate,
    Getcwd,
    Chdir,
    Fchdir,
    Fchmod,
    Fchown,
    Statfs,
    Fstatfs,
    Getdents64,
    Syncfs,
    Openat,
    Mkdirat,
    Fchownat,
    Newfstatat,
    Unlinkat,
    Renameat,
    Linkat,
    Symlinkat,
    Readlinkat,
    Fchmodat,
    Faccessat,
    Faccessat2,
    Utimensat,
    Renameat2,
    Statx,
    Mmap,
    Mprotect,
    Munmap,
    Brk,
    Mremap,
    Mincore,
    ProcessVmReadv,
    SchedYield,
    SchedSetaffinity,
    SchedGetaffinity,
    RtSigaction,
    RtSigprocmask,
    Sigaltstack,
    Signalfd4,
    Tkill,
    EpollCreate1,
    EpollCtl,
    EpollPwait,
    Pselect6,
    Ppoll,
    InotifyInit1,
    InotifyAddWatch,
    InotifyRmWatch,
    Clone,
    Execve,
    Exit,
    ExitGroup,
    Wait4,
    Waitid,
    Getpid,
    Getppid,
    Getuid,
    Geteuid,
    Getgid,
    Getegid,
    Gettid,
    Getpgid,
    Setpgid,
    Kill,
    Setuid,
    Setgid,
    Setreuid,
    Setregid,
    Setresuid,
    Setresgid,
    Setfsuid,
    Setfsgid,
    Umask,
    Capget,
    Capset,
    Ptrace,
    Gettimeofday,
    ClockSettime,
    ClockGettime,
    ClockNanosleep,
    Nanosleep,
    Getitimer,
    Setitimer,
    Uname,
    Sethostname,
    Sysinfo,
    Prlimit64,
    Prctl,
    Reboot,
    Socket,
    Connect,
    Accept,
    Sendto,
    Recvfrom,
    Shutdown,
    Bind,
    Listen,
    Accept4,
    Dup,
    Dup3,
    Pipe2,
    Getrandom,
    MemfdCreate,
    CopyFileRange,
    Preadv2,
    Pwritev2,
    CloseRange,
    PidfdOpen,
    Mount,
    Chroot,
    Futex,
    SetRobustList,
    SetTidAddress,
}

/// The system call with number `nr` in the x86_64 Linux table, if the kernel serves it.
pub open spec fn syscall_kind_of(nr: u32) -> Option<SyscallKind> {
    match nr {
        0x0 => Some(SyscallKind::Read),
        0x1 => Some(SyscallKind::Write),
        0x2 => Some(SyscallKind::Open),
        0x3 => Some(SyscallKind::Close),
        0x4 => Some(SyscallKind::Stat),
        0x8 => Some(SyscallKind::Lseek),
        0x9 => Some(SyscallKind::Mmap),
        0xa => Some(SyscallKind::Mprotect),
        0xb => Some(SyscallKind::Munmap),
        0xc => Some(SyscallKind::Brk),
        0xd => Some(SyscallKind::RtSigaction),
        0xe => Some(SyscallKind::RtSigprocmask),
        0x10 => Some(SyscallKind::Ioctl),
        0x11 => Some(SyscallKind::Pread64),
        0x12 => Some(SyscallKind::Pwrite64),
        0x13 => Some(SyscallKind::Readv),
        0x14 => Some(SyscallKind::Writev),
        0x18 => Some(SyscallKind::SchedYield),
        0x19 => Some(SyscallKind::Mremap),
        0x1b => Some(SyscallKind::Mincore),
        0x20 => Some(SyscallKind::Dup),
        0x23 => Some(SyscallKind::Nanosleep),
        0x24 => Some(SyscallKind::Getitimer),
        0x26 => Some(SyscallKind::Setitimer),
        0x27 => Some(SyscallKind::Getpid),
        0x28 => Some(SyscallKind::Sendfile),
        0x29 => Some(SyscallKind::Socket),
        0x2a => Some(SyscallKind::Connect),
        0x2b => Some(SyscallKind::Accept),
        0x2c => Some(SyscallKind::Sendto),
        0x2d => Some(SyscallKind::Recvfrom),
        0x30 => Some(SyscallKind::Shutdown),
        0x31 => Some(SyscallKind::Bind),
        0x32 => Some(SyscallKind::Listen),
        0x38 => Some(SyscallKind::Clone),
        0x3b => Some(SyscallKind::Execve),
        0x3c => Some(SyscallKind::Exit),
        0x3d => Some(SyscallKind::Wait4),
        0x3e => Some(SyscallKind::Kill),
        0x3f => Some(SyscallKind::Uname),
        0x48 => Some(SyscallKind::Fcntl),
        0x4d => Some(SyscallKind::Ftruncate),
        0x4f => Some(SyscallKind::Getcwd),
        0x50 => Some(SyscallKind::Chdir),
        0x51 => Some(SyscallKind::Fchdir),
        0x5b => Some(SyscallKind::Fchmod),
        0x5d => Some(SyscallKind::Fchown),
        0x5f => Some(SyscallKind::Umask),
        0x60 => Some(SyscallKind::Gettimeofday),
        0x63 => Some(SyscallKind::Sysinfo),
        0x65 => Some(SyscallKind::Ptrace),
        0x66 => Some(SyscallKind::Getuid),
        0x68 => Some(SyscallKind::Getgid),
        0x69 => Some(SyscallKind::Setuid),
        0x6a => Some(SyscallKind::Setgid),
        0x6b => Some(SyscallKind::Geteuid),
        0x6c => Some(SyscallKind::Getegid),
        0x6d => Some(SyscallKind::Setpgid),
        0x6e => Some(SyscallKind::Getppid),
        0x71 => Some(SyscallKind::Setreuid),
        0x72 => Some(SyscallKind::Setregid),
        0x75 => Some(SyscallKind::Setresuid),
        0x77 => Some(SyscallKind::Setresgid),
        0x79 => Some(SyscallKind::Getpgid),
        0x7a => Some(SyscallKind::Setfsuid),
        0x7b => Some(SyscallKind::Setfsgid),
        0x7d => Some(SyscallKind::Capget),
        0x7e => Some(SyscallKind::Capset),
        0x83 => Some(SyscallKind::Sigaltstack),
        0x89 => Some(SyscallKind::Statfs),
        0x8a => Some(SyscallKind::Fstatfs),
        0x9d => Some(SyscallKind::Prctl),
        0xa1 => Some(SyscallKind::Chroot),
        0xa5 => Some(SyscallKind::Mount),
        0xa9 => Some(SyscallKind::Reboot),
        0xaa => Some(SyscallKind::Sethostname),
        0xba => Some(SyscallKind::Gettid),
        0xc8 => Some(SyscallKind::Tkill),
        0xca => Some(SyscallKind::Futex),
        0xcb => Some(SyscallKind::SchedSetaffinity),
        0xcc => Some(SyscallKind::SchedGetaffinity),
        0xd9 => Some(SyscallKind::Getdents64),
        0xda => Some(SyscallKind::SetTidAddress),
        0xe3 => Some(SyscallKind::ClockSettime),
        0xe4 => Some(SyscallKind::ClockGettime),
        0xe6 => Some(SyscallKind::ClockNanosleep),
        0xe7 => Some(SyscallKind::ExitGroup),
        0xe9 => Some(SyscallKind::EpollCtl),
        0xf7 => Some(SyscallKind::Waitid),
        0xfe => Some(SyscallKind::InotifyAddWatch),
        0xff => Some(SyscallKind::InotifyRmWatch),
        0x101 => Some(SyscallKind::Openat),
        0x102 => Some(SyscallKind::Mkdirat),
        0x104 => Some(SyscallKind::Fchownat),
        0x106 => Some(SyscallKind::Newfstatat),
        0x107 => Some(SyscallKind::Unlinkat),
        0x108 => Some(SyscallKind::Renameat),
        0x109 => Some(SyscallKind::Linkat),
        0x10a => Some(SyscallKind::Symlinkat),
        0x10b => Some(SyscallKind::Readlinkat),
        0x10c => Some(SyscallKind::Fchmodat),
        0x10d => Some(SyscallKind::Faccessat),
        0x10e => Some(SyscallKind::Pselect6),
        0x10f => Some(SyscallKind::Ppoll),
        0x111 => Some(SyscallKind::SetRobustList),
        0x118 => Some(SyscallKind::Utimensat),
        0x119 => Some(SyscallKind::EpollPwait),
        0x120 => Some(SyscallKind::Accept4),
        0x121 => Some(SyscallKind::Signalfd4),
        0x123 => Some(SyscallKind::EpollCreate1),
        0x124 => Some(SyscallKind::Dup3),
        0x125 => Some(SyscallKind::Pipe2),
        0x126 => Some(SyscallKind::InotifyInit1),
        0x127 => Some(SyscallKind::Preadv),
        0x128 => Some(SyscallKind::Pwritev),
        0x12e => Some(SyscallKind::Prlimit64),
        0x132 => Some(SyscallKind::Syncfs),
        0x136 => Some(SyscallKind::ProcessVmReadv),
        0x13c => Some(SyscallKind::Renameat2),
        0x13e => Some(SyscallKind::Getrandom),
        0x13f => Some(SyscallKind::MemfdCreate),
        0x146 => Some(SyscallKind::CopyFileRange),
        0x147 => Some(SyscallKind::Preadv2),
        0x148 => Some(SyscallKind::Pwritev2),
        0x14c => Some(SyscallKind::Statx),
        0x1b2 => Some(SyscallKind::PidfdOpen),
        0x1b4 => Some(SyscallKind::CloseRange),
        0x1b7 => Some(SyscallKind::Faccessat2),
        _ => None,
    }
}

/// The number of system call `k` in the x86_64 Linux table.
pub open spec fn syscall_number(k: SyscallKind) -> u32 {
    match k {
        SyscallKind::Read => 0x0,
        SyscallKind::Write => 0x1,
        SyscallKind::Open => 0x2,
        SyscallKind::Close => 0x3,
        SyscallKind::Stat => 0x4,
        SyscallKind::Lseek => 0x8,
        SyscallKind::Ioctl => 0x10,
        SyscallKind::Pread64 => 0x11,
        SyscallKind::Pwrite64 => 0x12,
        SyscallKind::Readv => 0x13,
        SyscallKind::Writev => 0x14,
        SyscallKind::Preadv => 0x127,
        SyscallKind::Pwritev => 0x128,
        SyscallKind::Sendfile => 0x28,
        SyscallKind::Fcntl => 0x48,
        SyscallKind::Ftruncate => 0x4d,
        SyscallKind::Getcwd => 0x4f,
        SyscallKind::Chdir => 0x50,
        SyscallKind::Fchdir => 0x51,
        SyscallKind::Fchmod => 0x5b,
        SyscallKind::Fchown => 0x5d,
        SyscallKind::Statfs => 0x89,
        SyscallKind::Fstatfs => 0x8a,
        SyscallKind::Getdents64 => 0xd9,
        SyscallKind::Syncfs => 0x132,
        SyscallKind::Openat => 0x101,
        SyscallKind::Mkdirat => 0x102,
        SyscallKind::Fchownat => 0x104,
        SyscallKind::Newfstatat => 0x106,
        SyscallKind::Unlinkat => 0x107,
        SyscallKind::Renameat => 0x108,
        SyscallKind::Linkat => 0x109,
        SyscallKind::Symlinkat => 0x10a,
        SyscallKind::Readlinkat => 0x10b,
        SyscallKind::Fchmodat => 0x10c,
        SyscallKind::Faccessat => 0x10d,
        SyscallKind::Faccessat2 => 0x1b7,
        SyscallKind::Utimensat => 0x118,
        SyscallKind::Renameat2 => 0x13c,
        SyscallKind::Statx => 0x14c,
        SyscallKind::Mmap => 0x9,
        SyscallKind::Mprotect => 0xa,
        SyscallKind::Munmap => 0xb,
        SyscallKind::Brk => 0xc,
        SyscallKind::Mremap => 0x19,
        SyscallKind::Mincore => 0x1b,
        SyscallKind::ProcessVmReadv => 0x136,
        SyscallKind::SchedYield => 0x18,
        SyscallKind::SchedSetaffinity => 0xcb,
        SyscallKind::SchedGetaffinity => 0xcc,
        SyscallKind::RtSigaction => 0xd,
        SyscallKind::RtSigprocmask => 0xe,
        SyscallKind::Sigaltstack => 0x83,
        SyscallKind::Signalfd4 => 0x121,
        SyscallKind::Tkill => 0xc8,
        SyscallKind::EpollCreate1 => 0x123,
        SyscallKind::EpollCtl => 0xe9,
        SyscallKind::EpollPwait => 0x119,
        SyscallKind::Pselect6 => 0x10e,
        SyscallKind::Ppoll => 0x10f,
        SyscallKind::InotifyInit1 => 0x126,
        SyscallKind::InotifyAddWatch => 0xfe,
        SyscallKind::InotifyRmWatch => 0xff,
        SyscallKind::Clone => 0x38,
        SyscallKind::Execve => 0x3b,
        SyscallKind::Exit => 0x3c,
        SyscallKind::ExitGroup => 0xe7,
        SyscallKind::Wait4 => 0x3d,
        SyscallKind::Waitid => 0xf7,
        SyscallKind::Getpid => 0x27,
        SyscallKind::Getppid => 0x6e,
        SyscallKind::Getuid => 0x66,
        SyscallKind::Geteuid => 0x6b,
        SyscallKind::Getgid => 0x68,
        SyscallKind::Getegid => 0x6c,
        SyscallKind::Gettid => 0xba,
        SyscallKind::Getpgid => 0x79,
        SyscallKind::Setpgid => 0x6d,
        SyscallKind::Kill => 0x3e,
        SyscallKind::Setuid => 0x69,
        SyscallKind::Setgid => 0x6a,
        SyscallKind::Setreuid => 0x71,
        SyscallKind::Setregid => 0x72,
        SyscallKind::Setresuid => 0x75,
        SyscallKind::Setresgid => 0x77,
        SyscallKind::Setfsuid => 0x7a,
        SyscallKind::Setfsgid => 0x7b,
        SyscallKind::Umask => 0x5f,
        SyscallKind::Capget => 0x7d,
        SyscallKind::Capset => 0x7e,
        SyscallKind::Ptrace => 0x65,
        SyscallKind::Gettimeofday => 0x60,
        SyscallKind::ClockSettime => 0xe3,
        SyscallKind::ClockGettime => 0xe4,
        SyscallKind::ClockNanosleep => 0xe6,
        SyscallKind::Nanosleep => 0x23,
        SyscallKind::Getitimer => 0x24,
        SyscallKind::Setitimer => 0x26,
        SyscallKind::Uname => 0x3f,
        SyscallKind::Sethostname => 0xaa,
        SyscallKind::Sysinfo => 0x63,
        SyscallKind::Prlimit64 => 0x12e,
        SyscallKind::Prctl => 0x9d,
        SyscallKind::Reboot => 0xa9,
        SyscallKind::Socket => 0x29,
        SyscallKind::Connect => 0x2a,
        SyscallKind::Accept => 0x2b,
        SyscallKind::Sendto => 0x2c,
        SyscallKind::Recvfrom => 0x2d,
        SyscallKind::Shutdown => 0x30,
        SyscallKind::Bind => 0x31,
        SyscallKind::Listen => 0x32,
        SyscallKind::Accept4 => 0x120,
        SyscallKind::Dup => 0x20,
        SyscallKind::Dup3 => 0x124,
        SyscallKind::Pipe2 => 0x125,
        SyscallKind::Getrandom => 0x13e,
        SyscallKind::MemfdCreate => 0x13f,
        SyscallKind::CopyFileRange => 0x146,
        SyscallKind::Preadv2 => 0x147,
        SyscallKind::Pwritev2 => 0x148,
        SyscallKind::CloseRange => 0x1b4,
        SyscallKind::PidfdOpen => 0x1b2,
        SyscallKind::Mount => 0xa5,
        SyscallKind::Chroot => 0xa1,
        SyscallKind::Futex => 0xca,
        SyscallKind::SetRobustList => 0x111,
        SyscallKind::SetTidAddress => 0xda,
    }
}

/// Where each argument handed to the implementation of `k` comes from.
pub open spec fn syscall_arguments(k: SyscallKind) -> Seq<ArgSource> {
    match k {
        SyscallKind::Open => seq![ArgSource::Value(AT_FDCWD), ArgSource::Reg(1), ArgSource::Reg(2), ArgSource::Reg(3)],
        SyscallKind::Stat => seq![ArgSource::Value(AT_FDCWD), ArgSource::Reg(1), ArgSource::Reg(2), ArgSource::Value(0)],
                SyscallKind::Clone => seq![ArgSource::Reg(1), ArgSource::Reg(2), ArgSource::Reg(3), ArgSource::Reg(5), ArgSource::Reg(4)],
        SyscallKind::SchedYield | SyscallKind::Getpid | SyscallKind::Getppid | SyscallKind::Getuid | SyscallKind::Geteuid | SyscallKind::Getgid | SyscallKind::Getegid | SyscallKind::Gettid => registers_in_order(0),
        SyscallKind::Close | SyscallKind::Chdir | SyscallKind::Fchdir | SyscallKind::Syncfs | SyscallKind::Brk | SyscallKind::EpollCreate1 | SyscallKind::InotifyInit1 | SyscallKind::Exit | SyscallKind::ExitGroup | SyscallKind::Getpgid | SyscallKind::Setuid | SyscallKind::Setgid | SyscallKind::Setfsuid | SyscallKind::Setfsgid | SyscallKind::Umask | SyscallKind::Uname | SyscallKind::Sysinfo | SyscallKind::Dup | SyscallKind::Chroot | SyscallKind::SetTidAddress => registers_in_order(1),
        SyscallKind::Ftruncate | SyscallKind::Fchmod | SyscallKind::Getcwd | SyscallKind::Statfs | SyscallKind::Fstatfs | SyscallKind::Munmap | SyscallKind::Sigaltstack | SyscallKind::Tkill | SyscallKind::InotifyRmWatch | SyscallKind::Setpgid | SyscallKind::Kill | SyscallKind::Setreuid | SyscallKind::Setregid | SyscallKind::Capget | SyscallKind::Capset | SyscallKind::Gettimeofday | SyscallKind::ClockSettime | SyscallKind::ClockGettime | SyscallKind::Nanosleep | SyscallKind::Getitimer | SyscallKind::Sethostname | SyscallKind::Shutdown | SyscallKind::Listen | SyscallKind::Pipe2 | SyscallKind::MemfdCreate | SyscallKind::PidfdOpen | SyscallKind::SetRobustList => registers_in_order(2),
        SyscallKind::Fchown | SyscallKind::Read | SyscallKind::Write | SyscallKind::Lseek | SyscallKind::Ioctl | SyscallKind::Readv | SyscallKind::Writev | SyscallKind::Fcntl | SyscallKind::Getdents64 | SyscallKind::Mkdirat | SyscallKind::Unlinkat | SyscallKind::Symlinkat | SyscallKind::Faccessat | SyscallKind::Mprotect | SyscallKind::Mincore | SyscallKind::SchedSetaffinity | SyscallKind::SchedGetaffinity | SyscallKind::InotifyAddWatch | SyscallKind::Execve | SyscallKind::Setresuid | SyscallKind::Setresgid | SyscallKind::Setitimer | SyscallKind::Prctl | SyscallKind::Socket | SyscallKind::Connect | SyscallKind::Accept | SyscallKind::Bind | SyscallKind::Dup3 | SyscallKind::Getrandom | SyscallKind::CloseRange => registers_in_order(3),
        SyscallKind::Pread64 | SyscallKind::Pwrite64 | SyscallKind::Preadv | SyscallKind::Pwritev | SyscallKind::Sendfile | SyscallKind::Openat | SyscallKind::Newfstatat | SyscallKind::Renameat | SyscallKind::Readlinkat | SyscallKind::Fchmodat | SyscallKind::Faccessat2 | SyscallKind::Utimensat | SyscallKind::RtSigaction | SyscallKind::RtSigprocmask | SyscallKind::Signalfd4 | SyscallKind::EpollCtl | SyscallKind::Wait4 | SyscallKind::Ptrace | SyscallKind::ClockNanosleep | SyscallKind::Prlimit64 | SyscallKind::Reboot | SyscallKind::Accept4 => registers_in_order(4),
        SyscallKind::Fchownat | SyscallKind::Linkat | SyscallKind::Renameat2 | SyscallKind::Statx | SyscallKind::Mremap | SyscallKind::Ppoll | SyscallKind::Waitid | SyscallKind::Preadv2 | SyscallKind::Pwritev2 | SyscallKind::Mount => registers_in_order(5),
        SyscallKind::Mmap | SyscallKind::ProcessVmReadv | SyscallKind::EpollPwait | SyscallKind::Pselect6 | SyscallKind::Sendto | SyscallKind::Recvfrom | SyscallKind::CopyFileRange | SyscallKind::Futex => registers_in_order(6),
    }
}

/// The system call with number `nr`, if the kernel serves it.
pub fn syscall_kind(nr: u32) -> (r: Option<SyscallKind>)
    ensures
        r == syscall_kind_of(nr),
{
    match nr {
        0x0 => Some(SyscallKind::Read),
        0x1 => Some(SyscallKind::Write),
        0x2 => Some(SyscallKind::Open),
        0x3 => Some(SyscallKind::Close),
        0x4 => Some(SyscallKind::Stat),
        0x8 => Some(SyscallKind::Lseek),
        0x9 => Some(SyscallKind::Mmap),
        0xa => Some(SyscallKind::Mprotect),
        0xb => Some(SyscallKind::Munmap),
        0xc => Some(SyscallKind::Brk),
        0xd => Some(SyscallKind::RtSigaction),
        0xe => Some(SyscallKind::RtSigprocmask),
        0x10 => Some(SyscallKind::Ioctl),
        0x11 => Some(SyscallKind::Pread64),
        0x12 => Some(SyscallKind::Pwrite64),
        0x13 => Some(SyscallKind::Readv),
        0x14 => Some(SyscallKind::Writev),
        0x18 => Some(SyscallKind::SchedYield),
        0x19 => Some(SyscallKind::Mremap),
        0x1b => Some(SyscallKind::Mincore),
        0x20 => Some(SyscallKind::Dup),
        0x23 => Some(SyscallKind::Nanosleep),
        0x24 => Some(SyscallKind::Getitimer),
        0x26 => Some(SyscallKind::Setitimer),
        0x27 => Some(SyscallKind::Getpid),
        0x28 => Some(SyscallKind::Sendfile),
        0x29 => Some(SyscallKind::Socket),
        0x2a => Some(SyscallKind::Connect),
        0x2b => Some(SyscallKind::Accept),
        0x2c => Some(SyscallKind::Sendto),
        0x2d => Some(SyscallKind::Recvfrom),
        0x30 => Some(SyscallKind::Shutdown),
        0x31 => Some(SyscallKind::Bind),
        0x32 => Some(SyscallKind::Listen),
        0x38 => Some(SyscallKind::Clone),
        0x3b => Some(SyscallKind::Execve),
        0x3c => Some(SyscallKind::Exit),
        0x3d => Some(SyscallKind::Wait4),
        0x3e => Some(SyscallKind::Kill),
        0x3f => Some(SyscallKind::Uname),
        0x48 => Some(SyscallKind::Fcntl),
        0x4d => Some(SyscallKind::Ftruncate),
        0x4f => Some(SyscallKind::Getcwd),
        0x50 => Some(SyscallKind::Chdir),
        0x51 => Some(SyscallKind::Fchdir),
        0x5b => Some(SyscallKind::Fchmod),
        0x5d => Some(SyscallKind::Fchown),
        0x5f => Some(SyscallKind::Umask),
        0x60 => Some(SyscallKind::Gettimeofday),
        0x63 => Some(SyscallKind::Sysinfo),
        0x65 => Some(SyscallKind::Ptrace),
        0x66 => Some(SyscallKind::Getuid),
        0x68 => Some(SyscallKind::Getgid),
        0x69 => Some(SyscallKind::Setuid),
        0x6a => Some(SyscallKind::Setgid),
        0x6b => Some(SyscallKind::Geteuid),
        0x6c => Some(SyscallKind::Getegid),
        0x6d => Some(SyscallKind::Setpgid),
        0x6e => Some(SyscallKind::Getppid),
        0x71 => Some(SyscallKind::Setreuid),
        0x72 => Some(SyscallKind::Setregid),
        0x75 => Some(SyscallKind::Setresuid),
        0x77 => Some(SyscallKind::Setresgid),
        0x79 => Some(SyscallKind::Getpgid),
        0x7a => Some(SyscallKind::Setfsuid),
        0x7b => Some(SyscallKind::Setfsgid),
        0x7d => Some(SyscallKind::Capget),
        0x7e => Some(SyscallKind::Capset),
        0x83 => Some(SyscallKind::Sigaltstack),
        0x89 => Some(SyscallKind::Statfs),
        0x8a => Some(SyscallKind::Fstatfs),
        0x9d => Some(SyscallKind::Prctl),
        0xa1 => Some(SyscallKind::Chroot),
        0xa5 => Some(SyscallKind::Mount),
        0xa9 => Some(SyscallKind::Reboot),
        0xaa => Some(SyscallKind::Sethostname),
        0xba => Some(SyscallKind::Gettid),
        0xc8 => Some(SyscallKind::Tkill),
        0xca => Some(SyscallKind::Futex),
        0xcb => Some(SyscallKind::SchedSetaffinity),
        0xcc => Some(SyscallKind::SchedGetaffinity),
        0xd9 => Some(SyscallKind::Getdents64),
        0xda => Some(SyscallKind::SetTidAddress),
        0xe3 => Some(SyscallKind::ClockSettime),
        0xe4 => Some(SyscallKind::ClockGettime),
        0xe6 => Some(SyscallKind::ClockNanosleep),
        0xe7 => Some(SyscallKind::ExitGroup),
        0xe9 => Some(SyscallKind::EpollCtl),
        0xf7 => Some(SyscallKind::Waitid),
        0xfe => Some(SyscallKind::InotifyAddWatch),
        0xff => Some(SyscallKind::InotifyRmWatch),
        0x101 => Some(SyscallKind::Openat),
        0x102 => Some(SyscallKind::Mkdirat),
        0x104 => Some(SyscallKind::Fchownat),
        0x106 => Some(SyscallKind::Newfstatat),
        0x107 => Some(SyscallKind::Unlinkat),
        0x108 => Some(SyscallKind::Renameat),
        0x109 => Some(SyscallKind::Linkat),
        0x10a => Some(SyscallKind::Symlinkat),
        0x10b => Some(SyscallKind::Readlinkat),
        0x10c => Some(SyscallKind::Fchmodat),
        0x10d => Some(SyscallKind::Faccessat),
        0x10e => Some(SyscallKind::Pselect6),
        0x10f => Some(SyscallKind::Ppoll),
        0x111 => Some(SyscallKind::SetRobustList),
        0x118 => Some(SyscallKind::Utimensat),
        0x119 => Some(SyscallKind::EpollPwait),
        0x120 => Some(SyscallKind::Accept4),
        0x121 => Some(SyscallKind::Signalfd4),
        0x123 => Some(SyscallKind::EpollCreate1),
        0x124 => Some(SyscallKind::Dup3),
        0x125 => Some(SyscallKind::Pipe2),
        0x126 => Some(SyscallKind::InotifyInit1),
        0x127 => Some(SyscallKind::Preadv),
        0x128 => Some(SyscallKind::Pwritev),
        0x12e => Some(SyscallKind::Prlimit64),
        0x132 => Some(SyscallKind::Syncfs),
        0x136 => Some(SyscallKind::ProcessVmReadv),
        0x13c => Some(SyscallKind::Renameat2),
        0x13e => Some(SyscallKind::Getrandom),
        0x13f => Some(SyscallKind::MemfdCreate),
        0x146 => Some(SyscallKind::CopyFileRange),
        0x147 => Some(SyscallKind::Preadv2),
        0x148 => Some(SyscallKind::Pwritev2),
        0x14c => Some(SyscallKind::Statx),
        0x1b2 => Some(SyscallKind::PidfdOpen),
        0x1b4 => Some(SyscallKind::CloseRange),
        0x1b7 => Some(SyscallKind::Faccessat2),
        _ => None,
    }
}

fn argument_sources(k: SyscallKind) -> (r: Vec<ArgSource>)
    ensures
        r@ == syscall_arguments(k),
{
    match k {
        SyscallKind::Open => vec![ArgSource::Value(AT_FDCWD), ArgSource::Reg(1), ArgSource::Reg(2), ArgSource::Reg(3)],
        SyscallKind::Stat => vec![ArgSource::Value(AT_FDCWD), ArgSource::Reg(1), ArgSource::Reg(2), ArgSource::Value(0)],
        SyscallKind::Clone => vec![ArgSource::Reg(1), ArgSource::Reg(2), ArgSource::Reg(3), ArgSource::Reg(5), ArgSource::Reg(4)],
        SyscallKind::SchedYield | SyscallKind::Getpid | SyscallKind::Getppid | SyscallKind::Getuid | SyscallKind::Geteuid | SyscallKind::Getgid | SyscallKind::Getegid | SyscallKind::Gettid => first_registers(0),
        SyscallKind::Close | SyscallKind::Chdir | SyscallKind::Fchdir | SyscallKind::Syncfs | SyscallKind::Brk | SyscallKind::EpollCreate1 | SyscallKind::InotifyInit1 | SyscallKind::Exit | SyscallKind::ExitGroup | SyscallKind::Getpgid | SyscallKind::Setuid | SyscallKind::Setgid | SyscallKind::Setfsuid | SyscallKind::Setfsgid | SyscallKind::Umask | SyscallKind::Uname | SyscallKind::Sysinfo | SyscallKind::Dup | SyscallKind::Chroot | SyscallKind::SetTidAddress => first_registers(1),
        SyscallKind::Ftruncate | SyscallKind::Fchmod | SyscallKind::Getcwd | SyscallKind::Statfs | SyscallKind::Fstatfs | SyscallKind::Munmap | SyscallKind::Sigaltstack | SyscallKind::Tkill | SyscallKind::InotifyRmWatch | SyscallKind::Setpgid | SyscallKind::Kill | SyscallKind::Setreuid | SyscallKind::Setregid | SyscallKind::Capget | SyscallKind::Capset | SyscallKind::Gettimeofday | SyscallKind::ClockSettime | SyscallKind::ClockGettime | SyscallKind::Nanosleep | SyscallKind::Getitimer | SyscallKind::Sethostname | SyscallKind::Shutdown | SyscallKind::Listen | SyscallKind::Pipe2 | SyscallKind::MemfdCreate | SyscallKind::PidfdOpen | SyscallKind::SetRobustList => first_registers(2),
        SyscallKind::Fchown | SyscallKind::Read | SyscallKind::Write | SyscallKind::Lseek | SyscallKind::Ioctl | SyscallKind::Readv | SyscallKind::Writev | SyscallKind::Fcntl | SyscallKind::Getdents64 | SyscallKind::Mkdirat | SyscallKind::Unlinkat | SyscallKind::Symlinkat | SyscallKind::Faccessat | SyscallKind::Mprotect | SyscallKind::Mincore | SyscallKind::SchedSetaffinity | SyscallKind::SchedGetaffinity | SyscallKind::InotifyAddWatch | SyscallKind::Execve | SyscallKind::Setresuid | SyscallKind::Setresgid | SyscallKind::Setitimer | SyscallKind::Prctl | SyscallKind::Socket | SyscallKind::Connect | SyscallKind::Accept | SyscallKind::Bind | SyscallKind::Dup3 | SyscallKind::Getrandom | SyscallKind::CloseRange => first_registers(3),
        SyscallKind::Pread64 | SyscallKind::Pwrite64 | SyscallKind::Preadv | SyscallKind::Pwritev | SyscallKind::Sendfile | SyscallKind::Openat | SyscallKind::Newfstatat | SyscallKind::Renameat | SyscallKind::Readlinkat | SyscallKind::Fchmodat | SyscallKind::Faccessat2 | SyscallKind::Utimensat | SyscallKind::RtSigaction | SyscallKind::RtSigprocmask | SyscallKind::Signalfd4 | SyscallKind::EpollCtl | SyscallKind::Wait4 | SyscallKind::Ptrace | SyscallKind::ClockNanosleep | SyscallKind::Prlimit64 | SyscallKind::Reboot | SyscallKind::Accept4 => first_registers(4),
        SyscallKind::Fchownat | SyscallKind::Linkat | SyscallKind::Renameat2 | SyscallKind::Statx | SyscallKind::Mremap | SyscallKind::Ppoll | SyscallKind::Waitid | SyscallKind::Preadv2 | SyscallKind::Pwritev2 | SyscallKind::Mount => first_registers(5),
        SyscallKind::Mmap | SyscallKind::ProcessVmReadv | SyscallKind::EpollPwait | SyscallKind::Pselect6 | SyscallKind::Sendto | SyscallKind::Recvfrom | SyscallKind::CopyFileRange | SyscallKind::Futex => first_registers(6),
    }
}

/// A decoded system call: what to run and the arguments to run it with.
pub struct SyscallRequest {
    pub kind: SyscallKind,
    pub args: Vec<u64>,
}

fn first_registers(n: u8) -> (r: Vec<ArgSource>)
    requires
        n <= 6,
    ensures
        r@ == registers_in_order(n as nat),
{
    let mut v: Vec<ArgSource> = Vec::new();
    let mut i: u8 = 0;
    while i < n
        invariant
            i <= n <= 6,
            v@ == registers_in_order(i as nat),
        decreases n - i,
    {
        v.push(ArgSource::Reg(i + 1));
        i = i + 1;
        assert(v@ =~= registers_in_order(i as nat));
    }
    v
}

fn read_arg(regs: &X86_64PtraceGPRegs, src: ArgSource) -> (r: u64)
    ensures
        r == arg_value(*regs, src),
{
    match src {
        ArgSource::Reg(1) => regs.rdi,
        ArgSource::Reg(2) => regs.rsi,
        ArgSource::Reg(3) => regs.rdx,
        ArgSource::Reg(4) => regs.r10,
        ArgSource::Reg(5) => regs.r8,
        ArgSource::Reg(6) => regs.r9,
        ArgSource::Reg(_) => 0,
        ArgSource::Value(v) => v,
    }
}

/// Decode the system call the saved user registers ask for: the number
/// is the low 32 bits of `rax`, the arguments are taken from the ABI
/// registers as the table of `syscall_arguments` says. `None` when the
/// kernel serves no call of that number.
pub fn decode_syscall(regs: &X86_64PtraceGPRegs) -> (r: Option<SyscallRequest>)
    ensures
        match syscall_kind_of(regs.rax as u32) {
            None => r is None,
            Some(k) => r matches Some(q) && q.kind == k && q.args@ == resolve_args(*regs, syscall_arguments(k)),
        },
{
    let nr = regs.rax as u32;
    match syscall_kind(nr) {
        None => None,
        Some(k) => {
            let srcs = argument_sources(k);
            let mut args: Vec<u64> = Vec::new();
            let mut i: usize = 0;
            while i < srcs.len()
                invariant
                    i <= srcs.len(),
                    srcs@ == syscall_arguments(k),
                    args@ == resolve_args(*regs, srcs@.take(i as int)),
                decreases srcs.len() - i,
            {
                let a = read_arg(regs, srcs[i]);
                args.push(a);
                i = i + 1;
                assert(resolve_args(*regs, srcs@.take(i as int)) =~= resolve_args(*regs, srcs@.take(i - 1)).push(a));
            }
            assert(srcs@.take(srcs@.len() as int) =~= srcs@);
            Some(SyscallRequest { kind: k, args })
        },
    }
}

/// Whether the dispatcher writes a result back to `rax` after `k`: every
/// call but `exit` and `exit_group`, which do not return to the task.
pub open spec fn writes_result(k: SyscallKind) -> bool {
    k != SyscallKind::Exit && k != SyscallKind::ExitGroup
}

/// Whether a result is written back after `k`.
pub fn syscall_writes_result(k: SyscallKind) -> (r: bool)
    ensures
        r == writes_result(k),
{
    match k {
        SyscallKind::Exit | SyscallKind::ExitGroup => false,
        _ => true,
    }
}

/// The value left in `rax` for a call that completed with `res`: the
/// count on success (as the signed return register holds it), the
/// negative errno on failure.
pub open spec fn return_value(res: Result<usize, isize>) -> u64 {
    match res {
        Ok(v) => (v as isize) as u64,
        Err(e) => e as u64,
    }
}

/// Store the outcome of `k` in the saved registers: `rax` takes
/// `return_value(res)` when `k` returns to the task; nothing else changes.
pub fn complete_syscall(regs: &mut X86_64PtraceGPRegs, k: SyscallKind, res: Result<usize, isize>)
    ensures
        writes_result(k) ==> *final(regs) == (X86_64PtraceGPRegs { rax: return_value(res), ..*old(regs) }),
        !writes_result(k) ==> *final(regs) == *old(regs),
{
    if syscall_writes_result(k) {
        let ret_val: isize = match res {
            Ok(v) => v as isize,
            Err(e) => e,
        };
        regs.rax = ret_val as u64;
    }
}

/// Each number of the table names one system call: looking up the
/// number of `k` gives `k` back.
pub proof fn lemma_syscall_number_round_trip(k: SyscallKind)
    ensures
        syscall_kind_of(syscall_number(k)) == Some(k),
{
}

/// A number the table knows is the number of the call it names.
pub proof fn lemma_syscall_kind_has_number(nr: u32)
    ensures
        syscall_kind_of(nr) matches Some(k) ==> syscall_number(k) == nr,
{
}

/// No two system calls share a number.
pub proof fn lemma_syscall_numbers_distinct(k1: SyscallKind, k2: SyscallKind)
    requires
        syscall_number(k1) == syscall_number(k2),
    ensures
        k1 == k2,
{
    lemma_syscall_number_round_trip(k1);
    lemma_syscall_number_round_trip(k2);
}

/// Every implementation takes at most the six ABI argument registers.
pub proof fn lemma_syscall_arguments_fit(k: SyscallKind)
    ensures
        syscall_arguments(k).len() <= 6,
{
}

/// The argument registers of the x86_64 system-call convention, in
/// order: rdi, rsi, rdx, r10, r8, r9.
pub open spec fn abi_argument_registers(regs: X86_64PtraceGPRegs) -> Seq<u64> {
    seq![regs.rdi, regs.rsi, regs.rdx, regs.r10, regs.r8, regs.r9]
}

proof fn lemma_registers_in_order_resolve(regs: X86_64PtraceGPRegs, n: nat)
    requires
        n <= 6,
    ensures
        resolve_args(regs, registers_in_order(n)) == abi_argument_registers(regs).take(n as int),
{
    assert(resolve_args(regs, registers_in_order(n)) =~= abi_argument_registers(regs).take(n as int));
}

/// A decoded call hands its implementation the first argument registers
/// of the ABI, in order, as many as it takes. The exceptions: `open` and
/// `stat` get `AT_FDCWD` before the path (and `stat` flags 0), and
/// `clone` takes its fourth argument (tls) from r8 and its fifth
/// (child_tid) from r10.
pub proof fn lemma_arguments_follow_the_abi(k: SyscallKind, regs: X86_64PtraceGPRegs)
    ensures
        k != SyscallKind::Open && k != SyscallKind::Stat && k != SyscallKind::Clone ==> resolve_args(
            regs,
            syscall_arguments(k),
        ) == abi_argument_registers(regs).take(syscall_arguments(k).len() as int),
        k == SyscallKind::Open ==> resolve_args(regs, syscall_arguments(k)) == seq![AT_FDCWD, regs.rdi, regs.rsi, regs.rdx],
        k == SyscallKind::Stat ==> resolve_args(regs, syscall_arguments(k)) == seq![AT_FDCWD, regs.rdi, regs.rsi, 0u64],
        k == SyscallKind::Clone ==> resolve_args(regs, syscall_arguments(k)) == seq![
            regs.rdi,
            regs.rsi,
            regs.rdx,
            regs.r8,
            regs.r10,
        ],
{
    let srcs = syscall_arguments(k);
    if k == SyscallKind::Open || k == SyscallKind::Stat || k == SyscallKind::Clone {
        assert(resolve_args(regs, srcs) =~= srcs.map_values(|a: ArgSource| arg_value(regs, a)));
        if k == SyscallKind::Open {
            assert(resolve_args(regs, srcs) =~= seq![AT_FDCWD, regs.rdi, regs.rsi, regs.rdx]);
        } else if k == SyscallKind::Stat {
            assert(resolve_args(regs, srcs) =~= seq![AT_FDCWD, regs.rdi, regs.rsi, 0u64]);
        } else {
            assert(resolve_args(regs, srcs) =~= seq![regs.rdi, regs.rsi, regs.rdx, regs.r8, regs.r10]);
        }
    } else {
        assert(srcs == registers_in_order(srcs.len()));
        lemma_registers_in_order_resolve(regs, srcs.len());
    }
}

/// `sched_yield`: the task gives up the processor; the call succeeds
/// with 0 once it runs again.
pub fn sys_sched_yield() -> (r: Result<usize, KernelError>)
    ensures
        r == Ok::<usize, KernelError>(0),
{
    Ok(0)
}

/// `sched_getaffinity` is not implemented on this architecture.
pub fn sys_sched_getaffinity(pid: u32, size: usize, mask: u64) -> (r: Result<usize, KernelError>)
    ensures
        r == Err::<usize, KernelError>(KernelError::Other(ErrorMessage::SchedGetAffinityNotImplemented)),
{
    Err(KernelError::Other(ErrorMessage::SchedGetAffinityNotImplemented))
}

/// `sched_setaffinity` is not implemented on this architecture.
pub fn sys_sched_setaffinity(pid: u32, size: usize, mask: u64) -> (r: Result<usize, KernelError>)
    ensures
        r == Err::<usize, KernelError>(KernelError::Other(ErrorMessage::SchedSetAffinityNotImplemented)),
{
    Err(KernelError::Other(ErrorMessage::SchedSetAffinityNotImplemented))
}

} // verus!
