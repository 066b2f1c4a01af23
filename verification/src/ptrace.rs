//! The user register set exposed through ptrace (Linux `user_regs_struct`).
use vstd::prelude::*;
use vstd::std_specs::convert::FromSpecImpl;

verus! {

/// x86_64 general-purpose registers, in `user_regs_struct` order.
#[derive(Debug, Clone, Copy, PartialEq, Eq, Structural)]
pub struct X86_64PtraceGPRegs {
    pub r15: u64,
    pub r14: u64,
    pub r13: u64,
    pub r12: u64,
    pub rbp: u64,
    pub rbx: u64,
    pub r11: u64,
    pub r10: u64,
    pub r9: u64,
    pub r8: u64,
    pub rax: u64,
    pub rcx: u64,
    pub rdx: u64,
    pub rsi: u64,
    pub rdi: u64,
    pub orig_rax: u64,
    pub rip: u64,
    pub cs: u64,
    pub rflags: u64,
    pub rsp: u64,
    pub ss: u64,
    pub fs_base: u64,
    pub gs_base: u64,
    pub ds: u64,
    pub es: u64,
    pub fs: u64,
    pub gs: u64,
}

/// The registers in `user_regs_struct` order.
pub open spec fn regs_seq(r: X86_64PtraceGPRegs) -> Seq<u64> {
    seq![
        r.r15, r.r14, r.r13, r.r12, r.rbp, r.rbx, r.r11, r.r10, r.r9, r.r8, r.rax, r.rcx, r.rdx, r.rsi, r.rdi,
        r.orig_rax, r.rip, r.cs, r.rflags, r.rsp, r.ss, r.fs_base, r.gs_base, r.ds, r.es, r.fs, r.gs,
    ]
}

/// All registers zero.
pub open spec fn zero_regs() -> X86_64PtraceGPRegs {
    X86_64PtraceGPRegs {
        r15: 0,
        r14: 0,
        r13: 0,
        r12: 0,
        rbp: 0,
        rbx: 0,
        r11: 0,
        r10: 0,
        r9: 0,
        r8: 0,
        rax: 0,
        rcx: 0,
        rdx: 0,
        rsi: 0,
        rdi: 0,
        orig_rax: 0,
        rip: 0,
        cs: 0,
        rflags: 0,
        rsp: 0,
        ss: 0,
        fs_base: 0,
        gs_base: 0,
        ds: 0,
        es: 0,
        fs: 0,
        gs: 0,
    }
}

impl X86_64PtraceGPRegs {
    /// Every register zero (a context that faults on first use).
    pub fn zeroed() -> (r: Self)
        ensures
            r == zero_regs(),
    {
        X86_64PtraceGPRegs {
            r15: 0,
            r14: 0,
            r13: 0,
            r12: 0,
            rbp: 0,
            rbx: 0,
            r11: 0,
            r10: 0,
            r9: 0,
            r8: 0,
            rax: 0,
            rcx: 0,
            rdx: 0,
            rsi: 0,
            rdi: 0,
            orig_rax: 0,
            rip: 0,
            cs: 0,
            rflags: 0,
            rsp: 0,
            ss: 0,
            fs_base: 0,
            gs_base: 0,
            ds: 0,
            es: 0,
            fs: 0,
            gs: 0,
        }
    }

    /// A register set with the given instruction and stack pointers and
    /// every other register zero.
    pub fn new(rip: u64, rsp: u64) -> (r: Self)
        ensures
            r == (X86_64PtraceGPRegs { rip, rsp, ..zero_regs() }),
    {
        let mut r = Self::zeroed();
        r.rip = rip;
        r.rsp = rsp;
        r
    }

    /// The instruction pointer.
    pub fn ip(&self) -> (r: usize)
        ensures
            r == self.rip as usize,
    {
        self.rip as usize
    }

    /// The stack pointer.
    pub fn sp(&self) -> (r: usize)
        ensures
            r == self.rsp as usize,
    {
        self.rsp as usize
    }

    /// The frame base pointer.
    pub fn bp(&self) -> (r: usize)
        ensures
            r == self.rbp as usize,
    {
        self.rbp as usize
    }

    /// The registers from an array in `user_regs_struct` order.
    pub fn from_array(regs: &[u64; 27]) -> (r: Self)
        ensures
            regs_seq(r) == regs@,
    {
        let r = X86_64PtraceGPRegs {
            r15: regs[0],
            r14: regs[1],
            r13: regs[2],
            r12: regs[3],
            rbp: regs[4],
            rbx: regs[5],
            r11: regs[6],
            r10: regs[7],
            r9: regs[8],
            r8: regs[9],
            rax: regs[10],
            rcx: regs[11],
            rdx: regs[12],
            rsi: regs[13],
            rdi: regs[14],
            orig_rax: regs[15],
            rip: regs[16],
            cs: regs[17],
            rflags: regs[18],
            rsp: regs[19],
            ss: regs[20],
            fs_base: regs[21],
            gs_base: regs[22],
            ds: regs[23],
            es: regs[24],
            fs: regs[25],
            gs: regs[26],
        };
        assert(regs_seq(r) =~= regs@);
        r
    }

    /// The registers as an array in `user_regs_struct` order.
    pub fn to_array(&self) -> (r: [u64; 27])
        ensures
            r@ == regs_seq(*self),
    {
        let r = [
            self.r15,
            self.r14,
            self.r13,
            self.r12,
            self.rbp,
            self.rbx,
            self.r11,
            self.r10,
            self.r9,
            self.r8,
            self.rax,
            self.rcx,
            self.rdx,
            self.rsi,
            self.rdi,
            self.orig_rax,
            self.rip,
            self.cs,
            self.rflags,
            self.rsp,
            self.ss,
            self.fs_base,
            self.gs_base,
            self.ds,
            self.es,
            self.fs,
            self.gs,
        ];
        assert(r@ =~= regs_seq(*self));
        r
    }
}

/// Registers are determined by their array form, so turning registers
/// into the array and back (`to_array` then `from_array`) gives the same
/// registers.
pub proof fn lemma_regs_seq_injective(r: X86_64PtraceGPRegs, q: X86_64PtraceGPRegs)
    requires
        regs_seq(q) == regs_seq(r),
    ensures
        q == r,
{
    assert(regs_seq(q)[0] == regs_seq(r)[0]);
    assert(regs_seq(q)[1] == regs_seq(r)[1]);
    assert(regs_seq(q)[2] == regs_seq(r)[2]);
    assert(regs_seq(q)[3] == regs_seq(r)[3]);
    assert(regs_seq(q)[4] == regs_seq(r)[4]);
    assert(regs_seq(q)[5] == regs_seq(r)[5]);
    assert(regs_seq(q)[6] == regs_seq(r)[6]);
    assert(regs_seq(q)[7] == regs_seq(r)[7]);
    assert(regs_seq(q)[8] == regs_seq(r)[8]);
    assert(regs_seq(q)[9] == regs_seq(r)[9]);
    assert(regs_seq(q)[10] == regs_seq(r)[10]);
    assert(regs_seq(q)[11] == regs_seq(r)[11]);
    assert(regs_seq(q)[12] == regs_seq(r)[12]);
    assert(regs_seq(q)[13] == regs_seq(r)[13]);
    assert(regs_seq(q)[14] == regs_seq(r)[14]);
    assert(regs_seq(q)[15] == regs_seq(r)[15]);
    assert(regs_seq(q)[16] == regs_seq(r)[16]);
    assert(regs_seq(q)[17] == regs_seq(r)[17]);
    assert(regs_seq(q)[18] == regs_seq(r)[18]);
    assert(regs_seq(q)[19] == regs_seq(r)[19]);
    assert(regs_seq(q)[20] == regs_seq(r)[20]);
    assert(regs_seq(q)[21] == regs_seq(r)[21]);
    assert(regs_seq(q)[22] == regs_seq(r)[22]);
    assert(regs_seq(q)[23] == regs_seq(r)[23]);
    assert(regs_seq(q)[24] == regs_seq(r)[24]);
    assert(regs_seq(q)[25] == regs_seq(r)[25]);
    assert(regs_seq(q)[26] == regs_seq(r)[26]);
}

/// The registers whose `user_regs_struct` order is `regs`.
pub open spec fn regs_from_seq(regs: Seq<u64>) -> X86_64PtraceGPRegs {
    X86_64PtraceGPRegs {
        r15: regs[0],
        r14: regs[1],
        r13: regs[2],
        r12: regs[3],
        rbp: regs[4],
        rbx: regs[5],
        r11: regs[6],
        r10: regs[7],
        r9: regs[8],
        r8: regs[9],
        rax: regs[10],
        rcx: regs[11],
        rdx: regs[12],
        rsi: regs[13],
        rdi: regs[14],
        orig_rax: regs[15],
        rip: regs[16],
        cs: regs[17],
        rflags: regs[18],
        rsp: regs[19],
        ss: regs[20],
        fs_base: regs[21],
        gs_base: regs[22],
        ds: regs[23],
        es: regs[24],
        fs: regs[25],
        gs: regs[26],
    }
}

impl From<[u64; 27]> for X86_64PtraceGPRegs {
    fn from(regs: [u64; 27]) -> (r: Self) {
        let r = Self::from_array(&regs);
        proof {
            lemma_regs_seq_injective(r, regs_from_seq(regs@));
        }
        r
    }
}

impl FromSpecImpl<[u64; 27]> for X86_64PtraceGPRegs {
    open spec fn obeys_from_spec() -> bool {
        true
    }

    open spec fn from_spec(regs: [u64; 27]) -> Self {
        regs_from_seq(regs@)
    }
}

impl From<&X86_64PtraceGPRegs> for [u64; 27] {
    fn from(regs: &X86_64PtraceGPRegs) -> (r: Self) {
        regs.to_array()
    }
}

impl FromSpecImpl<&X86_64PtraceGPRegs> for [u64; 27] {
    open spec fn obeys_from_spec() -> bool {
        true
    }

    open spec fn from_spec(regs: &X86_64PtraceGPRegs) -> Self {
        choose|a: [u64; 27]| a@ == regs_seq(*regs)
    }
}

} // verus!
