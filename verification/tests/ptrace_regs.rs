use moss::ptrace::X86_64PtraceGPRegs;

#[test]
fn register_array_round_trip() {
    let mut a = [0u64; 27];
    for (i, v) in a.iter_mut().enumerate() {
        *v = 100 + i as u64;
    }
    let r = X86_64PtraceGPRegs::from(a);
    assert_eq!(r.r15, 100);
    assert_eq!(r.rax, 110);
    assert_eq!(r.rip, 116);
    assert_eq!(r.rsp, 119);
    assert_eq!(r.gs, 126);
    assert_eq!(<[u64; 27]>::from(&r), a);
    assert_eq!(X86_64PtraceGPRegs::from_array(&a).to_array(), a);
}

#[test]
fn fresh_contexts() {
    let r = X86_64PtraceGPRegs::new(0x40_1000, 0x7fff_0000);
    assert_eq!(r.ip(), 0x40_1000);
    assert_eq!(r.sp(), 0x7fff_0000);
    assert_eq!(r.bp(), 0);
    assert_eq!(X86_64PtraceGPRegs::zeroed().to_array(), [0u64; 27]);
}
