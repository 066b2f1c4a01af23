use moss::cpu::{
    set_rsp0, syscall_init, tss_init, MsrWrite, PerCpuCache, X86_64InterruptFlags, X86_64, IA32_GS_BASE,
};
use moss::gdt::{GdtDescriptor, GDT_KERNEL_CODE, GDT_KERNEL_DATA, GDT_USER_CODE, GDT_USER_DATA};

#[test]
fn tss_init_builds_stacks_and_gdt() {
    let t = tss_init(0xffff_ffff_8020_0008, 0xffff_ffff_8030_0000, 0xffff_ffff_8040_1234, 0xffff_ffff_8050_0000);
    assert_eq!(t.rsp0, (0xffff_ffff_8020_0008u64 + 0x1_0000) & !0xF);
    assert_eq!(t.ist1, 0xffff_ffff_8030_4000);
    assert_eq!(t.tr, 0x30);
    assert_eq!(t.gdt_ptr, GdtDescriptor { limit: 63, base: 0xffff_ffff_8050_0000 });
    assert_eq!(t.gdt.len(), 8);
    assert_eq!(&t.gdt[..6], &[0, GDT_KERNEL_CODE, GDT_KERNEL_DATA, 0, GDT_USER_DATA, GDT_USER_CODE]);
    let low = t.gdt[6];
    assert_eq!(low & 0xFFFF, 103);
    assert_eq!((low >> 40) & 0xF, 9);
    assert_eq!((low >> 47) & 1, 1);
    assert_eq!((low >> 16) & 0xFF_FFFF, 0x40_1234);
    assert_eq!(low >> 56, 0x80);
    assert_eq!(t.gdt[7], 0xffff_ffff);
}

#[test]
fn rsp0_keeps_a_canonical_stack_top() {
    assert_eq!(set_rsp0(0xffff_8000_0000_1000), 0xffff_8000_0000_1000);
    assert_eq!(set_rsp0(0x7fff_ffff_f000), 0x7fff_ffff_f000);
}

#[test]
fn syscall_msrs_in_order() {
    let s = syscall_init(0xffff_ffff_8020_0000, 0xD01, 0xffff_ffff_8012_3456);
    assert_eq!(s.scratch_rsp, 0xffff_ffff_8021_0000);
    assert_eq!(s.tss_kern_rsp_top, 0xffff_ffff_8021_0000);
    assert_eq!(
        s.writes,
        vec![
            MsrWrite { msr: 0xC000_0080, eax: 0xD01, edx: 0 },
            MsrWrite { msr: 0xC000_0081, eax: 0, edx: 0x0018_0008 },
            MsrWrite { msr: 0xC000_0082, eax: 0x8012_3456, edx: 0xffff_ffff },
            MsrWrite { msr: 0xC000_0084, eax: 0x700, edx: 0 },
        ]
    );
    let s = syscall_init(0, 0x500, 0);
    assert_eq!(s.writes[0].eax, 0x501);
}

#[test]
fn architecture_identity() {
    assert_eq!(X86_64::name(), "x86_64");
    assert_eq!(X86_64::cpu_count(), 1);
    assert_eq!(X86_64::id(), 0);
    assert_eq!(X86_64::get_cmdline(""), None);
    assert_eq!(X86_64::get_cmdline("init=/bin/sh"), Some(String::from("init=/bin/sh")));
    let ctx = X86_64::new_user_context(0x40_1000, 0x7fff_f000);
    assert_eq!(ctx.rip, 0x40_1000);
    assert_eq!(ctx.rsp, 0x7fff_f000);
    assert_eq!(ctx.cs, 0);
}

#[test]
fn saved_interrupt_state() {
    assert!(X86_64InterruptFlags(0x202).interrupts_enabled());
    assert!(!X86_64InterruptFlags(0x2).interrupts_enabled());
}

#[test]
fn per_cpu_cache_pointer_round_trip() {
    let w = PerCpuCache::store_ptr(0xffff_8880_1234_5678);
    assert_eq!(w, MsrWrite { msr: IA32_GS_BASE, eax: 0x1234_5678, edx: 0xffff_8880 });
    assert_eq!(PerCpuCache::get_ptr(w.eax, w.edx), Some(0xffff_8880_1234_5678));
    assert_eq!(PerCpuCache::get_ptr(0, 0), None);
}
