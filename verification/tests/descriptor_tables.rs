use moss::gdt::{
    gdt_image, gdt_pointer, kern_ist_top, tss_descriptor_words, SegmentDescriptor, Tss, TssDescriptor,
    TssDescriptorPair,
};
use moss::idt::{build_idt, idt_entry_for, idtr_for, ist_stack_top, setup_ist, IdtEntry};

#[test]
fn segment_descriptors() {
    assert_eq!(SegmentDescriptor::zero().access, 0);
    let c = SegmentDescriptor::code64();
    assert_eq!((c.limit_lo, c.access, c.flags_limit_hi), (0xFFFF, 0x9A, 0xAF));
    let d = SegmentDescriptor::data64();
    assert_eq!((d.limit_lo, d.access, d.flags_limit_hi), (0xFFFF, 0x92, 0x8F));
}

#[test]
fn tss_and_its_descriptor() {
    let t = Tss::new();
    assert_eq!(t.iopb_offset, 104);
    assert_eq!(t.rsp0, 0);
    let d = TssDescriptor::from_tss(0xffff_ffff_8012_3456);
    assert_eq!(d.limit_lo, 103);
    assert_eq!(d.access, 0x89);
    assert_eq!(d.base_lo, 0x3456);
    assert_eq!(d.base_mid, 0x12);
    assert_eq!(d.base_hi, 0x80);
    assert_eq!(d.base_upper, 0xffff_ffff);
    assert_eq!(TssDescriptorPair::from_tss(0x1000).desc, TssDescriptor::from_tss(0x1000));
}

#[test]
fn kernel_stack_tops_are_16_byte_aligned() {
    assert_eq!(kern_ist_top(0x1008), 0x1_1000);
    assert_eq!(kern_ist_top(0x1000), 0x1_1000);
    assert_eq!(ist_stack_top(0x5000), 0x6000);
}

#[test]
fn gdt_layout() {
    let (low, high) = tss_descriptor_words(0x1234_5678_9abc_def0, 103);
    assert_eq!(high, 0x1234_5678);
    assert_eq!(low & 0xFFFF, 103);
    let g = gdt_image(low, high);
    assert_eq!(g.len(), 8);
    assert_eq!(g[6], low);
    assert_eq!(gdt_pointer(0x9000, 8).limit, 63);
}

#[test]
fn idt_gates() {
    let e = IdtEntry::interrupt_gate(0xffff_ffff_8000_1234, 1, 0);
    assert_eq!(e.offset_lo, 0x1234);
    assert_eq!(e.offset_mid, 0x8000);
    assert_eq!(e.offset_hi, 0xffff_ffff);
    assert_eq!(e.selector, 0x08);
    assert_eq!(e.ist_flags, 1);
    assert_eq!(e.type_attr, 0x8E);
    let t = IdtEntry::trap_gate(0x40, 0, 3);
    assert_eq!(t.type_attr, 0xEF);
    assert_eq!(IdtEntry::absent().type_attr, 0);
}

#[test]
fn idt_wiring() {
    let stubs: Vec<u64> = (0..256u64).map(|v| 0xffff_ffff_8010_0000 + 16 * v).collect();
    let idt = build_idt(&stubs);
    assert_eq!(idt.len(), 256);
    assert_eq!(idt[2].ist_flags, 2);
    assert_eq!(idt[8].ist_flags, 1);
    assert_eq!(idt[18].ist_flags, 3);
    assert_eq!(idt[0x80].type_attr, 0xEF);
    assert_eq!(idt[14].type_attr, 0x8E);
    assert_eq!(idt[14].ist_flags, 0);
    assert_eq!(idt[200], idt_entry_for(200, stubs[200]));
    assert_eq!(idtr_for(0x8000).limit, 4095);
    let mut tss = Tss::new();
    setup_ist(&mut tss, 0x1000, 0x2000, 0x3000);
    assert_eq!((tss.ist1, tss.ist2, tss.ist3, tss.ist4), (0x1000, 0x2000, 0x3000, 0));
}
