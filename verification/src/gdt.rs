//! Global descriptor table, task-state segment and their descriptors.
use vstd::prelude::*;

verus! {

/// Operand of `lgdt`: size of the table minus one, and its address.
#[derive(Debug, Clone, Copy, PartialEq, Eq, Structural)]
pub struct GdtDescriptor {
    pub limit: u16,
    pub base: u64,
}

/// An 8-byte code or data segment descriptor (Intel SDM Vol. 3A §3.4.5).
#[derive(Debug, Clone, Copy, PartialEq, Eq, Structural)]
pub struct SegmentDescriptor {
    pub limit_lo: u16,
    pub base_lo: u16,
    pub base_mid: u8,
    pub access: u8,
    pub flags_limit_hi: u8,
    pub base_hi: u8,
}

impl SegmentDescriptor {
    /// The null descriptor.
    pub fn zero() -> (r: Self)
        ensures
            r == (SegmentDescriptor { limit_lo: 0, base_lo: 0, base_mid: 0, access: 0, flags_limit_hi: 0, base_hi: 0 }),
    {
        SegmentDescriptor { limit_lo: 0, base_lo: 0, base_mid: 0, access: 0, flags_limit_hi: 0, base_hi: 0 }
    }

    /// Ring-0 64-bit code segment: present, execute/read, long mode,
    /// 4 KiB granularity, base 0, limit 0xFFFFF.
    pub fn code64() -> (r: Self)
        ensures
            r == (SegmentDescriptor {
                limit_lo: 0xFFFF,
                base_lo: 0,
                base_mid: 0,
                access: 0x9A,
                flags_limit_hi: 0xAF,
                base_hi: 0,
            }),
    {
        SegmentDescriptor { limit_lo: 0xFFFF, base_lo: 0, base_mid: 0, access: 0x9A, flags_limit_hi: 0xAF, base_hi: 0 }
    }

    /// Ring-0 data segment: present, read/write, G=1, D=0, L=0 (flags
    /// 0x8), base 0, limit 0xFFFFF.
    pub fn data64() -> (r: Self)
        ensures
            r == (SegmentDescriptor {
                limit_lo: 0xFFFF,
                base_lo: 0,
                base_mid: 0,
                access: 0x92,
                flags_limit_hi: 0x8F,
                base_hi: 0,
            }),
    {
        SegmentDescriptor { limit_lo: 0xFFFF, base_lo: 0, base_mid: 0, access: 0x92, flags_limit_hi: 0x8F, base_hi: 0 }
    }
}

/// Byte size of the x86_64 task-state segment below.
pub const TSS_SIZE: u16 = 104;

/// The task-state segment: ring stacks and interrupt stack table.
#[derive(Debug, Clone, Copy, PartialEq, Eq, Structural)]
pub struct Tss {
    pub reserved: u32,
    pub rsp0: u64,
    pub rsp1: u64,
    pub rsp2: u64,
    pub reserved2: u64,
    pub ist1: u64,
    pub ist2: u64,
    pub ist3: u64,
    pub ist4: u64,
    pub ist5: u64,
    pub ist6: u64,
    pub ist7: u64,
    pub reserved3: u64,
    pub reserved4: u16,
    pub iopb_offset: u16,
}

impl Tss {
    /// A zeroed TSS whose I/O bitmap offset points past its end (no bitmap).
    pub fn new() -> (r: Self)
        ensures
            r == (Tss {
                reserved: 0,
                rsp0: 0,
                rsp1: 0,
                rsp2: 0,
                reserved2: 0,
                ist1: 0,
                ist2: 0,
                ist3: 0,
                ist4: 0,
                ist5: 0,
                ist6: 0,
                ist7: 0,
                reserved3: 0,
                reserved4: 0,
                iopb_offset: TSS_SIZE,
            }),
    {
        Tss {
            reserved: 0,
            rsp0: 0,
            rsp1: 0,
            rsp2: 0,
            reserved2: 0,
            ist1: 0,
            ist2: 0,
            ist3: 0,
            ist4: 0,
            ist5: 0,
            ist6: 0,
            ist7: 0,
            reserved3: 0,
            reserved4: 0,
            iopb_offset: TSS_SIZE,
        }
    }
}

/// 16-byte system descriptor of an available 64-bit TSS.
#[derive(Debug, Clone, Copy, PartialEq, Eq, Structural)]
pub struct TssDescriptor {
    pub limit_lo: u16,
    pub base_lo: u16,
    pub base_mid: u8,
    pub access: u8,
    pub granularity: u8,
    pub base_hi: u8,
    pub base_upper: u32,
    pub reserved: u32,
}

/// The base address a TSS descriptor encodes.
pub open spec fn tss_descriptor_base(d: TssDescriptor) -> u64 {
    ((d.base_upper as u64) << 32u64) | ((d.base_hi as u64) << 24u64) | ((d.base_mid as u64) << 16u64) | (d.base_lo as u64)
}

impl TssDescriptor {
    /// Descriptor of the TSS at address `base`: present, DPL 0, type 9
    /// (available 64-bit TSS), limit `TSS_SIZE - 1`.
    pub fn from_tss(base: u64) -> (r: Self)
        ensures
            r.limit_lo == TSS_SIZE - 1,
            r.access == 0x89,
            r.granularity == 0,
            r.reserved == 0,
            r.base_lo == (base & 0xFFFF) as u16,
            r.base_mid == ((base >> 16u64) & 0xFF) as u8,
            r.base_hi == ((base >> 24u64) & 0xFF) as u8,
            r.base_upper == (base >> 32u64) as u32,
            tss_descriptor_base(r) == base,
    {
        let limit: u32 = TSS_SIZE as u32 - 1;
        proof {
            assert(base & 0xFFFFu64 <= 0xFFFF && (base >> 16u64) & 0xFFu64 <= 0xFF && (base >> 24u64) & 0xFFu64 <= 0xFF
                && base >> 32u64 <= 0xFFFF_FFFF && ((base >> 32u64) << 32u64) | (((base >> 24u64) & 0xFFu64) << 24u64)
                | (((base >> 16u64) & 0xFFu64) << 16u64) | (base & 0xFFFFu64) == base) by (bit_vector);
        }
        TssDescriptor {
            limit_lo: limit as u16,
            base_lo: (base & 0xFFFF) as u16,
            base_mid: ((base >> 16) & 0xFF) as u8,
            access: 0x89,
            granularity: 0x00,
            base_hi: ((base >> 24) & 0xFF) as u8,
            base_upper: (base >> 32) as u32,
            reserved: 0,
        }
    }
}

/// A TSS descriptor occupying two consecutive GDT slots.
#[derive(Debug, Clone, Copy, PartialEq, Eq, Structural)]
pub struct TssDescriptorPair {
    pub desc: TssDescriptor,
}

impl TssDescriptorPair {
    pub fn from_tss(base: u64) -> (r: Self)
        ensures
            r.desc.limit_lo == TSS_SIZE - 1,
            r.desc.access == 0x89,
            tss_descriptor_base(r.desc) == base,
    {
        TssDescriptorPair { desc: TssDescriptor::from_tss(base) }
    }
}

/// Kernel code segment (selector 0x08): present, DPL 0, 64-bit.
pub const GDT_KERNEL_CODE: u64 = 0x0020_9800_0000_0000;
/// Kernel data segment (selector 0x10): present, DPL 0, writable.
pub const GDT_KERNEL_DATA: u64 = 0x0000_9300_0000_0000;
/// User data segment (selector 0x23): present, DPL 3, writable.
pub const GDT_USER_DATA: u64 = 0x0000_F300_0000_0000;
/// User code segment (selector 0x2b): present, DPL 3, 64-bit.
pub const GDT_USER_CODE: u64 = 0x0020_F800_0000_0000;

/// Size of the ring-0 interrupt stack.
pub const KERN_IST_SIZE: u64 = 64 * 1024;
/// Size of the double-fault stack.
pub const DF_IST_SIZE: u64 = 16 * 1024;
/// Size in bytes of the hardware task-state segment.
pub const HW_TSS_SIZE: u64 = 104;
/// GDT selector of the TSS (index 6).
pub const TSS_SELECTOR: u16 = 0x30;

/// Top of a stack that starts at `base` and is `size` bytes long,
/// rounded down to 16 bytes.
pub open spec fn stack_top(base: u64, size: u64) -> u64 {
    ((base + size) as u64) & !0xFu64
}

/// The initial stack pointer of the ring-0 interrupt stack at `base`.
pub fn kern_ist_top(base: u64) -> (r: u64)
    requires
        base + KERN_IST_SIZE <= u64::MAX,
    ensures
        r == stack_top(base, KERN_IST_SIZE),
        r % 16 == 0,
        base + KERN_IST_SIZE - 16 < r <= base + KERN_IST_SIZE,
{
    let top = base + KERN_IST_SIZE;
    proof {
        assert(top & !0xFu64 == top - top % 16) by (bit_vector);
    }
    top & !0xF
}

/// The two GDT words of the TSS descriptor for a TSS at `tss_base` with
/// limit `tss_limit`: type 9 (available 64-bit TSS), present, DPL 0.
pub open spec fn tss_low_spec(tss_base: u64, tss_limit: u64) -> u64 {
    (tss_limit & 0xFFFF) | ((tss_base & 0x00FF_FFFF) << 16u64) | (0x9u64 << 40u64) | (1u64 << 47u64) | (((tss_limit
        >> 16u64) & 0xF) << 48u64) | (((tss_base >> 24u64) & 0xFF) << 56u64)
}

pub fn tss_descriptor_words(tss_base: u64, tss_limit: u64) -> (r: (u64, u64))
    ensures
        r.0 == tss_low_spec(tss_base, tss_limit),
        r.1 == tss_base >> 32u64,
        (r.0 >> 40u64) & 0xF == 9,
        (r.0 >> 47u64) & 1 == 1,
        r.1 << 32u64 | ((r.0 >> 56u64) << 24u64) | ((r.0 >> 16u64) & 0xFF_FFFF) == tss_base,
{
    let low = (tss_limit & 0xFFFF) | ((tss_base & 0x00FF_FFFF) << 16) | (0x9u64 << 40) | (1u64 << 47) | (((tss_limit
        >> 16) & 0xF) << 48) | (((tss_base >> 24) & 0xFF) << 56);
    let high = tss_base >> 32;
    proof {
        assert((low >> 40u64) & 0xFu64 == 9 && (low >> 47u64) & 1u64 == 1 && high << 32u64 | ((low >> 56u64) << 24u64)
            | ((low >> 16u64) & 0xFF_FFFFu64) == tss_base) by (bit_vector)
            requires low == tss_low_spec(tss_base, tss_limit), high == tss_base >> 32u64;
    }
    (low, high)
}

/// The GDT the kernel runs with: null, kernel code, kernel data, an
/// unused slot, user data, user code, and the TSS descriptor words.
pub fn gdt_image(tss_low: u64, tss_high: u64) -> (r: Vec<u64>)
    ensures
        r@ == seq![0u64, GDT_KERNEL_CODE, GDT_KERNEL_DATA, 0u64, GDT_USER_DATA, GDT_USER_CODE, tss_low, tss_high],
{
    let mut g: Vec<u64> = Vec::new();
    g.push(0);
    g.push(GDT_KERNEL_CODE);
    g.push(GDT_KERNEL_DATA);
    g.push(0);
    g.push(GDT_USER_DATA);
    g.push(GDT_USER_CODE);
    g.push(tss_low);
    g.push(tss_high);
    proof {
        assert(g@ =~= seq![0u64, GDT_KERNEL_CODE, GDT_KERNEL_DATA, 0u64, GDT_USER_DATA, GDT_USER_CODE, tss_low, tss_high]);
    }
    g
}

/// The `lgdt` operand for a GDT of `entries` 8-byte slots at `base`.
pub fn gdt_pointer(base: u64, entries: u16) -> (r: GdtDescriptor)
    requires
        1 <= entries <= 8192,
    ensures
        r.base == base,
        r.limit == entries * 8 - 1,
{
    let limit = (entries as u32) * 8 - 1;
    GdtDescriptor { limit: limit as u16, base }
}

} // verus!
