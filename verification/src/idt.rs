//! The 256-entry interrupt descriptor table.
use vstd::prelude::*;
use crate::gdt::Tss;

verus! {

/// Number of IDT entries.
pub const IDT_ENTRIES: usize = 256;
/// IST index of the double-fault stack.
pub const IST_DF: u8 = 1;
/// IST index of the NMI stack.
pub const IST_NMI: u8 = 2;
/// IST index of the machine-check stack.
pub const IST_MC: u8 = 3;
/// Kernel code segment selector.
pub const KERNEL_CODE_SELECTOR: u16 = 0x08;
/// Gate type of an interrupt gate (clears IF on entry).
pub const GATE_INTERRUPT: u8 = 0xE;
/// Gate type of a trap gate (keeps IF).
pub const GATE_TRAP: u8 = 0xF;
/// Size of each IST stack.
pub const IST_STACK_SIZE: u64 = 4096;

/// A 16-byte gate descriptor (Intel SDM Vol. 3A §6.10).
#[derive(Debug, Clone, Copy, PartialEq, Eq, Structural)]
pub struct IdtEntry {
    pub offset_lo: u16,
    pub selector: u16,
    pub ist_flags: u8,
    pub type_attr: u8,
    pub offset_mid: u16,
    pub offset_hi: u32,
    pub reserved: u32,
}

/// The handler address a gate encodes.
pub open spec fn gate_handler(e: IdtEntry) -> u64 {
    ((e.offset_hi as u64) << 32u64) | ((e.offset_mid as u64) << 16u64) | (e.offset_lo as u64)
}

impl IdtEntry {
    /// IST index field (bits 0-2; the other bits stay zero).
    pub open spec fn ist(self) -> u8 {
        self.ist_flags
    }

    /// Type/attribute byte: present (7), DPL (5-6), gate type (0-3).
    pub open spec fn attributes(self) -> u8 {
        self.type_attr
    }

    /// The reserved high word (always zero).
    pub open spec fn reserved_word(self) -> u32 {
        self.reserved
    }

    /// A not-present entry.
    pub fn absent() -> (r: Self)
        ensures
            r.offset_lo == 0,
            r.selector == 0,
            r.ist() == 0,
            r.attributes() == 0,
            r.offset_mid == 0,
            r.offset_hi == 0,
            r.reserved_word() == 0,
    {
        IdtEntry { offset_lo: 0, selector: 0, ist_flags: 0, type_attr: 0, offset_mid: 0, offset_hi: 0, reserved: 0 }
    }

    fn gate(handler: u64, ist: u8, dpl: u8, gate_type: u8) -> (r: Self)
        requires
            ist <= 7,
            dpl <= 3,
            gate_type == GATE_INTERRUPT || gate_type == GATE_TRAP,
        ensures
            gate_handler(r) == handler,
            r.offset_lo == (handler & 0xFFFF) as u16,
            r.offset_mid == ((handler >> 16u64) & 0xFFFF) as u16,
            r.offset_hi == ((handler >> 32u64) & 0xFFFF_FFFF) as u32,
            r.selector == KERNEL_CODE_SELECTOR,
            r.ist() == ist,
            r.attributes() == 0x80 + dpl * 32 + gate_type,
            r.reserved_word() == 0,
    {
        proof {
            assert(handler & 0xFFFFu64 <= 0xFFFF && (handler >> 16u64) & 0xFFFFu64 <= 0xFFFF && (handler >> 32u64)
                & 0xFFFF_FFFFu64 <= 0xFFFF_FFFF && (((handler >> 32u64) & 0xFFFF_FFFFu64) << 32u64) | (((handler >> 16u64)
                & 0xFFFFu64) << 16u64) | (handler & 0xFFFFu64) == handler && ist & 0x07u8 == ist && 0x80u8 | ((dpl
                & 0x03u8) << 5u8) | gate_type == 0x80 + dpl * 32 + gate_type) by (bit_vector)
                requires ist <= 7, dpl <= 3, gate_type == 0xEu8 || gate_type == 0xFu8;
        }
        let offset_lo = (handler & 0xFFFF) as u16;
        let offset_mid = ((handler >> 16) & 0xFFFF) as u16;
        let offset_hi = ((handler >> 32) & 0xFFFF_FFFF) as u32;
        let ist_flags = ist & 0x07;
        let type_attr = 0x80 | ((dpl & 0x03) << 5) | gate_type;
        IdtEntry {
            offset_lo,
            selector: KERNEL_CODE_SELECTOR,
            ist_flags,
            type_attr,
            offset_mid,
            offset_hi,
            reserved: 0,
        }
    }

    /// A present 64-bit interrupt gate to `handler` with IST index `ist`
    /// (0 = no stack switch) and privilege level `dpl`.
    pub fn interrupt_gate(handler: u64, ist: u8, dpl: u8) -> (r: Self)
        requires
            ist <= 7,
            dpl <= 3,
        ensures
            gate_handler(r) == handler,
            r.offset_lo == (handler & 0xFFFF) as u16,
            r.offset_mid == ((handler >> 16u64) & 0xFFFF) as u16,
            r.offset_hi == ((handler >> 32u64) & 0xFFFF_FFFF) as u32,
            r.selector == KERNEL_CODE_SELECTOR,
            r.ist() == ist,
            r.attributes() == 0x80 + dpl * 32 + GATE_INTERRUPT,
            r.reserved_word() == 0,
    {
        Self::gate(handler, ist, dpl, GATE_INTERRUPT)
    }

    /// A present 64-bit trap gate to `handler` (interrupts stay enabled).
    pub fn trap_gate(handler: u64, ist: u8, dpl: u8) -> (r: Self)
        requires
            ist <= 7,
            dpl <= 3,
        ensures
            gate_handler(r) == handler,
            r.offset_lo == (handler & 0xFFFF) as u16,
            r.offset_mid == ((handler >> 16u64) & 0xFFFF) as u16,
            r.offset_hi == ((handler >> 32u64) & 0xFFFF_FFFF) as u32,
            r.selector == KERNEL_CODE_SELECTOR,
            r.ist() == ist,
            r.attributes() == 0x80 + dpl * 32 + GATE_TRAP,
            r.reserved_word() == 0,
    {
        Self::gate(handler, ist, dpl, GATE_TRAP)
    }
}

/// Operand of `lidt`: size of the table minus one, and its address.
#[derive(Debug, Clone, Copy, PartialEq, Eq, Structural)]
pub struct Idtr {
    pub limit: u16,
    pub base: u64,
}

/// The `lidt` operand for the 256-entry table at `base`.
pub fn idtr_for(base: u64) -> (r: Idtr)
    ensures
        r.limit == 4095,
        r.base == base,
{
    Idtr { limit: (IDT_ENTRIES * 16 - 1) as u16, base }
}

/// Gate kind, IST index and DPL of vector `v`.
pub open spec fn gate_kind(v: int) -> (bool, u8, u8) {
    if v == 2 {
        (false, IST_NMI, 0)
    } else if v == 8 {
        (false, IST_DF, 0)
    } else if v == 18 {
        (false, IST_MC, 0)
    } else if v == 0x80 {
        (true, 0, 3)
    } else {
        (false, 0, 0)
    }
}

/// The entry for `vector` with its stub at `addr`: NMI, #DF and #MC get
/// their own IST stacks, vector 0x80 is a user-callable trap gate, and
/// every other vector a kernel interrupt gate.
pub fn idt_entry_for(vector: usize, addr: u64) -> (r: IdtEntry)
    ensures
        gate_handler(r) == addr,
        r.selector == KERNEL_CODE_SELECTOR,
        r.reserved_word() == 0,
        r.ist() == gate_kind(vector as int).1,
        r.attributes() == 0x80 + gate_kind(vector as int).2 * 32 + (if gate_kind(vector as int).0 {
            GATE_TRAP
        } else {
            GATE_INTERRUPT
        }),
{
    match vector {
        2 => IdtEntry::interrupt_gate(addr, IST_NMI, 0),
        8 => IdtEntry::interrupt_gate(addr, IST_DF, 0),
        18 => IdtEntry::interrupt_gate(addr, IST_MC, 0),
        0x80 => IdtEntry::trap_gate(addr, 0, 3),
        _ => IdtEntry::interrupt_gate(addr, 0, 0),
    }
}

/// The full table: entry `v` routes to `stubs[v]` as `idt_entry_for` says.
pub fn build_idt(stubs: &[u64]) -> (r: Vec<IdtEntry>)
    requires
        stubs@.len() == IDT_ENTRIES,
    ensures
        r@.len() == IDT_ENTRIES,
        forall|v: int|
            0 <= v < IDT_ENTRIES ==> gate_handler(#[trigger] r@[v]) == stubs@[v] && r@[v].selector
                == KERNEL_CODE_SELECTOR && r@[v].reserved_word() == 0 && r@[v].ist() == gate_kind(v).1
                && r@[v].attributes() == 0x80 + gate_kind(v).2 * 32 + (if gate_kind(v).0 {
                GATE_TRAP
            } else {
                GATE_INTERRUPT
            }),
{
    let mut idt: Vec<IdtEntry> = Vec::new();
    let mut v: usize = 0;
    while v < IDT_ENTRIES
        invariant
            v <= IDT_ENTRIES,
            stubs@.len() == IDT_ENTRIES,
            idt@.len() == v,
            forall|w: int|
                0 <= w < v ==> gate_handler(#[trigger] idt@[w]) == stubs@[w] && idt@[w].selector
                    == KERNEL_CODE_SELECTOR && idt@[w].reserved_word() == 0 && idt@[w].ist() == gate_kind(w).1
                    && idt@[w].attributes() == 0x80 + gate_kind(w).2 * 32 + (if gate_kind(w).0 {
                    GATE_TRAP
                } else {
                    GATE_INTERRUPT
                }),
        decreases IDT_ENTRIES - v,
    {
        idt.push(idt_entry_for(v, stubs[v]));
        v = v + 1;
    }
    idt
}

/// Top of an IST stack of `IST_STACK_SIZE` bytes at `base`.
pub fn ist_stack_top(base: u64) -> (r: u64)
    requires
        base + IST_STACK_SIZE <= u64::MAX,
    ensures
        r == base + IST_STACK_SIZE,
{
    base + IST_STACK_SIZE
}

/// Point the TSS interrupt stacks 1-3 at the double-fault, NMI and
/// machine-check stack tops.
pub fn setup_ist(tss: &mut Tss, df_top: u64, nmi_top: u64, mc_top: u64)
    ensures
        *final(tss) == (Tss { ist1: df_top, ist2: nmi_top, ist3: mc_top, ..*old(tss) }),
{
    tss.ist1 = df_top;
    tss.ist2 = nmi_top;
    tss.ist3 = mc_top;
}

/// Every vector but 0x80 gets a present kernel interrupt gate
/// (attributes 0x8E: interrupts are masked on entry, DPL 0); vector
/// 0x80 alone is a trap gate user code may raise (0xEF: present, DPL 3).
/// Only NMI, #DF and #MC run on their own IST stacks (indices 2, 1, 3).
pub proof fn lemma_gate_attributes(v: int)
    requires
        0 <= v < IDT_ENTRIES,
    ensures
        v != 0x80 ==> 0x80 + gate_kind(v).2 * 32 + (if gate_kind(v).0 {
            GATE_TRAP
        } else {
            GATE_INTERRUPT
        }) == 0x8E,
        v == 0x80 ==> 0x80 + gate_kind(v).2 * 32 + (if gate_kind(v).0 {
            GATE_TRAP
        } else {
            GATE_INTERRUPT
        }) == 0xEF,
        v == 2 ==> gate_kind(v).1 == 2,
        v == 8 ==> gate_kind(v).1 == 1,
        v == 18 ==> gate_kind(v).1 == 3,
        v != 2 && v != 8 && v != 18 ==> gate_kind(v).1 == 0,
{
}

} // verus!
