//! x86_64 page-table descriptors (PML4, PDPT, PD and PT entries).
//!
//! All four levels share one bit layout: present (0), writable (1),
//! user (2), accessed (5), dirty (6), huge/page-size (7), a software
//! copy-on-write bit (9), the output address in bits 12..=47, and
//! no-execute (63).
use vstd::prelude::*;
use crate::address::PhysMemoryRegion;
use crate::permissions::PtePermissions;

verus! {

pub const PTE_PRESENT: u64 = 0x1;
pub const PTE_WRITABLE: u64 = 0x2;
pub const PTE_USER: u64 = 0x4;
pub const PTE_ACCESSED: u64 = 0x20;
pub const PTE_DIRTY: u64 = 0x40;
pub const PTE_HUGE: u64 = 0x80;
pub const PTE_COW: u64 = 0x200;
pub const PTE_NX: u64 = 0x8000_0000_0000_0000;
/// Bits 12..=47: the output (physical) address.
pub const PTE_ADDR_MASK: u64 = 0x0000_FFFF_FFFF_F000;
/// The four permission bits: writable, user, copy-on-write, no-execute.
pub const PTE_PERM_MASK: u64 = 0x8000_0000_0000_0206;

/// The memory type requested for a mapping.  The x86_64 encoding here
/// does not program PAT/PCD/PWT, so every type yields the same bits.
#[derive(Debug, Clone, Copy, PartialEq, Eq, Structural)]
pub enum MemoryType {
    Normal,
    WB,
    UC,
}

pub open spec fn desc_valid(e: u64) -> bool {
    e & 0x1u64 != 0
}

pub open spec fn desc_huge(e: u64) -> bool {
    e & 0x80u64 != 0
}

pub open spec fn desc_addr(e: u64) -> u64 {
    e & 0x0000_FFFF_FFFF_F000u64
}

/// The permissions a descriptor grants.
pub open spec fn desc_perms(e: u64) -> PtePermissions {
    PtePermissions {
        read: true,
        write: e & 0x2u64 != 0,
        execute: e & 0x8000_0000_0000_0000u64 == 0,
        user: e & 0x4u64 != 0,
        cow: e & 0x200u64 != 0,
    }
}

/// The permission bits encoding `p`.
pub open spec fn perm_bits(p: PtePermissions) -> u64 {
    (if p.write { 0x2u64 } else { 0u64 }) | (if p.user { 0x4u64 } else { 0u64 }) | (if p.execute {
        0u64
    } else {
        0x8000_0000_0000_0000u64
    }) | (if p.cow { 0x200u64 } else { 0u64 })
}

/// `e` with its permission bits replaced by those of `p`.
pub open spec fn with_perms(e: u64, p: PtePermissions) -> u64 {
    (e & !0x8000_0000_0000_0206u64) | perm_bits(p)
}

/// A present, writable, user-accessible pointer to the table at `pa`.
pub open spec fn table_desc(pa: u64) -> u64 {
    PTE_PRESENT | PTE_WRITABLE | PTE_USER | (pa & PTE_ADDR_MASK)
}

/// A present, accessed mapping of `pa` with permissions `p`; `huge`
/// sets the page-size bit (used for 1 GiB and 2 MiB blocks).
pub open spec fn leaf_desc(pa: u64, huge: bool, p: PtePermissions) -> u64 {
    with_perms(PTE_PRESENT | PTE_ACCESSED | (pa & PTE_ADDR_MASK) | (if huge { PTE_HUGE } else { 0u64 }), p)
}

/// The table a descriptor points to: a present entry of the top level
/// always points to a table; below it only when the huge bit is clear.
pub open spec fn next_table_of(e: u64, top: bool) -> Option<u64> {
    if desc_valid(e) && (top || !desc_huge(e)) {
        Some(desc_addr(e))
    } else {
        None
    }
}

/// The address a leaf descriptor maps, if it is present.
pub open spec fn mapped_address_of(e: u64) -> Option<u64> {
    if desc_valid(e) {
        Some(desc_addr(e))
    } else {
        None
    }
}

/// `pa` survives the descriptor encoding: 4 KiB-aligned and below 2^48.
pub open spec fn addr_encodable(pa: u64) -> bool {
    pa & 0x0000_FFFF_FFFF_F000u64 == pa
}

/// A block of `1 << shift` bytes can map `region` at `va`.
pub open spec fn could_map_spec(shift: u64, region: PhysMemoryRegion, va: u64) -> bool {
    &&& region.start & (((1u64 << shift) - 1) as u64) == 0
    &&& va & (((1u64 << shift) - 1) as u64) == 0
    &&& region.size >= (1u64 << shift)
}

proof fn lemma_perm_fields(e: u64, w: bool, u: bool, x: bool, c: bool)
    by (bit_vector)
    ensures
        ({
            let r = (e & !0x8000_0000_0000_0206u64) | ((if w { 0x2u64 } else { 0u64 }) | (if u {
                0x4u64
            } else {
                0u64
            }) | (if x { 0u64 } else { 0x8000_0000_0000_0000u64 }) | (if c {
                0x200u64
            } else {
                0u64
            }));
            &&& (r & 0x1u64 != 0) == (e & 0x1u64 != 0)
            &&& (r & 0x80u64 != 0) == (e & 0x80u64 != 0)
            &&& r & 0x0000_FFFF_FFFF_F000u64 == e & 0x0000_FFFF_FFFF_F000u64
            &&& (r & 0x2u64 != 0) == w
            &&& (r & 0x4u64 != 0) == u
            &&& (r & 0x8000_0000_0000_0000u64 == 0) == x
            &&& (r & 0x200u64 != 0) == c
        }),
{
}

/// Replacing the permission bits keeps presence, the huge bit and the
/// address, and makes the descriptor grant exactly `p` (plus read).
pub proof fn lemma_with_perms(e: u64, p: PtePermissions)
    ensures
        desc_valid(with_perms(e, p)) == desc_valid(e),
        desc_huge(with_perms(e, p)) == desc_huge(e),
        desc_addr(with_perms(e, p)) == desc_addr(e),
        desc_perms(with_perms(e, p)) == p.effective(),
{
    lemma_perm_fields(e, p.write, p.user, p.execute, p.cow);
}

proof fn lemma_base_fields(pa: u64, h: bool)
    by (bit_vector)
    ensures
        ({
            let b = PTE_PRESENT | PTE_ACCESSED | (pa & PTE_ADDR_MASK) | (if h { PTE_HUGE } else { 0u64 });
            &&& b & 0x1u64 != 0
            &&& (b & 0x80u64 != 0) == h
            &&& b & 0x0000_FFFF_FFFF_F000u64 == pa & 0x0000_FFFF_FFFF_F000u64
        }),
{
}

/// What a freshly encoded leaf descriptor decodes to.
pub proof fn lemma_leaf_desc(pa: u64, huge: bool, p: PtePermissions)
    ensures
        desc_valid(leaf_desc(pa, huge, p)),
        desc_huge(leaf_desc(pa, huge, p)) == huge,
        desc_addr(leaf_desc(pa, huge, p)) == pa & PTE_ADDR_MASK,
        desc_perms(leaf_desc(pa, huge, p)) == p.effective(),
{
    lemma_base_fields(pa, huge);
    lemma_with_perms(PTE_PRESENT | PTE_ACCESSED | (pa & PTE_ADDR_MASK) | (if huge { PTE_HUGE } else { 0u64 }), p);
}

/// What a freshly encoded table pointer decodes to.
pub proof fn lemma_table_desc(pa: u64)
    ensures
        desc_valid(table_desc(pa)),
        !desc_huge(table_desc(pa)),
        desc_addr(table_desc(pa)) == pa & PTE_ADDR_MASK,
        desc_perms(table_desc(pa)) == (PtePermissions {
            read: true,
            write: true,
            execute: true,
            user: true,
            cow: false,
        }),
{
    assert({
        let e = PTE_PRESENT | PTE_WRITABLE | PTE_USER | (pa & PTE_ADDR_MASK);
        &&& e & 0x1u64 != 0
        &&& e & 0x80u64 == 0
        &&& e & 0x0000_FFFF_FFFF_F000u64 == pa & 0x0000_FFFF_FFFF_F000u64
        &&& e & 0x2u64 != 0
        &&& e & 0x4u64 != 0
        &&& e & 0x8000_0000_0000_0000u64 == 0
        &&& e & 0x200u64 == 0
    }) by (bit_vector);
}

/// An address is encodable exactly when it is 4 KiB-aligned and below 2^48.
pub proof fn lemma_addr_encodable(pa: u64)
    ensures
        addr_encodable(pa) <==> (pa % 4096 == 0 && pa < 0x1_0000_0000_0000),
{
    assert(pa & 0x0000_FFFF_FFFF_F000u64 == pa <==> (pa % 4096 == 0 && pa < 0x1_0000_0000_0000))
        by (bit_vector);
}

/// Whether the descriptor is present.
pub fn raw_is_valid(e: u64) -> (r: bool)
    ensures
        r == desc_valid(e),
{
    e & PTE_PRESENT != 0
}

/// The table this descriptor points to, if any.
pub fn raw_next_table_address(e: u64, top: bool) -> (r: Option<u64>)
    ensures
        r == next_table_of(e, top),
{
    if e & PTE_PRESENT != 0 {
        if top || e & PTE_HUGE == 0 {
            return Some(e & PTE_ADDR_MASK);
        }
    }
    None
}

/// A descriptor pointing to the next-level table at `pa`.
pub fn raw_new_next_table(pa: u64) -> (r: u64)
    ensures
        r == table_desc(pa),
{
    PTE_PRESENT | PTE_WRITABLE | PTE_USER | (pa & PTE_ADDR_MASK)
}

/// The permissions of a present descriptor.
pub fn raw_permissions(e: u64) -> (r: Option<PtePermissions>)
    ensures
        r == (if desc_valid(e) { Some(desc_perms(e)) } else { None }),
{
    if e & PTE_PRESENT == 0 {
        return None;
    }
    let write = e & PTE_WRITABLE != 0;
    let user = e & PTE_USER != 0;
    let nx = e & PTE_NX != 0;
    let cow = e & PTE_COW != 0;
    Some(PtePermissions::from_raw_bits(true, write, !nx, user, cow))
}

/// The permissions a descriptor grants.
pub fn raw_desc_perms(e: u64) -> (r: PtePermissions)
    ensures
        r == desc_perms(e),
{
    PtePermissions::from_raw_bits(true, e & PTE_WRITABLE != 0, e & PTE_NX == 0, e & PTE_USER != 0, e & PTE_COW != 0)
}

proof fn lemma_set_clear_sequence(e: u64, w: bool, u: bool, x: bool, c: bool)
    by (bit_vector)
    ensures
        ({
            let v1 = if w { e | 0x2u64 } else { e & !0x2u64 };
            let v2 = if u { v1 | 0x4u64 } else { v1 & !0x4u64 };
            let v3 = if x {
                v2 & !0x8000_0000_0000_0000u64
            } else {
                v2 | 0x8000_0000_0000_0000u64
            };
            let v4 = if c { v3 | 0x200u64 } else { v3 & !0x200u64 };
            v4 == (e & !0x8000_0000_0000_0206u64) | ((if w { 0x2u64 } else { 0u64 }) | (if u {
                0x4u64
            } else {
                0u64
            }) | (if x { 0u64 } else { 0x8000_0000_0000_0000u64 }) | (if c {
                0x200u64
            } else {
                0u64
            }))
        }),
{
}

/// `e` with its permission bits set from `perms` (read is implied).
pub fn raw_set_permissions(e: u64, perms: PtePermissions) -> (r: u64)
    ensures
        r == with_perms(e, perms),
{
    let v1 = if perms.is_write() { e | PTE_WRITABLE } else { e & !PTE_WRITABLE };
    let v2 = if perms.is_user() { v1 | PTE_USER } else { v1 & !PTE_USER };
    let v3 = if perms.is_execute() { v2 & !PTE_NX } else { v2 | PTE_NX };
    let v4 = if perms.is_cow() { v3 | PTE_COW } else { v3 & !PTE_COW };
    proof {
        lemma_set_clear_sequence(e, perms.write, perms.user, perms.execute, perms.cow);
    }
    v4
}

/// A present mapping of `pa`; `huge` marks a 1 GiB or 2 MiB block.
pub fn raw_new_map_pa(pa: u64, huge: bool, perms: PtePermissions) -> (r: u64)
    ensures
        r == leaf_desc(pa, huge, perms),
{
    let base = PTE_PRESENT | PTE_ACCESSED | (pa & PTE_ADDR_MASK) | (if huge { PTE_HUGE } else { 0u64 });
    raw_set_permissions(base, perms)
}

/// The address a present descriptor maps.
pub fn raw_mapped_address(e: u64) -> (r: Option<u64>)
    ensures
        r == mapped_address_of(e),
{
    if e & PTE_PRESENT == 0 {
        return None;
    }
    Some(e & PTE_ADDR_MASK)
}

/// Whether a block of `1 << shift` bytes can map `region` at `va`.
pub fn raw_could_map(shift: u64, region: PhysMemoryRegion, va: u64) -> (r: bool)
    requires
        shift < 64,
    ensures
        r == could_map_spec(shift, region, va),
{
    proof {
        assert(1u64 << shift >= 1) by (bit_vector)
            requires shift < 64;
    }
    let mask = (1u64 << shift) - 1;
    region.start_address() & mask == 0 && va & mask == 0 && region.size() >= (1u64 << shift)
}

/// Operations shared by the descriptors of every level.
pub trait PageTableEntry: Sized {
    /// The raw 64-bit descriptor.
    spec fn raw_value(self) -> u64;

    fn is_valid(self) -> (r: bool)
        ensures
            r == desc_valid(self.raw_value()),
    ;

    fn as_raw(self) -> (r: u64)
        ensures
            r == self.raw_value(),
    ;

    fn from_raw(v: u64) -> (r: Self)
        ensures
            r.raw_value() == v,
    ;

    fn invalid() -> (r: Self)
        ensures
            r.raw_value() == 0,
    ;
}

/// Descriptors that can point to a next-level table.
pub trait TableMapper: PageTableEntry {
    /// Whether this is the top (PML4) level, whose entries always point
    /// to a table.
    spec fn is_top_level() -> bool;

    fn next_table_address(self) -> (r: Option<u64>)
        ensures
            r == next_table_of(self.raw_value(), Self::is_top_level()),
    ;

    fn new_next_table(pa: u64) -> (r: Self)
        ensures
            r.raw_value() == table_desc(pa),
    ;
}

/// Descriptors that can map physical memory.
pub trait PaMapper: PageTableEntry {
    /// log2 of the size of the block one descriptor maps.
    spec fn shift_spec() -> u64;

    fn new_map_pa(page_address: u64, memory_type: MemoryType, perms: PtePermissions) -> (r: Self)
        ensures
            r.raw_value() == leaf_desc(page_address, Self::shift_spec() > 12, perms),
    ;

    fn map_shift() -> (r: u64)
        ensures
            r == Self::shift_spec(),
    ;

    fn could_map(region: PhysMemoryRegion, va: u64) -> (r: bool)
        ensures
            r == could_map_spec(Self::shift_spec(), region, va),
    ;

    fn mapped_address(self) -> (r: Option<u64>)
        ensures
            r == mapped_address_of(self.raw_value()),
    ;
}

/// Entry of the top-level table (PML4).
#[derive(Debug, Clone, Copy, PartialEq, Eq, Structural)]
pub struct PML4Descriptor(u64);

/// Entry of a page-directory-pointer table (maps 1 GiB blocks).
#[derive(Debug, Clone, Copy, PartialEq, Eq, Structural)]
pub struct PDPTDescriptor(u64);

/// Entry of a page directory (maps 2 MiB blocks).
#[derive(Debug, Clone, Copy, PartialEq, Eq, Structural)]
pub struct PDDescriptor(u64);

/// Entry of a page table (maps 4 KiB pages).
#[derive(Debug, Clone, Copy, PartialEq, Eq, Structural)]
pub struct PTDescriptor(u64);

impl PageTableEntry for PML4Descriptor {
    closed spec fn raw_value(self) -> u64 {
        self.0
    }

    fn is_valid(self) -> (r: bool) {
        raw_is_valid(self.0)
    }

    fn as_raw(self) -> (r: u64) {
        self.0
    }

    fn from_raw(v: u64) -> (r: Self) {
        PML4Descriptor(v)
    }

    fn invalid() -> (r: Self) {
        PML4Descriptor(0)
    }
}

impl PageTableEntry for PDPTDescriptor {
    closed spec fn raw_value(self) -> u64 {
        self.0
    }

    fn is_valid(self) -> (r: bool) {
        raw_is_valid(self.0)
    }

    fn as_raw(self) -> (r: u64) {
        self.0
    }

    fn from_raw(v: u64) -> (r: Self) {
        PDPTDescriptor(v)
    }

    fn invalid() -> (r: Self) {
        PDPTDescriptor(0)
    }
}

impl PageTableEntry for PDDescriptor {
    closed spec fn raw_value(self) -> u64 {
        self.0
    }

    fn is_valid(self) -> (r: bool) {
        raw_is_valid(self.0)
    }

    fn as_raw(self) -> (r: u64) {
        self.0
    }

    fn from_raw(v: u64) -> (r: Self) {
        PDDescriptor(v)
    }

    fn invalid() -> (r: Self) {
        PDDescriptor(0)
    }
}

impl PageTableEntry for PTDescriptor {
    closed spec fn raw_value(self) -> u64 {
        self.0
    }

    fn is_valid(self) -> (r: bool) {
        raw_is_valid(self.0)
    }

    fn as_raw(self) -> (r: u64) {
        self.0
    }

    fn from_raw(v: u64) -> (r: Self) {
        PTDescriptor(v)
    }

    fn invalid() -> (r: Self) {
        PTDescriptor(0)
    }
}

impl TableMapper for PML4Descriptor {
    open spec fn is_top_level() -> bool {
        true
    }

    fn next_table_address(self) -> (r: Option<u64>) {
        raw_next_table_address(self.0, true)
    }

    fn new_next_table(pa: u64) -> (r: Self) {
        PML4Descriptor(raw_new_next_table(pa))
    }
}

impl TableMapper for PDPTDescriptor {
    open spec fn is_top_level() -> bool {
        false
    }

    fn next_table_address(self) -> (r: Option<u64>) {
        raw_next_table_address(self.0, false)
    }

    fn new_next_table(pa: u64) -> (r: Self) {
        PDPTDescriptor(raw_new_next_table(pa))
    }
}

impl TableMapper for PDDescriptor {
    open spec fn is_top_level() -> bool {
        false
    }

    fn next_table_address(self) -> (r: Option<u64>) {
        raw_next_table_address(self.0, false)
    }

    fn new_next_table(pa: u64) -> (r: Self) {
        PDDescriptor(raw_new_next_table(pa))
    }
}

impl PaMapper for PDPTDescriptor {
    open spec fn shift_spec() -> u64 {
        30
    }

    fn new_map_pa(page_address: u64, memory_type: MemoryType, perms: PtePermissions) -> (r: Self) {
        PDPTDescriptor(raw_new_map_pa(page_address, true, perms))
    }

    fn map_shift() -> (r: u64) {
        30
    }

    fn could_map(region: PhysMemoryRegion, va: u64) -> (r: bool) {
        raw_could_map(30, region, va)
    }

    fn mapped_address(self) -> (r: Option<u64>) {
        raw_mapped_address(self.0)
    }
}

impl PaMapper for PDDescriptor {
    open spec fn shift_spec() -> u64 {
        21
    }

    fn new_map_pa(page_address: u64, memory_type: MemoryType, perms: PtePermissions) -> (r: Self) {
        PDDescriptor(raw_new_map_pa(page_address, true, perms))
    }

    fn map_shift() -> (r: u64) {
        21
    }

    fn could_map(region: PhysMemoryRegion, va: u64) -> (r: bool) {
        raw_could_map(21, region, va)
    }

    fn mapped_address(self) -> (r: Option<u64>) {
        raw_mapped_address(self.0)
    }
}

impl PaMapper for PTDescriptor {
    open spec fn shift_spec() -> u64 {
        12
    }

    fn new_map_pa(page_address: u64, memory_type: MemoryType, perms: PtePermissions) -> (r: Self) {
        PTDescriptor(raw_new_map_pa(page_address, false, perms))
    }

    fn map_shift() -> (r: u64) {
        12
    }

    fn could_map(region: PhysMemoryRegion, va: u64) -> (r: bool) {
        raw_could_map(12, region, va)
    }

    fn mapped_address(self) -> (r: Option<u64>) {
        raw_mapped_address(self.0)
    }
}

impl PDPTDescriptor {
    pub fn permissions(self) -> (r: Option<PtePermissions>)
        ensures
            r == (if desc_valid(self.raw_value()) { Some(desc_perms(self.raw_value())) } else { None }),
    {
        raw_permissions(self.0)
    }

    pub fn set_permissions(self, perms: PtePermissions) -> (r: Self)
        ensures
            r.raw_value() == with_perms(self.raw_value(), perms),
    {
        PDPTDescriptor(raw_set_permissions(self.0, perms))
    }
}

impl PDDescriptor {
    pub fn permissions(self) -> (r: Option<PtePermissions>)
        ensures
            r == (if desc_valid(self.raw_value()) { Some(desc_perms(self.raw_value())) } else { None }),
    {
        raw_permissions(self.0)
    }

    pub fn set_permissions(self, perms: PtePermissions) -> (r: Self)
        ensures
            r.raw_value() == with_perms(self.raw_value(), perms),
    {
        PDDescriptor(raw_set_permissions(self.0, perms))
    }
}

impl PTDescriptor {
    pub fn permissions(self) -> (r: Option<PtePermissions>)
        ensures
            r == (if desc_valid(self.raw_value()) { Some(desc_perms(self.raw_value())) } else { None }),
    {
        raw_permissions(self.0)
    }

    pub fn set_permissions(self, perms: PtePermissions) -> (r: Self)
        ensures
            r.raw_value() == with_perms(self.raw_value(), perms),
    {
        PTDescriptor(raw_set_permissions(self.0, perms))
    }
}

} // verus!
