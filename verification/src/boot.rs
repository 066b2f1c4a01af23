//! Boot-time logic: the Multiboot2 command line, the physical memory
//! plan handed to the early allocator, and the initial kernel mappings.
use vstd::prelude::*;
use vstd::utf8::{valid_utf8, decode_utf8};
use vstd::string::StringExecFns;
use crate::address::{PhysMemoryRegion, VirtMemoryRegion};
use crate::error::KernelError;
use crate::permissions::PtePermissions;
use crate::pg_descriptors::MemoryType;
use crate::pg_tables::{
    PageAllocator, PageTableMapper, MappingContext, MapAttributes, map_range, mapped_prefix,
    preserves_valid, allocate_zeroed_table, lemma_preserves_trans, lemma_mapped_prefix_preserved,
    map_law_applies, block_level, block_size, lemma_block_shapes, pg_index_spec,
};
use crate::pg_descriptors::desc_valid;
use crate::range_map::{
    map_cost, block_new_tables, fresh_map_range, range_cost, root_slots_empty, root_row_within, range_va,
    budget_from, lemma_budget_alloc, lemma_small_block, lemma_cost_to_boundary, lemma_fresh_mappable,
};

verus! {

/// Multiboot2 tag type of the end-of-tags marker.
pub const MBOOT_TAG_END: u32 = 0;

/// Multiboot2 tag type of the boot command line.
pub const MBOOT_TAG_CMDLINE: u32 = 1;

/// Multiboot2 tag type of the memory map.
pub const MBOOT_TAG_MMAP: u32 = 6;

/// Higher-half virtual address of physical address 0.
pub const KERNEL_BASE: u64 = 0xFFFF_FFFF_8000_0000;

/// Little-endian `u32` at byte `at` of `s`.
pub open spec fn read_u32_spec(s: Seq<u8>, at: int) -> u32 {
    (s[at] as u32) | ((s[at + 1] as u32) << 8u32) | ((s[at + 2] as u32) << 16u32) | ((s[at + 3] as u32)
        << 24u32)
}

/// `x` rounded up to a multiple of 8.
pub open spec fn round_up8(x: int) -> int {
    (x + 7) - (x + 7) % 8
}

/// Index of the first zero byte of `s` at or after `i` (or its length).
pub open spec fn first_nul(s: Seq<u8>, i: int) -> int
    decreases s.len() - i,
{
    if i >= s.len() || i < 0 {
        s.len() as int
    } else if s[i] == 0 {
        i
    } else {
        first_nul(s, i + 1)
    }
}

/// The command-line bytes of the tag at byte `tag` of size `size`: the
/// string after the 8-byte header, up to its NUL, if non-empty.
pub open spec fn cmdline_in_tag(info: Seq<u8>, tag: int, size: int) -> Option<Seq<u8>> {
    let max_len = if size >= 9 { size - 9 } else { 0 };
    if max_len == 0 || tag + 8 + max_len > info.len() {
        None
    } else {
        let bytes = info.subrange(tag + 8, tag + 8 + max_len);
        let len = first_nul(bytes, 0);
        if len == 0 {
            None
        } else {
            Some(bytes.subrange(0, len))
        }
    }
}

/// Search the tags from byte offset `offset` of the tag area (which
/// starts at byte 8 of the information structure of `total` bytes).
pub open spec fn cmdline_search(info: Seq<u8>, total: int, offset: int) -> Option<Seq<u8>>
    decreases total - offset,
{
    let tag = 8 + offset;
    if offset < 0 || tag + 8 > total || tag + 8 > info.len() {
        None
    } else {
        let ty = read_u32_spec(info, tag);
        let size = read_u32_spec(info, tag + 4) as int;
        if ty == 0 {
            None
        } else if ty == 1 {
            cmdline_in_tag(info, tag, size)
        } else {
            let next = round_up8(offset + size);
            if next <= offset || next >= total {
                None
            } else {
                cmdline_search(info, total, next)
            }
        }
    }
}

/// The command line a Multiboot2 information structure carries, as
/// bytes: the structure's first `u32` is its total size.
pub open spec fn cmdline_spec(info: Seq<u8>) -> Option<Seq<u8>> {
    if info.len() < 4 {
        None
    } else {
        cmdline_search(info, read_u32_spec(info, 0) as int, 0)
    }
}

fn read_u32(s: &[u8], at: usize) -> (r: u32)
    requires
        at + 4 <= s@.len(),
    ensures
        r == read_u32_spec(s@, at as int),
{
    (s[at] as u32) | ((s[at + 1] as u32) << 8u32) | ((s[at + 2] as u32) << 16u32) | ((s[at + 3] as u32) << 24u32)
}

/// The bytes of the command line in the Multiboot2 information structure
/// `info` (the structure's bytes, from its first byte on).
pub fn find_cmdline_bytes(info: &[u8]) -> (r: Option<Vec<u8>>)
    ensures
        r matches Some(v) ==> cmdline_spec(info@) == Some(v@),
        r is None ==> cmdline_spec(info@) is None,
{
    if info.len() < 4 {
        return None;
    }
    let total = read_u32(info, 0) as u64;
    let mut offset: u64 = 0;
    loop
        invariant
            info@.len() >= 4,
            total as int == read_u32_spec(info@, 0) as int,
            total <= 0xFFFF_FFFF,
            offset <= total,
            cmdline_spec(info@) == cmdline_search(info@, total as int, offset as int),
        decreases total - offset,
    {
        let tag = 8 + offset;
        if tag + 8 > total || tag + 8 > info.len() as u64 {
            return None;
        }
        let tag = tag as usize;
        let ty = read_u32(info, tag);
        let size = read_u32(info, tag + 4) as u64;
        if ty == MBOOT_TAG_END {
            return None;
        }
        if ty == MBOOT_TAG_CMDLINE {
            let max_len = if size >= 9 { size - 9 } else { 0 };
            if max_len == 0 || (tag as u64) + 8 + max_len > info.len() as u64 {
                return None;
            }
            let max_len = max_len as usize;
            let start = tag + 8;
            let ghost bytes = info@.subrange(start as int, (start + max_len) as int);
            let mut len: usize = 0;
            while len < max_len && info[start + len] != 0
                invariant
                    info@.len() == info.len(),
                    len <= max_len,
                    start + max_len <= info@.len(),
                    bytes == info@.subrange(start as int, (start + max_len) as int),
                    first_nul(bytes, 0) == first_nul(bytes, len as int),
                decreases max_len - len,
            {
                len = len + 1;
            }
            if len == 0 {
                return None;
            }
            let mut out: Vec<u8> = Vec::new();
            let mut i: usize = 0;
            while i < len
                invariant
                    info@.len() == info.len(),
                    i <= len,
                    len <= max_len,
                    start + max_len <= info@.len(),
                    out@ == info@.subrange(start as int, (start + i) as int),
                decreases len - i,
            {
                out.push(info[start + i]);
                i = i + 1;
            }
            proof {
                assert(out@ =~= bytes.subrange(0, len as int));
            }
            return Some(out);
        }
        let x: u64 = offset + size + 7;
        let next = x & !7u64;
        proof {
            assert(x & !7u64 == x - x % 8) by (bit_vector);
        }
        if next <= offset || next >= total {
            return None;
        }
        offset = next;
    }
}

/// `core::str::from_utf8`: the text of `bytes` when they are valid
/// UTF-8.  The contract states what the standard library documents:
/// success exactly on valid UTF-8, and the decoded characters.
#[verifier::external_body]
fn str_from_utf8(bytes: &[u8]) -> (r: Option<&str>)
    ensures
        r is Some <==> valid_utf8(bytes@),
        r matches Some(s) ==> s@ == decode_utf8(bytes@),
{
    core::str::from_utf8(bytes).ok()
}

/// The kernel command line of a Multiboot2 information structure, when
/// present, non-empty and valid UTF-8.
pub fn parse_cmdline(info: &[u8]) -> (r: Option<String>)
    ensures
        r matches Some(s) ==> cmdline_spec(info@) matches Some(b) && valid_utf8(b) && s@ == decode_utf8(b),
        r is None ==> cmdline_spec(info@) is None || !valid_utf8(cmdline_spec(info@)->Some_0),
{
    match find_cmdline_bytes(info) {
        None => None,
        Some(bytes) => match str_from_utf8(bytes.as_slice()) {
            Some(s) => Some(String::from_str(s)),
            None => None,
        },
    }
}

/// The command line recorded at boot; none is kept yet, so it is empty.
pub fn get_cmdline() -> (r: &'static str)
    ensures
        r@ == Seq::<char>::empty(),
{
    proof {
        reveal_strlit("");
    }
    ""
}


/// Physical start of the kernel image.
pub const KERNEL_IMAGE_PHYS: u64 = 0x10_0000;

/// Size of the kernel image region.
pub const KERNEL_IMAGE_SIZE: u64 = 0x20_0000;

/// Virtual address of the kernel image.
pub const KERNEL_IMAGE_VIRT: u64 = 0xffff_ffff_8010_0000;

/// Start of the linear map built at boot.
pub const BOOT_LINEAR_VIRT: u64 = 0xffff_8000_0000_0000;

/// Size of the linear map built at boot (the first 4 GiB).
pub const BOOT_LINEAR_SIZE: u64 = 0x1_0000_0000;

/// Size of the identity map kept during the boot transition.
pub const BOOT_IDENTITY_SIZE: u64 = 0x20_0000;

/// Physical base of the local APIC registers.
pub const LOCAL_APIC_PHYS: u64 = 0xFEE0_0000;

/// Size reserved for the local APIC registers.
pub const LOCAL_APIC_SIZE: u64 = 0x1000;

/// One entry of the firmware memory map.
#[derive(Debug, Clone, Copy, PartialEq, Eq, Structural)]
pub struct MemoryArea {
    pub start: u64,
    pub size: u64,
    /// The firmware reports the area as available RAM.
    pub available: bool,
}

/// What the early allocator is given: RAM to use and ranges to keep out.
pub struct MemoryPlan {
    pub available: Vec<PhysMemoryRegion>,
    pub reserved: Vec<PhysMemoryRegion>,
}

/// The available areas of a memory map, in order, as regions.
pub open spec fn available_regions(areas: Seq<MemoryArea>) -> Seq<PhysMemoryRegion>
    decreases areas.len(),
{
    if areas.len() == 0 {
        Seq::empty()
    } else {
        let rest = available_regions(areas.drop_last());
        let a = areas.last();
        if a.available {
            rest.push(PhysMemoryRegion { start: a.start, size: a.size })
        } else {
            rest
        }
    }
}

/// The reservations: the kernel image, the boot module (initrd) if any,
/// and the local APIC registers.
pub open spec fn reserved_regions(module: Option<(u32, u32)>) -> Seq<PhysMemoryRegion> {
    let kernel = PhysMemoryRegion { start: KERNEL_IMAGE_PHYS, size: KERNEL_IMAGE_SIZE };
    let apic = PhysMemoryRegion { start: LOCAL_APIC_PHYS, size: LOCAL_APIC_SIZE };
    match module {
        Some((s, e)) => seq![kernel, PhysMemoryRegion { start: s as u64, size: (e - s) as u64 }, apic],
        None => seq![kernel, apic],
    }
}

/// The memory the early allocator manages, from the firmware memory map
/// and the first boot module (`start`, `end`).
pub fn boot_memory_plan(areas: &[MemoryArea], module: Option<(u32, u32)>) -> (r: MemoryPlan)
    requires
        module matches Some((s, e)) ==> s <= e,
    ensures
        r.available@ == available_regions(areas@),
        r.reserved@ == reserved_regions(module),
{
    let mut available: Vec<PhysMemoryRegion> = Vec::new();
    let mut i: usize = 0;
    while i < areas.len()
        invariant
            i <= areas@.len(),
            available@ == available_regions(areas@.subrange(0, i as int)),
        decreases areas@.len() - i,
    {
        let a = areas[i];
        if a.available {
            available.push(PhysMemoryRegion::new(a.start, a.size));
        }
        proof {
            assert(areas@.subrange(0, (i + 1) as int).drop_last() =~= areas@.subrange(0, i as int));
        }
        i = i + 1;
    }
    proof {
        assert(areas@.subrange(0, areas@.len() as int) =~= areas@);
    }
    let mut reserved: Vec<PhysMemoryRegion> = Vec::new();
    reserved.push(PhysMemoryRegion::new(KERNEL_IMAGE_PHYS, KERNEL_IMAGE_SIZE));
    if let Some((s, e)) = module {
        reserved.push(PhysMemoryRegion::new(s as u64, (e - s) as u64));
    }
    reserved.push(PhysMemoryRegion::new(LOCAL_APIC_PHYS, LOCAL_APIC_SIZE));
    proof {
        assert(reserved@ =~= reserved_regions(module));
    }
    MemoryPlan { available, reserved }
}

/// The region a memory-map area describes.
pub open spec fn area_region(a: MemoryArea) -> PhysMemoryRegion {
    PhysMemoryRegion { start: a.start, size: a.size }
}

/// Every region the early allocator is handed is an area the firmware
/// reports available: region `i` is the area `j` returned.
pub proof fn lemma_available_region_source(areas: Seq<MemoryArea>, i: int) -> (j: int)
    requires
        0 <= i < available_regions(areas).len(),
    ensures
        0 <= j < areas.len(),
        areas[j].available,
        available_regions(areas)[i] == area_region(areas[j]),
    decreases areas.len(),
{
    let init = areas.drop_last();
    let rest = available_regions(init);
    if i < rest.len() {
        let j = lemma_available_region_source(init, i);
        assert(areas[j] == init[j]);
        j
    } else {
        (areas.len() - 1) as int
    }
}

/// Every available area of the memory map is handed to the early
/// allocator, and it gets no more regions than the map has areas.
pub proof fn lemma_available_regions_are_available_areas(areas: Seq<MemoryArea>)
    ensures
        available_regions(areas).len() <= areas.len(),
        forall|j: int|
            0 <= j < areas.len() && #[trigger] areas[j].available ==> available_regions(areas).contains(
                area_region(areas[j]),
            ),
    decreases areas.len(),
{
    if areas.len() > 0 {
        let init = areas.drop_last();
        lemma_available_regions_are_available_areas(init);
        let rest = available_regions(init);
        let a = areas.last();
        let r = available_regions(areas);
        assert forall|j: int| 0 <= j < areas.len() && #[trigger] areas[j].available implies r.contains(
            area_region(areas[j]),
        ) by {
            if j < areas.len() - 1 {
                assert(init[j] == areas[j]);
                let k = choose|k: int| 0 <= k < rest.len() && rest[k] == area_region(init[j]);
                if a.available {
                    assert(r[k] == rest[k]);
                }
            } else {
                assert(r[r.len() - 1] == area_region(a));
            }
        }
    }
}

/// Whether byte `p` lies in one of `regions`.
pub open spec fn covered(regions: Seq<PhysMemoryRegion>, p: int) -> bool {
    exists|i: int| 0 <= i < regions.len() && #[trigger] regions[i].start <= p < regions[i].start + regions[i].size
}

/// The early allocator is kept off the kernel image, the local APIC
/// registers and the boot module: the boot module (`s`, `e`) is one of
/// the reservations, and every byte of each of them is reserved.
pub proof fn lemma_reservations_cover(module: Option<(u32, u32)>, p: int)
    requires
        module matches Some((s, e)) ==> s <= e,
    ensures
        module matches Some((s, e)) ==> reserved_regions(module).contains(
            PhysMemoryRegion { start: s as u64, size: (e - s) as u64 },
        ),
        module matches Some((s, e)) && s <= p < e ==> covered(reserved_regions(module), p),
        KERNEL_IMAGE_PHYS <= p < KERNEL_IMAGE_PHYS + KERNEL_IMAGE_SIZE ==> covered(reserved_regions(module), p),
        LOCAL_APIC_PHYS <= p < LOCAL_APIC_PHYS + LOCAL_APIC_SIZE ==> covered(reserved_regions(module), p),
{
    let r = reserved_regions(module);
    match module {
        Some((s, e)) => {
            assert(r[1] == PhysMemoryRegion { start: s as u64, size: (e - s) as u64 });
            assert(r.contains(r[1]));
            if s <= p < e {
                assert(r[1].start <= p < r[1].start + r[1].size);
            }
            if KERNEL_IMAGE_PHYS <= p < KERNEL_IMAGE_PHYS + KERNEL_IMAGE_SIZE {
                assert(r[0].start <= p < r[0].start + r[0].size);
            }
            if LOCAL_APIC_PHYS <= p < LOCAL_APIC_PHYS + LOCAL_APIC_SIZE {
                assert(r[2].start <= p < r[2].start + r[2].size);
            }
        },
        None => {
            if KERNEL_IMAGE_PHYS <= p < KERNEL_IMAGE_PHYS + KERNEL_IMAGE_SIZE {
                assert(r[0].start <= p < r[0].start + r[0].size);
            }
            if LOCAL_APIC_PHYS <= p < LOCAL_APIC_PHYS + LOCAL_APIC_SIZE {
                assert(r[1].start <= p < r[1].start + r[1].size);
            }
        },
    }
}

pub open spec fn kernel_image_perms() -> PtePermissions {
    PtePermissions { read: true, write: true, execute: true, user: false, cow: false }
}

pub open spec fn linear_map_perms() -> PtePermissions {
    PtePermissions { read: true, write: true, execute: false, user: false, cow: false }
}

pub open spec fn identity_map_perms() -> PtePermissions {
    PtePermissions { read: true, write: false, execute: true, user: false, cow: false }
}

proof fn lemma_boot_root_indices(off: u64)
    by (bit_vector)
    ensures
        off < 0x20_0000u64 ==> ((0xffff_ffff_8010_0000u64 + off) as u64 >> 39u64) & 511u64 == 511u64,
        off < 0x1_0000_0000u64 ==> ((0xffff_8000_0000_0000u64 + off) as u64 >> 39u64) & 511u64 == 256u64,
        off < 0x20_0000u64 ==> ((0u64 + off) as u64 >> 39u64) & 511u64 == 0u64,
{
}

/// The kernel image is mapped page by page; it needs a table at each
/// level for its first page and one more last-level table where it
/// crosses a 2 MiB boundary.
/// The alignments of the boot mappings' block addresses.
proof fn lemma_boot_constants()
    by (bit_vector)
    ensures
        0x10_0000u64 & 0x1F_FFFFu64 != 0,
        0xffff_ffff_8010_1000u64 & 0xFFFu64 == 0,
        0xffff_ffff_8010_1000u64 & 0x1F_FFFFu64 == 0x10_1000u64,
        0xffff_ffff_8020_0000u64 & 0x7F_FFFF_FFFFu64 != 0,
        0xffff_ffff_8020_0000u64 & 0x3FFF_FFFFu64 != 0,
        0xffff_ffff_8020_0000u64 & 0x1F_FFFFu64 == 0,
        0xffff_ffff_8020_1000u64 & 0xFFFu64 == 0,
        0xffff_ffff_8020_1000u64 & 0x1F_FFFFu64 == 0x1000u64,
        0xffff_8000_0000_0000u64 & 0x3FFF_FFFFu64 == 0,
        0xffff_8000_4000_0000u64 & 0x3FFF_FFFFu64 == 0,
        0xffff_8000_8000_0000u64 & 0x3FFF_FFFFu64 == 0,
        0xffff_8000_c000_0000u64 & 0x3FFF_FFFFu64 == 0,
        0xffff_8000_4000_0000u64 & 0x7F_FFFF_FFFFu64 != 0,
        0xffff_8000_8000_0000u64 & 0x7F_FFFF_FFFFu64 != 0,
        0xffff_8000_c000_0000u64 & 0x7F_FFFF_FFFFu64 != 0,
        0u64 & 0x3FFF_FFFFu64 == 0,
        0u64 & 0x1F_FFFFu64 == 0,
        0x4000_0000u64 & 0x3FFF_FFFFu64 == 0,
        0x8000_0000u64 & 0x3FFF_FFFFu64 == 0,
        0xc000_0000u64 & 0x3FFF_FFFFu64 == 0,
        0u64 & 0x1u64 == 0,
{
}

proof fn lemma_kernel_image_cost()
    ensures
        map_cost(KERNEL_IMAGE_VIRT, KERNEL_IMAGE_PHYS, KERNEL_IMAGE_SIZE, true) == 4,
{
    lemma_boot_constants();
    lemma_small_block(0xffff_ffff_8010_0000u64, 0x10_0000u64, 0x20_0000);
    assert(block_size(3) == 4096);
    lemma_cost_to_boundary(0xffff_ffff_8010_1000u64, 0x10_1000, 0x1F_F000);
    lemma_small_block(0xffff_ffff_8020_0000u64, 0x20_0000u64, 0x10_0000);
    assert(block_new_tables(0xffff_ffff_8020_0000u64, 3, false) == 1);
    lemma_cost_to_boundary(0xffff_ffff_8020_1000u64, 0x20_1000, 0xF_F000);
    assert(map_cost(0xffff_ffff_8020_1000u64, 0x20_1000, 0xF_F000, false) == 0);
    assert(map_cost(0xffff_ffff_8020_0000u64, 0x20_0000, 0x10_0000, false) == 1);
    assert(map_cost(0xffff_ffff_8010_1000u64, 0x10_1000, 0x1F_F000, false) == 1);
    assert(block_new_tables(0xffff_ffff_8010_0000u64, 3, true) == 3);
}

/// The linear map is four 1 GiB blocks under one new table.
proof fn lemma_linear_map_cost()
    ensures
        map_cost(BOOT_LINEAR_VIRT, 0, BOOT_LINEAR_SIZE, true) == 1,
{
    lemma_boot_constants();
    lemma_block_shapes(1, PhysMemoryRegion { start: 0, size: 0x1_0000_0000 }, 0xffff_8000_0000_0000u64);
    lemma_block_shapes(1, PhysMemoryRegion { start: 0x4000_0000, size: 0xc000_0000 }, 0xffff_8000_4000_0000u64);
    lemma_block_shapes(1, PhysMemoryRegion { start: 0x8000_0000, size: 0x8000_0000 }, 0xffff_8000_8000_0000u64);
    lemma_block_shapes(1, PhysMemoryRegion { start: 0xc000_0000, size: 0x4000_0000 }, 0xffff_8000_c000_0000u64);
    assert(block_level(0xffff_8000_c000_0000u64, 0xc000_0000, 0x4000_0000) == 1);
    assert(map_cost(0xffff_8000_c000_0000u64, 0xc000_0000, 0x4000_0000, false) == 0);
    assert(block_level(0xffff_8000_8000_0000u64, 0x8000_0000, 0x8000_0000) == 1);
    assert(map_cost(0xffff_8000_8000_0000u64, 0x8000_0000, 0x8000_0000, false) == 0);
    assert(block_level(0xffff_8000_4000_0000u64, 0x4000_0000, 0xc000_0000) == 1);
    assert(map_cost(0xffff_8000_4000_0000u64, 0x4000_0000, 0xc000_0000, false) == 0);
    assert(block_level(0xffff_8000_0000_0000u64, 0, 0x1_0000_0000) == 1);
}

/// The identity map is one 2 MiB block, below two new tables.
proof fn lemma_identity_map_cost()
    ensures
        map_cost(0, 0, BOOT_IDENTITY_SIZE, true) == 2,
{
    lemma_boot_constants();
    lemma_block_shapes(1, PhysMemoryRegion { start: 0, size: 0x20_0000 }, 0);
    lemma_block_shapes(2, PhysMemoryRegion { start: 0, size: 0x20_0000 }, 0);
    assert(block_level(0, 0, 0x20_0000) == 2);
}

/// Build the boot page tables: a fresh top-level table holding the
/// kernel image at its higher-half address, a linear map of the first
/// 4 GiB, and an identity map of the first 2 MiB.  Returns the physical
/// address of the top-level table. Eight table frames are enough: the
/// top-level table, four for the kernel image (mapped page by page
/// across a 2 MiB boundary), one for the linear map's 1 GiB blocks and
/// two for the identity map's 2 MiB block.
pub fn bootstrap_page_tables<A: PageAllocator, M: PageTableMapper>(ctx: &mut MappingContext<A, M>) -> (r: Result<
    u64,
    KernelError,
>)
    requires
        old(ctx).wf(),
    ensures
        final(ctx).wf(),
        preserves_valid(old(ctx).mapper.tables(), final(ctx).mapper.tables()),
        old(ctx).can_extend(8) ==> r is Ok,
        r matches Ok(root) ==> {
            &&& !old(ctx).mapper.tables().contains_key(root)
            &&& mapped_prefix(
                final(ctx).mapper.tables(),
                root,
                KERNEL_IMAGE_VIRT,
                KERNEL_IMAGE_PHYS,
                KERNEL_IMAGE_SIZE as nat,
                kernel_image_perms(),
            )
            &&& mapped_prefix(
                final(ctx).mapper.tables(),
                root,
                BOOT_LINEAR_VIRT,
                0,
                BOOT_LINEAR_SIZE as nat,
                linear_map_perms(),
            )
            &&& mapped_prefix(final(ctx).mapper.tables(), root, 0, 0, BOOT_IDENTITY_SIZE as nat, identity_map_perms())
        },
{
    let ghost m0 = ctx.mapper.tables();
    let ghost c0 = *ctx;
    let pml4 = allocate_zeroed_table(ctx)?;
    let ghost m1 = ctx.mapper.tables();
    let ghost c1 = *ctx;
    let a1 = MapAttributes {
        phys: PhysMemoryRegion::new(KERNEL_IMAGE_PHYS, KERNEL_IMAGE_SIZE),
        virt: VirtMemoryRegion::new(KERNEL_IMAGE_VIRT, KERNEL_IMAGE_SIZE),
        mem_type: MemoryType::Normal,
        perms: PtePermissions::rwx(false),
    };
    proof {
        lemma_budget_alloc(c0, c1, pml4);
        lemma_kernel_image_cost();
        lemma_boot_constants();
        assert forall|off: u64| off < KERNEL_IMAGE_SIZE implies !desc_valid(
            #[trigger] m1[pml4][pg_index_spec(range_va(KERNEL_IMAGE_VIRT, off), 39)],
        ) by {
            lemma_boot_root_indices(off);
        }
        assert(root_slots_empty(m1, pml4, KERNEL_IMAGE_VIRT, KERNEL_IMAGE_SIZE));
        assert(fresh_map_range(m1, pml4, a1));
        lemma_fresh_mappable(m1, pml4, a1);
        if c0.can_extend(8) {
            assert(c0.can_extend(7 + 1));
            assert(c1.can_extend(range_cost(a1)));
        }
    }
    let res1 = map_range(pml4, a1, ctx);
    let ghost m2 = ctx.mapper.tables();
    let ghost c2 = *ctx;
    proof {
        lemma_preserves_trans(m0, m1, m2);
    }
    res1?;
    assert(map_law_applies(a1));
    let a2 = MapAttributes {
        phys: PhysMemoryRegion::new(0, BOOT_LINEAR_SIZE),
        virt: VirtMemoryRegion::new(BOOT_LINEAR_VIRT, BOOT_LINEAR_SIZE),
        mem_type: MemoryType::Normal,
        perms: PtePermissions::rw(false),
    };
    proof {
        lemma_linear_map_cost();
        if m2[pml4][256] != m1[pml4][256] {
            let off = choose|off: u64|
                off < KERNEL_IMAGE_SIZE && #[trigger] pg_index_spec(range_va(KERNEL_IMAGE_VIRT, off), 39) == 256;
            lemma_boot_root_indices(off);
        }
        assert forall|off: u64| off < BOOT_LINEAR_SIZE implies !desc_valid(
            #[trigger] m2[pml4][pg_index_spec(range_va(BOOT_LINEAR_VIRT, off), 39)],
        ) by {
            lemma_boot_root_indices(off);
        }
        assert(root_slots_empty(m2, pml4, BOOT_LINEAR_VIRT, BOOT_LINEAR_SIZE));
        assert(fresh_map_range(m2, pml4, a2));
        lemma_fresh_mappable(m2, pml4, a2);
        if c0.can_extend(8) {
            assert(c1.can_extend(3 + range_cost(a1)));
            assert(c2.can_extend(3 + 0));
            assert(c2.can_extend(range_cost(a2)));
        }
    }
    let res2 = map_range(pml4, a2, ctx);
    let ghost m3 = ctx.mapper.tables();
    let ghost c3 = *ctx;
    proof {
        lemma_preserves_trans(m0, m2, m3);
    }
    res2?;
    assert(map_law_applies(a2));
    let a3 = MapAttributes {
        phys: PhysMemoryRegion::new(0, BOOT_IDENTITY_SIZE),
        virt: VirtMemoryRegion::new(0, BOOT_IDENTITY_SIZE),
        mem_type: MemoryType::Normal,
        perms: PtePermissions::rx(false),
    };
    proof {
        lemma_identity_map_cost();
        if m2[pml4][0] != m1[pml4][0] {
            let off = choose|off: u64|
                off < KERNEL_IMAGE_SIZE && #[trigger] pg_index_spec(range_va(KERNEL_IMAGE_VIRT, off), 39) == 0;
            lemma_boot_root_indices(off);
        }
        if m3[pml4][0] != m2[pml4][0] {
            let off = choose|off: u64|
                off < BOOT_LINEAR_SIZE && #[trigger] pg_index_spec(range_va(BOOT_LINEAR_VIRT, off), 39) == 0;
            lemma_boot_root_indices(off);
        }
        assert forall|off: u64| off < BOOT_IDENTITY_SIZE implies !desc_valid(
            #[trigger] m3[pml4][pg_index_spec(range_va(0, off), 39)],
        ) by {
            lemma_boot_root_indices(off);
        }
        assert(root_slots_empty(m3, pml4, 0, BOOT_IDENTITY_SIZE));
        assert(fresh_map_range(m3, pml4, a3));
        lemma_fresh_mappable(m3, pml4, a3);
        if c0.can_extend(8) {
            assert(c2.can_extend(2 + range_cost(a2)));
            assert(c3.can_extend(2 + 0));
        }
    }
    let res3 = map_range(pml4, a3, ctx);
    let ghost m4 = ctx.mapper.tables();
    proof {
        lemma_preserves_trans(m0, m3, m4);
    }
    res3?;
    assert(map_law_applies(a3));
    proof {
        lemma_mapped_prefix_preserved(m2, m4, pml4, KERNEL_IMAGE_VIRT, KERNEL_IMAGE_PHYS, KERNEL_IMAGE_SIZE as nat, kernel_image_perms());
        lemma_mapped_prefix_preserved(m3, m4, pml4, BOOT_LINEAR_VIRT, 0, BOOT_LINEAR_SIZE as nat, linear_map_perms());
    }
    Ok(pml4)
}

} // verus!
