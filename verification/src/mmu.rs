//! The kernel address space: its page tables, the bump pointer of the
//! MMIO window, and the mappings made into them.
use vstd::prelude::*;
use crate::address::{PhysMemoryRegion, VirtMemoryRegion, PAGE_SIZE, u64_limit, mappable_start, mappable_end};
use crate::error::{KernelError, MapError};
use crate::permissions::PtePermissions;
use crate::pg_descriptors::MemoryType;
use crate::pg_tables::{
    PageAllocator, PageTableMapper, MappingContext, MapAttributes, map_range, translate_va, translate_spec,
    mapped_prefix, map_law_applies, preserves_valid, allocate_zeroed_table, tables_wf, walk_tables_held,
    fresh_page_mapping, lemma_translated_walk_held,
};
use crate::pg_walk::{
    protect_pages, unmap_pages, remap_page, clone_pages, shape_equiv, grants_nothing, page_region, region_pages,
    region_page, mapped_in_region, maps_to, walks_independent, mapped_frames, page_frame, region_walks_clear, clone_page_ready, clone_region_ready, page_mapped, leaf_slot, write_slot, upper_tables_distinct,
};
use crate::pg_descriptors::{leaf_desc, PTE_ADDR_MASK};
use crate::range_map::{fresh_map_range, range_mappable, range_cost, first_page_mapped, budget_from};

verus! {

/// Start of the kernel direct map of physical memory.
pub const PAGE_OFFSET: u64 = 0xffff_8880_0000_0000;

/// Start of the window where MMIO regions are mapped, one after another.
pub const MMIO_BASE: u64 = 0xffff_c900_0000_0000;

/// Virtual address of the VDSO page in every address space.
pub const VDSO_BASE: u64 = 0xffff_8100_0000_0000;

/// The x86_64 MMU: TLB flushes and the CR3 register, which act on the
/// processor directly.
pub struct Mmu {}

/// Reaches page tables through the kernel's direct map of physical
/// memory.
pub struct PageOffsetPgTableMapper {}

impl PageOffsetPgTableMapper {
    /// Where the table at physical address `pa` is seen: `PAGE_OFFSET`
    /// above it, when that address exists.
    pub fn table_va(&self, pa: u64) -> (r: Option<u64>)
        ensures
            r == (if pa + PAGE_OFFSET <= u64::MAX {
                Some((pa + PAGE_OFFSET) as u64)
            } else {
                None::<u64>
            }),
    {
        pa.checked_add(PAGE_OFFSET)
    }
}

/// The kernel's page tables and the next free address of the MMIO window.
pub struct X86_64KernelAddressSpace {
    pml4_table: u64,
    mmio_ptr: u64,
}

impl X86_64KernelAddressSpace {
    pub closed spec fn root(&self) -> u64 {
        self.pml4_table
    }

    pub closed spec fn mmio_next(&self) -> u64 {
        self.mmio_ptr
    }

    /// The MMIO window pointer stays page-aligned.
    pub open spec fn wf(&self) -> bool {
        self.mmio_next() % 4096 == 0
    }

    /// What `map_mmio` maps for `phys_range`: the whole pages covering it,
    /// at the window's next address, uncached, kernel read/write.
    pub open spec fn mmio_attrs(&self, phys_range: PhysMemoryRegion) -> MapAttributes {
        MapAttributes {
            phys: PhysMemoryRegion {
                start: mappable_start(phys_range) as u64,
                size: (mappable_end(phys_range) - mappable_start(phys_range)) as u64,
            },
            virt: VirtMemoryRegion {
                start: self.mmio_next(),
                size: (mappable_end(phys_range) - mappable_start(phys_range)) as u64,
            },
            mem_type: MemoryType::UC,
            perms: PtePermissions { read: true, write: true, execute: false, user: false, cow: false },
        }
    }

    /// In the tables `m`, nothing maps the next page of the MMIO window
    /// and every table on its walk is present.
    pub open spec fn mmio_slot_free(&self, m: Map<u64, Seq<u64>>) -> bool {
        &&& walk_tables_held(m, self.root(), self.mmio_next())
        &&& translate_spec(m, self.root(), self.mmio_next()) is None
    }

    fn do_map<A: PageAllocator, M: PageTableMapper>(&self, map_attrs: MapAttributes, ctx: &mut MappingContext<A, M>) -> (r:
        Result<(), KernelError>)
        requires
            old(ctx).wf(),
            map_attrs.phys.valid(),
            map_attrs.virt.valid(),
            map_attrs.phys.size == map_attrs.virt.size ==> map_attrs.virt.size % PAGE_SIZE == 0,
        ensures
            final(ctx).wf(),
            preserves_valid(old(ctx).mapper.tables(), final(ctx).mapper.tables()),
            r is Ok ==> map_attrs.phys.size == map_attrs.virt.size,
            r is Ok && map_law_applies(map_attrs) ==> mapped_prefix(
                final(ctx).mapper.tables(),
                self.root(),
                map_attrs.virt.start,
                map_attrs.phys.start,
                map_attrs.virt.size as nat,
                map_attrs.perms.effective(),
            ),
            fresh_page_mapping(old(ctx).mapper.tables(), self.root(), map_attrs) && old(ctx).can_extend(3) ==> r is Ok,
            range_mappable(old(ctx).mapper.tables(), self.root(), map_attrs) && old(ctx).can_extend(
                range_cost(map_attrs),
            ) ==> r is Ok,
            range_mappable(old(ctx).mapper.tables(), self.root(), map_attrs) && r is Ok ==> budget_from(
                *old(ctx),
                *final(ctx),
                range_cost(map_attrs),
                0,
            ),
            first_page_mapped(old(ctx).mapper.tables(), self.root(), map_attrs) ==> r == Err::<(), KernelError>(
                KernelError::Mapping(MapError::AlreadyMapped),
            ) && final(ctx).mapper.tables() == old(ctx).mapper.tables(),
            fresh_map_range(old(ctx).mapper.tables(), self.root(), map_attrs) && map_attrs.virt.size > 0
                && !old(ctx).allocator.can_allocate() ==> r == Err::<(), KernelError>(KernelError::NoMemory),
    {
        map_range(self.pml4_table, map_attrs, ctx)
    }

    /// The physical address `va` translates to in the kernel tables.
    pub fn translate<M: PageTableMapper>(&self, va: u64, mapper: &mut M) -> (r: Option<u64>)
        ensures
            final(mapper).tables() == old(mapper).tables(),
            r matches Some(pa) ==> translate_spec(old(mapper).tables(), self.root(), va) matches Some(t) && t.0 == pa,
            r is Some <==> walk_tables_held(old(mapper).tables(), self.root(), va) && translate_spec(
                old(mapper).tables(),
                self.root(),
                va,
            ) is Some,
    {
        match translate_va(mapper, self.pml4_table, va) {
            Ok(Some((pa, _))) => Some(pa),
            _ => None,
        }
    }

    /// Physical address of the top-level table.
    pub fn table_pa(&self) -> (r: u64)
        ensures
            r == self.root(),
    {
        self.pml4_table
    }

    /// Map `phys_range` at `virt_range` with normal (write-back) memory.
    pub fn map_normal<A: PageAllocator, M: PageTableMapper>(
        &mut self,
        phys_range: PhysMemoryRegion,
        virt_range: VirtMemoryRegion,
        perms: PtePermissions,
        ctx: &mut MappingContext<A, M>,
    ) -> (r: Result<(), KernelError>)
        requires
            old(ctx).wf(),
            phys_range.valid(),
            virt_range.valid(),
            phys_range.size == virt_range.size ==> virt_range.size % PAGE_SIZE == 0,
        ensures
            *final(self) == *old(self),
            final(ctx).wf(),
            preserves_valid(old(ctx).mapper.tables(), final(ctx).mapper.tables()),
            r is Ok ==> phys_range.size == virt_range.size,
            r is Ok && virt_range.start % 4096 == 0 && phys_range.start % 4096 == 0 && phys_range.start + phys_range.size
                <= 0x1_0000_0000_0000 ==> mapped_prefix(
                final(ctx).mapper.tables(),
                old(self).root(),
                virt_range.start,
                phys_range.start,
                virt_range.size as nat,
                perms.effective(),
            ),
            fresh_page_mapping(
                old(ctx).mapper.tables(),
                old(self).root(),
                MapAttributes { phys: phys_range, virt: virt_range, mem_type: MemoryType::WB, perms },
            ) && old(ctx).can_extend(3) ==> r is Ok,
            range_mappable(
                old(ctx).mapper.tables(),
                old(self).root(),
                MapAttributes { phys: phys_range, virt: virt_range, mem_type: MemoryType::WB, perms },
            ) && old(ctx).can_extend(
                range_cost(MapAttributes { phys: phys_range, virt: virt_range, mem_type: MemoryType::WB, perms }),
            ) ==> r is Ok,
            first_page_mapped(
                old(ctx).mapper.tables(),
                old(self).root(),
                MapAttributes { phys: phys_range, virt: virt_range, mem_type: MemoryType::WB, perms },
            ) ==> r == Err::<(), KernelError>(KernelError::Mapping(MapError::AlreadyMapped))
                && final(ctx).mapper.tables() == old(ctx).mapper.tables(),
            fresh_map_range(
                old(ctx).mapper.tables(),
                old(self).root(),
                MapAttributes { phys: phys_range, virt: virt_range, mem_type: MemoryType::WB, perms },
            ) && virt_range.size > 0 && !old(ctx).allocator.can_allocate() ==> r == Err::<(), KernelError>(
                KernelError::NoMemory,
            ),
    {
        self.do_map(MapAttributes { phys: phys_range, virt: virt_range, mem_type: MemoryType::WB, perms }, ctx)
    }

    /// Map the device registers at `phys_range` into the MMIO window,
    /// uncached and kernel read/write, and return the virtual address of
    /// `phys_range.start`.
    pub fn map_mmio<A: PageAllocator, M: PageTableMapper>(
        &mut self,
        phys_range: PhysMemoryRegion,
        ctx: &mut MappingContext<A, M>,
    ) -> (r: Result<u64, KernelError>)
        requires
            old(self).wf(),
            old(ctx).wf(),
            phys_range.start + phys_range.size + 4095 <= u64_limit(),
            old(self).mmio_next() + (mappable_end(phys_range) - mappable_start(phys_range)) <= u64_limit(),
        ensures
            final(self).wf(),
            final(self).root() == old(self).root(),
            final(ctx).wf(),
            preserves_valid(old(ctx).mapper.tables(), final(ctx).mapper.tables()),
            r is Ok ==> final(self).mmio_next() == old(self).mmio_next() + (mappable_end(phys_range) - mappable_start(
                phys_range,
            )),
            r is Ok ==> r->Ok_0 == old(self).mmio_next() + phys_range.start % 4096,
            r is Err ==> *final(self) == *old(self),
            r is Ok && mappable_end(phys_range) <= 0x1_0000_0000_0000 ==> mapped_prefix(
                final(ctx).mapper.tables(),
                old(self).root(),
                r->Ok_0,
                phys_range.start,
                phys_range.size as nat,
                (PtePermissions { read: true, write: true, execute: false, user: false, cow: false }),
            ),
            mappable_end(phys_range) - mappable_start(phys_range) == 4096 && mappable_end(phys_range)
                <= 0x1_0000_0000_0000 && walk_tables_held(old(ctx).mapper.tables(), old(self).root(), old(self).mmio_next())
                && translate_spec(old(ctx).mapper.tables(), old(self).root(), old(self).mmio_next()) is None
                && old(ctx).can_extend(3) ==> r is Ok,
            range_mappable(old(ctx).mapper.tables(), old(self).root(), old(self).mmio_attrs(phys_range))
                && old(ctx).can_extend(range_cost(old(self).mmio_attrs(phys_range))) ==> r is Ok,
            first_page_mapped(old(ctx).mapper.tables(), old(self).root(), old(self).mmio_attrs(phys_range)) ==> r
                == Err::<u64, KernelError>(KernelError::Mapping(MapError::AlreadyMapped)) && final(ctx).mapper.tables()
                == old(ctx).mapper.tables(),
            fresh_map_range(old(ctx).mapper.tables(), old(self).root(), old(self).mmio_attrs(phys_range))
                && old(self).mmio_attrs(phys_range).virt.size > 0 && !old(ctx).allocator.can_allocate() ==> r
                == Err::<u64, KernelError>(KernelError::NoMemory),
    {
        let (region, offset) = phys_range.to_mappable_region();
        let base_va = self.mmio_ptr;
        let virt_range = VirtMemoryRegion::new(base_va, region.size());
        let perms = PtePermissions::rw(false);
        let attrs = MapAttributes { phys: region, virt: virt_range, mem_type: MemoryType::UC, perms };
        assert(attrs == old(self).mmio_attrs(phys_range));
        self.do_map(attrs, ctx)?;
        proof {
            if mappable_end(phys_range) <= 0x1_0000_0000_0000 {
                assert(map_law_applies(attrs));
                let m = ctx.mapper.tables();
                assert forall|off: u64| off < phys_range.size implies #[trigger] translate_spec(
                    m,
                    self.pml4_table,
                    ((base_va + offset) + off) as u64,
                ) == Some(((phys_range.start + off) as int, perms.effective())) by {
                    let o2 = (offset + off) as u64;
                    assert(o2 < region.size);
                    assert(translate_spec(m, self.pml4_table, (base_va + o2) as u64) == Some(
                        ((region.start + o2) as int, perms.effective()),
                    ));
                }
            }
        }
        self.mmio_ptr = self.mmio_ptr + region.size();
        Ok(base_va + offset)
    }
}

/// Install the kernel address space over the tables rooted at `pa`, with
/// an empty MMIO window, in `slot`; it can be installed once only, and a
/// second attempt fails with `InUse` and leaves the installed one alone.
pub fn setup_kern_addr_space(slot: &mut Option<X86_64KernelAddressSpace>, pa: u64) -> (r: Result<(), KernelError>)
    ensures
        *old(slot) is Some ==> r == Err::<(), KernelError>(KernelError::InUse) && *final(slot) == *old(slot),
        *old(slot) is None ==> r is Ok && (*final(slot) matches Some(k) && k.root() == pa && k.mmio_next() == MMIO_BASE
            && k.wf()),
{
    if slot.is_some() {
        return Err(KernelError::InUse);
    }
    *slot = Some(X86_64KernelAddressSpace { pml4_table: pa, mmio_ptr: MMIO_BASE });
    Ok(())
}

/// What `vdso_init` maps: the whole pages covering the image, at
/// `VDSO_BASE`, as normal memory, user read/execute.
pub open spec fn vdso_attrs(vdso_start: u64, vdso_end: u64) -> MapAttributes {
    let image = PhysMemoryRegion { start: vdso_start, size: (vdso_end - vdso_start) as u64 };
    MapAttributes {
        phys: PhysMemoryRegion {
            start: mappable_start(image) as u64,
            size: (mappable_end(image) - mappable_start(image)) as u64,
        },
        virt: VirtMemoryRegion { start: VDSO_BASE, size: (mappable_end(image) - mappable_start(image)) as u64 },
        mem_type: MemoryType::WB,
        perms: PtePermissions { read: true, write: false, execute: true, user: true, cow: false },
    }
}

/// Map the VDSO image, which lies in physical memory from `vdso_start`
/// to `vdso_end`, at `VDSO_BASE` as user read/execute: the whole pages
/// covering it, the first of them at `VDSO_BASE` (`vdso_attrs`). It
/// returns what that mapping returns: `Ok` where it succeeds, and its
/// error otherwise (`AlreadyMapped` over a mapped page, `NoMemory` when
/// no table frame is left).
pub fn vdso_init<A: PageAllocator, M: PageTableMapper>(
    kspc: &mut X86_64KernelAddressSpace,
    ctx: &mut MappingContext<A, M>,
    vdso_start: u64,
    vdso_end: u64,
) -> (r: Result<(), KernelError>)
    requires
        old(ctx).wf(),
        vdso_start <= vdso_end,
        vdso_end + 4095 <= u64_limit(),
        vdso_end - vdso_start <= 0x7E00_0000_0000,
    ensures
        *final(kspc) == *old(kspc),
        final(ctx).wf(),
        preserves_valid(old(ctx).mapper.tables(), final(ctx).mapper.tables()),
        r is Ok && mappable_end(PhysMemoryRegion { start: vdso_start, size: (vdso_end - vdso_start) as u64 }) <= 0x1_0000_0000_0000 ==> mapped_prefix(
            final(ctx).mapper.tables(),
            old(kspc).root(),
            VDSO_BASE,
            mappable_start(PhysMemoryRegion { start: vdso_start, size: (vdso_end - vdso_start) as u64 }) as u64,
            (mappable_end(PhysMemoryRegion { start: vdso_start, size: (vdso_end - vdso_start) as u64 }) - mappable_start(PhysMemoryRegion { start: vdso_start, size: (vdso_end - vdso_start) as u64 })) as nat,
            (PtePermissions { read: true, write: false, execute: true, user: true, cow: false }),
        ),
        mappable_end(PhysMemoryRegion { start: vdso_start, size: (vdso_end - vdso_start) as u64 }) - mappable_start(PhysMemoryRegion { start: vdso_start, size: (vdso_end - vdso_start) as u64 }) == 4096 && mappable_end(PhysMemoryRegion { start: vdso_start, size: (vdso_end - vdso_start) as u64 })
            <= 0x1_0000_0000_0000 && walk_tables_held(old(ctx).mapper.tables(), old(kspc).root(), VDSO_BASE)
            && translate_spec(old(ctx).mapper.tables(), old(kspc).root(), VDSO_BASE) is None && old(ctx).can_extend(3)
            ==> r is Ok,
        range_mappable(old(ctx).mapper.tables(), old(kspc).root(), vdso_attrs(vdso_start, vdso_end))
            && old(ctx).can_extend(range_cost(vdso_attrs(vdso_start, vdso_end))) ==> r is Ok,
        first_page_mapped(old(ctx).mapper.tables(), old(kspc).root(), vdso_attrs(vdso_start, vdso_end)) ==> r
            == Err::<(), KernelError>(KernelError::Mapping(MapError::AlreadyMapped)) && final(ctx).mapper.tables()
            == old(ctx).mapper.tables(),
        fresh_map_range(old(ctx).mapper.tables(), old(kspc).root(), vdso_attrs(vdso_start, vdso_end))
            && vdso_attrs(vdso_start, vdso_end).virt.size > 0 && !old(ctx).allocator.can_allocate() ==> r == Err::<
            (),
            KernelError,
        >(KernelError::NoMemory),
{
    let region = PhysMemoryRegion::from_start_end_address(vdso_start, vdso_end);
    let (mappable, _offset) = region.to_mappable_region();
    let vregion = VirtMemoryRegion::new(VDSO_BASE, mappable.size());
    kspc.map_normal(mappable, vregion, PtePermissions::rx(true), ctx)
}

/// A user address space: its own top-level table.
pub struct X86_64ProcessAddressSpace {
    pml4_table: u64,
}

/// The frame and permissions of a user page.
#[derive(Debug, Clone, Copy, PartialEq, Eq, Structural)]
pub struct PageInfo {
    pub pfn: u64,
    pub perms: PtePermissions,
}

impl X86_64ProcessAddressSpace {
    pub closed spec fn root(&self) -> u64 {
        self.pml4_table
    }

    /// A new address space with an empty top-level table.
    pub fn new<A: PageAllocator, M: PageTableMapper>(ctx: &mut MappingContext<A, M>) -> (r: Result<Self, KernelError>)
        requires
            old(ctx).wf(),
        ensures
            final(ctx).wf(),
            preserves_valid(old(ctx).mapper.tables(), final(ctx).mapper.tables()),
            r matches Ok(s) ==> final(ctx).mapper.tables() == old(ctx).mapper.tables().insert(
                s.root(),
                Seq::new(512, |i: int| 0u64),
            ) && !old(ctx).mapper.tables().contains_key(s.root()),
            !old(ctx).allocator.can_allocate() ==> r is Err && r->Err_0 == KernelError::NoMemory,
            old(ctx).can_extend(1) ==> r is Ok,
            r is Ok ==> final(ctx).allocator.frames_left() + 1 == old(ctx).allocator.frames_left(),
            r matches Ok(s) ==> forall|t: u64| t != s.root() ==> #[trigger] final(ctx).mapper.can_add_table(t)
                == old(ctx).mapper.can_add_table(t),
    {
        let pml4_table = allocate_zeroed_table(ctx)?;
        Ok(X86_64ProcessAddressSpace { pml4_table })
    }

    /// Map the 4 KiB frame at `page` at `va` with `perms`.
    pub fn map_page<A: PageAllocator, M: PageTableMapper>(
        &mut self,
        page: u64,
        va: u64,
        perms: PtePermissions,
        ctx: &mut MappingContext<A, M>,
    ) -> (r: Result<(), KernelError>)
        requires
            old(ctx).wf(),
            page + PAGE_SIZE <= u64_limit(),
            va + PAGE_SIZE <= u64_limit(),
        ensures
            *final(self) == *old(self),
            final(ctx).wf(),
            preserves_valid(old(ctx).mapper.tables(), final(ctx).mapper.tables()),
            r is Ok && va % 4096 == 0 && page % 4096 == 0 && page + PAGE_SIZE <= 0x1_0000_0000_0000 ==> mapped_prefix(
                final(ctx).mapper.tables(),
                old(self).root(),
                va,
                page,
                4096,
                perms.effective(),
            ),
            va % 4096 == 0 && page % 4096 == 0 && page + PAGE_SIZE <= 0x1_0000_0000_0000 && walk_tables_held(
                old(ctx).mapper.tables(),
                old(self).root(),
                va,
            ) && translate_spec(old(ctx).mapper.tables(), old(self).root(), va) is None && old(ctx).can_extend(3)
                ==> r is Ok,
    {
        map_range(
            self.pml4_table,
            MapAttributes {
                phys: PhysMemoryRegion::new(page, PAGE_SIZE),
                virt: VirtMemoryRegion::new(va, PAGE_SIZE),
                mem_type: MemoryType::WB,
                perms,
            },
            ctx,
        )
    }

    /// The frame number and permissions of the page holding `va`.
    pub fn translate<M: PageTableMapper>(&self, va: u64, mapper: &mut M) -> (r: Option<PageInfo>)
        ensures
            final(mapper).tables() == old(mapper).tables(),
            r matches Some(info) ==> translate_spec(old(mapper).tables(), self.root(), va & !0xFFFu64) matches Some(
                t,
            ) && info.pfn == t.0 / 4096 && info.perms == t.1,
            r is Some <==> walk_tables_held(old(mapper).tables(), self.root(), va & !0xFFFu64) && translate_spec(
                old(mapper).tables(),
                self.root(),
                va & !0xFFFu64,
            ) is Some,
    {
        match translate_va(mapper, self.pml4_table, va & !0xFFFu64) {
            Ok(Some((pa, perms))) => {
                proof {
                    assert(pa >> 12u64 == pa / 4096) by (bit_vector);
                }
                Some(PageInfo { pfn: pa >> 12, perms })
            },
            _ => None,
        }
    }
}

impl X86_64ProcessAddressSpace {
    /// The value loaded into CR3 to make this address space current: the
    /// physical address of its top-level table.
    pub fn activate(&self) -> (r: u64)
        ensures
            r == self.root(),
    {
        self.pml4_table
    }

    /// Give every 4 KiB page holding a byte of `va_range` the permissions `perms`;
    /// permissions that grant nothing unmap the pages.
    pub fn protect_range<M: PageTableMapper>(&mut self, va_range: VirtMemoryRegion, perms: PtePermissions, mapper: &mut M) -> (r:
        Result<(), KernelError>)
        requires
            tables_wf(old(mapper).tables()),
            page_region(va_range),
        ensures
            *final(self) == *old(self),
            tables_wf(final(mapper).tables()),
            !grants_nothing(perms) ==> shape_equiv(old(mapper).tables(), final(mapper).tables()),
            grants_nothing(perms) ==> preserves_valid(final(mapper).tables(), old(mapper).tables()),
            r is Ok && !grants_nothing(perms) ==> forall|k: int|
                0 <= k < region_pages(va_range) && #[trigger] translate_spec(
                    old(mapper).tables(),
                    old(self).root(),
                    region_page(va_range, k),
                ) is Some ==> translate_spec(final(mapper).tables(), old(self).root(), region_page(va_range, k)) == Some(
                    (
                        translate_spec(old(mapper).tables(), old(self).root(), region_page(va_range, k))->Some_0.0,
                        perms.effective(),
                    ),
                ),
            r is Ok && grants_nothing(perms) ==> forall|k: int|
                0 <= k < region_pages(va_range) ==> #[trigger] translate_spec(
                    final(mapper).tables(),
                    old(self).root(),
                    region_page(va_range, k),
                ) is None,
            region_walks_clear(old(mapper).tables(), old(self).root(), va_range) ==> r is Ok,
            !grants_nothing(perms) ==> (r is Ok <==> region_walks_clear(old(mapper).tables(), old(self).root(), va_range)),
    {
        protect_pages(mapper, self.pml4_table, va_range, perms)
    }

    /// Unmap every 4 KiB page holding a byte of `va_range`, returning the
    /// frame numbers that were mapped there, in page order: each of them,
    /// and all of them where the pages' walks are independent.
    pub fn unmap_range<M: PageTableMapper>(&mut self, va_range: VirtMemoryRegion, mapper: &mut M) -> (r: Result<
        Vec<u64>,
        KernelError,
    >)
        requires
            tables_wf(old(mapper).tables()),
            page_region(va_range),
        ensures
            *final(self) == *old(self),
            tables_wf(final(mapper).tables()),
            preserves_valid(final(mapper).tables(), old(mapper).tables()),
            r is Ok ==> forall|k: int|
                0 <= k < region_pages(va_range) ==> #[trigger] translate_spec(
                    final(mapper).tables(),
                    old(self).root(),
                    region_page(va_range, k),
                ) is None,
            r matches Ok(frames) ==> forall|i: int|
                0 <= i < frames@.len() ==> #[trigger] mapped_in_region(
                    old(mapper).tables(),
                    old(self).root(),
                    va_range,
                    frames@[i] * 4096,
                ),
            walks_independent(old(mapper).tables(), old(self).root(), va_range) ==> (r matches Ok(frames)
                ==> frames@ == mapped_frames(
                old(mapper).tables(),
                old(self).root(),
                va_range,
                region_pages(va_range) as nat,
            )),
            region_walks_clear(old(mapper).tables(), old(self).root(), va_range) ==> r is Ok,
    {
        unmap_pages(mapper, self.pml4_table, va_range)
    }

    /// Point the page holding `va` at the frame at physical address
    /// `new_page` with `perms`, returning
    /// the frame number it mapped before.
    pub fn remap<M: PageTableMapper>(&mut self, va: u64, new_page: u64, perms: PtePermissions, mapper: &mut M) -> (r: Result<
        u64,
        KernelError,
    >)
        requires
            tables_wf(old(mapper).tables()),
        ensures
            *final(self) == *old(self),
            tables_wf(final(mapper).tables()),
            r is Err ==> final(mapper).tables() == old(mapper).tables(),
            r is Ok <==> page_mapped(old(mapper).tables(), old(self).root(), va & !0xFFFu64),
            !page_mapped(old(mapper).tables(), old(self).root(), va & !0xFFFu64) && walk_tables_held(
                old(mapper).tables(),
                old(self).root(),
                va & !0xFFFu64,
            ) ==> r == Err::<u64, KernelError>(KernelError::Mapping(MapError::NotL3Mapped)),
            r matches Ok(old_pfn) ==> {
                let m = old(mapper).tables();
                let root = old(self).root();
                let page = va & !0xFFFu64;
                &&& page_mapped(m, root, page)
                &&& maps_to(m, root, page, old_pfn * 4096)
                &&& final(mapper).tables() == write_slot(
                    m,
                    leaf_slot(m, root, page).0,
                    leaf_slot(m, root, page).1,
                    leaf_desc(new_page, false, perms),
                )
                &&& upper_tables_distinct(m, root, page) ==> translate_spec(final(mapper).tables(), root, page) == Some(
                    ((new_page & PTE_ADDR_MASK) as int, perms.effective()),
                )
            },
    {
        remap_page(mapper, self.pml4_table, va, new_page, perms)
    }

    /// Share the mapped pages of `region` with `other` copy-on-write:
    /// both address spaces map each of them with `new_perms`. The result
    /// lists the shared frame numbers, each of which gains a user.
    pub fn protect_and_clone_region<A: PageAllocator, M: PageTableMapper>(
        &mut self,
        region: VirtMemoryRegion,
        other: &mut Self,
        new_perms: PtePermissions,
        ctx: &mut MappingContext<A, M>,
    ) -> (r: Result<Vec<u64>, KernelError>)
        requires
            old(ctx).wf(),
            page_region(region),
        ensures
            *final(self) == *old(self),
            *final(other) == *old(other),
            final(ctx).wf(),
            forall|va: u64, pa: int| #[trigger] maps_to(old(ctx).mapper.tables(), old(self).root(), va, pa) ==> maps_to(
                final(ctx).mapper.tables(),
                old(self).root(),
                va,
                pa,
            ),
            r is Ok ==> forall|k: int|
                0 <= k < region_pages(region) && #[trigger] page_mapped(
                    old(ctx).mapper.tables(),
                    old(self).root(),
                    region_page(region, k),
                ) ==> {
                    let pa = translate_spec(old(ctx).mapper.tables(), old(self).root(), region_page(region, k))->Some_0.0;
                    &&& translate_spec(final(ctx).mapper.tables(), old(self).root(), region_page(region, k)) == Some(
                        (pa, new_perms.effective()),
                    )
                    &&& translate_spec(final(ctx).mapper.tables(), old(other).root(), region_page(region, k)) == Some(
                        (pa, new_perms.effective()),
                    )
                },
            r matches Ok(frames) ==> forall|i: int|
                0 <= i < frames@.len() ==> #[trigger] mapped_in_region(
                    final(ctx).mapper.tables(),
                    old(self).root(),
                    region,
                    frames@[i] * 4096,
                ),
            r matches Ok(frames) ==> forall|k: int|
                0 <= k < region_pages(region) && #[trigger] page_mapped(
                    old(ctx).mapper.tables(),
                    old(self).root(),
                    region_page(region, k),
                ) ==> frames@.contains(page_frame(old(ctx).mapper.tables(), old(self).root(), region_page(region, k))),
            clone_page_ready(*old(ctx), old(self).root(), old(other).root(), region) ==> r is Ok,
            clone_region_ready(*old(ctx), old(self).root(), old(other).root(), region) ==> r is Ok,
    {
        clone_pages(ctx, self.pml4_table, other.pml4_table, region, new_perms)
    }
}

/// The physical address of the kernel virtual address `va`, by a walk of
/// the kernel tables; `None` before the kernel address space exists or
/// when nothing maps `va`.
pub fn translate_kernel_va<M: PageTableMapper>(kspc: Option<&X86_64KernelAddressSpace>, va: u64, mapper: &mut M) -> (r: Option<u64>)
    ensures
        final(mapper).tables() == old(mapper).tables(),
        kspc is None ==> r is None,
        r matches Some(pa) ==> kspc matches Some(k) && translate_spec(old(mapper).tables(), k.root(), va) matches Some(
            t,
        ) && t.0 == pa,
        kspc matches Some(k) ==> (r is Some <==> walk_tables_held(old(mapper).tables(), k.root(), va) && translate_spec(
            old(mapper).tables(),
            k.root(),
            va,
        ) is Some),
{
    match kspc {
        None => None,
        Some(k) => k.translate(va, mapper),
    }
}


/// Mapping a range and then translating one of its addresses gives back
/// the physical address at the same offset: wherever the tables map a
/// range (as `map_normal`, `map_mmio` and `map_page` ensure on success),
/// every table on the walk of an address in it is present, so
/// `translate` returns `Some`, and the address it returns is the physical
/// start plus the offset.
pub proof fn lemma_map_then_translate(
    m: Map<u64, Seq<u64>>,
    root: u64,
    vs: u64,
    ps: u64,
    size: nat,
    p: PtePermissions,
    off: u64,
)
    requires
        mapped_prefix(m, root, vs, ps, size, p),
        off < size,
    ensures
        walk_tables_held(m, root, (vs + off) as u64),
        translate_spec(m, root, (vs + off) as u64) == Some(((ps + off) as int, p)),
{
    let va = (vs + off) as u64;
    assert(translate_spec(m, root, va) == Some(((ps + off) as int, p)));
    lemma_translated_walk_held(m, root, va);
}

} // verus!
