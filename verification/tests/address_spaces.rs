use moss::address::VirtMemoryRegion;
use moss::error::{KernelError, MapError};
use moss::mmu::{setup_kern_addr_space, translate_kernel_va, PageInfo, X86_64ProcessAddressSpace, MMIO_BASE};
use moss::page_alloc::PageAllocator;
use moss::permissions::PtePermissions;
use moss::pg_tables::{translate_va, allocate_zeroed_table};
use moss::process::{create_idle_task, VmArea, IDLE_CODE_VA};
use moss::table_arena::new_arena_context;

#[test]
fn mapped_pages_translate_with_frame_and_permissions() {
    let mut ctx = new_arena_context(0x1000_0000, 64);
    let mut asp = X86_64ProcessAddressSpace::new(&mut ctx).unwrap();
    asp.map_page(0x30_0000, 0x40_0000, PtePermissions::rw(true), &mut ctx).unwrap();
    let info = asp.translate(0x40_0123, &mut ctx.mapper).unwrap();
    assert_eq!(info, PageInfo { pfn: 0x300, perms: PtePermissions::rw(true) });
    assert_eq!(asp.translate(0x40_1000, &mut ctx.mapper), None);
}

#[test]
fn protect_range_changes_permissions_only() {
    let mut ctx = new_arena_context(0x1000_0000, 64);
    let mut asp = X86_64ProcessAddressSpace::new(&mut ctx).unwrap();
    asp.map_page(0x30_0000, 0x40_0000, PtePermissions::rw(true), &mut ctx).unwrap();
    asp.map_page(0x31_0000, 0x40_2000, PtePermissions::rw(true), &mut ctx).unwrap();
    asp.protect_range(VirtMemoryRegion::new(0x40_0000, 0x3000), PtePermissions::rx(true), &mut ctx.mapper).unwrap();
    assert_eq!(asp.translate(0x40_0000, &mut ctx.mapper), Some(PageInfo { pfn: 0x300, perms: PtePermissions::rx(true) }));
    assert_eq!(asp.translate(0x40_2000, &mut ctx.mapper), Some(PageInfo { pfn: 0x310, perms: PtePermissions::rx(true) }));
    assert_eq!(asp.translate(0x40_1000, &mut ctx.mapper), None);
}

#[test]
fn protect_range_with_no_access_unmaps() {
    let mut ctx = new_arena_context(0x1000_0000, 64);
    let mut asp = X86_64ProcessAddressSpace::new(&mut ctx).unwrap();
    asp.map_page(0x30_0000, 0x40_0000, PtePermissions::rw(true), &mut ctx).unwrap();
    let none = PtePermissions::from_raw_bits(false, false, false, true, false);
    asp.protect_range(VirtMemoryRegion::new(0x40_0000, 0x1000), none, &mut ctx.mapper).unwrap();
    assert_eq!(asp.translate(0x40_0000, &mut ctx.mapper), None);
}

#[test]
fn unmap_range_returns_the_frames_and_leaves_nothing_mapped() {
    let mut ctx = new_arena_context(0x1000_0000, 64);
    let mut asp = X86_64ProcessAddressSpace::new(&mut ctx).unwrap();
    asp.map_page(0x30_0000, 0x40_0000, PtePermissions::rw(true), &mut ctx).unwrap();
    asp.map_page(0x35_0000, 0x40_2000, PtePermissions::rw(true), &mut ctx).unwrap();
    asp.map_page(0x36_0000, 0x40_3000, PtePermissions::rw(true), &mut ctx).unwrap();
    let frames = asp.unmap_range(VirtMemoryRegion::new(0x40_0000, 0x3000), &mut ctx.mapper).unwrap();
    assert_eq!(frames, vec![0x300, 0x350]);
    assert_eq!(asp.translate(0x40_0000, &mut ctx.mapper), None);
    assert_eq!(asp.translate(0x40_2000, &mut ctx.mapper), None);
    assert_eq!(asp.translate(0x40_3000, &mut ctx.mapper), Some(PageInfo { pfn: 0x360, perms: PtePermissions::rw(true) }));
}

#[test]
fn unmap_of_a_huge_mapping_is_refused() {
    let mut ctx = new_arena_context(0x1000_0000, 64);
    let root = moss::boot::bootstrap_page_tables(&mut ctx).unwrap();
    let r = moss::pg_walk::unmap_pages(&mut ctx.mapper, root, VirtMemoryRegion::new(0xffff_8000_0000_0000, 0x1000));
    assert!(matches!(r, Err(KernelError::Mapping(MapError::NotL3Mapped))));
}

#[test]
fn remap_points_a_page_at_a_new_frame() {
    let mut ctx = new_arena_context(0x1000_0000, 64);
    let mut asp = X86_64ProcessAddressSpace::new(&mut ctx).unwrap();
    asp.map_page(0x30_0000, 0x40_0000, PtePermissions::rx(true), &mut ctx).unwrap();
    let old = asp.remap(0x40_0abc, 0x50_0000, PtePermissions::rw(true), &mut ctx.mapper).unwrap();
    assert_eq!(old, 0x300);
    assert_eq!(asp.translate(0x40_0000, &mut ctx.mapper), Some(PageInfo { pfn: 0x500, perms: PtePermissions::rw(true) }));
    assert_eq!(
        asp.remap(0x41_0000, 0x50_0000, PtePermissions::rw(true), &mut ctx.mapper),
        Err(KernelError::Mapping(MapError::NotL3Mapped))
    );
}

#[test]
fn clone_shares_pages_copy_on_write() {
    let mut ctx = new_arena_context(0x1000_0000, 64);
    let mut parent = X86_64ProcessAddressSpace::new(&mut ctx).unwrap();
    let mut child = X86_64ProcessAddressSpace::new(&mut ctx).unwrap();
    parent.map_page(0x30_0000, 0x40_0000, PtePermissions::rw(true), &mut ctx).unwrap();
    parent.map_page(0x31_0000, 0x40_1000, PtePermissions::rw(true), &mut ctx).unwrap();
    let cow = PtePermissions::from_raw_bits(true, false, false, true, true);
    let frames = parent.protect_and_clone_region(VirtMemoryRegion::new(0x40_0000, 0x2000), &mut child, cow, &mut ctx).unwrap();
    assert_eq!(frames, vec![0x300, 0x310]);
    assert_eq!(parent.translate(0x40_1000, &mut ctx.mapper), Some(PageInfo { pfn: 0x310, perms: cow }));
    assert_eq!(child.translate(0x40_1000, &mut ctx.mapper), Some(PageInfo { pfn: 0x310, perms: cow }));
    assert!(cow.is_cow() && !cow.is_write());
}

#[test]
fn idle_task_runs_its_code_page_in_ring_3() {
    let mut ctx = new_arena_context(0x1000_0000, 64);
    let image: Vec<u8> = vec![0xf4, 0xeb, 0xfd, 0x90, 0x90, 0x90, 0x90, 0x90, 0x90, 0x90, 0x90, 0x90, 0x90, 0x90, 0x90, 0x90];
    let idle = create_idle_task(&mut ctx, 0x7_0000, &image).unwrap();
    assert_eq!(idle.ctx.rip, IDLE_CODE_VA);
    assert_eq!(idle.ctx.cs, 0x33);
    assert_eq!(idle.ctx.ss, 0x2b);
    assert_eq!(idle.ctx.rflags, 0x200);
    assert_eq!(idle.ctx.rsp, 0);
    assert_eq!(idle.code_map, VmArea { region: VirtMemoryRegion::new(0xd00d_0000, 16), perms: PtePermissions::rx(true) });
    assert_eq!(idle.code_bytes.len(), 4096);
    assert_eq!(&idle.code_bytes[..16], &image[..]);
    assert!(idle.code_bytes[16..].iter().all(|b| *b == 0));
    assert_eq!(
        idle.addr_space.translate(0xd00d_0004, &mut ctx.mapper),
        Some(PageInfo { pfn: 0x70, perms: PtePermissions::rx(true) })
    );
}

#[test]
fn idle_task_fails_without_frames() {
    let mut ctx = new_arena_context(0x1000_0000, 0);
    assert_eq!(create_idle_task(&mut ctx, 0x7_0000, &[0xf4]).err(), Some(KernelError::NoMemory));
}

#[test]
fn kernel_va_translation() {
    let mut ctx = new_arena_context(0x1000_0000, 64);
    let root = allocate_zeroed_table(&mut ctx).unwrap();
    let kspc = kernel_space(root);
    assert_eq!(kspc.table_pa(), root);
    assert_eq!(translate_kernel_va(None, 0xffff_8880_0000_0000, &mut ctx.mapper), None);
    assert_eq!(translate_kernel_va(Some(&kspc), 0xffff_8880_0000_0000, &mut ctx.mapper), None);
    let mut kspc = kspc;
    let va = kspc.map_mmio(moss::address::PhysMemoryRegion::new(0xFEE0_0010, 0x20), &mut ctx).unwrap();
    assert_eq!(va, MMIO_BASE + 0x10);
    assert_eq!(translate_kernel_va(Some(&kspc), va, &mut ctx.mapper), Some(0xFEE0_0010));
    assert_eq!(translate_va(&mut ctx.mapper, root, MMIO_BASE).unwrap().map(|t| t.0), Some(0xFEE0_0000));
}

#[test]
fn frame_allocator_is_a_free_list() {
    let mut a = PageAllocator::new();
    assert_eq!(a.alloc_frame(), None);
    a.add_region(0x1001, 0x4000);
    assert_eq!(a.alloc_frame(), Some(0x3000));
    assert_eq!(a.alloc_frame(), Some(0x2000));
    a.free_frame(0x9000);
    assert_eq!(a.alloc_frame(), Some(0x9000));
    assert_eq!(a.alloc_frame(), None);
    a.add_region(0x5000, 0x5fff);
    assert_eq!(a.alloc_frame(), None);
    a.add_region(0x5000, 0x7000);
    assert_eq!(a.alloc_frame(), Some(0x6000));
    assert_eq!(a.alloc_frame(), Some(0x5000));
}

#[test]
fn protect_range_covers_every_page_an_unaligned_region_touches() {
    let mut ctx = new_arena_context(0x1000_0000, 64);
    let mut asp = X86_64ProcessAddressSpace::new(&mut ctx).unwrap();
    asp.map_page(0x30_0000, 0x40_0000, PtePermissions::rw(true), &mut ctx).unwrap();
    asp.map_page(0x31_0000, 0x40_1000, PtePermissions::rw(true), &mut ctx).unwrap();
    asp.map_page(0x32_0000, 0x40_2000, PtePermissions::rw(true), &mut ctx).unwrap();
    asp.protect_range(VirtMemoryRegion::new(0x40_0800, 0x1000), PtePermissions::rx(true), &mut ctx.mapper).unwrap();
    assert_eq!(asp.translate(0x40_0000, &mut ctx.mapper), Some(PageInfo { pfn: 0x300, perms: PtePermissions::rx(true) }));
    assert_eq!(asp.translate(0x40_1000, &mut ctx.mapper), Some(PageInfo { pfn: 0x310, perms: PtePermissions::rx(true) }));
    assert_eq!(asp.translate(0x40_2000, &mut ctx.mapper), Some(PageInfo { pfn: 0x320, perms: PtePermissions::rw(true) }));
    let frames = asp.unmap_range(VirtMemoryRegion::new(0x40_1fff, 2), &mut ctx.mapper).unwrap();
    assert_eq!(frames, vec![0x310, 0x320]);
    assert_eq!(asp.unmap_range(VirtMemoryRegion::new(0x40_0000, 0), &mut ctx.mapper).unwrap(), Vec::<u64>::new());
    assert!(asp.translate(0x40_0000, &mut ctx.mapper).is_some());
}

#[test]
fn context_switch_loads_the_new_root() {
    let mut ctx = new_arena_context(0x1000_0000, 64);
    let asp = X86_64ProcessAddressSpace::new(&mut ctx).unwrap();
    let root = asp.activate();
    assert_eq!(moss::process::context_switch(&asp), root);
    assert_eq!(root % 0x1000, 0);
}

#[test]
fn tables_are_seen_through_the_direct_map() {
    let m = moss::mmu::PageOffsetPgTableMapper {};
    assert_eq!(m.table_va(0x1000), Some(moss::mmu::PAGE_OFFSET + 0x1000));
    assert_eq!(m.table_va(u64::MAX), None);
}

fn kernel_space(root: u64) -> moss::mmu::X86_64KernelAddressSpace {
    let mut slot = None;
    setup_kern_addr_space(&mut slot, root).unwrap();
    slot.unwrap()
}

#[test]
fn mmio_windows_of_several_pages_follow_each_other() {
    let mut ctx = new_arena_context(0x1000_0000, 5);
    let root = allocate_zeroed_table(&mut ctx).unwrap();
    let mut kspc = kernel_space(root);
    let a = kspc.map_mmio(moss::address::PhysMemoryRegion::new(0xFEC0_0800, 0x2000), &mut ctx).unwrap();
    assert_eq!(a, MMIO_BASE + 0x800);
    let b = kspc.map_mmio(moss::address::PhysMemoryRegion::new(0xFED0_0000, 0x1000), &mut ctx).unwrap();
    assert_eq!(b, MMIO_BASE + 0x3000);
    assert_eq!(translate_kernel_va(Some(&kspc), a + 0x1fff, &mut ctx.mapper), Some(0xFEC0_27ff));
    assert_eq!(translate_kernel_va(Some(&kspc), b + 0x10, &mut ctx.mapper), Some(0xFED0_0010));
}

#[test]
fn mmio_without_table_frames_fails_with_no_memory() {
    let mut ctx = new_arena_context(0x1000_0000, 1);
    let root = allocate_zeroed_table(&mut ctx).unwrap();
    let mut kspc = kernel_space(root);
    assert_eq!(kspc.map_mmio(moss::address::PhysMemoryRegion::new(0xFEC0_0000, 0x3000), &mut ctx), Err(KernelError::NoMemory));
}

#[test]
fn clone_of_pages_across_a_2mib_boundary() {
    let mut ctx = new_arena_context(0x1000_0000, 64);
    let mut parent = X86_64ProcessAddressSpace::new(&mut ctx).unwrap();
    let mut child = X86_64ProcessAddressSpace::new(&mut ctx).unwrap();
    parent.map_page(0x30_0000, 0x5f_f000, PtePermissions::rw(true), &mut ctx).unwrap();
    parent.map_page(0x31_0000, 0x60_0000, PtePermissions::rw(true), &mut ctx).unwrap();
    parent.map_page(0x32_0000, 0x60_2000, PtePermissions::rw(true), &mut ctx).unwrap();
    let cow = PtePermissions::from_raw_bits(true, false, false, true, true);
    let frames = parent.protect_and_clone_region(VirtMemoryRegion::new(0x5f_f000, 0x4000), &mut child, cow, &mut ctx).unwrap();
    assert_eq!(frames, vec![0x300, 0x310, 0x320]);
    assert_eq!(child.translate(0x5f_f000, &mut ctx.mapper), Some(PageInfo { pfn: 0x300, perms: cow }));
    assert_eq!(child.translate(0x60_2000, &mut ctx.mapper), Some(PageInfo { pfn: 0x320, perms: cow }));
    assert_eq!(child.translate(0x60_1000, &mut ctx.mapper), None);
    assert_eq!(parent.translate(0x60_0000, &mut ctx.mapper), Some(PageInfo { pfn: 0x310, perms: cow }));
}
