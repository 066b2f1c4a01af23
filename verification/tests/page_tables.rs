use moss::error::{KernelError, MapError};
use moss::address::{PhysMemoryRegion, VirtMemoryRegion};
use moss::permissions::PtePermissions;
use moss::pg_descriptors::MemoryType;
use moss::pg_tables::{map_range, translate_va, allocate_zeroed_table, MapAttributes};
use moss::table_arena::new_arena_context;
use moss::boot::bootstrap_page_tables;

#[test]
fn map_4k_pages_translate_back() {
    let mut ctx = new_arena_context(0x1000_0000, 64);
    let root = allocate_zeroed_table(&mut ctx).unwrap();
    let attrs = MapAttributes {
        phys: PhysMemoryRegion::new(0x20_0000, 0x3000),
        virt: VirtMemoryRegion::new(0x4000_0000, 0x3000),
        mem_type: MemoryType::Normal,
        perms: PtePermissions::rw(true),
    };
    map_range(root, attrs, &mut ctx).unwrap();
    let t = translate_va(&mut ctx.mapper, root, 0x4000_1234).unwrap();
    assert_eq!(t, Some((0x20_1234, PtePermissions::rw(true))));
    assert_eq!(translate_va(&mut ctx.mapper, root, 0x4000_3000).unwrap(), None);
}

#[test]
fn size_mismatch_is_refused() {
    let mut ctx = new_arena_context(0x1000_0000, 64);
    let root = allocate_zeroed_table(&mut ctx).unwrap();
    let attrs = MapAttributes {
        phys: PhysMemoryRegion::new(0x20_0000, 0x2000),
        virt: VirtMemoryRegion::new(0x4000_0000, 0x3000),
        mem_type: MemoryType::Normal,
        perms: PtePermissions::rw(true),
    };
    assert_eq!(map_range(root, attrs, &mut ctx), Err(KernelError::Mapping(MapError::SizeMismatch)));
}

#[test]
fn bootstrap_maps_kernel_linear_and_identity() {
    let mut ctx = new_arena_context(0x1000_0000, 64);
    let root = bootstrap_page_tables(&mut ctx).unwrap();
    assert_eq!(translate_va(&mut ctx.mapper, root, 0xffff_ffff_8010_0042).unwrap(), Some((0x10_0042, PtePermissions::rwx(false))));
    assert_eq!(translate_va(&mut ctx.mapper, root, 0xffff_8000_dead_beef).unwrap(), Some((0xdead_beef, PtePermissions::rw(false))));
    assert_eq!(translate_va(&mut ctx.mapper, root, 0x1f_ffff).unwrap(), Some((0x1f_ffff, PtePermissions::rx(false))));
    assert_eq!(translate_va(&mut ctx.mapper, root, 0x20_0000).unwrap(), None);
}

#[test]
fn walks_through_missing_tables_fail() {
    let mut ctx = new_arena_context(0x1000_0000, 64);
    let root = allocate_zeroed_table(&mut ctx).unwrap();
    assert_eq!(root, 0x1000_0000);
    assert!(translate_va(&mut ctx.mapper, 0x2000_0000, 0x40_0000).is_err());
    assert_eq!(translate_va(&mut ctx.mapper, root, 0x40_0000), Ok(None));
}

#[test]
fn table_allocation_needs_a_frame() {
    let mut ctx = new_arena_context(0x1000_0000, 1);
    assert_eq!(allocate_zeroed_table(&mut ctx), Ok(0x1000_0000));
    assert_eq!(allocate_zeroed_table(&mut ctx), Err(KernelError::NoMemory));
}

#[test]
fn mismatched_sizes_are_refused_before_anything_else() {
    let mut ctx = new_arena_context(0x1000_0000, 8);
    let root = allocate_zeroed_table(&mut ctx).unwrap();
    let attrs = MapAttributes {
        phys: PhysMemoryRegion::new(0x20_0000, 0x1234),
        virt: VirtMemoryRegion::new(0x40_0000, 0x1000),
        mem_type: MemoryType::Normal,
        perms: PtePermissions::rw(false),
    };
    assert_eq!(map_range(root, attrs, &mut ctx), Err(KernelError::Mapping(MapError::SizeMismatch)));
}

#[test]
fn bootstrap_succeeds_with_eight_frames() {
    let mut ctx = new_arena_context(0x1000_0000, 8);
    let root = bootstrap_page_tables(&mut ctx).unwrap();
    assert_eq!(translate_va(&mut ctx.mapper, root, 0xffff_ffff_802f_f000).unwrap(), Some((0x2f_f000, PtePermissions::rwx(false))));
    assert_eq!(allocate_zeroed_table(&mut ctx), Err(KernelError::NoMemory));
}

#[test]
fn bootstrap_fails_with_seven_frames() {
    let mut ctx = new_arena_context(0x1000_0000, 7);
    assert_eq!(bootstrap_page_tables(&mut ctx), Err(KernelError::NoMemory));
}

#[test]
fn multi_page_range_maps_every_page() {
    let mut ctx = new_arena_context(0x1000_0000, 8);
    let root = allocate_zeroed_table(&mut ctx).unwrap();
    let attrs = MapAttributes {
        phys: PhysMemoryRegion::new(0x7f_e000, 0x6000),
        virt: VirtMemoryRegion::new(0x5f_e000, 0x6000),
        mem_type: MemoryType::Normal,
        perms: PtePermissions::rw(false),
    };
    map_range(root, attrs, &mut ctx).unwrap();
    for k in 0..6u64 {
        let va = 0x5f_e000 + k * 0x1000 + 0x10;
        assert_eq!(translate_va(&mut ctx.mapper, root, va).unwrap(), Some((0x7f_e010 + k * 0x1000, PtePermissions::rw(false))));
    }
}

#[test]
fn aligned_range_uses_a_2mib_block() {
    let mut ctx = new_arena_context(0x1000_0000, 3);
    let root = allocate_zeroed_table(&mut ctx).unwrap();
    let attrs = MapAttributes {
        phys: PhysMemoryRegion::new(0x60_0000, 0x20_0000),
        virt: VirtMemoryRegion::new(0x4000_0000, 0x20_0000),
        mem_type: MemoryType::Normal,
        perms: PtePermissions::rx(false),
    };
    map_range(root, attrs, &mut ctx).unwrap();
    assert_eq!(translate_va(&mut ctx.mapper, root, 0x401f_ffff).unwrap(), Some((0x7f_ffff, PtePermissions::rx(false))));
    assert_eq!(allocate_zeroed_table(&mut ctx), Err(KernelError::NoMemory));
}

#[test]
fn mapping_over_a_mapped_page_is_refused() {
    let mut ctx = new_arena_context(0x1000_0000, 8);
    let root = allocate_zeroed_table(&mut ctx).unwrap();
    let attrs = MapAttributes {
        phys: PhysMemoryRegion::new(0x20_0000, 0x1000),
        virt: VirtMemoryRegion::new(0x4000_0000, 0x1000),
        mem_type: MemoryType::Normal,
        perms: PtePermissions::rw(false),
    };
    map_range(root, attrs, &mut ctx).unwrap();
    let again = MapAttributes {
        phys: PhysMemoryRegion::new(0x30_0000, 0x2000),
        virt: VirtMemoryRegion::new(0x4000_0000, 0x2000),
        mem_type: MemoryType::Normal,
        perms: PtePermissions::rw(false),
    };
    assert_eq!(map_range(root, again, &mut ctx), Err(KernelError::Mapping(MapError::AlreadyMapped)));
    assert_eq!(translate_va(&mut ctx.mapper, root, 0x4000_0000).unwrap(), Some((0x20_0000, PtePermissions::rw(false))));
}

#[test]
fn range_under_existing_tables_reuses_them() {
    let mut ctx = new_arena_context(0x1000_0000, 4);
    let root = allocate_zeroed_table(&mut ctx).unwrap();
    let first = MapAttributes {
        phys: PhysMemoryRegion::new(0x20_0000, 0x1000),
        virt: VirtMemoryRegion::new(0x4000_0000, 0x1000),
        mem_type: MemoryType::Normal,
        perms: PtePermissions::rw(false),
    };
    map_range(root, first, &mut ctx).unwrap();
    let more = MapAttributes {
        phys: PhysMemoryRegion::new(0x30_0000, 0x3000),
        virt: VirtMemoryRegion::new(0x4000_3000, 0x3000),
        mem_type: MemoryType::Normal,
        perms: PtePermissions::rw(false),
    };
    assert_eq!(map_range(root, more, &mut ctx), Ok(()));
    assert_eq!(translate_va(&mut ctx.mapper, root, 0x4000_5008).unwrap(), Some((0x30_2008, PtePermissions::rw(false))));
    assert_eq!(translate_va(&mut ctx.mapper, root, 0x4000_0008).unwrap(), Some((0x20_0008, PtePermissions::rw(false))));
    assert_eq!(allocate_zeroed_table(&mut ctx), Err(KernelError::NoMemory));
}

#[test]
fn size_mismatch_takes_no_frame() {
    let mut ctx = new_arena_context(0x1000_0000, 2);
    let root = allocate_zeroed_table(&mut ctx).unwrap();
    let attrs = MapAttributes {
        phys: PhysMemoryRegion::new(0x20_0000, 0x1000),
        virt: VirtMemoryRegion::new(0x4000_0000, 0x2000),
        mem_type: MemoryType::Normal,
        perms: PtePermissions::rw(false),
    };
    assert_eq!(map_range(root, attrs, &mut ctx), Err(KernelError::Mapping(MapError::SizeMismatch)));
    assert_eq!(allocate_zeroed_table(&mut ctx), Ok(0x1000_1000));
}
