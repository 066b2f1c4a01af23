//! Changing the last-level mappings of existing pages: finding the
//! descriptor that maps a page, and the facts about what a single
//! descriptor write does to every translation.
use vstd::prelude::*;
use crate::error::{KernelError, MapError};
use crate::pg_descriptors::{desc_valid, desc_huge, desc_addr, desc_perms, next_table_of};
use crate::pg_tables::{
    PageTableMapper, path_table, path_entry, leaf_at, translate_spec, pg_index_spec, level_shift, preserves_valid,
    lemma_pg_index_bound, lemma_path_preserved, lemma_translate_preserved, block_mask, pg_index, walk_tables_held,
};
use crate::pg_descriptors::{
    raw_next_table_address, raw_is_valid, raw_set_permissions, raw_new_map_pa, with_perms, leaf_desc, lemma_with_perms,
    lemma_leaf_desc, PTE_HUGE, PTE_ADDR_MASK,
};
use crate::pg_tables::{tables_wf, lemma_preserves_trans, lemma_preserves_refl};
use crate::address::{VirtMemoryRegion, PhysMemoryRegion, PAGE_SIZE};
use crate::pg_descriptors::MemoryType;
use crate::range_map::{
    range_ready_within, range_grown, owner_history, range_tree, range_open, root_slots_empty, range_cost, range_va,
    budget_from, lemma_range_start, lemma_range_open_weaken, lemma_range_write_outside, lemma_walk_tables_unchanged,
    lemma_small_block, lemma_can_extend_less, lemma_budget_keep, lemma_blocks_free_page,
};
use crate::pg_tables::{map_range_in, block_size};
use crate::pg_tables::{PageAllocator, MappingContext, MapAttributes, map_range, mapped_prefix, map_law_applies,
    fresh_page_mapping};
use crate::permissions::PtePermissions;

verus! {

/// Two descriptors agree on presence, the huge bit and the address.
pub open spec fn same_shape(a: u64, b: u64) -> bool {
    &&& desc_valid(a) == desc_valid(b)
    &&& desc_huge(a) == desc_huge(b)
    &&& desc_addr(a) == desc_addr(b)
}

/// Two table sets hold the same tables, descriptor for descriptor of the
/// same shape: they may differ in permission bits only.
pub open spec fn shape_equiv(m1: Map<u64, Seq<u64>>, m2: Map<u64, Seq<u64>>) -> bool {
    &&& m1.dom() == m2.dom()
    &&& forall|t: u64| #[trigger] m1.contains_key(t) ==> m1[t].len() == m2[t].len()
    &&& forall|t: u64, i: int|
        #![trigger m2[t][i]]
        m1.contains_key(t) && 0 <= i < m1[t].len() ==> same_shape(m1[t][i], m2[t][i])
}

/// The level of the mapping that translates `va`, if any.
pub open spec fn leaf_level(m: Map<u64, Seq<u64>>, root: u64, va: u64) -> Option<nat> {
    if leaf_at(m, root, va, 1) {
        Some(1nat)
    } else if leaf_at(m, root, va, 2) {
        Some(2nat)
    } else if leaf_at(m, root, va, 3) {
        Some(3nat)
    } else {
        None
    }
}

/// The table and index of the descriptor that translates `va`.
pub open spec fn leaf_slot(m: Map<u64, Seq<u64>>, root: u64, va: u64) -> (u64, int) {
    let l = leaf_level(m, root, va)->Some_0;
    (path_table(m, root, va, l)->Some_0, pg_index_spec(va, level_shift(l)))
}

/// `m` with descriptor `i` of table `t` replaced by `v`.
pub open spec fn write_slot(m: Map<u64, Seq<u64>>, t: u64, i: int, v: u64) -> Map<u64, Seq<u64>> {
    m.insert(t, m[t].update(i, v))
}

/// A page is mapped by a 4 KiB descriptor.
pub open spec fn page_mapped(m: Map<u64, Seq<u64>>, root: u64, va: u64) -> bool {
    leaf_level(m, root, va) == Some(3nat)
}

pub proof fn lemma_shape_refl(m: Map<u64, Seq<u64>>)
    ensures
        shape_equiv(m, m),
{
}

pub proof fn lemma_shape_trans(m1: Map<u64, Seq<u64>>, m2: Map<u64, Seq<u64>>, m3: Map<u64, Seq<u64>>)
    requires
        shape_equiv(m1, m2),
        shape_equiv(m2, m3),
    ensures
        shape_equiv(m1, m3),
{
    assert forall|t: u64, i: int| m1.contains_key(t) && 0 <= i < m1[t].len() implies same_shape(
        m1[t][i],
        #[trigger] m3[t][i],
    ) by {
        assert(same_shape(m1[t][i], m2[t][i]));
        assert(m2.contains_key(t));
        assert(same_shape(m2[t][i], m3[t][i]));
    }
}

/// A write that keeps the descriptor's shape keeps the table set's shape.
pub proof fn lemma_shape_write(m: Map<u64, Seq<u64>>, t: u64, i: int, v: u64)
    requires
        m.contains_key(t),
        0 <= i < m[t].len(),
        same_shape(m[t][i], v),
    ensures
        shape_equiv(m, write_slot(m, t, i, v)),
{
    let m2 = write_slot(m, t, i, v);
    assert(m.dom() =~= m2.dom());
    assert forall|t2: u64, j: int| m.contains_key(t2) && 0 <= j < m[t2].len() implies same_shape(
        m[t2][j],
        #[trigger] m2[t2][j],
    ) by {
        if t2 == t && j == i {
        } else {
        }
    }
}

/// Table sets of the same shape take the same walks.
pub proof fn lemma_shape_paths(m1: Map<u64, Seq<u64>>, m2: Map<u64, Seq<u64>>, root: u64, va: u64, level: nat)
    requires
        shape_equiv(m1, m2),
        level <= 3,
        forall|t: u64| #[trigger] m1.contains_key(t) ==> m1[t].len() == 512,
    ensures
        path_table(m2, root, va, level) == path_table(m1, root, va, level),
    decreases level,
{
    if level > 0 {
        lemma_shape_paths(m1, m2, root, va, (level - 1) as nat);
        lemma_pg_index_bound(va, level_shift((level - 1) as nat));
        match path_table(m1, root, va, (level - 1) as nat) {
            Some(t) => {
                if m1.contains_key(t) {
                    let i = pg_index_spec(va, level_shift((level - 1) as nat));
                    assert(same_shape(m1[t][i], m2[t][i]));
                    assert(m2.contains_key(t));
                }
            },
            None => {},
        }
    }
}

/// Table sets of the same shape map the same addresses at the same
/// levels, from the same descriptor slots, to the same physical
/// addresses.
pub proof fn lemma_shape_translate(m1: Map<u64, Seq<u64>>, m2: Map<u64, Seq<u64>>, root: u64, va: u64)
    requires
        shape_equiv(m1, m2),
        forall|t: u64| #[trigger] m1.contains_key(t) ==> m1[t].len() == 512,
    ensures
        leaf_level(m2, root, va) == leaf_level(m1, root, va),
        leaf_level(m1, root, va) is Some ==> leaf_slot(m2, root, va) == leaf_slot(m1, root, va),
        translate_spec(m2, root, va) is Some == translate_spec(m1, root, va) is Some,
        translate_spec(m1, root, va) is Some ==> translate_spec(m2, root, va)->Some_0.0 == translate_spec(
            m1,
            root,
            va,
        )->Some_0.0,
        translate_spec(m1, root, va) is Some ==> translate_spec(m2, root, va)->Some_0.1 == desc_perms(
            m2[leaf_slot(m1, root, va).0][leaf_slot(m1, root, va).1],
        ),
{
    lemma_shape_paths(m1, m2, root, va, 1);
    lemma_shape_paths(m1, m2, root, va, 2);
    lemma_shape_paths(m1, m2, root, va, 3);
    lemma_pg_index_bound(va, 30);
    lemma_pg_index_bound(va, 21);
    lemma_pg_index_bound(va, 12);
    let l1 = path_table(m1, root, va, 1);
    let l2 = path_table(m1, root, va, 2);
    let l3 = path_table(m1, root, va, 3);
    if l1 is Some && m1.contains_key(l1->Some_0) {
        assert(same_shape(m1[l1->Some_0][pg_index_spec(va, 30)], m2[l1->Some_0][pg_index_spec(va, 30)]));
    }
    if l2 is Some && m1.contains_key(l2->Some_0) {
        assert(same_shape(m1[l2->Some_0][pg_index_spec(va, 21)], m2[l2->Some_0][pg_index_spec(va, 21)]));
    }
    if l3 is Some && m1.contains_key(l3->Some_0) {
        assert(same_shape(m1[l3->Some_0][pg_index_spec(va, 12)], m2[l3->Some_0][pg_index_spec(va, 12)]));
    }
}

/// After a shape-keeping write of `v` to slot `(t, i)`, an address whose
/// mapping comes from that slot keeps its physical address and takes the
/// permissions of `v`; every other address keeps its translation.
pub proof fn lemma_shape_write_translate(m: Map<u64, Seq<u64>>, t: u64, i: int, v: u64, root: u64, va: u64)
    requires
        m.contains_key(t),
        0 <= i < 512,
        same_shape(m[t][i], v),
        forall|t2: u64| #[trigger] m.contains_key(t2) ==> m[t2].len() == 512,
    ensures
        leaf_level(write_slot(m, t, i, v), root, va) == leaf_level(m, root, va),
        translate_spec(m, root, va) is Some && leaf_slot(m, root, va) == (t, i) ==> translate_spec(
            write_slot(m, t, i, v),
            root,
            va,
        ) == Some((translate_spec(m, root, va)->Some_0.0, desc_perms(v))),
        !(translate_spec(m, root, va) is Some && leaf_slot(m, root, va) == (t, i)) ==> translate_spec(
            write_slot(m, t, i, v),
            root,
            va,
        ) == translate_spec(m, root, va),
{
    let m2 = write_slot(m, t, i, v);
    lemma_shape_write(m, t, i, v);
    lemma_shape_translate(m, m2, root, va);
    if translate_spec(m, root, va) is Some {
        let (lt, li) = leaf_slot(m, root, va);
        lemma_pg_index_bound(va, 30);
        lemma_pg_index_bound(va, 21);
        lemma_pg_index_bound(va, 12);
        if lt == t && li == i {
        } else {
            assert(m2[lt][li] == m[lt][li]);
        }
    }
}

/// The leaf of an address is on the tables.
proof fn lemma_leaf_slot_present(m: Map<u64, Seq<u64>>, root: u64, va: u64)
    requires
        translate_spec(m, root, va) is Some,
    ensures
        leaf_level(m, root, va) is Some,
        m.contains_key(leaf_slot(m, root, va).0),
        path_entry(m, root, va, leaf_level(m, root, va)->Some_0) == Some(
            m[leaf_slot(m, root, va).0][leaf_slot(m, root, va).1],
        ),
{
}

/// Emptying one descriptor removes mappings and never adds or changes
/// one: whatever the new tables translate, the old ones translated the
/// same way; and the page the slot mapped is no longer mapped.
pub proof fn lemma_clear_slot(m: Map<u64, Seq<u64>>, t: u64, i: int, v: u64, root: u64, va: u64)
    requires
        m.contains_key(t),
        0 <= i < 512,
        !desc_valid(v),
        forall|t2: u64| #[trigger] m.contains_key(t2) ==> m[t2].len() == 512,
    ensures
        preserves_valid(write_slot(m, t, i, v), m),
        translate_spec(write_slot(m, t, i, v), root, va) is Some ==> translate_spec(write_slot(m, t, i, v), root, va)
            == translate_spec(m, root, va),
        translate_spec(m, root, va) is Some && leaf_slot(m, root, va) == (t, i) ==> translate_spec(
            write_slot(m, t, i, v),
            root,
            va,
        ) is None,
{
    let m2 = write_slot(m, t, i, v);
    assert forall|t2: u64, j: int|
        #![trigger m2[t2][j]]
        m2.contains_key(t2) && 0 <= j < 512 && desc_valid(m2[t2][j]) implies m.contains_key(t2) && m[t2][j]
        == m2[t2][j] by {
        if t2 == t && j == i {
        } else {
        }
    }
    assert(preserves_valid(m2, m));
    if translate_spec(m2, root, va) is Some {
        lemma_translate_preserved(m2, m, root, va);
        if translate_spec(m, root, va) is Some && leaf_slot(m, root, va) == (t, i) {
            // The walk in the new tables is the walk in the old ones, and
            // ends at the cleared slot.
            lemma_leaf_slot_present(m, root, va);
            lemma_leaf_slot_present(m2, root, va);
            let l = leaf_level(m, root, va)->Some_0;
            let l2 = leaf_level(m2, root, va)->Some_0;
            lemma_path_preserved(m2, m, root, va, l2);
            if l2 == l {
                assert(m2[t][i] == v);
                assert(false);
            } else if l2 < l {
                lemma_path_preserved(m2, m, root, va, l2);
                lemma_pg_index_bound(va, level_shift(l2));
                let e2 = path_entry(m2, root, va, l2)->Some_0;
                assert(path_entry(m, root, va, l2) == Some(e2));
                assert(leaf_at(m, root, va, l2));
                assert(false);
            } else {
                lemma_path_preserved(m2, m, root, va, l2);
                assert(path_table(m, root, va, l2) is Some);
                if l == 1 {
                    assert(path_table(m, root, va, 2) is Some);
                    assert(next_table_of(path_entry(m, root, va, 1)->Some_0, false) is Some);
                    assert(false);
                } else {
                    assert(l == 2 && l2 == 3);
                    assert(next_table_of(path_entry(m, root, va, 2)->Some_0, false) is Some);
                    assert(false);
                }
            }
        }
    }
}

/// Where the walk for a page ends.
#[derive(Debug, Clone, Copy, PartialEq, Eq, Structural)]
pub enum LeafLookup {
    /// No mapping translates the page.
    Unmapped,
    /// A 1 GiB or 2 MiB block maps the page.
    Block,
    /// Descriptor `index` of the last-level table at `table`, holding
    /// `entry`, maps the page.
    Page { table: u64, index: usize, entry: u64 },
}

/// Walk the tables rooted at `root` to the descriptor that maps `va`.
pub fn find_leaf<M: PageTableMapper>(mapper: &mut M, root: u64, va: u64) -> (r: Result<LeafLookup, KernelError>)
    requires
        forall|t: u64| #[trigger] old(mapper).tables().contains_key(t) ==> old(mapper).tables()[t].len() == 512,
    ensures
        final(mapper).tables() == old(mapper).tables(),
        forall|t: u64| #[trigger] final(mapper).can_add_table(t) == old(mapper).can_add_table(t),
        r is Ok <==> walk_tables_held(old(mapper).tables(), root, va),
        r == Ok::<LeafLookup, KernelError>(LeafLookup::Unmapped) ==> translate_spec(old(mapper).tables(), root, va) is None,
        r == Ok::<LeafLookup, KernelError>(LeafLookup::Block) ==> translate_spec(old(mapper).tables(), root, va) is Some
            && !page_mapped(old(mapper).tables(), root, va),
        r matches Ok(LeafLookup::Page { table, index, entry }) ==> {
            &&& page_mapped(old(mapper).tables(), root, va)
            &&& translate_spec(old(mapper).tables(), root, va) is Some
            &&& leaf_slot(old(mapper).tables(), root, va) == (table, index as int)
            &&& old(mapper).tables().contains_key(table)
            &&& index < 512
            &&& entry == old(mapper).tables()[table][index as int]
            &&& desc_valid(entry)
        },
{
    let ghost m = mapper.tables();
    assert(path_table(m, root, va, 0) == Some(root));
    let e0 = mapper.read_entry(root, pg_index(va, 39))?;
    let t1 = match raw_next_table_address(e0, true) {
        Some(t) => t,
        None => {
            return Ok(LeafLookup::Unmapped);
        },
    };
    assert(path_table(m, root, va, 1) == Some(t1));
    let e1 = mapper.read_entry(t1, pg_index(va, 30))?;
    assert(path_entry(m, root, va, 1) == Some(e1));
    if !raw_is_valid(e1) {
        return Ok(LeafLookup::Unmapped);
    }
    if e1 & PTE_HUGE != 0 {
        return Ok(LeafLookup::Block);
    }
    let t2 = e1 & PTE_ADDR_MASK;
    assert(path_table(m, root, va, 2) == Some(t2));
    let e2 = mapper.read_entry(t2, pg_index(va, 21))?;
    assert(path_entry(m, root, va, 2) == Some(e2));
    if !raw_is_valid(e2) {
        return Ok(LeafLookup::Unmapped);
    }
    if e2 & PTE_HUGE != 0 {
        return Ok(LeafLookup::Block);
    }
    let t3 = e2 & PTE_ADDR_MASK;
    assert(path_table(m, root, va, 3) == Some(t3));
    let idx = pg_index(va, 12);
    let e3 = mapper.read_entry(t3, idx)?;
    assert(path_entry(m, root, va, 3) == Some(e3));
    if !raw_is_valid(e3) {
        return Ok(LeafLookup::Unmapped);
    }
    Ok(LeafLookup::Page { table: t3, index: idx, entry: e3 })
}

/// `va` translates to the physical address `pa`.
pub open spec fn maps_to(m: Map<u64, Seq<u64>>, root: u64, va: u64, pa: int) -> bool {
    translate_spec(m, root, va) is Some && translate_spec(m, root, va)->Some_0.0 == pa
}

/// Some page of `region` translates to `pa`.
pub open spec fn mapped_in_region(m: Map<u64, Seq<u64>>, root: u64, region: VirtMemoryRegion, pa: int) -> bool {
    exists|k: int| 0 <= k < region_pages(region) && #[trigger] maps_to(m, root, region_page(region, k), pa)
}

pub proof fn lemma_zero_invalid()
    ensures
        !desc_valid(0u64),
{
    assert(0u64 & 0x1u64 == 0) by (bit_vector);
}

/// Page `k` of `region`: the `k`-th 4 KiB page counted from the one that
/// holds the region's first byte.
pub open spec fn region_page(region: VirtMemoryRegion, k: int) -> u64 {
    ((region.start as int / 4096) * 4096 + k * 4096) as u64
}

/// Number of 4 KiB pages that hold a byte of `region`.
pub open spec fn region_pages(region: VirtMemoryRegion) -> int {
    if region.size == 0 {
        0
    } else {
        (region.start + region.size - 1) / 4096 - region.start as int / 4096 + 1
    }
}

/// A region that ends inside the address space and below its last page,
/// whose end address does not fit in 64 bits.
pub open spec fn page_region(region: VirtMemoryRegion) -> bool {
    &&& region.start + region.size <= u64::MAX
    &&& region.size == 0 || (region.start + region.size - 1) / 4096 < 0xF_FFFF_FFFF_FFFF
}

/// Permissions that grant no access at all: the pages are unmapped.
pub open spec fn grants_nothing(p: PtePermissions) -> bool {
    !p.execute && !p.read && !p.write
}

proof fn lemma_region_page(region: VirtMemoryRegion, k: int)
    requires
        page_region(region),
        0 <= k < region_pages(region),
    ensures
        region_page(region, k) == (region.start as int / 4096) * 4096 + k * 4096,
        region_page(region, k) % 4096 == 0,
        region_page(region, k) & 0xFFFu64 == 0,
        (region_page(region, k) + 0xFFFu64) as int <= u64::MAX,
        region_page(region, k) + 4096 <= u64::MAX,
{
    let s = region.start as int;
    let last = (s + region.size - 1) / 4096;
    let q = s / 4096;
    assert(q + k <= last);
    assert(last * 4096 <= s + region.size - 1) by (nonlinear_arith)
        requires
            last == (s + region.size - 1) / 4096,
            s + region.size - 1 >= 0,
    ;
    assert((q + k) * 4096 <= last * 4096) by (nonlinear_arith)
        requires
            q + k <= last,
    ;
    assert(last * 4096 + 4096 <= u64::MAX) by (nonlinear_arith)
        requires
            last < 0xF_FFFF_FFFF_FFFF,
    ;
    assert(q * 4096 + k * 4096 == (q + k) * 4096) by (nonlinear_arith);
    assert(q >= 0) by (nonlinear_arith)
        requires
            s >= 0,
            q == s / 4096,
    ;
    let va = region_page(region, k);
    assert(va == (q + k) * 4096);
    assert(((q + k) * 4096) % 4096 == 0) by (nonlinear_arith)
        requires
            q + k >= 0,
    ;
    assert((va % 4096 == 0 ==> va & 0xFFFu64 == 0) && (va % 4096 == 0 && va <= u64::MAX ==> va + 0xFFFu64
        <= u64::MAX)) by (bit_vector);
}

fn page_count(region: &VirtMemoryRegion) -> (n: u64)
    requires
        page_region(*region),
    ensures
        n == region_pages(*region),
{
    if region.size == 0 {
        0
    } else {
        (region.start + region.size - 1) / 4096 - region.start / 4096 + 1
    }
}

fn page_at(region: &VirtMemoryRegion, k: u64) -> (r: u64)
    requires
        page_region(*region),
        k < region_pages(*region),
    ensures
        r == region_page(*region, k as int),
{
    proof {
        lemma_region_page(*region, k as int);
    }
    (region.start / 4096) * 4096 + k * 4096
}

/// The walk for `va` reads only present tables and meets no 1 GiB or
/// 2 MiB block.
pub open spec fn walk_clear(m: Map<u64, Seq<u64>>, root: u64, va: u64) -> bool {
    &&& walk_tables_held(m, root, va)
    &&& !leaf_at(m, root, va, 1)
    &&& !leaf_at(m, root, va, 2)
}

/// The walk of every page of `region` is clear.
pub open spec fn region_walks_clear(m: Map<u64, Seq<u64>>, root: u64, region: VirtMemoryRegion) -> bool {
    forall|k: int| 0 <= k < region_pages(region) ==> #[trigger] walk_clear(m, root, region_page(region, k))
}

/// Tables that only lost present descriptors keep every clear walk clear.
proof fn lemma_walk_clear_kept(m: Map<u64, Seq<u64>>, m0: Map<u64, Seq<u64>>, root: u64, va: u64)
    requires
        preserves_valid(m, m0),
        m.dom() == m0.dom(),
        walk_clear(m0, root, va),
    ensures
        walk_clear(m, root, va),
{
    lemma_pg_index_bound(va, 30);
    lemma_pg_index_bound(va, 21);
    if path_table(m, root, va, 1) is Some {
        lemma_path_preserved(m, m0, root, va, 1);
    }
    if path_table(m, root, va, 2) is Some {
        lemma_path_preserved(m, m0, root, va, 2);
    }
    if path_table(m, root, va, 3) is Some {
        lemma_path_preserved(m, m0, root, va, 3);
    }
    if leaf_at(m, root, va, 1) {
        let t = path_table(m, root, va, 1)->Some_0;
        assert(m[t][pg_index_spec(va, 30)] == m0[t][pg_index_spec(va, 30)]);
        assert(leaf_at(m0, root, va, 1));
    }
    if leaf_at(m, root, va, 2) {
        let t = path_table(m, root, va, 2)->Some_0;
        assert(m[t][pg_index_spec(va, 21)] == m0[t][pg_index_spec(va, 21)]);
        assert(leaf_at(m0, root, va, 2));
    }
}

proof fn lemma_shape_sym(m1: Map<u64, Seq<u64>>, m2: Map<u64, Seq<u64>>)
    requires
        shape_equiv(m1, m2),
    ensures
        shape_equiv(m2, m1),
{
    assert forall|t: u64, i: int| m2.contains_key(t) && 0 <= i < m2[t].len() implies same_shape(
        m2[t][i],
        #[trigger] m1[t][i],
    ) by {
        assert(m1.contains_key(t));
        assert(same_shape(m1[t][i], m2[t][i]));
    }
}

/// Tables of the same shape keep every clear walk clear.
proof fn lemma_walk_clear_shape(m0: Map<u64, Seq<u64>>, m: Map<u64, Seq<u64>>, root: u64, va: u64)
    requires
        shape_equiv(m0, m),
        tables_wf(m0),
        walk_clear(m0, root, va),
    ensures
        walk_clear(m, root, va),
{
    lemma_shape_paths(m0, m, root, va, 1);
    lemma_shape_paths(m0, m, root, va, 2);
    lemma_shape_paths(m0, m, root, va, 3);
    lemma_pg_index_bound(va, 30);
    lemma_pg_index_bound(va, 21);
    if leaf_at(m, root, va, 1) {
        let t = path_table(m, root, va, 1)->Some_0;
        assert(same_shape(m0[t][pg_index_spec(va, 30)], m[t][pg_index_spec(va, 30)]));
    }
    if leaf_at(m, root, va, 2) {
        let t = path_table(m, root, va, 2)->Some_0;
        assert(same_shape(m0[t][pg_index_spec(va, 21)], m[t][pg_index_spec(va, 21)]));
    }
}

/// Set the permissions of every 4 KiB page holding a byte of `region` mapped under
/// `root` to `perms`; permissions that grant nothing unmap the pages
/// instead. Pages without a mapping are left alone; a page inside a
/// 1 GiB or 2 MiB block stops the walk with `NotL3Mapped`.
pub fn protect_pages<M: PageTableMapper>(mapper: &mut M, root: u64, region: VirtMemoryRegion, perms: PtePermissions) -> (r:
    Result<(), KernelError>)
    requires
        tables_wf(old(mapper).tables()),
        page_region(region),
    ensures
        tables_wf(final(mapper).tables()),
        !grants_nothing(perms) ==> shape_equiv(old(mapper).tables(), final(mapper).tables()),
        grants_nothing(perms) ==> preserves_valid(final(mapper).tables(), old(mapper).tables()),
        r is Ok && !grants_nothing(perms) ==> forall|k: int|
            0 <= k < region_pages(region) && #[trigger] translate_spec(old(mapper).tables(), root, region_page(region, k))
                is Some ==> translate_spec(final(mapper).tables(), root, region_page(region, k)) == Some(
                (translate_spec(old(mapper).tables(), root, region_page(region, k))->Some_0.0, perms.effective()),
            ),
        r is Ok && grants_nothing(perms) ==> forall|k: int|
            0 <= k < region_pages(region) ==> #[trigger] translate_spec(final(mapper).tables(), root, region_page(region, k))
                is None,
        region_walks_clear(old(mapper).tables(), root, region) ==> r is Ok,
        !grants_nothing(perms) ==> (r is Ok <==> region_walks_clear(old(mapper).tables(), root, region)),
{
    let ghost m0 = mapper.tables();
    let unmap = !perms.is_execute() && !perms.is_read() && !perms.is_write();
    let count: u64 = page_count(&region);
    let mut k: u64 = 0;
    proof {
        lemma_shape_refl(m0);
        lemma_preserves_refl(m0);
    }
    while k < count
        invariant
            m0 == old(mapper).tables(),
            page_region(region),
            count == region_pages(region),
            k <= count,
            unmap == grants_nothing(perms),
            tables_wf(mapper.tables()),
            !unmap ==> shape_equiv(m0, mapper.tables()),
            unmap ==> preserves_valid(mapper.tables(), m0),
            mapper.tables().dom() == m0.dom(),
            !unmap ==> forall|j: int| 0 <= j < k ==> #[trigger] walk_clear(m0, root, region_page(region, j)),
            !unmap ==> forall|j: int|
                0 <= j < k && #[trigger] translate_spec(m0, root, region_page(region, j)) is Some ==> translate_spec(
                    mapper.tables(),
                    root,
                    region_page(region, j),
                ) == Some((translate_spec(m0, root, region_page(region, j))->Some_0.0, perms.effective())),
            unmap ==> forall|j: int|
                0 <= j < k ==> #[trigger] translate_spec(mapper.tables(), root, region_page(region, j)) is None,
        decreases count - k,
    {
        let va = page_at(&region, k);
        let ghost cur = mapper.tables();
        proof {
            if region_walks_clear(m0, root, region) {
                assert(walk_clear(m0, root, region_page(region, k as int)));
                if unmap {
                    lemma_walk_clear_kept(cur, m0, root, va);
                } else {
                    lemma_walk_clear_shape(m0, cur, root, va);
                }
            }
        }
        match find_leaf(mapper, root, va)? {
            LeafLookup::Unmapped => {
                proof {
                    if !unmap {
                        lemma_shape_translate(m0, cur, root, va);
                        assert(walk_clear(cur, root, va));
                        lemma_shape_sym(m0, cur);
                        lemma_walk_clear_shape(cur, m0, root, va);
                    }
                }
            },
            LeafLookup::Block => {
                return Err(KernelError::Mapping(MapError::NotL3Mapped));
            },
            LeafLookup::Page { table, index, entry } => {
                proof {
                    if !unmap {
                        assert(walk_clear(cur, root, va));
                        lemma_shape_sym(m0, cur);
                        lemma_walk_clear_shape(cur, m0, root, va);
                    }
                }
                let v = if unmap {
                    0u64
                } else {
                    raw_set_permissions(entry, perms)
                };
                mapper.write_entry(table, index, v)?;
                proof {
                    let new = mapper.tables();
                    assert(new == write_slot(cur, table, index as int, v));
                    if unmap {
                        lemma_zero_invalid();
                        lemma_clear_slot(cur, table, index as int, v, root, va);
                        lemma_preserves_trans(new, cur, m0);
                        assert forall|j: int| 0 <= j < k + 1 implies #[trigger] translate_spec(
                            new,
                            root,
                            region_page(region, j),
                        ) is None by {
                            lemma_clear_slot(cur, table, index as int, v, root, region_page(region, j));
                        }
                    } else {
                        lemma_with_perms(entry, perms);
                        lemma_shape_write(cur, table, index as int, v);
                        lemma_shape_trans(m0, cur, new);
                        assert forall|j: int|
                            0 <= j < k + 1 && #[trigger] translate_spec(m0, root, region_page(region, j))
                                is Some implies translate_spec(new, root, region_page(region, j)) == Some(
                            (translate_spec(m0, root, region_page(region, j))->Some_0.0, perms.effective()),
                        ) by {
                            let vj = region_page(region, j);
                            lemma_shape_translate(m0, cur, root, vj);
                            lemma_shape_write_translate(cur, table, index as int, v, root, vj);
                        }
                    }
                    assert(forall|t: u64| #[trigger] new.contains_key(t) ==> new[t].len() == 512);
                }
            },
        }
        proof {
            if !unmap {
                assert(forall|j: int| 0 <= j < k + 1 ==> #[trigger] walk_clear(m0, root, region_page(region, j)));
            }
        }
        k = k + 1;
    }
    Ok(())
}

/// The walk for `va` reads descriptor `i` of table `t`.
pub open spec fn on_walk(m: Map<u64, Seq<u64>>, root: u64, va: u64, t: u64, i: int) -> bool {
    ||| path_table(m, root, va, 0) == Some(t) && pg_index_spec(va, 39) == i
    ||| path_table(m, root, va, 1) == Some(t) && pg_index_spec(va, 30) == i
    ||| path_table(m, root, va, 2) == Some(t) && pg_index_spec(va, 21) == i
    ||| path_table(m, root, va, 3) == Some(t) && pg_index_spec(va, 12) == i
}

/// The walks for `va` in `m1` and in `m2` visit the same tables and read
/// the same descriptors.
pub open spec fn same_walk(m1: Map<u64, Seq<u64>>, m2: Map<u64, Seq<u64>>, root: u64, va: u64) -> bool {
    &&& path_table(m1, root, va, 1) == path_table(m2, root, va, 1)
    &&& path_table(m1, root, va, 2) == path_table(m2, root, va, 2)
    &&& path_table(m1, root, va, 3) == path_table(m2, root, va, 3)
    &&& path_entry(m1, root, va, 0) == path_entry(m2, root, va, 0)
    &&& path_entry(m1, root, va, 1) == path_entry(m2, root, va, 1)
    &&& path_entry(m1, root, va, 2) == path_entry(m2, root, va, 2)
    &&& path_entry(m1, root, va, 3) == path_entry(m2, root, va, 3)
}

/// The descriptor that maps a page of `region` with 4 KiB granularity is
/// read by the walk of no other page of `region`: removing one page's
/// mapping leaves the walks of the others as they were. Tables that form
/// a tree have this property.
pub open spec fn walks_independent(m: Map<u64, Seq<u64>>, root: u64, region: VirtMemoryRegion) -> bool {
    forall|j1: int, j2: int|
        #![trigger region_page(region, j1), region_page(region, j2)]
        0 <= j1 < region_pages(region) && 0 <= j2 < region_pages(region) && j1 != j2 && page_mapped(
            m,
            root,
            region_page(region, j1),
        ) ==> !on_walk(
            m,
            root,
            region_page(region, j2),
            leaf_slot(m, root, region_page(region, j1)).0,
            leaf_slot(m, root, region_page(region, j1)).1,
        )
}

/// The number of the frame `va` translates to.
pub open spec fn page_frame(m: Map<u64, Seq<u64>>, root: u64, va: u64) -> u64 {
    (translate_spec(m, root, va)->Some_0.0 / 4096) as u64
}

/// The frame numbers of the first `n` pages of `region` that are mapped
/// with 4 KiB granularity, in page order.
pub open spec fn mapped_frames(m: Map<u64, Seq<u64>>, root: u64, region: VirtMemoryRegion, n: nat) -> Seq<u64>
    decreases n,
{
    if n == 0 {
        Seq::empty()
    } else {
        let prev = mapped_frames(m, root, region, (n - 1) as nat);
        let va = region_page(region, n - 1);
        if page_mapped(m, root, va) {
            prev.push(page_frame(m, root, va))
        } else {
            prev
        }
    }
}

/// Writing a descriptor that the walk for `va` does not read leaves that
/// walk as it was.
pub proof fn lemma_write_off_walk(m: Map<u64, Seq<u64>>, t: u64, i: int, v: u64, root: u64, va: u64)
    requires
        tables_wf(m),
        m.contains_key(t),
        0 <= i < 512,
        !on_walk(m, root, va, t, i),
    ensures
        same_walk(write_slot(m, t, i, v), m, root, va),
{
    let m2 = write_slot(m, t, i, v);
    lemma_pg_index_bound(va, 39);
    lemma_pg_index_bound(va, 30);
    lemma_pg_index_bound(va, 21);
    lemma_pg_index_bound(va, 12);
    assert forall|t2: u64, j: int| m.contains_key(t2) && 0 <= j < 512 && !(t2 == t && j == i) implies #[trigger] m2[t2][j]
        == m[t2][j] && m2.contains_key(t2) by {
        assert(m[t2].len() == 512);
        if t2 == t {
            assert(m2[t2] == m[t].update(i, v));
            assert(j != i);
            assert(m[t].update(i, v)[j] == m[t][j]);
        }
    }
    assert(forall|t2: u64| #[trigger] m2.contains_key(t2) == m.contains_key(t2));
    assert(level_shift(0) == 39 && level_shift(1) == 30 && level_shift(2) == 21 && level_shift(3) == 12);
    assert(path_table(m2, root, va, 0) == path_table(m, root, va, 0));
    assert(path_table(m2, root, va, 1) == path_table(m, root, va, 1));
    assert(path_table(m2, root, va, 2) == path_table(m, root, va, 2));
    assert(path_table(m2, root, va, 3) == path_table(m, root, va, 3));
}

/// Tables whose walks for `va` agree translate `va` alike.
pub proof fn lemma_same_walk_translate(m1: Map<u64, Seq<u64>>, m2: Map<u64, Seq<u64>>, root: u64, va: u64)
    requires
        same_walk(m1, m2, root, va),
    ensures
        translate_spec(m1, root, va) == translate_spec(m2, root, va),
        leaf_level(m1, root, va) == leaf_level(m2, root, va),
        page_mapped(m1, root, va) == page_mapped(m2, root, va),
        page_mapped(m1, root, va) ==> leaf_slot(m1, root, va) == leaf_slot(m2, root, va),
        forall|t: u64, i: int| on_walk(m1, root, va, t, i) == on_walk(m2, root, va, t, i),
{
    assert(path_table(m1, root, va, 0) == path_table(m2, root, va, 0));
}

proof fn lemma_page_translation(m: Map<u64, Seq<u64>>, root: u64, va: u64, t: u64, i: int)
    requires
        page_mapped(m, root, va),
        leaf_slot(m, root, va) == (t, i),
        m.contains_key(t),
        va & 0xFFFu64 == 0,
    ensures
        translate_spec(m, root, va) == Some((desc_addr(m[t][i]) as int, desc_perms(m[t][i]))),
        desc_addr(m[t][i]) % 4096 == 0,
        (desc_addr(m[t][i]) >> 12u64) * 4096 == desc_addr(m[t][i]),
{
    let e = m[t][i];
    assert(desc_addr(e) % 4096 == 0 && (desc_addr(e) >> 12u64) * 4096 == desc_addr(e)) by (bit_vector)
        requires true;
    assert(path_entry(m, root, va, 3) == Some(e));
}

/// Unmap every 4 KiB page holding a byte of `region` under `root` and return the frame
/// numbers that were mapped there, in page order (all of them where the
/// pages' walks are independent). Pages without a
/// mapping are skipped; a page inside a 1 GiB or 2 MiB block stops the
/// walk with `NotL3Mapped`.
pub fn unmap_pages<M: PageTableMapper>(mapper: &mut M, root: u64, region: VirtMemoryRegion) -> (r: Result<
    Vec<u64>,
    KernelError,
>)
    requires
        tables_wf(old(mapper).tables()),
        page_region(region),
    ensures
        tables_wf(final(mapper).tables()),
        preserves_valid(final(mapper).tables(), old(mapper).tables()),
        r is Ok ==> forall|k: int|
            0 <= k < region_pages(region) ==> #[trigger] translate_spec(final(mapper).tables(), root, region_page(region, k))
                is None,
        r matches Ok(frames) ==> forall|i: int|
            0 <= i < frames@.len() ==> #[trigger] mapped_in_region(old(mapper).tables(), root, region, frames@[i] * 4096),
        walks_independent(old(mapper).tables(), root, region) ==> (r matches Ok(frames) ==> frames@ == mapped_frames(
            old(mapper).tables(),
            root,
            region,
            region_pages(region) as nat,
        )),
        region_walks_clear(old(mapper).tables(), root, region) ==> r is Ok,
{
    let ghost m0 = mapper.tables();
    let ghost indep = walks_independent(m0, root, region);
    let count: u64 = page_count(&region);
    let mut k: u64 = 0;
    let mut frames: Vec<u64> = Vec::new();
    let ghost mut which: Seq<int> = Seq::empty();
    proof {
        lemma_preserves_refl(m0);
    }
    while k < count
        invariant
            m0 == old(mapper).tables(),
            indep == walks_independent(m0, root, region),
            page_region(region),
            count == region_pages(region),
            k <= count,
            tables_wf(mapper.tables()),
            preserves_valid(mapper.tables(), m0),
            mapper.tables().dom() == m0.dom(),
            forall|j: int| 0 <= j < k ==> #[trigger] translate_spec(mapper.tables(), root, region_page(region, j)) is None,
            which.len() == frames@.len(),
            forall|i: int|
                0 <= i < frames@.len() ==> 0 <= #[trigger] which[i] < k && maps_to(
                    m0,
                    root,
                    region_page(region, which[i]),
                    frames@[i] * 4096,
                ),
            indep ==> forall|j: int|
                k <= j < count ==> #[trigger] same_walk(mapper.tables(), m0, root, region_page(region, j)),
            indep ==> frames@ == mapped_frames(m0, root, region, k as nat),
        decreases count - k,
    {
        let va = page_at(&region, k);
        let ghost cur = mapper.tables();
        proof {
            lemma_region_page(region, k as int);
            if region_walks_clear(m0, root, region) {
                assert(walk_clear(m0, root, region_page(region, k as int)));
                lemma_walk_clear_kept(cur, m0, root, va);
            }
            if indep {
                assert(same_walk(cur, m0, root, region_page(region, k as int)));
                lemma_same_walk_translate(cur, m0, root, va);
            }
        }
        match find_leaf(mapper, root, va)? {
            LeafLookup::Unmapped => {
                proof {
                    if indep {
                        assert(mapped_frames(m0, root, region, (k + 1) as nat) == mapped_frames(m0, root, region, k as nat));
                        assert forall|j: int| k + 1 <= j < count implies #[trigger] same_walk(
                            mapper.tables(),
                            m0,
                            root,
                            region_page(region, j),
                        ) by {}
                    }
                }
            },
            LeafLookup::Block => {
                return Err(KernelError::Mapping(MapError::NotL3Mapped));
            },
            LeafLookup::Page { table, index, entry } => {
                mapper.write_entry(table, index, 0)?;
                let frame = (entry & PTE_ADDR_MASK) >> 12;
                proof {
                    let new = mapper.tables();
                    assert(new == write_slot(cur, table, index as int, 0u64));
                    lemma_zero_invalid();
                    lemma_clear_slot(cur, table, index as int, 0u64, root, va);
                    lemma_preserves_trans(new, cur, m0);
                    assert forall|j: int| 0 <= j < k + 1 implies #[trigger] translate_spec(
                        new,
                        root,
                        region_page(region, j),
                    ) is None by {
                        lemma_clear_slot(cur, table, index as int, 0u64, root, region_page(region, j));
                    }
                    lemma_page_translation(cur, root, va, table, index as int);
                    lemma_translate_preserved(cur, m0, root, va);
                    which = which.push(k as int);
                    assert(forall|t: u64| #[trigger] new.contains_key(t) ==> new[t].len() == 512);
                    if indep {
                        assert forall|j: int| k + 1 <= j < count implies #[trigger] same_walk(
                            new,
                            m0,
                            root,
                            region_page(region, j),
                        ) by {
                            let vj = region_page(region, j);
                            assert(same_walk(cur, m0, root, vj));
                            lemma_same_walk_translate(cur, m0, root, vj);
                            assert(!on_walk(
                                m0,
                                root,
                                region_page(region, j),
                                leaf_slot(m0, root, region_page(region, k as int)).0,
                                leaf_slot(m0, root, region_page(region, k as int)).1,
                            ));
                            lemma_write_off_walk(cur, table, index as int, 0u64, root, vj);
                        }
                    }
                }
                frames.push(frame);
                proof {
                    assert forall|i: int| 0 <= i < frames@.len() implies 0 <= #[trigger] which[i] < k + 1
                        && maps_to(m0, root, region_page(region, which[i]), frames@[i] * 4096) by {
                        if i < frames@.len() - 1 {
                        } else {
                            assert(which[i] == k);
                        }
                    }
                    if indep {
                        let pa = translate_spec(m0, root, va)->Some_0.0;
                        assert(frame * 4096 == pa);
                        assert(pa / 4096 == frame) by (nonlinear_arith)
                            requires
                                frame * 4096 == pa,
                        ;
                        assert(frames@ == mapped_frames(m0, root, region, (k + 1) as nat));
                    }
                }
            },
        }
        k = k + 1;
    }
    proof {
        assert forall|i: int| 0 <= i < frames@.len() implies #[trigger] mapped_in_region(
            m0,
            root,
            region,
            frames@[i] * 4096,
        ) by {
            let kk = which[i];
            assert(maps_to(m0, root, region_page(region, kk), frames@[i] * 4096));
        }
    }
    Ok(frames)
}

/// None of the tables above the last level on the walk for `va` is the
/// last-level table itself.
pub open spec fn upper_tables_distinct(m: Map<u64, Seq<u64>>, root: u64, va: u64) -> bool {
    let t = path_table(m, root, va, 3)->Some_0;
    &&& path_table(m, root, va, 0) != Some(t)
    &&& path_table(m, root, va, 1) != Some(t)
    &&& path_table(m, root, va, 2) != Some(t)
}

/// Replacing the 4 KiB descriptor of a page whose upper tables are
/// distinct from its last-level table by a present page descriptor makes
/// the page translate through the new descriptor.
pub proof fn lemma_replace_page_leaf(m: Map<u64, Seq<u64>>, root: u64, va: u64, v: u64)
    requires
        tables_wf(m),
        page_mapped(m, root, va),
        upper_tables_distinct(m, root, va),
        desc_valid(v),
        !desc_huge(v),
    ensures
        translate_spec(write_slot(m, leaf_slot(m, root, va).0, leaf_slot(m, root, va).1, v), root, va) == Some(
            ((desc_addr(v) + (va & 0xFFFu64)) as int, desc_perms(v)),
        ),
{
    let (t, i) = leaf_slot(m, root, va);
    let m2 = write_slot(m, t, i, v);
    lemma_pg_index_bound(va, 39);
    lemma_pg_index_bound(va, 30);
    lemma_pg_index_bound(va, 21);
    lemma_pg_index_bound(va, 12);
    assert(path_table(m2, root, va, 0) == path_table(m, root, va, 0));
    let t0 = path_table(m, root, va, 0)->Some_0;
    assert(m2[t0][pg_index_spec(va, 39)] == m[t0][pg_index_spec(va, 39)]);
    assert(path_table(m2, root, va, 1) == path_table(m, root, va, 1));
    let t1 = path_table(m, root, va, 1)->Some_0;
    assert(m2[t1][pg_index_spec(va, 30)] == m[t1][pg_index_spec(va, 30)]);
    assert(path_table(m2, root, va, 2) == path_table(m, root, va, 2));
    let t2 = path_table(m, root, va, 2)->Some_0;
    assert(m2[t2][pg_index_spec(va, 21)] == m[t2][pg_index_spec(va, 21)]);
    assert(path_table(m2, root, va, 3) == path_table(m, root, va, 3));
    assert(path_entry(m2, root, va, 3) == Some(v));
}

/// Point the page holding `va` at the frame at physical address `new_page` with `perms` and
/// return the frame number it mapped before. The page must be mapped by a
/// 4 KiB descriptor; otherwise the tables are left alone and the result
/// is `NotL3Mapped`.
pub fn remap_page<M: PageTableMapper>(mapper: &mut M, root: u64, va: u64, new_page: u64, perms: PtePermissions) -> (r:
    Result<u64, KernelError>)
    requires
        tables_wf(old(mapper).tables()),
    ensures
        tables_wf(final(mapper).tables()),
        r is Err ==> final(mapper).tables() == old(mapper).tables(),
        r is Ok <==> page_mapped(old(mapper).tables(), root, va & !0xFFFu64),
        !page_mapped(old(mapper).tables(), root, va & !0xFFFu64) && walk_tables_held(
            old(mapper).tables(),
            root,
            va & !0xFFFu64,
        ) ==> r == Err::<u64, KernelError>(KernelError::Mapping(MapError::NotL3Mapped)),
        r matches Ok(old_pfn) ==> {
            let m = old(mapper).tables();
            let page = va & !0xFFFu64;
            &&& page_mapped(m, root, page)
            &&& maps_to(m, root, page, old_pfn * 4096)
            &&& final(mapper).tables() == write_slot(
                m,
                leaf_slot(m, root, page).0,
                leaf_slot(m, root, page).1,
                leaf_desc(new_page, false, perms),
            )
            &&& upper_tables_distinct(m, root, page) ==> translate_spec(final(mapper).tables(), root, page) == Some(
                ((new_page & PTE_ADDR_MASK) as int, perms.effective()),
            )
        },
{
    let ghost m = mapper.tables();
    let page = va & !0xFFF;
    proof {
        assert(page & 0xFFFu64 == 0) by (bit_vector)
            requires page == va & !0xFFFu64;
        if page_mapped(m, root, page) {
            lemma_mapped_walk_held(m, root, page);
        }
    }
    match find_leaf(mapper, root, page)? {
        LeafLookup::Unmapped => Err(KernelError::Mapping(MapError::NotL3Mapped)),
        LeafLookup::Block => Err(KernelError::Mapping(MapError::NotL3Mapped)),
        LeafLookup::Page { table, index, entry } => {
            let v = raw_new_map_pa(new_page, false, perms);
            mapper.write_entry(table, index, v)?;
            proof {
                lemma_page_translation(m, root, page, table, index as int);
                lemma_leaf_desc(new_page, false, perms);
                if upper_tables_distinct(m, root, page) {
                    lemma_replace_page_leaf(m, root, page, v);
                }
                let new = mapper.tables();
                assert(forall|t: u64| #[trigger] new.contains_key(t) ==> new[t].len() == 512);
            }
            Ok((entry & PTE_ADDR_MASK) >> 12)
        },
    }
}

/// A page mapped with 4 KiB granularity has every table of its walk
/// present.
pub proof fn lemma_mapped_walk_held(m: Map<u64, Seq<u64>>, root: u64, va: u64)
    requires
        page_mapped(m, root, va),
    ensures
        walk_tables_held(m, root, va),
{
    assert(leaf_at(m, root, va, 3));
    assert(path_table(m, root, va, 3) is Some);
    assert(path_table(m, root, va, 2) is Some);
    assert(path_table(m, root, va, 1) is Some);
    assert(path_table(m, root, va, 0) == Some(root));
}

/// A walk that ends in a 4 KiB mapping keeps ending at the same slot
/// while present descriptors are preserved.
proof fn lemma_page_slot_preserved(m1: Map<u64, Seq<u64>>, m2: Map<u64, Seq<u64>>, root: u64, va: u64)
    requires
        preserves_valid(m1, m2),
        page_mapped(m1, root, va),
    ensures
        page_mapped(m2, root, va),
        leaf_slot(m2, root, va) == leaf_slot(m1, root, va),
{
    lemma_path_preserved(m1, m2, root, va, 3);
    lemma_path_preserved(m1, m2, root, va, 2);
    lemma_path_preserved(m1, m2, root, va, 1);
    lemma_pg_index_bound(va, 30);
    lemma_pg_index_bound(va, 21);
    lemma_pg_index_bound(va, 12);
    let t1 = path_table(m1, root, va, 1)->Some_0;
    let t2 = path_table(m1, root, va, 2)->Some_0;
    let t3 = path_table(m1, root, va, 3)->Some_0;
    assert(m2[t1][pg_index_spec(va, 30)] == m1[t1][pg_index_spec(va, 30)]);
    assert(m2[t2][pg_index_spec(va, 21)] == m1[t2][pg_index_spec(va, 21)]);
    assert(m2[t3][pg_index_spec(va, 12)] == m1[t3][pg_index_spec(va, 12)]);
}

/// A region of one page whose walk under `root` is clear and which, if
/// mapped, can be mapped afresh under `other`: nothing maps it there,
/// every table on that walk is present and three more tables can be made.
pub open spec fn clone_page_ready<A: PageAllocator, M: PageTableMapper>(
    ctx: MappingContext<A, M>,
    root: u64,
    other: u64,
    region: VirtMemoryRegion,
) -> bool {
    let m = ctx.mapper.tables();
    let va = region_page(region, 0);
    &&& region_pages(region) == 1
    &&& walk_clear(m, root, va)
    &&& page_mapped(m, root, va) ==> walk_tables_held(m, other, va) && translate_spec(m, other, va) is None
        && ctx.can_extend(3)
}

/// Every page of `region` can be cloned from `root` to `other` in one
/// pass: the walks of the region under `root` are clear, `other` has no
/// top-level descriptor for the region yet and is none of the tables of
/// those walks, the region spans at most 2^47 bytes, and three tables
/// per page can be made.
pub open spec fn clone_region_ready<A: PageAllocator, M: PageTableMapper>(
    ctx: MappingContext<A, M>,
    root: u64,
    other: u64,
    region: VirtMemoryRegion,
) -> bool {
    let m = ctx.mapper.tables();
    &&& region_pages(region) * 4096 <= 0x8000_0000_0000
    &&& region_walks_clear(m, root, region)
    &&& root_slots_empty(m, other, region_page(region, 0), (region_pages(region) * 4096) as u64)
    &&& forall|k: int, l: nat|
        0 <= k < region_pages(region) && l <= 3 ==> #[trigger] path_table(m, root, region_page(region, k), l) != Some(
            other,
        )
    &&& ctx.can_extend((3 * region_pages(region)) as nat)
}

/// Share every 4 KiB page holding a byte of `region` mapped under `root` with the
/// address space rooted at `other`: each such page is mapped at the same
/// address in `other` and re-protected in `root`, both with `new_perms`
/// (copy-on-write sharing). The result lists the shared frame numbers in
/// page order; each gains a user, which the caller records. A page
/// inside a 1 GiB or 2 MiB block stops the walk with `NotL3Mapped`.
pub fn clone_pages<A: PageAllocator, M: PageTableMapper>(
    ctx: &mut MappingContext<A, M>,
    root: u64,
    other: u64,
    region: VirtMemoryRegion,
    new_perms: PtePermissions,
) -> (r: Result<Vec<u64>, KernelError>)
    requires
        old(ctx).wf(),
        page_region(region),
    ensures
        final(ctx).wf(),
        forall|va: u64, pa: int| #[trigger] maps_to(old(ctx).mapper.tables(), root, va, pa) ==> maps_to(
            final(ctx).mapper.tables(),
            root,
            va,
            pa,
        ),
        r is Ok ==> forall|k: int|
            0 <= k < region_pages(region) && #[trigger] page_mapped(old(ctx).mapper.tables(), root, region_page(region, k))
                ==> {
                let pa = translate_spec(old(ctx).mapper.tables(), root, region_page(region, k))->Some_0.0;
                &&& translate_spec(final(ctx).mapper.tables(), root, region_page(region, k)) == Some(
                    (pa, new_perms.effective()),
                )
                &&& translate_spec(final(ctx).mapper.tables(), other, region_page(region, k)) == Some(
                    (pa, new_perms.effective()),
                )
            },
        r matches Ok(frames) ==> forall|i: int|
            0 <= i < frames@.len() ==> #[trigger] mapped_in_region(final(ctx).mapper.tables(), root, region, frames@[i] * 4096),
        r matches Ok(frames) ==> forall|k: int|
            0 <= k < region_pages(region) && #[trigger] page_mapped(old(ctx).mapper.tables(), root, region_page(region, k))
                ==> frames@.contains(page_frame(old(ctx).mapper.tables(), root, region_page(region, k))),
        clone_page_ready(*old(ctx), root, other, region) ==> r is Ok,
        clone_region_ready(*old(ctx), root, other, region) ==> r is Ok,
{
    let ghost m0 = ctx.mapper.tables();
    let ghost ready = clone_page_ready(*old(ctx), root, other, region);
    let ghost mready = clone_region_ready(*old(ctx), root, other, region);
    let count: u64 = page_count(&region);
    let ghost uvs = region_page(region, 0);
    let ghost utotal = (count * 4096) as u64;
    let ghost mut owner: Map<u64, (nat, u64)> = Map::empty();
    proof {
        if mready {
            if count > 0 {
                lemma_region_page(region, 0);
                lemma_region_page(region, count - 1);
            }
            lemma_range_start(m0, other, uvs, utotal);
        }
    }
    let mut k: u64 = 0;
    let mut frames: Vec<u64> = Vec::new();
    let ghost mut which: Seq<int> = Seq::empty();
    while k < count
        invariant
            m0 == old(ctx).mapper.tables(),
            page_region(region),
            count == region_pages(region),
            k <= count,
            ctx.wf(),
            ready == clone_page_ready(*old(ctx), root, other, region),
            ready ==> count == 1 && (k == 0 ==> clone_page_ready(*ctx, root, other, region)),
            mready == clone_region_ready(*old(ctx), root, other, region),
            uvs == region_page(region, 0),
            utotal == count * 4096,
            mready ==> utotal <= 0x8000_0000_0000 && uvs + utotal <= u64::MAX,
            mready ==> range_tree(ctx.mapper.tables(), other, uvs, utotal, owner),
            mready ==> range_open(ctx.mapper.tables(), other, uvs, utotal, (4096 * k) as u64),
            mready ==> forall|t: u64| owner.contains_key(t) ==> !m0.contains_key(t),
            mready ==> m0.dom().subset_of(ctx.mapper.tables().dom()),
            mready ==> forall|j: int|
                k <= j < count ==> #[trigger] walk_clear(ctx.mapper.tables(), root, region_page(region, j)),
            mready ==> forall|j: int, l: nat|
                k <= j < count && l <= 3 ==> #[trigger] path_table(ctx.mapper.tables(), root, region_page(region, j), l)
                    == path_table(m0, root, region_page(region, j), l),
            mready ==> ctx.can_extend((3 * (count - k)) as nat),
            forall|va: u64, pa: int| #[trigger] maps_to(m0, root, va, pa) ==> maps_to(ctx.mapper.tables(), root, va, pa),
            forall|j: int|
                0 <= j < k && #[trigger] page_mapped(m0, root, region_page(region, j)) ==> {
                    let pa = translate_spec(m0, root, region_page(region, j))->Some_0.0;
                    &&& translate_spec(ctx.mapper.tables(), root, region_page(region, j)) == Some(
                        (pa, new_perms.effective()),
                    )
                    &&& translate_spec(ctx.mapper.tables(), other, region_page(region, j)) == Some(
                        (pa, new_perms.effective()),
                    )
                },
            which.len() == frames@.len(),
            forall|i: int|
                0 <= i < frames@.len() ==> 0 <= #[trigger] which[i] < k && maps_to(
                    ctx.mapper.tables(),
                    root,
                    region_page(region, which[i]),
                    frames@[i] * 4096,
                ),
            forall|j: int|
                0 <= j < count && #[trigger] page_mapped(m0, root, region_page(region, j)) ==> page_mapped(
                    ctx.mapper.tables(),
                    root,
                    region_page(region, j),
                ),
            forall|j: int|
                0 <= j < k && #[trigger] page_mapped(m0, root, region_page(region, j)) ==> frames@.contains(
                    page_frame(m0, root, region_page(region, j)),
                ),
        decreases count - k,
    {
        let va = page_at(&region, k);
        let ghost cur = ctx.mapper.tables();
        let ghost c0 = *ctx;
        proof {
            lemma_region_page(region, k as int);
            if ready {
                assert(k == 0);
                assert(walk_clear(cur, root, va));
            }
            if mready {
                lemma_region_page(region, 0);
                assert(va == range_va(uvs, (4096 * k) as u64));
                assert(walk_clear(cur, root, region_page(region, k as int)));
            }
        }
        match find_leaf(&mut ctx.mapper, root, va)? {
            LeafLookup::Unmapped => {
                proof {
                    if page_mapped(m0, root, va) {
                        let pa = translate_spec(m0, root, va)->Some_0.0;
                        assert(maps_to(m0, root, va, pa));
                    }
                    assert(!page_mapped(m0, root, region_page(region, k as int)));
                    if mready {
                        lemma_range_open_weaken(cur, other, uvs, utotal, (4096 * k) as u64, (4096
                            * (k + 1)) as u64);
                        lemma_can_extend_less(*ctx, (3 * (count - k)) as nat, (3 * (count - k - 1)) as nat);
                    }
                }
            },
            LeafLookup::Block => {
                return Err(KernelError::Mapping(MapError::NotL3Mapped));
            },
            LeafLookup::Page { table, index, entry } => {
                let pa = entry & PTE_ADDR_MASK;
                proof {
                    lemma_page_translation(cur, root, va, table, index as int);
                    assert(pa <= 0x0000_FFFF_FFFF_F000u64) by (bit_vector)
                        requires pa == entry & 0x0000_FFFF_FFFF_F000u64;
                }
                let attrs = MapAttributes {
                    phys: PhysMemoryRegion::new(pa, PAGE_SIZE),
                    virt: VirtMemoryRegion::new(va, PAGE_SIZE),
                    mem_type: MemoryType::WB,
                    perms: new_perms,
                };
                proof {
                    assert(pa % 4096 == 0) by (bit_vector)
                        requires pa == entry & 0x0000_FFFF_FFFF_F000u64;
                    if ready {
                        assert(ctx.mapper.tables() == cur);
                        assert(ctx.allocator == c0.allocator);
                        assert(clone_page_ready(c0, root, other, region));
                        assert(page_mapped(cur, root, va));
                        assert(map_law_applies(attrs));
                        assert(fresh_page_mapping(ctx.mapper.tables(), other, attrs));
                        assert(ctx.can_extend(3));
                    }
                    if mready {
                        assert(map_law_applies(attrs));
                        lemma_blocks_free_page(ctx.mapper.tables(), other, va, pa);
                        assert(range_ready_within(ctx.mapper.tables(), other, attrs, uvs, utotal, (4096 * k) as u64, owner));
                        lemma_small_block(va, pa, 4096);
                        assert(block_size(3) == 4096);
                        assert(range_cost(attrs) == 3);
                        lemma_can_extend_less(*ctx, (3 * (count - k)) as nat, 3);
                    }
                }
                let ghost cpre = *ctx;
                let mapped = map_range_in(other, attrs, ctx, Ghost(uvs), Ghost(utotal), Ghost((4096 * k) as u64), Ghost(owner));
                let ghost mid = ctx.mapper.tables();
                proof {
                    assert forall|va2: u64, pa2: int| #[trigger] maps_to(m0, root, va2, pa2) implies maps_to(
                        mid,
                        root,
                        va2,
                        pa2,
                    ) by {
                        assert(maps_to(cur, root, va2, pa2));
                        lemma_translate_preserved(cur, mid, root, va2);
                    }
                }
                proof {
                    assert forall|i: int| 0 <= i < frames@.len() implies maps_to(
                        mid,
                        root,
                        region_page(region, #[trigger] which[i]),
                        frames@[i] * 4096,
                    ) by {
                        lemma_translate_preserved(cur, mid, root, region_page(region, which[i]));
                    }
                }
                if let Err(e) = mapped {
                    return Err(e);
                }
                proof {
                    if mready {
                        assert(range_grown(cur, mid, other, uvs, utotal, (4096 * k + 4096) as u64, owner));
                        let o2 = choose|o: Map<u64, (nat, u64)>|
                            {
                                &&& #[trigger] range_tree(mid, other, uvs, utotal, o)
                                &&& range_open(mid, other, uvs, utotal, (4096 * k + 4096) as u64)
                                &&& owner_history(cur, mid, other, owner, o)
                            };
                        assert forall|t: u64| o2.contains_key(t) implies !m0.contains_key(t) by {
                            if !owner.contains_key(t) {
                                assert(!cur.contains_key(t));
                            }
                        }
                        assert forall|t: u64| m0.contains_key(t) implies mid.contains_key(t) by {
                            assert(cur.contains_key(t));
                            if t != other && !o2.contains_key(t) {
                                assert(cur.contains_key(t));
                            }
                        }
                        assert forall|j: int| k < j < count implies #[trigger] walk_clear(mid, root, region_page(region, j))
                            && forall|l: nat|
                            l <= 3 ==> #[trigger] path_table(mid, root, region_page(region, j), l) == path_table(
                                m0,
                                root,
                                region_page(region, j),
                                l,
                            ) by {
                            let vj = region_page(region, j);
                            assert(walk_clear(m0, root, vj));
                            assert(walk_clear(cur, root, vj));
                            assert(path_table(m0, root, vj, 0) == Some(root));
                            assert(path_table(m0, root, vj, 0) != Some(other));
                            assert(cur.contains_key(root));
                            assert(mid[root] == cur[root]);
                            if path_table(cur, root, vj, 1) is Some {
                                assert(path_table(cur, root, vj, 1) == path_table(m0, root, vj, 1));
                                assert(path_table(m0, root, vj, 1) != Some(other));
                                let t1 = path_table(cur, root, vj, 1)->Some_0;
                                assert(m0.contains_key(t1));
                                assert(mid[t1] == cur[t1]);
                            }
                            if path_table(cur, root, vj, 2) is Some {
                                assert(path_table(cur, root, vj, 2) == path_table(m0, root, vj, 2));
                                assert(path_table(m0, root, vj, 2) != Some(other));
                                let t2 = path_table(cur, root, vj, 2)->Some_0;
                                assert(m0.contains_key(t2));
                                assert(mid[t2] == cur[t2]);
                            }
                            if path_table(cur, root, vj, 3) is Some {
                                assert(path_table(cur, root, vj, 3) == path_table(m0, root, vj, 3));
                                assert(path_table(m0, root, vj, 3) != Some(other));
                                let t3 = path_table(cur, root, vj, 3)->Some_0;
                                assert(m0.contains_key(t3));
                                assert(mid[t3] == cur[t3]);
                            }
                            lemma_walk_tables_unchanged(cur, mid, root, vj);
                            assert forall|l: nat| l <= 3 implies #[trigger] path_table(mid, root, vj, l) == path_table(
                                m0,
                                root,
                                vj,
                                l,
                            ) by {
                                assert(path_table(cur, root, vj, l) == path_table(m0, root, vj, l));
                                if l == 0 {
                                    assert(path_table(mid, root, vj, 0) == Some(root));
                                }
                            }
                        }
                        assert(cpre.can_extend((3 * (count - k - 1)) as nat + 3));
                        assert(ctx.can_extend((3 * (count - k - 1)) as nat + 0));
                        owner = o2;
                    }
                }
                proof {
                    assert(map_law_applies(attrs));
                    assert(translate_spec(mid, other, (va + 0u64) as u64) == Some(((pa + 0u64) as int, new_perms.effective())));
                    lemma_page_slot_preserved(cur, mid, root, va);
                    lemma_pg_index_bound(va, 12);
                    assert(mid[table][index as int] == entry);
                }
                let v = raw_set_permissions(entry, new_perms);
                let ghost cw = *ctx;
                let written = ctx.mapper.write_entry(table, index, v);
                if let Err(e) = written {
                    return Err(e);
                }
                proof {
                    let new = ctx.mapper.tables();
                    assert(new == write_slot(mid, table, index as int, v));
                    lemma_with_perms(entry, new_perms);
                    assert(new.dom() =~= mid.dom());
                    assert(forall|t: u64| #[trigger] new.contains_key(t) ==> new[t].len() == 512);
                    assert forall|j: int|
                        0 <= j < count && #[trigger] page_mapped(m0, root, region_page(region, j)) implies page_mapped(
                        new,
                        root,
                        region_page(region, j),
                    ) by {
                        let vj = region_page(region, j);
                        assert(page_mapped(cur, root, vj));
                        lemma_page_slot_preserved(cur, mid, root, vj);
                        lemma_shape_write_translate(mid, table, index as int, v, root, vj);
                    }
                    assert forall|va2: u64, pa2: int| #[trigger] maps_to(m0, root, va2, pa2) implies maps_to(
                        new,
                        root,
                        va2,
                        pa2,
                    ) by {
                        assert(maps_to(cur, root, va2, pa2));
                        lemma_translate_preserved(cur, mid, root, va2);
                        lemma_shape_write_translate(mid, table, index as int, v, root, va2);
                    }
                    assert forall|j: int|
                        0 <= j < k + 1 && #[trigger] page_mapped(m0, root, region_page(region, j)) implies {
                        let pa = translate_spec(m0, root, region_page(region, j))->Some_0.0;
                        &&& translate_spec(new, root, region_page(region, j)) == Some((pa, new_perms.effective()))
                        &&& translate_spec(new, other, region_page(region, j)) == Some((pa, new_perms.effective()))
                    } by {
                        let vj = region_page(region, j);
                        let paj = translate_spec(m0, root, vj)->Some_0.0;
                        assert(maps_to(m0, root, vj, paj));
                        if j < k {
                            lemma_translate_preserved(cur, mid, root, vj);
                            lemma_translate_preserved(cur, mid, other, vj);
                        } else {
                            assert(vj == va);
                            assert(translate_spec(mid, other, vj) == Some((pa as int, new_perms.effective())));
                        }
                        lemma_shape_write_translate(mid, table, index as int, v, root, vj);
                        lemma_shape_write_translate(mid, table, index as int, v, other, vj);
                    }
                    assert forall|i: int| 0 <= i < frames@.len() implies maps_to(
                        new,
                        root,
                        region_page(region, #[trigger] which[i]),
                        frames@[i] * 4096,
                    ) by {
                        lemma_shape_write_translate(mid, table, index as int, v, root, region_page(region, which[i]));
                    }
                    lemma_translate_preserved(cur, mid, root, va);
                    lemma_shape_write_translate(mid, table, index as int, v, root, va);
                    assert(maps_to(new, root, va, pa as int));
                    which = which.push(k as int);
                }
                proof {
                    if mready {
                        let new = ctx.mapper.tables();
                        let vk = region_page(region, k as int);
                        assert(vk == va);
                        assert(page_mapped(cur, root, va));
                        assert(table == path_table(cur, root, va, 3)->Some_0);
                        assert(path_table(cur, root, vk, 3) == path_table(m0, root, vk, 3));
                        assert(walk_clear(m0, root, vk));
                        assert(m0.contains_key(table));
                        assert(path_table(m0, root, vk, 3) != Some(other));
                        assert(table != other);
                        assert(!owner.contains_key(table));
                        lemma_range_write_outside(mid, table, index as int, v, other, uvs, utotal, owner, (4096 * (k + 1)) as u64);
                        lemma_with_perms(entry, new_perms);
                        lemma_shape_write(mid, table, index as int, v);
                        assert forall|j: int| k < j < count implies #[trigger] walk_clear(new, root, region_page(region, j))
                            && forall|l: nat|
                            l <= 3 ==> #[trigger] path_table(new, root, region_page(region, j), l) == path_table(
                                m0,
                                root,
                                region_page(region, j),
                                l,
                            ) by {
                            let vj = region_page(region, j);
                            assert(walk_clear(mid, root, vj));
                            lemma_walk_clear_shape(mid, new, root, vj);
                            assert forall|l: nat| l <= 3 implies #[trigger] path_table(new, root, vj, l) == path_table(
                                m0,
                                root,
                                vj,
                                l,
                            ) by {
                                lemma_shape_paths(mid, new, root, vj, l);
                                assert(path_table(mid, root, vj, l) == path_table(m0, root, vj, l));
                            }
                        }
                        assert forall|j: int, l: nat| k < j < count && l <= 3 implies #[trigger] path_table(
                            new,
                            root,
                            region_page(region, j),
                            l,
                        ) == path_table(m0, root, region_page(region, j), l) by {
                            let vj = region_page(region, j);
                            assert(walk_clear(mid, root, vj));
                            lemma_shape_paths(mid, new, root, vj, l);
                            assert(path_table(mid, root, vj, l) == path_table(m0, root, vj, l));
                        }
                        assert(new.dom() =~= mid.dom());
                        lemma_budget_keep(cw, *ctx);
                        assert(cw.can_extend((3 * (count - k - 1)) as nat + 0));
                    }
                }
                let ghost before = frames@;
                frames.push(pa >> 12);
                proof {
                    assert((pa >> 12u64) * 4096 == pa) by (bit_vector)
                        requires pa == entry & 0x0000_FFFF_FFFF_F000u64;
                    assert forall|j: int|
                        0 <= j < k + 1 && #[trigger] page_mapped(m0, root, region_page(region, j)) implies frames@.contains(
                        page_frame(m0, root, region_page(region, j)),
                    ) by {
                        if j < k {
                            let x = page_frame(m0, root, region_page(region, j));
                            let w = choose|w: int| 0 <= w < before.len() && before[w] == x;
                            assert(frames@[w] == x);
                        } else {
                            assert(region_page(region, j) == va);
                            let paj = translate_spec(m0, root, va)->Some_0.0;
                            assert(maps_to(m0, root, va, paj));
                            assert(paj == pa);
                            assert(pa / 4096 == pa >> 12u64) by (bit_vector);
                            assert(frames@[frames@.len() - 1] == page_frame(m0, root, va));
                        }
                    }
                    assert forall|i: int| 0 <= i < frames@.len() implies 0 <= #[trigger] which[i] < k + 1 && maps_to(
                        ctx.mapper.tables(),
                        root,
                        region_page(region, which[i]),
                        frames@[i] * 4096,
                    ) by {
                        if i == frames@.len() - 1 {
                            assert(which[i] == k);
                        }
                    }
                }
            },
        }
        k = k + 1;
    }
    proof {
        assert forall|i: int| 0 <= i < frames@.len() implies #[trigger] mapped_in_region(
            ctx.mapper.tables(),
            root,
            region,
            frames@[i] * 4096,
        ) by {
            let kk = which[i];
            assert(maps_to(ctx.mapper.tables(), root, region_page(region, kk), frames@[i] * 4096));
        }
    }
    Ok(frames)
}

} // verus!
