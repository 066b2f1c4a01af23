//! Four-level x86_64 page tables: the translation a table tree defines,
//! and `map_range`, which installs a linear mapping using 1 GiB, 2 MiB
//! and 4 KiB blocks.
use vstd::prelude::*;
use crate::address::{PhysMemoryRegion, VirtMemoryRegion, PAGE_SIZE, u64_limit};
use crate::error::{KernelError, MapError};
use crate::permissions::PtePermissions;
use crate::pg_descriptors::{
    MemoryType, desc_valid, desc_huge, desc_addr, desc_perms, next_table_of, table_desc, leaf_desc,
    addr_encodable, could_map_spec, lemma_leaf_desc, lemma_table_desc, lemma_addr_encodable,
    raw_is_valid, raw_next_table_address, raw_new_next_table, raw_new_map_pa, raw_could_map,
    raw_desc_perms, PTE_ADDR_MASK, PTE_HUGE,
};
use crate::pg_walk::{write_slot, lemma_zero_invalid};
use crate::range_map::{
    range_ready_within, range_grown, owner_history, fresh_map_range, range_cost, first_page_mapped, budget_from, root_row_within, range_tree, range_open,
    range_va, linked, block_new_tables, span_mask, map_cost, lemma_range_start, lemma_budget_keep,
    lemma_budget_alloc, lemma_budget_chain, lemma_budget_close, lemma_budget_room, lemma_multi_link,
    lemma_multi_leaf, lemma_table_shared, blocks_free, range_mappable, lemma_fresh_mappable, lemma_blocks_free_link, lemma_blocks_free_leaf,
};

verus! {

pub const DESCRIPTORS_PER_PAGE: usize = 512;

pub const LEVEL_MASK: u64 = 511;

/// The descriptors of a table stored at a physical address, as seen by
/// a page-table mapper.
pub open spec fn tables_wf(mem: Map<u64, Seq<u64>>) -> bool {
    forall|t: u64| mem.contains_key(t) ==> #[trigger] mem[t].len() == 512
}

/// Address bits that index the table of `level` (0 = PML4 ... 3 = PT).
pub open spec fn level_shift(level: nat) -> u64 {
    if level == 0 {
        39
    } else if level == 1 {
        30
    } else if level == 2 {
        21
    } else {
        12
    }
}

/// Index of `va` in a table whose entries cover `1 << shift` bytes.
pub open spec fn pg_index_spec(va: u64, shift: u64) -> int {
    ((va >> shift) & 511u64) as int
}

/// Offset mask of a block mapped at `level` (1 GiB, 2 MiB, 4 KiB).
pub open spec fn block_mask(level: nat) -> u64 {
    if level == 1 {
        0x3FFF_FFFF
    } else if level == 2 {
        0x1F_FFFF
    } else {
        0xFFF
    }
}

/// Size in bytes of a block mapped at `level`.
pub open spec fn block_size(level: nat) -> u64 {
    if level == 1 {
        0x4000_0000
    } else if level == 2 {
        0x20_0000
    } else {
        0x1000
    }
}

/// Number of 4 KiB pages in a block mapped at `level`.
pub open spec fn block_pages(level: nat) -> u64 {
    if level == 1 {
        0x4_0000
    } else if level == 2 {
        0x200
    } else {
        1
    }
}

/// The table that the walk for `va` reaches at `level`.
pub open spec fn path_table(mem: Map<u64, Seq<u64>>, root: u64, va: u64, level: nat) -> Option<u64>
    decreases level,
{
    if level == 0 {
        Some(root)
    } else {
        match path_table(mem, root, va, (level - 1) as nat) {
            Some(t) => if mem.contains_key(t) {
                next_table_of(mem[t][pg_index_spec(va, level_shift((level - 1) as nat))], level == 1)
            } else {
                None
            },
            None => None,
        }
    }
}

/// The descriptor that the walk for `va` reads at `level`.
pub open spec fn path_entry(mem: Map<u64, Seq<u64>>, root: u64, va: u64, level: nat) -> Option<u64> {
    match path_table(mem, root, va, level) {
        Some(t) => if mem.contains_key(t) {
            Some(mem[t][pg_index_spec(va, level_shift(level))])
        } else {
            None
        },
        None => None,
    }
}

/// The walk for `va` ends in a mapping at `level`.
pub open spec fn leaf_at(mem: Map<u64, Seq<u64>>, root: u64, va: u64, level: nat) -> bool {
    match path_entry(mem, root, va, level) {
        Some(e) => desc_valid(e) && (level == 3 || desc_huge(e)),
        None => false,
    }
}

/// The physical address and permissions a leaf at `level` gives `va`.
pub open spec fn leaf_translation(e: u64, va: u64, level: nat) -> (int, PtePermissions) {
    ((desc_addr(e) + (va & block_mask(level))) as int, desc_perms(e))
}

/// The translation the tables rooted at `root` give the virtual address
/// `va`: a physical address and the permissions of the mapping.
pub open spec fn translate_spec(mem: Map<u64, Seq<u64>>, root: u64, va: u64) -> Option<(int, PtePermissions)> {
    if leaf_at(mem, root, va, 1) {
        Some(leaf_translation(path_entry(mem, root, va, 1)->Some_0, va, 1))
    } else if leaf_at(mem, root, va, 2) {
        Some(leaf_translation(path_entry(mem, root, va, 2)->Some_0, va, 2))
    } else if leaf_at(mem, root, va, 3) {
        Some(leaf_translation(path_entry(mem, root, va, 3)->Some_0, va, 3))
    } else {
        None
    }
}

/// `m2` keeps every present descriptor of `m1` unchanged.
pub open spec fn preserves_valid(m1: Map<u64, Seq<u64>>, m2: Map<u64, Seq<u64>>) -> bool {
    forall|t: u64, i: int|
        #![trigger m1[t][i]]
        m1.contains_key(t) && 0 <= i < 512 && desc_valid(m1[t][i]) ==> m2.contains_key(t) && m2[t][i]
            == m1[t][i]
}

pub proof fn lemma_pg_index_bound(va: u64, shift: u64)
    ensures
        0 <= pg_index_spec(va, shift) < 512,
{
    assert((va >> shift) & 511u64 < 512) by (bit_vector);
}

pub proof fn lemma_preserves_refl(m: Map<u64, Seq<u64>>)
    ensures
        preserves_valid(m, m),
{
}

pub proof fn lemma_preserves_trans(m1: Map<u64, Seq<u64>>, m2: Map<u64, Seq<u64>>, m3: Map<u64, Seq<u64>>)
    requires
        preserves_valid(m1, m2),
        preserves_valid(m2, m3),
    ensures
        preserves_valid(m1, m3),
{
    assert forall|t: u64, i: int|
        m1.contains_key(t) && 0 <= i < 512 && desc_valid(#[trigger] m1[t][i]) implies m3.contains_key(t)
        && m3[t][i] == m1[t][i] by {
        assert(m2[t][i] == m1[t][i]);
    }
}

/// Overwriting a descriptor that was not present keeps every present one.
pub proof fn lemma_write_invalid_preserves(m: Map<u64, Seq<u64>>, t: u64, i: int, v: u64)
    requires
        m.contains_key(t),
        m[t].len() == 512,
        0 <= i < 512,
        !desc_valid(m[t][i]),
    ensures
        preserves_valid(m, m.insert(t, m[t].update(i, v))),
{
}

/// Adding a table at an address that held none keeps every descriptor.
pub proof fn lemma_insert_fresh_preserves(m: Map<u64, Seq<u64>>, t: u64, s: Seq<u64>)
    requires
        !m.contains_key(t),
    ensures
        preserves_valid(m, m.insert(t, s)),
{
}

/// A walk that reaches a table keeps reaching it while present
/// descriptors are preserved.
pub proof fn lemma_path_preserved(m1: Map<u64, Seq<u64>>, m2: Map<u64, Seq<u64>>, root: u64, va: u64, level: nat)
    requires
        preserves_valid(m1, m2),
        path_table(m1, root, va, level) is Some,
    ensures
        path_table(m2, root, va, level) == path_table(m1, root, va, level),
    decreases level,
{
    if level > 0 {
        lemma_path_preserved(m1, m2, root, va, (level - 1) as nat);
        let t = path_table(m1, root, va, (level - 1) as nat)->Some_0;
        let i = pg_index_spec(va, level_shift((level - 1) as nat));
        lemma_pg_index_bound(va, level_shift((level - 1) as nat));
        assert(m1[t][i] == m2[t][i]);
    }
}

/// A present descriptor on the walk stays the same descriptor.
pub proof fn lemma_entry_preserved(m1: Map<u64, Seq<u64>>, m2: Map<u64, Seq<u64>>, root: u64, va: u64, level: nat)
    requires
        preserves_valid(m1, m2),
        path_entry(m1, root, va, level) is Some,
        desc_valid(path_entry(m1, root, va, level)->Some_0),
    ensures
        path_entry(m2, root, va, level) == path_entry(m1, root, va, level),
{
    lemma_path_preserved(m1, m2, root, va, level);
    let t = path_table(m1, root, va, level)->Some_0;
    let i = pg_index_spec(va, level_shift(level));
    lemma_pg_index_bound(va, level_shift(level));
    assert(m1[t][i] == m2[t][i]);
}

/// Every address the tables translate keeps its translation while
/// present descriptors are preserved.
pub proof fn lemma_translate_preserved(m1: Map<u64, Seq<u64>>, m2: Map<u64, Seq<u64>>, root: u64, va: u64)
    requires
        preserves_valid(m1, m2),
        translate_spec(m1, root, va) is Some,
    ensures
        translate_spec(m2, root, va) == translate_spec(m1, root, va),
{
    if leaf_at(m1, root, va, 1) {
        lemma_entry_preserved(m1, m2, root, va, 1);
    } else if leaf_at(m1, root, va, 2) {
        lemma_entry_preserved(m1, m2, root, va, 2);
        lemma_path_preserved(m1, m2, root, va, 2);
        assert(path_table(m1, root, va, 2) is Some);
        assert(desc_valid(path_entry(m1, root, va, 1)->Some_0));
        lemma_entry_preserved(m1, m2, root, va, 1);
    } else {
        assert(leaf_at(m1, root, va, 3));
        lemma_entry_preserved(m1, m2, root, va, 3);
        assert(path_table(m1, root, va, 3) is Some);
        assert(path_table(m1, root, va, 2) is Some);
        assert(desc_valid(path_entry(m1, root, va, 2)->Some_0));
        assert(desc_valid(path_entry(m1, root, va, 1)->Some_0));
        lemma_entry_preserved(m1, m2, root, va, 2);
        lemma_entry_preserved(m1, m2, root, va, 1);
    }
}

proof fn lemma_block_bits(va: u64, off: u64, m: u64, t: u64)
    by (bit_vector)
    requires
        m == 0x3FFF_FFFFu64 || m == 0x1F_FFFFu64 || m == 0xFFFu64,
        va & m == 0,
        off <= m,
        t < 64,
        m == 0x3FFF_FFFFu64 ==> t >= 30,
        m == 0x1F_FFFFu64 ==> t >= 21,
        m == 0xFFFu64 ==> t >= 12,
    ensures
        (va | off) == va + off,
        ((va | off) >> t) & 511u64 == (va >> t) & 511u64,
        (va | off) & m == off,
{
}

/// Two addresses with the same index at every level up to `level`
/// take the same walk up to `level`.
pub proof fn lemma_same_path(m: Map<u64, Seq<u64>>, root: u64, va: u64, va2: u64, level: nat)
    requires
        forall|j: nat| j < level ==> #[trigger] pg_index_spec(va, level_shift(j)) == pg_index_spec(va2, level_shift(j)),
    ensures
        path_table(m, root, va2, level) == path_table(m, root, va, level),
    decreases level,
{
    if level > 0 {
        lemma_same_path(m, root, va, va2, (level - 1) as nat);
        assert(pg_index_spec(va, level_shift((level - 1) as nat)) == pg_index_spec(va2, level_shift((level - 1) as nat)));
    }
}

/// A mapping at `level` translates every address of its block: the
/// offset inside the block is added to the mapped address.
pub proof fn lemma_leaf_block(m: Map<u64, Seq<u64>>, root: u64, va: u64, level: nat, off: u64)
    requires
        1 <= level <= 3,
        leaf_at(m, root, va, level),
        va & block_mask(level) == 0,
        off <= block_mask(level),
    ensures
        (va | off) == va + off,
        leaf_at(m, root, va | off, level),
        translate_spec(m, root, va | off) == Some(
            ((desc_addr(path_entry(m, root, va, level)->Some_0) + off) as int,
            desc_perms(path_entry(m, root, va, level)->Some_0)),
        ),
{
    let va2 = va | off;
    let mk = block_mask(level);
    lemma_block_bits(va, off, mk, 39);
    lemma_block_bits(va, off, mk, level_shift(level));
    if level >= 2 {
        lemma_block_bits(va, off, mk, 30);
    }
    if level >= 3 {
        lemma_block_bits(va, off, mk, 21);
    }
    assert forall|j: nat| j < level + 1 implies #[trigger] pg_index_spec(va, level_shift(j)) == pg_index_spec(va2, level_shift(j)) by {
        if j == 0 {
        } else if j == 1 {
        } else if j == 2 {
        } else {
        }
    }
    lemma_same_path(m, root, va, va2, level);
    lemma_same_path(m, root, va, va2, (level + 1) as nat);
    assert(path_entry(m, root, va2, level) == path_entry(m, root, va, level));
    if level >= 2 {
        lemma_same_path(m, root, va, va2, 1);
        assert(path_entry(m, root, va2, 1) == path_entry(m, root, va, 1));
        assert(path_table(m, root, va, 2) is Some);
        assert(!leaf_at(m, root, va2, 1));
    }
    if level >= 3 {
        lemma_same_path(m, root, va, va2, 2);
        assert(path_entry(m, root, va2, 2) == path_entry(m, root, va, 2));
        assert(path_table(m, root, va, 3) is Some);
        assert(!leaf_at(m, root, va2, 2));
    }
}


/// Access to the memory that holds page tables, by physical address.
pub trait PageTableMapper {
    /// The tables this mapper can reach: each physical table address and
    /// its descriptors.
    spec fn tables(&self) -> Map<u64, Seq<u64>>;

    /// `zero_table` can take the frame at `table`, not held yet, as a new
    /// table.
    spec fn can_add_table(&self, table: u64) -> bool;

    /// Read descriptor `idx` of the table at `table`; this fails exactly
    /// when the mapper holds no table there.
    fn read_entry(&mut self, table: u64, idx: usize) -> (r: Result<u64, KernelError>)
        requires
            idx < 512,
        ensures
            final(self).tables() == old(self).tables(),
            forall|t: u64| #[trigger] final(self).can_add_table(t) == old(self).can_add_table(t),
            r is Ok <==> old(self).tables().contains_key(table),
            r is Ok ==> r->Ok_0 == old(self).tables()[table][idx as int],
    ;

    /// Write descriptor `idx` of the table at `table`; this fails exactly
    /// when the mapper holds no table there.
    fn write_entry(&mut self, table: u64, idx: usize, value: u64) -> (r: Result<(), KernelError>)
        requires
            idx < 512,
        ensures
            r is Ok <==> old(self).tables().contains_key(table),
            forall|t: u64| #[trigger] final(self).can_add_table(t) == old(self).can_add_table(t),
            r is Ok ==> final(self).tables() == old(self).tables().insert(
                table,
                old(self).tables()[table].update(idx as int, value),
            ),
            r is Err ==> final(self).tables() == old(self).tables(),
    ;

    /// Fill the 4 KiB frame at `table` with zero descriptors; this fails
    /// exactly when the mapper neither holds nor can add a table there.
    fn zero_table(&mut self, table: u64) -> (r: Result<(), KernelError>)
        ensures
            r is Ok <==> old(self).tables().contains_key(table) || old(self).can_add_table(table),
            r is Ok ==> final(self).tables() == old(self).tables().insert(table, Seq::new(512, |i: int| 0u64)),
            forall|t: u64| t != table ==> #[trigger] final(self).can_add_table(t) == old(self).can_add_table(t),
            r is Err ==> final(self).tables() == old(self).tables(),
    ;
}

/// A source of fresh physical frames for page tables.
pub trait PageAllocator {
    /// Every frame handed out (or otherwise in use) so far.
    spec fn allocated(&self) -> Set<u64>;

    /// The next allocation succeeds.
    spec fn can_allocate(&self) -> bool;

    /// How many more frames the allocator hands out.
    spec fn frames_left(&self) -> nat;

    /// Hand out a frame that is not in use yet; without one the result
    /// is `NoMemory`.
    fn allocate_page_table(&mut self) -> (r: Result<u64, KernelError>)
        ensures
            old(self).allocated().subset_of(final(self).allocated()),
            r is Ok <==> old(self).can_allocate(),
            old(self).frames_left() > 0 ==> r is Ok,
            r is Ok ==> final(self).frames_left() + 1 == old(self).frames_left(),
            r is Err ==> r == Err::<u64, KernelError>(KernelError::NoMemory),
            r is Ok ==> !old(self).allocated().contains(r->Ok_0) && final(self).allocated().contains(r->Ok_0)
                && addr_encodable(r->Ok_0),
    ;
}

/// What to map: a physical region onto a virtual region of the same
/// size, with a memory type and permissions.
#[derive(Clone, Copy)]
pub struct MapAttributes {
    pub phys: PhysMemoryRegion,
    pub virt: VirtMemoryRegion,
    pub mem_type: MemoryType,
    pub perms: PtePermissions,
}

/// The allocator and mapper a mapping operation works with.
pub struct MappingContext<A: PageAllocator, M: PageTableMapper> {
    pub allocator: A,
    pub mapper: M,
}

impl<A: PageAllocator, M: PageTableMapper> MappingContext<A, M> {
    /// Every table has 512 descriptors, and every table frame is known to
    /// the allocator (so it never hands one out again).
    pub open spec fn wf(&self) -> bool {
        &&& tables_wf(self.mapper.tables())
        &&& self.mapper.tables().dom().subset_of(self.allocator.allocated())
    }

    /// The context can create `n` more tables: the allocator has `n`
    /// frames left and the mapper takes any frame it holds no table at.
    pub open spec fn can_extend(&self, n: nat) -> bool {
        &&& self.allocator.frames_left() >= n
        &&& forall|t: u64| !self.mapper.tables().contains_key(t) ==> #[trigger] self.mapper.can_add_table(t)
    }
}

/// Index of `va` in a table whose entries cover `1 << shift` bytes.
pub fn pg_index(va: u64, shift: u64) -> (r: usize)
    requires
        shift < 64,
    ensures
        r as int == pg_index_spec(va, shift),
        r < 512,
{
    proof {
        lemma_pg_index_bound(va, shift);
    }
    ((va >> shift) & LEVEL_MASK) as usize
}

fn level_shift_exec(level: u64) -> (r: u64)
    requires
        level <= 3,
    ensures
        r == level_shift(level as nat),
        r < 64,
{
    if level == 0 {
        39
    } else if level == 1 {
        30
    } else if level == 2 {
        21
    } else {
        12
    }
}

/// A page-table level: the tables of this level index addresses by the
/// bits starting at `shift()`.
pub trait PgTable {
    spec fn shift_spec() -> u64;

    fn shift() -> (r: u64)
        ensures
            r == Self::shift_spec(),
            r < 64,
    ;

    fn pg_index(va: u64) -> (r: usize)
        ensures
            r as int == pg_index_spec(va, Self::shift_spec()),
            r < 512,
    {
        pg_index(va, Self::shift())
    }
}

/// The top-level table (PML4), indexed by bits 39..=47.
pub struct PML4Table;

/// Page-directory-pointer table, indexed by bits 30..=38.
pub struct PDPTTable;

/// Page directory, indexed by bits 21..=29.
pub struct PDTable;

/// Page table, indexed by bits 12..=20.
pub struct PTTable;

impl PgTable for PML4Table {
    open spec fn shift_spec() -> u64 {
        39
    }

    fn shift() -> (r: u64) {
        39
    }
}

impl PgTable for PDPTTable {
    open spec fn shift_spec() -> u64 {
        30
    }

    fn shift() -> (r: u64) {
        30
    }
}

impl PgTable for PDTable {
    open spec fn shift_spec() -> u64 {
        21
    }

    fn shift() -> (r: u64) {
        21
    }
}

impl PgTable for PTTable {
    open spec fn shift_spec() -> u64 {
        12
    }

    fn shift() -> (r: u64) {
        12
    }
}

/// The 512 descriptors of one page table.
pub struct PgTableArray {
    pub pages: Vec<u64>,
}

impl PgTableArray {
    /// A table with every descriptor empty.
    pub fn new() -> (r: Self)
        ensures
            r.pages@ == Seq::new(512, |i: int| 0u64),
    {
        let mut pages: Vec<u64> = Vec::new();
        let mut i: usize = 0;
        while i < DESCRIPTORS_PER_PAGE
            invariant
                i <= 512,
                pages@ == Seq::new(i as nat, |k: int| 0u64),
            decreases 512 - i,
        {
            pages.push(0);
            i = i + 1;
        }
        PgTableArray { pages }
    }
}

pub proof fn lemma_block_shapes(level: nat, region: PhysMemoryRegion, va: u64)
    requires
        1 <= level <= 3,
    ensures
        could_map_spec(level_shift(level), region, va) <==> (region.start & block_mask(level) == 0
            && va & block_mask(level) == 0 && region.size >= block_size(level)),
        block_size(level) == block_pages(level) * 4096,
        block_mask(level) + 1 == block_size(level),
{
    assert((1u64 << 30u64) == 0x4000_0000u64 && (1u64 << 21u64) == 0x20_0000u64 && (1u64 << 12u64) == 0x1000u64)
        by (bit_vector);
}

/// Descriptor of table `table` that the walk for `va` reads at `level`.
pub open spec fn slot_entry(m: Map<u64, Seq<u64>>, table: u64, va: u64, level: nat) -> u64 {
    m[table][pg_index_spec(va, level_shift(level))]
}

/// Find the next-level table for `va` below `table` (at `level`),
/// allocating and linking an empty one if the descriptor is empty.
fn map_at_level<A: PageAllocator, M: PageTableMapper>(
    table: u64,
    level: u64,
    va: u64,
    ctx: &mut MappingContext<A, M>,
    Ghost(root): Ghost<u64>,
) -> (r: Result<u64, KernelError>)
    requires
        level < 3,
        old(ctx).wf(),
        path_table(old(ctx).mapper.tables(), root, va, level as nat) == Some(table),
    ensures
        final(ctx).wf(),
        preserves_valid(old(ctx).mapper.tables(), final(ctx).mapper.tables()),
        old(ctx).allocator.allocated().subset_of(final(ctx).allocator.allocated()),
        r is Ok ==> path_table(final(ctx).mapper.tables(), root, va, (level + 1) as nat) == Some(r->Ok_0),
        !old(ctx).mapper.tables().contains_key(table) ==> r is Err,
        old(ctx).mapper.tables().contains_key(table) && desc_valid(
            slot_entry(old(ctx).mapper.tables(), table, va, level as nat),
        ) ==> final(ctx).mapper.tables() == old(ctx).mapper.tables(),
        old(ctx).mapper.tables().contains_key(table) && next_table_of(
            slot_entry(old(ctx).mapper.tables(), table, va, level as nat),
            level == 0,
        ) is Some ==> r == Ok::<u64, KernelError>(
            next_table_of(slot_entry(old(ctx).mapper.tables(), table, va, level as nat), level == 0)->Some_0,
        ) && final(ctx).mapper.tables() == old(ctx).mapper.tables(),
        old(ctx).mapper.tables().contains_key(table) && next_table_of(
            slot_entry(old(ctx).mapper.tables(), table, va, level as nat),
            level == 0,
        ) is None && desc_valid(slot_entry(old(ctx).mapper.tables(), table, va, level as nat)) ==> r == Err::<
            u64,
            KernelError,
        >(KernelError::Mapping(MapError::AlreadyMapped)),
        old(ctx).mapper.tables().contains_key(table) && !desc_valid(
            slot_entry(old(ctx).mapper.tables(), table, va, level as nat),
        ) && !old(ctx).allocator.can_allocate() ==> r == Err::<u64, KernelError>(KernelError::NoMemory),
        old(ctx).mapper.tables().contains_key(table) && next_table_of(
            slot_entry(old(ctx).mapper.tables(), table, va, level as nat),
            level == 0,
        ) is Some ==> final(ctx).allocator == old(ctx).allocator && forall|t: u64| #[trigger]
            final(ctx).mapper.can_add_table(t) == old(ctx).mapper.can_add_table(t),
        old(ctx).mapper.tables().contains_key(table) && !desc_valid(
            slot_entry(old(ctx).mapper.tables(), table, va, level as nat),
        ) && old(ctx).can_extend(1) ==> r is Ok,
        old(ctx).mapper.tables().contains_key(table) && !desc_valid(
            slot_entry(old(ctx).mapper.tables(), table, va, level as nat),
        ) && r is Ok ==> {
            &&& !old(ctx).mapper.tables().contains_key(r->Ok_0)
            &&& addr_encodable(r->Ok_0)
            &&& final(ctx).mapper.tables() == write_slot(
                old(ctx).mapper.tables().insert(r->Ok_0, Seq::new(512, |i: int| 0u64)),
                table,
                pg_index_spec(va, level_shift(level as nat)),
                table_desc(r->Ok_0),
            )
            &&& final(ctx).mapper.tables().contains_key(r->Ok_0)
            &&& final(ctx).mapper.tables()[r->Ok_0] == Seq::new(512, |i: int| 0u64)
            &&& final(ctx).allocator.frames_left() + 1 == old(ctx).allocator.frames_left()
            &&& forall|t: u64| t != r->Ok_0 ==> #[trigger] final(ctx).mapper.can_add_table(t)
                == old(ctx).mapper.can_add_table(t)
        },
{
    let ghost m0 = ctx.mapper.tables();
    let idx = pg_index(va, level_shift_exec(level));
    let desc = match ctx.mapper.read_entry(table, idx) {
        Ok(d) => d,
        Err(e) => {
            proof {
                lemma_preserves_refl(m0);
            }
            return Err(e);
        },
    };
    if let Some(pa) = raw_next_table_address(desc, level == 0) {
        proof {
            lemma_preserves_refl(m0);
        }
        return Ok(pa);
    }
    if raw_is_valid(desc) {
        proof {
            lemma_preserves_refl(m0);
        }
        return Err(KernelError::Mapping(MapError::AlreadyMapped));
    }
    let new_pa = match ctx.allocator.allocate_page_table() {
        Ok(p) => p,
        Err(e) => {
            proof {
                lemma_preserves_refl(m0);
            }
            return Err(e);
        },
    };
    let ghost m1 = ctx.mapper.tables();
    proof {
        assert(ctx.mapper.can_add_table(new_pa) == old(ctx).mapper.can_add_table(new_pa));
        assert(!m0.contains_key(new_pa));
    }
    match ctx.mapper.zero_table(new_pa) {
        Ok(()) => {},
        Err(e) => {
            proof {
                lemma_preserves_refl(m0);
            }
            return Err(e);
        },
    }
    let ghost m2 = ctx.mapper.tables();
    proof {
        assert(m2.contains_key(table));
        lemma_insert_fresh_preserves(m0, new_pa, Seq::new(512, |i: int| 0u64));
        assert(m2[table] == m0[table]);
    }
    let link = raw_new_next_table(new_pa);
    match ctx.mapper.write_entry(table, idx, link) {
        Ok(()) => {},
        Err(e) => {
            return Err(e);
        },
    }
    proof {
        let m3 = ctx.mapper.tables();
        lemma_write_invalid_preserves(m2, table, idx as int, link);
        lemma_preserves_trans(m0, m2, m3);
        lemma_path_preserved(m0, m3, root, va, level as nat);
        lemma_table_desc(new_pa);
        assert(m3[table][idx as int] == link);
        assert(m3.dom() =~= m2.dom());
        assert(tables_wf(m3));
    }
    Ok(new_pa)
}


/// If a block of this level can map `phys` at `va`, install it and
/// return how many 4 KiB pages it covers; otherwise leave the tables as
/// they are.
fn try_map_pa<A: PageAllocator, M: PageTableMapper>(
    table: u64,
    level: u64,
    va: u64,
    phys: PhysMemoryRegion,
    attrs: &MapAttributes,
    ctx: &mut MappingContext<A, M>,
    Ghost(root): Ghost<u64>,
) -> (r: Result<Option<u64>, KernelError>)
    requires
        1 <= level <= 3,
        old(ctx).wf(),
        path_table(old(ctx).mapper.tables(), root, va, level as nat) == Some(table),
    ensures
        final(ctx).wf(),
        preserves_valid(old(ctx).mapper.tables(), final(ctx).mapper.tables()),
        final(ctx).allocator == old(ctx).allocator,
        forall|t: u64| #[trigger] final(ctx).mapper.can_add_table(t) == old(ctx).mapper.can_add_table(t),
        r == Ok::<Option<u64>, KernelError>(None) <==> !could_map_spec(level_shift(level as nat), phys, va),
        r == Ok::<Option<u64>, KernelError>(None) ==> final(ctx).mapper.tables() == old(ctx).mapper.tables(),
        r is Err ==> final(ctx).mapper.tables() == old(ctx).mapper.tables(),
        final(ctx).mapper.tables().dom() == old(ctx).mapper.tables().dom(),
        !could_map_spec(level_shift(level as nat), phys, va) ==> *final(ctx) == *old(ctx),
        could_map_spec(level_shift(level as nat), phys, va) && !old(ctx).mapper.tables().contains_key(table) ==> r is Err,
        could_map_spec(level_shift(level as nat), phys, va) && old(ctx).mapper.tables().contains_key(table) ==> r == (
        if desc_valid(slot_entry(old(ctx).mapper.tables(), table, va, level as nat)) {
            Err::<Option<u64>, KernelError>(KernelError::Mapping(MapError::AlreadyMapped))
        } else {
            Ok(Some(block_pages(level as nat)))
        }),
        r matches Ok(Some(n)) ==> {
            &&& could_map_spec(level_shift(level as nat), phys, va)
            &&& n == block_pages(level as nat)
            &&& final(ctx).mapper.tables() == write_slot(
                old(ctx).mapper.tables(),
                table,
                pg_index_spec(va, level_shift(level as nat)),
                leaf_desc(phys.start, level < 3, attrs.perms),
            )
            &&& leaf_at(final(ctx).mapper.tables(), root, va, level as nat)
            &&& forall|off: u64|
                off <= block_mask(level as nat) ==> #[trigger] translate_spec(
                    final(ctx).mapper.tables(),
                    root,
                    va | off,
                ) == Some(
                    (((phys.start & PTE_ADDR_MASK) + off) as int, attrs.perms.effective()),
                )
        },
{
    let ghost m0 = ctx.mapper.tables();
    let shift = level_shift_exec(level);
    if raw_could_map(shift, phys, va) {
        let idx = pg_index(va, shift);
        let desc = match ctx.mapper.read_entry(table, idx) {
            Ok(d) => d,
            Err(e) => {
                proof {
                    lemma_preserves_refl(m0);
                }
                return Err(e);
            },
        };
        if raw_is_valid(desc) {
            proof {
                lemma_preserves_refl(m0);
            }
            return Err(KernelError::Mapping(MapError::AlreadyMapped));
        }
        let leaf = raw_new_map_pa(phys.start_address(), level < 3, attrs.perms);
        match ctx.mapper.write_entry(table, idx, leaf) {
            Ok(()) => {},
            Err(e) => {
                proof {
                    lemma_preserves_refl(m0);
                }
                return Err(e);
            },
        }
        proof {
            let m1 = ctx.mapper.tables();
            lemma_write_invalid_preserves(m0, table, idx as int, leaf);
            lemma_path_preserved(m0, m1, root, va, level as nat);
            lemma_leaf_desc(phys.start, level < 3, attrs.perms);
            lemma_block_shapes(level as nat, phys, va);
            assert(m1.dom() =~= m0.dom());
            assert(m1[table][idx as int] == leaf);
            assert(leaf_at(m1, root, va, level as nat));
            assert forall|off: u64| off <= block_mask(level as nat) implies #[trigger] translate_spec(
                m1,
                root,
                va | off,
            ) == Some((((phys.start & PTE_ADDR_MASK) + off) as int, attrs.perms.effective())) by {
                lemma_leaf_block(m1, root, va, level as nat, off);
            }
        }
        let pages: u64 = if level == 1 {
            0x4_0000
        } else if level == 2 {
            0x200
        } else {
            1
        };
        Ok(Some(pages))
    } else {
        proof {
            lemma_preserves_refl(m0);
        }
        Ok(None)
    }
}

/// Every byte of the first `done` bytes of the virtual range starting
/// at `vs` translates to the same offset from `ps`, with permissions `p`.
pub open spec fn mapped_prefix(
    mem: Map<u64, Seq<u64>>,
    root: u64,
    vs: u64,
    ps: u64,
    done: nat,
    p: PtePermissions,
) -> bool {
    forall|off: u64|
        off < done ==> #[trigger] translate_spec(mem, root, (vs + off) as u64) == Some(((ps + off) as int, p))
}

/// A mapped range stays mapped, byte for byte, while present
/// descriptors are preserved (later mappings never disturb it).
pub proof fn lemma_mapped_prefix_preserved(
    m1: Map<u64, Seq<u64>>,
    m2: Map<u64, Seq<u64>>,
    root: u64,
    vs: u64,
    ps: u64,
    len: nat,
    p: PtePermissions,
)
    requires
        preserves_valid(m1, m2),
        mapped_prefix(m1, root, vs, ps, len, p),
    ensures
        mapped_prefix(m2, root, vs, ps, len, p),
{
    assert forall|off: u64| off < len implies #[trigger] translate_spec(m2, root, (vs + off) as u64) == Some(
        ((ps + off) as int, p),
    ) by {
        lemma_translate_preserved(m1, m2, root, (vs + off) as u64);
    }
}

proof fn lemma_page_mask(x: u64)
    ensures
        (x & 0xFFFu64 == 0) <==> x % 4096 == 0,
{
    assert((x & 0xFFFu64 == 0) <==> x % 4096 == 0) by (bit_vector);
}

/// Mapping one more block right after a mapped prefix extends the prefix.
proof fn lemma_chunk_extends(
    mprev: Map<u64, Seq<u64>>,
    mnew: Map<u64, Seq<u64>>,
    root: u64,
    vs: u64,
    ps: u64,
    done: nat,
    level: nat,
    p: PtePermissions,
    va: u64,
    pcur: u64,
)
    requires
        1 <= level <= 3,
        preserves_valid(mprev, mnew),
        mapped_prefix(mprev, root, vs, ps, done, p),
        forall|off: u64|
            off <= block_mask(level) ==> #[trigger] translate_spec(mnew, root, va | off) == Some(
                (((pcur & PTE_ADDR_MASK) + off) as int, p),
            ),
        va == vs + done,
        pcur == ps + done,
        va & block_mask(level) == 0,
        addr_encodable(pcur),
        va + block_mask(level) <= u64_limit(),
    ensures
        mapped_prefix(mnew, root, vs, ps, (done + block_mask(level) + 1) as nat, p),
{
    assert forall|off: u64| off < done + block_mask(level) + 1 implies #[trigger] translate_spec(
        mnew,
        root,
        (vs + off) as u64,
    ) == Some(((ps + off) as int, p)) by {
        if off < done {
            lemma_translate_preserved(mprev, mnew, root, (vs + off) as u64);
        } else {
            let off2 = (off - done) as u64;
            lemma_block_bits(va, off2, block_mask(level), level_shift(level));
            assert((vs + off) as u64 == va | off2);
        }
    }
}

/// The inputs on which `map_range` promises a translation for every
/// byte: both regions start page-aligned and the physical region lies
/// below 2^48, the limit of the descriptor's address field.
pub open spec fn map_law_applies(attrs: MapAttributes) -> bool {
    &&& attrs.virt.start % 4096 == 0
    &&& attrs.phys.start % 4096 == 0
    &&& attrs.phys.start + attrs.phys.size <= 0x1_0000_0000_0000
}

/// The block `map_range` places at `va` for the physical address `pa`
/// with `rem` bytes left to map: a 1 GiB block where both addresses are
/// 1 GiB-aligned and a whole 1 GiB remains, else a 2 MiB block likewise,
/// else a 4 KiB page (level 1, 2 or 3).
pub open spec fn block_level(va: u64, pa: u64, rem: u64) -> nat {
    if could_map_spec(30, PhysMemoryRegion { start: pa, size: rem }, va) {
        1
    } else if could_map_spec(21, PhysMemoryRegion { start: pa, size: rem }, va) {
        2
    } else {
        3
    }
}

/// The level of the block that maps byte `off` when `rem` bytes are
/// mapped from `va` to `pa`, block after block as `block_level` picks
/// them.
pub open spec fn block_level_at(va: u64, pa: u64, rem: u64, off: int) -> nat
    decreases rem,
{
    let l = block_level(va, pa, rem);
    let n = block_size(l);
    if off < n || rem <= n {
        l
    } else {
        block_level_at((va + n) as u64, (pa + n) as u64, (rem - n) as u64, off - n)
    }
}

/// A leaf survives changes that keep every present descriptor.
proof fn lemma_leaf_at_preserved(m1: Map<u64, Seq<u64>>, m2: Map<u64, Seq<u64>>, root: u64, va: u64, level: nat)
    requires
        preserves_valid(m1, m2),
        leaf_at(m1, root, va, level),
    ensures
        leaf_at(m2, root, va, level),
{
    lemma_path_preserved(m1, m2, root, va, level);
    lemma_pg_index_bound(va, level_shift(level));
    let t = path_table(m1, root, va, level)->Some_0;
    let i = pg_index_spec(va, level_shift(level));
    assert(desc_valid(m1[t][i]));
    assert(m2[t][i] == m1[t][i]);
}

/// After one more block of `map_range` at `level`, the levels of all
/// bytes mapped so far still follow `block_level_at`.
proof fn lemma_chunk_levels(
    mprev: Map<u64, Seq<u64>>,
    mnew: Map<u64, Seq<u64>>,
    root: u64,
    vs: u64,
    ps: u64,
    total: u64,
    done: u64,
    level: nat,
    va: u64,
    pa: u64,
    rem: u64,
)
    requires
        1 <= level <= 3,
        preserves_valid(mprev, mnew),
        leaf_at(mnew, root, va, level),
        va & block_mask(level) == 0,
        block_level(va, pa, rem) == level,
        block_size(level) <= rem,
        done + rem == total,
        va == vs + done,
        pa == ps + done,
        forall|off: u64| off < done ==> #[trigger] leaf_at(mprev, root, (vs + off) as u64, block_level_at(vs, ps, total, off as int)),
        forall|x: int| 0 <= x < rem ==> #[trigger] block_level_at(vs, ps, total, done + x) == block_level_at(va, pa, rem, x),
    ensures
        forall|off: u64|
            off < done + block_size(level) ==> #[trigger] leaf_at(
                mnew,
                root,
                (vs + off) as u64,
                block_level_at(vs, ps, total, off as int),
            ),
        forall|x: int|
            0 <= x < rem - block_size(level) ==> #[trigger] block_level_at(vs, ps, total, done + block_size(level) + x)
                == block_level_at((va + block_size(level)) as u64, (pa + block_size(level)) as u64, (rem - block_size(level)) as u64, x),
{
    let n = block_size(level);
    assert forall|off: u64| off < done + n implies #[trigger] leaf_at(
        mnew,
        root,
        (vs + off) as u64,
        block_level_at(vs, ps, total, off as int),
    ) by {
        if off < done {
            lemma_leaf_at_preserved(mprev, mnew, root, (vs + off) as u64, block_level_at(vs, ps, total, off as int));
        } else {
            let o = (off - done) as u64;
            assert(block_level_at(vs, ps, total, done + o) == block_level_at(va, pa, rem, o as int));
            assert(block_level_at(va, pa, rem, o as int) == level);
            assert(o <= block_mask(level));
            lemma_leaf_block(mnew, root, va, level, o);
            assert((vs + off) as u64 == va | o);
        }
    }
    assert forall|x: int| 0 <= x < rem - n implies #[trigger] block_level_at(vs, ps, total, done + n + x)
        == block_level_at((va + n) as u64, (pa + n) as u64, (rem - n) as u64, x) by {
        assert(block_level_at(vs, ps, total, done + (n + x)) == block_level_at(va, pa, rem, n + x));
        assert(done + n + x == done + (n + x));
    }
}

/// One 4 KiB page to map at an address that nothing maps yet, every
/// table on its walk present.
pub open spec fn fresh_page_mapping(m: Map<u64, Seq<u64>>, root: u64, attrs: MapAttributes) -> bool {
    &&& attrs.virt.size == 4096
    &&& attrs.phys.size == 4096
    &&& map_law_applies(attrs)
    &&& walk_tables_held(m, root, attrs.virt.start)
    &&& translate_spec(m, root, attrs.virt.start) is None
}

/// `t`, reached at `level` of the walk for `va`, is a present table that
/// is either the old walk's table in untouched tables, or a new empty one.
spec fn walk_step(m: Map<u64, Seq<u64>>, m0: Map<u64, Seq<u64>>, root: u64, va: u64, level: nat, t: u64) -> bool {
    &&& m.contains_key(t)
    &&& (m == m0 && path_table(m0, root, va, level) == Some(t)) || (m[t] == Seq::new(512, |i: int| 0u64)
        && path_table(m0, root, va, level) is None)
}

/// Along a fresh walk, the descriptor read at `level` is an empty slot or
/// a link to the next table; the last-level one is empty.
proof fn lemma_fresh_slot(m: Map<u64, Seq<u64>>, m0: Map<u64, Seq<u64>>, root: u64, va: u64, level: nat, t: u64)
    requires
        walk_step(m, m0, root, va, level, t),
        walk_tables_held(m0, root, va),
        translate_spec(m0, root, va) is None,
        level <= 3,
    ensures
        m.contains_key(t),
        level < 3 ==> next_table_of(slot_entry(m, t, va, level), level == 0) is Some || !desc_valid(
            slot_entry(m, t, va, level),
        ),
        level == 3 ==> !desc_valid(slot_entry(m, t, va, level)),
        next_table_of(slot_entry(m, t, va, level), level == 0) is Some ==> m == m0 && path_table(
            m0,
            root,
            va,
            level + 1,
        ) == next_table_of(slot_entry(m, t, va, level), level == 0) && m0.contains_key(
            next_table_of(slot_entry(m, t, va, level), level == 0)->Some_0,
        ),
        !desc_valid(slot_entry(m, t, va, level)) ==> path_table(m0, root, va, level + 1) is None,
{
    lemma_pg_index_bound(va, level_shift(level));
    lemma_zero_invalid();
    if m[t] == Seq::new(512, |i: int| 0u64) {
        assert(slot_entry(m, t, va, level) == 0u64);
    }
    if !(m[t] == Seq::new(512, |i: int| 0u64)) {
        assert(m == m0 && path_table(m0, root, va, level) == Some(t));
        assert(path_entry(m0, root, va, level) == Some(slot_entry(m, t, va, level)));
        assert(!leaf_at(m0, root, va, 1) && !leaf_at(m0, root, va, 2) && !leaf_at(m0, root, va, 3));
    }
}

/// Map `attrs.phys` onto `attrs.virt` in the tables rooted at
/// `pml4_table`, choosing the largest block (1 GiB, 2 MiB, 4 KiB) that
/// fits at each step and allocating intermediate tables on demand.
pub fn map_range<A: PageAllocator, M: PageTableMapper>(
    pml4_table: u64,
    attrs: MapAttributes,
    ctx: &mut MappingContext<A, M>,
) -> (r: Result<(), KernelError>)
    requires
        old(ctx).wf(),
        attrs.phys.valid(),
        attrs.virt.valid(),
        attrs.phys.size == attrs.virt.size ==> attrs.virt.size % PAGE_SIZE == 0,
    ensures
        final(ctx).wf(),
        preserves_valid(old(ctx).mapper.tables(), final(ctx).mapper.tables()),
        attrs.phys.size != attrs.virt.size ==> r == Err::<(), KernelError>(KernelError::Mapping(MapError::SizeMismatch))
            && *final(ctx) == *old(ctx),
        r is Ok ==> attrs.phys.size == attrs.virt.size,
        r is Ok && map_law_applies(attrs) ==> mapped_prefix(
            final(ctx).mapper.tables(),
            pml4_table,
            attrs.virt.start,
            attrs.phys.start,
            attrs.virt.size as nat,
            attrs.perms.effective(),
        ),
        fresh_page_mapping(old(ctx).mapper.tables(), pml4_table, attrs) && old(ctx).can_extend(3) ==> r is Ok,
        range_mappable(old(ctx).mapper.tables(), pml4_table, attrs) && old(ctx).can_extend(range_cost(attrs)) ==> r is Ok,
        range_mappable(old(ctx).mapper.tables(), pml4_table, attrs) && r is Ok ==> old(ctx).mapper.tables().dom().subset_of(
            final(ctx).mapper.tables().dom(),
        ),
        fresh_map_range(old(ctx).mapper.tables(), pml4_table, attrs) && old(ctx).can_extend(range_cost(attrs)) ==> r is Ok,
        range_mappable(old(ctx).mapper.tables(), pml4_table, attrs) && r is Ok ==> budget_from(
            *old(ctx),
            *final(ctx),
            range_cost(attrs),
            0,
        ) && final(ctx).mapper.tables().contains_key(pml4_table) && root_row_within(
            old(ctx).mapper.tables(),
            final(ctx).mapper.tables(),
            pml4_table,
            attrs.virt.start,
            attrs.virt.size,
        ),
        first_page_mapped(old(ctx).mapper.tables(), pml4_table, attrs) ==> r == Err::<(), KernelError>(
            KernelError::Mapping(MapError::AlreadyMapped),
        ) && final(ctx).mapper.tables() == old(ctx).mapper.tables(),
        fresh_map_range(old(ctx).mapper.tables(), pml4_table, attrs) && attrs.virt.size > 0
            && !old(ctx).allocator.can_allocate() ==> r == Err::<(), KernelError>(KernelError::NoMemory),
        r is Ok && map_law_applies(attrs) ==> forall|off: u64|
            off < attrs.virt.size ==> #[trigger] leaf_at(
                final(ctx).mapper.tables(),
                pml4_table,
                (attrs.virt.start + off) as u64,
                block_level_at(attrs.virt.start, attrs.phys.start, attrs.virt.size, off as int),
            ),
{
    let ghost m0 = ctx.mapper.tables();
    let ghost vs = attrs.virt.start;
    let ghost total = attrs.virt.size;
    let ghost fits = attrs.virt.start + attrs.virt.size <= u64::MAX;
    proof {
        if fresh_map_range(m0, pml4_table, attrs) && fits {
            lemma_range_start(m0, pml4_table, vs, total);
            lemma_fresh_mappable(m0, pml4_table, attrs);
        }
    }
    let ghost owner0: Map<u64, (nat, u64)> = if range_mappable(m0, pml4_table, attrs) {
        choose|o: Map<u64, (nat, u64)>| range_tree(m0, pml4_table, vs, total, o)
    } else {
        Map::empty()
    };
    proof {
        if range_mappable(m0, pml4_table, attrs) {
            assert(range_open(m0, pml4_table, vs, total, 0));
            assert(range_ready_within(m0, pml4_table, attrs, vs, total, 0, owner0));
        }
    }
    let r = map_range_in(pml4_table, attrs, ctx, Ghost(vs), Ghost(total), Ghost(0), Ghost(owner0));
    proof {
        if range_mappable(m0, pml4_table, attrs) && r is Ok {
            let m = ctx.mapper.tables();
            let ow = choose|ow: Map<u64, (nat, u64)>|
                {
                    &&& #[trigger] range_tree(m, pml4_table, vs, total, ow)
                    &&& range_open(m, pml4_table, vs, total, total)
                    &&& owner_history(m0, m, pml4_table, owner0, ow)
                };
            assert forall|t: u64| m0.contains_key(t) implies m.contains_key(t) by {
                if t != pml4_table && !ow.contains_key(t) {
                    assert(m0.contains_key(t) && t != pml4_table && !ow.contains_key(t));
                }
            }
        }
    }
    r
}

/// `map_range`, where the range may be one part of a larger range
/// (`uvs`, `utotal` bytes, this part from byte `base`) mapped in order;
/// `owner0` are the tables made for the larger range so far.
#[verifier::rlimit(50)]
pub(crate) fn map_range_in<A: PageAllocator, M: PageTableMapper>(
    pml4_table: u64,
    attrs: MapAttributes,
    ctx: &mut MappingContext<A, M>,
    Ghost(uvs): Ghost<u64>,
    Ghost(utotal): Ghost<u64>,
    Ghost(base): Ghost<u64>,
    Ghost(owner0): Ghost<Map<u64, (nat, u64)>>,
) -> (r: Result<(), KernelError>)
    requires
        old(ctx).wf(),
        attrs.phys.valid(),
        attrs.virt.valid(),
        attrs.phys.size == attrs.virt.size ==> attrs.virt.size % PAGE_SIZE == 0,
    ensures
        final(ctx).wf(),
        preserves_valid(old(ctx).mapper.tables(), final(ctx).mapper.tables()),
        attrs.phys.size != attrs.virt.size ==> r == Err::<(), KernelError>(KernelError::Mapping(MapError::SizeMismatch))
            && *final(ctx) == *old(ctx),
        r is Ok ==> attrs.phys.size == attrs.virt.size,
        r is Ok && map_law_applies(attrs) ==> mapped_prefix(
            final(ctx).mapper.tables(),
            pml4_table,
            attrs.virt.start,
            attrs.phys.start,
            attrs.virt.size as nat,
            attrs.perms.effective(),
        ),
        fresh_page_mapping(old(ctx).mapper.tables(), pml4_table, attrs) && old(ctx).can_extend(3) ==> r is Ok,
        range_ready_within(old(ctx).mapper.tables(), pml4_table, attrs, uvs, utotal, base, owner0) && old(ctx).can_extend(
            range_cost(attrs),
        ) ==> r is Ok,
        range_ready_within(old(ctx).mapper.tables(), pml4_table, attrs, uvs, utotal, base, owner0) && r is Ok
            ==> budget_from(*old(ctx), *final(ctx), range_cost(attrs), 0) && final(ctx).mapper.tables().contains_key(
            pml4_table,
        ) && root_row_within(old(ctx).mapper.tables(), final(ctx).mapper.tables(), pml4_table, uvs, utotal)
            && range_grown(
            old(ctx).mapper.tables(),
            final(ctx).mapper.tables(),
            pml4_table,
            uvs,
            utotal,
            (base + attrs.virt.size) as u64,
            owner0,
        ),
        first_page_mapped(old(ctx).mapper.tables(), pml4_table, attrs) ==> r == Err::<(), KernelError>(
            KernelError::Mapping(MapError::AlreadyMapped),
        ) && final(ctx).mapper.tables() == old(ctx).mapper.tables(),
        fresh_map_range(old(ctx).mapper.tables(), pml4_table, attrs) && attrs.virt.size > 0
            && !old(ctx).allocator.can_allocate() ==> r == Err::<(), KernelError>(KernelError::NoMemory),
        r is Ok && map_law_applies(attrs) ==> forall|off: u64|
            off < attrs.virt.size ==> #[trigger] leaf_at(
                final(ctx).mapper.tables(),
                pml4_table,
                (attrs.virt.start + off) as u64,
                block_level_at(attrs.virt.start, attrs.phys.start, attrs.virt.size, off as int),
            ),
{
    let ghost m0 = ctx.mapper.tables();
    if attrs.phys.size() != attrs.virt.size() {
        return Err(KernelError::Mapping(MapError::SizeMismatch));
    }
    let ghost law = map_law_applies(attrs);
    let ghost single = fresh_page_mapping(m0, pml4_table, attrs) && old(ctx).can_extend(3);
    let ghost multi = fresh_map_range(m0, pml4_table, attrs);
    let ghost within = range_ready_within(m0, pml4_table, attrs, uvs, utotal, base, owner0);
    let ghost afford = old(ctx).can_extend(range_cost(attrs));
    let ghost hit = first_page_mapped(m0, pml4_table, attrs);
    let ghost starved = multi && !old(ctx).allocator.can_allocate();
    let ghost c0 = range_cost(attrs);
    let ghost vs = attrs.virt.start;
    let ghost ps = attrs.phys.start;
    let ghost total = attrs.virt.size;
    let ghost mut owner: Map<u64, (nat, u64)> = owner0;
    let mut virt = attrs.virt;
    let mut phys = attrs.phys;
    proof {
        lemma_preserves_refl(m0);
        if within {
            assert forall|k: nat| #[trigger] old(ctx).can_extend(k + c0) implies ctx.can_extend(
                k + map_cost(virt.start, phys.start, virt.size, virt.size == total),
            ) by {}
        }
    }
    while virt.size() > 0
        invariant
            ctx.wf(),
            m0 == old(ctx).mapper.tables(),
            preserves_valid(m0, ctx.mapper.tables()),
            attrs.phys.size == attrs.virt.size,
            attrs.virt.valid(),
            virt.valid(),
            phys.valid(),
            virt.size == phys.size,
            virt.size % 4096 == 0,
            virt.size <= total,
            total == attrs.virt.size,
            total % 4096 == 0,
            vs == attrs.virt.start,
            ps == attrs.phys.start,
            law == map_law_applies(attrs),
            virt.start == vs + (total - virt.size),
            phys.start == ps + (total - virt.size),
            law ==> mapped_prefix(ctx.mapper.tables(), pml4_table, vs, ps, (total - virt.size) as nat, attrs.perms.effective()),
            single == (fresh_page_mapping(m0, pml4_table, attrs) && old(ctx).can_extend(3)),
            single ==> virt.size == 0 || (virt.size == 4096 && ctx.mapper.tables() == m0 && ctx.can_extend(3)),
            law ==> forall|off: u64|
                off < total - virt.size ==> #[trigger] leaf_at(
                    ctx.mapper.tables(),
                    pml4_table,
                    (vs + off) as u64,
                    block_level_at(vs, ps, total, off as int),
                ),
            law ==> forall|x: int|
                0 <= x < virt.size ==> #[trigger] block_level_at(vs, ps, total, (total - virt.size) + x)
                    == block_level_at(virt.start, phys.start, virt.size, x),
            multi == fresh_map_range(m0, pml4_table, attrs),
            within == range_ready_within(m0, pml4_table, attrs, uvs, utotal, base, owner0),
            afford == old(ctx).can_extend(range_cost(attrs)),
            c0 == range_cost(attrs),
            hit == first_page_mapped(m0, pml4_table, attrs),
            within ==> law && utotal <= 0x8000_0000_0000 && uvs + utotal <= u64::MAX && vs == uvs + base && base
                + total <= utotal,
            within ==> range_tree(ctx.mapper.tables(), pml4_table, uvs, utotal, owner),
            within ==> range_open(
                ctx.mapper.tables(),
                pml4_table,
                uvs,
                utotal,
                (base + (total - virt.size)) as u64),
            within ==> root_row_within(m0, ctx.mapper.tables(), pml4_table, uvs, utotal),
            within ==> budget_from(*old(ctx), *ctx, c0, map_cost(virt.start, phys.start, virt.size, virt.size == total)),
            within ==> owner_history(m0, ctx.mapper.tables(), pml4_table, owner0, owner),
            within ==> blocks_free(ctx.mapper.tables(), pml4_table, vs, ps, total, (total - virt.size) as u64),
            hit ==> virt.size == total && ctx.mapper.tables() == m0,
            starved == (multi && !old(ctx).allocator.can_allocate()),
            starved ==> virt.size == total && ctx.mapper.tables() == m0 && ctx.allocator == old(ctx).allocator,
        decreases virt.size,
    {
        let va = virt.start_address();
        let ghost done = (total - virt.size) as nat;
        let ghost done_u = (base + (total - virt.size)) as u64;
        let ghost first = virt.size == total;
        let ghost mstart = ctx.mapper.tables();
        let ghost cstart = *ctx;
        let ghost trk = single || within;
        let ghost lvl = block_level(va, phys.start, virt.size);
        let ghost newc = block_new_tables(va, lvl, first);
        let ghost rest = map_cost(
            (va + block_size(lvl)) as u64,
            (phys.start + block_size(lvl)) as u64,
            (virt.size - block_size(lvl)) as u64,
            false,
        );
        let ghost ind1: nat = if first || va & span_mask(0) == 0 { 1 } else { 0 };
        let ghost ind2: nat = if first || va & span_mask(1) == 0 { 1 } else { 0 };
        let ghost ind3: nat = if first || va & span_mask(2) == 0 { 1 } else { 0 };
        let ghost lq: nat = if done >= 4096 { block_level_at(vs, ps, total, done - 4096) } else { 1 };
        let ghost mut spent: nat = 0;
        proof {
            if law {
                lemma_addr_encodable(phys.start);
                lemma_page_mask(va);
                lemma_page_mask(phys.start);
            }
            assert(phys == PhysMemoryRegion { start: phys.start, size: virt.size });
            lemma_block_shapes(1, phys, va);
            lemma_block_shapes(2, phys, va);
            lemma_block_shapes(3, phys, va);
            if within {
                assert(range_va(uvs, done_u) == va);
                assert(range_va(vs, done as u64) == va);
                assert(block_level_at(vs, ps, total, (total - virt.size) + 0) == block_level_at(va, phys.start, virt.size, 0));
                assert(block_level_at(vs, ps, total, done as int) == lvl);
                assert(walk_tables_held(mstart, pml4_table, range_va(uvs, done_u)));
                lemma_budget_keep(cstart, cstart);
                assert(block_size(lvl) <= virt.size);
                assert(map_cost(va, phys.start, virt.size, first) == newc + rest);
                assert(newc == ind1 + (if lvl >= 2 { ind2 } else { 0 }) + (if lvl >= 3 { ind3 } else { 0 }));
                if !first {
                    let off_prev = (total - virt.size - 4096) as u64;
                    assert(off_prev < total - virt.size);
                    assert((vs + off_prev) as u64 == (va - 4096) as u64);
                    assert(leaf_at(mstart, pml4_table, (vs + off_prev) as u64, block_level_at(vs, ps, total, off_prev as int)));
                    lemma_block_level_at_range(vs, ps, total, off_prev as int);
                }
            }
            if hit {
                assert(va == vs);
                assert(path_table(mstart, pml4_table, va, 0) == Some(pml4_table));
                assert(path_table(mstart, pml4_table, va, 1) is Some);
            }
            if starved {
                assert(va == range_va(vs, 0));
                assert(!desc_valid(m0[pml4_table][pg_index_spec(range_va(vs, 0), 39)]));
                assert(!desc_valid(slot_entry(mstart, pml4_table, va, 0)));
            }
            if trk {
                assert(walk_step(mstart, mstart, pml4_table, va, 0, pml4_table));
                lemma_fresh_slot(mstart, mstart, pml4_table, va, 0, pml4_table);
                if within && !desc_valid(slot_entry(mstart, pml4_table, va, 0)) {
                    if !first && va & span_mask(0) != 0 {
                        lemma_table_shared(mstart, pml4_table, va, 1, lq);
                    }
                    if afford {
                        lemma_budget_room(*old(ctx), cstart, *ctx, c0, newc, rest, spent);
                    }
                }
            }
        }
        let ghost cb0 = *ctx;
        let pdpt = match map_at_level(pml4_table, 0, va, ctx, Ghost(pml4_table)) {
            Ok(t) => t,
            Err(e) => {
                proof {
                    lemma_preserves_trans(m0, mstart, ctx.mapper.tables());
                }
                return Err(e);
            },
        };
        let ghost m1 = ctx.mapper.tables();
        proof {
            if within {
                if desc_valid(slot_entry(mstart, pml4_table, va, 0)) {
                    lemma_budget_keep(cb0, *ctx);
                    lemma_budget_chain(cstart, cb0, *ctx, spent, 0);
                } else {
                    assert(m1 == linked(mstart, pml4_table, range_va(uvs, done_u), 1, pdpt));
                    lemma_block_level_at_range(vs, ps, total, done as int);
                    lemma_blocks_free_link(mstart, pml4_table, uvs, utotal, owner, base, vs, ps, total, done as u64, 1, pdpt);
                    lemma_multi_link(m0, mstart, pml4_table, uvs, utotal, owner0, owner, done_u, 1, pdpt);
                    owner = owner.insert(pdpt, (1nat, va));
                    assert(ctx.mapper.tables().dom() =~= cb0.mapper.tables().dom().insert(pdpt));
                    lemma_budget_alloc(cb0, *ctx, pdpt);
                    lemma_budget_chain(cstart, cb0, *ctx, spent, 1);
                    spent = spent + 1;
                }
            }
            if trk {
                assert(walk_step(m1, mstart, pml4_table, va, 1, pdpt));
            }
            if single {
                assert(ctx.can_extend(2));
            }
            if hit {
                assert(m1 == m0);
                assert(path_table(m0, pml4_table, va, 1) == Some(pdpt));
                assert(desc_valid(slot_entry(m0, pdpt, va, 1)));
            }
            if trk {
                lemma_fresh_slot(m1, mstart, pml4_table, va, 1, pdpt);
            }
            if within && afford && could_map_spec(30, phys, va) {
                if desc_valid(slot_entry(m1, pdpt, va, 1)) {
                    assert(path_table(mstart, pml4_table, range_va(uvs, done_u), 2) is Some);
                    assert(va & block_mask(1) == 0);
                    assert(path_table(mstart, pml4_table, range_va(vs, done as u64), 2) is None);
                    assert(false);
                }
            }
        }
        let ghost cb1 = *ctx;
        match try_map_pa(pdpt, 1, va, phys, &attrs, ctx, Ghost(pml4_table)) {
            Ok(Some(n)) => {
                proof {
                    lemma_preserves_trans(mstart, m1, ctx.mapper.tables());
                    lemma_preserves_trans(m0, mstart, ctx.mapper.tables());
                    if law {
                        lemma_chunk_extends(mstart, ctx.mapper.tables(), pml4_table, vs, ps, done, 1,
                            attrs.perms.effective(), va, phys.start);
                        lemma_chunk_levels(mstart, ctx.mapper.tables(), pml4_table, vs, ps, total, done as u64, 1, va,
                            phys.start, virt.size);
                    }
                    if within {
                        lemma_leaf_desc(phys.start, true, attrs.perms);
                        lemma_blocks_free_leaf(m1, pml4_table, uvs, utotal, owner, base, vs, ps, total, done as u64, 1,
                            leaf_desc(phys.start, true, attrs.perms));
                        lemma_multi_leaf(m0, m1, pml4_table, uvs, utotal, owner0, owner, done_u, 1,
                            leaf_desc(phys.start, true, attrs.perms));
                        lemma_budget_keep(cb1, *ctx);
                        lemma_budget_chain(cstart, cb1, *ctx, spent, 0);
                        lemma_budget_close(*old(ctx), cstart, *ctx, c0, newc, rest, spent);
                    }
                }
                virt = virt.add_pages(n);
                phys = phys.add_pages(n);
                proof {
                    if law {
                        assert forall|x: int| 0 <= x < virt.size implies #[trigger] block_level_at(vs, ps, total, (total - virt.size) + x)
                            == block_level_at(virt.start, phys.start, virt.size, x) by {
                            assert((total - virt.size) + x == done + block_size(1) + x);
                            assert(block_level_at(vs, ps, total, done + block_size(1) + x) == block_level_at(virt.start, phys.start, virt.size, x));
                        }
                    }
                }
                continue;
            },
            Ok(None) => {},
            Err(e) => {
                proof {
                    lemma_preserves_trans(mstart, m1, ctx.mapper.tables());
                    lemma_preserves_trans(m0, mstart, ctx.mapper.tables());
                }
                return Err(e);
            },
        }
        proof {
            if hit {
                assert(path_table(m0, pml4_table, va, 1) == Some(pdpt));
            }
            if within && !desc_valid(slot_entry(m1, pdpt, va, 1)) {
                if !first && va & span_mask(1) != 0 {
                    lemma_table_shared(mstart, pml4_table, va, 2, lq);
                }
                if afford {
                    lemma_budget_room(*old(ctx), cstart, *ctx, c0, newc, rest, spent);
                }
            }
        }
        let ghost cb2 = *ctx;
        let pd = match map_at_level(pdpt, 1, va, ctx, Ghost(pml4_table)) {
            Ok(t) => t,
            Err(e) => {
                proof {
                    lemma_preserves_trans(mstart, m1, ctx.mapper.tables());
                    lemma_preserves_trans(m0, mstart, ctx.mapper.tables());
                }
                return Err(e);
            },
        };
        let ghost m2 = ctx.mapper.tables();
        proof {
            lemma_preserves_trans(mstart, m1, m2);
            if within {
                if desc_valid(slot_entry(m1, pdpt, va, 1)) {
                    lemma_budget_keep(cb2, *ctx);
                    lemma_budget_chain(cstart, cb2, *ctx, spent, 0);
                } else {
                    assert(m2 == linked(m1, pml4_table, range_va(uvs, done_u), 2, pd));
                    lemma_blocks_free_link(m1, pml4_table, uvs, utotal, owner, base, vs, ps, total, done as u64, 2, pd);
                    lemma_multi_link(m0, m1, pml4_table, uvs, utotal, owner0, owner, done_u, 2, pd);
                    owner = owner.insert(pd, (2nat, va));
                    assert(ctx.mapper.tables().dom() =~= cb2.mapper.tables().dom().insert(pd));
                    lemma_budget_alloc(cb2, *ctx, pd);
                    lemma_budget_chain(cstart, cb2, *ctx, spent, 1);
                    spent = spent + 1;
                }
            }
            if trk {
                assert(walk_step(m2, mstart, pml4_table, va, 2, pd));
            }
            if single {
                assert(ctx.can_extend(1));
            }
            if hit {
                assert(m2 == m0);
                assert(path_table(m0, pml4_table, va, 2) == Some(pd));
                assert(desc_valid(slot_entry(m0, pd, va, 2)));
            }
            if trk {
                lemma_fresh_slot(m2, mstart, pml4_table, va, 2, pd);
            }
            if within && afford && could_map_spec(21, phys, va) {
                if desc_valid(slot_entry(m2, pd, va, 2)) {
                    assert(path_table(mstart, pml4_table, range_va(uvs, done_u), 3) is Some);
                    assert(va & block_mask(2) == 0);
                    assert(path_table(mstart, pml4_table, range_va(vs, done as u64), 3) is None);
                    assert(false);
                }
            }
        }
        let ghost cb3 = *ctx;
        match try_map_pa(pd, 2, va, phys, &attrs, ctx, Ghost(pml4_table)) {
            Ok(Some(n)) => {
                proof {
                    lemma_preserves_trans(mstart, m2, ctx.mapper.tables());
                    lemma_preserves_trans(m0, mstart, ctx.mapper.tables());
                    if law {
                        lemma_chunk_extends(mstart, ctx.mapper.tables(), pml4_table, vs, ps, done, 2,
                            attrs.perms.effective(), va, phys.start);
                        lemma_chunk_levels(mstart, ctx.mapper.tables(), pml4_table, vs, ps, total, done as u64, 2, va,
                            phys.start, virt.size);
                    }
                    if within {
                        lemma_leaf_desc(phys.start, true, attrs.perms);
                        lemma_blocks_free_leaf(m2, pml4_table, uvs, utotal, owner, base, vs, ps, total, done as u64, 2,
                            leaf_desc(phys.start, true, attrs.perms));
                        lemma_multi_leaf(m0, m2, pml4_table, uvs, utotal, owner0, owner, done_u, 2,
                            leaf_desc(phys.start, true, attrs.perms));
                        lemma_budget_keep(cb3, *ctx);
                        lemma_budget_chain(cstart, cb3, *ctx, spent, 0);
                        lemma_budget_close(*old(ctx), cstart, *ctx, c0, newc, rest, spent);
                    }
                }
                virt = virt.add_pages(n);
                phys = phys.add_pages(n);
                proof {
                    if law {
                        assert forall|x: int| 0 <= x < virt.size implies #[trigger] block_level_at(vs, ps, total, (total - virt.size) + x)
                            == block_level_at(virt.start, phys.start, virt.size, x) by {
                            assert((total - virt.size) + x == done + block_size(2) + x);
                            assert(block_level_at(vs, ps, total, done + block_size(2) + x) == block_level_at(virt.start, phys.start, virt.size, x));
                        }
                    }
                }
                continue;
            },
            Ok(None) => {},
            Err(e) => {
                proof {
                    lemma_preserves_trans(mstart, m2, ctx.mapper.tables());
                    lemma_preserves_trans(m0, mstart, ctx.mapper.tables());
                }
                return Err(e);
            },
        }
        proof {
            if hit {
                assert(path_table(m0, pml4_table, va, 2) == Some(pd));
            }
            if within && !desc_valid(slot_entry(m2, pd, va, 2)) {
                if !first && va & span_mask(2) != 0 {
                    lemma_table_shared(mstart, pml4_table, va, 3, lq);
                }
                if afford {
                    lemma_budget_room(*old(ctx), cstart, *ctx, c0, newc, rest, spent);
                }
            }
        }
        let ghost cb4 = *ctx;
        let pt = match map_at_level(pd, 2, va, ctx, Ghost(pml4_table)) {
            Ok(t) => t,
            Err(e) => {
                proof {
                    lemma_preserves_trans(mstart, m2, ctx.mapper.tables());
                    lemma_preserves_trans(m0, mstart, ctx.mapper.tables());
                }
                return Err(e);
            },
        };
        let ghost m3 = ctx.mapper.tables();
        proof {
            lemma_preserves_trans(mstart, m2, m3);
            if within {
                if desc_valid(slot_entry(m2, pd, va, 2)) {
                    lemma_budget_keep(cb4, *ctx);
                    lemma_budget_chain(cstart, cb4, *ctx, spent, 0);
                } else {
                    assert(m3 == linked(m2, pml4_table, range_va(uvs, done_u), 3, pt));
                    lemma_blocks_free_link(m2, pml4_table, uvs, utotal, owner, base, vs, ps, total, done as u64, 3, pt);
                    lemma_multi_link(m0, m2, pml4_table, uvs, utotal, owner0, owner, done_u, 3, pt);
                    owner = owner.insert(pt, (3nat, va));
                    assert(ctx.mapper.tables().dom() =~= cb4.mapper.tables().dom().insert(pt));
                    lemma_budget_alloc(cb4, *ctx, pt);
                    lemma_budget_chain(cstart, cb4, *ctx, spent, 1);
                    spent = spent + 1;
                }
            }
            if trk {
                assert(walk_step(m3, mstart, pml4_table, va, 3, pt));
                lemma_fresh_slot(m3, mstart, pml4_table, va, 3, pt);
            }
            if hit {
                assert(m3 == m0);
                assert(path_table(m0, pml4_table, va, 3) == Some(pt));
                assert(desc_valid(slot_entry(m0, pt, va, 3)));
            }
            if law {
                lemma_page_mask(va);
                lemma_page_mask(phys.start);
                assert(could_map_spec(12, phys, va));
            }
        }
        let ghost cb5 = *ctx;
        let last = try_map_pa(pt, 3, va, phys, &attrs, ctx, Ghost(pml4_table));
        proof {
            lemma_preserves_trans(mstart, m3, ctx.mapper.tables());
            lemma_preserves_trans(m0, mstart, ctx.mapper.tables());
        }
        match last {
            Ok(_) => {},
            Err(e) => {
                return Err(e);
            },
        }
        proof {
            if law {
                assert(last matches Ok(Some(_)));
                lemma_chunk_extends(mstart, ctx.mapper.tables(), pml4_table, vs, ps, done, 3,
                    attrs.perms.effective(), va, phys.start);
                lemma_chunk_levels(mstart, ctx.mapper.tables(), pml4_table, vs, ps, total, done as u64, 3, va,
                    phys.start, virt.size);
            }
            if within {
                lemma_leaf_desc(phys.start, false, attrs.perms);
                lemma_blocks_free_leaf(m3, pml4_table, uvs, utotal, owner, base, vs, ps, total, done as u64, 3,
                    leaf_desc(phys.start, false, attrs.perms));
                lemma_multi_leaf(m0, m3, pml4_table, uvs, utotal, owner0, owner, done_u, 3,
                    leaf_desc(phys.start, false, attrs.perms));
                lemma_budget_keep(cb5, *ctx);
                lemma_budget_chain(cstart, cb5, *ctx, spent, 0);
                lemma_budget_close(*old(ctx), cstart, *ctx, c0, newc, rest, spent);
            }
        }
        virt = virt.add_pages(1);
        phys = phys.add_pages(1);
        proof {
            if law {
                assert forall|x: int| 0 <= x < virt.size implies #[trigger] block_level_at(vs, ps, total, (total - virt.size) + x)
                    == block_level_at(virt.start, phys.start, virt.size, x) by {
                    assert((total - virt.size) + x == done + block_size(3) + x);
                    assert(block_level_at(vs, ps, total, done + block_size(3) + x) == block_level_at(virt.start, phys.start, virt.size, x));
                }
            }
        }
    }
    proof {
        if within {
            assert(range_tree(ctx.mapper.tables(), pml4_table, uvs, utotal, owner));
            assert(range_open(ctx.mapper.tables(), pml4_table, uvs, utotal, (base + attrs.virt.size) as u64));
            assert(owner_history(m0, ctx.mapper.tables(), pml4_table, owner0, owner));
        }
    }
    Ok(())
}

/// The level `block_level_at` gives is that of a block: 1, 2 or 3.
pub proof fn lemma_block_level_at_range(va: u64, pa: u64, rem: u64, off: int)
    ensures
        1 <= block_level_at(va, pa, rem, off) <= 3,
    decreases rem,
{
    let l = block_level(va, pa, rem);
    let n = block_size(l);
    if !(off < n || rem <= n) {
        lemma_block_level_at_range((va + n) as u64, (pa + n) as u64, (rem - n) as u64, off - n);
    }
}


proof fn lemma_leaf_sum_bound(e: u64, va: u64, m: u64)
    requires
        m == 0x3FFF_FFFFu64 || m == 0x1F_FFFFu64 || m == 0xFFFu64,
    ensures
        (e & 0x0000_FFFF_FFFF_F000u64) + (va & m) <= 0x0001_0000_4000_0000,
{
    assert((e & 0x0000_FFFF_FFFF_F000u64) <= 0x0000_FFFF_FFFF_F000u64 && va & m <= m) by (bit_vector);
}

/// Every table the walk for `va` reads is present.
pub open spec fn walk_tables_held(m: Map<u64, Seq<u64>>, root: u64, va: u64) -> bool {
    &&& m.contains_key(root)
    &&& path_table(m, root, va, 1) is Some ==> m.contains_key(path_table(m, root, va, 1)->Some_0)
    &&& path_table(m, root, va, 2) is Some ==> m.contains_key(path_table(m, root, va, 2)->Some_0)
    &&& path_table(m, root, va, 3) is Some ==> m.contains_key(path_table(m, root, va, 3)->Some_0)
}

/// An address that translates has every table of its walk present.
pub proof fn lemma_translated_walk_held(m: Map<u64, Seq<u64>>, root: u64, va: u64)
    requires
        translate_spec(m, root, va) is Some,
    ensures
        walk_tables_held(m, root, va),
{
    assert(path_table(m, root, va, 0) == Some(root));
    if leaf_at(m, root, va, 1) {
        assert(path_table(m, root, va, 1) is Some);
        assert(path_table(m, root, va, 2) is None);
        assert(path_table(m, root, va, 3) is None);
    } else if leaf_at(m, root, va, 2) {
        assert(path_table(m, root, va, 2) is Some);
        assert(path_table(m, root, va, 1) is Some);
        assert(path_table(m, root, va, 3) is None);
    } else {
        assert(leaf_at(m, root, va, 3));
        assert(path_table(m, root, va, 3) is Some);
        assert(path_table(m, root, va, 2) is Some);
        assert(path_table(m, root, va, 1) is Some);
    }
}

/// Walk the tables rooted at `root` for `va`: the physical address it
/// translates to and the permissions of the mapping, or `None` when the
/// walk meets an empty descriptor.
pub fn translate_va<M: PageTableMapper>(mapper: &mut M, root: u64, va: u64) -> (r: Result<
    Option<(u64, PtePermissions)>,
    KernelError,
>)
    ensures
        final(mapper).tables() == old(mapper).tables(),
        r is Ok <==> walk_tables_held(old(mapper).tables(), root, va),
        r matches Ok(Some((pa, p))) ==> translate_spec(old(mapper).tables(), root, va) == Some((pa as int, p)),
        r == Ok::<Option<(u64, PtePermissions)>, KernelError>(None) ==> translate_spec(old(mapper).tables(), root, va) is None,
{
    let ghost m = mapper.tables();
    assert(path_table(m, root, va, 0) == Some(root));
    let e0 = mapper.read_entry(root, pg_index(va, 39))?;
    let t1 = match raw_next_table_address(e0, true) {
        Some(t) => t,
        None => {
            return Ok(None);
        },
    };
    assert(path_table(m, root, va, 1) == Some(t1));
    let e1 = mapper.read_entry(t1, pg_index(va, 30))?;
    assert(path_entry(m, root, va, 1) == Some(e1));
    if !raw_is_valid(e1) {
        return Ok(None);
    }
    if e1 & PTE_HUGE != 0 {
        proof {
            lemma_leaf_sum_bound(e1, va, 0x3FFF_FFFF);
        }
        return Ok(Some(((e1 & PTE_ADDR_MASK) + (va & 0x3FFF_FFFF), raw_desc_perms(e1))));
    }
    let t2 = e1 & PTE_ADDR_MASK;
    assert(path_table(m, root, va, 2) == Some(t2));
    let e2 = mapper.read_entry(t2, pg_index(va, 21))?;
    assert(path_entry(m, root, va, 2) == Some(e2));
    if !raw_is_valid(e2) {
        return Ok(None);
    }
    if e2 & PTE_HUGE != 0 {
        proof {
            lemma_leaf_sum_bound(e2, va, 0x1F_FFFF);
        }
        return Ok(Some(((e2 & PTE_ADDR_MASK) + (va & 0x1F_FFFF), raw_desc_perms(e2))));
    }
    let t3 = e2 & PTE_ADDR_MASK;
    assert(path_table(m, root, va, 3) == Some(t3));
    let e3 = mapper.read_entry(t3, pg_index(va, 12))?;
    assert(path_entry(m, root, va, 3) == Some(e3));
    if !raw_is_valid(e3) {
        return Ok(None);
    }
    proof {
        lemma_leaf_sum_bound(e3, va, 0xFFF);
    }
    Ok(Some(((e3 & PTE_ADDR_MASK) + (va & 0xFFF), raw_desc_perms(e3))))
}

/// Allocate a frame from the context's allocator and make it an empty
/// page table.
pub fn allocate_zeroed_table<A: PageAllocator, M: PageTableMapper>(ctx: &mut MappingContext<A, M>) -> (r: Result<
    u64,
    KernelError,
>)
    requires
        old(ctx).wf(),
    ensures
        final(ctx).wf(),
        preserves_valid(old(ctx).mapper.tables(), final(ctx).mapper.tables()),
        old(ctx).allocator.allocated().subset_of(final(ctx).allocator.allocated()),
        r is Ok ==> !old(ctx).mapper.tables().contains_key(r->Ok_0) && final(ctx).mapper.tables()
            == old(ctx).mapper.tables().insert(r->Ok_0, Seq::new(512, |i: int| 0u64)) && addr_encodable(
            r->Ok_0,
        ),
        r is Err ==> final(ctx).mapper.tables() == old(ctx).mapper.tables(),
        !old(ctx).allocator.can_allocate() ==> r == Err::<u64, KernelError>(KernelError::NoMemory),
        old(ctx).can_extend(1) ==> r is Ok,
        r is Ok ==> final(ctx).allocator.frames_left() + 1 == old(ctx).allocator.frames_left(),
        r is Ok ==> forall|t: u64| t != r->Ok_0 ==> #[trigger] final(ctx).mapper.can_add_table(t)
            == old(ctx).mapper.can_add_table(t),
{
    let ghost m0 = ctx.mapper.tables();
    proof {
        lemma_preserves_refl(m0);
    }
    let pa = ctx.allocator.allocate_page_table()?;
    proof {
        assert(!m0.contains_key(pa));
    }
    ctx.mapper.zero_table(pa)?;
    proof {
        lemma_insert_fresh_preserves(m0, pa, Seq::new(512, |i: int| 0u64));
    }
    Ok(pa)
}

} // verus!
