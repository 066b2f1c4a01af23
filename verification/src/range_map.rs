//! Mapping a whole range into tables that may already hold other
//! mappings: while the tables on the range's walks form a tree below the
//! root, the block placed for one part of the range never lies on the
//! walk of a later part, existing tables are reused, and a table is
//! created only where the walk has none yet.
use vstd::prelude::*;
use crate::address::PhysMemoryRegion;
use crate::pg_descriptors::could_map_spec;
use crate::pg_tables::{
    lemma_block_shapes, block_level_at, lemma_block_level_at_range,
    PageAllocator, PageTableMapper, MappingContext, MapAttributes, map_law_applies,
    block_level, block_size, block_mask, path_table, path_entry, leaf_at, translate_spec, pg_index_spec,
    level_shift, walk_tables_held, tables_wf, lemma_pg_index_bound, lemma_same_path, slot_entry,
};
use crate::pg_walk::{lemma_zero_invalid, on_walk, same_walk, write_slot, lemma_write_off_walk, lemma_same_walk_translate};
use crate::pg_descriptors::{desc_valid, desc_huge, desc_addr, next_table_of, table_desc, lemma_table_desc, addr_encodable};

verus! {

/// Offset mask of the region one table of `level` covers (the root's
/// entries cover 512 GiB, the others as `block_mask`).
pub open spec fn span_mask(level: nat) -> u64 {
    if level == 0 {
        0x7F_FFFF_FFFF
    } else {
        block_mask(level)
    }
}

/// Tables a block at `level` placed at `va` needs beyond those the walk
/// of the previous block already made: below each level whose region
/// starts at `va` (all of them for the first block).
pub open spec fn block_new_tables(va: u64, level: nat, first: bool) -> nat {
    (if first || va & span_mask(0) == 0 { 1nat } else { 0nat })
        + (if level >= 2 && (first || va & span_mask(1) == 0) { 1nat } else { 0nat })
        + (if level >= 3 && (first || va & span_mask(2) == 0) { 1nat } else { 0nat })
}

/// Tables `map_range` creates to map `rem` bytes from `va` to `pa`,
/// block after block as `block_level` picks them, when the root has no
/// entry for the range yet.
pub open spec fn map_cost(va: u64, pa: u64, rem: u64, first: bool) -> nat
    decreases rem,
{
    if rem == 0 {
        0
    } else {
        let l = block_level(va, pa, rem);
        let n = block_size(l);
        block_new_tables(va, l, first) + if rem <= n {
            0
        } else {
            map_cost((va + n) as u64, (pa + n) as u64, (rem - n) as u64, false)
        }
    }
}

/// Byte `off` of the range that starts at `vs`.
pub open spec fn range_va(vs: u64, off: u64) -> u64 {
    (vs + off) as u64
}

/// The walks for `a` and `b` read the same index at every level up to
/// `level`.
pub open spec fn same_prefix(a: u64, b: u64, level: nat) -> bool {
    &&& pg_index_spec(a, 39) == pg_index_spec(b, 39)
    &&& level >= 1 ==> pg_index_spec(a, 30) == pg_index_spec(b, 30)
    &&& level >= 2 ==> pg_index_spec(a, 21) == pg_index_spec(b, 21)
    &&& level >= 3 ==> pg_index_spec(a, 12) == pg_index_spec(b, 12)
}

/// Below the root, the walks of the range's bytes go only through tables
/// of `owner`, and each such table is reached at one level (the first
/// component) by exactly the bytes that share the prefix of its second
/// component.
pub open spec fn range_tree(
    m: Map<u64, Seq<u64>>,
    root: u64,
    vs: u64,
    total: u64,
    owner: Map<u64, (nat, u64)>,
) -> bool {
    &&& m.contains_key(root)
    &&& tables_wf(m)
    &&& !owner.contains_key(root)
    &&& owner.dom().subset_of(m.dom())
    &&& forall|off: u64, l: nat|
        #![trigger path_table(m, root, range_va(vs, off), l)]
        off < total && 1 <= l <= 3 && path_table(m, root, range_va(vs, off), l) is Some ==> {
            let t = path_table(m, root, range_va(vs, off), l)->Some_0;
            &&& owner.contains_key(t)
            &&& owner[t].0 == l
            &&& same_prefix(range_va(vs, off), owner[t].1, (l - 1) as nat)
        }
}

/// The bytes of the range from `lo` on are not mapped yet and every
/// table of their walks is present.
pub open spec fn range_open(m: Map<u64, Seq<u64>>, root: u64, vs: u64, total: u64, lo: u64) -> bool {
    forall|off: u64|
        #![trigger range_va(vs, off)]
        lo <= off < total ==> {
            &&& walk_tables_held(m, root, range_va(vs, off))
            &&& translate_spec(m, root, range_va(vs, off)) is None
        }
}

/// The top-level descriptor of every byte of the range is empty.
pub open spec fn root_slots_empty(m: Map<u64, Seq<u64>>, root: u64, vs: u64, total: u64) -> bool {
    &&& m.contains_key(root)
    &&& forall|off: u64| off < total ==> !desc_valid(#[trigger] m[root][pg_index_spec(range_va(vs, off), 39)])
}

proof fn lemma_prefix_region(a: u64, b: u64, m: u64)
    by (bit_vector)
    requires
        m == 0x3FFF_FFFFu64 || m == 0x1F_FFFFu64,
        (a >> 39u64) & 511u64 == (b >> 39u64) & 511u64,
        (a >> 30u64) & 511u64 == (b >> 30u64) & 511u64,
        m == 0x1F_FFFFu64 ==> (a >> 21u64) & 511u64 == (b >> 21u64) & 511u64,
        a <= b ==> b - a < 0x8000_0000_0000u64,
        b < a ==> a - b < 0x8000_0000_0000u64,
    ensures
        a - (a & m) == b - (b & m),
        a & m <= a,
{
}

proof fn lemma_past_block(a: u64, b: u64, m: u64)
    by (bit_vector)
    requires
        m == 0x3FFF_FFFFu64 || m == 0x1F_FFFFu64 || m == 0xFFFu64,
        a & m == 0,
        a <= b,
        b - a > m,
        b - a < 0x8000_0000_0000u64,
    ensures
        !{
            &&& (a >> 39u64) & 511u64 == (b >> 39u64) & 511u64
            &&& (a >> 30u64) & 511u64 == (b >> 30u64) & 511u64
            &&& m <= 0x1F_FFFFu64 ==> (a >> 21u64) & 511u64 == (b >> 21u64) & 511u64
            &&& m == 0xFFFu64 ==> (a >> 12u64) & 511u64 == (b >> 12u64) & 511u64
        },
{
}

proof fn lemma_prev_page(va: u64, m: u64)
    by (bit_vector)
    requires
        m == 0x7F_FFFF_FFFFu64 || m == 0x3FFF_FFFFu64 || m == 0x1F_FFFFu64,
        va & 0xFFFu64 == 0,
        va & m != 0,
    ensures
        va >= 4096,
        ((va - 4096u64) as u64 >> 39u64) & 511u64 == (va >> 39u64) & 511u64,
        m <= 0x3FFF_FFFFu64 ==> ((va - 4096u64) as u64 >> 30u64) & 511u64 == (va >> 30u64) & 511u64,
        m <= 0x1F_FFFFu64 ==> ((va - 4096u64) as u64 >> 21u64) & 511u64 == (va >> 21u64) & 511u64,
{
}

proof fn lemma_masks_nest(x: u64)
    by (bit_vector)
    ensures
        x & 0x7F_FFFF_FFFFu64 == 0 ==> x & 0x3FFF_FFFFu64 == 0,
        x & 0x3FFF_FFFFu64 == 0 ==> x & 0x1F_FFFFu64 == 0,
        x & 0x1F_FFFFu64 == 0 ==> x & 0xFFFu64 == 0,
{
}

/// A byte whose walk reads the descriptor that the walk of `va` reads at
/// `k` shares `va`'s prefix up to `k`; and every byte with that prefix
/// reads it.
proof fn lemma_walk_prefix(
    m: Map<u64, Seq<u64>>,
    root: u64,
    vs: u64,
    total: u64,
    owner: Map<u64, (nat, u64)>,
    off_p: u64,
    off_v: u64,
    k: nat,
)
    requires
        range_tree(m, root, vs, total, owner),
        off_p < total,
        off_v < total,
        k <= 3,
        path_table(m, root, range_va(vs, off_v), k) is Some,
    ensures
        on_walk(
            m,
            root,
            range_va(vs, off_p),
            path_table(m, root, range_va(vs, off_v), k)->Some_0,
            pg_index_spec(range_va(vs, off_v), level_shift(k)),
        ) <==> same_prefix(range_va(vs, off_p), range_va(vs, off_v), k),
{
    let p = range_va(vs, off_p);
    let va = range_va(vs, off_v);
    let t = path_table(m, root, va, k)->Some_0;
    let i = pg_index_spec(va, level_shift(k));
    assert(path_table(m, root, va, 0) == Some(root));
    assert(path_table(m, root, p, 0) == Some(root));
    if k >= 1 {
        assert(path_table(m, root, va, k) == path_table(m, root, range_va(vs, off_v), k));
        assert(owner.contains_key(t) && owner[t].0 == k);
    }
    if same_prefix(p, va, k) {
        assert forall|j: nat| j < k implies #[trigger] pg_index_spec(va, level_shift(j)) == pg_index_spec(
            p,
            level_shift(j),
        ) by {
            if j == 0 {
            } else if j == 1 {
            } else {
            }
        }
        lemma_same_path(m, root, va, p, k);
        if k == 0 {
        } else if k == 1 {
        } else if k == 2 {
        } else {
        }
    }
    if on_walk(m, root, p, t, i) {
        if k == 0 {
            if path_table(m, root, p, 1) == Some(t) {
                assert(path_table(m, root, range_va(vs, off_p), 1) is Some);
            }
            if path_table(m, root, p, 2) == Some(t) {
                assert(path_table(m, root, range_va(vs, off_p), 2) is Some);
            }
            if path_table(m, root, p, 3) == Some(t) {
                assert(path_table(m, root, range_va(vs, off_p), 3) is Some);
            }
            assert(pg_index_spec(p, 39) == i);
        } else {
            assert(path_table(m, root, range_va(vs, off_v), k) is Some);
            let rep = owner[t].1;
            assert(same_prefix(va, rep, (k - 1) as nat));
            assert(path_table(m, root, p, 0) != Some(t));
            if path_table(m, root, p, 1) == Some(t) {
                assert(path_table(m, root, range_va(vs, off_p), 1) is Some);
                assert(k == 1);
            }
            if path_table(m, root, p, 2) == Some(t) {
                assert(path_table(m, root, range_va(vs, off_p), 2) is Some);
                assert(k == 2);
            }
            if path_table(m, root, p, 3) == Some(t) {
                assert(path_table(m, root, range_va(vs, off_p), 3) is Some);
                assert(k == 3);
            }
        }
    }
}

/// Adding a table at a fresh address leaves alone every walk whose
/// tables are all present.
proof fn lemma_insert_fresh_walk(m: Map<u64, Seq<u64>>, n: u64, s: Seq<u64>, root: u64, va: u64)
    requires
        !m.contains_key(n),
        m.contains_key(root),
        path_table(m, root, va, 1) is Some ==> m.contains_key(path_table(m, root, va, 1)->Some_0),
        path_table(m, root, va, 2) is Some ==> m.contains_key(path_table(m, root, va, 2)->Some_0),
        path_table(m, root, va, 3) is Some ==> m.contains_key(path_table(m, root, va, 3)->Some_0),
    ensures
        same_walk(m.insert(n, s), m, root, va),
{
    let m2 = m.insert(n, s);
    assert(m2[root] == m[root]);
    assert(path_table(m2, root, va, 0) == Some(root));
    assert(path_table(m, root, va, 0) == Some(root));
    assert(path_table(m2, root, va, 1) == path_table(m, root, va, 1));
    if path_table(m, root, va, 1) is Some {
        assert(m2[path_table(m, root, va, 1)->Some_0] == m[path_table(m, root, va, 1)->Some_0]);
    }
    assert(path_table(m2, root, va, 2) == path_table(m, root, va, 2));
    if path_table(m, root, va, 2) is Some {
        assert(m2[path_table(m, root, va, 2)->Some_0] == m[path_table(m, root, va, 2)->Some_0]);
    }
    assert(path_table(m2, root, va, 3) == path_table(m, root, va, 3));
    if path_table(m, root, va, 3) is Some {
        assert(m2[path_table(m, root, va, 3)->Some_0] == m[path_table(m, root, va, 3)->Some_0]);
    }
}

/// A range whose top-level descriptors are all empty is ready to map:
/// no byte has a walk below the root.
pub proof fn lemma_range_start(m: Map<u64, Seq<u64>>, root: u64, vs: u64, total: u64)
    requires
        root_slots_empty(m, root, vs, total),
        tables_wf(m),
    ensures
        range_tree(m, root, vs, total, Map::empty()),
        range_open(m, root, vs, total, 0),
{
    assert forall|off: u64| off < total implies path_table(m, root, #[trigger] range_va(vs, off), 1) is None by {
        assert(!desc_valid(m[root][pg_index_spec(range_va(vs, off), 39)]));
        assert(path_table(m, root, range_va(vs, off), 0) == Some(root));
    }
    assert forall|off: u64, l: nat|
        off < total && 1 <= l <= 3 implies #[trigger] path_table(m, root, range_va(vs, off), l) is None by {
        assert(path_table(m, root, range_va(vs, off), 1) is None);
        assert(path_table(m, root, range_va(vs, off), 2) is None);
        assert(path_table(m, root, range_va(vs, off), 3) is None);
    }
    assert forall|off: u64| 0 <= off < total implies {
        &&& walk_tables_held(m, root, range_va(vs, off))
        &&& translate_spec(m, root, #[trigger] range_va(vs, off)) is None
    } by {
        assert(path_table(m, root, range_va(vs, off), 1) is None);
        assert(path_table(m, root, range_va(vs, off), 2) is None);
        assert(path_table(m, root, range_va(vs, off), 3) is None);
    }
}

/// Addresses that share a prefix up to `k` take the same walk down to
/// level `k + 1` and read the same descriptors down to level `k`.
proof fn lemma_prefix_paths(m: Map<u64, Seq<u64>>, root: u64, a: u64, b: u64, k: nat)
    requires
        same_prefix(a, b, k),
        k <= 3,
    ensures
        forall|j: nat| j <= k + 1 ==> #[trigger] path_table(m, root, b, j) == path_table(m, root, a, j),
        forall|j: nat| j <= k ==> #[trigger] path_entry(m, root, b, j) == path_entry(m, root, a, j),
{
    assert forall|j: nat| j <= k + 1 implies #[trigger] path_table(m, root, b, j) == path_table(m, root, a, j) by {
        assert forall|i: nat| i < j implies #[trigger] pg_index_spec(a, level_shift(i)) == pg_index_spec(
            b,
            level_shift(i),
        ) by {
            if i == 0 {
            } else if i == 1 {
            } else if i == 2 {
            } else {
            }
        }
        lemma_same_path(m, root, a, b, j);
    }
    assert forall|j: nat| j <= k implies #[trigger] path_entry(m, root, b, j) == path_entry(m, root, a, j) by {
        assert(path_table(m, root, b, j) == path_table(m, root, a, j));
        if j == 0 {
        } else if j == 1 {
        } else if j == 2 {
        } else {
        }
    }
}

/// Writing the descriptor that the walk for `va` reads at level `k`,
/// where no higher level of that walk goes through the same table:
/// the walk down to `k` stays, and continues from the new descriptor.
proof fn lemma_write_on_walk(m: Map<u64, Seq<u64>>, root: u64, va: u64, k: nat, v: u64)
    requires
        tables_wf(m),
        k <= 3,
        path_table(m, root, va, k) is Some,
        m.contains_key(path_table(m, root, va, k)->Some_0),
        k >= 1 ==> root != path_table(m, root, va, k)->Some_0,
        k >= 2 ==> path_table(m, root, va, 1) != path_table(m, root, va, k),
        k >= 3 ==> path_table(m, root, va, 2) != path_table(m, root, va, k),
    ensures
        ({
            let m2 = write_slot(m, path_table(m, root, va, k)->Some_0, pg_index_spec(va, level_shift(k)), v);
            &&& forall|j: nat| j <= k ==> #[trigger] path_table(m2, root, va, j) == path_table(m, root, va, j)
            &&& forall|j: nat| j < k ==> #[trigger] path_entry(m2, root, va, j) == path_entry(m, root, va, j)
            &&& path_entry(m2, root, va, k) == Some(v)
            &&& path_table(m2, root, va, k + 1) == next_table_of(v, k == 0)
        }),
{
    let t = path_table(m, root, va, k)->Some_0;
    let i = pg_index_spec(va, level_shift(k));
    let m2 = write_slot(m, t, i, v);
    lemma_pg_index_bound(va, level_shift(k));
    assert(m2[t][i] == v);
    assert(path_table(m2, root, va, 0) == Some(root));
    assert(path_table(m, root, va, 0) == Some(root));
    if k >= 1 {
        assert(m2[root] == m[root]);
        assert(path_table(m2, root, va, 1) == path_table(m, root, va, 1));
    }
    if k >= 2 {
        let t1 = path_table(m, root, va, 1)->Some_0;
        assert(m2[t1] == m[t1]);
        assert(path_table(m2, root, va, 2) == path_table(m, root, va, 2));
    }
    if k >= 3 {
        let t2 = path_table(m, root, va, 2)->Some_0;
        assert(m2[t2] == m[t2]);
        assert(path_table(m2, root, va, 3) == path_table(m, root, va, 3));
    }
    assert forall|j: nat| j < k implies #[trigger] path_entry(m2, root, va, j) == path_entry(m, root, va, j) by {
        if j == 0 {
        } else if j == 1 {
        } else {
        }
    }
    assert forall|j: nat| j <= k implies #[trigger] path_table(m2, root, va, j) == path_table(m, root, va, j) by {
        if j == 0 {
        } else if j == 1 {
        } else if j == 2 {
        } else {
        }
    }
    assert(path_table(m2, root, va, k) == Some(t));
    assert(path_entry(m2, root, va, k) == Some(v));
}

/// The tables after linking a fresh empty table `n` into the descriptor
/// that the walk of `va` reads at level `l - 1`.
pub open spec fn linked(m: Map<u64, Seq<u64>>, root: u64, va: u64, l: nat, n: u64) -> Map<u64, Seq<u64>> {
    write_slot(
        m.insert(n, Seq::new(512, |i: int| 0u64)),
        path_table(m, root, va, (l - 1) as nat)->Some_0,
        pg_index_spec(va, level_shift((l - 1) as nat)),
        table_desc(n),
    )
}

/// The tables after writing `e` into the descriptor that the walk of
/// `va` reads at `level`.
pub open spec fn leafed(m: Map<u64, Seq<u64>>, root: u64, va: u64, level: nat, e: u64) -> Map<u64, Seq<u64>> {
    write_slot(m, path_table(m, root, va, level)->Some_0, pg_index_spec(va, level_shift(level)), e)
}

proof fn lemma_link_byte(
    m: Map<u64, Seq<u64>>,
    root: u64,
    vs: u64,
    total: u64,
    owner: Map<u64, (nat, u64)>,
    done: u64,
    l: nat,
    n: u64,
    off: u64,
)
    requires
        range_tree(m, root, vs, total, owner),
        range_open(m, root, vs, total, done),
        done < total,
        off < total,
        1 <= l <= 3,
        path_table(m, root, range_va(vs, done), (l - 1) as nat) is Some,
        !desc_valid(
            slot_entry(m, path_table(m, root, range_va(vs, done), (l - 1) as nat)->Some_0, range_va(vs, done), (l - 1) as nat),
        ),
        !m.contains_key(n),
        addr_encodable(n),
    ensures
        ({
            let va = range_va(vs, done);
            let p = range_va(vs, off);
            let m2 = linked(m, root, va, l, n);
            &&& m2.contains_key(n)
            &&& forall|j: nat|
                j <= 3 ==> #[trigger] path_table(m2, root, p, j) == if same_prefix(p, va, (l - 1) as nat) && j == l {
                    Some(n)
                } else {
                    path_table(m, root, p, j)
                }
            &&& same_prefix(p, va, (l - 1) as nat) ==> walk_tables_held(m2, root, p) && translate_spec(m2, root, p) is None
            &&& !same_prefix(p, va, (l - 1) as nat) ==> same_walk(m2, m, root, p)
        }),
{
    let va = range_va(vs, done);
    let p = range_va(vs, off);
    let k = (l - 1) as nat;
    let t = path_table(m, root, va, k)->Some_0;
    let i = pg_index_spec(va, level_shift(k));
    let z = Seq::new(512, |j: int| 0u64);
    let m1 = m.insert(n, z);
    let m2 = write_slot(m1, t, i, table_desc(n));
    assert(m2 == linked(m, root, va, l, n));
    lemma_pg_index_bound(va, level_shift(k));
    lemma_pg_index_bound(va, level_shift(l));
    lemma_pg_index_bound(p, level_shift(l));
    lemma_table_desc(n);
    lemma_zero_invalid();
    assert(range_va(vs, done) == va);
    assert(walk_tables_held(m, root, va) && translate_spec(m, root, va) is None);
    assert(path_table(m, root, va, 0) == Some(root));
    if k >= 1 {
        assert(path_table(m, root, range_va(vs, done), k) is Some);
        assert(owner.contains_key(t) && owner[t].0 == k);
    }
    if k >= 2 {
        assert(path_table(m, root, range_va(vs, done), 1) is Some);
    }
    assert(m.contains_key(t));
    assert(t != n);
    lemma_insert_fresh_walk(m, n, z, root, va);
    assert(tables_wf(m1));
    assert(path_table(m1, root, va, 0) == Some(root));
    lemma_write_on_walk(m1, root, va, k, table_desc(n));
    assert(path_table(m2, root, va, l) == Some(n));
    assert(m2[n] == z);
    assert(m2.contains_key(n));
    if l <= 2 {
        assert(path_table(m2, root, va, l + 1) is None);
    }
    assert(path_table(m, root, va, l) is None);
    if same_prefix(p, va, k) {
        lemma_prefix_paths(m2, root, va, p, k);
        lemma_prefix_paths(m, root, va, p, k);
        assert(path_table(m2, root, p, l) == Some(n));
        assert(path_table(m, root, p, l) is None);
        if l <= 2 {
            assert(path_entry(m2, root, p, l) == Some(0u64));
            assert(path_table(m2, root, p, l + 1) is None);
        }
        assert forall|j: nat| j <= 3 implies #[trigger] path_table(m2, root, p, j) == if j == l {
            Some(n)
        } else {
            path_table(m, root, p, j)
        } by {
            if j < l {
                assert(path_table(m2, root, p, j) == path_table(m2, root, va, j));
                assert(path_table(m, root, p, j) == path_table(m, root, va, j));
            } else if j > l {
                if j == l + 1 {
                } else {
                    assert(path_table(m2, root, p, (l + 1) as nat) is None);
                    assert(path_table(m, root, p, (l + 1) as nat) is None);
                }
            }
        }
        assert(walk_tables_held(m2, root, p));
        assert forall|j: nat| 1 <= j <= 3 implies !#[trigger] leaf_at(m2, root, p, j) by {
            if j < k {
                assert(path_entry(m2, root, p, j) == path_entry(m2, root, va, j));
                assert(path_entry(m2, root, va, j) == path_entry(m1, root, va, j));
                assert(path_entry(m1, root, va, j) == path_entry(m, root, va, j));
                assert(!leaf_at(m, root, va, j));
            } else if j == k {
                assert(path_entry(m2, root, p, j) == path_entry(m2, root, va, j));
            } else if j == l {
                assert(path_entry(m2, root, p, l) == Some(0u64));
            } else {
                assert(path_table(m2, root, p, j) is None);
            }
        }
        assert(!leaf_at(m2, root, p, 1) && !leaf_at(m2, root, p, 2) && !leaf_at(m2, root, p, 3));
    } else {
        lemma_walk_prefix(m, root, vs, total, owner, off, done, k);
        if path_table(m, root, p, 1) is Some {
            assert(path_table(m, root, range_va(vs, off), 1) is Some);
        }
        if path_table(m, root, p, 2) is Some {
            assert(path_table(m, root, range_va(vs, off), 2) is Some);
        }
        if path_table(m, root, p, 3) is Some {
            assert(path_table(m, root, range_va(vs, off), 3) is Some);
        }
        lemma_insert_fresh_walk(m, n, z, root, p);
        lemma_same_walk_translate(m1, m, root, p);
        lemma_write_off_walk(m1, t, i, table_desc(n), root, p);
        assert(path_table(m2, root, p, 0) == path_table(m, root, p, 0));
    }
}

/// Linking a fresh table for the walk of byte `done` keeps the range a
/// tree (the new table is reached only by the bytes that share the
/// prefix) and leaves the bytes from `done` on unmapped.
pub proof fn lemma_link_step(
    m: Map<u64, Seq<u64>>,
    root: u64,
    vs: u64,
    total: u64,
    owner: Map<u64, (nat, u64)>,
    done: u64,
    l: nat,
    n: u64,
)
    requires
        range_tree(m, root, vs, total, owner),
        range_open(m, root, vs, total, done),
        done < total,
        vs + total <= u64::MAX,
        total <= 0x8000_0000_0000,
        1 <= l <= 3,
        path_table(m, root, range_va(vs, done), (l - 1) as nat) is Some,
        !desc_valid(
            slot_entry(m, path_table(m, root, range_va(vs, done), (l - 1) as nat)->Some_0, range_va(vs, done), (l - 1) as nat),
        ),
        !m.contains_key(n),
        addr_encodable(n),
    ensures
        range_tree(linked(m, root, range_va(vs, done), l, n), root, vs, total, owner.insert(n, (l, range_va(vs, done)))),
        range_open(linked(m, root, range_va(vs, done), l, n), root, vs, total, done),
{
    let va = range_va(vs, done);
    let m2 = linked(m, root, va, l, n);
    let owner2 = owner.insert(n, (l, va));
    let k = (l - 1) as nat;
    let t = path_table(m, root, va, k)->Some_0;
    lemma_link_byte(m, root, vs, total, owner, done, l, n, done);
    assert(range_va(vs, done) == va);
    assert(walk_tables_held(m, root, va));
    assert(path_table(m, root, va, 0) == Some(root));
    if k >= 1 {
        assert(path_table(m, root, range_va(vs, done), k) is Some);
    }
    assert(m.contains_key(t));
    assert(tables_wf(m2)) by {
        let z = Seq::new(512, |j: int| 0u64);
        lemma_pg_index_bound(va, level_shift(k));
        assert(t != n);
        assert(m[t].len() == 512);
        assert(m2[t] == m[t].update(pg_index_spec(va, level_shift(k)), table_desc(n)));
        assert(m2[n] == z);
        assert forall|x: u64| m2.contains_key(x) implies #[trigger] m2[x].len() == 512 by {
            if x != t && x != n {
                assert(m2[x] == m[x]);
            }
        }
    }
    assert(owner2.dom().subset_of(m2.dom()));
    assert forall|off: u64, j: nat|
        #![trigger path_table(m2, root, range_va(vs, off), j)]
        off < total && 1 <= j <= 3 && path_table(m2, root, range_va(vs, off), j) is Some implies {
            let tt = path_table(m2, root, range_va(vs, off), j)->Some_0;
            &&& owner2.contains_key(tt)
            &&& owner2[tt].0 == j
            &&& same_prefix(range_va(vs, off), owner2[tt].1, (j - 1) as nat)
        } by {
        lemma_link_byte(m, root, vs, total, owner, done, l, n, off);
        let p = range_va(vs, off);
        if !(same_prefix(p, va, k) && j == l) {
            assert(path_table(m2, root, p, j) == path_table(m, root, p, j));
            assert(path_table(m, root, range_va(vs, off), j) is Some);
            let tt = path_table(m, root, p, j)->Some_0;
            assert(owner.contains_key(tt));
            assert(tt != n);
        }
    }
    assert(range_tree(m2, root, vs, total, owner2));
    assert forall|off: u64|
        #![trigger range_va(vs, off)]
        done <= off < total implies {
            &&& walk_tables_held(m2, root, range_va(vs, off))
            &&& translate_spec(m2, root, range_va(vs, off)) is None
        } by {
        lemma_link_byte(m, root, vs, total, owner, done, l, n, off);
        let p = range_va(vs, off);
        assert(walk_tables_held(m, root, p) && translate_spec(m, root, p) is None);
        if !same_prefix(p, va, k) {
            lemma_same_walk_translate(m2, m, root, p);
        }
    }
}

/// Placing the block for the bytes from `done` (aligned to its size)
/// keeps the range a tree and leaves the bytes after the block unmapped.
pub proof fn lemma_leaf_step(
    m: Map<u64, Seq<u64>>,
    root: u64,
    vs: u64,
    total: u64,
    owner: Map<u64, (nat, u64)>,
    done: u64,
    lv: nat,
    e: u64,
)
    requires
        range_tree(m, root, vs, total, owner),
        range_open(m, root, vs, total, done),
        1 <= lv <= 3,
        done + block_size(lv) <= total,
        vs + total <= u64::MAX,
        total <= 0x8000_0000_0000,
        path_table(m, root, range_va(vs, done), lv) is Some,
        range_va(vs, done) & block_mask(lv) == 0,
        !desc_valid(slot_entry(m, path_table(m, root, range_va(vs, done), lv)->Some_0, range_va(vs, done), lv)),
        desc_valid(e),
        lv < 3 ==> desc_huge(e),
    ensures
        range_tree(leafed(m, root, range_va(vs, done), lv, e), root, vs, total, owner),
        range_open(
            leafed(m, root, range_va(vs, done), lv, e),
            root,
            vs,
            total,
            (done + block_size(lv)) as u64),
        forall|off: u64, j: nat|
            off < total && j <= 3 ==> #[trigger] path_table(leafed(m, root, range_va(vs, done), lv, e), root, range_va(vs, off), j)
                == path_table(m, root, range_va(vs, off), j),
{
    let va = range_va(vs, done);
    let t = path_table(m, root, va, lv)->Some_0;
    let i = pg_index_spec(va, level_shift(lv));
    let m2 = leafed(m, root, va, lv, e);
    lemma_pg_index_bound(va, level_shift(lv));
    assert(range_va(vs, done) == va);
    assert(walk_tables_held(m, root, va) && translate_spec(m, root, va) is None);
    assert(path_table(m, root, va, 0) == Some(root));
    assert(path_table(m, root, range_va(vs, done), lv) is Some);
    assert(owner.contains_key(t) && owner[t].0 == lv);
    if lv >= 2 {
        assert(path_table(m, root, range_va(vs, done), 1) is Some);
    }
    if lv >= 3 {
        assert(path_table(m, root, range_va(vs, done), 2) is Some);
    }
    assert(m.contains_key(t));
    lemma_write_on_walk(m, root, va, lv, e);
    assert(tables_wf(m2)) by {
        assert forall|x: u64| m2.contains_key(x) implies #[trigger] m2[x].len() == 512 by {
            if x != t {
                assert(m2[x] == m[x]);
            }
        }
    }
    assert forall|off: u64| off < total implies #[trigger] range_va(vs, off) == range_va(vs, off) && forall|j: nat|
        j <= 3 ==> #[trigger] path_table(m2, root, range_va(vs, off), j) == path_table(m, root, range_va(vs, off), j) by {
        let p = range_va(vs, off);
        if same_prefix(p, va, lv) {
            lemma_prefix_paths(m2, root, va, p, lv);
            lemma_prefix_paths(m, root, va, p, lv);
            if lv < 3 {
                assert(path_table(m2, root, va, lv + 1) is None);
                assert(path_table(m, root, va, lv + 1) is None);
                assert(path_table(m2, root, p, lv + 1) is None);
                assert(path_table(m, root, p, lv + 1) is None);
            }
            assert forall|j: nat| j <= 3 implies #[trigger] path_table(m2, root, p, j) == path_table(m, root, p, j) by {
                if j <= lv + 1 {
                    assert(path_table(m2, root, p, j) == path_table(m2, root, va, j));
                    assert(path_table(m, root, p, j) == path_table(m, root, va, j));
                } else {
                    assert(path_table(m2, root, p, (lv + 2) as nat) is None);
                    assert(path_table(m, root, p, (lv + 2) as nat) is None);
                }
            }
        } else {
            lemma_walk_prefix(m, root, vs, total, owner, off, done, lv);
            lemma_write_off_walk(m, t, i, e, root, p);
            assert(path_table(m2, root, p, 0) == path_table(m, root, p, 0));
        }
    }
    assert forall|off: u64, j: nat|
        #![trigger path_table(m2, root, range_va(vs, off), j)]
        off < total && 1 <= j <= 3 && path_table(m2, root, range_va(vs, off), j) is Some implies {
            let tt = path_table(m2, root, range_va(vs, off), j)->Some_0;
            &&& owner.contains_key(tt)
            &&& owner[tt].0 == j
            &&& same_prefix(range_va(vs, off), owner[tt].1, (j - 1) as nat)
        } by {
        assert(path_table(m2, root, range_va(vs, off), j) == path_table(m, root, range_va(vs, off), j));
    }
    assert forall|off: u64, j: nat| off < total && j <= 3 implies #[trigger] path_table(m2, root, range_va(vs, off), j)
        == path_table(m, root, range_va(vs, off), j) by {
        assert(range_va(vs, off) == range_va(vs, off));
    }
    assert(range_tree(m2, root, vs, total, owner));
    let s = block_size(lv);
    assert forall|off: u64|
        #![trigger range_va(vs, off)]
        done + s <= off < total implies {
            &&& walk_tables_held(m2, root, range_va(vs, off))
            &&& translate_spec(m2, root, range_va(vs, off)) is None
        } by {
        let p = range_va(vs, off);
        assert(walk_tables_held(m, root, p) && translate_spec(m, root, p) is None);
        lemma_past_block(va, p, block_mask(lv));
        assert(!same_prefix(p, va, lv));
        lemma_walk_prefix(m, root, vs, total, owner, off, done, lv);
        lemma_write_off_walk(m, t, i, e, root, p);
        lemma_same_walk_translate(m2, m, root, p);
    }
}

/// Every top-level descriptor where `m` differs from `m0` is the one of
/// some byte of the range.
pub open spec fn root_row_within(m0: Map<u64, Seq<u64>>, m: Map<u64, Seq<u64>>, root: u64, vs: u64, total: u64) -> bool {
    forall|i: int|
        0 <= i < 512 && #[trigger] m[root][i] != m0[root][i] ==> exists|off: u64|
            off < total && #[trigger] pg_index_spec(range_va(vs, off), 39) == i
}

/// `lemma_link_step`, and the top-level descriptors it changes belong to
/// the range.
pub proof fn lemma_multi_link(
    m0: Map<u64, Seq<u64>>,
    m: Map<u64, Seq<u64>>,
    root: u64,
    vs: u64,
    total: u64,
    owner0: Map<u64, (nat, u64)>,
    owner: Map<u64, (nat, u64)>,
    done: u64,
    l: nat,
    n: u64,
)
    requires
        range_tree(m, root, vs, total, owner),
        range_open(m, root, vs, total, done),
        root_row_within(m0, m, root, vs, total),
        owner_history(m0, m, root, owner0, owner),
        done < total,
        vs + total <= u64::MAX,
        total <= 0x8000_0000_0000,
        1 <= l <= 3,
        path_table(m, root, range_va(vs, done), (l - 1) as nat) is Some,
        !desc_valid(
            slot_entry(m, path_table(m, root, range_va(vs, done), (l - 1) as nat)->Some_0, range_va(vs, done), (l - 1) as nat),
        ),
        !m.contains_key(n),
        addr_encodable(n),
    ensures
        range_tree(linked(m, root, range_va(vs, done), l, n), root, vs, total, owner.insert(n, (l, range_va(vs, done)))),
        range_open(linked(m, root, range_va(vs, done), l, n), root, vs, total, done),
        root_row_within(m0, linked(m, root, range_va(vs, done), l, n), root, vs, total),
        owner_history(m0, linked(m, root, range_va(vs, done), l, n), root, owner0, owner.insert(n, (l, range_va(vs, done)))),
        forall|x: u64|
            m.contains_key(x) && x != root && !owner.contains_key(x) ==> #[trigger] linked(
                m,
                root,
                range_va(vs, done),
                l,
                n,
            ).contains_key(x) && linked(m, root, range_va(vs, done), l, n)[x] == m[x],
{
    lemma_link_step(m, root, vs, total, owner, done, l, n);
    let va = range_va(vs, done);
    let k = (l - 1) as nat;
    let t = path_table(m, root, va, k)->Some_0;
    let m2 = linked(m, root, va, l, n);
    assert(range_va(vs, done) == va);
    assert(path_table(m, root, va, 0) == Some(root));
    assert(m[root].len() == 512);
    assert(n != root);
    if k >= 1 {
        assert(path_table(m, root, range_va(vs, done), k) is Some);
        assert(t != root);
        assert(m2[root] == m[root]);
    } else {
        assert(t == root);
        lemma_pg_index_bound(va, 39);
        assert(m2[root] == m[root].update(pg_index_spec(va, 39), table_desc(n)));
    }
    assert forall|x: u64| m.contains_key(x) && x != root && !owner.contains_key(x) implies #[trigger] m2.contains_key(x)
        && m2[x] == m[x] by {
        if k >= 1 {
            assert(owner.contains_key(t));
        }
        assert(x != t);
    }
    let owner2 = owner.insert(n, (l, va));
    assert(!owner.contains_key(n));
    assert(!m0.contains_key(n)) by {
        if m0.contains_key(n) {
            assert(m.contains_key(n));
        }
    }
    assert forall|x: u64| m0.contains_key(x) && x != root && !owner2.contains_key(x) implies m2.contains_key(x)
        && #[trigger] m2[x] == m0[x] by {
        assert(m.contains_key(x) && m[x] == m0[x]);
        assert(m2.contains_key(x) && m2[x] == m[x]);
    }
    assert(owner0.submap_of(owner2));
    assert forall|i: int| 0 <= i < 512 && #[trigger] m2[root][i] != m0[root][i] implies exists|off: u64|
        off < total && #[trigger] pg_index_spec(range_va(vs, off), 39) == i by {
        if k == 0 && i == pg_index_spec(va, 39) {
            assert(pg_index_spec(range_va(vs, done), 39) == i);
        } else {
            assert(m2[root][i] == m[root][i]);
        }
    }
}

/// `lemma_leaf_step`, and the top-level descriptors stay as they were.
pub proof fn lemma_multi_leaf(
    m0: Map<u64, Seq<u64>>,
    m: Map<u64, Seq<u64>>,
    root: u64,
    vs: u64,
    total: u64,
    owner0: Map<u64, (nat, u64)>,
    owner: Map<u64, (nat, u64)>,
    done: u64,
    lv: nat,
    e: u64,
)
    requires
        range_tree(m, root, vs, total, owner),
        range_open(m, root, vs, total, done),
        root_row_within(m0, m, root, vs, total),
        owner_history(m0, m, root, owner0, owner),
        1 <= lv <= 3,
        done + block_size(lv) <= total,
        vs + total <= u64::MAX,
        total <= 0x8000_0000_0000,
        path_table(m, root, range_va(vs, done), lv) is Some,
        range_va(vs, done) & block_mask(lv) == 0,
        !desc_valid(slot_entry(m, path_table(m, root, range_va(vs, done), lv)->Some_0, range_va(vs, done), lv)),
        desc_valid(e),
        lv < 3 ==> desc_huge(e),
    ensures
        range_tree(leafed(m, root, range_va(vs, done), lv, e), root, vs, total, owner),
        range_open(
            leafed(m, root, range_va(vs, done), lv, e),
            root,
            vs,
            total,
            (done + block_size(lv)) as u64),
        root_row_within(m0, leafed(m, root, range_va(vs, done), lv, e), root, vs, total),
        owner_history(m0, leafed(m, root, range_va(vs, done), lv, e), root, owner0, owner),
        forall|x: u64|
            m.contains_key(x) && x != root && !owner.contains_key(x) ==> #[trigger] leafed(
                m,
                root,
                range_va(vs, done),
                lv,
                e,
            ).contains_key(x) && leafed(m, root, range_va(vs, done), lv, e)[x] == m[x],
{
    lemma_leaf_step(m, root, vs, total, owner, done, lv, e);
    let va = range_va(vs, done);
    let t = path_table(m, root, va, lv)->Some_0;
    let m2 = leafed(m, root, va, lv, e);
    assert(range_va(vs, done) == va);
    assert(path_table(m, root, range_va(vs, done), lv) is Some);
    assert(t != root);
    assert(owner.contains_key(t));
    assert(m2[root] == m[root]);
    assert forall|x: u64| m0.contains_key(x) && x != root && !owner.contains_key(x) implies m2.contains_key(x)
        && #[trigger] m2[x] == m0[x] by {
        assert(m.contains_key(x) && m[x] == m0[x]);
        assert(x != t);
    }
}

/// When the walk for byte `done` leaves, at level `l - 1`, a region that
/// the previous page shares with it, the previous page's mapping made
/// the table of level `l` already (the range is mapped in order).
pub proof fn lemma_table_shared(m: Map<u64, Seq<u64>>, root: u64, va: u64, l: nat, lq: nat)
    requires
        1 <= l <= 3,
        1 <= lq <= 3,
        va & 0xFFFu64 == 0,
        va & span_mask((l - 1) as nat) != 0,
        leaf_at(m, root, (va - 4096) as u64, lq),
        translate_spec(m, root, va) is None,
    ensures
        path_table(m, root, va, l) is Some,
{
    let q = (va - 4096) as u64;
    let k = (l - 1) as nat;
    lemma_masks_nest(va);
    if lq >= l {
        lemma_prev_page(va, span_mask(k));
        assert(same_prefix(q, va, k));
        lemma_prefix_paths(m, root, q, va, k);
        assert(path_table(m, root, q, lq) is Some);
        if lq >= 2 {
            assert(path_table(m, root, q, 1) is Some);
        }
        if lq >= 3 {
            assert(path_table(m, root, q, 2) is Some);
        }
        assert(path_table(m, root, va, l) == path_table(m, root, q, l));
    } else {
        lemma_prev_page(va, block_mask(lq));
        assert(same_prefix(q, va, lq));
        lemma_prefix_paths(m, root, q, va, lq);
        assert(path_entry(m, root, va, lq) == path_entry(m, root, q, lq));
        assert(leaf_at(m, root, va, lq));
        assert(false);
    }
}

/// `c1` can create `k + b` tables wherever `c0` could create `k + a`.
pub open spec fn budget_from<A: PageAllocator, M: PageTableMapper>(
    c0: MappingContext<A, M>,
    c1: MappingContext<A, M>,
    a: nat,
    b: nat,
) -> bool {
    forall|k: nat| #[trigger] c0.can_extend(k + a) ==> c1.can_extend(k + b)
}

pub proof fn lemma_can_extend_less<A: PageAllocator, M: PageTableMapper>(c: MappingContext<A, M>, a: nat, b: nat)
    requires
        c.can_extend(a),
        b <= a,
    ensures
        c.can_extend(b),
{
}

/// A step that leaves the allocator, the tables held and the mapper's
/// capacity alone.
pub proof fn lemma_budget_keep<A: PageAllocator, M: PageTableMapper>(c0: MappingContext<A, M>, c1: MappingContext<A, M>)
    requires
        c1.allocator == c0.allocator,
        c1.mapper.tables().dom() == c0.mapper.tables().dom(),
        forall|t: u64| #[trigger] c1.mapper.can_add_table(t) == c0.mapper.can_add_table(t),
    ensures
        budget_from(c0, c1, 0, 0),
{
    assert forall|k: nat| #[trigger] c0.can_extend(k + 0) implies c1.can_extend(k + 0) by {
        assert forall|t: u64| !c1.mapper.tables().contains_key(t) implies #[trigger] c1.mapper.can_add_table(t) by {
            assert(!c0.mapper.tables().contains_key(t));
        }
    }
}

/// A step that takes one frame from the allocator as a new table `n`.
pub proof fn lemma_budget_alloc<A: PageAllocator, M: PageTableMapper>(
    c0: MappingContext<A, M>,
    c1: MappingContext<A, M>,
    n: u64,
)
    requires
        c1.allocator.frames_left() + 1 == c0.allocator.frames_left(),
        c1.mapper.tables().dom() == c0.mapper.tables().dom().insert(n),
        forall|t: u64| t != n ==> #[trigger] c1.mapper.can_add_table(t) == c0.mapper.can_add_table(t),
    ensures
        budget_from(c0, c1, 1, 0),
{
    assert forall|k: nat| #[trigger] c0.can_extend(k + 1) implies c1.can_extend(k + 0) by {
        assert forall|t: u64| !c1.mapper.tables().contains_key(t) implies #[trigger] c1.mapper.can_add_table(t) by {
            assert(t != n);
            assert(!c0.mapper.tables().contains_key(t));
            assert(c0.mapper.can_add_table(t));
        }
    }
}

pub proof fn lemma_budget_chain<A: PageAllocator, M: PageTableMapper>(
    c0: MappingContext<A, M>,
    c1: MappingContext<A, M>,
    c2: MappingContext<A, M>,
    a: nat,
    d: nat,
)
    requires
        budget_from(c0, c1, a, 0),
        budget_from(c1, c2, d, 0),
    ensures
        budget_from(c0, c2, a + d, 0),
{
    assert forall|k: nat| #[trigger] c0.can_extend(k + (a + d)) implies c2.can_extend(k + 0) by {
        assert(c0.can_extend((k + d) + a));
        assert(c1.can_extend((k + d) + 0));
        assert(c1.can_extend(k + d));
    }
}

/// The tables a block creates come out of what its part of the budget
/// allows; the rest carries over.
pub proof fn lemma_budget_close<A: PageAllocator, M: PageTableMapper>(
    c0: MappingContext<A, M>,
    cs: MappingContext<A, M>,
    c: MappingContext<A, M>,
    total: nat,
    new: nat,
    rest: nat,
    spent: nat,
)
    requires
        budget_from(c0, cs, total, new + rest),
        budget_from(cs, c, spent, 0),
        spent <= new,
    ensures
        budget_from(c0, c, total, rest),
{
    assert forall|k: nat| #[trigger] c0.can_extend(k + total) implies c.can_extend(k + rest) by {
        assert(cs.can_extend(k + (new + rest)));
        let x = (k + rest + new - spent) as nat;
        assert(cs.can_extend(x + spent));
        assert(c.can_extend(x + 0));
        lemma_can_extend_less(c, x, k + rest);
    }
}

/// Room for one more table while a block still has a part of its budget.
pub proof fn lemma_budget_room<A: PageAllocator, M: PageTableMapper>(
    c0: MappingContext<A, M>,
    cs: MappingContext<A, M>,
    c: MappingContext<A, M>,
    total: nat,
    new: nat,
    rest: nat,
    spent: nat,
)
    requires
        budget_from(c0, cs, total, new + rest),
        budget_from(cs, c, spent, 0),
        c0.can_extend(total),
        spent + 1 <= new,
    ensures
        c.can_extend(1),
{
    assert(c0.can_extend(0 + total));
    assert(cs.can_extend(0 + (new + rest)));
    let x = (new + rest - spent) as nat;
    assert(cs.can_extend(x + spent));
    assert(c.can_extend(x + 0));
    lemma_can_extend_less(c, x, 1);
}

/// The range of `attrs` can be mapped below `root` into empty top-level
/// slots: it meets `map_range`'s alignment and size conditions, spans
/// at most 2^47 bytes, and the root has no descriptor for any of its
/// bytes yet.
pub open spec fn fresh_map_range(m: Map<u64, Seq<u64>>, root: u64, attrs: MapAttributes) -> bool {
    &&& map_law_applies(attrs)
    &&& attrs.phys.size == attrs.virt.size
    &&& attrs.virt.size <= 0x8000_0000_0000
    &&& root_slots_empty(m, root, attrs.virt.start, attrs.virt.size)
}

/// The range of `attrs` is the part from byte `base` of a larger range
/// (`uvs`, `utotal` bytes) that is being mapped in order below `root`:
/// the tables `owner` made so far form a tree, and nothing from `base`
/// on is mapped yet.
pub open spec fn range_ready_within(
    m: Map<u64, Seq<u64>>,
    root: u64,
    attrs: MapAttributes,
    uvs: u64,
    utotal: u64,
    base: u64,
    owner: Map<u64, (nat, u64)>,
) -> bool {
    &&& map_law_applies(attrs)
    &&& attrs.phys.size == attrs.virt.size
    &&& utotal <= 0x8000_0000_0000
    &&& uvs + utotal <= u64::MAX
    &&& attrs.virt.start == uvs + base
    &&& base + attrs.virt.size <= utotal
    &&& range_tree(m, root, uvs, utotal, owner)
    &&& range_open(m, root, uvs, utotal, base)
    &&& blocks_free(m, root, attrs.virt.start, attrs.phys.start, attrs.virt.size, 0)
}

/// After mapping up to byte `upto` of the larger range, the tables still
/// form a tree, nothing from `upto` on is mapped, and the only tables
/// that changed are the root and tables made for the range, which
/// did not exist before.
pub open spec fn range_grown(
    m0: Map<u64, Seq<u64>>,
    m: Map<u64, Seq<u64>>,
    root: u64,
    uvs: u64,
    utotal: u64,
    upto: u64,
    owner0: Map<u64, (nat, u64)>,
) -> bool {
    exists|owner: Map<u64, (nat, u64)>|
        {
            &&& #[trigger] range_tree(m, root, uvs, utotal, owner)
            &&& range_open(m, root, uvs, utotal, upto)
            &&& owner_history(m0, m, root, owner0, owner)
        }
}

/// Going from `m0` to `m`, the tables `owner0` made for the range grew
/// to `owner` by tables that did not exist in `m0`, and every other
/// table but the root kept its descriptors.
pub open spec fn owner_history(
    m0: Map<u64, Seq<u64>>,
    m: Map<u64, Seq<u64>>,
    root: u64,
    owner0: Map<u64, (nat, u64)>,
    owner: Map<u64, (nat, u64)>,
) -> bool {
    &&& owner0.submap_of(owner)
    &&& forall|t: u64| owner.contains_key(t) && !owner0.contains_key(t) ==> !m0.contains_key(t)
    &&& forall|t: u64|
        #![trigger m[t]]
        #![trigger m0.contains_key(t)]
        m0.contains_key(t) && t != root && !owner.contains_key(t) ==> m.contains_key(t) && m[t] == m0[t]
}

/// The tables `map_range` creates for a range that `fresh_map_range`
/// admits.
pub open spec fn range_cost(attrs: MapAttributes) -> nat {
    map_cost(attrs.virt.start, attrs.phys.start, attrs.virt.size, true)
}

/// The first page of the range is already mapped.
pub open spec fn first_page_mapped(m: Map<u64, Seq<u64>>, root: u64, attrs: MapAttributes) -> bool {
    &&& map_law_applies(attrs)
    &&& attrs.phys.size == attrs.virt.size
    &&& attrs.virt.size > 0
    &&& translate_spec(m, root, attrs.virt.start) is Some
}

proof fn lemma_next_page_in_region(va: u64)
    by (bit_vector)
    requires
        va & 0xFFFu64 == 0,
        va & 0x1F_FFFFu64 != 0,
        va <= 0xFFFF_FFFF_FFFF_EFFFu64,
    ensures
        va & 0x1F_FFFFu64 <= 0x1F_F000u64,
        va & 0x7F_FFFF_FFFFu64 != 0,
        va & 0x3FFF_FFFFu64 != 0,
        (va + 4096u64) as u64 & 0xFFFu64 == 0,
        va & 0x1F_FFFFu64 == 0x1F_F000u64 ==> (va + 4096u64) as u64 & 0x1F_FFFFu64 == 0,
        va & 0x1F_FFFFu64 != 0x1F_F000u64 ==> (va + 4096u64) as u64 & 0x1F_FFFFu64 == (va & 0x1F_FFFFu64) + 4096u64,
{
}

/// A block at an address that is not 2 MiB-aligned is a 4 KiB page.
pub proof fn lemma_small_block(va: u64, pa: u64, rem: u64)
    requires
        va & 0x1F_FFFFu64 != 0 || pa & 0x1F_FFFFu64 != 0 || rem < 0x20_0000,
    ensures
        block_level(va, pa, rem) == 3,
{
    let r = PhysMemoryRegion { start: pa, size: rem };
    lemma_block_shapes(1, r, va);
    lemma_block_shapes(2, r, va);
    lemma_masks_nest(va);
    lemma_masks_nest(pa);
}

/// From an address inside a 2 MiB region, the pages up to the end of the
/// region are 4 KiB blocks that need no table of their own: the cost of
/// the rest of the range is that of the part from the region's end.
pub proof fn lemma_cost_to_boundary(va: u64, pa: u64, rem: u64)
    requires
        va & 0xFFFu64 == 0,
        va & 0x1F_FFFFu64 != 0,
        rem % 4096 == 0,
        va + rem <= u64::MAX,
        pa + rem <= u64::MAX,
    ensures
        ({
            let d = (0x20_0000 - (va & 0x1F_FFFFu64)) as u64;
            map_cost(va, pa, rem, false) == if rem <= d {
                0
            } else {
                map_cost((va + d) as u64, (pa + d) as u64, (rem - d) as u64, false)
            }
        }),
    decreases rem,
{
    if rem > 0 {
        lemma_next_page_in_region(va);
        lemma_small_block(va, pa, rem);
        let d = (0x20_0000 - (va & 0x1F_FFFFu64)) as u64;
        assert(block_new_tables(va, 3, false) == 0);
        assert(block_size(3) == 4096);
        if rem > 4096 {
            assert(map_cost(va, pa, rem, false) == map_cost((va + 4096) as u64, (pa + 4096) as u64, (rem - 4096) as u64, false));
            if va & 0x1F_FFFFu64 != 0x1F_F000u64 {
                lemma_cost_to_boundary((va + 4096) as u64, (pa + 4096) as u64, (rem - 4096) as u64);
            }
        }
    }
}

/// Writing a descriptor of a table that is neither the root nor one made
/// for the range leaves the range's walks, and so its invariants, alone.
pub proof fn lemma_range_write_outside(
    m: Map<u64, Seq<u64>>,
    x: u64,
    i: int,
    v: u64,
    root: u64,
    vs: u64,
    total: u64,
    owner: Map<u64, (nat, u64)>,
    lo: u64,
)
    requires
        range_tree(m, root, vs, total, owner),
        range_open(m, root, vs, total, lo),
        m.contains_key(x),
        x != root,
        !owner.contains_key(x),
        0 <= i < 512,
    ensures
        range_tree(write_slot(m, x, i, v), root, vs, total, owner),
        range_open(write_slot(m, x, i, v), root, vs, total, lo),
{
    let m2 = write_slot(m, x, i, v);
    assert(m[x].len() == 512);
    assert(tables_wf(m2)) by {
        assert forall|t: u64| m2.contains_key(t) implies #[trigger] m2[t].len() == 512 by {
            if t != x {
                assert(m2[t] == m[t]);
            }
        }
    }
    assert forall|off: u64| off < total implies #[trigger] same_walk(m2, m, root, range_va(vs, off)) by {
        let p = range_va(vs, off);
        assert(path_table(m, root, p, 0) == Some(root));
        if path_table(m, root, p, 1) == Some(x) {
            assert(path_table(m, root, range_va(vs, off), 1) is Some);
        }
        if path_table(m, root, p, 2) == Some(x) {
            assert(path_table(m, root, range_va(vs, off), 2) is Some);
        }
        if path_table(m, root, p, 3) == Some(x) {
            assert(path_table(m, root, range_va(vs, off), 3) is Some);
        }
        assert(!on_walk(m, root, p, x, i));
        lemma_write_off_walk(m, x, i, v, root, p);
    }
    assert forall|off: u64, l: nat|
        #![trigger path_table(m2, root, range_va(vs, off), l)]
        off < total && 1 <= l <= 3 && path_table(m2, root, range_va(vs, off), l) is Some implies {
            let t = path_table(m2, root, range_va(vs, off), l)->Some_0;
            &&& owner.contains_key(t)
            &&& owner[t].0 == l
            &&& same_prefix(range_va(vs, off), owner[t].1, (l - 1) as nat)
        } by {
        assert(same_walk(m2, m, root, range_va(vs, off)));
        assert(path_table(m, root, range_va(vs, off), l) is Some);
    }
    assert forall|off: u64|
        #![trigger range_va(vs, off)]
        lo <= off < total implies {
            &&& walk_tables_held(m2, root, range_va(vs, off))
            &&& translate_spec(m2, root, range_va(vs, off)) is None
        } by {
        assert(same_walk(m2, m, root, range_va(vs, off)));
        lemma_same_walk_translate(m2, m, root, range_va(vs, off));
    }
}

/// A later start only weakens what `range_open` says.
pub proof fn lemma_range_open_weaken(
    m: Map<u64, Seq<u64>>,
    root: u64,
    vs: u64,
    total: u64,
    lo: u64,
    lo2: u64,
)
    requires
        range_open(m, root, vs, total, lo),
        lo <= lo2,
    ensures
        range_open(m, root, vs, total, lo2),
{
}

/// The walk for `va` whose tables all keep their descriptors is the
/// same walk.
pub proof fn lemma_walk_tables_unchanged(m1: Map<u64, Seq<u64>>, m2: Map<u64, Seq<u64>>, root: u64, va: u64)
    requires
        walk_tables_held(m1, root, va),
        m2.contains_key(root) && m2[root] == m1[root],
        path_table(m1, root, va, 1) is Some ==> m2.contains_key(path_table(m1, root, va, 1)->Some_0) && m2[path_table(
            m1,
            root,
            va,
            1,
        )->Some_0] == m1[path_table(m1, root, va, 1)->Some_0],
        path_table(m1, root, va, 2) is Some ==> m2.contains_key(path_table(m1, root, va, 2)->Some_0) && m2[path_table(
            m1,
            root,
            va,
            2,
        )->Some_0] == m1[path_table(m1, root, va, 2)->Some_0],
        path_table(m1, root, va, 3) is Some ==> m2.contains_key(path_table(m1, root, va, 3)->Some_0) && m2[path_table(
            m1,
            root,
            va,
            3,
        )->Some_0] == m1[path_table(m1, root, va, 3)->Some_0],
    ensures
        same_walk(m2, m1, root, va),
{
    assert(path_table(m2, root, va, 0) == Some(root));
    assert(path_table(m1, root, va, 0) == Some(root));
    assert(path_table(m2, root, va, 1) == path_table(m1, root, va, 1));
    assert(path_table(m2, root, va, 2) == path_table(m1, root, va, 2));
    assert(path_table(m2, root, va, 3) == path_table(m1, root, va, 3));
}

/// Wherever `map_range` places a 1 GiB or 2 MiB block for the bytes of
/// the range from `lo` on (`block_level_at`), the walk has no table below
/// that level yet.
pub open spec fn blocks_free(m: Map<u64, Seq<u64>>, root: u64, vs: u64, ps: u64, total: u64, lo: u64) -> bool {
    forall|off: u64|
        #![trigger range_va(vs, off)]
        lo <= off < total && block_level_at(vs, ps, total, off as int) <= 2 && range_va(vs, off) & block_mask(
            block_level_at(vs, ps, total, off as int),
        ) == 0 ==> path_table(m, root, range_va(vs, off), block_level_at(vs, ps, total, off as int) + 1) is None
}

/// The tables below the root on the walks of the range's bytes form a
/// tree: each is reached at one level only, by the bytes of one region.
pub open spec fn range_walks_tree(m: Map<u64, Seq<u64>>, root: u64, vs: u64, total: u64) -> bool {
    exists|owner: Map<u64, (nat, u64)>| #[trigger] range_tree(m, root, vs, total, owner)
}

/// The range of `attrs` can be mapped below `root` in tables that may
/// already hold other mappings: it meets `map_range`'s alignment and size
/// conditions and spans at most 2^47 bytes; none of its bytes is mapped
/// and every table on their walks is present; those tables form a tree;
/// and where `map_range` places a 1 GiB or 2 MiB block there is no table
/// yet.
pub open spec fn range_mappable(m: Map<u64, Seq<u64>>, root: u64, attrs: MapAttributes) -> bool {
    &&& map_law_applies(attrs)
    &&& attrs.phys.size == attrs.virt.size
    &&& attrs.virt.size <= 0x8000_0000_0000
    &&& attrs.virt.start + attrs.virt.size <= u64::MAX
    &&& range_walks_tree(m, root, attrs.virt.start, attrs.virt.size)
    &&& range_open(m, root, attrs.virt.start, attrs.virt.size, 0)
    &&& blocks_free(m, root, attrs.virt.start, attrs.phys.start, attrs.virt.size, 0)
}

/// A range with empty top-level slots can be mapped.
pub proof fn lemma_fresh_mappable(m: Map<u64, Seq<u64>>, root: u64, attrs: MapAttributes)
    requires
        fresh_map_range(m, root, attrs),
        tables_wf(m),
        attrs.virt.start + attrs.virt.size <= u64::MAX,
    ensures
        range_mappable(m, root, attrs),
        range_tree(m, root, attrs.virt.start, attrs.virt.size, Map::empty()),
{
    let vs = attrs.virt.start;
    let total = attrs.virt.size;
    lemma_range_start(m, root, vs, total);
    assert forall|off: u64| 0 <= off < total implies path_table(m, root, #[trigger] range_va(vs, off), 1) is None by {
        assert(!desc_valid(m[root][pg_index_spec(range_va(vs, off), 39)]));
        assert(path_table(m, root, range_va(vs, off), 0) == Some(root));
    }
    assert forall|off: u64|
        #![trigger range_va(vs, off)]
        0 <= off < total && block_level_at(vs, attrs.phys.start, total, off as int) <= 2 && range_va(vs, off)
            & block_mask(block_level_at(vs, attrs.phys.start, total, off as int)) == 0 implies path_table(
        m,
        root,
        range_va(vs, off),
        block_level_at(vs, attrs.phys.start, total, off as int) + 1,
    ) is None by {
        let p = range_va(vs, off);
        assert(path_table(m, root, p, 1) is None);
        assert(path_table(m, root, p, 2) is None);
        assert(path_table(m, root, p, 3) is None);
    }
    assert(range_tree(m, root, vs, total, Map::empty()));
}

/// A range of one 4 KiB page gets no 1 GiB or 2 MiB block.
pub proof fn lemma_blocks_free_page(m: Map<u64, Seq<u64>>, root: u64, va: u64, pa: u64)
    ensures
        blocks_free(m, root, va, pa, 4096, 0),
{
    lemma_small_block(va, pa, 4096);
    assert(block_size(3) == 4096);
    assert forall|off: u64| #![trigger range_va(va, off)] 0 <= off < 4096 implies block_level_at(va, pa, 4096, off as int)
        == 3 by {}
}

/// Linking a table for the walk of the range's byte `done` (at a level
/// above the block placed there) keeps the later blocks' places free.
pub proof fn lemma_blocks_free_link(
    m: Map<u64, Seq<u64>>,
    root: u64,
    uvs: u64,
    utotal: u64,
    owner: Map<u64, (nat, u64)>,
    base: u64,
    vs: u64,
    ps: u64,
    total: u64,
    done: u64,
    l: nat,
    n: u64,
)
    requires
        range_tree(m, root, uvs, utotal, owner),
        range_open(m, root, uvs, utotal, (base + done) as u64),
        blocks_free(m, root, vs, ps, total, done),
        done < total,
        base + total <= utotal,
        vs == uvs + base,
        uvs + utotal <= u64::MAX,
        utotal <= 0x8000_0000_0000,
        1 <= l <= 3,
        l <= block_level_at(vs, ps, total, done as int),
        path_table(m, root, range_va(vs, done), (l - 1) as nat) is Some,
        !desc_valid(
            slot_entry(m, path_table(m, root, range_va(vs, done), (l - 1) as nat)->Some_0, range_va(vs, done), (l - 1) as nat),
        ),
        !m.contains_key(n),
        addr_encodable(n),
    ensures
        blocks_free(linked(m, root, range_va(vs, done), l, n), root, vs, ps, total, done),
{
    let va = range_va(vs, done);
    let du = (base + done) as u64;
    assert(range_va(uvs, du) == va);
    let m2 = linked(m, root, va, l, n);
    assert forall|off: u64|
        #![trigger range_va(vs, off)]
        done <= off < total && block_level_at(vs, ps, total, off as int) <= 2 && range_va(vs, off) & block_mask(
            block_level_at(vs, ps, total, off as int),
        ) == 0 implies path_table(m2, root, range_va(vs, off), block_level_at(vs, ps, total, off as int) + 1) is None by {
        let p = range_va(vs, off);
        let lv = block_level_at(vs, ps, total, off as int);
        let uo = (base + off) as u64;
        lemma_block_level_at_range(vs, ps, total, off as int);
        assert(range_va(uvs, uo) == p);
        lemma_link_byte(m, root, uvs, utotal, owner, du, l, n, uo);
        assert(path_table(m, root, p, lv + 1) is None);
        assert(path_table(m2, root, p, lv + 1) == if same_prefix(p, va, (l - 1) as nat) && lv + 1 == l {
            Some(n)
        } else {
            path_table(m, root, p, lv + 1)
        });
        if same_prefix(p, va, (l - 1) as nat) && lv + 1 == l {
            if off == done {
                lemma_block_level_at_range(vs, ps, total, done as int);
                assert(false);
            } else {
                assert(off > done);
                assert(p > va);
                assert(p - va < 0x8000_0000_0000u64);
                if lv == 1 {
                    assert(same_prefix(p, va, 1));
                    lemma_prefix_region(p, va, 0x3FFF_FFFFu64);
                    assert(p & 0x3FFF_FFFFu64 == 0);
                } else {
                    assert(lv == 2);
                    assert(same_prefix(p, va, 2));
                    lemma_prefix_region(p, va, 0x1F_FFFFu64);
                    assert(p & 0x1F_FFFFu64 == 0);
                }
                assert(false);
            }
        }
    }
}

/// Placing a block keeps the later blocks' places free.
pub proof fn lemma_blocks_free_leaf(
    m: Map<u64, Seq<u64>>,
    root: u64,
    uvs: u64,
    utotal: u64,
    owner: Map<u64, (nat, u64)>,
    base: u64,
    vs: u64,
    ps: u64,
    total: u64,
    done: u64,
    lv: nat,
    e: u64,
)
    requires
        range_tree(m, root, uvs, utotal, owner),
        range_open(m, root, uvs, utotal, (base + done) as u64),
        blocks_free(m, root, vs, ps, total, done),
        base + total <= utotal,
        vs == uvs + base,
        uvs + utotal <= u64::MAX,
        utotal <= 0x8000_0000_0000,
        1 <= lv <= 3,
        done + block_size(lv) <= total,
        path_table(m, root, range_va(vs, done), lv) is Some,
        range_va(vs, done) & block_mask(lv) == 0,
        !desc_valid(slot_entry(m, path_table(m, root, range_va(vs, done), lv)->Some_0, range_va(vs, done), lv)),
        desc_valid(e),
        lv < 3 ==> desc_huge(e),
    ensures
        blocks_free(leafed(m, root, range_va(vs, done), lv, e), root, vs, ps, total, (done + block_size(lv)) as u64),
{
    let va = range_va(vs, done);
    let du = (base + done) as u64;
    assert(range_va(uvs, du) == va);
    lemma_leaf_step(m, root, uvs, utotal, owner, du, lv, e);
    let m2 = leafed(m, root, va, lv, e);
    assert forall|off: u64|
        #![trigger range_va(vs, off)]
        done + block_size(lv) <= off < total && block_level_at(vs, ps, total, off as int) <= 2 && range_va(vs, off)
            & block_mask(block_level_at(vs, ps, total, off as int)) == 0 implies path_table(
        m2,
        root,
        range_va(vs, off),
        block_level_at(vs, ps, total, off as int) + 1,
    ) is None by {
        let uo = (base + off) as u64;
        assert(range_va(uvs, uo) == range_va(vs, off));
        assert(path_table(m2, root, range_va(uvs, uo), block_level_at(vs, ps, total, off as int) + 1) == path_table(
            m,
            root,
            range_va(uvs, uo),
            block_level_at(vs, ps, total, off as int) + 1,
        ));
    }
}

} // verus!
