//! A page-table store held in ordinary memory, and a bump allocator of
//! page-table frames: the mapper and allocator a mapping context uses
//! when the tables are not live hardware tables (boot-time staging,
//! tests, host tools).
use vstd::prelude::*;
use crate::error::KernelError;
use crate::pg_descriptors::{addr_encodable, lemma_addr_encodable};
use crate::pg_tables::{PageAllocator, PageTableMapper, MappingContext};

verus! {

/// Page tables kept in ordinary memory: the physical address of each
/// table held, in the order the tables were added, and their
/// descriptors back to back (table `k` occupies words `512 * k` to
/// `512 * k + 511`).
pub struct PhysTableMemory {
    frames: Vec<u64>,
    words: Vec<u64>,
}

/// Hands out 4 KiB frames upwards from `next`, below `end`.
pub struct BumpFrameAllocator {
    next: u64,
    end: u64,
}

impl PhysTableMemory {
    /// Position `k` holds the table at `pa`: its first mention, with all
    /// 512 words present.
    pub closed spec fn first_at(&self, k: int, pa: u64) -> bool {
        &&& 0 <= k < self.frames.len()
        &&& self.frames@[k] == pa
        &&& 512 * k + 512 <= self.words.len()
        &&& forall|j: int| 0 <= j < k ==> self.frames@[j] != pa
    }

    /// The store holds a table at `pa`.
    pub closed spec fn holds(&self, pa: u64) -> bool {
        exists|k: int| self.first_at(k, pa)
    }

    /// Position of the table at `pa` among those held.
    spec fn slot(&self, pa: u64) -> int {
        choose|k: int| self.first_at(k, pa)
    }

    /// Every table mentioned has its 512 words, and no more words exist.
    pub closed spec fn exact(&self) -> bool {
        self.words.len() == 512 * self.frames.len()
    }

    proof fn lemma_slot(&self, k: int, pa: u64)
        requires
            self.first_at(k, pa),
        ensures
            self.holds(pa),
            self.slot(pa) == k,
    {
        let c = self.slot(pa);
        assert(self.first_at(c, pa));
        if c < k {
            assert(self.frames@[c] != pa);
        }
        if k < c {
            assert(self.frames@[k] != pa);
        }
    }

    /// An empty store.
    pub fn new() -> (r: Self)
        ensures
            r.tables() == Map::<u64, Seq<u64>>::empty(),
            forall|t: u64| #[trigger] r.can_add_table(t),
    {
        let r = PhysTableMemory { frames: Vec::new(), words: Vec::new() };
        assert(r.tables() =~= Map::<u64, Seq<u64>>::empty());
        r
    }

    /// Where the table at `table` lies, and whether `table` is mentioned
    /// at all.
    fn locate(&self, table: u64) -> (r: (Option<usize>, bool))
        ensures
            r.0 is Some <==> self.holds(table),
            r.0 matches Some(pos) ==> pos == self.slot(table) * 512 && pos + 512 <= self.words.len(),
            r.1 <==> exists|k: int| 0 <= k < self.frames.len() && self.frames@[k] == table,
    {
        let mut k: usize = 0;
        while k < self.frames.len()
            invariant
                k <= self.frames.len(),
                forall|j: int| 0 <= j < k ==> self.frames@[j] != table,
            decreases self.frames.len() - k,
        {
            if self.frames[k] == table {
                if k < self.words.len() / 512 {
                    proof {
                        assert(self.first_at(k as int, table));
                        self.lemma_slot(k as int, table);
                    }
                    return (Some(k * 512), true);
                }
                proof {
                    assert forall|c: int| !self.first_at(c, table) by {
                        if self.first_at(c, table) && c != k {
                            if c < k {
                                assert(self.frames@[c] != table);
                            } else {
                                assert(self.frames@[k as int] != table);
                            }
                        }
                    }
                }
                return (None, true);
            }
            k = k + 1;
        }
        (None, false)
    }
}

impl PageTableMapper for PhysTableMemory {
    /// A frame the store does not mention can become a table, while every
    /// table mentioned has exactly its words.
    closed spec fn can_add_table(&self, table: u64) -> bool {
        &&& self.exact()
        &&& forall|k: int| 0 <= k < self.frames.len() ==> self.frames@[k] != table
    }

    closed spec fn tables(&self) -> Map<u64, Seq<u64>> {
        Map::new(
            |pa: u64| self.holds(pa),
            |pa: u64| self.words@.subrange(self.slot(pa) * 512, self.slot(pa) * 512 + 512),
        )
    }

    fn read_entry(&mut self, table: u64, idx: usize) -> (r: Result<u64, KernelError>) {
        match self.locate(table).0 {
            Some(pos) => Ok(self.words[pos + idx]),
            None => Err(KernelError::InvalidValue),
        }
    }

    fn write_entry(&mut self, table: u64, idx: usize, value: u64) -> (r: Result<(), KernelError>) {
        let ghost old_tables = self.tables();
        match self.locate(table).0 {
            Some(pos) => {
                self.words.set(pos + idx, value);
                proof {
                    let k = old(self).slot(table);
                    assert forall|pa: u64| self.holds(pa) == old(self).holds(pa) && (self.holds(pa) ==> self.slot(pa)
                        == old(self).slot(pa)) by {
                        if old(self).holds(pa) {
                            let c = old(self).slot(pa);
                            assert(self.first_at(c, pa));
                            self.lemma_slot(c, pa);
                        }
                        if self.holds(pa) {
                            let c = self.slot(pa);
                            assert(old(self).first_at(c, pa));
                        }
                    }
                    assert forall|pa: u64| #[trigger] self.holds(pa) implies self.tables()[pa]
                        =~= old_tables.insert(table, old_tables[table].update(idx as int, value))[pa] by {
                        let k2 = self.slot(pa);
                        if pa != table {
                            assert(old(self).first_at(k2, pa));
                            assert(k2 != k);
                        }
                    }
                    assert(self.tables() =~= old_tables.insert(table, old_tables[table].update(idx as int, value)));
                }
                Ok(())
            },
            None => Err(KernelError::InvalidValue),
        }
    }

    fn zero_table(&mut self, table: u64) -> (r: Result<(), KernelError>) {
        let ghost old_tables = self.tables();
        let ghost zeros = Seq::new(512, |i: int| 0u64);
        let (found, mentioned) = self.locate(table);
        match found {
            Some(pos) => {
                let mut i: usize = 0;
                while i < 512
                    invariant
                        i <= 512,
                        pos + 512 <= self.words.len(),
                        self.frames == old(self).frames,
                        self.words.len() == old(self).words.len(),
                        forall|j: int| 0 <= j < pos ==> self.words@[j] == old(self).words@[j],
                        forall|j: int| pos + 512 <= j < self.words.len() ==> self.words@[j] == old(self).words@[j],
                        forall|j: int| pos <= j < pos + i ==> self.words@[j] == 0,
                    decreases 512 - i,
                {
                    self.words.set(pos + i, 0);
                    i = i + 1;
                }
                proof {
                    let k = old(self).slot(table);
                    assert forall|pa: u64| self.holds(pa) == old(self).holds(pa) && (self.holds(pa) ==> self.slot(pa)
                        == old(self).slot(pa)) by {
                        if old(self).holds(pa) {
                            let c = old(self).slot(pa);
                            assert(self.first_at(c, pa));
                            self.lemma_slot(c, pa);
                        }
                        if self.holds(pa) {
                            let c = self.slot(pa);
                            assert(old(self).first_at(c, pa));
                        }
                    }
                    assert forall|pa: u64| #[trigger] self.holds(pa) implies self.tables()[pa]
                        =~= old_tables.insert(table, zeros)[pa] by {
                        let k2 = self.slot(pa);
                        if pa != table {
                            assert(old(self).first_at(k2, pa));
                            assert(k2 != k);
                        }
                    }
                    assert(self.tables() =~= old_tables.insert(table, zeros));
                    assert forall|t: u64| t != table implies #[trigger] self.can_add_table(t) == old(self).can_add_table(t) by {}
                }
                Ok(())
            },
            None => {
                if mentioned || self.words.len() % 512 != 0 || self.words.len() / 512 != self.frames.len() {
                    return Err(KernelError::InvalidValue);
                }
                let n = self.frames.len();
                let mut i: usize = 0;
                while i < 512
                    invariant
                        i <= 512,
                        n == self.frames.len(),
                        self.frames == old(self).frames,
                        old(self).words.len() == 512 * n,
                        self.words.len() == 512 * n + i,
                        forall|j: int| 0 <= j < 512 * n ==> self.words@[j] == old(self).words@[j],
                        forall|j: int| 512 * n <= j < 512 * n + i ==> self.words@[j] == 0,
                    decreases 512 - i,
                {
                    self.words.push(0);
                    i = i + 1;
                }
                self.frames.push(table);
                proof {
                    assert(self.frames@ == old(self).frames@.push(table));
                    assert(self.frames@[n as int] == table);
                    assert(self.first_at(n as int, table));
                    self.lemma_slot(n as int, table);
                    assert forall|pa: u64| pa != table implies self.holds(pa) == old(self).holds(pa) && (self.holds(pa)
                        ==> self.slot(pa) == old(self).slot(pa)) by {
                        if old(self).holds(pa) {
                            let c = old(self).slot(pa);
                            assert(self.frames@[c] == pa);
                            assert(self.first_at(c, pa));
                            self.lemma_slot(c, pa);
                        }
                        if self.holds(pa) {
                            let c = self.slot(pa);
                            assert(self.first_at(c, pa));
                            assert(c != n);
                            assert(c < n);
                            assert(512 * c + 512 <= 512 * n);
                            assert forall|j: int| 0 <= j < c implies old(self).frames@[j] != pa by {
                                assert(self.frames@[j] == old(self).frames@[j]);
                            }
                            assert(old(self).frames@[c] == self.frames@[c]);
                            assert(old(self).first_at(c, pa));
                        }
                    }
                    assert forall|pa: u64| #[trigger] self.holds(pa) implies self.tables()[pa]
                        =~= old_tables.insert(table, zeros)[pa] by {
                    }
                    assert forall|pa: u64| #[trigger] old_tables.insert(table, zeros).contains_key(pa) implies self.holds(pa) by {
                    }
                    assert(self.tables() =~= old_tables.insert(table, zeros));
                    assert forall|t: u64| t != table implies #[trigger] self.can_add_table(t) == old(self).can_add_table(t) by {
                        if old(self).can_add_table(t) {
                            assert forall|k: int| 0 <= k < self.frames.len() implies self.frames@[k] != t by {
                                if k < n {
                                    assert(old(self).frames@[k] == self.frames@[k]);
                                }
                            }
                        }
                        if self.can_add_table(t) {
                            assert forall|k: int| 0 <= k < old(self).frames.len() implies old(self).frames@[k] != t by {
                                assert(old(self).frames@[k] == self.frames@[k]);
                            }
                        }
                    }
                }
                Ok(())
            },
        }
    }
}

impl BumpFrameAllocator {
    /// Allocator of the frames in `[start, end)`.
    pub fn new(start: u64, end: u64) -> (r: Self)
        ensures
            r.allocated() == Set::new(|pa: u64| pa < start),
    {
        BumpFrameAllocator { next: start, end }
    }
}

impl PageAllocator for BumpFrameAllocator {
    closed spec fn allocated(&self) -> Set<u64> {
        Set::new(|pa: u64| pa < self.next)
    }

    /// A whole, aligned frame is left below `end`, inside the 48-bit
    /// physical address space.
    closed spec fn can_allocate(&self) -> bool {
        &&& self.next % 4096 == 0
        &&& self.end <= 0x1_0000_0000_0000
        &&& self.next < self.end
        &&& self.end - self.next >= 4096
    }

    closed spec fn frames_left(&self) -> nat {
        if self.next % 4096 == 0 && self.end <= 0x1_0000_0000_0000 && self.next < self.end {
            ((self.end - self.next) / 4096) as nat
        } else {
            0
        }
    }

    fn allocate_page_table(&mut self) -> (r: Result<u64, KernelError>) {
        if self.next % 4096 == 0 && self.end <= 0x1_0000_0000_0000 && self.next < self.end && self.end - self.next >= 4096 {
            let pa = self.next;
            self.next = self.next + 4096;
            proof {
                lemma_addr_encodable(pa);
            }
            Ok(pa)
        } else {
            Err(KernelError::NoMemory)
        }
    }
}

/// A mapping context over an empty table store at `base` whose frames
/// come from `[base, base + 4096 * frames)`.
pub fn new_arena_context(base: u64, frames: u64) -> (r: MappingContext<BumpFrameAllocator, PhysTableMemory>)
    ensures
        r.wf(),
        r.mapper.tables() == Map::<u64, Seq<u64>>::empty(),
        forall|t: u64| #[trigger] r.mapper.can_add_table(t),
{
    let end = if base < 0x1_0000_0000_0000u64 && frames <= (0x1_0000_0000_0000u64 - base) / 4096 {
        base + frames * 4096
    } else {
        base
    };
    let ctx = MappingContext { allocator: BumpFrameAllocator::new(base, end), mapper: PhysTableMemory::new() };
    assert(ctx.mapper.tables().dom() =~= Set::<u64>::empty());
    ctx
}

} // verus!
