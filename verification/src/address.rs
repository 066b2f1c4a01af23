use vstd::prelude::*;

verus! {

/// Size in bytes of a base page.
pub const PAGE_SIZE: u64 = 4096;

/// Number of bits of the page offset.
pub const PAGE_SHIFT: u64 = 12;

/// The largest address a region may reach (its end is at most this).
pub open spec fn u64_limit() -> int {
    0xFFFF_FFFF_FFFF_FFFFint
}

/// A contiguous range of physical memory.
#[derive(Debug, Clone, Copy, PartialEq, Eq, Structural)]
pub struct PhysMemoryRegion {
    pub start: u64,
    pub size: u64,
}

/// A contiguous range of virtual memory.
#[derive(Debug, Clone, Copy, PartialEq, Eq, Structural)]
pub struct VirtMemoryRegion {
    pub start: u64,
    pub size: u64,
}

impl PhysMemoryRegion {
    /// The region does not run past the end of the address space.
    pub open spec fn valid(self) -> bool {
        self.start + self.size <= u64_limit()
    }

    pub fn new(start: u64, size: u64) -> (r: Self)
        ensures
            r.start == start,
            r.size == size,
    {
        PhysMemoryRegion { start, size }
    }

    pub fn start_address(&self) -> (r: u64)
        ensures
            r == self.start,
    {
        self.start
    }

    pub fn size(&self) -> (r: u64)
        ensures
            r == self.size,
    {
        self.size
    }

    /// The region with its first `n` pages removed.
    pub fn add_pages(self, n: u64) -> (r: Self)
        requires
            n * PAGE_SIZE <= self.size,
            self.valid(),
        ensures
            r.start == self.start + n * PAGE_SIZE,
            r.size == self.size - n * PAGE_SIZE,
            r.valid(),
    {
        PhysMemoryRegion { start: self.start + n * PAGE_SIZE, size: self.size - n * PAGE_SIZE }
    }
}

impl VirtMemoryRegion {
    /// The region does not run past the end of the address space.
    pub open spec fn valid(self) -> bool {
        self.start + self.size <= u64_limit()
    }

    pub fn new(start: u64, size: u64) -> (r: Self)
        ensures
            r.start == start,
            r.size == size,
    {
        VirtMemoryRegion { start, size }
    }

    pub fn start_address(&self) -> (r: u64)
        ensures
            r == self.start,
    {
        self.start
    }

    pub fn size(&self) -> (r: u64)
        ensures
            r == self.size,
    {
        self.size
    }

    /// The region with its first `n` pages removed.
    pub fn add_pages(self, n: u64) -> (r: Self)
        requires
            n * PAGE_SIZE <= self.size,
            self.valid(),
        ensures
            r.start == self.start + n * PAGE_SIZE,
            r.size == self.size - n * PAGE_SIZE,
            r.valid(),
    {
        VirtMemoryRegion { start: self.start + n * PAGE_SIZE, size: self.size - n * PAGE_SIZE }
    }
}

} // verus!

verus! {

/// The page-aligned region covering `r`, and the offset of `r`'s start
/// inside its first page.
pub open spec fn mappable_start(r: PhysMemoryRegion) -> int {
    r.start - r.start % 4096
}

pub open spec fn mappable_end(r: PhysMemoryRegion) -> int {
    (r.start + r.size + 4095) - (r.start + r.size + 4095) % 4096
}

impl PhysMemoryRegion {
    /// The region from `start` up to (not including) `end`.
    pub fn from_start_end_address(start: u64, end: u64) -> (r: Self)
        requires
            start <= end,
        ensures
            r.start == start,
            r.size == end - start,
    {
        PhysMemoryRegion { start, size: end - start }
    }

    /// The smallest page-aligned region covering this one, and the offset
    /// of this region's start inside it.
    pub fn to_mappable_region(self) -> (r: (PhysMemoryRegion, u64))
        requires
            self.start + self.size + 4095 <= u64_limit(),
        ensures
            r.0.start == mappable_start(self),
            r.0.start + r.0.size == mappable_end(self),
            r.0.start % 4096 == 0,
            r.0.size % 4096 == 0,
            r.1 == self.start % 4096,
            r.0.valid(),
    {
        let aligned_start = self.start & !0xFFFu64;
        let end = self.start + self.size;
        let aligned_end = (end + 0xFFF) & !0xFFFu64;
        proof {
            lemma_round_down(self.start);
            lemma_round_down((end + 0xFFF) as u64);
        }
        (PhysMemoryRegion { start: aligned_start, size: aligned_end - aligned_start }, self.start & 0xFFF)
    }
}

pub proof fn lemma_round_down(x: u64)
    ensures
        x & !0xFFFu64 == x - x % 4096,
        x & 0xFFFu64 == x % 4096,
{
    assert(x & !0xFFFu64 == x - x % 4096) by (bit_vector);
    assert(x & 0xFFFu64 == x % 4096) by (bit_vector);
}

} // verus!
