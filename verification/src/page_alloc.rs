//! The physical frame allocator: a free list of 4 KiB frames.
use vstd::prelude::*;

verus! {

/// The first 4 KiB boundary at or after `start`.
pub open spec fn first_frame(start: u64) -> int {
    (start as int + 4095) / 4096 * 4096
}

/// Number of whole 4 KiB frames between `start` and `end`.
pub open spec fn frame_count(start: u64, end: u64) -> int {
    if end as int >= first_frame(start) + 4096 {
        (end as int - first_frame(start)) / 4096
    } else {
        0
    }
}

/// The whole 4 KiB frames of the range from `start` to `end`, lowest
/// first.
pub open spec fn region_frames(start: u64, end: u64) -> Seq<u64> {
    Seq::new(frame_count(start, end) as nat, |k: int| (first_frame(start) + k * 4096) as u64)
}

/// A free-list allocator of 4 KiB physical frames: the most recently
/// freed frame is handed out first.
pub struct PageAllocator {
    free_frames: Vec<u64>,
}

impl View for PageAllocator {
    type V = Seq<u64>;

    /// The free frames, the next to be handed out last.
    closed spec fn view(&self) -> Seq<u64> {
        self.free_frames@
    }
}

impl PageAllocator {
    /// An allocator with no free frames.
    pub fn new() -> (r: Self)
        ensures
            r@ == Seq::<u64>::empty(),
    {
        PageAllocator { free_frames: Vec::new() }
    }

    /// Make the whole 4 KiB frames of the range from `start` to `end`
    /// available. The range must not be in use or registered already.
    pub fn add_region(&mut self, start: u64, end: u64)
        ensures
            final(self)@ == old(self)@ + region_frames(start, end),
    {
        if start > u64::MAX - 4095 {
            proof {
                assert(region_frames(start, end) =~= Seq::<u64>::empty());
            }
            return;
        }
        let first = (start + 4095) / 4096 * 4096;
        assert(first == first_frame(start));
        if end < first || end - first < 4096 {
            proof {
                assert(region_frames(start, end) =~= Seq::<u64>::empty());
            }
            return;
        }
        let count = (end - first) / 4096;
        let ghost old_free = self.free_frames@;
        let mut k: u64 = 0;
        while k < count
            invariant
                first == first_frame(start),
                count == frame_count(start, end),
                first as int + count * 4096 <= end,
                k <= count,
                self.free_frames@ == old_free + region_frames(start, end).take(k as int),
            decreases count - k,
        {
            proof {
                assert(first as int + k * 4096 + 4096 <= end) by (nonlinear_arith)
                    requires
                        first as int + count * 4096 <= end,
                        k < count,
                ;
            }
            let f = first + k * 4096;
            self.free_frames.push(f);
            k = k + 1;
            proof {
                assert(region_frames(start, end).take(k as int) =~= region_frames(start, end).take(k - 1).push(f));
            }
        }
        proof {
            assert(region_frames(start, end).take(count as int) =~= region_frames(start, end));
        }
    }

    /// Take a free frame: the one freed or added last.
    pub fn alloc_frame(&mut self) -> (r: Option<u64>)
        ensures
            old(self)@.len() == 0 ==> r is None && final(self)@ == old(self)@,
            old(self)@.len() > 0 ==> r == Some(old(self)@.last()) && final(self)@ == old(self)@.drop_last(),
    {
        self.free_frames.pop()
    }

    /// Return `frame` to the free list.
    pub fn free_frame(&mut self, frame: u64)
        ensures
            final(self)@ == old(self)@.push(frame),
    {
        self.free_frames.push(frame);
    }
}

/// A frame that is freed and then allocated again is the same frame, and
/// the free list is back to what it was.
pub proof fn lemma_free_then_alloc(free: Seq<u64>, frame: u64)
    ensures
        free.push(frame).len() > 0,
        free.push(frame).last() == frame,
        free.push(frame).drop_last() == free,
{
    assert(free.push(frame).drop_last() =~= free);
}

/// Every frame a region contributes is 4 KiB-aligned and lies wholly
/// inside the region.
pub proof fn lemma_region_frames_inside(start: u64, end: u64, k: int)
    requires
        0 <= k < region_frames(start, end).len(),
    ensures
        region_frames(start, end)[k] % 4096 == 0,
        start <= region_frames(start, end)[k],
        region_frames(start, end)[k] + 4096 <= end,
{
    let f = first_frame(start) + k * 4096;
    assert(f % 4096 == 0) by (nonlinear_arith)
        requires
            f == (start as int + 4095) / 4096 * 4096 + k * 4096,
    ;
    assert(f >= start) by (nonlinear_arith)
        requires
            f == (start as int + 4095) / 4096 * 4096 + k * 4096,
            k >= 0,
    ;
    assert(f + 4096 <= end) by (nonlinear_arith)
        requires
            f == first_frame(start) + k * 4096,
            k < (end as int - first_frame(start)) / 4096,
    ;
}

} // verus!
