//! Physical frames: 4 KiB pages of RAM handed out from the firmware's
//! usable regions, with freed frames reused first.
use vstd::prelude::*;

verus! {

/// Bytes in one frame.
pub const FRAME_SIZE: u64 = 4096;

/// Physical addresses on this architecture stay below 2^52.
pub const MAX_PHYS_ADDR: u64 = 0x0010_0000_0000_0000;

/// One entry of the firmware memory map.
#[derive(Clone, Copy, Debug, PartialEq, Eq)]
pub struct MemoryRegion {
    pub base: u64,
    pub len: u64,
    pub usable: bool,
}

/// The usable part of `r` as `[start, end)`, clipped to physical addresses.
pub open spec fn usable_range(r: MemoryRegion) -> (int, int) {
    let end = if r.base as int + r.len as int > MAX_PHYS_ADDR as int {
        MAX_PHYS_ADDR as int
    } else {
        r.base as int + r.len as int
    };
    if r.usable && (r.base as int) < end {
        (r.base as int, end)
    } else {
        (0, 0)
    }
}

/// The usable ranges of a memory map, in order, each clipped and
/// non-empty.
pub open spec fn usable_ranges(regions: Seq<MemoryRegion>) -> Seq<(u64, u64)>
    decreases regions.len(),
{
    if regions.len() == 0 {
        Seq::empty()
    } else {
        let prev = usable_ranges(regions.drop_last());
        let (a, b) = usable_range(regions.last());
        if a < b { prev.push((a as u64, b as u64)) } else { prev }
    }
}

/// The next fresh frame from the cursor `(idx, addr)` over `ranges`: the
/// 4 KiB frame holding the first address at or after the cursor in a range,
/// walking the ranges in order at a 4 KiB stride, that is not below
/// `floor` (frames below it were handed out already).
pub open spec fn fresh_from(ranges: Seq<(u64, u64)>, idx: int, addr: int, floor: int) -> Option<u64>
    decreases ranges.len() - idx, MAX_PHYS_ADDR + FRAME_SIZE - addr,
{
    if idx < 0 || idx >= ranges.len() || addr > MAX_PHYS_ADDR + FRAME_SIZE {
        None
    } else {
        let (start, end) = ranges[idx];
        let a = if addr < start { start as int } else { addr };
        if a >= end {
            fresh_from(ranges, idx + 1, if idx + 1 < ranges.len() { ranges[idx + 1].0 as int } else { a }, floor)
        } else if a > MAX_PHYS_ADDR {
            None
        } else {
            let frame = a / FRAME_SIZE as int * FRAME_SIZE as int;
            if frame >= floor {
                Some(frame as u64)
            } else {
                fresh_from(ranges, idx, a + FRAME_SIZE, floor)
            }
        }
    }
}

/// Hands out frames: freed ones first, last freed first, then fresh ones
/// walking the usable regions in order at a 4 KiB stride. A fresh frame is
/// always above every frame handed out before, so none is handed out twice.
pub struct BootInfoFrameAllocator {
    ranges: Vec<(u64, u64)>,
    idx: usize,
    addr: u64,
    floor: u64,
    free: Vec<u64>,
    live: Ghost<Set<int>>,
}

impl BootInfoFrameAllocator {
    /// Frames handed out and not yet returned.
    pub closed spec fn live(&self) -> Set<int> {
        self.live@
    }

    /// Frames returned, the most recent last.
    pub closed spec fn freed(&self) -> Seq<u64> {
        self.free@
    }

    /// The usable ranges of the memory map, as `[start, end)`.
    pub closed spec fn usable(&self) -> Seq<(u64, u64)> {
        self.ranges@
    }

    /// The frame that a fresh allocation would hand out, if any is left.
    pub closed spec fn next_fresh(&self) -> Option<u64> {
        fresh_from(self.ranges@, self.idx as int, self.addr as int, self.floor as int)
    }

    /// The frame a fresh allocation would hand out from the current cursor
    /// if every frame below `floor` had been handed out already.
    pub closed spec fn fresh_with_floor(&self, floor: int) -> Option<u64> {
        fresh_from(self.ranges@, self.idx as int, self.addr as int, floor)
    }

    pub closed spec fn wf(&self) -> bool {
        &&& self.idx <= self.ranges@.len()
        &&& self.addr <= MAX_PHYS_ADDR + FRAME_SIZE
        &&& self.floor <= MAX_PHYS_ADDR
        &&& self.free@.no_duplicates()
        &&& forall|i: int| 0 <= i < self.ranges@.len() ==> {
            &&& (#[trigger] self.ranges@[i]).0 <= self.ranges@[i].1
            &&& self.ranges@[i].1 <= MAX_PHYS_ADDR
        }
        &&& forall|i: int| #![trigger self.free@[i]]
            0 <= i < self.free@.len() ==> {
                &&& self.free@[i] % FRAME_SIZE == 0
                &&& self.free@[i] < self.floor
                &&& !self.live@.contains(self.free@[i] as int)
            }
        &&& forall|c: int| #![trigger self.live@.contains(c)]
            self.live@.contains(c) ==> c % FRAME_SIZE as int == 0 && c < self.floor
    }

    /// A frame in use lies below the top of physical memory.
    pub proof fn lemma_frame_bound(&self, f: u64)
        requires
            self.wf(),
            self.live().contains(f as int),
        ensures
            f < MAX_PHYS_ADDR,
            f % FRAME_SIZE == 0,
    {
    }

    /// Takes the usable entries of the firmware memory map; no frame is in use.
    #[verifier::rlimit(40)]
    pub fn init(memory_regions: &Vec<MemoryRegion>) -> (r: Self)
        ensures
            r.wf(),
            r.live().is_empty(),
            r.freed().len() == 0,
            r.usable() == usable_ranges(memory_regions@),
            r.next_fresh() == fresh_from(usable_ranges(memory_regions@), 0, if usable_ranges(memory_regions@).len() > 0 {
                usable_ranges(memory_regions@)[0].0 as int
            } else {
                0
            }, 0),
    {
        let mut ranges: Vec<(u64, u64)> = Vec::new();
        let mut i: usize = 0;
        proof {
            assert(memory_regions@.subrange(0, 0) =~= Seq::<MemoryRegion>::empty());
        }
        while i < memory_regions.len()
            invariant
                0 <= i <= memory_regions@.len(),
                forall|k: int| 0 <= k < ranges@.len() ==> {
                    &&& (#[trigger] ranges@[k]).0 <= ranges@[k].1
                    &&& ranges@[k].1 <= MAX_PHYS_ADDR
                },
                ranges@ == usable_ranges(memory_regions@.subrange(0, i as int)),
            decreases memory_regions@.len() - i,
        {
            let r = memory_regions[i];
            let end = if r.base >= MAX_PHYS_ADDR || r.len >= MAX_PHYS_ADDR - r.base {
                MAX_PHYS_ADDR
            } else {
                r.base + r.len
            };
            let ghost before = ranges@;
            proof {
                assert(r == memory_regions@[i as int]);
                assert((r.usable && r.base < end) == (usable_range(r).0 < usable_range(r).1));
                assert(r.usable && r.base < end ==> usable_range(r) == (r.base as int, end as int));
            }
            if r.usable && r.base < end {
                ranges.push((r.base, end));
            }
            proof {
                let sub = memory_regions@.subrange(0, i + 1);
                assert(sub.drop_last() =~= memory_regions@.subrange(0, i as int));
                assert(sub.last() == r);
            }
            i = i + 1;
        }
        proof {
            assert(memory_regions@.subrange(0, memory_regions@.len() as int) =~= memory_regions@);
        }
        let addr = if ranges.len() > 0 { ranges[0].0 } else { 0 };
        let r = BootInfoFrameAllocator {
            ranges,
            idx: 0,
            addr,
            floor: 0,
            free: Vec::new(),
            live: Ghost(Set::empty()),
        };
        r
    }

    /// Returns `frame` to the pool; the next allocation hands it out again.
    pub fn deallocate_frame(&mut self, frame: u64)
        requires
            old(self).wf(),
            old(self).live().contains(frame as int),
        ensures
            final(self).wf(),
            frame_dealloc_post(*old(self), *final(self), frame),
    {
        let ghost old_self = *self;
        self.free.push(frame);
        self.live = Ghost(self.live@.remove(frame as int));
        proof {
            assert forall|k: int| 0 <= k < self.free@.len() implies {
                &&& self.free@[k] % FRAME_SIZE == 0
                &&& self.free@[k] < self.floor
                &&& !self.live@.contains(self.free@[k] as int)
            } by {
                if k < old_self.free@.len() {
                    assert(old_self.free@[k] == self.free@[k]);
                }
            }
            assert forall|i: int, j: int| 0 <= i < j < self.free@.len() implies self.free@[i] != self.free@[j] by {
                assert(old_self.free@[i] == self.free@[i]);
                if j < old_self.free@.len() {
                    assert(old_self.free@[j] == self.free@[j]);
                }
            }
        }
    }

    /// Hands out a frame: the most recently freed one, else the next fresh
    /// one, else `None` when both sources are exhausted.
    pub fn allocate_frame(&mut self) -> (r: Option<u64>)
        requires
            old(self).wf(),
        ensures
            final(self).wf(),
            frame_alloc_post(*old(self), *final(self), r),
    {
        let ghost old_self = *self;
        if self.free.len() > 0 {
            let f = self.free.pop().unwrap();
            proof {
                let i = old_self.free@.len() - 1;
                assert(old_self.free@[i] == f);
                assert(self.free@ == old_self.free@.drop_last());
            }
            self.live = Ghost(self.live@.insert(f as int));
            proof {
                assert forall|k: int| 0 <= k < self.free@.len() implies {
                    &&& self.free@[k] % FRAME_SIZE == 0
                    &&& self.free@[k] < self.floor
                    &&& !self.live@.contains(self.free@[k] as int)
                } by {
                    assert(old_self.free@[k] == self.free@[k]);
                    assert(old_self.free@.no_duplicates());
                    assert(old_self.free@[k] != old_self.free@[old_self.free@.len() - 1]);
                }
            }
            return Some(f);
        }
        while self.idx < self.ranges.len()
            invariant
                self.wf(),
                self.free@.len() == 0,
                self.ranges == old_self.ranges,
                self.free == old_self.free,
                self.live == old_self.live,
                self.floor == old_self.floor,
                old_self == *old(self),
                fresh_from(self.ranges@, self.idx as int, self.addr as int, self.floor as int) == old_self.next_fresh(),
                forall|fl2: int| #![trigger fresh_from(self.ranges@, self.idx as int, self.addr as int, fl2)]
                    fl2 >= self.floor ==> fresh_from(self.ranges@, self.idx as int, self.addr as int, fl2) == old_self.fresh_with_floor(fl2),
            decreases self.ranges@.len() - self.idx, MAX_PHYS_ADDR + FRAME_SIZE - self.addr,
        {
            let (start, end) = self.ranges[self.idx];
            let ghost i0 = self.idx as int;
            let ghost a0 = self.addr as int;
            let ghost rs = self.ranges@;
            let ghost fl = self.floor as int;
            proof {
                assert(rs[i0] == (start, end));
                assert(a0 <= MAX_PHYS_ADDR + FRAME_SIZE);
            }
            if self.addr < start {
                self.addr = start;
            }
            if self.addr < end {
                let frame = self.addr / FRAME_SIZE * FRAME_SIZE;
                proof {
                    vstd::arithmetic::div_mod::lemma_fundamental_div_mod(self.addr as int, FRAME_SIZE as int);
                    vstd::arithmetic::div_mod::lemma_mod_multiples_basic(self.addr as int / FRAME_SIZE as int, FRAME_SIZE as int);
                    let q = self.addr as int / FRAME_SIZE as int;
                    assert(frame == q * 4096);
                    assert(frame + FRAME_SIZE <= MAX_PHYS_ADDR) by (nonlinear_arith)
                        requires frame == q * 4096, frame < 0x0010_0000_0000_0000int;
                }
                self.addr = self.addr + FRAME_SIZE;
                proof {
                    assert(fresh_from(rs, i0, a0, fl) == (if frame >= fl {
                        Some(frame)
                    } else {
                        fresh_from(rs, i0, self.addr as int, fl)
                    }));
                    assert forall|fl2: int| fl2 >= fl && frame < fl2 implies #[trigger] fresh_from(rs, i0, a0, fl2)
                        == fresh_from(rs, i0, self.addr as int, fl2) by {
                        assert(old_self.fresh_with_floor(fl2) == fresh_from(rs, i0, a0, fl2));
                    }
                    assert(fresh_from(rs, i0, a0, frame + FRAME_SIZE) == fresh_from(rs, i0, self.addr as int, frame + FRAME_SIZE));
                }
                if frame >= self.floor {
                    proof {
                        assert(old_self.ranges@[self.idx as int] == (start, end));
                        assert(start < frame + FRAME_SIZE && frame < end);
                    }
                    self.floor = frame + FRAME_SIZE;
                    self.live = Ghost(self.live@.insert(frame as int));
                    return Some(frame);
                }
                proof {
                    assert forall|fl2: int| fl2 >= fl implies #[trigger] fresh_from(rs, i0, self.addr as int, fl2)
                        == old_self.fresh_with_floor(fl2) by {
                        assert(fresh_from(rs, i0, a0, fl2) == fresh_from(rs, i0, self.addr as int, fl2));
                        assert(old_self.fresh_with_floor(fl2) == fresh_from(rs, i0, a0, fl2));
                    }
                }
            } else {
                self.idx = self.idx + 1;
                if self.idx < self.ranges.len() {
                    self.addr = self.ranges[self.idx].0;
                }
                proof {
                    assert(fresh_from(rs, i0, a0, fl) == fresh_from(rs, self.idx as int, self.addr as int, fl));
                    assert forall|fl2: int| fl2 >= fl implies #[trigger] fresh_from(rs, self.idx as int, self.addr as int, fl2)
                        == old_self.fresh_with_floor(fl2) by {
                        assert(fresh_from(rs, i0, a0, fl2) == fresh_from(rs, self.idx as int, self.addr as int, fl2));
                    }
                }
            }
        }
        None
    }
}

/// What `allocate_frame` does: a freed frame is reused first, last freed
/// first; any frame handed out is 4 KiB aligned and was not in use.
pub open spec fn frame_alloc_post(f0: BootInfoFrameAllocator, f1: BootInfoFrameAllocator, r: Option<u64>) -> bool {
    &&& (r is None <==> (f0.freed().len() == 0 && f0.next_fresh() is None))
    &&& f0.freed().len() == 0 ==> r == f0.next_fresh()
    &&& match r {
        None => f1.live() == f0.live() && f1.freed() == f0.freed() && f1.usable() == f0.usable()
            && f1.next_fresh() == f0.next_fresh(),
        Some(f) => {
            &&& f1.usable() == f0.usable()
            &&& f0.freed().len() > 0 ==> f1.next_fresh() == f0.next_fresh()
            &&& f0.freed().len() == 0 ==> f1.next_fresh() == f0.fresh_with_floor(f + FRAME_SIZE)
            &&& f % FRAME_SIZE == 0
            &&& !f0.live().contains(f as int)
            &&& f1.live() == f0.live().insert(f as int)
            &&& f0.freed().len() > 0 ==> f == f0.freed().last() && f1.freed() == f0.freed().drop_last()
            &&& f0.freed().len() == 0 ==> f1.freed() == f0.freed()
        },
    }
}

/// What `deallocate_frame` does: the frame leaves use and tops the freed stack.
pub open spec fn frame_dealloc_post(f0: BootInfoFrameAllocator, f1: BootInfoFrameAllocator, frame: u64) -> bool {
    &&& f1.usable() == f0.usable()
    &&& f1.next_fresh() == f0.next_fresh()
    &&& f1.live() == f0.live().remove(frame as int)
    &&& f1.freed() == f0.freed().push(frame)
}

/// Frames round-trip last-in first-out: a frame that was allocated and then
/// freed is the very next one handed out, and a frame still in use is never
/// handed out.
pub proof fn lemma_frame_round_trip(
    f0: BootInfoFrameAllocator,
    f1: BootInfoFrameAllocator,
    f2: BootInfoFrameAllocator,
    f3: BootInfoFrameAllocator,
    f: u64,
    r: Option<u64>,
)
    requires
        frame_alloc_post(f0, f1, Some(f)),
        frame_dealloc_post(f1, f2, f),
        frame_alloc_post(f2, f3, r),
    ensures
        r == Some(f),
        forall|g: u64| f2.live().contains(g as int) ==> r != Some(g),
{
}

} // verus!
