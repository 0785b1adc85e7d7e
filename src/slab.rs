//! Fixed-size cell slabs: one tier of the kernel heap.
use vstd::prelude::*;

verus! {

/// `n` is a power of two.
pub open spec fn is_pow2(n: int) -> bool
    decreases n,
{
    if n <= 0 {
        false
    } else if n == 1 {
        true
    } else {
        n % 2 == 0 && is_pow2(n / 2)
    }
}

/// A slab hands out cells of `size` bytes from `[start, end)`.
/// Fresh cells come from a bump pointer `next`; freed cells are reused
/// last-in first-out.
pub struct SlabAllocator {
    start: u64,
    end: u64,
    next: u64,
    size: u64,
    used: u64,
    free: Vec<u64>,
    live: Ghost<Set<int>>,
}

impl SlabAllocator {
    /// Bytes in one cell of this slab.
    pub closed spec fn cell_size(&self) -> int {
        self.size as int
    }

    /// First address of the slab's range.
    pub closed spec fn region_start(&self) -> int {
        self.start as int
    }

    /// One past the last address of the slab's range.
    pub closed spec fn region_end(&self) -> int {
        self.end as int
    }

    /// Cells handed out and not yet returned.
    pub closed spec fn live(&self) -> Set<int> {
        self.live@
    }

    /// Cells returned, the most recent last.
    pub closed spec fn freed(&self) -> Seq<u64> {
        self.free@
    }

    /// Whether fresh cells remain past the bump pointer.
    pub closed spec fn has_fresh(&self) -> bool {
        self.end - self.next >= self.size
    }

    /// `c` is the start of a whole cell inside the range.
    pub open spec fn is_cell(&self, c: int) -> bool {
        &&& self.region_start() <= c
        &&& c + self.cell_size() <= self.region_end()
        &&& (c - self.region_start()) % self.cell_size() == 0
    }

    pub closed spec fn wf(&self) -> bool {
        &&& self.size > 0
        &&& is_pow2(self.size as int)
        &&& self.start % self.size == 0
        &&& self.start > 0 || self.start == self.end
        &&& self.start <= self.next <= self.end
        &&& (self.next - self.start) % (self.size as int) == 0
        &&& self.live@.finite()
        &&& (self.next - self.start) == (self.free@.len() + self.used) * self.size
        &&& self.live@.len() == self.used
        &&& self.free@.no_duplicates()
        &&& forall|i: int| #![trigger self.free@[i]]
            0 <= i < self.free@.len() ==> {
                &&& self.is_cell(self.free@[i] as int)
                &&& self.free@[i] < self.next
                &&& !self.live@.contains(self.free@[i] as int)
            }
        &&& forall|c: int| #![trigger self.live@.contains(c)]
            self.live@.contains(c) ==> self.is_cell(c) && c < self.next && c > 0
    }

    /// Every cell starts at a multiple of the cell size.
    pub proof fn lemma_cells_aligned(&self, c: int)
        requires
            self.wf(),
            self.is_cell(c),
        ensures
            c % self.cell_size() == 0,
    {
        vstd::arithmetic::div_mod::lemma_mod_adds(c - self.start, self.start as int, self.size as int);
    }

    /// A cell in use is a whole cell of the range, and never address 0.
    pub proof fn lemma_live_is_cell(&self, c: int)
        requires
            self.wf(),
            self.live().contains(c),
        ensures
            self.is_cell(c),
            c > 0,
    {
    }

    /// An empty slab for cells of `size` bytes; `init` gives it a range.
    pub fn new(size: u64) -> (r: Self)
        requires
            is_pow2(size as int),
        ensures
            r.wf(),
            r.cell_size() == size,
            r.region_start() == 0,
            r.region_end() == 0,
            r.live().is_empty(),
            r.freed().len() == 0,
    {
        let r = SlabAllocator { start: 0, end: 0, next: 0, size, used: 0, free: Vec::new(), live: Ghost(Set::empty()) };
        proof {
            assert((r.free@.len() + r.used) * size == 0) by (nonlinear_arith)
                requires r.free@.len() == 0, r.used == 0;
            assert(r.live@.finite());
            assert(r.live@.len() == 0);
            assert(0int % (size as int) == 0);
        }
        r
    }

    /// Gives the slab the range `[start, start + size)`, with no cell in use.
    pub fn init(&mut self, start: u64, size: u64)
        requires
            old(self).wf(),
            start > 0,
            start as int % old(self).cell_size() == 0,
            start + size <= u64::MAX,
        ensures
            final(self).wf(),
            final(self).cell_size() == old(self).cell_size(),
            final(self).region_start() == start,
            final(self).region_end() == start + size,
            final(self).live().is_empty(),
            final(self).freed().len() == 0,
            final(self).has_fresh() == (size >= old(self).cell_size()),
    {
        self.start = start;
        self.end = start + size;
        self.next = start;
        self.used = 0;
        self.free = Vec::new();
        self.live = Ghost(Set::empty());
        proof {
            assert((self.free@.len() + self.used) * self.size == 0) by (nonlinear_arith)
                requires self.free@.len() == 0, self.used == 0;
        }
    }

    /// Bytes held by cells in use.
    pub fn used(&self) -> (r: u64)
        requires
            self.wf(),
        ensures
            r == self.live().len() * self.cell_size(),
    {
        proof {
            let (f, u, s) = (self.free@.len() as int, self.used as int, self.size as int);
            assert(u * s <= (f + u) * s) by (nonlinear_arith)
                requires f >= 0, u >= 0, s > 0;
        }
        self.used * self.size
    }

    /// Bytes in the slab's range.
    pub fn size(&self) -> (r: u64)
        requires
            self.wf(),
        ensures
            r == self.region_end() - self.region_start(),
    {
        self.end - self.start
    }

    /// Hands out a cell: the most recently freed one, else a fresh one,
    /// else 0 when the slab is exhausted.
    pub fn alloc_cell(&mut self) -> (r: u64)
        requires
            old(self).wf(),
        ensures
            final(self).wf(),
            slab_alloc_post(*old(self), *final(self), r),
    {
        let ghost old_self = *self;
        if self.free.len() > 0 {
            let c = self.free.pop().unwrap();
            proof {
                let i = old_self.free@.len() - 1;
                assert(old_self.free@[i] == c);
                assert(self.free@ == old_self.free@.drop_last());
                assert forall|k: int| 0 <= k < self.free@.len() implies self.free@[k] != c by {
                    assert(old_self.free@[k] == self.free@[k]);
                }
                let (f, u, s) = (self.free@.len() as int, self.used as int, self.size as int);
                assert((f + 1 + u) * s == (f + (u + 1)) * s) by (nonlinear_arith);
                assert(u + 1 <= (f + 1 + u) * s) by (nonlinear_arith)
                    requires f >= 0, u >= 0, s > 0;
            }
            self.used = self.used + 1;
            self.live = Ghost(self.live@.insert(c as int));
            proof {
                assert forall|k: int| 0 <= k < self.free@.len() implies {
                    &&& self.is_cell(self.free@[k] as int)
                    &&& self.free@[k] < self.next
                    &&& !self.live@.contains(self.free@[k] as int)
                } by {
                    assert(old_self.free@[k] == self.free@[k]);
                }
            }
            c
        } else if self.end - self.next >= self.size {
            let c = self.next;
            proof {
                let (f, u, s) = (self.free@.len() as int, self.used as int, self.size as int);
                assert((f + u) * s + s == (f + (u + 1)) * s) by (nonlinear_arith);
                assert(u + 1 <= (f + u + 1) * s) by (nonlinear_arith)
                    requires f >= 0, u >= 0, s > 0;
                assert(((self.next - self.start) + s) % s == 0) by {
                    vstd::arithmetic::div_mod::lemma_mod_adds(self.next - self.start, s, s);
                }
            }
            self.next = self.next + self.size;
            self.used = self.used + 1;
            self.live = Ghost(self.live@.insert(c as int));
            c
        } else {
            0
        }
    }

    /// Returns cell `c` to the slab.
    pub fn dealloc_cell(&mut self, c: u64)
        requires
            old(self).wf(),
            old(self).live().contains(c as int),
        ensures
            final(self).wf(),
            slab_dealloc_post(*old(self), *final(self), c),
    {
        let ghost old_self = *self;
        proof {
            assert(self.live@.remove(c as int).len() == self.live@.len() - 1);
            let (f, u, s) = (self.free@.len() as int, self.used as int, self.size as int);
            assert((f + u) * s == ((f + 1) + (u - 1)) * s) by (nonlinear_arith);
        }
        self.free.push(c);
        self.used = self.used - 1;
        self.live = Ghost(self.live@.remove(c as int));
        proof {
            assert forall|k: int| 0 <= k < self.free@.len() implies {
                &&& self.is_cell(self.free@[k] as int)
                &&& self.free@[k] < self.next
                &&& !self.live@.contains(self.free@[k] as int)
            } by {
                if k < old_self.free@.len() {
                    assert(old_self.free@[k] == self.free@[k]);
                }
            }
            assert forall|i: int, j: int| 0 <= i < j < self.free@.len() implies self.free@[i] != self.free@[j] by {
                if j < old_self.free@.len() {
                    assert(old_self.free@[i] == self.free@[i]);
                    assert(old_self.free@[j] == self.free@[j]);
                } else {
                    assert(old_self.free@[i] == self.free@[i]);
                }
            }
        }
    }
}

/// What `alloc_cell` does: the range stays, a freed cell is reused first, then a
/// fresh one, and 0 comes back only when neither is left.
pub open spec fn slab_alloc_post(s0: SlabAllocator, s1: SlabAllocator, r: u64) -> bool {
    &&& s1.cell_size() == s0.cell_size()
    &&& s1.region_start() == s0.region_start()
    &&& s1.region_end() == s0.region_end()
    &&& (r == 0 <==> (s0.freed().len() == 0 && !s0.has_fresh()))
    &&& r == 0 ==> s1.live() == s0.live() && s1.freed() == s0.freed()
    &&& r != 0 ==> {
        &&& s0.is_cell(r as int)
        &&& !s0.live().contains(r as int)
        &&& s1.live() == s0.live().insert(r as int)
        &&& s0.freed().len() > 0 ==> r == s0.freed().last() && s1.freed() == s0.freed().drop_last()
        &&& s0.freed().len() == 0 ==> s1.freed() == s0.freed()
    }
}

/// What `dealloc_cell` does: the cell leaves the live set and tops the freed stack.
pub open spec fn slab_dealloc_post(s0: SlabAllocator, s1: SlabAllocator, c: u64) -> bool {
    &&& s1.cell_size() == s0.cell_size()
    &&& s1.region_start() == s0.region_start()
    &&& s1.region_end() == s0.region_end()
    &&& s1.live() == s0.live().remove(c as int)
    &&& s1.freed() == s0.freed().push(c)
}

} // verus!
