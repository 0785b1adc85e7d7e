//! The kernel heap: seven slab tiers over one managed virtual range, the
//! last eighth of which is left to a general-purpose fallback heap.
use vstd::prelude::*;
use crate::slab::{is_pow2, slab_alloc_post, slab_dealloc_post, SlabAllocator};

verus! {

/// First address of the managed heap range.
pub const MANAGED_START: u64 = 0x0000_4000_0000_0000;

/// One past the last address of the managed heap range.
pub const MANAGED_END: u64 = 0x0000_7fff_ffff_f000;

/// Number of slab tiers.
pub const TIER_COUNT: usize = 7;

/// Cell size of the largest tier; every tier's sub-range is a multiple of it.
pub const LARGEST_TIER: u64 = 2048;

/// Cell size of tier `i`: 32, 64, ..., 2048 bytes.
pub open spec fn tier_size(i: int) -> int {
    if i == 0 {
        32
    } else if i == 1 {
        64
    } else if i == 2 {
        128
    } else if i == 3 {
        256
    } else if i == 4 {
        512
    } else if i == 5 {
        1024
    } else {
        2048
    }
}

/// Bytes a request needs from a cell: the larger of its size and alignment.
pub open spec fn needed(size: u64, align: u64) -> int {
    if size >= align {
        size as int
    } else {
        align as int
    }
}

/// The smallest tier whose cells hold `n` bytes, if any does.
pub open spec fn tier_for(n: int) -> Option<int> {
    if n <= 32 {
        Some(0)
    } else if n <= 64 {
        Some(1)
    } else if n <= 128 {
        Some(2)
    } else if n <= 256 {
        Some(3)
    } else if n <= 512 {
        Some(4)
    } else if n <= 1024 {
        Some(5)
    } else if n <= 2048 {
        Some(6)
    } else {
        None
    }
}

fn tier_cell_size(i: usize) -> (r: u64)
    requires
        i < TIER_COUNT,
    ensures
        r == tier_size(i as int),
{
    match i {
        0 => 32,
        1 => 64,
        2 => 128,
        3 => 256,
        4 => 512,
        5 => 1024,
        _ => 2048,
    }
}

proof fn lemma_tier_pow2(i: int)
    requires
        0 <= i < 7,
    ensures
        is_pow2(tier_size(i)),
        LARGEST_TIER as int % tier_size(i) == 0,
{
    reveal_with_fuel(is_pow2, 13);
}

proof fn lemma_pow2_divides(a: int, t: int)
    requires
        is_pow2(a),
        is_pow2(t),
        a <= t,
    ensures
        t % a == 0,
    decreases t,
{
    if a == 1 {
    } else if a == t {
        vstd::arithmetic::div_mod::lemma_mod_multiples_basic(1, t);
    } else {
        assert(a % 2 == 0 && is_pow2(a / 2));
        assert(t % 2 == 0 && is_pow2(t / 2));
        lemma_pow2_divides(a / 2, t / 2);
        let k = (t / 2) / (a / 2);
        vstd::arithmetic::div_mod::lemma_fundamental_div_mod(t / 2, a / 2);
        assert(t == k * a) by (nonlinear_arith)
            requires
                t / 2 == (a / 2) * k,
                t == 2 * (t / 2),
                a == 2 * (a / 2),
        ;
        vstd::arithmetic::div_mod::lemma_mod_multiples_basic(k, a);
    }
}

/// An address aligned to the largest tier is aligned to every tier.
proof fn lemma_tier_aligned(x: int, i: int)
    requires
        0 <= i < 7,
        x % (LARGEST_TIER as int) == 0,
    ensures
        x % tier_size(i) == 0,
{
    lemma_tier_pow2(i);
    let t = tier_size(i);
    let k = 2048int / t;
    vstd::arithmetic::div_mod::lemma_fundamental_div_mod(2048, t);
    assert(t * k == 2048);
    vstd::arithmetic::div_mod::lemma_mod_mod(x, t, k);
}

/// The index of the tier that serves a request of `size` bytes aligned to
/// `align`, or `None` when it goes to the fallback heap.
pub fn tier_index(size: u64, align: u64) -> (r: Option<usize>)
    ensures
        r == (match tier_for(needed(size, align)) {
            Some(i) => Some(i as usize),
            None => None,
        }),
{
    let n = if size >= align { size } else { align };
    let mut i: usize = 0;
    while i < TIER_COUNT
        invariant
            0 <= i <= TIER_COUNT,
            n == needed(size, align),
            i > 0 ==> tier_size(i - 1) < n,
        decreases TIER_COUNT - i,
    {
        if tier_cell_size(i) >= n {
            return Some(i);
        }
        i = i + 1;
    }
    None
}

/// The slab tiers of the kernel heap over `[start, start + 8 * region)`:
/// tier `i` owns `[start + i * region, start + (i + 1) * region)` and the
/// fallback heap owns the last eighth.
pub struct Allocator {
    start: u64,
    region: u64,
    slabs: Vec<SlabAllocator>,
}

impl Allocator {
    /// First address of the managed range.
    pub closed spec fn heap_start(&self) -> int {
        self.start as int
    }

    /// Bytes in each tier's sub-range, and in the fallback's.
    pub closed spec fn region_size(&self) -> int {
        self.region as int
    }

    /// Slab tier `i`.
    pub closed spec fn tier(&self, i: int) -> SlabAllocator {
        self.slabs@[i]
    }

    pub closed spec fn wf(&self) -> bool {
        &&& self.slabs@.len() == TIER_COUNT
        &&& self.start + 8 * self.region <= u64::MAX
        &&& forall|i: int| #![trigger self.slabs@[i]]
            0 <= i < TIER_COUNT ==> {
                &&& self.slabs@[i].wf()
                &&& self.slabs@[i].cell_size() == tier_size(i)
                &&& self.slabs@[i].region_start() == self.start + i * self.region
                &&& self.slabs@[i].region_end() == self.start + (i + 1) * self.region
            }
    }

    /// A heap with no range yet: every request fails until `init`.
    pub fn new() -> (r: Self)
        ensures
            r.wf(),
            r.heap_start() == 0,
            r.region_size() == 0,
            forall|i: int| 0 <= i < TIER_COUNT ==> (#[trigger] r.tier(i)).live().is_empty(),
    {
        let mut slabs: Vec<SlabAllocator> = Vec::new();
        let mut i: usize = 0;
        while i < TIER_COUNT
            invariant
                0 <= i <= TIER_COUNT,
                slabs@.len() == i,
                forall|j: int| #![trigger slabs@[j]]
                    0 <= j < i ==> {
                        &&& slabs@[j].wf()
                        &&& slabs@[j].cell_size() == tier_size(j)
                        &&& slabs@[j].region_start() == 0
                        &&& slabs@[j].region_end() == 0
                        &&& slabs@[j].live().is_empty()
                    },
            decreases TIER_COUNT - i,
        {
            proof {
                lemma_tier_pow2(i as int);
            }
            slabs.push(SlabAllocator::new(tier_cell_size(i)));
            i = i + 1;
        }
        Allocator { start: 0, region: 0, slabs }
    }

    /// Splits `[start, start + size)` into eight equal sub-ranges, each a
    /// multiple of the largest cell, and gives the first seven to the tiers.
    pub fn init(&mut self, start: u64, size: u64)
        requires
            old(self).wf(),
            start > 0,
            start % 4096 == 0,
            start + size <= u64::MAX,
        ensures
            final(self).wf(),
            final(self).heap_start() == start,
            final(self).region_size() == size as int / 8 / (LARGEST_TIER as int) * (LARGEST_TIER as int),
            forall|i: int| 0 <= i < TIER_COUNT ==> (#[trigger] final(self).tier(i)).live().is_empty(),
    {
        let region = size / 8 / LARGEST_TIER * LARGEST_TIER;
        proof {
            assert(region <= size / 8) by {
                vstd::arithmetic::div_mod::lemma_fundamental_div_mod(size as int / 8, 2048);
            }
            assert(region % 2048 == 0) by {
                vstd::arithmetic::div_mod::lemma_mod_multiples_basic(size as int / 8 / 2048, 2048);
            }
        }
        let mut i: usize = 0;
        while i < TIER_COUNT
            invariant
                0 <= i <= TIER_COUNT,
                self.slabs@.len() == TIER_COUNT,
                region <= size / 8,
                region % 2048 == 0,
                start > 0,
                start % 4096 == 0,
                start + size <= u64::MAX,
                forall|j: int| #![trigger self.slabs@[j]]
                    0 <= j < TIER_COUNT ==> {
                        &&& self.slabs@[j].wf()
                        &&& self.slabs@[j].cell_size() == tier_size(j)
                    },
                forall|j: int| #![trigger self.slabs@[j]]
                    0 <= j < i ==> {
                        &&& self.slabs@[j].region_start() == start + j * region
                        &&& self.slabs@[j].region_end() == start + (j + 1) * region
                        &&& self.slabs@[j].live().is_empty()
                    },
            decreases TIER_COUNT - i,
        {
            proof {
                assert(i * region <= 8 * region) by (nonlinear_arith)
                    requires i <= 7, region >= 0;
                assert((i + 1) * region <= 8 * region) by (nonlinear_arith)
                    requires i <= 7, region >= 0;
                assert((i * region) % 2048 == 0) by {
                    vstd::arithmetic::div_mod::lemma_mod_multiples_vanish(0, 0, 2048);
                    vstd::arithmetic::mul::lemma_mul_is_commutative(i as int, region as int);
                    let k = region as int / 2048;
                    assert(region == k * 2048);
                    assert(i * region == (i * k) * 2048) by (nonlinear_arith)
                        requires region == k * 2048;
                    vstd::arithmetic::div_mod::lemma_mod_multiples_basic(i * k, 2048);
                }
                assert((start + i * region) % 2048 == 0) by {
                    vstd::arithmetic::div_mod::lemma_mod_adds(start as int, i * region, 2048);
                    vstd::arithmetic::div_mod::lemma_mod_mod(start as int, 2048, 2);
                }
                lemma_tier_aligned(start + i * region, i as int);
            }
            proof {
                vstd::arithmetic::div_mod::lemma_fundamental_div_mod(size as int, 8);
                assert(8 * region <= size);
                assert((i + 1) * region == i * region + region) by (nonlinear_arith);
            }
            assert(start + i * region + region <= start + size);
            let base = start + (i as u64) * region;
            let mut slab = self.slabs.remove(i);
            slab.init(base, region);
            self.slabs.insert(i, slab);
            proof {
                assert((i + 1) * region == i * region + region) by (nonlinear_arith);
            }
            i = i + 1;
        }
        self.start = start;
        self.region = region;
        proof {
            vstd::arithmetic::div_mod::lemma_fundamental_div_mod(size as int, 8);
        }
    }

    /// The sub-range left to the fallback heap, as (start, bytes).
    pub fn fallback_region(&self) -> (r: (u64, u64))
        requires
            self.wf(),
        ensures
            r.0 == self.heap_start() + 7 * self.region_size(),
            r.1 == self.region_size(),
    {
        (self.start + 7 * self.region, self.region)
    }

    /// Serves a request of `size` bytes aligned to `align` from the smallest
    /// tier that fits. Returns 0 when the request is larger than every tier
    /// (the fallback heap serves it) or when that tier is exhausted.
    pub fn alloc_layout(&mut self, size: u64, align: u64) -> (r: u64)
        requires
            old(self).wf(),
            is_pow2(align as int),
        ensures
            final(self).wf(),
            heap_alloc_post(*old(self), *final(self), size, align, r),
            r != 0 ==> {
                &&& r as int % align as int == 0
                &&& old(self).heap_start() <= r
                &&& r + size <= old(self).heap_start() + 8 * old(self).region_size()
                &&& tier_for(needed(size, align)) matches Some(i)
                    && old(self).heap_start() + i * old(self).region_size() <= r
                    && r + size <= old(self).heap_start() + (i + 1) * old(self).region_size()
            },
    {
        match tier_index(size, align) {
            None => 0,
            Some(i) => {
                let mut slab = self.slabs.remove(i);
                let r = slab.alloc_cell();
                self.slabs.insert(i, slab);
                proof {
                    let ghost s0 = old(self).slabs@[i as int];
                    if r != 0 {
                        lemma_tier_pow2(i as int);
                        let t = tier_size(i as int);
                        let base = s0.region_start();
                        s0.lemma_cells_aligned(r as int);
                        assert((r - base) % t == 0);
                        assert(r as int % t == 0) by {
                            vstd::arithmetic::div_mod::lemma_mod_adds(r - base, base, t);
                        }
                        assert(is_pow2(align as int));
                        lemma_pow2_divides(align as int, t);
                        let k = t / (align as int);
                        vstd::arithmetic::div_mod::lemma_fundamental_div_mod(t, align as int);
                        assert(align * k == t);
                        assert(align > 0);
                        assert(k > 0) by (nonlinear_arith)
                            requires align * k == t, t > 0, align > 0;
                        vstd::arithmetic::div_mod::lemma_mod_mod(r as int, align as int, k);
                        assert((i + 1) * self.region <= 8 * self.region) by (nonlinear_arith)
                            requires i <= 6, self.region >= 0;
                        assert(i * self.region >= 0) by (nonlinear_arith)
                            requires i >= 0, self.region >= 0;
                    }
                    assert forall|j: int| 0 <= j < TIER_COUNT && j != i implies self.slabs@[j] == old(self).slabs@[j] by {}
                }
                r
            }
        }
    }

    /// Returns a cell that `alloc_layout` handed out for the same `size` and
    /// `align`. Requests larger than every tier belong to the fallback heap
    /// and leave the tiers as they are.
    pub fn dealloc_layout(&mut self, ptr: u64, size: u64, align: u64)
        requires
            old(self).wf(),
            tier_for(needed(size, align)) matches Some(i) ==> old(self).tier(i).live().contains(ptr as int),
        ensures
            final(self).wf(),
            heap_dealloc_post(*old(self), *final(self), ptr, size, align),
    {
        match tier_index(size, align) {
            None => {},
            Some(i) => {
                let mut slab = self.slabs.remove(i);
                slab.dealloc_cell(ptr);
                self.slabs.insert(i, slab);
                proof {
                    assert forall|j: int| 0 <= j < TIER_COUNT && j != i implies self.slabs@[j] == old(self).slabs@[j] by {}
                }
            }
        }
    }

    /// For each tier, the bytes in use and the bytes of its sub-range.
    pub fn stats(&self) -> (r: Vec<(u64, u64)>)
        requires
            self.wf(),
        ensures
            r@.len() == TIER_COUNT,
            forall|i: int| 0 <= i < TIER_COUNT ==> (#[trigger] r@[i]).0 == self.tier(i).live().len() * self.tier(i).cell_size()
                && r@[i].1 == self.tier(i).region_end() - self.tier(i).region_start(),
    {
        let mut r: Vec<(u64, u64)> = Vec::new();
        let mut i: usize = 0;
        while i < TIER_COUNT
            invariant
                0 <= i <= TIER_COUNT,
                self.wf(),
                r@.len() == i,
                forall|j: int| 0 <= j < i ==> (#[trigger] r@[j]).0 == self.tier(j).live().len() * self.tier(j).cell_size()
                    && r@[j].1 == self.tier(j).region_end() - self.tier(j).region_start(),
            decreases TIER_COUNT - i,
        {
            r.push((self.slabs[i].used(), self.slabs[i].size()));
            i = i + 1;
        }
        r
    }
}

/// The tiers other than `i` are the same in `a0` and `a1`.
pub open spec fn others_unchanged(a0: Allocator, a1: Allocator, i: int) -> bool {
    forall|j: int| 0 <= j < TIER_COUNT && j != i ==> #[trigger] a1.tier(j) == a0.tier(j)
}

/// What `alloc_layout` does: the request goes to the tier `tier_for` picks,
/// and that tier does what `alloc_cell` does; a request no tier holds gets 0.
pub open spec fn heap_alloc_post(a0: Allocator, a1: Allocator, size: u64, align: u64, r: u64) -> bool {
    &&& a1.heap_start() == a0.heap_start()
    &&& a1.region_size() == a0.region_size()
    &&& match tier_for(needed(size, align)) {
        None => r == 0 && a1 == a0,
        Some(i) => slab_alloc_post(a0.tier(i), a1.tier(i), r) && others_unchanged(a0, a1, i),
    }
}

/// What `dealloc_layout` does: the cell goes back to the tier it came from.
pub open spec fn heap_dealloc_post(a0: Allocator, a1: Allocator, ptr: u64, size: u64, align: u64) -> bool {
    &&& a1.heap_start() == a0.heap_start()
    &&& a1.region_size() == a0.region_size()
    &&& match tier_for(needed(size, align)) {
        None => a1 == a0,
        Some(i) => slab_dealloc_post(a0.tier(i), a1.tier(i), ptr) && others_unchanged(a0, a1, i),
    }
}

/// Tier `i` owns the `i`-th of the eight equal sub-ranges of the heap and
/// cuts it into cells of `tier_size(i)` bytes; the eighth sub-range is the
/// fallback heap's.
pub proof fn lemma_tier_layout(a: Allocator, i: int)
    requires
        a.wf(),
        0 <= i < TIER_COUNT,
    ensures
        a.tier(i).cell_size() == tier_size(i),
        a.tier(i).region_start() == a.heap_start() + i * a.region_size(),
        a.tier(i).region_end() == a.heap_start() + (i + 1) * a.region_size(),
{
}

/// Live allocations never overlap: two distinct cells in use, in the same
/// tier or in two tiers, share no byte, and both lie in the managed range.
pub proof fn lemma_live_allocations_disjoint(a: Allocator, i: int, p: int, j: int, q: int)
    requires
        a.wf(),
        0 <= i < TIER_COUNT,
        0 <= j < TIER_COUNT,
        a.tier(i).live().contains(p),
        a.tier(j).live().contains(q),
        i != j || p != q,
    ensures
        p + tier_size(i) <= q || q + tier_size(j) <= p,
        a.heap_start() <= p && p + tier_size(i) <= a.heap_start() + 8 * a.region_size(),
{
    let s = a.heap_start();
    let r = a.region_size();
    a.tier(i).lemma_live_is_cell(p);
    a.tier(j).lemma_live_is_cell(q);
    assert(a.tier(i) == a.slabs@[i] && a.tier(j) == a.slabs@[j]);
    assert((i + 1) * r <= 8 * r) by (nonlinear_arith)
        requires i < 8, r >= 0;
    assert(i * r >= 0) by (nonlinear_arith)
        requires i >= 0, r >= 0;
    if i == j {
        let t = tier_size(i);
        let b = s + i * r;
        let m = (p - b) / t;
        let n = (q - b) / t;
        vstd::arithmetic::div_mod::lemma_fundamental_div_mod(p - b, t);
        vstd::arithmetic::div_mod::lemma_fundamental_div_mod(q - b, t);
        assert(p - b == t * m && q - b == t * n);
        if m < n {
            assert(t * m + t <= t * n) by (nonlinear_arith)
                requires m < n, t > 0;
        } else {
            assert(m != n);
            assert(t * n + t <= t * m) by (nonlinear_arith)
                requires n < m, t > 0;
        }
    } else if i < j {
        assert((i + 1) * r <= j * r) by (nonlinear_arith)
            requires i + 1 <= j, r >= 0;
    } else {
        assert((j + 1) * r <= i * r) by (nonlinear_arith)
            requires j + 1 <= i, r >= 0;
    }
}

/// A cell freed and asked for again with the same layout comes back from the
/// same tier: allocate, free, allocate returns the same address.
pub proof fn lemma_slab_round_trip(
    a0: Allocator,
    a1: Allocator,
    a2: Allocator,
    a3: Allocator,
    size: u64,
    align: u64,
    p: u64,
    q: u64,
)
    requires
        a0.wf(),
        heap_alloc_post(a0, a1, size, align, p),
        p != 0,
        heap_dealloc_post(a1, a2, p, size, align),
        heap_alloc_post(a2, a3, size, align, q),
    ensures
        q == p,
        tier_for(needed(size, align)) matches Some(i) && a3.tier(i).live().contains(q as int)
            && a3.tier(i).is_cell(q as int),
{
}

/// Sets up the kernel heap over `[MANAGED_START, MANAGED_END)`.
pub fn init(heap: &mut Allocator)
    requires
        old(heap).wf(),
    ensures
        final(heap).wf(),
        final(heap).heap_start() == MANAGED_START,
        8 * final(heap).region_size() <= MANAGED_END - MANAGED_START,
        forall|i: int| 0 <= i < TIER_COUNT ==> (#[trigger] final(heap).tier(i)).live().is_empty(),
{
    heap.init(MANAGED_START, MANAGED_END - MANAGED_START);
}

} // verus!
