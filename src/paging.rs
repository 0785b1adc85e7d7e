//! The kernel address space: which virtual page maps to which physical
//! frame, the search for free virtual ranges, and lazy backing of the heap.
use vstd::prelude::*;
use std::collections::HashMap;
use crate::frames::{frame_alloc_post, BootInfoFrameAllocator, FRAME_SIZE};
use crate::heap::{MANAGED_END, MANAGED_START};

verus! {

broadcast use vstd::std_specs::hash::group_hash_axioms;

/// Bytes in one page.
pub const PAGE_SIZE: u64 = 4096;

/// The entry is valid.
pub const PRESENT: u64 = 1;

/// The page may be written.
pub const WRITABLE: u64 = 2;

/// The page is reachable from user mode.
pub const USER_ACCESSIBLE: u64 = 4;

/// First page of the window where device memory is mapped.
pub const DEVICE_REGION_START: u64 = 0xFFFF_8000_0000_0000;

/// Last page of the window where device memory is mapped (exclusive bound).
pub const DEVICE_REGION_END: u64 = 0xFFFF_FFFF_FFFF_F000;

/// Why a change to the address space failed.
#[derive(Clone, Copy, Debug, PartialEq, Eq)]
pub enum MapError {
    /// The page already has an entry.
    PageAlreadyMapped,
    /// No run of free pages of the requested length in the region.
    OutOfVirtualAddress,
    /// The frame allocator has no frame left.
    OutOfFrames,
}

/// One page-table entry: the frame it maps to and its flags.
#[derive(Clone, Copy, Debug, PartialEq, Eq)]
pub struct Mapping {
    pub frame: u64,
    pub flags: u64,
}

/// The page that holds `va`.
pub open spec fn page_of(va: int) -> int {
    va - va % (PAGE_SIZE as int)
}

/// What `translate` answers for `va` in a page table `m`.
pub open spec fn spec_translate(m: Map<u64, Mapping>, va: u64) -> Option<u64> {
    let p = page_of(va as int) as u64;
    if m.contains_key(p) {
        Some((m[p].frame + va % PAGE_SIZE) as u64)
    } else {
        None
    }
}

/// `va` is a page that may be handed out: unmapped and not the null page.
pub open spec fn page_available(m: Map<u64, Mapping>, va: int) -> bool {
    !m.contains_key(va as u64) && va != 0
}

/// The `n` pages from `va` on are all available.
pub open spec fn run_free(m: Map<u64, Mapping>, va: int, n: int) -> bool {
    forall|k: int| 0 <= k < n ==> #[trigger] page_available(m, va + k * PAGE_SIZE as int)
}

/// The kernel's page table, keyed by page address, and the offset at which
/// the loader maps all of physical memory.
pub struct AddressSpace {
    pages: HashMap<u64, Mapping>,
    phys_offset: u64,
}

impl AddressSpace {
    /// The page table as a map from page address to entry.
    pub closed spec fn view(&self) -> Map<u64, Mapping> {
        self.pages@
    }

    /// Where physical address 0 appears in virtual memory.
    pub closed spec fn spec_phys_offset(&self) -> u64 {
        self.phys_offset
    }

    pub closed spec fn wf(&self) -> bool {
        &&& forall|p: u64| #[trigger] self.pages@.contains_key(p) ==> p % PAGE_SIZE == 0
        &&& forall|p: u64| #[trigger] self.pages@.contains_key(p) ==> self.pages@[p].frame % FRAME_SIZE == 0
        &&& forall|p: u64| #[trigger] self.pages@.contains_key(p) ==> self.pages@[p].frame < 0x0010_0000_0000_0000
    }

    /// An address space with no entries.
    pub fn new(phys_offset: u64) -> (r: Self)
        ensures
            r.wf(),
            r@ == Map::<u64, Mapping>::empty(),
            r.spec_phys_offset() == phys_offset,
    {
        proof {
            broadcast use vstd::std_specs::hash::group_hash_axioms;
        }
        AddressSpace { pages: HashMap::new(), phys_offset }
    }

    fn align_down(va: u64) -> (r: u64)
        ensures
            r == page_of(va as int),
            r % PAGE_SIZE == 0,
    {
        let r = va - va % PAGE_SIZE;
        proof {
            vstd::arithmetic::div_mod::lemma_fundamental_div_mod(va as int, PAGE_SIZE as int);
            vstd::arithmetic::div_mod::lemma_mod_multiples_basic(va as int / PAGE_SIZE as int, PAGE_SIZE as int);
        }
        r
    }

    /// Maps the page holding `va` to the frame holding `pa`.
    pub fn map(&mut self, va: u64, pa: u64, flags: u64) -> (r: Result<(), MapError>)
        requires
            old(self).wf(),
            pa < 0x0010_0000_0000_0000,
        ensures
            final(self).wf(),
            final(self).spec_phys_offset() == old(self).spec_phys_offset(),
            old(self)@.contains_key(page_of(va as int) as u64) ==> r == Err::<(), MapError>(MapError::PageAlreadyMapped)
                && final(self)@ == old(self)@,
            !old(self)@.contains_key(page_of(va as int) as u64) ==> r is Ok && final(self)@ == old(self)@.insert(
                page_of(va as int) as u64,
                Mapping { frame: page_of(pa as int) as u64, flags },
            ),
    {
        let page = Self::align_down(va);
        let frame = Self::align_down(pa);
        if self.pages.contains_key(&page) {
            return Err(MapError::PageAlreadyMapped);
        }
        self.pages.insert(page, Mapping { frame, flags });
        Ok(())
    }

    /// Removes the entry of the page holding `va` and returns its frame.
    pub fn unmap(&mut self, va: u64) -> (r: Option<u64>)
        requires
            old(self).wf(),
        ensures
            final(self).wf(),
            final(self).spec_phys_offset() == old(self).spec_phys_offset(),
            final(self)@ == old(self)@.remove(page_of(va as int) as u64),
            r == (if old(self)@.contains_key(page_of(va as int) as u64) {
                Some(old(self)@[page_of(va as int) as u64].frame)
            } else {
                None
            }),
    {
        let page = Self::align_down(va);
        match self.pages.remove(&page) {
            Some(m) => Some(m.frame),
            None => None,
        }
    }

    /// The physical address that `va` maps to, if its page is mapped.
    pub fn translate(&self, va: u64) -> (r: Option<u64>)
        requires
            self.wf(),
        ensures
            r == spec_translate(self@, va),
    {
        let page = Self::align_down(va);
        match self.pages.get(&page) {
            Some(m) => {
                proof {
                    assert(self.pages@.contains_key(page));
                }
                Some(m.frame + va % PAGE_SIZE)
            },
            None => None,
        }
    }

    /// Replaces the flags of the page holding `va`; false if it is unmapped.
    pub fn set_flags(&mut self, va: u64, flags: u64) -> (r: bool)
        requires
            old(self).wf(),
        ensures
            final(self).wf(),
            final(self).spec_phys_offset() == old(self).spec_phys_offset(),
            r == old(self)@.contains_key(page_of(va as int) as u64),
            r ==> final(self)@ == old(self)@.insert(
                page_of(va as int) as u64,
                Mapping { frame: old(self)@[page_of(va as int) as u64].frame, flags },
            ),
            !r ==> final(self)@ == old(self)@,
    {
        let page = Self::align_down(va);
        match self.pages.get(&page) {
            Some(m) => {
                let frame = m.frame;
                self.pages.insert(page, Mapping { frame, flags });
                true
            },
            None => false,
        }
    }

    /// The virtual address at which the loader's direct map shows `pa`.
    pub fn translate_phys_addr(&self, pa: u64) -> (r: u64)
        requires
            self.spec_phys_offset() + pa <= u64::MAX,
        ensures
            r == self.spec_phys_offset() + pa,
    {
        self.phys_offset + pa
    }

    /// Whether the page at `va` may be handed out.
    pub fn available(&self, va: u64) -> (r: bool)
        ensures
            r == page_available(self@, va as int),
    {
        !self.pages.contains_key(&va) && va != 0
    }

    /// The first page of `[start, end)` that begins a run of `num_pages`
    /// available pages, scanning page by page; `None` when there is none.
    pub fn search_free_addr_from(&self, num_pages: u64, start: u64, end: u64) -> (r: Option<u64>)
        requires
            num_pages > 0,
            end <= u64::MAX - PAGE_SIZE + 1,
        ensures
            match r {
                Some(v) => {
                    &&& start <= v < end
                    &&& (v - start) % PAGE_SIZE as int == 0
                    &&& v + (num_pages - 1) * PAGE_SIZE < end
                    &&& run_free(self@, v as int, num_pages as int)
                    &&& forall|i: int| 0 <= i && #[trigger] (start + i * PAGE_SIZE) < v
                        ==> !run_free(self@, start + i * PAGE_SIZE, num_pages as int)
                },
                None => forall|i: int| 0 <= i && #[trigger] (start + i * PAGE_SIZE) + (num_pages - 1) * PAGE_SIZE < end
                    ==> !run_free(self@, start + i * PAGE_SIZE, num_pages as int),
            },
    {
        if start >= end {
            return None;
        }
        let mut cnt: u64 = 0;
        let mut cur: u64 = start;
        let ghost mut m: int = 0;
        while cur < end
            invariant
                num_pages > 0,
                start < end <= u64::MAX - PAGE_SIZE + 1,
                m >= 0,
                cur == start + m * PAGE_SIZE,
                cur <= end + PAGE_SIZE,
                cnt < num_pages,
                cnt <= m,
                forall|k: int| 0 < k <= cnt ==> #[trigger] page_available(self@, cur - k * PAGE_SIZE as int),
                cnt < m ==> !page_available(self@, cur - (cnt + 1) * PAGE_SIZE as int),
                forall|i: int| 0 <= i && #[trigger] (start + i * PAGE_SIZE) + num_pages * PAGE_SIZE <= cur
                    ==> !run_free(self@, start + i * PAGE_SIZE, num_pages as int),
            decreases end + PAGE_SIZE - cur,
        {
            let ghost old_cur = cur;
            let ghost old_cnt = cnt;
            if self.available(cur) {
                cnt = cnt + 1;
                if cnt >= num_pages {
                    let v = cur - (cnt - 1) * PAGE_SIZE;
                    proof {
                        assert forall|k: int| 0 <= k < num_pages implies #[trigger] page_available(self@, v + k * PAGE_SIZE as int) by {
                            if k < num_pages - 1 {
                                assert(page_available(self@, old_cur - (old_cnt - k) * PAGE_SIZE as int));
                            }
                        }
                        assert forall|i: int| 0 <= i && #[trigger] (start + i * PAGE_SIZE) < v
                            implies !run_free(self@, start + i * PAGE_SIZE, num_pages as int) by {
                            assert((start + i * PAGE_SIZE) + num_pages * PAGE_SIZE <= old_cur);
                        }
                        assert(v - start == (m - (cnt - 1)) * PAGE_SIZE);
                        vstd::arithmetic::div_mod::lemma_mod_multiples_basic(m - (cnt - 1), PAGE_SIZE as int);
                    }
                    return Some(v);
                }
                proof {
                    assert forall|k: int| 0 < k <= cnt implies #[trigger] page_available(self@, (old_cur + PAGE_SIZE) - k * PAGE_SIZE as int) by {
                        if k > 1 {
                            assert(page_available(self@, old_cur - (k - 1) * PAGE_SIZE as int));
                        }
                    }
                    assert forall|i: int| 0 <= i && #[trigger] (start + i * PAGE_SIZE) + num_pages * PAGE_SIZE <= old_cur + PAGE_SIZE
                        implies !run_free(self@, start + i * PAGE_SIZE, num_pages as int) by {
                        let u = start + i * PAGE_SIZE;
                        if u + num_pages * PAGE_SIZE == old_cur + PAGE_SIZE {
                            let k = num_pages - old_cnt - 2;
                            assert(u + k * PAGE_SIZE == old_cur - (old_cnt + 1) * PAGE_SIZE);
                            assert(!page_available(self@, u + k * PAGE_SIZE as int));
                        } else {
                            assert(u + num_pages * PAGE_SIZE <= old_cur);
                        }
                    }
                }
            } else {
                cnt = 0;
                proof {
                    assert forall|i: int| 0 <= i && #[trigger] (start + i * PAGE_SIZE) + num_pages * PAGE_SIZE <= old_cur + PAGE_SIZE
                        implies !run_free(self@, start + i * PAGE_SIZE, num_pages as int) by {
                        let u = start + i * PAGE_SIZE;
                        if u + num_pages * PAGE_SIZE == old_cur + PAGE_SIZE {
                            let k = num_pages - 1;
                            assert(u + k * PAGE_SIZE == old_cur);
                            assert(!page_available(self@, u + k * PAGE_SIZE as int));
                        } else {
                            assert(u + num_pages * PAGE_SIZE <= old_cur);
                        }
                    }
                }
            }
            cur = cur + PAGE_SIZE;
            proof {
                m = m + 1;
            }
        }
        proof {
            assert forall|i: int| 0 <= i && #[trigger] (start + i * PAGE_SIZE) + (num_pages - 1) * PAGE_SIZE < end
                implies !run_free(self@, start + i * PAGE_SIZE, num_pages as int) by {
                assert((start + i * PAGE_SIZE) + num_pages * PAGE_SIZE <= cur);
            }
        }
        None
    }
}

/// Adding whole pages and an in-page offset `o` to an aligned `v` leaves `o`
/// as the offset.
proof fn lemma_page_offset(v: int, i: int, o: int)
    requires
        v % PAGE_SIZE as int == 0,
        0 <= o < PAGE_SIZE,
    ensures
        (v + i * PAGE_SIZE + o) % PAGE_SIZE as int == o,
        (v + i * PAGE_SIZE) % PAGE_SIZE as int == 0,
{
    let p = PAGE_SIZE as int;
    vstd::arithmetic::div_mod::lemma_fundamental_div_mod(v, p);
    assert(v + i * p + o == p * (v / p + i) + o);
    vstd::arithmetic::div_mod::lemma_mod_multiples_vanish(v / p + i, o, p);
    vstd::arithmetic::div_mod::lemma_small_mod(o as nat, p as nat);
    assert(v + i * p == p * (v / p + i) + 0);
    vstd::arithmetic::div_mod::lemma_mod_multiples_vanish(v / p + i, 0, p);
}

/// `m1` is `m0` with the `n` pages from `v` on mapped, in order, to the
/// frames from `f` on, with `flags`; every other entry is as it was.
pub open spec fn installs_run(m0: Map<u64, Mapping>, m1: Map<u64, Mapping>, v: int, f: int, n: int, flags: u64) -> bool {
    &&& forall|p: u64| #[trigger] m1.contains_key(p) <==> m0.contains_key(p) || (v <= p < v + n * PAGE_SIZE && (p - v) % PAGE_SIZE as int == 0)
    &&& forall|p: u64| #[trigger] m0.contains_key(p) ==> m1[p] == m0[p]
    &&& forall|k: int| 0 <= k < n ==> m1[#[trigger] (v + k * PAGE_SIZE) as u64] == Mapping { frame: (f + k * PAGE_SIZE) as u64, flags }
}

/// Byte `k` of an object mapped by `installs_run` from an aligned `v`
/// translates to the same byte of physical memory.
proof fn lemma_translate_byte(m0: Map<u64, Mapping>, m1: Map<u64, Mapping>, v: int, pa: int, size: int, flags: u64, k: int)
    requires
        installs_run(m0, m1, v, page_of(pa), pages_spanned(pa, size), flags),
        v % PAGE_SIZE as int == 0,
        v >= 0,
        v + pages_spanned(pa, size) * PAGE_SIZE <= u64::MAX + 1,
        0 <= pa,
        0 <= size,
        pa + size < 0x0010_0000_0000_0000,
        0 <= k < size,
    ensures
        spec_translate(m1, (v + pa % PAGE_SIZE as int + k) as u64) == Some((pa + k) as u64),
{
    let p = PAGE_SIZE as int;
    let o = pa % p;
    let first = pa - o;
    vstd::arithmetic::div_mod::lemma_fundamental_div_mod(pa, p);
    assert(first % p == 0) by {
        vstd::arithmetic::div_mod::lemma_mod_multiples_basic(pa / p, p);
        assert(first == (pa / p) * p);
    }
    let t = o + k;
    let j = t / p;
    let rem = t % p;
    vstd::arithmetic::div_mod::lemma_fundamental_div_mod(t, p);
    assert(t == j * p + rem);
    let q = (o + size) / p;
    let r2 = (o + size) % p;
    vstd::arithmetic::div_mod::lemma_fundamental_div_mod(o + size, p);
    lemma_page_offset(first, q, r2);
    assert(pa + size == first + q * p + r2);
    assert(page_of(pa + size) == first + q * p);
    assert(page_of(pa) == first);
    assert((first + q * p - first) / p == q) by {
        vstd::arithmetic::div_mod::lemma_div_multiples_vanish(q, p);
        assert(q * p == p * q);
    }
    assert(pages_spanned(pa, size) == q + 1);
    vstd::arithmetic::div_mod::lemma_div_is_ordered(t, o + size, p);
    assert(j <= q);
    assert(j >= 0) by {
        vstd::arithmetic::div_mod::lemma_div_pos_is_pos(t, p);
    }
    lemma_page_offset(v, j, rem);
    let va = v + o + k;
    assert(va == v + j * p + rem);
    assert(page_of(va) == v + j * p);
    let page = (v + j * p) as u64;
    assert((v + j * p - v) % p == 0) by {
        vstd::arithmetic::div_mod::lemma_mod_multiples_basic(j, p);
    }
    assert(m1.contains_key(page));
    assert(m1[(v + j * PAGE_SIZE) as u64] == Mapping { frame: (first + j * PAGE_SIZE) as u64, flags });
}

/// Pages needed to map `size` bytes of physical memory from `pa` on.
pub open spec fn pages_spanned(pa: int, size: int) -> int {
    (page_of(pa + size) - page_of(pa)) / PAGE_SIZE as int + 1
}

impl AddressSpace {
    /// Maps the frames that hold `[pa, pa + size)` at the first free run of
    /// pages in `[start, end)`, present, writable and user-accessible, and
    /// returns where `pa` itself now appears.
    pub fn map_pages_from(&mut self, pa: u64, size: u64, start: u64, end: u64) -> (r: Result<u64, MapError>)
        requires
            old(self).wf(),
            pa + size < 0x0010_0000_0000_0000,
            start % PAGE_SIZE == 0,
            end <= u64::MAX - PAGE_SIZE + 1,
        ensures
            final(self).wf(),
            final(self).spec_phys_offset() == old(self).spec_phys_offset(),
            match r {
                Ok(va) => {
                    let v = va - pa % PAGE_SIZE;
                    let n = pages_spanned(pa as int, size as int);
                    &&& start <= v < end
                    &&& (v - start) % PAGE_SIZE as int == 0
                    &&& run_free(old(self)@, v, n)
                    &&& forall|i: int| 0 <= i && #[trigger] (start + i * PAGE_SIZE) < v
                        ==> !run_free(old(self)@, start + i * PAGE_SIZE, n)
                    &&& installs_run(old(self)@, final(self)@, v, page_of(pa as int), n, PRESENT | WRITABLE | USER_ACCESSIBLE)
                    &&& spec_translate(final(self)@, va) == Some(pa)
                    &&& va % PAGE_SIZE == pa % PAGE_SIZE
                    &&& forall|k: int| 0 <= k < size ==> spec_translate(final(self)@, #[trigger] (va + k) as u64) == Some((pa + k) as u64)
                },
                Err(e) => {
                    &&& e == MapError::OutOfVirtualAddress
                    &&& final(self)@ == old(self)@
                    &&& forall|i: int| 0 <= i && #[trigger] (start + i * PAGE_SIZE) + (pages_spanned(pa as int, size as int) - 1) * PAGE_SIZE < end
                        ==> !run_free(old(self)@, start + i * PAGE_SIZE, pages_spanned(pa as int, size as int))
                },
            },
    {
        let first = Self::align_down(pa);
        let last = Self::align_down(pa + size);
        proof {
            vstd::arithmetic::div_mod::lemma_fundamental_div_mod(pa as int, PAGE_SIZE as int);
            vstd::arithmetic::div_mod::lemma_fundamental_div_mod((pa + size) as int, PAGE_SIZE as int);
        }
        let num_pages = (last - first) / PAGE_SIZE + 1;
        let v = match self.search_free_addr_from(num_pages, start, end) {
            Some(v) => v,
            None => return Err(MapError::OutOfVirtualAddress),
        };
        proof {
            vstd::arithmetic::div_mod::lemma_mod_adds((v - start) as int, start as int, PAGE_SIZE as int);
        }
        let flags = PRESENT | WRITABLE | USER_ACCESSIBLE;
        let ghost m0 = self@;
        let mut i: u64 = 0;
        while i < num_pages
            invariant
                self.wf(),
                self.phys_offset == old(self).phys_offset,
                m0 == old(self)@,
                0 <= i <= num_pages,
                start <= v < end,
                v + (num_pages - 1) * PAGE_SIZE < end,
                end <= u64::MAX - PAGE_SIZE + 1,
                v % PAGE_SIZE == 0,
                first % PAGE_SIZE == 0,
                first + (num_pages - 1) * PAGE_SIZE <= last,
                last < 0x0010_0000_0000_0000,
                run_free(m0, v as int, num_pages as int),
                installs_run(m0, self@, v as int, first as int, i as int, flags),
            decreases num_pages - i,
        {
            let page = v + i * PAGE_SIZE;
            let frame = first + i * PAGE_SIZE;
            proof {
                assert(page_available(m0, v + i * PAGE_SIZE as int));
                assert(!self@.contains_key(page)) by {
                    if self@.contains_key(page) {
                        assert(!m0.contains_key(page));
                        assert(v <= page < v + i * PAGE_SIZE);
                    }
                }
                lemma_page_offset(v as int, i as int, 0);
                assert(frame % FRAME_SIZE == 0) by {
                    vstd::arithmetic::div_mod::lemma_mod_adds(first as int, i * PAGE_SIZE as int, PAGE_SIZE as int);
                    vstd::arithmetic::div_mod::lemma_mod_multiples_basic(i as int, PAGE_SIZE as int);
                }
            }
            self.pages.insert(page, Mapping { frame, flags });
            proof {
                let m1 = self@;
                assert forall|k: int| 0 <= k < i + 1 implies m1[#[trigger] (v + k * PAGE_SIZE) as u64] == Mapping { frame: (first + k * PAGE_SIZE) as u64, flags } by {
                    if k < i {
                        assert((v + k * PAGE_SIZE) as u64 != page);
                    }
                }
                assert forall|p: u64| #[trigger] m1.contains_key(p) <==> m0.contains_key(p) || (v <= p < v + (i + 1) * PAGE_SIZE && (p - v) % PAGE_SIZE as int == 0) by {
                    if p == page {
                        vstd::arithmetic::div_mod::lemma_mod_multiples_basic(i as int, PAGE_SIZE as int);
                    }
                    if v <= p < v + (i + 1) * PAGE_SIZE && (p - v) % PAGE_SIZE as int == 0 && !(p < v + i * PAGE_SIZE) {
                        vstd::arithmetic::div_mod::lemma_fundamental_div_mod(p - v, PAGE_SIZE as int);
                        assert(p == page);
                    }
                }
                assert forall|p: u64| #[trigger] m0.contains_key(p) implies m1[p] == m0[p] by {
                    if p == page {
                        assert(page_available(m0, p as int));
                    }
                }
            }
            i = i + 1;
        }
        let va = v + pa % PAGE_SIZE;
        proof {
            assert(self@.contains_key(v));
            assert(self@[(v + 0 * PAGE_SIZE) as u64].frame == first);
            lemma_page_offset(v as int, 0, (pa % PAGE_SIZE) as int);
            assert(page_of(va as int) == v);
            assert(num_pages == pages_spanned(pa as int, size as int));
            assert(installs_run(old(self)@, self@, v as int, page_of(pa as int), pages_spanned(pa as int, size as int), flags));
            assert forall|k: int| 0 <= k < size implies spec_translate(self@, #[trigger] (va + k) as u64) == Some((pa + k) as u64) by {
                lemma_translate_byte(old(self)@, self@, v as int, pa as int, size as int, flags, k);
            }
        }
        Ok(va)
    }
}

impl AddressSpace {
    /// Backs a heap page on first touch. Addresses outside the managed heap
    /// range, or already mapped, give `Ok(false)` and change nothing;
    /// otherwise one frame is taken and mapped present and writable at the
    /// page holding `address`, giving `Ok(true)`, or `Err(OutOfFrames)` when
    /// no frame is left.
    pub fn lazy_map(&mut self, frames: &mut BootInfoFrameAllocator, address: u64) -> (r: Result<bool, MapError>)
        requires
            old(self).wf(),
            old(frames).wf(),
        ensures
            final(self).wf(),
            final(frames).wf(),
            final(self).spec_phys_offset() == old(self).spec_phys_offset(),
            r == Ok::<bool, MapError>(false) <==> (address < MANAGED_START || address >= MANAGED_END
                || old(self)@.contains_key(page_of(address as int) as u64)),
            r == Ok::<bool, MapError>(false) ==> final(self)@ == old(self)@ && *final(frames) == *old(frames),
            r == Err::<bool, MapError>(MapError::OutOfFrames) ==> final(self)@ == old(self)@
                && frame_alloc_post(*old(frames), *final(frames), None),
            r == Ok::<bool, MapError>(true) ==> exists|f: u64| {
                &&& frame_alloc_post(*old(frames), *final(frames), Some(f))
                &&& final(self)@ == old(self)@.insert(page_of(address as int) as u64, Mapping { frame: f, flags: PRESENT | WRITABLE })
            },
            r is Ok || r == Err::<bool, MapError>(MapError::OutOfFrames),
            r == Err::<bool, MapError>(MapError::OutOfFrames) <==> (MANAGED_START <= address < MANAGED_END
                && !old(self)@.contains_key(page_of(address as int) as u64)
                && old(frames).freed().len() == 0 && old(frames).next_fresh() is None),
    {
        if address < MANAGED_START || address >= MANAGED_END {
            return Ok(false);
        }
        if self.translate(address).is_some() {
            return Ok(false);
        }
        let page = Self::align_down(address);
        match frames.allocate_frame() {
            None => Err(MapError::OutOfFrames),
            Some(f) => {
                proof {
                    frames.lemma_frame_bound(f);
                }
                let mapped = self.map(page, f, PRESENT | WRITABLE);
                proof {
                    assert(page_of(page as int) == page);
                    assert(page_of(f as int) == f);
                }
                Ok(true)
            },
        }
    }
}

/// Maps `size` bytes of device memory at physical `pa` into the device
/// window and returns where `pa` appears.
pub fn map_address(space: &mut AddressSpace, pa: u64, size: u64) -> (r: Result<u64, MapError>)
    requires
        old(space).wf(),
        pa + size < 0x0010_0000_0000_0000,
    ensures
        final(space).wf(),
        r matches Ok(va) ==> spec_translate(final(space)@, va) == Some(pa) && DEVICE_REGION_START <= va,
        r matches Ok(va) ==> va % PAGE_SIZE == pa % PAGE_SIZE
            && forall|k: int| 0 <= k < size ==> spec_translate(final(space)@, #[trigger] (va + k) as u64) == Some((pa + k) as u64),
        r matches Ok(va) ==> installs_run(old(space)@, final(space)@, va - pa % PAGE_SIZE, page_of(pa as int),
            pages_spanned(pa as int, size as int), PRESENT | WRITABLE | USER_ACCESSIBLE),
        r is Err ==> final(space)@ == old(space)@ && r == Err::<u64, MapError>(MapError::OutOfVirtualAddress),
        r is Err ==> forall|i: int| 0 <= i && #[trigger] (DEVICE_REGION_START + i * PAGE_SIZE) + (pages_spanned(pa as int, size as int) - 1) * PAGE_SIZE < DEVICE_REGION_END
            ==> !run_free(old(space)@, DEVICE_REGION_START + i * PAGE_SIZE, pages_spanned(pa as int, size as int)),
{
    space.map_pages_from(pa, size, DEVICE_REGION_START, DEVICE_REGION_END)
}

/// The physical address behind virtual `va`, if it is mapped.
pub fn translate_virt_addr(space: &AddressSpace, va: u64) -> (r: Option<u64>)
    requires
        space.wf(),
    ensures
        r == spec_translate(space@, va),
{
    space.translate(va)
}

/// The virtual address at which the direct map shows physical `pa`.
pub fn translate_phys_addr(space: &AddressSpace, pa: u64) -> (r: u64)
    requires
        space.spec_phys_offset() + pa <= u64::MAX,
    ensures
        r == space.spec_phys_offset() + pa,
{
    space.translate_phys_addr(pa)
}

/// Every address in a mapped page translates, to its frame plus the offset
/// within the page; an address in an unmapped page does not.
pub proof fn lemma_mapped_page_translates(m: Map<u64, Mapping>, va: u64)
    ensures
        m.contains_key(page_of(va as int) as u64) ==> spec_translate(m, va) == Some(
            (m[page_of(va as int) as u64].frame + va % PAGE_SIZE) as u64,
        ),
        !m.contains_key(page_of(va as int) as u64) ==> spec_translate(m, va) is None,
{
}

/// What a page-fault error code says.
#[derive(Clone, Copy, Debug, PartialEq, Eq)]
pub struct PageFaultReason {
    /// The page was present: a protection violation, not a missing page.
    pub protection_violation: bool,
    /// The access was a write.
    pub caused_by_write: bool,
    /// The access came from user mode.
    pub user_mode: bool,
    /// A reserved bit was set in a paging entry.
    pub malformed_table: bool,
    /// The access was an instruction fetch.
    pub instruction_fetch: bool,
}

/// Decodes bits 0 to 4 of a page-fault error code.
pub fn decode_page_fault(error_code: u64) -> (r: PageFaultReason)
    ensures
        r.protection_violation == (error_code % 2 == 1),
        r.caused_by_write == ((error_code / 2) % 2 == 1),
        r.user_mode == ((error_code / 4) % 2 == 1),
        r.malformed_table == ((error_code / 8) % 2 == 1),
        r.instruction_fetch == ((error_code / 16) % 2 == 1),
{
    PageFaultReason {
        protection_violation: error_code % 2 == 1,
        caused_by_write: (error_code / 2) % 2 == 1,
        user_mode: (error_code / 4) % 2 == 1,
        malformed_table: (error_code / 8) % 2 == 1,
        instruction_fetch: (error_code / 16) % 2 == 1,
    }
}

} // verus!
