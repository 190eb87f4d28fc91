//! Physical-page allocator.
//!
//! One byte of state per physical page: `0` means free, `RESERVED` (255) means
//! never allocatable, and `1..=254` is a reference count used for
//! copy-on-write sharing.

use vstd::prelude::*;

verus! {

use crate::PAGE_SIZE;

/// Number of physical pages tracked (64 Ki pages = 256 MiB).
pub const MAX_PAGES: usize = 65536;

/// Marker for a page that is never allocatable.
pub const RESERVED: u8 = 255;

/// First page that the allocator may hand out; the first megabyte
/// (BIOS, VGA) is never allocated.
pub const FIRST_ALLOC_PAGE: usize = 256;

/// One entry of the BIOS E820 memory map.
pub struct MMapEntry {
    pub base: u64,
    pub length: u64,
    pub typ: u32,
    pub acpi: u32,
}

/// First page fully inside an E820 region.
pub open spec fn region_first_page(e: MMapEntry) -> int {
    (e.base + PAGE_SIZE - 1) / PAGE_SIZE as int
}

/// First page past the last page fully inside an E820 region.
pub open spec fn region_end_page(e: MMapEntry) -> int {
    (e.base + e.length) / PAGE_SIZE as int
}

/// Whether page `p` lies in a usable (type 1) region among the first `count`
/// entries of the map.
pub open spec fn page_is_usable(entries: Seq<MMapEntry>, count: int, p: int) -> bool {
    exists|i: int|
        0 <= i < count && i < entries.len() && #[trigger] entries[i].typ == 1
            && region_first_page(entries[i]) <= p < region_end_page(entries[i])
}

/// The reference count that initialisation gives page `p`.
pub open spec fn init_ref_count(
    entries: Seq<MMapEntry>,
    count: int,
    kernel_low: int,
    kernel_high: int,
    p: int,
) -> u8 {
    if kernel_low <= p < kernel_high {
        1u8
    } else if p < FIRST_ALLOC_PAGE {
        RESERVED
    } else if page_is_usable(entries, count, p) {
        0u8
    } else {
        RESERVED
    }
}

/// Free every tracked page of one usable region.
fn free_region(refs: &mut Vec<u8>, entry: &MMapEntry)
    requires
        old(refs)@.len() == MAX_PAGES,
    ensures
        final(refs)@.len() == MAX_PAGES,
        forall|q: int|
            0 <= q < MAX_PAGES ==> final(refs)@[q] == (if entry.typ == 1 && region_first_page(
                *entry,
            ) <= q < region_end_page(*entry) {
                0u8
            } else {
                old(refs)@[q]
            }),
{
    if entry.typ != 1 {
        return ;
    }
    let cap: u64 = (MAX_PAGES * PAGE_SIZE) as u64;
    if entry.base >= cap {
        assert(region_first_page(*entry) >= MAX_PAGES) by {
            assert(entry.base + PAGE_SIZE - 1 >= cap);
            assert((entry.base + PAGE_SIZE - 1) / PAGE_SIZE as int >= cap as int
                / PAGE_SIZE as int) by (nonlinear_arith)
                requires
                    entry.base + PAGE_SIZE - 1 >= cap,
                    cap == 0x10000000,
                    PAGE_SIZE == 4096,
            ;
        }
        return ;
    }
    let rem: u64 = cap - entry.base;
    let len2: u64 = if entry.length > rem {
        rem
    } else {
        entry.length
    };
    let start: u64 = entry.base / (PAGE_SIZE as u64) + (if entry.base % (PAGE_SIZE as u64) != 0 {
        1u64
    } else {
        0u64
    });
    let end: u64 = (entry.base + len2) / (PAGE_SIZE as u64);
    assert(start == region_first_page(*entry));
    assert(end <= region_end_page(*entry));
    assert(end == region_end_page(*entry) || end == MAX_PAGES);
    assert(end <= MAX_PAGES);
    let ghost first = region_first_page(*entry);
    let mut p: u64 = start;
    while p < end
        invariant
            refs@.len() == MAX_PAGES,
            first == region_first_page(*entry),
            start <= p,
            p <= end || p == start,
            first == start,
            end <= region_end_page(*entry),
            end == region_end_page(*entry) || end == MAX_PAGES,
            end <= MAX_PAGES,
            entry.typ == 1,
            forall|q: int|
                0 <= q < MAX_PAGES ==> refs@[q] == (if first <= q < p {
                    0u8
                } else {
                    old(refs)@[q]
                }),
        decreases end - p,
    {
        refs.set(p as usize, 0);
        p = p + 1;
    }
    assert forall|q: int|
        0 <= q < MAX_PAGES && entry.typ == 1 && region_first_page(*entry) <= q < region_end_page(
            *entry,
        ) implies refs@[q] == 0u8 by {
        assert(q < end);
    }
}

/// The physical-page reference-count table with its rotating allocation
/// cursor.
pub struct PhysMemory {
    refs: Vec<u8>,
    next_free: usize,
}

impl View for PhysMemory {
    type V = Seq<u8>;

    closed spec fn view(&self) -> Seq<u8> {
        self.refs@
    }
}

impl PhysMemory {
    /// The table always covers every tracked page, and the allocation cursor
    /// never points below the first allocatable page.
    pub closed spec fn wf(self) -> bool {
        self.refs@.len() == MAX_PAGES && FIRST_ALLOC_PAGE <= self.next_free <= MAX_PAGES
    }

    pub closed spec fn cursor(self) -> int {
        self.next_free as int
    }

    /// Build the table from the E820 map: everything reserved, then usable
    /// regions freed, then the first megabyte re-reserved, then the kernel
    /// image marked live.
    pub fn init_phys_mm(
        mmap_entries: &Vec<MMapEntry>,
        mmap_count: usize,
        kernel_low: usize,
        kernel_high: usize,
    ) -> (r: PhysMemory)
        requires
            FIRST_ALLOC_PAGE <= kernel_high <= MAX_PAGES,
        ensures
            r.wf(),
            r@.len() == MAX_PAGES,
            forall|p: int|
                0 <= p < MAX_PAGES ==> r@[p] == init_ref_count(
                    mmap_entries@,
                    mmap_count as int,
                    kernel_low as int,
                    kernel_high as int,
                    p,
                ),
            r.cursor() == kernel_high,
    {
        let mut refs: Vec<u8> = Vec::new();
        let mut i: usize = 0;
        while i < MAX_PAGES
            invariant
                i == refs@.len() <= MAX_PAGES,
                forall|p: int| 0 <= p < i ==> refs@[p] == RESERVED,
            decreases MAX_PAGES - i,
        {
            refs.push(RESERVED);
            i = i + 1;
        }

        // Free the pages of every usable region.
        let mut e: usize = 0;
        while e < mmap_count && e < mmap_entries.len()
            invariant
                refs@.len() == MAX_PAGES,
                e <= mmap_count,
                forall|p: int|
                    0 <= p < MAX_PAGES ==> refs@[p] == (if page_is_usable(
                        mmap_entries@,
                        e as int,
                        p,
                    ) {
                        0u8
                    } else {
                        RESERVED
                    }),
            decreases mmap_count - e,
        {
            let ghost before = refs@;
            free_region(&mut refs, &mmap_entries[e]);
            assert forall|q: int| 0 <= q < MAX_PAGES implies refs@[q] == (if page_is_usable(
                mmap_entries@,
                e + 1,
                q,
            ) {
                0u8
            } else {
                RESERVED
            }) by {
                if page_is_usable(mmap_entries@, e + 1, q) {
                    let i = choose|i: int|
                        0 <= i < e + 1 && i < mmap_entries@.len()
                            && #[trigger] mmap_entries@[i].typ == 1 && region_first_page(
                            mmap_entries@[i],
                        ) <= q < region_end_page(mmap_entries@[i]);
                    if i < e {
                        assert(page_is_usable(mmap_entries@, e as int, q));
                    }
                } else {
                    assert(!page_is_usable(mmap_entries@, e as int, q));
                }
            }
            e = e + 1;
        }
        assert forall|p: int| 0 <= p < MAX_PAGES implies refs@[p] == (if page_is_usable(
            mmap_entries@,
            mmap_count as int,
            p,
        ) {
            0u8
        } else {
            RESERVED
        }) by {
            assert(page_is_usable(mmap_entries@, mmap_count as int, p) == page_is_usable(
                mmap_entries@,
                e as int,
                p,
            ));
        }

        // Re-reserve the first megabyte.
        let mut p: usize = 0;
        let ghost before_low = refs@;
        while p < FIRST_ALLOC_PAGE
            invariant
                refs@.len() == MAX_PAGES,
                p <= FIRST_ALLOC_PAGE,
                forall|q: int| 0 <= q < p ==> refs@[q] == RESERVED,
                forall|q: int| p <= q < MAX_PAGES ==> refs@[q] == before_low[q],
            decreases FIRST_ALLOC_PAGE - p,
        {
            refs.set(p, RESERVED);
            p = p + 1;
        }

        // Mark the kernel image as live.
        let mut k: usize = kernel_low;
        let ghost before_kernel = refs@;
        while k < kernel_high
            invariant
                refs@.len() == MAX_PAGES,
                kernel_low <= k,
                k <= kernel_high || k == kernel_low,
                kernel_high <= MAX_PAGES,
                forall|q: int| kernel_low <= q < k ==> refs@[q] == 1u8,
                forall|q: int|
                    0 <= q < MAX_PAGES && !(kernel_low <= q < k) ==> refs@[q] == before_kernel[q],
            decreases kernel_high - k,
        {
            refs.set(k, 1);
            k = k + 1;
        }

        assert forall|p: int| 0 <= p < MAX_PAGES implies refs@[p] == init_ref_count(
            mmap_entries@,
            mmap_count as int,
            kernel_low as int,
            kernel_high as int,
            p,
        ) by {
            if kernel_low <= p < kernel_high {
                assert(refs@[p] == 1u8);
            } else if p < FIRST_ALLOC_PAGE {
                assert(refs@[p] == before_kernel[p]);
                assert(before_kernel[p] == RESERVED);
            } else {
                assert(refs@[p] == before_kernel[p]);
                assert(before_kernel[p] == before_low[p]);
            }
        }
        PhysMemory { refs, next_free: kernel_high }
    }

    /// Mark a range of pages as reserved.
    pub fn mark_reserved(&mut self, low_page: usize, high_page: usize)
        requires
            old(self).wf(),
        ensures
            final(self).wf(),
            final(self).cursor() == old(self).cursor(),
            forall|p: int|
                0 <= p < MAX_PAGES ==> final(self)@[p] == (if low_page <= p < high_page {
                    RESERVED
                } else {
                    old(self)@[p]
                }),
    {
        let mut p: usize = low_page;
        while p < high_page
            invariant
                self.refs@.len() == MAX_PAGES,
                self.next_free == old(self).next_free,
                low_page <= p,
                p <= high_page || p == low_page,
                forall|q: int|
                    0 <= q < MAX_PAGES ==> self.refs@[q] == (if low_page <= q < p {
                        RESERVED
                    } else {
                        old(self).refs@[q]
                    }),
            decreases high_page - p,
        {
            if p < MAX_PAGES {
                self.refs.set(p, RESERVED);
            }
            p = p + 1;
        }
    }

    /// Mark a range of pages as in use with a single owner.
    pub fn mark_used(&mut self, low_page: usize, high_page: usize)
        requires
            old(self).wf(),
        ensures
            final(self).wf(),
            final(self).cursor() == old(self).cursor(),
            forall|p: int|
                0 <= p < MAX_PAGES ==> final(self)@[p] == (if low_page <= p < high_page {
                    1u8
                } else {
                    old(self)@[p]
                }),
    {
        let mut p: usize = low_page;
        while p < high_page
            invariant
                self.refs@.len() == MAX_PAGES,
                self.next_free == old(self).next_free,
                low_page <= p,
                p <= high_page || p == low_page,
                forall|q: int|
                    0 <= q < MAX_PAGES ==> self.refs@[q] == (if low_page <= q < p {
                        1u8
                    } else {
                        old(self).refs@[q]
                    }),
            decreases high_page - p,
        {
            if p < MAX_PAGES {
                self.refs.set(p, 1);
            }
            p = p + 1;
        }
    }

    /// Allocate a physical page: a linear scan from the rotating cursor,
    /// wrapping past the first megabyte.  Returns the page found, or `None`
    /// when no tracked page is free.
    pub fn alloc_phys_page(&mut self) -> (r: Option<usize>)
        requires
            old(self).wf(),
        ensures
            final(self).wf(),
            match r {
                Some(p) => {
                    &&& FIRST_ALLOC_PAGE <= p < MAX_PAGES
                    &&& old(self)@[p as int] == 0u8
                    &&& final(self)@ == old(self)@.update(p as int, 1u8)
                    &&& final(self).cursor() == p + 1
                    // The scan takes the first free page at or after the old
                    // cursor, wrapping to the first allocatable page.
                    &&& if p >= old(self).cursor() {
                        forall|q: int| old(self).cursor() <= q < p ==> old(self)@[q] != 0u8
                    } else {
                        (forall|q: int|
                            old(self).cursor() <= q < MAX_PAGES ==> old(self)@[q] != 0u8) && (
                        forall|q: int| FIRST_ALLOC_PAGE <= q < p ==> old(self)@[q] != 0u8)
                    }
                },
                None => {
                    &&& final(self)@ == old(self)@
                    &&& final(self).cursor() == old(self).cursor()
                    &&& forall|q: int|
                        FIRST_ALLOC_PAGE <= q < MAX_PAGES ==> old(self)@[q] != 0u8
                },
            },
    {
        let start: usize = self.next_free;
        let mut p: usize = start;
        while p < MAX_PAGES
            invariant
                self.refs@ == old(self).refs@,
                self.next_free == old(self).next_free,
                self.refs@.len() == MAX_PAGES,
                FIRST_ALLOC_PAGE <= start <= MAX_PAGES,
                start == old(self).next_free,
                start <= p,
                forall|q: int| start <= q < p ==> self.refs@[q] != 0u8,
            decreases MAX_PAGES - p,
        {
            if self.refs[p] == 0 {
                self.refs.set(p, 1);
                self.next_free = p + 1;
                return Some(p);
            }
            p = p + 1;
        }
        let mut q: usize = FIRST_ALLOC_PAGE;
        while q < start
            invariant
                self.refs@ == old(self).refs@,
                self.next_free == old(self).next_free,
                self.refs@.len() == MAX_PAGES,
                FIRST_ALLOC_PAGE <= start <= MAX_PAGES,
                start == old(self).next_free,
                forall|w: int| start <= w < MAX_PAGES ==> self.refs@[w] != 0u8,
                FIRST_ALLOC_PAGE <= q,
                q <= start,
                forall|w: int| FIRST_ALLOC_PAGE <= w < q ==> self.refs@[w] != 0u8,
            decreases start - q,
        {
            if self.refs[q] == 0 {
                self.refs.set(q, 1);
                self.next_free = q + 1;
                return Some(q);
            }
            q = q + 1;
        }
        None
    }

    /// Decrement a page's reference count; true exactly when the page has
    /// just become free.  Free or reserved pages are left untouched.
    pub fn free_phys_page(&mut self, page: usize) -> (r: bool)
        requires
            old(self).wf(),
        ensures
            final(self).wf(),
            final(self).cursor() == old(self).cursor(),
            ({
                let valid = page < MAX_PAGES && old(self)@[page as int] != 0u8 && old(
                    self,
                )@[page as int] != RESERVED;
                &&& r == (valid && old(self)@[page as int] == 1u8)
                &&& final(self)@ == if valid {
                    old(self)@.update(page as int, (old(self)@[page as int] - 1) as u8)
                } else {
                    old(self)@
                }
            }),
    {
        if page >= MAX_PAGES {
            return false;
        }
        let count = self.refs[page];
        if count == 0 || count == RESERVED {
            return false;
        }
        self.refs.set(page, count - 1);
        count - 1 == 0
    }

    /// Increment a page's reference count for copy-on-write sharing; refuses
    /// on free or reserved pages and at the maximum count of 254.
    pub fn inc_shared_count(&mut self, page: usize) -> (r: bool)
        requires
            old(self).wf(),
        ensures
            final(self).wf(),
            final(self).cursor() == old(self).cursor(),
            ({
                let valid = page < MAX_PAGES && old(self)@[page as int] != 0u8 && old(
                    self,
                )@[page as int] < (RESERVED - 1) as u8;
                &&& r == valid
                &&& final(self)@ == if valid {
                    old(self)@.update(page as int, (old(self)@[page as int] + 1) as u8)
                } else {
                    old(self)@
                }
            }),
    {
        if page >= MAX_PAGES {
            return false;
        }
        let count = self.refs[page];
        if count == 0 || count >= RESERVED - 1 {
            return false;
        }
        self.refs.set(page, count + 1);
        true
    }

    /// Reference count of a page; out-of-range pages read as reserved.
    pub fn get_ref_count(&self, page: usize) -> (r: u8)
        requires
            self.wf(),
        ensures
            r == if page < MAX_PAGES {
                self@[page as int]
            } else {
                RESERVED
            },
    {
        if page >= MAX_PAGES {
            return RESERVED;
        }
        self.refs[page]
    }

    /// Whether a page is shared between address spaces.
    pub fn is_shared(&self, page: usize) -> (r: bool)
        requires
            self.wf(),
        ensures
            r == (page < MAX_PAGES && self@[page as int] > 1u8 && self@[page as int] != RESERVED),
    {
        if page >= MAX_PAGES {
            return false;
        }
        let count = self.refs[page];
        count > 1 && count != RESERVED
    }

    /// Number of free pages in a prefix of the table.
    pub open spec fn count_free(s: Seq<u8>, n: int) -> int
        decreases n,
    {
        if n <= 0 {
            0
        } else {
            Self::count_free(s, n - 1) + if s[n - 1] == 0u8 {
                1int
            } else {
                0int
            }
        }
    }

    /// Count the free pages.
    pub fn free_page_count(&self) -> (r: usize)
        requires
            self.wf(),
        ensures
            r == Self::count_free(self@, MAX_PAGES as int),
    {
        let mut count: usize = 0;
        let mut i: usize = 0;
        while i < MAX_PAGES
            invariant
                self.wf(),
                i <= MAX_PAGES,
                count == Self::count_free(self@, i as int),
                count <= i,
            decreases MAX_PAGES - i,
        {
            if self.refs[i] == 0 {
                count = count + 1;
            }
            i = i + 1;
        }
        count
    }
}

/// A well-formed table covers every tracked page.
pub proof fn lemma_wf_len(m: &PhysMemory)
    requires
        m.wf(),
    ensures
        m@.len() == MAX_PAGES,
{
}

/// A reserved entry is immutable: none of the allocator's operations —
/// allocation, freeing, or sharing — gives page `p` a new count once it reads
/// `RESERVED`.  Allocation only touches a page whose count is zero, and the
/// freeing and sharing transitions only touch a page whose count is not
/// `RESERVED`, so the single update below leaves a reserved page as it was.
pub proof fn lemma_reserved_immutable(s: Seq<u8>, p: int, q: int, v: u8)
    requires
        0 <= p < s.len(),
        s[p] == RESERVED,
        0 <= q < s.len(),
        s[q] != RESERVED,
    ensures
        s.update(q, v)[p] == RESERVED,
{
}

/// Incrementing a shareable page's reference count and then freeing it
/// restores the table exactly.
pub proof fn lemma_inc_then_free_restores(s: Seq<u8>, p: int)
    requires
        0 <= p < s.len(),
        s[p] != 0u8,
        s[p] < (RESERVED - 1) as u8,
    ensures
        ({
            let incremented = s.update(p, (s[p] + 1) as u8);
            incremented.update(p, (incremented[p] - 1) as u8) == s
        }),
{
    let incremented = s.update(p, (s[p] + 1) as u8);
    assert(incremented.update(p, (incremented[p] - 1) as u8) =~= s);
}

} // verus!
