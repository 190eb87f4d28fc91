//! The kernel heap: a sorted, coalesced free list over a demand-mapped
//! region of kernel address space.
//!
//! The list is modelled as the sequence of free intervals, sorted by address
//! with a gap between neighbours — coalescing keeps that invariant.  The
//! headers that the running kernel stores inside the free regions themselves
//! are a representation detail below this model.

use vstd::prelude::*;

verus! {

use crate::{NUM_PAGES, PAGE_SIZE};
use crate::phys::PhysMemory;
use crate::space::AddressSpace;

/// The heap may grow to just below the top of the address space.
pub const HEAP_END: usize = 0xFFF0_0000;

/// The smallest region worth tracking: a free region must be able to hold
/// its own header.
pub const MIN_BLOCK_SIZE: usize = 16;

/// One free region.
#[derive(Clone, Copy, PartialEq, Eq, Structural, Debug)]
pub struct FreeBlock {
    pub addr: usize,
    pub size: usize,
}

/// Sum of the free bytes on the list.
pub open spec fn total_free(s: Seq<FreeBlock>) -> int
    decreases s.len(),
{
    if s.len() == 0 {
        0
    } else {
        total_free(s.drop_last()) + s.last().size
    }
}

/// A sorted, separated, coalesced free list of tracked regions.
pub open spec fn blocks_wf(s: Seq<FreeBlock>) -> bool {
    (forall|i: int|
        0 <= i < s.len() ==> (#[trigger] s[i]).size >= MIN_BLOCK_SIZE && s[i].addr + s[i].size
            <= usize::MAX) && (forall|i: int|
        0 <= i && i + 1 < s.len() ==> (#[trigger] s[i]).addr + s[i].size < s[i + 1].addr)
}

/// Every block ends at or below a bound.
pub open spec fn list_below(s: Seq<FreeBlock>, bound: int) -> bool {
    forall|i: int| 0 <= i < s.len() ==> (#[trigger] s[i]).addr + s[i].size <= bound
}

/// Appending a block adds its size to the total.
pub proof fn lemma_total_push(s: Seq<FreeBlock>, b: FreeBlock)
    ensures
        total_free(s.push(b)) == total_free(s) + b.size,
{
    assert(s.push(b).drop_last() =~= s);
}

/// Inserting a block adds its size to the total.
pub proof fn lemma_total_insert(s: Seq<FreeBlock>, i: int, b: FreeBlock)
    requires
        0 <= i <= s.len(),
    ensures
        total_free(s.insert(i, b)) == total_free(s) + b.size,
    decreases s.len(),
{
    if i == s.len() {
        assert(s.insert(i, b) =~= s.push(b));
        lemma_total_push(s, b);
    } else {
        let t = s.insert(i, b);
        assert(t.drop_last() =~= s.drop_last().insert(i, b));
        assert(t.last() == s.last());
        lemma_total_insert(s.drop_last(), i, b);
    }
}

/// Removing a block subtracts its size from the total.
pub proof fn lemma_total_remove(s: Seq<FreeBlock>, i: int)
    requires
        0 <= i < s.len(),
    ensures
        total_free(s.remove(i)) == total_free(s) - s[i].size,
    decreases s.len(),
{
    if i == s.len() - 1 {
        assert(s.remove(i) =~= s.drop_last());
    } else {
        let t = s.remove(i);
        assert(t.drop_last() =~= s.drop_last().remove(i));
        assert(t.last() == s.last());
        lemma_total_remove(s.drop_last(), i);
    }
}

/// Replacing a block changes the total by the size difference.
pub proof fn lemma_total_update(s: Seq<FreeBlock>, i: int, b: FreeBlock)
    requires
        0 <= i < s.len(),
    ensures
        total_free(s.update(i, b)) == total_free(s) - s[i].size + b.size,
    decreases s.len(),
{
    if i == s.len() - 1 {
        assert(s.update(i, b).drop_last() =~= s.drop_last());
        assert(s.update(i, b).last() == b);
    } else {
        let t = s.update(i, b);
        assert(t.drop_last() =~= s.drop_last().update(i, b));
        assert(t.last() == s.last());
        lemma_total_update(s.drop_last(), i, b);
    }
}



/// Size and bound facts alone: every block is worth tracking and stays in
/// the address space.
pub open spec fn blocks_bounded(s: Seq<FreeBlock>) -> bool {
    forall|i: int|
        0 <= i < s.len() ==> (#[trigger] s[i]).size >= MIN_BLOCK_SIZE && s[i].addr + s[i].size
            <= usize::MAX
}

/// Sorted with a possible touching seam at `a` or `b`; every other pair of
/// neighbours is strictly separated.
pub open spec fn blocks_sorted_except(s: Seq<FreeBlock>, a: int, b: int) -> bool {
    forall|i: int|
        0 <= i && i + 1 < s.len() ==> (#[trigger] s[i]).addr + s[i].size <= s[i + 1].addr && (i
            != a && i != b ==> s[i].addr + s[i].size < s[i + 1].addr)
}

/// Inserting a disjoint block between its neighbours keeps the list sorted,
/// with at most the two new seams touching.
pub proof fn lemma_insert_sorted(orig: Seq<FreeBlock>, idx: int, nb: FreeBlock)
    requires
        blocks_wf(orig),
        0 <= idx <= orig.len(),
        nb.size >= MIN_BLOCK_SIZE,
        nb.addr + nb.size <= usize::MAX,
        idx > 0 ==> orig[idx - 1].addr + orig[idx - 1].size <= nb.addr,
        idx < orig.len() ==> nb.addr + nb.size <= orig[idx].addr,
    ensures
        blocks_bounded(orig.insert(idx, nb)),
        blocks_sorted_except(orig.insert(idx, nb), idx - 1, idx),
{
    let t = orig.insert(idx, nb);
    assert forall|i: int|
        0 <= i < t.len() implies (#[trigger] t[i]).size >= MIN_BLOCK_SIZE && t[i].addr + t[i].size
        <= usize::MAX by {
        if i < idx {
            assert(t[i] == orig[i]);
        } else if i == idx {
            assert(t[i] == nb);
        } else {
            assert(t[i] == orig[i - 1]);
        }
    }
    assert forall|i: int|
        0 <= i && i + 1 < t.len() implies (#[trigger] t[i]).addr + t[i].size <= t[i + 1].addr && (i
            != idx - 1 && i != idx ==> t[i].addr + t[i].size < t[i + 1].addr) by {
        if i + 1 < idx {
            assert(t[i] == orig[i]);
            assert(t[i + 1] == orig[i + 1]);
        } else if i + 1 == idx {
            assert(t[i] == orig[i]);
            assert(t[i + 1] == nb);
        } else if i == idx {
            assert(t[i] == nb);
            assert(t[i + 1] == orig[i]);
        } else {
            assert(t[i] == orig[i - 1]);
            assert(t[i + 1] == orig[i]);
        }
    }
}

/// Merging the touching seam at `i` removes it; a possible touching seam at
/// `i - 1` survives, and everything else stays strictly separated.
pub proof fn lemma_merge_seam(s: Seq<FreeBlock>, i: int)
    requires
        blocks_bounded(s),
        blocks_sorted_except(s, i - 1, i),
        0 <= i,
        i + 1 < s.len(),
        s[i].addr + s[i].size == s[i + 1].addr,
    ensures
        ({
            let m = FreeBlock { addr: s[i].addr, size: (s[i].size + s[i + 1].size) as usize };
            let u = s.update(i, m).remove(i + 1);
            &&& blocks_bounded(u)
            &&& blocks_sorted_except(u, i - 1, i - 1)
            &&& total_free(u) == total_free(s)
            &&& u.len() == s.len() - 1
            &&& (forall|j: int| 0 <= j < i ==> u[j] == s[j])
            &&& u[i] == m
            &&& (forall|j: int| i < j < u.len() ==> u[j] == s[j + 1])
        }),
{
    let m = FreeBlock { addr: s[i].addr, size: (s[i].size + s[i + 1].size) as usize };
    let u = s.update(i, m).remove(i + 1);
    lemma_total_update(s, i, m);
    lemma_total_remove(s.update(i, m), i + 1);
    assert(forall|j: int| 0 <= j < i ==> u[j] == s[j]);
    assert(u[i] == m);
    assert(forall|j: int| i < j < u.len() ==> u[j] == s[j + 1]);
    assert forall|j: int|
        0 <= j < u.len() implies (#[trigger] u[j]).size >= MIN_BLOCK_SIZE && u[j].addr + u[j].size
        <= usize::MAX by {
        if j == i {
            assert(u[j].addr + u[j].size == s[i + 1].addr + s[i + 1].size);
        }
    }
    assert forall|j: int|
        0 <= j && j + 1 < u.len() implies (#[trigger] u[j]).addr + u[j].size <= u[j + 1].addr && (j
            != i - 1 ==> u[j].addr + u[j].size < u[j + 1].addr) by {
        if j == i {
            assert(u[j].addr + u[j].size == s[i + 1].addr + s[i + 1].size);
            assert(u[j + 1] == s[j + 2]);
        } else if j > i {
            assert(u[j] == s[j + 1]);
            assert(u[j + 1] == s[j + 2]);
        } else if j == i - 1 {
            assert(u[j] == s[j]);
        } else {
            assert(u[j] == s[j]);
            assert(u[j + 1] == s[j + 1]);
        }
    }
}


/// The seam below `i` either does not exist or is strictly separated.
pub open spec fn seam_below_clear(s: Seq<FreeBlock>, i: int) -> bool {
    i <= 0 || i - 1 + 1 >= s.len() || s[i - 1].addr + s[i - 1].size < s[i].addr
}

/// After merging the touching seam at `i`, a clear seam below makes the
/// whole list well formed.
#[verifier::rlimit(100)]
pub proof fn lemma_merge_wf(s: Seq<FreeBlock>, i: int)
    requires
        blocks_bounded(s),
        blocks_sorted_except(s, i - 1, i),
        0 <= i,
        i + 1 < s.len(),
        s[i].addr + s[i].size == s[i + 1].addr,
        seam_below_clear(s, i),
    ensures
        ({
            let m = FreeBlock { addr: s[i].addr, size: (s[i].size + s[i + 1].size) as usize };
            blocks_wf(s.update(i, m).remove(i + 1))
        }),
{
    lemma_merge_seam(s, i);
    let m = FreeBlock { addr: s[i].addr, size: (s[i].size + s[i + 1].size) as usize };
    let u = s.update(i, m).remove(i + 1);
    assert forall|j: int|
        0 <= j && j + 1 < u.len() implies (#[trigger] u[j]).addr + u[j].size < u[j + 1].addr by {
        if j == i - 1 {
            assert(u[j] == s[j]);
            assert(u[j + 1] == m);
            assert(m.addr == s[i].addr);
            assert(s[j].addr + s[j].size < s[i].addr);
        } else {
            assert(u[j].addr + u[j].size < u[j + 1].addr);
        }
    }
}

/// With no touching seam at `i`, the list is sorted but for the seam below,
/// and well formed outright when that one is clear too.
pub proof fn lemma_no_merge(s: Seq<FreeBlock>, i: int)
    requires
        blocks_bounded(s),
        blocks_sorted_except(s, i - 1, i),
        0 <= i,
        i + 1 < s.len() ==> s[i].addr + s[i].size != s[i + 1].addr,
    ensures
        blocks_sorted_except(s, i - 1, i - 1),
        seam_below_clear(s, i) ==> blocks_wf(s),
{
    assert forall|j: int|
        0 <= j && j + 1 < s.len() implies (#[trigger] s[j]).addr + s[j].size <= s[j + 1].addr && (j
            != i - 1 ==> s[j].addr + s[j].size < s[j + 1].addr) by {}
    if seam_below_clear(s, i) {
        assert forall|j: int|
            0 <= j && j + 1 < s.len() implies (#[trigger] s[j]).addr + s[j].size < s[j
            + 1].addr by {}
    }
}

/// The allocator's inner state: the free list and the end of the mapped
/// heap region.
pub struct AllocatorInner {
    pub free_list: Vec<FreeBlock>,
    pub mapped_end: usize,
}

/// The kernel heap allocator.
pub struct KernelAllocator {
    pub inner: AllocatorInner,
}

impl KernelAllocator {
    /// An allocator with nothing mapped and nothing free.
    pub fn new() -> (r: KernelAllocator)
        ensures
            r.inner.free_list@ == Seq::<FreeBlock>::empty(),
            r.inner.mapped_end == 0,
    {
        KernelAllocator { inner: AllocatorInner { free_list: Vec::new(), mapped_end: 0 } }
    }

    /// Point the heap at its base: the first page boundary after the kernel
    /// image.
    pub fn init(&mut self, heap_base: usize)
        ensures
            final(self).inner.free_list@ == Seq::<FreeBlock>::empty(),
            final(self).inner.mapped_end == heap_base,
    {
        self.inner.free_list = Vec::new();
        self.inner.mapped_end = heap_base;
    }
}

impl AllocatorInner {
    /// The slot where a region starting at `addr` belongs: the index of the
    /// first block above it.
    fn find_insert_index(&self, addr: usize) -> (idx: usize)
        ensures
            idx <= self.free_list@.len(),
            forall|j: int| 0 <= j < idx ==> (#[trigger] self.free_list@[j]).addr <= addr,
            idx < self.free_list@.len() ==> addr < self.free_list@[idx as int].addr,
    {
        let mut idx: usize = 0;
        while idx < self.free_list.len() && self.free_list[idx].addr <= addr
            invariant
                idx <= self.free_list@.len(),
                forall|j: int| 0 <= j < idx ==> (#[trigger] self.free_list@[j]).addr <= addr,
            decreases self.free_list@.len() - idx,
        {
            idx = idx + 1;
        }
        idx
    }

    /// Merge the block at `i` with its successor when they touch.  Only the
    /// seam below `i` can still touch afterwards; if that seam was already
    /// clear, the list is fully well formed again.  The free total never
    /// changes.
    fn try_merge_at(&mut self, i: usize)
        requires
            blocks_bounded(old(self).free_list@),
            blocks_sorted_except(old(self).free_list@, i - 1, i as int),
            i <= old(self).free_list@.len(),
        ensures
            final(self).mapped_end == old(self).mapped_end,
            blocks_bounded(final(self).free_list@),
            blocks_sorted_except(final(self).free_list@, i - 1, i - 1),
            total_free(final(self).free_list@) == total_free(old(self).free_list@),
            seam_below_clear(old(self).free_list@, i as int) ==> blocks_wf(
                final(self).free_list@,
            ),
            final(self).free_list@.len() + 1 >= old(self).free_list@.len(),
            forall|bound: int|
                list_below(old(self).free_list@, bound) ==> list_below(
                    final(self).free_list@,
                    bound,
                ),
    {
        let llen = self.free_list.len();
        if i < llen {
            if i + 1 < llen {
                let cur = self.free_list[i];
                let next = self.free_list[i + 1];
                if cur.addr + cur.size == next.addr {
                    proof {
                        assert(old(self).free_list@[i + 1].addr + old(self).free_list@[i
                            + 1].size <= usize::MAX);
                    }
                    let merged = FreeBlock { addr: cur.addr, size: cur.size + next.size };
                    self.free_list.set(i, merged);
                    self.free_list.remove(i + 1);
                    proof {
                        let s = old(self).free_list@;
                        lemma_merge_seam(s, i as int);
                        if seam_below_clear(s, i as int) {
                            lemma_merge_wf(s, i as int);
                        }
                        let u = self.free_list@;
                        assert forall|bound: int|
                            list_below(s, bound) implies list_below(u, bound) by {
                            assert forall|j: int|
                                0 <= j < u.len() implies (#[trigger] u[j]).addr + u[j].size
                                <= bound by {
                                if j < i {
                                    assert(u[j] == s[j]);
                                } else if j == i {
                                    assert(u[j].addr + u[j].size == s[i + 1].addr + s[i
                                        + 1].size);
                                } else {
                                    assert(u[j] == s[j + 1]);
                                }
                            }
                        }
                    }
                    return ;
                }
            }
        }
        proof {
            lemma_no_merge(self.free_list@, i as int);
        }
    }

    /// Give a region back to the free list: too-small regions are dropped,
    /// others are inserted in address order and coalesced with touching
    /// neighbours.  The free byte total grows by exactly the tracked size,
    /// and afterwards an address is free exactly when it was free before or
    /// lies in the region.
    #[verifier::rlimit(100)]
    pub fn add_free_region(&mut self, addr: usize, size: usize)
        requires
            blocks_wf(old(self).free_list@),
            addr + size <= usize::MAX,
            size >= MIN_BLOCK_SIZE ==> forall|i: int|
                0 <= i < old(self).free_list@.len() ==> (addr + size
                    <= (#[trigger] old(self).free_list@[i]).addr || old(self).free_list@[i].addr
                    + old(self).free_list@[i].size <= addr),
        ensures
            blocks_wf(final(self).free_list@),
            final(self).mapped_end == old(self).mapped_end,
            total_free(final(self).free_list@) == total_free(old(self).free_list@) + (if size
                >= MIN_BLOCK_SIZE {
                size as int
            } else {
                0int
            }),
            forall|bound: int|
                (list_below(old(self).free_list@, bound) && (size >= MIN_BLOCK_SIZE ==> addr + size
                    <= bound)) ==> list_below(final(self).free_list@, bound),
            // A region too small to hold its own header is dropped outright.
            size < MIN_BLOCK_SIZE ==> final(self).free_list@ == old(self).free_list@,
    {
        if size < MIN_BLOCK_SIZE {
            return ;
        }
        let ghost orig = self.free_list@;
        let idx = self.find_insert_index(addr);
        let ghost nb = FreeBlock { addr, size };
        proof {
            if idx < orig.len() {
                assert(addr < orig[idx as int].addr);
                assert(addr + size <= orig[idx as int].addr);
            }
            if idx > 0 {
                assert(orig[idx - 1].addr <= addr);
                assert(orig[idx - 1].addr + orig[idx - 1].size <= addr);
            }
        }
        self.free_list.insert(idx, FreeBlock { addr, size });
        proof {
            lemma_total_insert(orig, idx as int, nb);
            lemma_insert_sorted(orig, idx as int, nb);
            assert(self.free_list@ == orig.insert(idx as int, nb));
            let t = self.free_list@;
            assert forall|bound: int|
                (list_below(orig, bound) && addr + size <= bound) implies list_below(
                t,
                bound,
            ) by {
                assert forall|j: int|
                    0 <= j < t.len() implies (#[trigger] t[j]).addr + t[j].size <= bound by {
                    if j < idx {
                        assert(t[j] == orig[j]);
                    } else if j == idx {
                        assert(t[j] == nb);
                    } else {
                        assert(t[j] == orig[j - 1]);
                    }
                }
            }
        }
        self.try_merge_at(idx);
        if idx > 0 {
            self.try_merge_at(idx - 1);
        }
    }
}

/// Bytes needed above `addr` to reach the next `align` boundary.
pub open spec fn pad_for(addr: int, align: int) -> int {
    if addr % align == 0 {
        0
    } else {
        align - addr % align
    }
}

/// Whether a block can hold an aligned allocation.
pub open spec fn block_fits(b: FreeBlock, size: int, align: int) -> bool {
    b.size >= pad_for(b.addr as int, align) + size
}

/// The free list after carving an allocation out of block `i`: padding worth
/// tracking stays as its own block, a remainder worth tracking becomes a new
/// block, and anything smaller is absorbed into the allocation.
pub open spec fn alloc_transform(s: Seq<FreeBlock>, i: int, size: int, align: int) -> Seq<
    FreeBlock,
> {
    let b = s[i];
    let pad = pad_for(b.addr as int, align);
    let rem = b.size - pad - size;
    if pad >= MIN_BLOCK_SIZE {
        let shrunk = s.update(i, FreeBlock { addr: b.addr, size: pad as usize });
        if rem >= MIN_BLOCK_SIZE {
            shrunk.insert(
                i + 1,
                FreeBlock { addr: (b.addr + pad + size) as usize, size: rem as usize },
            )
        } else {
            shrunk
        }
    } else {
        if rem >= MIN_BLOCK_SIZE {
            s.update(i, FreeBlock { addr: (b.addr + pad + size) as usize, size: rem as usize })
        } else {
            s.remove(i)
        }
    }
}

/// Round an address up to an alignment boundary.
pub fn align_up(val: usize, align: usize) -> (r: usize)
    requires
        align >= 1,
        val + align <= usize::MAX,
    ensures
        r == val + pad_for(val as int, align as int),
        r as int % align as int == 0,
        val <= r < val + align,
{
    let rem = val % align;
    if rem == 0 {
        val
    } else {
        proof {
            assert((val + (align - val % align)) % align as int == 0) by (nonlinear_arith)
                requires
                    align >= 1,
                    val >= 0,
                    val % align != 0,
            ;
        }
        val + (align - rem)
    }
}

impl AllocatorInner {
    /// First-fit allocation: walk the list for the first block that can hold
    /// `size` bytes at `align`; carve the allocation out of it, keeping
    /// padding and remainder as free blocks when they are big enough to
    /// track.  `None` exactly when no block fits, with nothing changed.
    #[verifier::rlimit(100)]
    pub fn alloc_from_list(&mut self, size: usize, align: usize) -> (r: Option<usize>)
        requires
            blocks_wf(old(self).free_list@),
            size >= MIN_BLOCK_SIZE,
            1 <= align,
            align <= 4096,
        ensures
            final(self).mapped_end == old(self).mapped_end,
            blocks_wf(final(self).free_list@),
            forall|bound: int|
                list_below(old(self).free_list@, bound) ==> list_below(
                    final(self).free_list@,
                    bound,
                ),
            match r {
                Some(p) => p as int % align as int == 0 && exists|i: int|
                    {
                        &&& 0 <= i < old(self).free_list@.len()
                        &&& block_fits(#[trigger] old(self).free_list@[i], size as int, align as int)
                        &&& (forall|j: int|
                            0 <= j < i ==> !block_fits(
                                #[trigger] old(self).free_list@[j],
                                size as int,
                                align as int,
                            ))
                        &&& p == old(self).free_list@[i].addr + pad_for(
                            old(self).free_list@[i].addr as int,
                            align as int,
                        )
                        &&& p as int % align as int == 0
                        &&& final(self).free_list@ == alloc_transform(
                            old(self).free_list@,
                            i,
                            size as int,
                            align as int,
                        )
                        &&& total_free(final(self).free_list@) == total_free(old(self).free_list@)
                            - size - absorbed(old(self).free_list@[i], size as int, align as int)
                    },
                None => {
                    &&& final(self).free_list@ == old(self).free_list@
                    &&& forall|j: int|
                        0 <= j < old(self).free_list@.len() ==> !block_fits(
                            #[trigger] old(self).free_list@[j],
                            size as int,
                            align as int,
                        )
                },
            },
    {
        let ghost orig = self.free_list@;
        let mut idx: usize = 0;
        while idx < self.free_list.len()
            invariant
                orig == old(self).free_list@,
                blocks_wf(self.free_list@),
                self.free_list@ == orig,
                self.mapped_end == old(self).mapped_end,
                size >= MIN_BLOCK_SIZE,
                1 <= align <= 4096,
                idx <= orig.len(),
                forall|j: int|
                    0 <= j < idx ==> !block_fits(#[trigger] orig[j], size as int, align as int),
            decreases orig.len() - idx,
        {
            let b = self.free_list[idx];
            let addr_rem = b.addr % align;
            let padding = if addr_rem == 0 {
                0
            } else {
                align - addr_rem
            };
            proof {
                assert(padding == pad_for(b.addr as int, align as int));
            }
            if b.size >= padding && b.size - padding >= size {
                let aligned = b.addr + padding;
                let rem = b.size - padding - size;
                proof {
                    assert(block_fits(orig[idx as int], size as int, align as int));
                    assert(aligned as int % align as int == 0) by (nonlinear_arith)
                        requires
                            aligned == b.addr + padding,
                            1 <= align,
                            b.addr >= 0,
                            padding == (if b.addr % align == 0 {
                                0int
                            } else {
                                align - b.addr % align
                            }),
                    ;
                }
                if padding >= MIN_BLOCK_SIZE {
                    self.free_list.set(idx, FreeBlock { addr: b.addr, size: padding });
                    let ghost shrunk = self.free_list@;
                    proof {
                        lemma_total_update(
                            orig,
                            idx as int,
                            FreeBlock { addr: b.addr, size: padding },
                        );
                    }
                    if rem >= MIN_BLOCK_SIZE {
                        let tail = FreeBlock { addr: aligned + size, size: rem };
                        self.free_list.insert(idx + 1, tail);
                        proof {
                            lemma_total_insert(shrunk, idx + 1, tail);
                        }
                    }
                } else {
                    if rem >= MIN_BLOCK_SIZE {
                        let tail = FreeBlock { addr: aligned + size, size: rem };
                        self.free_list.set(idx, tail);
                        proof {
                            lemma_total_update(orig, idx as int, tail);
                        }
                    } else {
                        self.free_list.remove(idx);
                        proof {
                            lemma_total_remove(orig, idx as int);
                        }
                    }
                }
                proof {
                    lemma_alloc_transform_wf(orig, idx as int, size as int, align as int);
                    assert(self.free_list@ == alloc_transform(
                        orig,
                        idx as int,
                        size as int,
                        align as int,
                    ));
                    let i = idx as int;
                    assert(orig == old(self).free_list@);
                    assert(block_fits(old(self).free_list@[i], size as int, align as int));
                    assert(block_fits(orig[i], size as int, align as int) && (forall|j: int|
                        0 <= j < i ==> !block_fits(#[trigger] orig[j], size as int, align as int))
                        && aligned == orig[i].addr + pad_for(orig[i].addr as int, align as int)
                        && aligned as int % align as int == 0 && self.free_list@
                        == alloc_transform(orig, i, size as int, align as int) && total_free(
                        self.free_list@,
                    ) == total_free(orig) - size - absorbed(orig[i], size as int, align as int));
                }
                return Some(aligned);
            }
            idx = idx + 1;
        }
        None
    }
}

/// What an allocation absorbs beyond its own bytes: padding or remainder too
/// small to track.
pub open spec fn absorbed(b: FreeBlock, size: int, align: int) -> int {
    let pad = pad_for(b.addr as int, align);
    let rem = b.size - pad - size;
    (if pad < MIN_BLOCK_SIZE {
        pad
    } else {
        0
    }) + (if rem < MIN_BLOCK_SIZE {
        rem
    } else {
        0
    })
}

/// Carving an allocation out of a well-formed list leaves it well formed.
#[verifier::rlimit(100)]
pub proof fn lemma_alloc_transform_wf(s: Seq<FreeBlock>, i: int, size: int, align: int)
    requires
        blocks_wf(s),
        0 <= i < s.len(),
        size >= MIN_BLOCK_SIZE,
        1 <= align <= 4096,
        block_fits(s[i], size, align),
    ensures
        blocks_wf(alloc_transform(s, i, size, align)),
        total_free(alloc_transform(s, i, size, align)) == total_free(s) - size - absorbed(
            s[i],
            size,
            align,
        ),
{
    let b = s[i];
    let pad = pad_for(b.addr as int, align);
    let rem = b.size - pad - size;
    assert(0 <= pad < align) by (nonlinear_arith)
        requires
            pad == pad_for(b.addr as int, align),
            1 <= align,
            b.addr >= 0,
    ;
    if pad >= MIN_BLOCK_SIZE {
        let pb = FreeBlock { addr: b.addr, size: pad as usize };
        let shrunk = s.update(i, pb);
        lemma_total_update(s, i, pb);
        assert forall|j: int|
            0 <= j && j + 1 < shrunk.len() implies (#[trigger] shrunk[j]).addr + shrunk[j].size
            < shrunk[j + 1].addr by {}
        if rem >= MIN_BLOCK_SIZE {
            let tb = FreeBlock { addr: (b.addr + pad + size) as usize, size: rem as usize };
            let fin = shrunk.insert(i + 1, tb);
            lemma_total_insert(shrunk, i + 1, tb);
            assert forall|j: int|
                0 <= j && j + 1 < fin.len() implies (#[trigger] fin[j]).addr + fin[j].size < fin[j
                + 1].addr by {
                if j + 1 < i + 1 {
                    assert(fin[j] == shrunk[j]);
                    assert(fin[j + 1] == shrunk[j + 1]);
                } else if j + 1 == i + 1 {
                    assert(fin[j] == shrunk[j]);
                    assert(fin[j + 1] == tb);
                } else if j == i + 1 {
                    assert(fin[j] == tb);
                    assert(fin[j + 1] == shrunk[j]);
                } else {
                    assert(fin[j] == shrunk[j - 1]);
                    assert(fin[j + 1] == shrunk[j]);
                }
            }
            assert forall|j: int|
                0 <= j < fin.len() implies (#[trigger] fin[j]).size >= MIN_BLOCK_SIZE
                && fin[j].addr + fin[j].size <= usize::MAX by {
                if j < i + 1 {
                    assert(fin[j] == shrunk[j]);
                } else if j == i + 1 {
                    assert(fin[j] == tb);
                } else {
                    assert(fin[j] == shrunk[j - 1]);
                }
            }
        }
    } else {
        if rem >= MIN_BLOCK_SIZE {
            let tb = FreeBlock { addr: (b.addr + pad + size) as usize, size: rem as usize };
            let fin = s.update(i, tb);
            lemma_total_update(s, i, tb);
            assert forall|j: int|
                0 <= j && j + 1 < fin.len() implies (#[trigger] fin[j]).addr + fin[j].size < fin[j
                + 1].addr by {}
        } else {
            lemma_total_remove(s, i);
            let fin = s.remove(i);
            assert forall|j: int|
                0 <= j && j + 1 < fin.len() implies (#[trigger] fin[j]).addr + fin[j].size < fin[j
                + 1].addr by {
                if j < i - 1 {
                    assert(fin[j] == s[j]);
                    assert(fin[j + 1] == s[j + 1]);
                } else if j == i - 1 {
                    assert(fin[j] == s[j]);
                    assert(fin[j + 1] == s[j + 2]);
                    assert(s[j].addr + s[j].size < s[i].addr);
                    assert(s[i].addr < s[i + 1].addr);
                } else {
                    assert(fin[j] == s[j + 1]);
                    assert(fin[j + 1] == s[j + 2]);
                }
            }
        }
    }
}

/// Any allocation followed by giving the same bytes back restores the free
/// total exactly, provided the allocation absorbed nothing: its padding was
/// zero or big enough to stay on the list, and its remainder empty or big
/// enough to stay.  (An absorbed sliver smaller than a block header is the
/// fragmentation the allocator gives up on.)
pub proof fn lemma_alloc_then_free_restores(s: Seq<FreeBlock>, i: int, size: int, align: int)
    requires
        blocks_wf(s),
        0 <= i < s.len(),
        size >= MIN_BLOCK_SIZE,
        1 <= align <= 4096,
        block_fits(s[i], size, align),
        pad_for(s[i].addr as int, align) == 0 || pad_for(s[i].addr as int, align)
            >= MIN_BLOCK_SIZE,
        s[i].size - pad_for(s[i].addr as int, align) - size == 0 || s[i].size - pad_for(
            s[i].addr as int,
            align,
        ) - size >= MIN_BLOCK_SIZE,
    ensures
        total_free(alloc_transform(s, i, size, align)) + size == total_free(s),
{
    lemma_alloc_transform_wf(s, i, size, align);
}

/// The allocator's structural invariant: a well-formed free list that lies
/// entirely below the mapped end of the heap.
pub open spec fn heap_wf(inner: AllocatorInner) -> bool {
    blocks_wf(inner.free_list@) && (forall|i: int|
        0 <= i < inner.free_list@.len() ==> (#[trigger] inner.free_list@[i]).addr
            + inner.free_list@[i].size <= inner.mapped_end) && inner.mapped_end <= HEAP_END
}

/// Map one fresh physical page at a kernel virtual page for the heap.  On
/// success the leaf becomes a present kernel read-write mapping of a page
/// that was free and now has a single owner; on failure nothing changes and
/// no tracked page was free.
fn map_heap_page(space: &mut AddressSpace, phys: &mut PhysMemory, virt_page: usize) -> (r: bool)
    requires
        old(space).wf(),
        old(phys).wf(),
        virt_page < NUM_PAGES,
    ensures
        final(space).wf(),
        final(phys).wf(),
        final(space).mode == old(space).mode,
        final(space).nx_enabled == old(space).nx_enabled,
        final(space).root_phys_page == old(space).root_phys_page,
        final(phys)@.len() == old(phys)@.len(),
        forall|q: int|
            0 <= q < final(phys)@.len() && final(phys)@[q] != old(phys)@[q] ==> old(phys)@[q]
                == 0u8 && final(phys)@[q] == 1u8,
        if r {
            &&& final(space)@ == old(space)@.update(
                virt_page as int,
                final(space)@[virt_page as int],
            )
            &&& crate::pte::entry_present(final(space)@[virt_page as int])
            &&& crate::pte::entry_writable(final(space)@[virt_page as int])
            &&& !crate::pte::entry_user(final(space)@[virt_page as int])
        } else {
            &&& final(space)@ == old(space)@
            &&& final(phys)@ == old(phys)@
            &&& forall|q: int|
                crate::phys::FIRST_ALLOC_PAGE <= q < crate::phys::MAX_PAGES ==> old(phys)@[q]
                    != 0u8
        },
{
    proof {
        crate::phys::lemma_wf_len(phys);
    }
    let phys_page = match phys.alloc_phys_page() {
        Some(p) => p,
        None => {
            return false;
        },
    };
    proof {
        crate::phys::lemma_wf_len(phys);
    }
    space.set_entry(virt_page, phys_page, true, false);
    true
}

impl AllocatorInner {
    /// Grow the heap: map at least four fresh pages (more for a large
    /// request) at the mapped end as kernel read-write memory, and hand the
    /// new region to the free list.  Fails when the heap would pass its
    /// ceiling or physical memory runs out; only free pages are ever taken,
    /// and they are taken exactly one owner each.
    #[verifier::rlimit(100)]
    pub fn extend_heap(
        &mut self,
        min_size: usize,
        space: &mut AddressSpace,
        phys: &mut PhysMemory,
    ) -> (r: bool)
        requires
            heap_wf(*old(self)),
            old(self).mapped_end as int % PAGE_SIZE as int == 0,
            old(space).wf(),
            old(phys).wf(),
        ensures
            heap_wf(*final(self)),
            final(self).mapped_end as int % PAGE_SIZE as int == 0,
            final(space).wf(),
            final(phys).wf(),
            final(space).mode == old(space).mode,
            final(space).nx_enabled == old(space).nx_enabled,
            final(space).root_phys_page == old(space).root_phys_page,
            // Physical pages change hands only from free to single-owner.
            forall|q: int|
                0 <= q < final(phys)@.len() && final(phys)@[q] != old(phys)@[q] ==> old(phys)@[q]
                    == 0u8 && final(phys)@[q] == 1u8,
            // Only leaves of the fresh heap pages change, and they become
            // present kernel read-write mappings.
            final(space)@.len() == NUM_PAGES,
            forall|v: int|
                0 <= v < NUM_PAGES && !(old(self).mapped_end as int / PAGE_SIZE as int <= v < final(self).mapped_end as int / PAGE_SIZE as int) ==> final(space)@[v] == old(space)@[v],
            forall|v: int|
                old(self).mapped_end as int / PAGE_SIZE as int <= v
                    && v < final(self).mapped_end as int / PAGE_SIZE as int
                    ==> crate::pte::entry_present(#[trigger] final(space)@[v])
                    && crate::pte::entry_writable(final(space)@[v]) && !crate::pte::entry_user(
                    final(space)@[v],
                ),
            ({
                let pn = grow_pages(min_size as int);
                if r {
                    &&& final(self).mapped_end == old(self).mapped_end + pn * PAGE_SIZE
                    &&& total_free(final(self).free_list@) == total_free(old(self).free_list@)
                        + pn * PAGE_SIZE
                } else {
                    &&& final(self).free_list@ == old(self).free_list@
                    &&& final(self).mapped_end >= old(self).mapped_end
                    // Growth fails only at the heap's ceiling or with no
                    // free physical page left.
                    &&& (final(self).mapped_end >= HEAP_END || (forall|q: int|
                        crate::phys::FIRST_ALLOC_PAGE <= q < crate::phys::MAX_PAGES
                            ==> final(phys)@[q] != 0u8))
                }
            }),
    {
        let pages_needed_raw = min_size / PAGE_SIZE + (if min_size % PAGE_SIZE != 0 {
            1
        } else {
            0
        });
        let pages_needed = if pages_needed_raw < 4 {
            4
        } else {
            pages_needed_raw
        };
        proof {
            assert(pages_needed == grow_pages(min_size as int)) by {
                assert((min_size as int + PAGE_SIZE - 1) / PAGE_SIZE as int == min_size as int
                    / PAGE_SIZE as int + (if min_size as int % PAGE_SIZE as int != 0 {
                    1int
                } else {
                    0int
                })) by (nonlinear_arith)
                    requires
                        min_size >= 0,
                        PAGE_SIZE == 4096,
                ;
            }
        }
        let start = self.mapped_end;
        let mut k: usize = 0;
        while k < pages_needed
            invariant
                k <= pages_needed,
                start == old(self).mapped_end,
                start as int % PAGE_SIZE as int == 0,
                self.free_list@ == old(self).free_list@,
                self.mapped_end == start + k * PAGE_SIZE,
                self.mapped_end <= HEAP_END,
                blocks_wf(self.free_list@),
                forall|i: int|
                    0 <= i < self.free_list@.len() ==> (#[trigger] self.free_list@[i]).addr
                        + self.free_list@[i].size <= start,
                space.wf(),
                phys.wf(),
                space.mode == old(space).mode,
                space.nx_enabled == old(space).nx_enabled,
                space.root_phys_page == old(space).root_phys_page,
                space.view().len() == NUM_PAGES,
                forall|q: int|
                    0 <= q < phys.view().len() && phys.view()[q] != old(phys)@[q] ==> old(phys)@[q] == 0u8 && phys.view()[q] == 1u8,
                forall|v: int|
                    0 <= v < NUM_PAGES && !(start as int / PAGE_SIZE as int <= v < self.mapped_end as int / PAGE_SIZE as int) ==> space.view()[v] == old(space)@[v],
                forall|v: int|
                    start as int / PAGE_SIZE as int <= v < self.mapped_end as int / PAGE_SIZE as int
                        ==> crate::pte::entry_present(#[trigger] space.view()[v])
                        && crate::pte::entry_writable(space.view()[v]) && !crate::pte::entry_user(
                        space.view()[v],
                    ),
            decreases pages_needed - k,
        {
            if self.mapped_end >= HEAP_END {
                return false;
            }
            let virt_page_idx = self.mapped_end / PAGE_SIZE;
            proof {
                assert(self.mapped_end < HEAP_END);
                assert(virt_page_idx < NUM_PAGES);
                assert((start + k * PAGE_SIZE + PAGE_SIZE) / PAGE_SIZE as int == virt_page_idx
                    + 1) by (nonlinear_arith)
                    requires
                        start as int % PAGE_SIZE as int == 0,
                        virt_page_idx == (start + k * PAGE_SIZE) as int / PAGE_SIZE as int,
                        self.mapped_end == start + k * PAGE_SIZE,
                        PAGE_SIZE == 4096,
                        k >= 0,
                        start >= 0,
                ;
            }
            if !map_heap_page(space, phys, virt_page_idx) {
                return false;
            }
            self.mapped_end = self.mapped_end + PAGE_SIZE;
            k = k + 1;
        }
        space.flush_tlb();
        proof {
            assert(pages_needed * PAGE_SIZE == self.mapped_end - start);
        }
        let region_size = self.mapped_end - start;
        let ghost before_add = self.free_list@;
        self.add_free_region(start, region_size);
        proof {
            assert(region_size >= MIN_BLOCK_SIZE);
            assert(list_below(before_add, self.mapped_end as int));
            assert(list_below(self.free_list@, self.mapped_end as int));
        }
        true
    }
}

/// How many pages one growth step maps for a request.
pub open spec fn grow_pages(min_size: int) -> int {
    let pn = (min_size + PAGE_SIZE - 1) / PAGE_SIZE as int;
    if pn < 4 {
        4
    } else {
        pn
    }
}

impl KernelAllocator {
    /// Allocate heap memory: first-fit from the free list, growing the heap
    /// and retrying once when nothing fits.  A returned address honours the
    /// alignment; `None` is out of memory.
    #[verifier::rlimit(100)]
    pub fn allocate(
        &mut self,
        size: usize,
        align: usize,
        space: &mut AddressSpace,
        phys: &mut PhysMemory,
    ) -> (r: Option<usize>)
        requires
            heap_wf(old(self).inner),
            old(self).inner.mapped_end as int % PAGE_SIZE as int == 0,
            old(space).wf(),
            old(phys).wf(),
            1 <= align <= 4096,
            size + align + MIN_BLOCK_SIZE <= usize::MAX,
        ensures
            heap_wf(final(self).inner),
            final(self).inner.mapped_end as int % PAGE_SIZE as int == 0,
            final(space).wf(),
            final(phys).wf(),
            final(space).mode == old(space).mode,
            final(space).nx_enabled == old(space).nx_enabled,
            ({
                let size2 = if size < MIN_BLOCK_SIZE {
                    MIN_BLOCK_SIZE as int
                } else {
                    size as int
                };
                r is Some ==> r.unwrap() as int % align as int == 0
            }),
            ({
                let size2 = if size < MIN_BLOCK_SIZE {
                    MIN_BLOCK_SIZE as int
                } else {
                    size as int
                };
                // Nothing fits, even after the one growth attempt.
                r is None ==> forall|i: int|
                    0 <= i < final(self).inner.free_list@.len() ==> !block_fits(
                        #[trigger] final(self).inner.free_list@[i],
                        size2,
                        align as int,
                    )
            }),
    {
        let size2 = if size < MIN_BLOCK_SIZE {
            MIN_BLOCK_SIZE
        } else {
            size
        };
        let ghost end0 = self.inner.mapped_end;
        let first = self.inner.alloc_from_list(size2, align);
        proof {
            assert(list_below(old(self).inner.free_list@, end0 as int));
            assert(list_below(self.inner.free_list@, end0 as int));
        }
        match first {
            Some(p) => Some(p),
            None => {
                if !self.inner.extend_heap(size2 + align, space, phys) {
                    return None;
                }
                let ghost end1 = self.inner.mapped_end;
                let ghost mid_list = self.inner.free_list@;
                let second = self.inner.alloc_from_list(size2, align);
                proof {
                    assert(list_below(mid_list, end1 as int));
                    assert(list_below(self.inner.free_list@, end1 as int));
                }
                second
            },
        }
    }

    /// Give an allocation back to the free list.
    pub fn deallocate(&mut self, ptr: usize, size: usize)
        requires
            heap_wf(old(self).inner),
            ptr + size <= usize::MAX,
            ptr + size <= old(self).inner.mapped_end,
            size >= MIN_BLOCK_SIZE ==> forall|i: int|
                0 <= i < old(self).inner.free_list@.len() ==> (ptr + size <= (
                #[trigger] old(self).inner.free_list@[i]).addr || old(self).inner.free_list@[i].addr + old(self).inner.free_list@[i].size <= ptr),
        ensures
            heap_wf(final(self).inner),
            final(self).inner.mapped_end == old(self).inner.mapped_end,
            total_free(final(self).inner.free_list@) == total_free(old(self).inner.free_list@) + (
            if size >= MIN_BLOCK_SIZE {
                size as int
            } else {
                0int
            }),
    {
        proof {
            assert(list_below(self.inner.free_list@, self.inner.mapped_end as int));
        }
        let ghost end = self.inner.mapped_end;
        self.inner.add_free_region(ptr, size);
        proof {
            assert(list_below(self.inner.free_list@, end as int));
        }
    }
}

} // verus!
