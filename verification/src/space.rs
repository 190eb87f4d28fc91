//! The per-process address space, seen through the recursive mapping.
//!
//! The recursive self-entry of the root table makes the whole page-table
//! hierarchy addressable as one flat array: entry `i` of the window is the
//! leaf entry governing virtual page `i`.  This module models an address
//! space as exactly that array.  Intermediate table pages materialise on
//! demand through the page-fault path, so the flat view is the whole truth
//! about which virtual page maps where.

use vstd::prelude::*;

verus! {

use crate::{NUM_PAGES, PAGE_SIZE, PAGE_TABLE_BASE, PAGE_TABLE_BASE_IDX};
use crate::phys::{PhysMemory, MAX_PAGES, RESERVED, FIRST_ALLOC_PAGE};
use crate::pte::{
    PagingMode, entry_present, entry_writable, entry_user, entry_soft_ro, entry_page, fresh_entry,
    make_entry, clear_writable, lemma_clear_writable, FLAG_READ_WRITE, FLAG_NO_EXECUTE,
    FLAG_SOFT_RO, ADDR_MASK_32, ADDR_MASK_64,
};

/// Entries per page-table page in the given mode.
pub open spec fn epp_spec(mode: PagingMode) -> int {
    match mode {
        PagingMode::Legacy => 1024,
        PagingMode::Pae => 512,
    }
}

/// First window page past the page-table window in the given mode.
pub open spec fn window_end(mode: PagingMode) -> int {
    PAGE_TABLE_BASE_IDX + NUM_PAGES as int / epp_spec(mode)
}

/// Window page at which the root table itself appears.
pub open spec fn root_window_idx(mode: PagingMode) -> int {
    match mode {
        PagingMode::Legacy => 0xC0300,
        PagingMode::Pae => 0xC0603,
    }
}

/// A leaf entry that maps a user page.
pub open spec fn user_present(raw: u64) -> bool {
    entry_present(raw) && entry_user(raw)
}

/// First window page past the last one that demand paging treats as
/// user-accessible.  User space itself plus the user page tables up to the
/// recursive root must carry the user bit; the root and everything after it
/// are kernel-only.
pub open spec fn user_entry_limit(mode: PagingMode) -> int {
    root_window_idx(mode)
}

/// Exec mirror of [`user_entry_limit`].
pub fn user_entry_limit_for(mode: PagingMode) -> (r: usize)
    ensures
        r == user_entry_limit(mode),
{
    match mode {
        PagingMode::Legacy => 0xC0300,
        PagingMode::Pae => 0xC0603,
    }
}

/// Entries per page-table page.
pub fn entries_per_page_for(mode: PagingMode) -> (r: usize)
    ensures
        r == epp_spec(mode),
{
    match mode {
        PagingMode::Legacy => 1024,
        PagingMode::Pae => 512,
    }
}

/// Window page index of the child governed by slot `entry_idx` of the table
/// seen at window page `parent_idx`.
pub fn child_page_idx_for(mode: PagingMode, parent_idx: usize, entry_idx: usize) -> (r: usize)
    requires
        PAGE_TABLE_BASE_IDX <= parent_idx < NUM_PAGES,
        entry_idx < epp_spec(mode),
    ensures
        r == (parent_idx - PAGE_TABLE_BASE_IDX) * epp_spec(mode) + entry_idx,
{
    match mode {
        PagingMode::Legacy => (parent_idx - PAGE_TABLE_BASE_IDX) * 1024 + entry_idx,
        PagingMode::Pae => (parent_idx - PAGE_TABLE_BASE_IDX) * 512 + entry_idx,
    }
}

/// Index of the recursive self-entry within the root table: the page
/// directory points at itself from slot 768 under legacy paging, and the
/// page-directory-pointer table from slot 3 under PAE.
pub fn recursive_root_index(mode: PagingMode) -> (r: usize)
    ensures
        mode == PagingMode::Legacy ==> r == 768,
        mode == PagingMode::Pae ==> r == 3,
{
    match mode {
        PagingMode::Legacy => 768,
        PagingMode::Pae => 3,
    }
}

/// The recursive self-entry sits exactly where it must for the window to
/// appear at `PAGE_TABLE_BASE`: the root slot covers the span of virtual
/// addresses starting at the window base.
pub proof fn lemma_recursive_root_covers_window(mode: PagingMode)
    ensures
        mode == PagingMode::Legacy ==> 768 * 0x400000 == PAGE_TABLE_BASE,
        mode == PagingMode::Pae ==> 3 * 0x40000000 == PAGE_TABLE_BASE,
{
}

/// Within the window, the leaf entry for virtual page `i` lies at byte offset
/// `i` times the entry size, on window page `PAGE_TABLE_BASE_IDX + i / epp`:
/// the window is a flat array indexed by virtual page number.
pub proof fn lemma_window_entry_position(mode: PagingMode, i: int)
    requires
        0 <= i < NUM_PAGES,
    ensures
        ({
            let esize = PAGE_SIZE as int / epp_spec(mode);
            let addr = PAGE_TABLE_BASE + i * esize;
            &&& (addr / PAGE_SIZE as int) == PAGE_TABLE_BASE_IDX + i / epp_spec(mode)
            &&& PAGE_TABLE_BASE_IDX <= (addr / PAGE_SIZE as int)
            &&& (addr / PAGE_SIZE as int) < window_end(mode)
        }),
{
    let esize = PAGE_SIZE as int / epp_spec(mode);
    let epp = epp_spec(mode);
    assert(esize * epp == PAGE_SIZE as int);
    assert((PAGE_TABLE_BASE + i * esize) / PAGE_SIZE as int == PAGE_TABLE_BASE_IDX + i / epp)
        by (nonlinear_arith)
        requires
            0 <= i < NUM_PAGES,
            esize == PAGE_SIZE as int / epp,
            epp == 1024 || epp == 512,
            PAGE_SIZE == 4096,
            PAGE_TABLE_BASE == 0xC000_0000,
            PAGE_TABLE_BASE_IDX == 0xC0000,
    ;
    assert(i / epp < NUM_PAGES as int / epp) by (nonlinear_arith)
        requires
            0 <= i < NUM_PAGES,
            epp == 1024 || epp == 512,
            NUM_PAGES == 0x100000,
    ;
}

/// One address space: the leaf view of its page tables, the paging mode, and
/// the physical page of its root table (the value loaded into CR3).
pub struct AddressSpace {
    pub mode: PagingMode,
    pub entries: Vec<u64>,
    pub nx_enabled: bool,
    pub root_phys_page: usize,
    /// Set when an entry has changed that the TLB may still cache.
    pub tlb_stale: bool,
}

impl View for AddressSpace {
    type V = Seq<u64>;

    open spec fn view(&self) -> Seq<u64> {
        self.entries@
    }
}

/// Increment a reference count the way `inc_shared_count` does: free,
/// reserved, out-of-range and saturated pages are left alone.
pub open spec fn inc_effect(s: Seq<u8>, p: int) -> Seq<u8> {
    if 0 <= p < s.len() && s[p] != 0u8 && s[p] < (RESERVED - 1) as u8 {
        s.update(p, (s[p] + 1) as u8)
    } else {
        s
    }
}

/// Decrement a reference count the way `free_phys_page` does: free, reserved
/// and out-of-range pages are left alone.
pub open spec fn dec_effect(s: Seq<u8>, p: int) -> Seq<u8> {
    if 0 <= p < s.len() && s[p] != 0u8 && s[p] != RESERVED {
        s.update(p, (s[p] - 1) as u8)
    } else {
        s
    }
}

/// Reference counts after fork has shared the first `n` user leaves.
pub open spec fn cow_inc_refs(s: Seq<u8>, entries: Seq<u64>, mode: PagingMode, n: int) -> Seq<u8>
    decreases n,
{
    if n <= 0 {
        s
    } else {
        let prev = cow_inc_refs(s, entries, mode, n - 1);
        if user_present(entries[n - 1]) {
            inc_effect(prev, entry_page(entries[n - 1], mode))
        } else {
            prev
        }
    }
}

/// Reference counts after the first `n` user leaves have been freed.
pub open spec fn free_dec_refs(s: Seq<u8>, entries: Seq<u64>, mode: PagingMode, n: int) -> Seq<u8>
    decreases n,
{
    if n <= 0 {
        s
    } else {
        let prev = free_dec_refs(s, entries, mode, n - 1);
        if user_present(entries[n - 1]) {
            dec_effect(prev, entry_page(entries[n - 1], mode))
        } else {
            prev
        }
    }
}

/// What fork leaves in the parent's slot for a user-space leaf: a shared page
/// loses its writable bit so that the parent also faults on its next write.
pub open spec fn fork_parent_entry(raw: u64) -> u64 {
    if user_present(raw) {
        raw & !FLAG_READ_WRITE
    } else {
        raw
    }
}

/// The child's leaf entry for virtual page `v`: user leaves shared read-only,
/// the window cleared so the child's own tables materialise on demand, the
/// recursive self-entry pointing at the child's root, and kernel mappings
/// copied verbatim.
pub open spec fn fork_child_entry_at(
    parent: Seq<u64>,
    mode: PagingMode,
    root_page: int,
    v: int,
) -> u64 {
    if v < PAGE_TABLE_BASE_IDX {
        fork_parent_entry(parent[v])
    } else if v == root_window_idx(mode) {
        fresh_entry(root_page, true, false)
    } else if v < window_end(mode) {
        0u64
    } else {
        parent[v]
    }
}

impl AddressSpace {
    /// The leaf view always covers the whole 4 GiB space, no-execute is only
    /// ever enabled under PAE, and the root page is a tracked physical page.
    pub open spec fn wf(self) -> bool {
        self.entries@.len() == NUM_PAGES && (self.mode == PagingMode::Legacy
            ==> !self.nx_enabled) && self.root_phys_page < MAX_PAGES
    }

    /// A fresh, empty address space whose root table lives on `root_page`.
    pub fn new_empty(mode: PagingMode, nx_enabled: bool, root_page: usize) -> (r: AddressSpace)
        requires
            mode == PagingMode::Legacy ==> !nx_enabled,
            root_page < MAX_PAGES,
        ensures
            r.wf(),
            r.mode == mode,
            r.nx_enabled == nx_enabled,
            r.root_phys_page == root_page,
            r@.len() == NUM_PAGES,
            forall|v: int| 0 <= v < NUM_PAGES ==> r@[v] == 0u64,
            !r.tlb_stale,
    {
        let mut entries: Vec<u64> = Vec::new();
        let mut i: usize = 0;
        while i < NUM_PAGES
            invariant
                i == entries@.len() <= NUM_PAGES,
                forall|v: int| 0 <= v < i ==> entries@[v] == 0u64,
            decreases NUM_PAGES - i,
        {
            entries.push(0);
            i = i + 1;
        }
        AddressSpace { mode, entries, nx_enabled, root_phys_page: root_page, tlb_stale: false }
    }

    /// Whether this space runs under PAE.
    pub fn is_pae(&self) -> (r: bool)
        ensures
            r == (self.mode == PagingMode::Pae),
    {
        self.mode == PagingMode::Pae
    }

    /// Whether the no-execute bit is honoured.
    pub fn nx_enabled(&self) -> (r: bool)
        ensures
            r == self.nx_enabled,
    {
        self.nx_enabled
    }

    /// Honour the no-execute bit from now on; takes effect only under PAE and
    /// only when the CPU advertises the feature.
    pub fn enable_nx(&mut self, cpu_has_nx: bool)
        requires
            old(self).wf(),
        ensures
            final(self).wf(),
            final(self)@ == old(self)@,
            final(self).mode == old(self).mode,
            final(self).root_phys_page == old(self).root_phys_page,
            final(self).tlb_stale == old(self).tlb_stale,
            final(self).nx_enabled == (old(self).nx_enabled || (cpu_has_nx && old(self).mode
                == PagingMode::Pae)),
    {
        if cpu_has_nx && self.mode == PagingMode::Pae {
            self.nx_enabled = true;
        }
    }

    /// The value this space's root would put in CR3.
    pub fn current_cr3(&self) -> (r: u32)
        requires
            self.wf(),
        ensures
            r == self.root_phys_page * PAGE_SIZE,
    {
        (self.root_phys_page * PAGE_SIZE) as u32
    }

    /// The TLB no longer caches stale entries.
    pub fn flush_tlb(&mut self)
        ensures
            final(self)@ == old(self)@,
            final(self).mode == old(self).mode,
            final(self).nx_enabled == old(self).nx_enabled,
            final(self).root_phys_page == old(self).root_phys_page,
            !final(self).tlb_stale,
            old(self).wf() ==> final(self).wf(),
    {
        self.tlb_stale = false;
    }

    pub fn is_present(&self, v: usize) -> (r: bool)
        requires
            self.wf(),
            v < NUM_PAGES,
        ensures
            r == entry_present(self@[v as int]),
    {
        self.entries[v] & 0x1 != 0
    }

    pub fn is_writable(&self, v: usize) -> (r: bool)
        requires
            self.wf(),
            v < NUM_PAGES,
        ensures
            r == entry_writable(self@[v as int]),
    {
        self.entries[v] & 0x2 != 0
    }

    pub fn is_user(&self, v: usize) -> (r: bool)
        requires
            self.wf(),
            v < NUM_PAGES,
        ensures
            r == entry_user(self@[v as int]),
    {
        self.entries[v] & 0x4 != 0
    }

    pub fn is_soft_ro(&self, v: usize) -> (r: bool)
        requires
            self.wf(),
            v < NUM_PAGES,
        ensures
            r == entry_soft_ro(self@[v as int]),
    {
        self.entries[v] & 0x200 != 0
    }

    /// Physical page number that a leaf entry maps.
    pub fn get_phys_page(&self, v: usize) -> (r: u64)
        requires
            self.wf(),
            v < NUM_PAGES,
        ensures
            r == entry_page(self@[v as int], self.mode),
    {
        let raw = self.entries[v];
        match self.mode {
            PagingMode::Legacy => (raw & ADDR_MASK_32) >> 12,
            PagingMode::Pae => (raw & ADDR_MASK_64) >> 12,
        }
    }

    /// Physical page number for a virtual address.
    pub fn physical_page(&self, vaddr: usize) -> (r: u64)
        requires
            self.wf(),
            vaddr < NUM_PAGES * PAGE_SIZE,
        ensures
            r == entry_page(self@[vaddr as int / PAGE_SIZE as int], self.mode),
    {
        let idx = vaddr / PAGE_SIZE;
        self.get_phys_page(idx)
    }

    /// Install a leaf entry: virtual page `v` maps physical page `phys` with
    /// the given writable and user bits.  The TLB is stale until flushed;
    /// after a flush, the page is present with exactly these attributes.
    pub fn set_entry(&mut self, v: usize, phys: usize, writable: bool, user: bool)
        requires
            old(self).wf(),
            v < NUM_PAGES,
            phys < 0x100000,
        ensures
            final(self).wf(),
            final(self)@ == old(self)@.update(v as int, fresh_entry(phys as int, writable, user)),
            final(self).mode == old(self).mode,
            final(self).nx_enabled == old(self).nx_enabled,
            final(self).root_phys_page == old(self).root_phys_page,
            final(self).tlb_stale,
            entry_present(final(self)@[v as int]),
            entry_writable(final(self)@[v as int]) == writable,
            entry_user(final(self)@[v as int]) == user,
            entry_page(final(self)@[v as int], final(self).mode) == phys,
    {
        let raw = make_entry(phys, writable, user);
        self.entries.set(v, raw);
        self.tlb_stale = true;
    }

    /// Remove the leaf entry for virtual page `v`.
    pub fn clear_entry(&mut self, v: usize)
        requires
            old(self).wf(),
            v < NUM_PAGES,
        ensures
            final(self).wf(),
            final(self)@ == old(self)@.update(v as int, 0u64),
            final(self).mode == old(self).mode,
            final(self).nx_enabled == old(self).nx_enabled,
            final(self).root_phys_page == old(self).root_phys_page,
            final(self).tlb_stale,
            !entry_present(final(self)@[v as int]),
    {
        self.entries.set(v, 0);
        self.tlb_stale = true;
        proof {
            crate::pte::lemma_zero_entry(self.mode);
        }
    }

    /// Overwrite a leaf entry with raw bits.
    pub fn set_raw_entry(&mut self, v: usize, raw: u64)
        requires
            old(self).wf(),
            v < NUM_PAGES,
        ensures
            final(self).wf(),
            final(self)@ == old(self)@.update(v as int, raw),
            final(self).mode == old(self).mode,
            final(self).nx_enabled == old(self).nx_enabled,
            final(self).root_phys_page == old(self).root_phys_page,
            final(self).tlb_stale,
    {
        self.entries.set(v, raw);
        self.tlb_stale = true;
    }

    /// Read the raw bits of a leaf entry.
    pub fn raw_entry(&self, v: usize) -> (r: u64)
        requires
            self.wf(),
            v < NUM_PAGES,
        ensures
            r == self@[v as int],
    {
        self.entries[v]
    }

    /// Fork this address space: produce a child whose user pages are shared
    /// copy-on-write.  Every present user leaf has its reference count
    /// raised, and both sides lose the writable bit, so the first write from
    /// either side faults and copies.  Kernel mappings are copied verbatim;
    /// the child's own page-table window starts empty but for the recursive
    /// self-entry on the freshly allocated root page.  Fails exactly when no
    /// physical page is free for the root.
    pub fn fork_current(&mut self, phys: &mut PhysMemory) -> (r: Option<AddressSpace>)
        requires
            old(self).wf(),
            old(phys).wf(),
        ensures
            final(self).wf(),
            final(phys).wf(),
            final(self).mode == old(self).mode,
            final(self).nx_enabled == old(self).nx_enabled,
            final(self).root_phys_page == old(self).root_phys_page,
            match r {
                Some(child) => {
                    &&& child.wf()
                    &&& child.mode == old(self).mode
                    &&& child.nx_enabled == old(self).nx_enabled
                    &&& !child.tlb_stale
                    &&& !final(self).tlb_stale
                    &&& FIRST_ALLOC_PAGE <= child.root_phys_page < MAX_PAGES
                    &&& old(phys)@[child.root_phys_page as int] == 0u8
                    &&& final(phys)@ == cow_inc_refs(
                        old(phys)@.update(child.root_phys_page as int, 1u8),
                        old(self)@,
                        old(self).mode,
                        PAGE_TABLE_BASE_IDX as int,
                    )
                    &&& final(self)@.len() == NUM_PAGES
                    &&& forall|v: int|
                        0 <= v < NUM_PAGES ==> final(self)@[v] == (if v < PAGE_TABLE_BASE_IDX {
                            fork_parent_entry(old(self)@[v])
                        } else {
                            old(self)@[v]
                        })
                    &&& child@.len() == NUM_PAGES
                    &&& forall|v: int|
                        0 <= v < NUM_PAGES ==> child@[v] == fork_child_entry_at(
                            old(self)@,
                            old(self).mode,
                            child.root_phys_page as int,
                            v,
                        )
                },
                None => {
                    &&& final(self)@ == old(self)@
                    &&& final(self).tlb_stale == old(self).tlb_stale
                    &&& final(phys)@ == old(phys)@
                    &&& forall|q: int|
                        FIRST_ALLOC_PAGE <= q < MAX_PAGES ==> old(phys)@[q] != 0u8
                },
            },
    {
        proof {
            crate::phys::lemma_wf_len(phys);
        }
        let root = match phys.alloc_phys_page() {
            Some(p) => p,
            None => {
                return None;
            },
        };
        let ghost refs0 = old(phys)@.update(root as int, 1u8);
        let mode = self.mode;
        let mut child_entries: Vec<u64> = Vec::new();
        let mut v: usize = 0;
        while v < PAGE_TABLE_BASE_IDX
            invariant
                self.entries@.len() == NUM_PAGES,
                self.mode == old(self).mode,
                mode == old(self).mode,
                self.nx_enabled == old(self).nx_enabled,
                self.root_phys_page == old(self).root_phys_page,
                v <= PAGE_TABLE_BASE_IDX,
                child_entries@.len() == v,
                phys.wf(),
                phys.view().len() == MAX_PAGES,
                refs0.len() == MAX_PAGES,
                phys.view() == cow_inc_refs(refs0, old(self).entries@, mode, v as int),
                forall|w: int|
                    v <= w < NUM_PAGES ==> self.entries@[w] == old(self).entries@[w],
                forall|w: int|
                    0 <= w < v ==> self.entries@[w] == fork_parent_entry(old(self).entries@[w]),
                forall|w: int|
                    0 <= w < v ==> child_entries@[w] == fork_parent_entry(old(self).entries@[w]),
            decreases PAGE_TABLE_BASE_IDX - v,
        {
            let raw = self.entries[v];
            assert(raw == old(self).entries@[v as int]);
            if raw & 0x1 != 0 && raw & 0x4 != 0 {
                let page: u64 = match mode {
                    PagingMode::Legacy => (raw & ADDR_MASK_32) >> 12,
                    PagingMode::Pae => (raw & ADDR_MASK_64) >> 12,
                };
                if page < MAX_PAGES as u64 {
                    phys.inc_shared_count(page as usize);
                } else {
                    assert(inc_effect(phys.view(), page as int) == phys.view());
                }
                let shared = clear_writable(raw);
                self.entries.set(v, shared);
                child_entries.push(shared);
            } else {
                child_entries.push(raw);
            }
            v = v + 1;
            proof {
                crate::phys::lemma_wf_len(phys);
                assert(cow_inc_refs(refs0, old(self).entries@, mode, v as int)
                    == if user_present(old(self).entries@[v - 1]) {
                    inc_effect(
                        cow_inc_refs(refs0, old(self).entries@, mode, v - 1),
                        entry_page(old(self).entries@[v - 1], mode),
                    )
                } else {
                    cow_inc_refs(refs0, old(self).entries@, mode, v - 1)
                });
            }
        }
        // The page-table window: empty in the child but for the recursive
        // self-entry, then the kernel mappings copied verbatim.
        let win_end: usize = PAGE_TABLE_BASE_IDX + NUM_PAGES / entries_per_page_for(mode);
        let root_widx: usize = match mode {
            PagingMode::Legacy => 0xC0300,
            PagingMode::Pae => 0xC0603,
        };
        let root_entry = make_entry(root, true, false);
        let mut w: usize = PAGE_TABLE_BASE_IDX;
        while w < NUM_PAGES
            invariant
                self.entries@.len() == NUM_PAGES,
                mode == old(self).mode,
                PAGE_TABLE_BASE_IDX <= w <= NUM_PAGES,
                child_entries@.len() == w,
                win_end == window_end(mode),
                root_widx == root_window_idx(mode),
                root_entry == fresh_entry(root as int, true, false),
                forall|u: int|
                    PAGE_TABLE_BASE_IDX <= u < NUM_PAGES ==> self.entries@[u] == old(
                        self,
                    ).entries@[u],
                forall|u: int|
                    0 <= u < PAGE_TABLE_BASE_IDX ==> child_entries@[u] == fork_parent_entry(
                        old(self).entries@[u],
                    ),
                forall|u: int|
                    PAGE_TABLE_BASE_IDX <= u < w ==> child_entries@[u] == (if u == root_widx {
                        root_entry
                    } else if u < win_end {
                        0u64
                    } else {
                        old(self).entries@[u]
                    }),
            decreases NUM_PAGES - w,
        {
            if w == root_widx {
                child_entries.push(root_entry);
            } else if w < win_end {
                child_entries.push(0);
            } else {
                child_entries.push(self.entries[w]);
            }
            w = w + 1;
        }
        self.tlb_stale = false;
        let child = AddressSpace {
            mode,
            entries: child_entries,
            nx_enabled: self.nx_enabled,
            root_phys_page: root,
            tlb_stale: false,
        };
        Some(child)
    }

    /// Drop every user mapping's claim on its physical page: each present
    /// user leaf has its reference count lowered once (reserved pages, such
    /// as the shared zero page, stay untouched).  The leaf entries themselves
    /// are left in place; the caller reloads or discards the space.
    pub fn free_user_pages(&mut self, phys: &mut PhysMemory)
        requires
            old(self).wf(),
            old(phys).wf(),
        ensures
            *final(self) == *old(self),
            final(phys).wf(),
            final(phys)@ == free_dec_refs(
                old(phys)@,
                old(self)@,
                old(self).mode,
                PAGE_TABLE_BASE_IDX as int,
            ),
    {
        proof {
            crate::phys::lemma_wf_len(phys);
        }
        let mode = self.mode;
        let mut v: usize = 0;
        while v < PAGE_TABLE_BASE_IDX
            invariant
                self == old(self),
                self.entries@.len() == NUM_PAGES,
                mode == old(self).mode,
                v <= PAGE_TABLE_BASE_IDX,
                phys.wf(),
                phys.view().len() == MAX_PAGES,
                phys.view() == free_dec_refs(old(phys).view(), old(self).entries@, mode, v as int),
            decreases PAGE_TABLE_BASE_IDX - v,
        {
            let raw = self.entries[v];
            if raw & 0x1 != 0 && raw & 0x4 != 0 {
                let page: u64 = match mode {
                    PagingMode::Legacy => (raw & ADDR_MASK_32) >> 12,
                    PagingMode::Pae => (raw & ADDR_MASK_64) >> 12,
                };
                if page < MAX_PAGES as u64 {
                    phys.free_phys_page(page as usize);
                } else {
                    assert(dec_effect(phys.view(), page as int) == phys.view());
                }
            }
            v = v + 1;
            proof {
                crate::phys::lemma_wf_len(phys);
                assert(free_dec_refs(old(phys).view(), old(self).entries@, mode, v as int)
                    == if user_present(old(self).entries@[v - 1]) {
                    dec_effect(
                        free_dec_refs(old(phys).view(), old(self).entries@, mode, v - 1),
                        entry_page(old(self).entries@[v - 1], mode),
                    )
                } else {
                    free_dec_refs(old(phys).view(), old(self).entries@, mode, v - 1)
                });
            }
        }
    }

    /// Harden the kernel image after boot: code becomes read-only and
    /// executable, read-only data loses both write and execute, and mutable
    /// data loses execute.  Hardened read-only pages are also sealed
    /// `SOFT_RO`, so a later copy-on-write can never make them writable
    /// again.  The no-execute bit is applied only when enabled.
    pub fn harden_kernel(
        &mut self,
        text_start_page: usize,
        text_end_page: usize,
        rodata_end_page: usize,
        data_start_page: usize,
        data_end_page: usize,
    )
        requires
            old(self).wf(),
            text_start_page <= text_end_page <= rodata_end_page <= NUM_PAGES,
            data_start_page <= data_end_page <= NUM_PAGES,
        ensures
            final(self).wf(),
            final(self).mode == old(self).mode,
            final(self).nx_enabled == old(self).nx_enabled,
            final(self).root_phys_page == old(self).root_phys_page,
            !final(self).tlb_stale,
            forall|p: int|
                0 <= p < NUM_PAGES ==> final(self)@[p] == harden_entry(
                    old(self)@[p],
                    p,
                    text_start_page as int,
                    text_end_page as int,
                    rodata_end_page as int,
                    data_start_page as int,
                    data_end_page as int,
                    old(self).nx_enabled,
                ),
    {
        let nx = self.nx_enabled;
        let mut p: usize = text_start_page;
        while p < text_end_page
            invariant
                self.entries@.len() == NUM_PAGES,
                self.mode == old(self).mode,
                self.nx_enabled == old(self).nx_enabled,
                self.root_phys_page == old(self).root_phys_page,
                text_start_page <= p,
                p <= text_end_page || p == text_start_page,
                text_end_page <= NUM_PAGES,
                forall|q: int|
                    0 <= q < NUM_PAGES && !(text_start_page <= q < p) ==> self.entries@[q] == old(
                        self,
                    ).entries@[q],
                forall|q: int|
                    text_start_page <= q < p ==> self.entries@[q] == ((old(self).entries@[q]
                        & !FLAG_READ_WRITE) | FLAG_SOFT_RO),
            decreases text_end_page - p,
        {
            let raw = self.entries[p];
            self.entries.set(p, (raw & !FLAG_READ_WRITE) | FLAG_SOFT_RO);
            p = p + 1;
        }
        let ghost after_text = self.entries@;
        let mut q: usize = text_end_page;
        while q < rodata_end_page
            invariant
                self.entries@.len() == NUM_PAGES,
                self.mode == old(self).mode,
                self.nx_enabled == old(self).nx_enabled,
                self.root_phys_page == old(self).root_phys_page,
                nx == old(self).nx_enabled,
                text_end_page <= q,
                q <= rodata_end_page || q == text_end_page,
                rodata_end_page <= NUM_PAGES,
                forall|u: int|
                    0 <= u < NUM_PAGES && !(text_end_page <= u < q) ==> self.entries@[u]
                        == after_text[u],
                forall|u: int|
                    text_end_page <= u < q ==> self.entries@[u] == apply_nx(
                        (after_text[u] & !FLAG_READ_WRITE) | FLAG_SOFT_RO,
                        nx,
                    ),
            decreases rodata_end_page - q,
        {
            let raw = self.entries[q];
            let sealed = (raw & !FLAG_READ_WRITE) | FLAG_SOFT_RO;
            let hardened = if nx {
                sealed | FLAG_NO_EXECUTE
            } else {
                sealed
            };
            self.entries.set(q, hardened);
            q = q + 1;
        }
        let ghost after_rodata = self.entries@;
        let mut d: usize = data_start_page;
        while d < data_end_page
            invariant
                self.entries@.len() == NUM_PAGES,
                self.mode == old(self).mode,
                self.nx_enabled == old(self).nx_enabled,
                self.root_phys_page == old(self).root_phys_page,
                nx == old(self).nx_enabled,
                data_start_page <= d,
                d <= data_end_page || d == data_start_page,
                data_end_page <= NUM_PAGES,
                forall|u: int|
                    0 <= u < NUM_PAGES && !(data_start_page <= u < d) ==> self.entries@[u]
                        == after_rodata[u],
                forall|u: int|
                    data_start_page <= u < d ==> self.entries@[u] == apply_nx(after_rodata[u], nx),
            decreases data_end_page - d,
        {
            let raw = self.entries[d];
            let hardened = if nx {
                raw | FLAG_NO_EXECUTE
            } else {
                raw
            };
            self.entries.set(d, hardened);
            d = d + 1;
        }
        assert forall|u: int| 0 <= u < NUM_PAGES implies self.entries@[u] == harden_entry(
            old(self).entries@[u],
            u,
            text_start_page as int,
            text_end_page as int,
            rodata_end_page as int,
            data_start_page as int,
            data_end_page as int,
            old(self).nx_enabled,
        ) by {
            assert(after_text[u] == (if text_start_page <= u < text_end_page {
                (old(self).entries@[u] & !FLAG_READ_WRITE) | FLAG_SOFT_RO
            } else {
                old(self).entries@[u]
            }));
            assert(after_rodata[u] == (if text_end_page <= u < rodata_end_page {
                apply_nx((after_text[u] & !FLAG_READ_WRITE) | FLAG_SOFT_RO, nx)
            } else {
                after_text[u]
            }));
        }
        self.tlb_stale = false;
    }
}

/// Set the no-execute bit when it is honoured.
pub open spec fn apply_nx(raw: u64, nx_enabled: bool) -> u64 {
    if nx_enabled {
        raw | FLAG_NO_EXECUTE
    } else {
        raw
    }
}

/// What hardening does to the leaf entry of page `p`: first the code range
/// loses its writable bit and gains the `SOFT_RO` seal, then the
/// read-only-data range loses write and execute and gains the seal, then
/// the data range loses execute.
pub open spec fn harden_entry(
    raw: u64,
    p: int,
    text_start: int,
    text_end: int,
    rodata_end: int,
    data_start: int,
    data_end: int,
    nx_enabled: bool,
) -> u64 {
    let e1 = if text_start <= p < text_end {
        (raw & !FLAG_READ_WRITE) | FLAG_SOFT_RO
    } else {
        raw
    };
    let e2 = if text_end <= p < rodata_end {
        apply_nx((e1 & !FLAG_READ_WRITE) | FLAG_SOFT_RO, nx_enabled)
    } else {
        e1
    };
    if data_start <= p < data_end {
        apply_nx(e2, nx_enabled)
    } else {
        e2
    }
}

/// Length is preserved through the fork reference-count fold.
pub proof fn lemma_cow_inc_refs_len(s: Seq<u8>, entries: Seq<u64>, mode: PagingMode, n: int)
    ensures
        cow_inc_refs(s, entries, mode, n).len() == s.len(),
    decreases n,
{
    if n > 0 {
        lemma_cow_inc_refs_len(s, entries, mode, n - 1);
    }
}

/// A page mapped by no user leaf among the first `n` keeps its count through
/// the fork fold.
pub proof fn lemma_cow_inc_refs_unmapped(
    s: Seq<u8>,
    entries: Seq<u64>,
    mode: PagingMode,
    n: int,
    p: int,
)
    requires
        0 <= p < s.len(),
        forall|w: int|
            0 <= w < n && user_present(#[trigger] entries[w]) ==> entry_page(entries[w], mode) != p,
    ensures
        cow_inc_refs(s, entries, mode, n)[p] == s[p],
    decreases n,
{
    if n > 0 {
        lemma_cow_inc_refs_unmapped(s, entries, mode, n - 1, p);
        lemma_cow_inc_refs_len(s, entries, mode, n - 1);
    }
}

/// A page mapped by exactly one user leaf among the first `n`, with a live
/// unsaturated count, comes out of the fork fold with its count raised by
/// exactly one.
pub proof fn lemma_cow_inc_refs_unique(
    s: Seq<u8>,
    entries: Seq<u64>,
    mode: PagingMode,
    n: int,
    v: int,
)
    requires
        0 <= v < n,
        user_present(entries[v]),
        0 <= entry_page(entries[v], mode) < s.len(),
        s[entry_page(entries[v], mode)] != 0u8,
        s[entry_page(entries[v], mode)] < (RESERVED - 1) as u8,
        forall|w: int|
            0 <= w < n && w != v && user_present(#[trigger] entries[w]) ==> entry_page(
                entries[w],
                mode,
            ) != entry_page(entries[v], mode),
    ensures
        cow_inc_refs(s, entries, mode, n)[entry_page(entries[v], mode)] == s[entry_page(
            entries[v],
            mode,
        )] + 1,
    decreases n,
{
    let p = entry_page(entries[v], mode);
    lemma_cow_inc_refs_len(s, entries, mode, n - 1);
    if n - 1 == v {
        lemma_cow_inc_refs_unmapped(s, entries, mode, n - 1, p);
    } else {
        lemma_cow_inc_refs_unique(s, entries, mode, n - 1, v);
    }
}

/// Length is preserved through the free fold.
pub proof fn lemma_free_dec_refs_len(s: Seq<u8>, entries: Seq<u64>, mode: PagingMode, n: int)
    ensures
        free_dec_refs(s, entries, mode, n).len() == s.len(),
    decreases n,
{
    if n > 0 {
        lemma_free_dec_refs_len(s, entries, mode, n - 1);
    }
}

/// A page mapped by no user leaf among the first `n` keeps its count through
/// the free fold.
pub proof fn lemma_free_dec_refs_unmapped(
    s: Seq<u8>,
    entries: Seq<u64>,
    mode: PagingMode,
    n: int,
    p: int,
)
    requires
        0 <= p < s.len(),
        forall|w: int|
            0 <= w < n && user_present(#[trigger] entries[w]) ==> entry_page(entries[w], mode) != p,
    ensures
        free_dec_refs(s, entries, mode, n)[p] == s[p],
    decreases n,
{
    if n > 0 {
        lemma_free_dec_refs_unmapped(s, entries, mode, n - 1, p);
        lemma_free_dec_refs_len(s, entries, mode, n - 1);
    }
}

/// After freeing the user pages, the physical page of every user leaf that
/// maps it alone, live and unreserved, has its reference count lowered by
/// exactly one.
pub proof fn lemma_free_dec_refs_unique(
    s: Seq<u8>,
    entries: Seq<u64>,
    mode: PagingMode,
    n: int,
    v: int,
)
    requires
        0 <= v < n,
        user_present(entries[v]),
        0 <= entry_page(entries[v], mode) < s.len(),
        s[entry_page(entries[v], mode)] != 0u8,
        s[entry_page(entries[v], mode)] != RESERVED,
        forall|w: int|
            0 <= w < n && w != v && user_present(#[trigger] entries[w]) ==> entry_page(
                entries[w],
                mode,
            ) != entry_page(entries[v], mode),
    ensures
        free_dec_refs(s, entries, mode, n)[entry_page(entries[v], mode)] == s[entry_page(
            entries[v],
            mode,
        )] - 1,
    decreases n,
{
    let p = entry_page(entries[v], mode);
    lemma_free_dec_refs_len(s, entries, mode, n - 1);
    if n - 1 == v {
        lemma_free_dec_refs_unmapped(s, entries, mode, n - 1, p);
    } else {
        lemma_free_dec_refs_unique(s, entries, mode, n - 1, v);
    }
}

/// A reserved page keeps its marker through the free fold: freeing user
/// pages never touches a reserved page, such as the shared zero page.
pub proof fn lemma_free_dec_refs_reserved(
    s: Seq<u8>,
    entries: Seq<u64>,
    mode: PagingMode,
    n: int,
    p: int,
)
    requires
        0 <= p < s.len(),
        s[p] == RESERVED,
    ensures
        free_dec_refs(s, entries, mode, n)[p] == RESERVED,
    decreases n,
{
    if n > 0 {
        lemma_free_dec_refs_reserved(s, entries, mode, n - 1, p);
        lemma_free_dec_refs_len(s, entries, mode, n - 1);
    }
}

/// For every user virtual page `v` mapped writable before a fork, both the
/// parent's and the child's entry for `v` are read-only afterwards, and the
/// page's reference count — live, unsaturated, and not aliased by another
/// user leaf — has grown by exactly one.
pub proof fn lemma_fork_cow(s: Seq<u8>, entries: Seq<u64>, mode: PagingMode, root: int, v: int)
    requires
        s.len() == MAX_PAGES,
        entries.len() == NUM_PAGES,
        0 <= v < PAGE_TABLE_BASE_IDX,
        user_present(entries[v]),
        entry_writable(entries[v]),
        0 <= root < MAX_PAGES,
        entry_page(entries[v], mode) != root,
        0 <= entry_page(entries[v], mode) < MAX_PAGES,
        s[entry_page(entries[v], mode)] != 0u8,
        s[entry_page(entries[v], mode)] < (RESERVED - 1) as u8,
        forall|w: int|
            0 <= w < PAGE_TABLE_BASE_IDX && w != v && user_present(#[trigger] entries[w])
                ==> entry_page(entries[w], mode) != entry_page(entries[v], mode),
    ensures
        !entry_writable(fork_parent_entry(entries[v])),
        !entry_writable(fork_child_entry_at(entries, mode, root, v)),
        cow_inc_refs(s.update(root, 1u8), entries, mode, PAGE_TABLE_BASE_IDX as int)[entry_page(
            entries[v],
            mode,
        )] == s[entry_page(entries[v], mode)] + 1,
{
    lemma_clear_writable(entries[v], mode);
    let p = entry_page(entries[v], mode);
    let s0 = s.update(root, 1u8);
    lemma_cow_inc_refs_unique(s0, entries, mode, PAGE_TABLE_BASE_IDX as int, v);
}

} // verus!
