//! Page-table entries.
//!
//! Two concrete formats share one contract: 32-bit entries for legacy
//! two-level paging and 64-bit entries for PAE.  Every predicate is defined
//! once over the raw bits, so the rest of the paging code can treat an entry
//! as a plain `u64` whatever the mode.

use vstd::prelude::*;

verus! {

/// Present bit.
pub const FLAG_PRESENT: u64 = 0x1;

/// Writable bit.
pub const FLAG_READ_WRITE: u64 = 0x2;

/// User-accessible bit.
pub const FLAG_USER: u64 = 0x4;

/// Software read-only bit: the page is semantically read-only forever, and
/// copy-on-write must never make it writable.
pub const FLAG_SOFT_RO: u64 = 0x200;

/// No-execute bit (PAE only, honoured when `EFER.NXE` is set).
pub const FLAG_NO_EXECUTE: u64 = 0x8000_0000_0000_0000;

/// Physical-address mask of a legacy 32-bit entry.
pub const ADDR_MASK_32: u64 = 0xFFFF_F000;

/// Physical-address mask of a PAE 64-bit entry.
pub const ADDR_MASK_64: u64 = 0x000F_FFFF_FFFF_F000;

/// The two paging modes the kernel can run under.
#[derive(Clone, Copy, PartialEq, Eq, Structural, Debug)]
pub enum PagingMode {
    Legacy,
    Pae,
}

/// Address mask of an entry in the given mode.
pub open spec fn addr_mask(mode: PagingMode) -> u64 {
    match mode {
        PagingMode::Legacy => ADDR_MASK_32,
        PagingMode::Pae => ADDR_MASK_64,
    }
}

pub open spec fn entry_present(raw: u64) -> bool {
    raw & FLAG_PRESENT != 0
}

pub open spec fn entry_writable(raw: u64) -> bool {
    raw & FLAG_READ_WRITE != 0
}

pub open spec fn entry_user(raw: u64) -> bool {
    raw & FLAG_USER != 0
}

pub open spec fn entry_soft_ro(raw: u64) -> bool {
    raw & FLAG_SOFT_RO != 0
}

pub open spec fn entry_nx(raw: u64) -> bool {
    raw & FLAG_NO_EXECUTE != 0
}

/// Physical page number held by an entry.
pub open spec fn entry_page(raw: u64, mode: PagingMode) -> int {
    ((raw & addr_mask(mode)) >> 12) as int
}

/// A fresh present entry: the given physical page with the writable and user
/// bits as requested and every other bit clear.
pub open spec fn fresh_entry(page: int, writable: bool, user: bool) -> u64 {
    (((page as u64) << 12) | FLAG_PRESENT | (if writable {
        FLAG_READ_WRITE
    } else {
        0
    }) | (if user {
        FLAG_USER
    } else {
        0
    }))
}

/// Build a present entry for a physical page.
pub fn make_entry(page: usize, writable: bool, user: bool) -> (r: u64)
    requires
        page < 0x100000,
    ensures
        r == fresh_entry(page as int, writable, user),
        entry_present(r),
        entry_writable(r) == writable,
        entry_user(r) == user,
        !entry_soft_ro(r),
        !entry_nx(r),
        entry_page(r, PagingMode::Legacy) == page,
        entry_page(r, PagingMode::Pae) == page,
{
    let w: u64 = if writable {
        FLAG_READ_WRITE
    } else {
        0
    };
    let u: u64 = if user {
        FLAG_USER
    } else {
        0
    };
    let r: u64 = ((page as u64) << 12) | FLAG_PRESENT | w | u;
    proof {
        let p = page as u64;
        let wb = w;
        let ub = u;
        assert(({
            let e = (p << 12) | 0x1u64 | wb | ub;
            &&& e & 0x1 != 0
            &&& (e & 0x2 != 0) == (wb == 0x2)
            &&& (e & 0x4 != 0) == (ub == 0x4)
            &&& e & 0x200 == 0
            &&& e & 0x8000_0000_0000_0000 == 0
            &&& ((e & 0xFFFF_F000) >> 12) == p
            &&& ((e & 0x000F_FFFF_FFFF_F000) >> 12) == p
        })) by (bit_vector)
            requires
                wb == 0 || wb == 0x2,
                ub == 0 || ub == 0x4,
                p < 0x100000,
        ;
    }
    r
}

/// Clear the writable bit; everything else is untouched.
pub fn clear_writable(raw: u64) -> (r: u64)
    ensures
        r == raw & !FLAG_READ_WRITE,
{
    raw & !FLAG_READ_WRITE
}

/// Clearing the writable bit leaves every other aspect of an entry alone.
pub proof fn lemma_clear_writable(raw: u64, mode: PagingMode)
    ensures
        !entry_writable(raw & !FLAG_READ_WRITE),
        entry_present(raw & !FLAG_READ_WRITE) == entry_present(raw),
        entry_user(raw & !FLAG_READ_WRITE) == entry_user(raw),
        entry_soft_ro(raw & !FLAG_READ_WRITE) == entry_soft_ro(raw),
        entry_nx(raw & !FLAG_READ_WRITE) == entry_nx(raw),
        entry_page(raw & !FLAG_READ_WRITE, mode) == entry_page(raw, mode),
        !entry_writable(raw) ==> raw & !FLAG_READ_WRITE == raw,
{
    assert(((raw & !0x2u64) & 0x2 == 0) && ((raw & !0x2) & 0x1 == raw & 0x1) && ((raw & !0x2) & 0x4
        == raw & 0x4) && ((raw & !0x2) & 0x200 == raw & 0x200) && ((raw & !0x2)
        & 0x8000_0000_0000_0000 == raw & 0x8000_0000_0000_0000) && (((raw & !0x2) & 0xFFFF_F000)
        >> 12 == (raw & 0xFFFF_F000) >> 12) && (((raw & !0x2) & 0x000F_FFFF_FFFF_F000) >> 12 == (raw
        & 0x000F_FFFF_FFFF_F000) >> 12) && (raw & 0x2 == 0 ==> raw & !0x2 == raw)) by (bit_vector);
}

/// An all-zero entry is absent.
pub proof fn lemma_zero_entry(mode: PagingMode)
    ensures
        !entry_present(0),
        !entry_writable(0),
        !entry_user(0),
        entry_page(0, mode) == 0,
{
    assert((0u64 & 0x1 == 0) && (0u64 & 0x2 == 0) && (0u64 & 0x4 == 0) && ((0u64 & 0xFFFF_F000)
        >> 12 == 0) && ((0u64 & 0x000F_FFFF_FFFF_F000) >> 12 == 0)) by (bit_vector);
}

/// A legacy 32-bit page-table entry.
#[derive(Clone, Copy, PartialEq, Eq, Structural)]
pub struct Entry32(pub u32);

/// A PAE 64-bit page-table entry.
#[derive(Clone, Copy, PartialEq, Eq, Structural)]
pub struct Entry64(pub u64);

impl Entry32 {
    pub fn raw(&self) -> (r: u64)
        ensures
            r == self.0 as u64,
    {
        self.0 as u64
    }

    pub fn set_raw(&mut self, val: u64)
        ensures
            final(self).0 == val as u32,
    {
        self.0 = val as u32;
    }

    pub fn present(&self) -> (r: bool)
        ensures
            r == entry_present(self.0 as u64),
    {
        self.0 as u64 & FLAG_PRESENT != 0
    }

    pub fn writable(&self) -> (r: bool)
        ensures
            r == entry_writable(self.0 as u64),
    {
        self.0 as u64 & FLAG_READ_WRITE != 0
    }

    pub fn user(&self) -> (r: bool)
        ensures
            r == entry_user(self.0 as u64),
    {
        self.0 as u64 & FLAG_USER != 0
    }

    pub fn soft_ro(&self) -> (r: bool)
        ensures
            r == entry_soft_ro(self.0 as u64),
    {
        self.0 as u64 & FLAG_SOFT_RO != 0
    }

    /// Physical byte address held by the entry.
    pub fn addr(&self) -> (r: usize)
        ensures
            r == (self.0 as u64 & ADDR_MASK_32) as usize,
    {
        (self.0 as u64 & ADDR_MASK_32) as usize
    }

    /// Physical page number held by the entry.
    pub fn page(&self) -> (r: usize)
        ensures
            r == entry_page(self.0 as u64, PagingMode::Legacy),
    {
        let a: u64 = self.0 as u64 & ADDR_MASK_32;
        proof {
            let v = self.0 as u64;
            assert(((v & 0xFFFF_F000) >> 12) < 0x100000) by (bit_vector);
            assert((v & 0xFFFF_F000) / 4096 == (v & 0xFFFF_F000) >> 12) by (bit_vector);
        }
        (a / 4096) as usize
    }
}

impl Entry64 {
    pub fn raw(&self) -> (r: u64)
        ensures
            r == self.0,
    {
        self.0
    }

    pub fn set_raw(&mut self, val: u64)
        ensures
            final(self).0 == val,
    {
        self.0 = val;
    }

    pub fn present(&self) -> (r: bool)
        ensures
            r == entry_present(self.0),
    {
        self.0 & FLAG_PRESENT != 0
    }

    pub fn writable(&self) -> (r: bool)
        ensures
            r == entry_writable(self.0),
    {
        self.0 & FLAG_READ_WRITE != 0
    }

    pub fn user(&self) -> (r: bool)
        ensures
            r == entry_user(self.0),
    {
        self.0 & FLAG_USER != 0
    }

    pub fn soft_ro(&self) -> (r: bool)
        ensures
            r == entry_soft_ro(self.0),
    {
        self.0 & FLAG_SOFT_RO != 0
    }

    /// Physical byte address held by the entry.
    pub fn addr(&self) -> (r: u64)
        ensures
            r == self.0 & ADDR_MASK_64,
    {
        self.0 & ADDR_MASK_64
    }

    /// Physical page number held by the entry.
    pub fn page(&self) -> (r: u64)
        ensures
            r == entry_page(self.0, PagingMode::Pae),
    {
        let a: u64 = self.0 & ADDR_MASK_64;
        proof {
            let v = self.0;
            assert((v & 0x000F_FFFF_FFFF_F000) / 4096 == (v & 0x000F_FFFF_FFFF_F000) >> 12)
                by (bit_vector);
        }
        a / 4096
    }
}

} // verus!
