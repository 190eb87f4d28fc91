//! The page-fault path: demand paging, copy-on-write resolution, and the
//! decision between fixing a mapping, killing the offending user thread, and
//! declaring a kernel bug.
//!
//! The hardware hands the handler a faulting address (CR2) and an error code;
//! both arrive here as plain values.  Every decision the trap handler takes
//! happens on the modelled address space and reference-count table, so the
//! whole policy — null guard, kernel-range checks, NX and `SOFT_RO`
//! enforcement, and the copy-on-write split — is verified.

use vstd::prelude::*;

verus! {

use crate::{NUM_PAGES, PAGE_SIZE, PAGE_TABLE_BASE, PAGE_TABLE_BASE_IDX, KERNEL_BASE};
use crate::phys::{PhysMemory, MAX_PAGES, FIRST_ALLOC_PAGE};
use crate::pte::{
    entry_user, entry_soft_ro, entry_page, fresh_entry, make_entry, FLAG_READ_WRITE,
    FLAG_NO_EXECUTE,
};
use crate::space::{AddressSpace, dec_effect, user_entry_limit, apply_nx};

/// Faults on the first and last 64 KiB always fail: they catch null pointers
/// and small negative offsets.
pub const NULL_LIMIT: usize = 0x10000;

/// One past the top of the 32-bit address space.
pub const ADDRESS_SPACE_END: u64 = 0x1_0000_0000;

/// Where the common trap stub sends a vector.
#[derive(Clone, Copy, PartialEq, Eq, Structural, Debug)]
pub enum TrapRoute {
    /// Print and continue: the one exception a debugger raises on purpose.
    Breakpoint,
    /// Hardware failure: halt without re-enabling interrupts.
    Nmi,
    /// The demand-paging and copy-on-write path.
    PageFault,
    /// A hardware interrupt line.
    Irq,
    /// The userland system-call gate.
    Syscall,
    /// An exception with no recovery: panic with a register dump.
    Fatal,
}

/// Route a trap by its vector, and say whether the handler may re-enable
/// interrupts first — every vector but the non-maskable interrupt and the
/// double fault may.
pub fn isr_route(int_num: u64) -> (r: (TrapRoute, bool))
    ensures
        r.1 == (int_num != 2 && int_num != 8),
        r.0 == (if int_num == 2 {
            TrapRoute::Nmi
        } else if int_num == 3 {
            TrapRoute::Breakpoint
        } else if int_num == 14 {
            TrapRoute::PageFault
        } else if 32 <= int_num < 48 {
            TrapRoute::Irq
        } else if int_num == 48 {
            TrapRoute::Syscall
        } else {
            TrapRoute::Fatal
        }),
{
    let reenable = int_num != 2 && int_num != 8;
    let route = if int_num == 2 {
        TrapRoute::Nmi
    } else if int_num == 3 {
        TrapRoute::Breakpoint
    } else if int_num == 14 {
        TrapRoute::PageFault
    } else if 32 <= int_num && int_num < 48 {
        TrapRoute::Irq
    } else if int_num == 48 {
        TrapRoute::Syscall
    } else {
        TrapRoute::Fatal
    };
    (route, reenable)
}

/// What the handler decides.
#[derive(Clone, Copy, PartialEq, Eq, Structural, Debug)]
pub enum FaultOutcome {
    /// The mapping was fixed; the faulting context resumes.
    Handled,
    /// The access was a user-mode violation; the thread gets a SEGV.
    Segv,
    /// The kernel itself faulted beyond repair.
    Panic,
}

/// The page-fault error code, bit by bit.
pub struct FaultInfo {
    pub present: bool,
    pub write: bool,
    pub user: bool,
    pub instruction_fetch: bool,
}

/// Decode the hardware error code: bit 0 present, bit 1 write, bit 2 user,
/// bit 4 instruction fetch.
pub fn decode_fault_error(err_code: u64) -> (r: FaultInfo)
    ensures
        r.present == (err_code & 1 != 0),
        r.write == (err_code & 2 != 0),
        r.user == (err_code & 4 != 0),
        r.instruction_fetch == (err_code & 0x10 != 0),
{
    FaultInfo {
        present: err_code & 1 != 0,
        write: err_code & 2 != 0,
        user: err_code & 4 != 0,
        instruction_fetch: err_code & 0x10 != 0,
    }
}

/// A fault address caught by the null guard.
pub open spec fn in_null_guard(addr: int) -> bool {
    addr < NULL_LIMIT || addr >= ADDRESS_SPACE_END - NULL_LIMIT
}

/// The entry demand paging installs for page `idx`: the shared zero page,
/// read-only, user-accessible below the recursive root, and non-executable
/// for user data pages when no-execute is on (page-table pages must stay
/// executable-readable for the recursive scheme).
pub open spec fn demand_entry(
    mode: crate::pte::PagingMode,
    nx_enabled: bool,
    zero_page: int,
    idx: int,
) -> u64 {
    apply_nx(
        fresh_entry(zero_page, false, idx < user_entry_limit(mode)),
        nx_enabled && idx < PAGE_TABLE_BASE_IDX,
    )
}

/// Install a zero-page mapping for a not-present page.  Every page starts
/// read-only on the shared zero page; the first write faults again and takes
/// the copy-on-write path.
pub fn demand_page(space: &mut AddressSpace, page_index: usize, zero_page: usize)
    requires
        old(space).wf(),
        page_index < NUM_PAGES,
        zero_page < 0x100000,
    ensures
        final(space).wf(),
        final(space).mode == old(space).mode,
        final(space).nx_enabled == old(space).nx_enabled,
        final(space).root_phys_page == old(space).root_phys_page,
        !final(space).tlb_stale,
        final(space)@ == old(space)@.update(
            page_index as int,
            demand_entry(
                old(space).mode,
                old(space).nx_enabled,
                zero_page as int,
                page_index as int,
            ),
        ),
{
    let is_user = page_index < crate::space::user_entry_limit_for(space.mode);
    let mut raw = make_entry(zero_page, false, is_user);
    if space.nx_enabled && page_index < PAGE_TABLE_BASE_IDX {
        raw = raw | FLAG_NO_EXECUTE;
    }
    space.set_raw_entry(page_index, raw);
    space.flush_tlb();
}

/// Resolve a write fault on a present, semantically writable page.  A page
/// with a single owner is simply made writable again; a shared page gives up
/// its claim, and a fresh page is mapped writable in its place (the contents
/// move through a scratch page outside this model).  Returns the outcome and
/// leaves the panic decision to the caller: the kernel has no rollback for an
/// allocation failure here.
pub fn handle_cow_fault(space: &mut AddressSpace, phys: &mut PhysMemory, page_index: usize) -> (r:
    FaultOutcome)
    requires
        old(space).wf(),
        old(phys).wf(),
        page_index < NUM_PAGES,
    ensures
        final(space).wf(),
        final(phys).wf(),
        final(space).mode == old(space).mode,
        final(space).nx_enabled == old(space).nx_enabled,
        final(space).root_phys_page == old(space).root_phys_page,
        ({
            let raw = old(space)@[page_index as int];
            let pg = entry_page(raw, old(space).mode);
            if pg < MAX_PAGES && old(phys)@[pg] == 1u8 {
                &&& r == FaultOutcome::Handled
                &&& final(phys)@ == old(phys)@
                &&& final(space)@ == old(space)@.update(page_index as int, raw | FLAG_READ_WRITE)
                &&& !final(space).tlb_stale
            } else {
                let s1 = dec_effect(old(phys)@, pg);
                if r == FaultOutcome::Handled {
                    exists|np: int|
                        {
                            &&& FIRST_ALLOC_PAGE <= np < MAX_PAGES
                            &&& s1[np] == 0u8
                            &&& final(phys)@ == s1.update(np, 1u8)
                            &&& final(space)@ == old(space)@.update(
                                page_index as int,
                                fresh_entry(np, true, entry_user(raw)),
                            )
                            &&& !final(space).tlb_stale
                        }
                } else {
                    &&& r == FaultOutcome::Panic
                    &&& (forall|q: int| FIRST_ALLOC_PAGE <= q < MAX_PAGES ==> s1[q] != 0u8)
                    &&& final(phys)@ == s1
                    &&& final(space)@ == old(space)@
                }
            }
        }),
{
    proof {
        crate::phys::lemma_wf_len(phys);
    }
    let raw = space.raw_entry(page_index);
    let pg: u64 = space.get_phys_page(page_index);
    let ref_count = if pg < MAX_PAGES as u64 {
        phys.get_ref_count(pg as usize)
    } else {
        crate::phys::RESERVED
    };
    if ref_count == 1 {
        space.set_raw_entry(page_index, raw | FLAG_READ_WRITE);
        space.flush_tlb();
        FaultOutcome::Handled
    } else {
        if pg < MAX_PAGES as u64 {
            phys.free_phys_page(pg as usize);
        } else {
            assert(dec_effect(phys@, pg as int) == phys@);
        }
        let new_page = match phys.alloc_phys_page() {
            Some(p) => p,
            None => {
                return FaultOutcome::Panic;
            },
        };
        let fresh = make_entry(new_page, true, raw & 0x4 != 0);
        space.set_raw_entry(page_index, fresh);
        space.flush_tlb();
        proof {
            let s1 = dec_effect(old(phys)@, entry_page(old(space)@[page_index as int], old(space).mode));
            let np = new_page as int;
            assert(FIRST_ALLOC_PAGE <= np < MAX_PAGES && s1[np] == 0u8 && phys@ == s1.update(np, 1u8)
                && space@ == old(space)@.update(
                page_index as int,
                fresh_entry(np, true, entry_user(old(space)@[page_index as int])),
            ) && !space.tlb_stale);
        }
        FaultOutcome::Handled
    }
}

/// A protection fault on a present page: an instruction fetch from a
/// non-executable page or a write to a `SOFT_RO` page is a violation — SEGV
/// for a user thread, a panic for the kernel; a read fault on a present page
/// is always a kernel bug; a write to an ordinary read-only page is
/// copy-on-write work.
pub fn handle_protection_fault(
    space: &mut AddressSpace,
    phys: &mut PhysMemory,
    page_index: usize,
    write: bool,
    user: bool,
    instruction_fetch: bool,
) -> (r: FaultOutcome)
    requires
        old(space).wf(),
        old(phys).wf(),
        page_index < NUM_PAGES,
    ensures
        final(space).wf(),
        final(phys).wf(),
        final(space).mode == old(space).mode,
        final(space).nx_enabled == old(space).nx_enabled,
        final(space).root_phys_page == old(space).root_phys_page,
        instruction_fetch ==> {
            &&& r == (if user {
                FaultOutcome::Segv
            } else {
                FaultOutcome::Panic
            })
            &&& final(space)@ == old(space)@
            &&& final(phys)@ == old(phys)@
            &&& final(space).tlb_stale == old(space).tlb_stale
        },
        !instruction_fetch && !write ==> {
            &&& r == FaultOutcome::Panic
            &&& final(space)@ == old(space)@
            &&& final(phys)@ == old(phys)@
        },
        // A write to a page that is semantically read-only forever never
        // copies: the mapping and the counts are untouched.
        !instruction_fetch && write && entry_soft_ro(old(space)@[page_index as int]) ==> {
            &&& r == (if user {
                FaultOutcome::Segv
            } else {
                FaultOutcome::Panic
            })
            &&& final(space)@ == old(space)@
            &&& final(phys)@ == old(phys)@
            &&& final(space).tlb_stale == old(space).tlb_stale
        },
        !instruction_fetch && write && !entry_soft_ro(old(space)@[page_index as int]) ==> ({
            let raw = old(space)@[page_index as int];
            let pg = entry_page(raw, old(space).mode);
            if pg < MAX_PAGES && old(phys)@[pg] == 1u8 {
                &&& r == FaultOutcome::Handled
                &&& final(phys)@ == old(phys)@
                &&& final(space)@ == old(space)@.update(page_index as int, raw | FLAG_READ_WRITE)
            } else {
                let s1 = dec_effect(old(phys)@, pg);
                if r == FaultOutcome::Handled {
                    exists|np: int|
                        {
                            &&& FIRST_ALLOC_PAGE <= np < MAX_PAGES
                            &&& s1[np] == 0u8
                            &&& final(phys)@ == s1.update(np, 1u8)
                            &&& final(space)@ == old(space)@.update(
                                page_index as int,
                                fresh_entry(np, true, entry_user(raw)),
                            )
                        }
                } else {
                    &&& r == FaultOutcome::Panic
                    &&& final(phys)@ == s1
                    &&& final(space)@ == old(space)@
                }
            }
        }),
{
    if instruction_fetch {
        if user {
            return FaultOutcome::Segv;
        }
        return FaultOutcome::Panic;
    }
    if !write {
        return FaultOutcome::Panic;
    }
    if !space.is_soft_ro(page_index) {
        handle_cow_fault(space, phys, page_index)
    } else if user {
        FaultOutcome::Segv
    } else {
        FaultOutcome::Panic
    }
}

/// The page-fault handler.  Null-guard violations and user touches of kernel
/// space fail immediately; a kernel fault inside the kernel range is a bug; a
/// not-present page in the remaining range is demand-paged; a present page
/// goes to the protection path.
pub fn page_fault(
    space: &mut AddressSpace,
    phys: &mut PhysMemory,
    fault_addr: u64,
    err_code: u64,
    zero_page: usize,
) -> (r: FaultOutcome)
    requires
        old(space).wf(),
        old(phys).wf(),
        fault_addr < ADDRESS_SPACE_END,
        zero_page < 0x100000,
    ensures
        final(space).wf(),
        final(phys).wf(),
        final(space).mode == old(space).mode,
        final(space).nx_enabled == old(space).nx_enabled,
        final(space).root_phys_page == old(space).root_phys_page,
        ({
            let present = err_code & 1 != 0;
            let write = err_code & 2 != 0;
            let user = err_code & 4 != 0;
            let ifetch = err_code & 0x10 != 0;
            let idx = fault_addr as int / PAGE_SIZE as int;
            if in_null_guard(fault_addr as int) {
                &&& r == (if user {
                    FaultOutcome::Segv
                } else {
                    FaultOutcome::Panic
                })
                &&& final(space)@ == old(space)@
                &&& final(phys)@ == old(phys)@
            } else if user && fault_addr >= PAGE_TABLE_BASE as u64 {
                &&& r == FaultOutcome::Segv
                &&& final(space)@ == old(space)@
                &&& final(phys)@ == old(phys)@
            } else if !user && fault_addr >= KERNEL_BASE as u64 {
                &&& r == FaultOutcome::Panic
                &&& final(space)@ == old(space)@
                &&& final(phys)@ == old(phys)@
            } else if !present {
                &&& r == FaultOutcome::Handled
                &&& final(phys)@ == old(phys)@
                &&& final(space)@ == old(space)@.update(
                    idx,
                    demand_entry(old(space).mode, old(space).nx_enabled, zero_page as int, idx),
                )
                &&& !final(space).tlb_stale
            } else if ifetch || (write && entry_soft_ro(old(space)@[idx])) {
                &&& r == (if user {
                    FaultOutcome::Segv
                } else {
                    FaultOutcome::Panic
                })
                &&& final(space)@ == old(space)@
                &&& final(phys)@ == old(phys)@
            } else if !write {
                &&& r == FaultOutcome::Panic
                &&& final(space)@ == old(space)@
                &&& final(phys)@ == old(phys)@
            } else {
                let raw = old(space)@[idx];
                let pg = entry_page(raw, old(space).mode);
                if pg < MAX_PAGES && old(phys)@[pg] == 1u8 {
                    &&& r == FaultOutcome::Handled
                    &&& final(phys)@ == old(phys)@
                    &&& final(space)@ == old(space)@.update(idx, raw | FLAG_READ_WRITE)
                } else {
                    let s1 = dec_effect(old(phys)@, pg);
                    if r == FaultOutcome::Handled {
                        exists|np: int|
                            {
                                &&& FIRST_ALLOC_PAGE <= np < MAX_PAGES
                                &&& s1[np] == 0u8
                                &&& final(phys)@ == s1.update(np, 1u8)
                                &&& final(space)@ == old(space)@.update(
                                    idx,
                                    fresh_entry(np, true, entry_user(raw)),
                                )
                            }
                    } else {
                        &&& r == FaultOutcome::Panic
                        &&& final(phys)@ == s1
                        &&& final(space)@ == old(space)@
                    }
                }
            }
        }),
{
    let info = decode_fault_error(err_code);
    if fault_addr < NULL_LIMIT as u64 || fault_addr >= ADDRESS_SPACE_END - NULL_LIMIT as u64 {
        if info.user {
            return FaultOutcome::Segv;
        }
        return FaultOutcome::Panic;
    }
    if info.user && fault_addr >= PAGE_TABLE_BASE as u64 {
        return FaultOutcome::Segv;
    }
    if !info.user && fault_addr >= KERNEL_BASE as u64 {
        return FaultOutcome::Panic;
    }
    let page_index = (fault_addr / PAGE_SIZE as u64) as usize;
    assert(page_index == fault_addr as int / PAGE_SIZE as int);
    assert(page_index < NUM_PAGES);
    if !info.present {
        demand_page(space, page_index, zero_page);
        FaultOutcome::Handled
    } else {
        handle_protection_fault(space, phys, page_index, info.write, info.user,
            info.instruction_fetch)
    }
}

} // verus!
