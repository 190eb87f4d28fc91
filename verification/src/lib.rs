//! Core of a small 32-bit x86 kernel, written against explicit models of the
//! machine state so that the memory- and trap-management logic can be verified.
//!
//! The hardware itself (port I/O, control registers, the TLB) is out of reach
//! of verification; every module here works on a value that stands for the
//! relevant piece of machine state: the physical-page reference counts, the
//! flat per-page view of the page tables that the recursive mapping provides,
//! the thread table, the VGA text buffer, and so on.

use vstd::prelude::*;

pub mod phys;
pub mod pte;
pub mod space;
pub mod fault;
pub mod md5;
pub mod tar;
pub mod vga;
pub mod descriptors;
pub mod elf;
pub mod symbols;
pub mod thread;
pub mod irq;
pub mod heap;
pub mod syscalls;
pub mod boot;

verus! {

/// Size of one page of physical or virtual memory, in bytes.
pub const PAGE_SIZE: usize = 4096;

/// Number of 4 KiB pages in the 32-bit address space.
pub const NUM_PAGES: usize = 0x100000;

/// Base virtual address of the recursive page-table window.
pub const PAGE_TABLE_BASE: usize = 0xC000_0000;

/// First virtual page of the recursive page-table window.
pub const PAGE_TABLE_BASE_IDX: usize = 0xC0000;

/// Base virtual address of the region reserved for long-mode tables.
pub const PML4_BASE: usize = 0xC080_0000;

/// Virtual base of the identity view of the first megabyte of physical memory.
pub const LOW_MEM_BASE: usize = 0xC0A0_0000;

/// Virtual base of the kernel image.
pub const KERNEL_BASE: usize = 0xC0B0_0000;

/// Page index of a virtual address.
pub fn page_idx(vaddr: usize) -> (r: usize)
    ensures
        r == vaddr as int / PAGE_SIZE as int,
{
    vaddr / PAGE_SIZE
}

} // verus!
