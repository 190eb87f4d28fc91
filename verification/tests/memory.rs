//! Physical allocator, address space, page-fault and heap behaviour on
//! concrete values.

use retro_kernel::fault::{demand_page, page_fault, FaultOutcome};
use retro_kernel::heap::{AllocatorInner, FreeBlock, KernelAllocator, align_up};
use retro_kernel::phys::{MMapEntry, PhysMemory, RESERVED};
use retro_kernel::pte::{clear_writable, make_entry, Entry32, Entry64, PagingMode};
use retro_kernel::space::{recursive_root_index, AddressSpace};

fn small_machine() -> PhysMemory {
    // One usable 16 MiB region; the kernel occupies pages 256..260.
    let mut mmap: Vec<MMapEntry> = Vec::new();
    mmap.push(MMapEntry { base: 0, length: 0x100_0000, typ: 1, acpi: 1 });
    PhysMemory::init_phys_mm(&mmap, 1, 256, 260)
}

#[test]
fn init_marks_regions() {
    let m = small_machine();
    assert_eq!(m.get_ref_count(0), RESERVED);
    assert_eq!(m.get_ref_count(255), RESERVED);
    assert_eq!(m.get_ref_count(256), 1);
    assert_eq!(m.get_ref_count(259), 1);
    assert_eq!(m.get_ref_count(260), 0);
    assert_eq!(m.get_ref_count(4095), 0);
    // Past the usable region everything stays reserved.
    assert_eq!(m.get_ref_count(4096), RESERVED);
    assert_eq!(m.get_ref_count(70000), RESERVED);
}

#[test]
fn alloc_scans_from_cursor() {
    let mut m = small_machine();
    assert_eq!(m.alloc_phys_page(), Some(260));
    assert_eq!(m.alloc_phys_page(), Some(261));
    assert_eq!(m.get_ref_count(260), 1);
}

#[test]
fn inc_then_free_restores_count() {
    let mut m = small_machine();
    let p = m.alloc_phys_page().unwrap();
    assert_eq!(m.get_ref_count(p), 1);
    assert!(m.inc_shared_count(p));
    assert_eq!(m.get_ref_count(p), 2);
    assert!(m.is_shared(p));
    assert!(!m.free_phys_page(p));
    assert_eq!(m.get_ref_count(p), 1);
    assert!(m.free_phys_page(p));
    assert_eq!(m.get_ref_count(p), 0);
}

#[test]
fn reserved_pages_never_change() {
    let mut m = small_machine();
    assert!(!m.free_phys_page(0));
    assert!(!m.inc_shared_count(0));
    assert_eq!(m.get_ref_count(0), RESERVED);
    assert!(!m.free_phys_page(70000));
    assert_eq!(m.get_ref_count(70000), RESERVED);
}

#[test]
fn shared_count_refuses_at_limit() {
    let mut m = small_machine();
    let p = m.alloc_phys_page().unwrap();
    // From one owner up to the 254 maximum.
    for _ in 0..253 {
        assert!(m.inc_shared_count(p));
    }
    assert_eq!(m.get_ref_count(p), 254);
    assert!(!m.inc_shared_count(p));
    assert_eq!(m.get_ref_count(p), 254);
}

#[test]
fn free_page_count_tracks_allocations() {
    let mut m = small_machine();
    let before = m.free_page_count();
    let p = m.alloc_phys_page().unwrap();
    assert_eq!(m.free_page_count(), before - 1);
    assert!(m.free_phys_page(p));
    assert_eq!(m.free_page_count(), before);
}

#[test]
fn set_entry_maps_page() {
    let mut s = AddressSpace::new_empty(PagingMode::Pae, false, 300);
    s.set_entry(5, 1000, true, true);
    assert!(s.tlb_stale);
    s.flush_tlb();
    assert!(!s.tlb_stale);
    assert!(s.is_present(5));
    assert_eq!(s.get_phys_page(5), 1000);
    assert!(s.is_writable(5));
    assert!(s.is_user(5));
    s.set_entry(6, 1001, false, false);
    assert!(!s.is_writable(6));
    assert!(!s.is_user(6));
    s.clear_entry(5);
    assert!(!s.is_present(5));
}

#[test]
fn recursive_root_slot_per_mode() {
    assert_eq!(recursive_root_index(PagingMode::Legacy), 768);
    assert_eq!(recursive_root_index(PagingMode::Pae), 3);
}

#[test]
fn fork_shares_pages_read_only() {
    let mut m = small_machine();
    let mut s = AddressSpace::new_empty(PagingMode::Pae, false, 300);
    let page = m.alloc_phys_page().unwrap();
    s.set_entry(5, page, true, true);
    s.flush_tlb();
    assert_eq!(m.get_ref_count(page), 1);

    let child = s.fork_current(&mut m).unwrap();
    // Both sides lost the writable bit; the page gained exactly one owner.
    assert!(s.is_present(5) && s.is_user(5) && !s.is_writable(5));
    assert!(child.is_present(5) && child.is_user(5) && !child.is_writable(5));
    assert_eq!(child.get_phys_page(5), page as u64);
    assert_eq!(m.get_ref_count(page), 2);
    // The child's recursive self-entry points at its fresh root.
    assert!(child.is_present(0xC0603));
    assert_eq!(child.get_phys_page(0xC0603), child.root_phys_page as u64);
    assert_eq!(m.get_ref_count(child.root_phys_page), 1);
    // Kernel mappings are shared verbatim.
    assert_eq!(child.raw_entry(0xC0B00), s.raw_entry(0xC0B00));
}

#[test]
fn free_user_pages_decrements_once() {
    let mut m = small_machine();
    let mut s = AddressSpace::new_empty(PagingMode::Legacy, false, 300);
    let page = m.alloc_phys_page().unwrap();
    m.inc_shared_count(page);
    s.set_entry(5, page, false, true);
    // A second, kernel-only mapping must not be touched.
    let kernel_page = m.alloc_phys_page().unwrap();
    s.set_entry(6, kernel_page, true, false);
    s.free_user_pages(&mut m);
    assert_eq!(m.get_ref_count(page), 1);
    assert_eq!(m.get_ref_count(kernel_page), 1);
}

#[test]
fn free_user_pages_leaves_reserved_zero_page() {
    let mut m = small_machine();
    let mut s = AddressSpace::new_empty(PagingMode::Legacy, false, 300);
    let zero_page = m.alloc_phys_page().unwrap();
    m.mark_reserved(zero_page, zero_page + 1);
    s.set_entry(7, zero_page, false, true);
    s.free_user_pages(&mut m);
    assert_eq!(m.get_ref_count(zero_page), RESERVED);
}

#[test]
fn null_guard_faults() {
    let mut m = small_machine();
    let mut s = AddressSpace::new_empty(PagingMode::Pae, false, 300);
    let user_err = 4u64;
    let kernel_err = 0u64;
    for addr in [0x0000_0000u64, 0x0000_FFFF, 0xFFFF_0000, 0xFFFF_FFFF] {
        assert_eq!(page_fault(&mut s, &mut m, addr, user_err, 42), FaultOutcome::Segv);
        assert_eq!(page_fault(&mut s, &mut m, addr, kernel_err, 42), FaultOutcome::Panic);
    }
}

#[test]
fn user_touch_of_kernel_space_faults() {
    let mut m = small_machine();
    let mut s = AddressSpace::new_empty(PagingMode::Pae, false, 300);
    assert_eq!(page_fault(&mut s, &mut m, 0xC000_0000, 4, 42), FaultOutcome::Segv);
    assert_eq!(page_fault(&mut s, &mut m, 0xC0B0_0000, 4, 42), FaultOutcome::Segv);
    // The same address from the kernel is a kernel bug.
    assert_eq!(page_fault(&mut s, &mut m, 0xC0B0_0000, 0, 42), FaultOutcome::Panic);
}

#[test]
fn demand_paging_installs_zero_page() {
    let mut m = small_machine();
    let mut s = AddressSpace::new_empty(PagingMode::Pae, true, 300);
    // Not-present user fault in user space.
    let r = page_fault(&mut s, &mut m, 0x0010_0000, 4, 42);
    assert_eq!(r, FaultOutcome::Handled);
    let idx = 0x0010_0000 / 4096;
    assert!(s.is_present(idx));
    assert_eq!(s.get_phys_page(idx), 42);
    assert!(!s.is_writable(idx));
    assert!(s.is_user(idx));
    // With no-execute on, a user data page is not executable.
    assert!(s.raw_entry(idx) & 0x8000_0000_0000_0000 != 0);
    // A page-table page stays executable-readable for the recursive walk.
    demand_page(&mut s, 0xC0100, 42);
    assert!(s.raw_entry(0xC0100) & 0x8000_0000_0000_0000 == 0);
    assert!(s.is_user(0xC0100));
}

#[test]
fn cow_private_page_becomes_writable() {
    let mut m = small_machine();
    let mut s = AddressSpace::new_empty(PagingMode::Pae, false, 300);
    let page = m.alloc_phys_page().unwrap();
    s.set_entry(32, page, false, true);
    // Present user write fault, single owner: flip writable in place.
    let r = page_fault(&mut s, &mut m, 32 * 4096, 7, 42);
    assert_eq!(r, FaultOutcome::Handled);
    assert!(s.is_writable(32));
    assert_eq!(s.get_phys_page(32), page as u64);
    assert_eq!(m.get_ref_count(page), 1);
}

#[test]
fn cow_shared_page_is_copied() {
    let mut m = small_machine();
    let mut s = AddressSpace::new_empty(PagingMode::Pae, false, 300);
    let page = m.alloc_phys_page().unwrap();
    m.inc_shared_count(page);
    s.set_entry(32, page, false, true);
    let r = page_fault(&mut s, &mut m, 32 * 4096, 7, 42);
    assert_eq!(r, FaultOutcome::Handled);
    assert!(s.is_writable(32));
    let new_page = s.get_phys_page(32);
    assert_ne!(new_page, page as u64);
    assert_eq!(m.get_ref_count(page), 1);
    assert_eq!(m.get_ref_count(new_page as usize), 1);
}

#[test]
fn soft_ro_write_faults_without_copying() {
    let mut m = small_machine();
    let mut s = AddressSpace::new_empty(PagingMode::Pae, false, 300);
    let page = m.alloc_phys_page().unwrap();
    s.set_entry(32, page, false, true);
    let sealed = s.raw_entry(32) | 0x200;
    s.set_raw_entry(32, sealed);
    let count_before = m.get_ref_count(page);
    let r = page_fault(&mut s, &mut m, 32 * 4096, 7, 42);
    assert_eq!(r, FaultOutcome::Segv);
    assert_eq!(s.raw_entry(32), sealed);
    assert_eq!(m.get_ref_count(page), count_before);
    // The same write from the kernel is fatal.
    assert_eq!(page_fault(&mut s, &mut m, 32 * 4096, 3, 42), FaultOutcome::Panic);
}

#[test]
fn instruction_fetch_from_protected_page_faults() {
    let mut m = small_machine();
    let mut s = AddressSpace::new_empty(PagingMode::Pae, true, 300);
    let page = m.alloc_phys_page().unwrap();
    s.set_entry(32, page, true, true);
    // Present user fault with the instruction-fetch bit: SEGV.
    let r = page_fault(&mut s, &mut m, 32 * 4096, 0x15, 42);
    assert_eq!(r, FaultOutcome::Segv);
    // From the kernel it is a panic.
    assert_eq!(page_fault(&mut s, &mut m, 32 * 4096, 0x11, 42), FaultOutcome::Panic);
}

#[test]
fn harden_kernel_clears_write_and_sets_nx() {
    let mut s = AddressSpace::new_empty(PagingMode::Pae, true, 300);
    for v in 0xC0B00..0xC0B06usize {
        s.set_entry(v, 500 + (v - 0xC0B00), true, false);
    }
    // Code on two pages, read-only data on two, mutable data on two.
    s.harden_kernel(0xC0B00, 0xC0B02, 0xC0B04, 0xC0B04, 0xC0B06);
    assert!(!s.is_writable(0xC0B00) && s.raw_entry(0xC0B00) & 0x8000_0000_0000_0000 == 0);
    assert!(!s.is_writable(0xC0B02) && s.raw_entry(0xC0B02) & 0x8000_0000_0000_0000 != 0);
    assert!(s.is_writable(0xC0B04) && s.raw_entry(0xC0B04) & 0x8000_0000_0000_0000 != 0);
    // Read-only pages are sealed for good; mutable data is not.
    assert!(s.is_soft_ro(0xC0B00));
    assert!(s.is_soft_ro(0xC0B02));
    assert!(!s.is_soft_ro(0xC0B04));
}

#[test]
fn align_up_values() {
    assert_eq!(align_up(0, 8), 0);
    assert_eq!(align_up(1, 8), 8);
    assert_eq!(align_up(8, 8), 8);
    assert_eq!(align_up(4097, 4096), 8192);
}

#[test]
fn heap_alloc_then_free_restores_free_list() {
    let mut inner = AllocatorInner { free_list: Vec::new(), mapped_end: 0xD000_1000 };
    inner.add_free_region(0xD000_0000, 4096);
    assert_eq!(inner.free_list.len(), 1);
    let p = inner.alloc_from_list(64, 16).unwrap();
    assert_eq!(p, 0xD000_0000);
    // Giving the same bytes back coalesces to the original block exactly.
    inner.add_free_region(p, 64);
    assert_eq!(inner.free_list.len(), 1);
    assert_eq!(inner.free_list[0], FreeBlock { addr: 0xD000_0000, size: 4096 });
}

#[test]
fn heap_free_list_coalesces_both_sides() {
    let mut inner = AllocatorInner { free_list: Vec::new(), mapped_end: 0xD001_0000 };
    inner.add_free_region(0xD000_0000, 64);
    inner.add_free_region(0xD000_0080, 64);
    assert_eq!(inner.free_list.len(), 2);
    // The middle region touches both neighbours.
    inner.add_free_region(0xD000_0040, 64);
    assert_eq!(inner.free_list.len(), 1);
    assert_eq!(inner.free_list[0], FreeBlock { addr: 0xD000_0000, size: 192 });
    // A sliver below the tracking threshold is dropped.
    inner.add_free_region(0xD000_1000, 8);
    assert_eq!(inner.free_list.len(), 1);
}

#[test]
fn heap_alloc_respects_alignment_and_first_fit() {
    let mut inner = AllocatorInner { free_list: Vec::new(), mapped_end: 0xD001_0000 };
    inner.add_free_region(0xD000_0010, 32);
    inner.add_free_region(0xD000_1000, 4096);
    // The first block cannot hold an aligned 64-byte allocation.
    let p = inner.alloc_from_list(64, 4096).unwrap();
    assert_eq!(p, 0xD000_1000);
    assert_eq!(p % 4096, 0);
    // Nothing fits when the request is too large.
    assert_eq!(inner.alloc_from_list(8192, 8), None);
}

#[test]
fn heap_growth_maps_pages_and_reuses_address() {
    let mut m = small_machine();
    let mut s = AddressSpace::new_empty(PagingMode::Pae, false, 300);
    let mut ka = KernelAllocator::new();
    ka.init(0xD000_0000);
    let end_before = ka.inner.mapped_end;
    let p = ka.allocate(4096 * 8, 8, &mut s, &mut m).unwrap();
    // Growing for a 32 KiB block maps at least eight pages.
    assert!(ka.inner.mapped_end >= end_before + 8 * 4096);
    let idx = end_before / 4096;
    assert!(s.is_present(idx) && s.is_writable(idx) && !s.is_user(idx));
    ka.deallocate(p, 4096 * 8);
    let p2 = ka.allocate(4096 * 8, 8, &mut s, &mut m).unwrap();
    assert_eq!(p, p2);
}

#[test]
fn entry_bits_round_trip() {
    let raw = make_entry(0x123, true, true);
    let mut e64 = Entry64(raw);
    assert!(e64.present());
    assert!(e64.writable());
    assert!(e64.user());
    assert!(!e64.soft_ro());
    assert_eq!(e64.page(), 0x123);
    assert_eq!(e64.addr(), 0x123000);
    e64.set_raw(clear_writable(raw));
    assert!(!e64.writable());
    assert_eq!(e64.page(), 0x123);
    let mut e32 = Entry32(0);
    e32.set_raw(make_entry(0x456, false, true));
    assert!(e32.present());
    assert!(!e32.writable());
    assert!(e32.user());
    assert_eq!(e32.page(), 0x456);
    assert_eq!(e32.raw(), e32.addr() as u64 | 0x5);
}

#[test]
fn fork_fails_without_free_pages() {
    let mut m = small_machine();
    // Drain physical memory completely.
    while m.alloc_phys_page().is_some() {}
    let mut s = AddressSpace::new_empty(PagingMode::Pae, false, 300);
    assert!(s.fork_current(&mut m).is_none());
}
