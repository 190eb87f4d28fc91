//! The boot handoff: what the bootloader passes to the kernel, the CPU
//! feature checks that pick the paging mode, and the statically allocated
//! page-table pages the boot path fills in.

use vstd::prelude::*;

verus! {

use crate::pte::{Entry32, Entry64, PagingMode};
use crate::PAGE_SIZE;

/// The register block for a real-mode BIOS call.
pub struct BiosRegs {
    pub ax: u32,
    pub bx: u32,
    pub cx: u32,
    pub dx: u32,
    pub si: u32,
    pub di: u32,
    pub bp: u32,
    pub ds: u16,
    pub es: u16,
}

/// What the bootloader hands the kernel: where the image was loaded, where
/// the archive starts on disk, the console cursor, and the E820 memory map.
pub struct BootData {
    /// Physical base address of the loaded kernel image.
    pub kernel: usize,
    pub start_sector: u32,
    pub cursor_pos: u32,
    pub mmap_count: i32,
    pub mmap_entries: Vec<crate::phys::MMapEntry>,
}

impl BootData {
    /// The map always has its full 32 slots; `mmap_count` says how many are
    /// meaningful.
    pub open spec fn wf(self) -> bool {
        self.mmap_entries@.len() == 32
    }
}

/// Physical-address extension support: CPUID leaf 1 advertises it in bit 6
/// of EDX.
pub fn cpu_supports_pae(leaf1_edx: u32) -> (r: bool)
    ensures
        r == (leaf1_edx & 0x40 != 0),
{
    leaf1_edx & 0x40 != 0
}

/// Long-mode support: the extended CPUID range must reach leaf 0x80000001,
/// which advertises long mode in bit 29 of EDX.
pub fn cpu_supports_long_mode(max_ext: u32, ext1_edx: u32) -> (r: bool)
    ensures
        r == (max_ext >= 0x8000_0001 && ext1_edx & 0x2000_0000 != 0),
{
    if max_ext < 0x8000_0001 {
        return false;
    }
    ext1_edx & 0x2000_0000 != 0
}

/// No-execute support: the extended CPUID range must reach leaf 0x80000001,
/// which advertises the NX bit in bit 20 of EDX.
pub fn cpu_supports_nx(max_ext: u32, ext1_edx: u32) -> (r: bool)
    ensures
        r == (max_ext >= 0x8000_0001 && ext1_edx & 0x10_0000 != 0),
{
    if max_ext < 0x8000_0001 {
        return false;
    }
    ext1_edx & 0x10_0000 != 0
}

/// The paging mode the boot path picks: PAE when the CPU has it, legacy
/// two-level paging otherwise.
pub fn pick_paging_mode(leaf1_edx: u32) -> (r: PagingMode)
    ensures
        r == (if leaf1_edx & 0x40 != 0 {
            PagingMode::Pae
        } else {
            PagingMode::Legacy
        }),
{
    if cpu_supports_pae(leaf1_edx) {
        PagingMode::Pae
    } else {
        PagingMode::Legacy
    }
}

/// One page-aligned page of raw memory, as the boot tables use it.
pub struct RawPage {
    pub bytes: Vec<u8>,
}

impl RawPage {
    pub open spec fn wf(self) -> bool {
        self.bytes@.len() == PAGE_SIZE
    }

    /// A zeroed page.
    pub fn new_zeroed() -> (r: RawPage)
        ensures
            r.wf(),
            forall|i: int| 0 <= i < PAGE_SIZE ==> r.bytes@[i] == 0u8,
    {
        let mut bytes: Vec<u8> = Vec::new();
        let mut i: usize = 0;
        while i < PAGE_SIZE
            invariant
                i == bytes@.len() <= PAGE_SIZE,
                forall|j: int| 0 <= j < i ==> bytes@[j] == 0u8,
            decreases PAGE_SIZE - i,
        {
            bytes.push(0);
            i = i + 1;
        }
        RawPage { bytes }
    }
}

/// A legacy page table: 1024 32-bit entries on one page, at a known physical
/// page.
pub struct PageTable32 {
    pub entries: Vec<Entry32>,
    pub phys_page_num: usize,
}

impl PageTable32 {
    pub open spec fn wf(self) -> bool {
        self.entries@.len() == 1024
    }

    /// An empty table placed on a physical page.
    pub fn new(phys_page_num: usize) -> (r: PageTable32)
        ensures
            r.wf(),
            r.phys_page_num == phys_page_num,
            forall|i: int| 0 <= i < 1024 ==> r.entries@[i].0 == 0u32,
    {
        let mut entries: Vec<Entry32> = Vec::new();
        let mut i: usize = 0;
        while i < 1024
            invariant
                i == entries@.len() <= 1024,
                forall|j: int| 0 <= j < i ==> entries@[j].0 == 0u32,
            decreases 1024 - i,
        {
            entries.push(Entry32(0));
            i = i + 1;
        }
        PageTable32 { entries, phys_page_num }
    }

    /// The table's physical byte address.
    pub fn phys_addr(&self) -> (r: usize)
        requires
            self.phys_page_num < 0x100000,
        ensures
            r == self.phys_page_num * PAGE_SIZE,
    {
        self.phys_page_num * PAGE_SIZE
    }

    /// The table's physical page number.
    pub fn phys_page(&self) -> (r: usize)
        ensures
            r == self.phys_page_num,
    {
        self.phys_page_num
    }
}

/// A PAE page table: 512 64-bit entries on one page, at a known physical
/// page.
pub struct PageTable64 {
    pub entries: Vec<Entry64>,
    pub phys_page_num: usize,
}

impl PageTable64 {
    pub open spec fn wf(self) -> bool {
        self.entries@.len() == 512
    }

    /// An empty table placed on a physical page.
    pub fn new(phys_page_num: usize) -> (r: PageTable64)
        ensures
            r.wf(),
            r.phys_page_num == phys_page_num,
            forall|i: int| 0 <= i < 512 ==> r.entries@[i].0 == 0u64,
    {
        let mut entries: Vec<Entry64> = Vec::new();
        let mut i: usize = 0;
        while i < 512
            invariant
                i == entries@.len() <= 512,
                forall|j: int| 0 <= j < i ==> entries@[j].0 == 0u64,
            decreases 512 - i,
        {
            entries.push(Entry64(0));
            i = i + 1;
        }
        PageTable64 { entries, phys_page_num }
    }

    /// The table's physical byte address.
    pub fn phys_addr(&self) -> (r: usize)
        requires
            self.phys_page_num < 0x100000,
        ensures
            r == self.phys_page_num * PAGE_SIZE,
    {
        self.phys_page_num * PAGE_SIZE
    }

    /// The table's physical page number.
    pub fn phys_page(&self) -> (r: usize)
        ensures
            r == self.phys_page_num,
    {
        self.phys_page_num
    }
}

/// The kernel's boot-time page tables under legacy paging: the page
/// directory and the page table covering the kernel window.
pub struct LegacyPages {
    pub pd: PageTable32,
    pub pt_kernel: PageTable32,
}

/// The kernel's boot-time page tables under PAE: the page-directory-pointer
/// table — doubling as the virtual page directory through its recursive
/// entry — and the two page tables for the long-mode window and the kernel
/// window.
pub struct PaePages {
    pub pdpt: PageTable64,
    pub pt_pml4: PageTable64,
    pub pt_kernel: PageTable64,
}

/// The boot tables for whichever mode was picked.
pub enum KernelPages {
    Legacy(LegacyPages),
    Pae(PaePages),
}

/// Fill the boot tables for legacy two-level paging, before paging is on:
/// the scratch table identity-maps the first 4 MiB through `PD[0]`, the
/// kernel page table maps the low megabyte at the low-memory window and the
/// kernel image at its virtual base, `PD[768]` points the directory at
/// itself, and `PD[770]` covers the kernel window.  Loading CR3 and setting
/// the paging bit are the hardware's step.
pub fn enable_legacy(
    kpages: &mut LegacyPages,
    scratch: &mut PageTable32,
    kernel_phys: usize,
    kernel_pages: usize,
)
    requires
        old(kpages).pd.wf(),
        old(kpages).pt_kernel.wf(),
        old(scratch).wf(),
        old(kpages).pd.phys_page_num < 0x100000,
        old(kpages).pt_kernel.phys_page_num < 0x100000,
        old(scratch).phys_page_num < 0x100000,
        kernel_phys as int + 256 * PAGE_SIZE <= 0x1_0000_0000,
        kernel_phys as int % PAGE_SIZE as int == 0,
    ensures
        final(kpages).pd.wf(),
        final(kpages).pt_kernel.wf(),
        final(scratch).wf(),
        final(kpages).pd.phys_page_num == old(kpages).pd.phys_page_num,
        final(kpages).pt_kernel.phys_page_num == old(kpages).pt_kernel.phys_page_num,
        final(scratch).phys_page_num == old(scratch).phys_page_num,
        // Identity map of the first 4 MiB.
        forall|i: int|
            0 <= i < 1024 ==> (#[trigger] final(scratch).entries@[i]).0 == crate::pte::fresh_entry(
                i,
                true,
                false,
            ) as u32,
        // The low megabyte appears at the low-memory window...
        forall|i: int|
            512 <= i < 768 ==> (#[trigger] final(kpages).pt_kernel.entries@[i]).0
                == crate::pte::fresh_entry(i - 512, true, false) as u32,
        // ... and the kernel image at its virtual base.
        forall|i: int|
            768 <= i < 768 + min_1024(kernel_pages as int, 256) ==> (#[trigger] final(kpages).pt_kernel.entries@[i]).0 == crate::pte::fresh_entry(
                kernel_phys as int / PAGE_SIZE as int + (i - 768),
                true,
                false,
            ) as u32,
        // The root: identity through the scratch table, itself at slot 768,
        // the kernel window at slot 770.
        final(kpages).pd.entries@[0].0 == crate::pte::fresh_entry(
            old(scratch).phys_page_num as int,
            true,
            false,
        ) as u32,
        final(kpages).pd.entries@[768].0 == crate::pte::fresh_entry(
            old(kpages).pd.phys_page_num as int,
            true,
            false,
        ) as u32,
        final(kpages).pd.entries@[770].0 == crate::pte::fresh_entry(
            old(kpages).pt_kernel.phys_page_num as int,
            true,
            false,
        ) as u32,
{
    let mut i: usize = 0;
    while i < 1024
        invariant
            scratch.entries@.len() == 1024,
            scratch.phys_page_num == old(scratch).phys_page_num,
            i <= 1024,
            forall|j: int|
                0 <= j < i ==> (#[trigger] scratch.entries@[j]).0 == crate::pte::fresh_entry(
                    j,
                    true,
                    false,
                ) as u32,
        decreases 1024 - i,
    {
        let raw = crate::pte::make_entry(i, true, false);
        scratch.entries.set(i, Entry32(raw as u32));
        i = i + 1;
    }
    let mut i: usize = 0;
    while i < 256
        invariant
            kpages.pt_kernel.entries@.len() == 1024,
            kpages.pt_kernel.phys_page_num == old(kpages).pt_kernel.phys_page_num,
            kpages.pd == old(kpages).pd,
            i <= 256,
            forall|j: int|
                512 <= j < 512 + i ==> (#[trigger] kpages.pt_kernel.entries@[j]).0
                    == crate::pte::fresh_entry(j - 512, true, false) as u32,
        decreases 256 - i,
    {
        let raw = crate::pte::make_entry(i, true, false);
        kpages.pt_kernel.entries.set(512 + i, Entry32(raw as u32));
        i = i + 1;
    }
    let kernel_low = kernel_phys / PAGE_SIZE;
    proof {
        assert(kernel_phys as int / PAGE_SIZE as int + 256 <= 0x100000) by (nonlinear_arith)
            requires
                kernel_phys as int + 256 * PAGE_SIZE <= 0x1_0000_0000,
                PAGE_SIZE == 4096,
                kernel_phys >= 0,
        ;
    }
    let limit = if kernel_pages < 256 {
        kernel_pages
    } else {
        256
    };
    let mut i: usize = 0;
    while i < limit
        invariant
            kpages.pt_kernel.entries@.len() == 1024,
            kpages.pt_kernel.phys_page_num == old(kpages).pt_kernel.phys_page_num,
            kpages.pd == old(kpages).pd,
            kernel_low == kernel_phys as int / PAGE_SIZE as int,
            kernel_low + 256 <= 0x100000,
            limit == min_1024(kernel_pages as int, 256),
            i <= limit <= 256,
            forall|j: int|
                512 <= j < 768 ==> (#[trigger] kpages.pt_kernel.entries@[j]).0
                    == crate::pte::fresh_entry(j - 512, true, false) as u32,
            forall|j: int|
                768 <= j < 768 + i ==> (#[trigger] kpages.pt_kernel.entries@[j]).0
                    == crate::pte::fresh_entry(kernel_low + (j - 768), true, false) as u32,
        decreases limit - i,
    {
        proof {
            assert(kernel_low + i < 0x100000);
        }
        let raw = crate::pte::make_entry(kernel_low + i, true, false);
        kpages.pt_kernel.entries.set(768 + i, Entry32(raw as u32));
        i = i + 1;
    }
    let scratch_entry = crate::pte::make_entry(scratch.phys_page(), true, false);
    kpages.pd.entries.set(0, Entry32(scratch_entry as u32));
    let self_entry = crate::pte::make_entry(kpages.pd.phys_page(), true, false);
    kpages.pd.entries.set(768, Entry32(self_entry as u32));
    let kernel_entry = crate::pte::make_entry(kpages.pt_kernel.phys_page(), true, false);
    kpages.pd.entries.set(770, Entry32(kernel_entry as u32));
}

/// The smaller of a value and a cap.
pub open spec fn min_1024(a: int, b: int) -> int {
    if a < b {
        a
    } else {
        b
    }
}

/// Fill the boot tables for PAE paging: the scratch table identity-maps the
/// first 2 MiB and refers to itself so it serves as both directory and
/// table, the kernel page table maps the low megabyte and the kernel image,
/// and the pointer table wires up identity, recursion, the long-mode window
/// and the kernel window.  Setting `CR4.PAE`, CR3 and the paging bit are the
/// hardware's step.
pub fn enable_pae(
    kpages: &mut PaePages,
    scratch: &mut PageTable64,
    kernel_phys: usize,
    kernel_pages: usize,
)
    requires
        old(kpages).pdpt.wf(),
        old(kpages).pt_pml4.wf(),
        old(kpages).pt_kernel.wf(),
        old(scratch).wf(),
        old(kpages).pdpt.phys_page_num < 0x100000,
        old(kpages).pt_pml4.phys_page_num < 0x100000,
        old(kpages).pt_kernel.phys_page_num < 0x100000,
        old(scratch).phys_page_num < 0x100000,
        kernel_phys as int + 256 * PAGE_SIZE <= 0x1_0000_0000,
        kernel_phys as int % PAGE_SIZE as int == 0,
    ensures
        final(kpages).pdpt.wf(),
        final(kpages).pt_kernel.wf(),
        final(scratch).wf(),
        // The scratch table identity-maps 2 MiB, with itself at slot zero.
        final(scratch).entries@[0].0 == crate::pte::fresh_entry(
            old(scratch).phys_page_num as int,
            true,
            false,
        ),
        forall|i: int|
            1 <= i < 512 ==> (#[trigger] final(scratch).entries@[i]).0 == crate::pte::fresh_entry(
                i,
                true,
                false,
            ),
        // The kernel table: the low megabyte, then the kernel image.
        forall|i: int|
            0 <= i < 256 ==> (#[trigger] final(kpages).pt_kernel.entries@[i]).0
                == crate::pte::fresh_entry(i, true, false),
        forall|i: int|
            256 <= i < 256 + min_1024(kernel_pages as int, 256) ==> (#[trigger] final(kpages).pt_kernel.entries@[i]).0 == crate::pte::fresh_entry(
                kernel_phys as int / PAGE_SIZE as int + (i - 256),
                true,
                false,
            ),
        // The pointer table: identity, itself, the long-mode window, the
        // kernel window.
        final(kpages).pdpt.entries@[0].0 == crate::pte::fresh_entry(
            old(scratch).phys_page_num as int,
            true,
            false,
        ),
        final(kpages).pdpt.entries@[3].0 == crate::pte::fresh_entry(
            old(kpages).pdpt.phys_page_num as int,
            true,
            false,
        ),
        final(kpages).pdpt.entries@[4].0 == crate::pte::fresh_entry(
            old(kpages).pt_pml4.phys_page_num as int,
            true,
            false,
        ),
        final(kpages).pdpt.entries@[5].0 == crate::pte::fresh_entry(
            old(kpages).pt_kernel.phys_page_num as int,
            true,
            false,
        ),
{
    let self_map = crate::pte::make_entry(scratch.phys_page(), true, false);
    scratch.entries.set(0, Entry64(self_map));
    let mut i: usize = 1;
    while i < 512
        invariant
            scratch.entries@.len() == 512,
            scratch.phys_page_num == old(scratch).phys_page_num,
            scratch.entries@[0].0 == crate::pte::fresh_entry(
                old(scratch).phys_page_num as int,
                true,
                false,
            ),
            1 <= i <= 512,
            forall|j: int|
                1 <= j < i ==> (#[trigger] scratch.entries@[j]).0 == crate::pte::fresh_entry(
                    j,
                    true,
                    false,
                ),
        decreases 512 - i,
    {
        let raw = crate::pte::make_entry(i, true, false);
        scratch.entries.set(i, Entry64(raw));
        i = i + 1;
    }
    let mut i: usize = 0;
    while i < 256
        invariant
            kpages.pt_kernel.entries@.len() == 512,
            kpages.pt_kernel.phys_page_num == old(kpages).pt_kernel.phys_page_num,
            kpages.pdpt == old(kpages).pdpt,
            kpages.pt_pml4 == old(kpages).pt_pml4,
            i <= 256,
            forall|j: int|
                0 <= j < i ==> (#[trigger] kpages.pt_kernel.entries@[j]).0
                    == crate::pte::fresh_entry(j, true, false),
        decreases 256 - i,
    {
        let raw = crate::pte::make_entry(i, true, false);
        kpages.pt_kernel.entries.set(i, Entry64(raw));
        i = i + 1;
    }
    let kernel_low = kernel_phys / PAGE_SIZE;
    proof {
        assert(kernel_phys as int / PAGE_SIZE as int + 256 <= 0x100000) by (nonlinear_arith)
            requires
                kernel_phys as int + 256 * PAGE_SIZE <= 0x1_0000_0000,
                PAGE_SIZE == 4096,
                kernel_phys >= 0,
        ;
    }
    let limit = if kernel_pages < 256 {
        kernel_pages
    } else {
        256
    };
    let mut i: usize = 0;
    while i < limit
        invariant
            kpages.pt_kernel.entries@.len() == 512,
            kpages.pt_kernel.phys_page_num == old(kpages).pt_kernel.phys_page_num,
            kpages.pdpt == old(kpages).pdpt,
            kpages.pt_pml4 == old(kpages).pt_pml4,
            kernel_low == kernel_phys as int / PAGE_SIZE as int,
            kernel_low + 256 <= 0x100000,
            limit == min_1024(kernel_pages as int, 256),
            i <= limit <= 256,
            forall|j: int|
                0 <= j < 256 ==> (#[trigger] kpages.pt_kernel.entries@[j]).0
                    == crate::pte::fresh_entry(j, true, false),
            forall|j: int|
                256 <= j < 256 + i ==> (#[trigger] kpages.pt_kernel.entries@[j]).0
                    == crate::pte::fresh_entry(kernel_low + (j - 256), true, false),
        decreases limit - i,
    {
        proof {
            assert(kernel_low + i < 0x100000);
        }
        let raw = crate::pte::make_entry(kernel_low + i, true, false);
        kpages.pt_kernel.entries.set(256 + i, Entry64(raw));
        i = i + 1;
    }
    let scratch_entry = crate::pte::make_entry(scratch.phys_page(), true, false);
    kpages.pdpt.entries.set(0, Entry64(scratch_entry));
    let self_entry = crate::pte::make_entry(kpages.pdpt.phys_page(), true, false);
    kpages.pdpt.entries.set(3, Entry64(self_entry));
    let pml4_entry = crate::pte::make_entry(kpages.pt_pml4.phys_page(), true, false);
    kpages.pdpt.entries.set(4, Entry64(pml4_entry));
    let kernel_entry = crate::pte::make_entry(kpages.pt_kernel.phys_page(), true, false);
    kpages.pdpt.entries.set(5, Entry64(kernel_entry));
}

} // verus!

