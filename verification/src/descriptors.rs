//! GDT, IDT and TSS construction.
//!
//! The descriptors are built as plain values with bit-exact contents; loading
//! them into the CPU (`lgdt`, `lidt`, `ltr`) is the hardware's side of the
//! bargain and happens outside the verified code.

use vstd::prelude::*;

verus! {

/// Kernel 32-bit code selector.
pub const KERNEL_CS: u16 = 0x08;

/// Kernel data selector.
pub const KERNEL_DS: u16 = 0x10;

/// User 32-bit code selector, ring 3.
pub const USER_CS: u16 = 0x18 | 3;

/// User data selector, ring 3.
pub const USER_DS: u16 = 0x20 | 3;

/// 32-bit TSS selector.
pub const TSS32_SEL: u16 = 0x28;

/// Kernel 64-bit code selector (the long-mode descriptors sit above the
/// TSS).
pub const KERNEL_CS64: u16 = 0x30;

/// User 64-bit code selector, ring 3.
pub const USER_CS64: u16 = 0x38 | 3;

/// 64-bit TSS selector.
pub const TSS64_SEL: u16 = 0x40;

/// IDT slots: vectors 0 to 48 plus the syscall gate at 0x80.
pub const IDT_ENTRIES: usize = 0x81;

/// The pointer handed to `lgdt`.
pub struct GdtPtr {
    pub limit: u16,
    pub base: u32,
}

/// The pointer handed to `lidt`.
pub struct IdtPtr {
    pub limit: u16,
    pub base: u32,
}


/// Spec value of the null GDT entry.
pub open spec fn gdt_null() -> GdtEntry {
    GdtEntry { limit_low: 0u16, base_low: 0u16, base_mid: 0u8, access: 0u8, granularity: 0u8, base_high: 0u8 }
}

/// Spec value of a flat 32-bit segment descriptor.
pub open spec fn gdt_segment32(is_code: bool, dpl: u8) -> GdtEntry {
    GdtEntry {
        limit_low: 0xFFFFu16,
        base_low: 0u16,
        base_mid: 0u8,
        access: (0x80u8 | ((dpl & 3) << 5) | 0x10 | (if is_code { 0x0Au8 } else { 0x02u8 })) as u8,
        granularity: 0xCFu8,
        base_high: 0u8,
    }
}

/// Spec value of a flat 64-bit code descriptor.
pub open spec fn gdt_segment64(dpl: u8) -> GdtEntry {
    GdtEntry {
        limit_low: 0xFFFFu16,
        base_low: 0u16,
        base_mid: 0u8,
        access: (0x80u8 | ((dpl & 3) << 5) | 0x10 | 0x0A) as u8,
        granularity: 0xAFu8,
        base_high: 0u8,
    }
}

/// Spec value of the low half of a TSS descriptor.
pub open spec fn gdt_tss_low(base: u64, limit: u32) -> GdtEntry {
    GdtEntry {
        limit_low: limit as u16,
        base_low: base as u16,
        base_mid: (base >> 16) as u8,
        access: 0x89u8,
        granularity: ((limit >> 16) & 0x0F) as u8,
        base_high: (base >> 24) as u8,
    }
}

/// Spec value of the null 32-bit gate.
pub open spec fn idt32_null() -> IdtEntry32 {
    IdtEntry32 { offset_low: 0u16, selector: 0u16, zero: 0u8, type_attr: 0u8, offset_high: 0u16 }
}

/// Spec value of a 32-bit interrupt gate.
pub open spec fn idt32_gate(handler: u32, dpl: u8) -> IdtEntry32 {
    IdtEntry32 {
        offset_low: handler as u16,
        selector: KERNEL_CS,
        zero: 0u8,
        type_attr: (0x80u8 | ((dpl & 3) << 5) | 0x0E) as u8,
        offset_high: (handler >> 16) as u16,
    }
}

/// Spec value of the null 64-bit gate.
pub open spec fn idt64_null() -> IdtEntry64 {
    IdtEntry64 {
        offset_low: 0u16,
        selector: 0u16,
        ist: 0u8,
        type_attr: 0u8,
        offset_mid: 0u16,
        offset_high: 0u32,
        reserved: 0u32,
    }
}

/// Spec value of a 64-bit interrupt gate.
pub open spec fn idt64_gate(handler: u32, dpl: u8) -> IdtEntry64 {
    IdtEntry64 {
        offset_low: handler as u16,
        selector: KERNEL_CS64,
        ist: 0u8,
        type_attr: (0x80u8 | ((dpl & 3) << 5) | 0x0E) as u8,
        offset_mid: (handler >> 16) as u16,
        offset_high: 0u32,
        reserved: 0u32,
    }
}

/// One 8-byte GDT entry.
#[derive(Clone, Copy, PartialEq, Eq, Structural, Debug)]
pub struct GdtEntry {
    pub limit_low: u16,
    pub base_low: u16,
    pub base_mid: u8,
    pub access: u8,
    pub granularity: u8,
    pub base_high: u8,
}

impl GdtEntry {
    /// The null descriptor.
    pub fn null() -> (r: GdtEntry)
        ensures
            r == gdt_null(),
    {
        GdtEntry { limit_low: 0, base_low: 0, base_mid: 0, access: 0, granularity: 0, base_high: 0 }
    }

    /// A flat 32-bit segment: present, 4 KiB granularity, limit 0xFFFFF, code
    /// or data at the given privilege level.
    pub fn segment32(is_code: bool, dpl: u8) -> (r: GdtEntry)
        ensures
            r == gdt_segment32(is_code, dpl),
    {
        let type_bits: u8 = if is_code {
            0x0A
        } else {
            0x02
        };
        let access: u8 = 0x80 | ((dpl & 3) << 5) | 0x10 | type_bits;
        GdtEntry {
            limit_low: 0xFFFF,
            base_low: 0,
            base_mid: 0,
            access,
            granularity: 0xCF,
            base_high: 0,
        }
    }

    /// A flat 64-bit code segment (long bit set, default bit clear).
    pub fn segment64(dpl: u8) -> (r: GdtEntry)
        ensures
            r == gdt_segment64(dpl),
    {
        let access: u8 = 0x80 | ((dpl & 3) << 5) | 0x10 | 0x0A;
        GdtEntry {
            limit_low: 0xFFFF,
            base_low: 0,
            base_mid: 0,
            access,
            granularity: 0xAF,
            base_high: 0,
        }
    }

    /// The low 8 bytes of a TSS descriptor for a base below 4 GiB.
    pub fn tss_low(base: u64, limit: u32) -> (r: GdtEntry)
        ensures
            r == gdt_tss_low(base, limit),
    {
        GdtEntry {
            limit_low: limit as u16,
            base_low: base as u16,
            base_mid: (base >> 16) as u8,
            access: 0x89,
            granularity: ((limit >> 16) & 0x0F) as u8,
            base_high: (base >> 24) as u8,
        }
    }
}

/// One 8-byte 32-bit IDT gate.
#[derive(Clone, Copy, PartialEq, Eq, Structural, Debug)]
pub struct IdtEntry32 {
    pub offset_low: u16,
    pub selector: u16,
    pub zero: u8,
    pub type_attr: u8,
    pub offset_high: u16,
}

impl IdtEntry32 {
    pub fn null() -> (r: IdtEntry32)
        ensures
            r == idt32_null(),
    {
        IdtEntry32 { offset_low: 0, selector: 0, zero: 0, type_attr: 0, offset_high: 0 }
    }

    /// A present 32-bit interrupt gate through the kernel code segment.
    pub fn interrupt_gate(handler: u32, dpl: u8) -> (r: IdtEntry32)
        ensures
            r == idt32_gate(handler, dpl),
    {
        IdtEntry32 {
            offset_low: handler as u16,
            selector: KERNEL_CS,
            zero: 0,
            type_attr: 0x80 | ((dpl & 3) << 5) | 0x0E,
            offset_high: (handler >> 16) as u16,
        }
    }
}

/// One 16-byte 64-bit IDT gate.
#[derive(Clone, Copy, PartialEq, Eq, Structural, Debug)]
pub struct IdtEntry64 {
    pub offset_low: u16,
    pub selector: u16,
    pub ist: u8,
    pub type_attr: u8,
    pub offset_mid: u16,
    pub offset_high: u32,
    pub reserved: u32,
}

impl IdtEntry64 {
    pub fn null() -> (r: IdtEntry64)
        ensures
            r == idt64_null(),
    {
        IdtEntry64 {
            offset_low: 0,
            selector: 0,
            ist: 0,
            type_attr: 0,
            offset_mid: 0,
            offset_high: 0,
            reserved: 0,
        }
    }

    /// A present 64-bit interrupt gate through the 64-bit kernel code
    /// segment; handlers live below 4 GiB.
    pub fn interrupt_gate(handler: u32, dpl: u8) -> (r: IdtEntry64)
        ensures
            r == idt64_gate(handler, dpl),
    {
        IdtEntry64 {
            offset_low: handler as u16,
            selector: KERNEL_CS64,
            ist: 0,
            type_attr: 0x80 | ((dpl & 3) << 5) | 0x0E,
            offset_mid: (handler >> 16) as u16,
            offset_high: 0,
            reserved: 0,
        }
    }
}

/// The task state segment, laid out to serve both modes: in 32-bit mode the
/// CPU reads ESP0 and SS0 from the low and high halves of `sp0`; in 64-bit
/// mode `sp0` is RSP0 whole.
pub struct Tss {
    pub reserved0: u32,
    pub sp0: u64,
    pub sp1: u64,
    pub sp2: u64,
    pub reserved1: u64,
    pub ist: [u64; 7],
    pub reserved2: u64,
    pub reserved3: u16,
    pub io_map_base: u16,
}

impl Tss {
    /// An empty TSS whose I/O-map base points past the segment (no bitmap).
    pub fn new() -> (r: Tss)
        ensures
            r.sp0 == 0,
            r.sp1 == 0,
            r.sp2 == 0,
            r.io_map_base == 104,
    {
        Tss {
            reserved0: 0,
            sp0: 0,
            sp1: 0,
            sp2: 0,
            reserved1: 0,
            ist: [0, 0, 0, 0, 0, 0, 0],
            reserved2: 0,
            reserved3: 0,
            io_map_base: 104,
        }
    }

    /// Point the 32-bit ring-0 stack at `stack`, packing `SS0:ESP0`.
    pub fn set_kernel_stack(&mut self, stack: u32)
        ensures
            final(self).sp0 == ((KERNEL_DS as u64) << 32) | (stack as u64),
            final(self).sp1 == old(self).sp1,
            final(self).sp2 == old(self).sp2,
            final(self).io_map_base == old(self).io_map_base,
    {
        self.sp0 = ((KERNEL_DS as u64) << 32) | (stack as u64);
    }

    /// Point the 64-bit ring-0 stack at `stack`.
    pub fn set_kernel_stack_64(&mut self, stack: u64)
        ensures
            final(self).sp0 == stack,
            final(self).sp1 == old(self).sp1,
            final(self).sp2 == old(self).sp2,
            final(self).io_map_base == old(self).io_map_base,
    {
        self.sp0 = stack;
    }
}

/// Gate privilege for vector `i`: ring 3 may raise breakpoint, overflow and
/// bound-range directly (and the syscall gate); everything else is ring 0.
pub open spec fn idt_dpl(i: int) -> u8 {
    if 3 <= i <= 5 {
        3u8
    } else {
        0u8
    }
}

/// Build the 32-bit IDT from the entry-stub table: vector `i` gets the stub
/// at `vector_base + 8 i`, and the syscall slot 0x80 reuses stub 48 with
/// ring-3 access.
pub fn build_idt32(vector_base: u32) -> (r: Vec<IdtEntry32>)
    requires
        vector_base + 48 * 8 <= u32::MAX,
    ensures
        r@.len() == IDT_ENTRIES,
        forall|i: int|
            0 <= i < 48 ==> r@[i] == idt32_gate((vector_base + i * 8) as u32, idt_dpl(i)),
        forall|i: int| 48 <= i < 0x80 ==> r@[i] == idt32_null(),
        r@[0x80] == idt32_gate((vector_base + 48 * 8) as u32, 3),
{
    let mut entries: Vec<IdtEntry32> = Vec::new();
    let mut i: usize = 0;
    while i < 48
        invariant
            vector_base + 48 * 8 <= u32::MAX,
            i == entries@.len() <= 48,
            forall|j: int|
                0 <= j < i ==> entries@[j] == idt32_gate((vector_base + j * 8) as u32, idt_dpl(j)),
        decreases 48 - i,
    {
        let dpl: u8 = if 3 <= i && i <= 5 {
            3
        } else {
            0
        };
        entries.push(IdtEntry32::interrupt_gate(vector_base + (i as u32) * 8, dpl));
        i = i + 1;
    }
    while i < 0x80
        invariant
            vector_base + 48 * 8 <= u32::MAX,
            48 <= i == entries@.len() <= 0x80,
            forall|j: int|
                0 <= j < 48 ==> entries@[j] == idt32_gate((vector_base + j * 8) as u32, idt_dpl(j)),
            forall|j: int| 48 <= j < i ==> entries@[j] == idt32_null(),
        decreases 0x80 - i,
    {
        entries.push(IdtEntry32::null());
        i = i + 1;
    }
    entries.push(IdtEntry32::interrupt_gate(vector_base + 48 * 8, 3));
    entries
}

/// Build the 64-bit IDT the same way, through the 64-bit code segment.
pub fn build_idt64(vector_base: u32) -> (r: Vec<IdtEntry64>)
    requires
        vector_base + 48 * 8 <= u32::MAX,
    ensures
        r@.len() == IDT_ENTRIES,
        forall|i: int|
            0 <= i < 48 ==> r@[i] == idt64_gate((vector_base + i * 8) as u32, idt_dpl(i)),
        forall|i: int| 48 <= i < 0x80 ==> r@[i] == idt64_null(),
        r@[0x80] == idt64_gate((vector_base + 48 * 8) as u32, 3),
{
    let mut entries: Vec<IdtEntry64> = Vec::new();
    let mut i: usize = 0;
    while i < 48
        invariant
            vector_base + 48 * 8 <= u32::MAX,
            i == entries@.len() <= 48,
            forall|j: int|
                0 <= j < i ==> entries@[j] == idt64_gate((vector_base + j * 8) as u32, idt_dpl(j)),
        decreases 48 - i,
    {
        let dpl: u8 = if 3 <= i && i <= 5 {
            3
        } else {
            0
        };
        entries.push(IdtEntry64::interrupt_gate(vector_base + (i as u32) * 8, dpl));
        i = i + 1;
    }
    while i < 0x80
        invariant
            vector_base + 48 * 8 <= u32::MAX,
            48 <= i == entries@.len() <= 0x80,
            forall|j: int|
                0 <= j < 48 ==> entries@[j] == idt64_gate((vector_base + j * 8) as u32, idt_dpl(j)),
            forall|j: int| 48 <= j < i ==> entries@[j] == idt64_null(),
        decreases 0x80 - i,
    {
        entries.push(IdtEntry64::null());
        i = i + 1;
    }
    entries.push(IdtEntry64::interrupt_gate(vector_base + 48 * 8, 3));
    entries
}

/// Build the GDT, selectors bit-exact: null, kernel code 0x08, kernel data
/// 0x10, user code 0x18, user data 0x20, the 32-bit TSS at 0x28; the
/// long-mode add-on sits above it — 64-bit kernel code 0x30, 64-bit user
/// code 0x38, then the 64-bit TSS descriptor (its high half stays null for
/// a base below 4 GiB).
pub fn build_gdt(tss32_addr: u64, tss64_addr: u64, tss_limit: u32) -> (r: Vec<GdtEntry>)
    ensures
        r@.len() == 10,
        r@[0] == gdt_null(),
        r@[1] == gdt_segment32(true, 0),
        r@[2] == gdt_segment32(false, 0),
        r@[3] == gdt_segment32(true, 3),
        r@[4] == gdt_segment32(false, 3),
        r@[5] == gdt_tss_low(tss32_addr, tss_limit),
        r@[6] == gdt_segment64(0),
        r@[7] == gdt_segment64(3),
        r@[8] == gdt_tss_low(tss64_addr, tss_limit),
        r@[9] == gdt_null(),
{
    let mut gdt: Vec<GdtEntry> = Vec::new();
    gdt.push(GdtEntry::null());
    gdt.push(GdtEntry::segment32(true, 0));
    gdt.push(GdtEntry::segment32(false, 0));
    gdt.push(GdtEntry::segment32(true, 3));
    gdt.push(GdtEntry::segment32(false, 3));
    gdt.push(GdtEntry::tss_low(tss32_addr, tss_limit));
    gdt.push(GdtEntry::segment64(0));
    gdt.push(GdtEntry::segment64(3));
    gdt.push(GdtEntry::tss_low(tss64_addr, tss_limit));
    gdt.push(GdtEntry::null());
    gdt
}

} // verus!
