//! 32-bit ELF reading: the executable header, loadable segments, the symbol
//! table, and the permission pass that exec runs after copying segments in.

use vstd::prelude::*;

verus! {

use crate::{NUM_PAGES, PAGE_SIZE};
use crate::pte::{PagingMode, entry_present, entry_nx, entry_page, fresh_entry, FLAG_SOFT_RO,
    FLAG_NO_EXECUTE};
use crate::space::AddressSpace;
use crate::tar::first_zero;

/// The ELF magic, "\x7FELF" read little-endian.
pub const ELF_MAGIC: u32 = 0x464C_457F;

/// Section type of a symbol table.
pub const SHT_SYMTAB: u32 = 2;

/// Section type of a string table.
pub const SHT_STRTAB: u32 = 3;

/// Untyped symbol.
pub const STT_NOTYPE: u8 = 0;

/// Function symbol.
pub const STT_FUNC: u8 = 2;

/// Loadable program segment.
pub const PT_LOAD: u32 = 1;

/// Executable segment flag.
pub const PF_EXEC: u32 = 1;

/// Writable segment flag.
pub const PF_WRITE: u32 = 2;

/// Readable segment flag.
pub const PF_READ: u32 = 4;

/// Top of the user stack, just below kernel space.
pub const USER_STACK_TOP: usize = 0xC000_0000;

/// Pages of user stack.
pub const USER_STACK_PAGES: usize = 16;

/// A 16-bit little-endian read.
pub open spec fn u16_at(d: Seq<u8>, off: int) -> u16 {
    (d[off] as u16) | ((d[off + 1] as u16) << 8)
}

/// A 32-bit little-endian read.
pub open spec fn u32_at(d: Seq<u8>, off: int) -> u32 {
    (d[off] as u32) | ((d[off + 1] as u32) << 8) | ((d[off + 2] as u32) << 16) | ((d[off
        + 3] as u32) << 24)
}

/// Read a 16-bit little-endian value.
pub fn read_u16(data: &[u8], off: usize) -> (r: u16)
    requires
        off + 2 <= data@.len(),
    ensures
        r == u16_at(data@, off as int),
{
    (data[off] as u16) | ((data[off + 1] as u16) << 8)
}

/// Read a 32-bit little-endian value.
pub fn read_u32(data: &[u8], off: usize) -> (r: u32)
    requires
        off + 4 <= data@.len(),
    ensures
        r == u32_at(data@, off as int),
{
    (data[off] as u32) | ((data[off + 1] as u32) << 8) | ((data[off + 2] as u32) << 16) | ((data[off
        + 3] as u32) << 24)
}

/// Why an ELF image was rejected.
#[derive(Clone, Copy, PartialEq, Eq, Structural, Debug)]
pub enum ElfError {
    InvalidMagic,
    InvalidClass,
    InvalidEndian,
    InvalidType,
    InvalidMachine,
    OutOfMemory,
}

/// The fields of the 52-byte 32-bit ELF header.
#[derive(Clone, Copy, PartialEq, Eq, Structural, Debug)]
pub struct ElfHeader {
    pub magic: u32,
    pub class: u8,
    pub endian: u8,
    pub typ: u16,
    pub machine: u16,
    pub version: u32,
    pub entry: u32,
    pub phoff: u32,
    pub shoff: u32,
    pub flags: u32,
    pub ehsize: u16,
    pub phentsize: u16,
    pub phnum: u16,
    pub shentsize: u16,
    pub shnum: u16,
    pub shstrndx: u16,
}

/// The header an image starts with.
pub open spec fn header_spec(d: Seq<u8>) -> ElfHeader {
    ElfHeader {
        magic: u32_at(d, 0),
        class: d[4],
        endian: d[5],
        typ: u16_at(d, 16),
        machine: u16_at(d, 18),
        version: u32_at(d, 20),
        entry: u32_at(d, 24),
        phoff: u32_at(d, 28),
        shoff: u32_at(d, 32),
        flags: u32_at(d, 36),
        ehsize: u16_at(d, 40),
        phentsize: u16_at(d, 42),
        phnum: u16_at(d, 44),
        shentsize: u16_at(d, 46),
        shnum: u16_at(d, 48),
        shstrndx: u16_at(d, 50),
    }
}

/// One program header, as read from the image.
#[derive(Clone, Copy, PartialEq, Eq, Structural, Debug)]
pub struct ProgramHeader {
    pub typ: u32,
    pub off: u32,
    pub vaddr: u32,
    pub paddr: u32,
    pub filesz: u32,
    pub memsz: u32,
    pub flags: u32,
    pub align: u32,
}

/// The program header at byte offset `off`.
pub open spec fn ph_spec(d: Seq<u8>, off: int) -> ProgramHeader {
    ProgramHeader {
        typ: u32_at(d, off),
        off: u32_at(d, off + 4),
        vaddr: u32_at(d, off + 8),
        paddr: u32_at(d, off + 12),
        filesz: u32_at(d, off + 16),
        memsz: u32_at(d, off + 20),
        flags: u32_at(d, off + 24),
        align: u32_at(d, off + 28),
    }
}

/// A loadable segment: where it goes, how big it is in memory, its
/// permission flags, and — when the image carries bytes for it — the offset
/// and length of those bytes within the image.
#[derive(Clone, Copy, PartialEq, Eq, Debug)]
pub struct Segment {
    pub vaddr: usize,
    pub memsz: usize,
    pub flags: u32,
    pub data: Option<(usize, usize)>,
}

impl Segment {
    pub fn is_writable(&self) -> (r: bool)
        ensures
            r == (self.flags & PF_WRITE != 0),
    {
        self.flags & PF_WRITE != 0
    }

    pub fn is_executable(&self) -> (r: bool)
        ensures
            r == (self.flags & PF_EXEC != 0),
    {
        self.flags & PF_EXEC != 0
    }
}

/// The segment built from one loadable program header.
pub open spec fn segment_of_ph(d: Seq<u8>, ph: ProgramHeader) -> Segment {
    Segment {
        vaddr: ph.vaddr as usize,
        memsz: ph.memsz as usize,
        flags: ph.flags,
        data: if ph.filesz > 0 && ph.off + ph.filesz <= d.len() {
            Some((ph.off as usize, ph.filesz as usize))
        } else {
            None
        },
    }
}

/// The loadable segments among the first `count` program headers, in order;
/// headers that run past the image are skipped.
pub open spec fn segments_spec(d: Seq<u8>, phoff: int, phentsize: int, count: int) -> Seq<Segment>
    decreases count,
{
    if count <= 0 {
        Seq::empty()
    } else {
        let prev = segments_spec(d, phoff, phentsize, count - 1);
        let ph_start = phoff + (count - 1) * phentsize;
        if ph_start + 32 > d.len() {
            prev
        } else {
            let ph = ph_spec(d, ph_start);
            if ph.typ == PT_LOAD {
                prev.push(segment_of_ph(d, ph))
            } else {
                prev
            }
        }
    }
}

/// Every segment a program-header walk produces keeps its address and size
/// within 32 bits, since both come from 32-bit fields.
pub proof fn lemma_segments_bounded(d: Seq<u8>, phoff: int, phentsize: int, count: int)
    ensures
        forall|j: int|
            0 <= j < segments_spec(d, phoff, phentsize, count).len() ==> (
            #[trigger] segments_spec(d, phoff, phentsize, count)[j]).vaddr < 0x1_0000_0000
                && segments_spec(d, phoff, phentsize, count)[j].memsz < 0x1_0000_0000,
    decreases count,
{
    if count > 0 {
        lemma_segments_bounded(d, phoff, phentsize, count - 1);
    }
}

/// Whether an image passes validation: large enough, magic, 32-bit,
/// little-endian, an executable, for the x86.
pub open spec fn elf_parse_ok(d: Seq<u8>) -> bool {
    d.len() >= 52 && u32_at(d, 0) == ELF_MAGIC && d[4] == 1 && d[5] == 1 && u16_at(d, 16) == 2
        && u16_at(d, 18) == 3
}

/// A parsed ELF image: the bytes and the decoded header.
pub struct Elf {
    pub data: Vec<u8>,
    pub header: ElfHeader,
}

impl Elf {
    /// Validate and parse an image: it must be large enough, magic, 32-bit,
    /// little-endian, an executable, and for the x86.  Each check has its
    /// own error, tried in that order.
    pub fn parse(data: &[u8]) -> (r: Result<Elf, ElfError>)
        ensures
            r is Ok <==> elf_parse_ok(data@),
            match r {
                Ok(e) => {
                    &&& data@.len() >= 52
                    &&& u32_at(data@, 0) == ELF_MAGIC
                    &&& data@[4] == 1
                    &&& data@[5] == 1
                    &&& u16_at(data@, 16) == 2
                    &&& u16_at(data@, 18) == 3
                    &&& e.data@ == data@
                    &&& e.header == header_spec(data@)
                },
                Err(err) => {
                    if data@.len() < 52 || u32_at(data@, 0) != ELF_MAGIC {
                        err == ElfError::InvalidMagic
                    } else if data@[4] != 1 {
                        err == ElfError::InvalidClass
                    } else if data@[5] != 1 {
                        err == ElfError::InvalidEndian
                    } else if u16_at(data@, 16) != 2 {
                        err == ElfError::InvalidType
                    } else {
                        err == ElfError::InvalidMachine && u16_at(data@, 18) != 3
                    }
                },
            },
    {
        if data.len() < 52 {
            return Err(ElfError::InvalidMagic);
        }
        let magic = read_u32(data, 0);
        if magic != ELF_MAGIC {
            return Err(ElfError::InvalidMagic);
        }
        if data[4] != 1 {
            return Err(ElfError::InvalidClass);
        }
        if data[5] != 1 {
            return Err(ElfError::InvalidEndian);
        }
        let typ = read_u16(data, 16);
        if typ != 2 {
            return Err(ElfError::InvalidType);
        }
        let machine = read_u16(data, 18);
        if machine != 3 {
            return Err(ElfError::InvalidMachine);
        }
        let mut copy: Vec<u8> = Vec::new();
        let mut i: usize = 0;
        while i < data.len()
            invariant
                i == copy@.len() <= data@.len(),
                forall|j: int| 0 <= j < i ==> copy@[j] == data@[j],
            decreases data@.len() - i,
        {
            copy.push(data[i]);
            i = i + 1;
        }
        proof {
            assert(copy@ =~= data@);
        }
        let header = ElfHeader {
            magic,
            class: data[4],
            endian: data[5],
            typ,
            machine,
            version: read_u32(data, 20),
            entry: read_u32(data, 24),
            phoff: read_u32(data, 28),
            shoff: read_u32(data, 32),
            flags: read_u32(data, 36),
            ehsize: read_u16(data, 40),
            phentsize: read_u16(data, 42),
            phnum: read_u16(data, 44),
            shentsize: read_u16(data, 46),
            shnum: read_u16(data, 48),
            shstrndx: read_u16(data, 50),
        };
        Ok(Elf { data: copy, header })
    }

    /// The entry point.
    pub fn entry(&self) -> (r: u32)
        ensures
            r == self.header.entry,
    {
        self.header.entry
    }

    /// The loadable segments, in program-header order.
    pub fn segments(&self) -> (r: Vec<Segment>)
        ensures
            r@ == segments_spec(
                self.data@,
                self.header.phoff as int,
                self.header.phentsize as int,
                self.header.phnum as int,
            ),
    {
        let mut out: Vec<Segment> = Vec::new();
        let mut i: usize = 0;
        let phoff = self.header.phoff;
        let phentsize = self.header.phentsize;
        let phnum = self.header.phnum as usize;
        let dlen = self.data.len();
        while i < phnum
            invariant
                phoff == self.header.phoff,
                phentsize == self.header.phentsize,
                phnum == self.header.phnum,
                dlen == self.data@.len(),
                i <= phnum,
                out@ == segments_spec(
                    self.data@,
                    self.header.phoff as int,
                    self.header.phentsize as int,
                    i as int,
                ),
            decreases phnum - i,
        {
            proof {
                assert((i as u64) * (phentsize as u64) <= 0xFFFF * 0xFFFF) by (nonlinear_arith)
                    requires
                        i <= 0xFFFF,
                        phentsize <= 0xFFFF,
                ;
            }
            let ph_start: u64 = phoff as u64 + (i as u64) * (phentsize as u64);
            if ph_start + 32 <= dlen as u64 {
                let s = ph_start as usize;
                let ph = ProgramHeader {
                    typ: read_u32(self.data.as_slice(), s),
                    off: read_u32(self.data.as_slice(), s + 4),
                    vaddr: read_u32(self.data.as_slice(), s + 8),
                    paddr: read_u32(self.data.as_slice(), s + 12),
                    filesz: read_u32(self.data.as_slice(), s + 16),
                    memsz: read_u32(self.data.as_slice(), s + 20),
                    flags: read_u32(self.data.as_slice(), s + 24),
                    align: read_u32(self.data.as_slice(), s + 28),
                };
                if ph.typ == PT_LOAD {
                    let has_data = ph.filesz > 0 && ph.off as u64 + ph.filesz as u64 <= dlen as u64;
                    let seg = Segment {
                        vaddr: ph.vaddr as usize,
                        memsz: ph.memsz as usize,
                        flags: ph.flags,
                        data: if has_data {
                            Some((ph.off as usize, ph.filesz as usize))
                        } else {
                            None
                        },
                    };
                    out.push(seg);
                }
            }
            i = i + 1;
        }
        out
    }
}

/// What the permission pass leaves in a present leaf entry touched by a
/// segment: the same physical page, the segment's writability, user access,
/// `SOFT_RO` sealing a read-only segment forever, and no-execute cleared for
/// executable segments but preserved otherwise — so executability wins when
/// two segments share a page.
pub open spec fn finalize_entry(raw: u64, mode: PagingMode, writable: bool, executable: bool) -> u64 {
    if !entry_present(raw) {
        raw
    } else {
        let base = fresh_entry(entry_page(raw, mode), writable, true);
        let sealed = if !writable {
            base | FLAG_SOFT_RO
        } else {
            base
        };
        if executable {
            sealed
        } else if entry_nx(raw) {
            sealed | FLAG_NO_EXECUTE
        } else {
            sealed
        }
    }
}

/// First page of a segment.
pub open spec fn seg_first_page(seg: Segment) -> int {
    seg.vaddr as int / PAGE_SIZE as int
}

/// One past the last page of a segment.
pub open spec fn seg_end_page(seg: Segment) -> int {
    (seg.vaddr + seg.memsz + PAGE_SIZE - 1) / PAGE_SIZE as int
}

/// The leaf entries after the permission pass over one segment.
pub open spec fn apply_segment(entries: Seq<u64>, seg: Segment, mode: PagingMode) -> Seq<u64> {
    Seq::new(
        entries.len(),
        |p: int| if seg_first_page(seg) <= p < seg_end_page(seg) {
            finalize_entry(entries[p], mode, seg.flags & PF_WRITE != 0, seg.flags & PF_EXEC != 0)
        } else {
            entries[p]
        },
    )
}

/// The leaf entries after the permission pass over the first `n` segments.
pub open spec fn apply_segments(entries: Seq<u64>, segs: Seq<Segment>, mode: PagingMode, n: int) -> Seq<u64>
    decreases n,
{
    if n <= 0 {
        entries
    } else {
        apply_segment(apply_segments(entries, segs, mode, n - 1), segs[n - 1], mode)
    }
}

/// The permission pass preserves the number of leaf entries.
pub proof fn lemma_apply_segments_len(entries: Seq<u64>, segs: Seq<Segment>, mode: PagingMode, n: int)
    ensures
        apply_segments(entries, segs, mode, n).len() == entries.len(),
    decreases n,
{
    if n > 0 {
        lemma_apply_segments_len(entries, segs, mode, n - 1);
    }
}

/// Set the final permissions on one page of a freshly loaded segment.
pub fn finalize_page_permissions(
    space: &mut AddressSpace,
    page: usize,
    writable: bool,
    executable: bool,
)
    requires
        old(space).wf(),
        page < NUM_PAGES,
    ensures
        final(space).wf(),
        final(space).mode == old(space).mode,
        final(space).nx_enabled == old(space).nx_enabled,
        final(space).root_phys_page == old(space).root_phys_page,
        final(space)@ == old(space)@.update(
            page as int,
            finalize_entry(old(space)@[page as int], old(space).mode, writable, executable),
        ),
{
    let raw = space.raw_entry(page);
    if raw & 0x1 == 0 {
        proof {
            let s = old(space)@;
            assert(s.len() == NUM_PAGES);
            assert(s.update(page as int, s[page as int]) =~= s);
        }
        return ;
    }
    let phys: u64 = space.get_phys_page(page);
    proof {
        let m = space.mode;
        let mask = crate::pte::addr_mask(m);
        assert(((raw & 0xFFFF_F000u64) >> 12) < 0x100000) by (bit_vector);
        assert(((raw & 0x000F_FFFF_FFFF_F000u64) >> 12) < 0x100_0000_0000) by (bit_vector);
    }
    let mut entry = make_entry_wide(phys, writable, true, space.is_pae());
    if !writable {
        entry = entry | FLAG_SOFT_RO;
    }
    if !executable && (raw & FLAG_NO_EXECUTE != 0) {
        entry = entry | FLAG_NO_EXECUTE;
    }
    space.set_raw_entry(page, entry);
    proof {
        assert(entry == finalize_entry(raw, space.mode, writable, executable));
    }
}

/// Build a present entry whose page number may use the full PAE width.
fn make_entry_wide(page: u64, writable: bool, user: bool, pae: bool) -> (r: u64)
    requires
        pae ==> page < 0x100_0000_0000,
        !pae ==> page < 0x100000,
    ensures
        r == fresh_entry(page as int, writable, user),
{
    let w: u64 = if writable {
        2
    } else {
        0
    };
    let u: u64 = if user {
        4
    } else {
        0
    };
    (page << 12) | 1 | w | u
}

/// Run the permission pass of exec: every page of every loadable segment
/// gets its final writability, `SOFT_RO` seal and no-execute bit, and the
/// TLB is flushed.  The entry point comes back.  (Copying the segment bytes
/// into the demand-paged user space is raw memory traffic outside this
/// model; the caller performs it from the parsed segments.)
pub fn load_elf(space: &mut AddressSpace, elf: &Elf) -> (r: u32)
    requires
        old(space).wf(),
    ensures
        final(space).wf(),
        final(space).mode == old(space).mode,
        final(space).nx_enabled == old(space).nx_enabled,
        final(space).root_phys_page == old(space).root_phys_page,
        !final(space).tlb_stale,
        r == elf.header.entry,
        ({
            let segs = segments_spec(
                elf.data@,
                elf.header.phoff as int,
                elf.header.phentsize as int,
                elf.header.phnum as int,
            );
            final(space)@ == apply_segments(old(space)@, segs, old(space).mode, segs.len() as int)
        }),
{
    let segs = elf.segments();
    let ghost seglist = segs@;
    proof {
        lemma_segments_bounded(
            elf.data@,
            elf.header.phoff as int,
            elf.header.phentsize as int,
            elf.header.phnum as int,
        );
    }
    let mut i: usize = 0;
    while i < segs.len()
        invariant
            space.wf(),
            space.mode == old(space).mode,
            space.nx_enabled == old(space).nx_enabled,
            space.root_phys_page == old(space).root_phys_page,
            segs@ == seglist,
            i <= seglist.len(),
            forall|j: int|
                0 <= j < seglist.len() ==> (#[trigger] seglist[j]).vaddr < 0x1_0000_0000
                    && seglist[j].memsz < 0x1_0000_0000,
            space.view() == apply_segments(old(space).view(), seglist, old(space).mode, i as int),
        decreases seglist.len() - i,
    {
        proof {
            lemma_apply_segments_len(old(space).view(), seglist, old(space).mode, i as int);
        }
        let seg = segs[i];
        let start_page = seg.vaddr / PAGE_SIZE;
        let end_byte: u64 = seg.vaddr as u64 + seg.memsz as u64 + (PAGE_SIZE as u64 - 1);
        let end_page_u64: u64 = end_byte / (PAGE_SIZE as u64);
        let writable = seg.is_writable();
        let executable = seg.is_executable();
        let mut page = start_page;
        while (page as u64) < end_page_u64
            invariant
                space.wf(),
                space.mode == old(space).mode,
                space.nx_enabled == old(space).nx_enabled,
                space.root_phys_page == old(space).root_phys_page,
                segs@ == seglist,
                i < seglist.len(),
                seg == seglist[i as int],
                seg.vaddr < 0x1_0000_0000,
                seg.memsz < 0x1_0000_0000,
                apply_segments(old(space).view(), seglist, old(space).mode, i as int).len()
                    == NUM_PAGES,
                start_page == seg_first_page(seg),
                end_page_u64 == seg_end_page(seg),
                writable == (seg.flags & PF_WRITE != 0),
                executable == (seg.flags & PF_EXEC != 0),
                start_page <= page,
                page <= end_page_u64 || page == start_page,
                forall|p: int|
                    0 <= p < NUM_PAGES ==> space.view()[p] == (if seg_first_page(seg) <= p < page
                        && p < NUM_PAGES {
                        finalize_entry(
                            apply_segments(
                                old(space).view(),
                                seglist,
                                old(space).mode,
                                i as int,
                            )[p],
                            old(space).mode,
                            seg.flags & PF_WRITE != 0,
                            seg.flags & PF_EXEC != 0,
                        )
                    } else {
                        apply_segments(old(space).view(), seglist, old(space).mode, i as int)[p]
                    }),
            decreases end_page_u64 - page,
        {
            if page < NUM_PAGES {
                finalize_page_permissions(space, page, writable, executable);
            }
            page = page + 1;
        }
        proof {
            lemma_apply_segments_len(old(space).view(), seglist, old(space).mode, i as int);
            lemma_apply_segments_len(old(space).view(), seglist, old(space).mode, i + 1);
            assert(space.view() =~= apply_segments(
                old(space).view(),
                seglist,
                old(space).mode,
                i + 1,
            ));
        }
        i = i + 1;
    }
    space.flush_tlb();
    elf.entry()
}

/// The bytes of a zero-terminated string at an offset of a string table.
pub open spec fn get_str_spec(data: Seq<u8>, offset: int) -> Seq<u8> {
    if offset >= data.len() || offset < 0 {
        Seq::empty()
    } else {
        data.subrange(offset, first_zero(data, offset))
    }
}

/// Read a zero-terminated string out of a string table.
pub fn get_str(data: &[u8], offset: usize) -> (r: Vec<u8>)
    ensures
        r@ == get_str_spec(data@, offset as int),
{
    let mut out: Vec<u8> = Vec::new();
    if offset >= data.len() {
        return out;
    }
    proof {
        crate::tar::lemma_first_zero_range(data@, offset as int);
    }
    let mut i: usize = offset;
    while i < data.len()
        invariant
            offset <= i <= data@.len(),
            first_zero(data@, offset as int) == first_zero(data@, i as int),
            i - offset == out@.len(),
            forall|j: int| 0 <= j < i - offset ==> out@[j] == data@[offset + j],
            forall|j: int| offset <= j < i ==> data@[j] != 0,
        decreases data@.len() - i,
    {
        if data[i] == 0 {
            proof {
                assert(out@ =~= get_str_spec(data@, offset as int));
            }
            return out;
        }
        out.push(data[i]);
        i = i + 1;
    }
    proof {
        assert(out@ =~= get_str_spec(data@, offset as int));
    }
    out
}

/// One 40-byte section header.
#[derive(Clone, Copy, PartialEq, Eq, Structural, Debug)]
pub struct SectionHeader {
    pub name: u32,
    pub typ: u32,
    pub flags: u32,
    pub addr: u32,
    pub offset: u32,
    pub size: u32,
    pub link: u32,
    pub info: u32,
    pub addralign: u32,
    pub entsize: u32,
}

/// The section header at byte offset `off`.
pub open spec fn sh_spec(d: Seq<u8>, off: int) -> SectionHeader {
    SectionHeader {
        name: u32_at(d, off),
        typ: u32_at(d, off + 4),
        flags: u32_at(d, off + 8),
        addr: u32_at(d, off + 12),
        offset: u32_at(d, off + 16),
        size: u32_at(d, off + 20),
        link: u32_at(d, off + 24),
        info: u32_at(d, off + 28),
        addralign: u32_at(d, off + 32),
        entsize: u32_at(d, off + 36),
    }
}

/// Read the section header at byte offset `off`.
pub fn read_section_header(data: &[u8], off: usize) -> (r: SectionHeader)
    requires
        off + 40 <= data@.len(),
    ensures
        r == sh_spec(data@, off as int),
{
    let dlen = data.len();
    proof {
        assert(off + 40 <= dlen);
    }
    SectionHeader {
        name: read_u32(data, off),
        typ: read_u32(data, off + 4),
        flags: read_u32(data, off + 8),
        addr: read_u32(data, off + 12),
        offset: read_u32(data, off + 16),
        size: read_u32(data, off + 20),
        link: read_u32(data, off + 24),
        info: read_u32(data, off + 28),
        addralign: read_u32(data, off + 32),
        entsize: read_u32(data, off + 36),
    }
}

/// One 32-bit symbol-table entry.
#[derive(Clone, Copy, PartialEq, Eq, Structural, Debug)]
pub struct Sym32 {
    pub name: u32,
    pub value: u32,
    pub size: u32,
    pub info: u8,
    pub other: u8,
    pub shndx: u16,
}

impl Sym32 {
    /// The symbol's type, from the low bits of its info byte.
    pub fn typ(&self) -> (r: u8)
        ensures
            r == self.info & 0xf,
    {
        self.info & 0xf
    }
}

/// The symbol at byte offset `off`.
pub open spec fn sym_spec(d: Seq<u8>, off: int) -> Sym32 {
    Sym32 {
        name: u32_at(d, off),
        value: u32_at(d, off + 4),
        size: u32_at(d, off + 8),
        info: d[off + 12],
        other: d[off + 13],
        shndx: u16_at(d, off + 14),
    }
}

/// The `count` symbols starting at byte offset `off`.
pub open spec fn symbols_spec(d: Seq<u8>, off: int, count: int) -> Seq<Sym32> {
    Seq::new(count as nat, |i: int| sym_spec(d, off + 16 * i))
}

/// The best symbol for an address among the first `n`: a function or untyped
/// symbol with a nonzero name and value, at or below the address, with the
/// greatest value — the first such on ties.  The accumulator is the best
/// value seen.
pub open spec fn best_sym(syms: Seq<Sym32>, addr: u32, n: int) -> (u32, Option<int>)
    decreases n,
{
    if n <= 0 {
        (0u32, None)
    } else {
        let (best, pick) = best_sym(syms, addr, n - 1);
        let s = syms[n - 1];
        if (s.info & 0xf == STT_FUNC || s.info & 0xf == STT_NOTYPE) && s.value != 0 && s.name != 0
            && s.value <= addr && s.value > best {
            (s.value, Some(n - 1))
        } else {
            (best, pick)
        }
    }
}

/// A symbol table lifted out of an image: the symbols and the string table
/// they name into.
pub struct SymbolTable {
    pub symbols: Vec<Sym32>,
    pub strtab: Vec<u8>,
}

impl SymbolTable {
    /// Pull the symbol table out of an image: find the last sections named
    /// `.symtab` and `.strtab` of the right types, and read the symbols and
    /// strings they point at.  `None` when the image has no such pair or any
    /// piece runs past the end.
    pub fn parse(elf_data: &[u8]) -> (r: Option<SymbolTable>)
        ensures
            match r {
                Some(t) => exists|si: int, ti: int|
                    {
                        &&& elf_data@.len() >= 52
                        &&& u32_at(elf_data@, 0) == ELF_MAGIC
                        &&& 0 <= si < u16_at(elf_data@, 48)
                        &&& 0 <= ti < u16_at(elf_data@, 48)
                        &&& #[trigger] sh_typ(elf_data@, si) == SHT_SYMTAB
                        &&& #[trigger] sh_typ(elf_data@, ti) == SHT_STRTAB
                        &&& t.symbols@ == symbols_spec(
                            elf_data@,
                            sh_offset(elf_data@, si) as int,
                            sh_size(elf_data@, si) as int / 16,
                        )
                        &&& t.strtab@ == elf_data@.subrange(
                            sh_offset(elf_data@, ti) as int,
                            sh_offset(elf_data@, ti) + sh_size(elf_data@, ti),
                        )
                    },
                None => true,
            },
    {
        let dlen = elf_data.len();
        if dlen < 52 {
            return None;
        }
        let magic = read_u32(elf_data, 0);
        if magic != ELF_MAGIC {
            return None;
        }
        let shoff = read_u32(elf_data, 32) as usize;
        let shnum = read_u16(elf_data, 48) as usize;
        let shstrndx = read_u16(elf_data, 50) as usize;
        if shoff == 0 || shnum == 0 || shstrndx >= shnum {
            return None;
        }
        if shoff as u64 + (shnum as u64) * 40 > elf_data.len() as u64 {
            return None;
        }
        // The section-name string table.
        let shstr_off = read_u32(elf_data, shoff + 40 * shstrndx + 16) as usize;
        let shstr_size = read_u32(elf_data, shoff + 40 * shstrndx + 20) as usize;
        if shstr_off as u64 + shstr_size as u64 > elf_data.len() as u64 {
            return None;
        }
        let mut symtab: Option<usize> = None;
        let mut strtab: Option<usize> = None;
        let mut i: usize = 0;
        while i < shnum
            invariant
                elf_data@.len() >= 52,
                u32_at(elf_data@, 0) == ELF_MAGIC,
                shoff == u32_at(elf_data@, 32),
                shnum == u16_at(elf_data@, 48),
                shnum <= 0xFFFF,
                dlen == elf_data@.len(),
                shoff + shnum * 40 <= elf_data@.len(),
                shstr_off + shstr_size <= elf_data@.len(),
                i <= shnum,
                match symtab {
                    Some(s) => 0 <= s < i && sh_typ(elf_data@, s as int) == SHT_SYMTAB,
                    None => true,
                },
                match strtab {
                    Some(s) => 0 <= s < i && sh_typ(elf_data@, s as int) == SHT_STRTAB,
                    None => true,
                },
            decreases shnum - i,
        {
            let sh_base = shoff + 40 * i;
            let name_offset = read_u32(elf_data, sh_base) as usize;
            let typ = read_u32(elf_data, sh_base + 4);
            proof {
                assert(typ == sh_typ(elf_data@, i as int));
            }
            if name_offset < shstr_size {
                let name = get_str(elf_data, shstr_off + name_offset);
                if is_symtab_name(name.as_slice()) && typ == SHT_SYMTAB {
                    symtab = Some(i);
                } else if is_strtab_name(name.as_slice()) && typ == SHT_STRTAB {
                    strtab = Some(i);
                }
            }
            i = i + 1;
        }
        let si = match symtab {
            Some(s) => s,
            None => {
                return None;
            },
        };
        let ti = match strtab {
            Some(s) => s,
            None => {
                return None;
            },
        };
        let sym_off = read_u32(elf_data, shoff + 40 * si + 16) as usize;
        let sym_size = read_u32(elf_data, shoff + 40 * si + 20) as usize;
        let sym_count = sym_size / 16;
        proof {
            assert(16 * (sym_size as int / 16) <= sym_size);
        }
        if sym_off as u64 + sym_size as u64 > elf_data.len() as u64 {
            return None;
        }
        let str_off = read_u32(elf_data, shoff + 40 * ti + 16) as usize;
        let str_size = read_u32(elf_data, shoff + 40 * ti + 20) as usize;
        if str_off as u64 + str_size as u64 > elf_data.len() as u64 {
            return None;
        }
        let mut symbols: Vec<Sym32> = Vec::new();
        let mut k: usize = 0;
        while k < sym_count
            invariant
                elf_data@.len() >= 52,
                dlen == elf_data@.len(),
                sym_count == sym_size / 16,
                sym_off + sym_size <= elf_data@.len(),
                16 * sym_count <= sym_size,
                k == symbols@.len() <= sym_count,
                forall|j: int|
                    0 <= j < k ==> symbols@[j] == sym_spec(elf_data@, sym_off + 16 * j),
            decreases sym_count - k,
        {
            let base = sym_off + 16 * k;
            let s = Sym32 {
                name: read_u32(elf_data, base),
                value: read_u32(elf_data, base + 4),
                size: read_u32(elf_data, base + 8),
                info: elf_data[base + 12],
                other: elf_data[base + 13],
                shndx: read_u16(elf_data, base + 14),
            };
            symbols.push(s);
            k = k + 1;
        }
        let mut strtab_bytes: Vec<u8> = Vec::new();
        let mut m: usize = 0;
        while m < str_size
            invariant
                str_off + str_size <= elf_data@.len(),
                dlen == elf_data@.len(),
                m == strtab_bytes@.len() <= str_size,
                forall|j: int| 0 <= j < m ==> strtab_bytes@[j] == elf_data@[str_off + j],
            decreases str_size - m,
        {
            strtab_bytes.push(elf_data[str_off + m]);
            m = m + 1;
        }
        proof {
            assert(symbols@ =~= symbols_spec(elf_data@, sym_off as int, sym_size as int / 16));
            assert(strtab_bytes@ =~= elf_data@.subrange(
                str_off as int,
                str_off + sh_size(elf_data@, ti as int),
            ));
        }
        Some(SymbolTable { symbols, strtab: strtab_bytes })
    }

    /// The symbols.
    pub fn symbols(&self) -> (r: &Vec<Sym32>)
        ensures
            r@ == self.symbols@,
    {
        &self.symbols
    }

    /// The string table.
    pub fn strtab(&self) -> (r: &Vec<u8>)
        ensures
            r@ == self.strtab@,
    {
        &self.strtab
    }

    /// A symbol's name bytes.
    pub fn symbol_name(&self, sym: &Sym32) -> (r: Vec<u8>)
        ensures
            r@ == get_str_spec(self.strtab@, sym.name as int),
    {
        get_str(self.strtab.as_slice(), sym.name as usize)
    }

    /// The symbol containing an address, with the offset into it; an empty
    /// name and zero offset when no symbol is at or below the address.
    pub fn lookup(&self, addr: u32) -> (r: (Vec<u8>, u32))
        ensures
            ({
                let (best, pick) = best_sym(self.symbols@, addr, self.symbols@.len() as int);
                match pick {
                    Some(i) => r.0@ == get_str_spec(self.strtab@, self.symbols@[i].name as int)
                        && r.1 == addr - self.symbols@[i].value,
                    None => r.0@ == Seq::<u8>::empty() && r.1 == 0,
                }
            }),
    {
        let mut best_addr: u32 = 0;
        let mut best_idx: Option<usize> = None;
        let mut i: usize = 0;
        while i < self.symbols.len()
            invariant
                i <= self.symbols@.len(),
                best_addr <= addr,
                ({
                    let (best, pick) = best_sym(self.symbols@, addr, i as int);
                    &&& best == best_addr
                    &&& (match pick {
                        Some(t) => best_idx == Some(t as usize) && 0 <= t < i
                            && self.symbols@[t].value == best_addr,
                        None => best_idx is None,
                    })
                }),
            decreases self.symbols@.len() - i,
        {
            let s = self.symbols[i];
            let typ = s.info & 0xf;
            if (typ == STT_FUNC || typ == STT_NOTYPE) && s.value != 0 && s.name != 0 && s.value
                <= addr && s.value > best_addr {
                best_addr = s.value;
                best_idx = Some(i);
            }
            i = i + 1;
        }
        match best_idx {
            Some(i) => {
                let s = self.symbols[i];
                let name = get_str(self.strtab.as_slice(), s.name as usize);
                (name, addr - s.value)
            },
            None => (Vec::new(), 0),
        }
    }
}

/// A section's type field.
pub open spec fn sh_typ(d: Seq<u8>, i: int) -> u32 {
    u32_at(d, u32_at(d, 32) + 40 * i + 4)
}

/// A section's file offset.
pub open spec fn sh_offset(d: Seq<u8>, i: int) -> u32 {
    u32_at(d, u32_at(d, 32) + 40 * i + 16)
}

/// A section's size.
pub open spec fn sh_size(d: Seq<u8>, i: int) -> u32 {
    u32_at(d, u32_at(d, 32) + 40 * i + 20)
}

/// The bytes of the name `.symtab`.
pub open spec fn symtab_name() -> Seq<u8> {
    seq![46u8, 115u8, 121u8, 109u8, 116u8, 97u8, 98u8]
}

/// The bytes of the name `.strtab`.
pub open spec fn strtab_name() -> Seq<u8> {
    seq![46u8, 115u8, 116u8, 114u8, 116u8, 97u8, 98u8]
}

/// Is this the section name `.symtab`?
fn is_symtab_name(s: &[u8]) -> (r: bool)
    ensures
        r == (s@ == symtab_name()),
{
    let r = s.len() == 7 && s[0] == 46 && s[1] == 115 && s[2] == 121 && s[3] == 109 && s[4] == 116
        && s[5] == 97 && s[6] == 98;
    proof {
        if r {
            assert(s@ =~= symtab_name());
        }
    }
    r
}

/// Is this the section name `.strtab`?
fn is_strtab_name(s: &[u8]) -> (r: bool)
    ensures
        r == (s@ == strtab_name()),
{
    let r = s.len() == 7 && s[0] == 46 && s[1] == 115 && s[2] == 116 && s[3] == 114 && s[4] == 116
        && s[5] == 97 && s[6] == 98;
    proof {
        if r {
            assert(s@ =~= strtab_name());
        }
    }
    r
}

} // verus!
