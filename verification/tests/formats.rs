//! MD5 vectors, archive reading, ELF parsing and symbol lookup on concrete
//! data built by hand.

use retro_kernel::elf::{Elf, ElfError, SymbolTable, Segment, get_str, read_u16, read_u32};
use retro_kernel::md5::compute;
use retro_kernel::symbols::SymbolData;
use retro_kernel::tar::{parse_octal, strlen, TarHeader, TarReader};

fn hex(s: &str) -> Vec<u8> {
    let digit = |c: u8| -> u8 {
        if c.is_ascii_digit() {
            c - b'0'
        } else {
            c - b'a' + 10
        }
    };
    let b = s.as_bytes();
    let mut out = Vec::new();
    let mut i = 0;
    while i + 1 < b.len() {
        out.push(digit(b[i]) * 16 + digit(b[i + 1]));
        i += 2;
    }
    out
}

#[test]
fn md5_standard_vectors() {
    assert_eq!(compute(b""), hex("d41d8cd98f00b204e9800998ecf8427e"));
    assert_eq!(compute(b"a"), hex("0cc175b9c0f1b6a831c399e269772661"));
    assert_eq!(compute(b"abc"), hex("900150983cd24fb0d6963f7d28e17f72"));
    assert_eq!(compute(b"message digest"), hex("f96b697d7cb7938d525a2f31aaf161d0"));
}

#[test]
fn md5_crosses_block_boundaries() {
    // 55 bytes fits the length in the first block; 56 forces a second.
    let m55: Vec<u8> = std::iter::repeat(b'x').take(55).collect();
    let m56: Vec<u8> = std::iter::repeat(b'x').take(56).collect();
    let m64: Vec<u8> = std::iter::repeat(b'x').take(64).collect();
    assert_eq!(compute(&m55).len(), 16);
    assert_ne!(compute(&m55), compute(&m56));
    assert_ne!(compute(&m56), compute(&m64));
}

#[test]
fn octal_and_strlen() {
    assert_eq!(parse_octal(b"0000644\x00"), 0o644);
    assert_eq!(parse_octal(b"777"), 0o777);
    assert_eq!(parse_octal(b"12x8"), 0o12);
    assert_eq!(parse_octal(b""), 0);
    assert_eq!(strlen(b"abc\x00def"), 3);
    assert_eq!(strlen(b"abc"), 3);
    assert_eq!(strlen(b"\x00"), 0);
}

fn tar_entry(archive: &mut Vec<u8>, name: &[u8], data: &[u8]) {
    let mut header = vec![0u8; 512];
    header[..name.len()].copy_from_slice(name);
    // The size field: eleven octal digits and a terminator.
    let mut size = data.len();
    for slot in 0..11 {
        header[124 + 10 - slot] = b'0' + ((size % 8) as u8);
        size /= 8;
    }
    header[135] = 0;
    header[156] = b'0';
    archive.extend_from_slice(&header);
    archive.extend_from_slice(data);
    let pad = (512 - data.len() % 512) % 512;
    archive.extend_from_slice(&vec![0u8; pad]);
}

fn sample_archive() -> Vec<u8> {
    let mut archive = Vec::new();
    tar_entry(&mut archive, b"kernel.elf.md5", &[7u8; 16]);
    tar_entry(&mut archive, b"init.elf", b"hello program bytes");
    // End of archive, then an unreachable entry.
    archive.extend_from_slice(&vec![0u8; 512]);
    tar_entry(&mut archive, b"ghost.bin", b"never seen");
    archive
}

#[test]
fn tar_header_fields() {
    let archive = sample_archive();
    let header = TarHeader::from_block(&archive[..512]);
    assert!(!header.is_end());
    assert_eq!(header.filename(), b"kernel.elf.md5");
    assert_eq!(header.filesize(), 16);
    assert_eq!(header.data_blocks(), 1);
    let end_header = TarHeader::from_block(&archive[512 * 4..512 * 5]);
    assert!(end_header.is_end());
}

#[test]
fn tar_finds_files_by_exact_name() {
    let mut fs = TarReader::init_fs(sample_archive());
    assert_eq!(fs.find_file(b"init.elf"), Some(19));
    let bytes = fs.read_file(19);
    assert_eq!(bytes, b"hello program bytes");
    assert_eq!(fs.find_file(b"kernel.elf.md5"), Some(16));
    assert_eq!(fs.read_file(16), vec![7u8; 16]);
    // Prefixes and other names do not match.
    assert_eq!(fs.find_file(b"init"), None);
    assert_eq!(fs.find_file(b"missing"), None);
}

#[test]
fn tar_scan_stops_at_end_marker() {
    let mut fs = TarReader::init_fs(sample_archive());
    // The entry after the end marker is never reached.
    assert_eq!(fs.find_file(b"ghost.bin"), None);
}

fn push_u32(v: &mut Vec<u8>, x: u32) {
    v.extend_from_slice(&x.to_le_bytes());
}

fn push_u16(v: &mut Vec<u8>, x: u16) {
    v.extend_from_slice(&x.to_le_bytes());
}

/// A minimal 32-bit x86 executable image: one loadable segment, a symbol
/// table with one function, and the three sections that carry it.
fn sample_elf() -> Vec<u8> {
    let mut d = Vec::new();
    // ELF header.
    push_u32(&mut d, 0x464C_457F);
    d.push(1); // 32-bit
    d.push(1); // little-endian
    d.extend_from_slice(&[0u8; 10]);
    push_u16(&mut d, 2); // executable
    push_u16(&mut d, 3); // x86
    push_u32(&mut d, 1); // version
    push_u32(&mut d, 0x1000); // entry
    push_u32(&mut d, 52); // phoff
    push_u32(&mut d, 84); // shoff
    push_u32(&mut d, 0); // flags
    push_u16(&mut d, 52);
    push_u16(&mut d, 32); // phentsize
    push_u16(&mut d, 1); // phnum
    push_u16(&mut d, 40); // shentsize
    push_u16(&mut d, 3); // shnum
    push_u16(&mut d, 2); // shstrndx
    assert_eq!(d.len(), 52);
    // One loadable program header: 8 bytes of data at 0x1000.
    push_u32(&mut d, 1); // PT_LOAD
    push_u32(&mut d, 204); // file offset of the segment bytes
    push_u32(&mut d, 0x1000); // vaddr
    push_u32(&mut d, 0x1000);
    push_u32(&mut d, 8); // filesz
    push_u32(&mut d, 16); // memsz
    push_u32(&mut d, 5); // read + execute
    push_u32(&mut d, 0x1000);
    assert_eq!(d.len(), 84);
    // Section 0: .symtab -> two 16-byte symbols at offset 212.
    push_u32(&mut d, 1); // name ".symtab"
    push_u32(&mut d, 2); // SHT_SYMTAB
    push_u32(&mut d, 0);
    push_u32(&mut d, 0);
    push_u32(&mut d, 212); // offset
    push_u32(&mut d, 32); // size
    push_u32(&mut d, 0);
    push_u32(&mut d, 0);
    push_u32(&mut d, 0);
    push_u32(&mut d, 0);
    // Section 1: .strtab at offset 244.
    push_u32(&mut d, 9); // name ".strtab"
    push_u32(&mut d, 3); // SHT_STRTAB
    push_u32(&mut d, 0);
    push_u32(&mut d, 0);
    push_u32(&mut d, 244);
    push_u32(&mut d, 11);
    push_u32(&mut d, 0);
    push_u32(&mut d, 0);
    push_u32(&mut d, 0);
    push_u32(&mut d, 0);
    // Section 2: the section-name table itself at offset 186.
    push_u32(&mut d, 0);
    push_u32(&mut d, 3);
    push_u32(&mut d, 0);
    push_u32(&mut d, 0);
    push_u32(&mut d, 186);
    push_u32(&mut d, 18);
    push_u32(&mut d, 0);
    push_u32(&mut d, 0);
    push_u32(&mut d, 0);
    push_u32(&mut d, 0);
    assert_eq!(d.len(), 204);
    // Segment bytes.
    d.extend_from_slice(&[0x90, 0x90, 0x90, 0xC3, 0, 0, 0, 0]);
    assert_eq!(d.len(), 212);
    // Hold the section-name bytes where section 2 points: they overlap the
    // symbol table region in this tiny image, so lay symtab first.
    // Symbol 0: null.
    d.extend_from_slice(&[0u8; 16]);
    // Symbol 1: name 1, value 0x1000, function.
    push_u32(&mut d, 1);
    push_u32(&mut d, 0x1000);
    push_u32(&mut d, 0);
    d.push(2); // STT_FUNC
    d.push(0);
    push_u16(&mut d, 0);
    assert_eq!(d.len(), 244);
    // String table: "\0_ZN4testE\0"
    d.push(0);
    d.extend_from_slice(b"_ZN4testE");
    d.push(0);
    assert_eq!(d.len(), 255);
    d
}

/// Finish the image: place the section-name table at the end and point
/// section 2 at it.
fn sample_elf_with_shstrtab() -> Vec<u8> {
    let mut d = sample_elf();
    let off = d.len() as u32;
    d.extend_from_slice(b"\x00.symtab\x00.strtab\x00");
    d.push(0);
    // Patch section 2's offset field, at shoff plus two section headers
    // plus the offset field's position.
    let pos = 84 + 80 + 16;
    d[pos..pos + 4].copy_from_slice(&off.to_le_bytes());
    d
}

#[test]
fn elf_header_and_segments() {
    let image = sample_elf_with_shstrtab();
    let elf = Elf::parse(&image).unwrap();
    assert_eq!(elf.entry(), 0x1000);
    let segs = elf.segments();
    assert_eq!(segs.len(), 1);
    let seg: Segment = segs[0];
    assert_eq!(seg.vaddr, 0x1000);
    assert_eq!(seg.memsz, 16);
    assert!(seg.is_executable());
    assert!(!seg.is_writable());
    assert_eq!(seg.data, Some((204, 8)));
    assert_eq!(read_u32(&image, 0), 0x464C_457F);
    assert_eq!(read_u16(&image, 16), 2);
}

fn parse_err(image: &[u8]) -> ElfError {
    match Elf::parse(image) {
        Err(e) => e,
        Ok(_) => panic!("the image must be rejected"),
    }
}

#[test]
fn elf_parse_rejects_bad_images() {
    assert_eq!(parse_err(b"short"), ElfError::InvalidMagic);
    let mut image = sample_elf_with_shstrtab();
    image[4] = 2;
    assert_eq!(parse_err(&image), ElfError::InvalidClass);
    let mut image = sample_elf_with_shstrtab();
    image[5] = 2;
    assert_eq!(parse_err(&image), ElfError::InvalidEndian);
    let mut image = sample_elf_with_shstrtab();
    image[16] = 1;
    assert_eq!(parse_err(&image), ElfError::InvalidType);
    let mut image = sample_elf_with_shstrtab();
    image[18] = 4;
    assert_eq!(parse_err(&image), ElfError::InvalidMachine);
}

#[test]
fn symbol_table_lookup() {
    let image = sample_elf_with_shstrtab();
    let table = SymbolTable::parse(&image).unwrap();
    assert_eq!(table.symbols().len(), 2);
    let (name, offset) = table.lookup(0x1005);
    assert_eq!(name, b"_ZN4testE");
    assert_eq!(offset, 5);
    // Below every symbol: nothing.
    let (none_name, none_off) = table.lookup(0x0FFF);
    assert_eq!(none_name, b"");
    assert_eq!(none_off, 0);
    assert_eq!(get_str(table.strtab().as_slice(), 1), b"_ZN4testE");
}

#[test]
fn symbols_demangle_for_display() {
    let image = sample_elf_with_shstrtab();
    let data = SymbolData::new(image).unwrap();
    assert_eq!(data.symbol_count(), (2, 1));
    let (raw, off) = data.lookup(0x1002);
    assert_eq!(raw, b"_ZN4testE");
    assert_eq!(off, 2);
    // The demangler rewrites the name; handing it back unchanged would fail.
    let (pretty, off2) = data.lookup_demangled(0x1002).unwrap();
    assert_eq!(pretty, "test");
    assert_eq!(off2, 2);
    assert_eq!(data.lookup_demangled(0x0FFF), None);
}
