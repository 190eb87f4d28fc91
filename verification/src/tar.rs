//! USTAR archive reading: the kernel's read-only filesystem.
//!
//! An archive is a run of 512-byte blocks.  Each file starts with a header
//! block carrying its name, its octal-encoded size and a type flag; the data
//! follows, padded to a block boundary.  A header whose first name byte is
//! zero ends the archive.

use vstd::prelude::*;

verus! {

use vstd::wrapping::u64_specs;

/// Size of one archive block.
pub const BLOCK_SIZE: usize = 512;

/// An octal digit.
pub open spec fn is_octal_digit(c: u8) -> bool {
    0x30 <= c <= 0x37
}

/// Left-to-right octal accumulation, stopping at the first byte that is not
/// an octal digit, with 64-bit wrap-around.
pub open spec fn parse_octal_rec(s: Seq<u8>, acc: u64, i: int) -> u64
    decreases s.len() - i,
{
    if i < 0 || i >= s.len() || !is_octal_digit(s[i]) {
        acc
    } else {
        parse_octal_rec(
            s,
            u64_specs::wrapping_add(u64_specs::wrapping_mul(acc, 8), (s[i] - 0x30) as u64),
            i + 1,
        )
    }
}

/// Parse an octal number from a header field.
pub fn parse_octal(buf: &[u8]) -> (r: u64)
    ensures
        r == parse_octal_rec(buf@, 0, 0),
{
    let mut result: u64 = 0;
    let mut i: usize = 0;
    while i < buf.len()
        invariant
            i <= buf@.len(),
            parse_octal_rec(buf@, 0, 0) == parse_octal_rec(buf@, result, i as int),
        decreases buf@.len() - i,
    {
        let c = buf[i];
        if c < 0x30 || c > 0x37 {
            return result;
        }
        result = result.wrapping_mul(8).wrapping_add((c - 0x30) as u64);
        i = i + 1;
    }
    result
}

/// Index of the first zero byte at or after `i`, or the length.
pub open spec fn first_zero(s: Seq<u8>, i: int) -> int
    decreases s.len() - i,
{
    if i < 0 || i >= s.len() {
        s.len() as int
    } else if s[i] == 0 {
        i
    } else {
        first_zero(s, i + 1)
    }
}

/// The first zero lies between the start position and the length.
pub proof fn lemma_first_zero_range(s: Seq<u8>, i: int)
    requires
        0 <= i <= s.len(),
    ensures
        i <= first_zero(s, i) <= s.len(),
    decreases s.len() - i,
{
    if i < s.len() && s[i] != 0 {
        lemma_first_zero_range(s, i + 1);
    }
}

/// Length of the zero-terminated string at the start of a buffer.
pub fn strlen(buf: &[u8]) -> (r: usize)
    ensures
        r == first_zero(buf@, 0),
{
    let mut i: usize = 0;
    while i < buf.len()
        invariant
            i <= buf@.len(),
            first_zero(buf@, 0) == first_zero(buf@, i as int),
        decreases buf@.len() - i,
    {
        if buf[i] == 0 {
            return i;
        }
        i = i + 1;
    }
    i
}

/// The fields of a header block that the kernel consumes.
pub struct TarHeader {
    /// The name field: 100 bytes, zero-terminated.
    pub filename: Vec<u8>,
    /// The size field: 12 bytes of octal.
    pub filesize: Vec<u8>,
    /// The entry's type flag.
    pub typeflag: u8,
}

/// The zero-terminated name within a header block.
pub open spec fn tar_name(block: Seq<u8>) -> Seq<u8> {
    let nm = block.subrange(0, 100);
    nm.subrange(0, first_zero(nm, 0))
}

/// The size recorded in a header block, as the kernel reads it.
pub open spec fn tar_size(block: Seq<u8>) -> int {
    (parse_octal_rec(block.subrange(124, 136), 0, 0) as usize) as int
}

/// Data blocks that follow a header.
pub open spec fn tar_data_blocks(block: Seq<u8>) -> int {
    (tar_size(block) + 511) / 512
}

impl TarHeader {
    pub open spec fn wf(self) -> bool {
        self.filename@.len() == 100 && self.filesize@.len() == 12
    }

    /// Read the consumed fields out of a 512-byte header block.
    pub fn from_block(block: &[u8]) -> (r: TarHeader)
        requires
            block@.len() == BLOCK_SIZE,
        ensures
            r.wf(),
            r.filename@ == block@.subrange(0, 100),
            r.filesize@ == block@.subrange(124, 136),
            r.typeflag == block@[156],
    {
        let mut filename: Vec<u8> = Vec::new();
        let mut i: usize = 0;
        while i < 100
            invariant
                block@.len() == BLOCK_SIZE,
                i == filename@.len() <= 100,
                forall|j: int| 0 <= j < i ==> filename@[j] == block@[j],
            decreases 100 - i,
        {
            filename.push(block[i]);
            i = i + 1;
        }
        let mut filesize: Vec<u8> = Vec::new();
        let mut k: usize = 124;
        while k < 136
            invariant
                block@.len() == BLOCK_SIZE,
                124 <= k <= 136,
                filesize@.len() == k - 124,
                forall|j: int| 0 <= j < k - 124 ==> filesize@[j] == block@[124 + j],
            decreases 136 - k,
        {
            filesize.push(block[k]);
            k = k + 1;
        }
        let typeflag = block[156];
        proof {
            assert(filename@ =~= block@.subrange(0, 100));
            assert(filesize@ =~= block@.subrange(124, 136));
        }
        TarHeader { filename, filesize, typeflag }
    }

    /// End of archive: the name starts with a zero byte.
    pub fn is_end(&self) -> (r: bool)
        requires
            self.wf(),
        ensures
            r == (self.filename@[0] == 0),
    {
        self.filename[0] == 0
    }

    /// The name, cut at its zero terminator.
    pub fn filename(&self) -> (r: Vec<u8>)
        requires
            self.wf(),
        ensures
            r@ == self.filename@.subrange(0, first_zero(self.filename@, 0)),
    {
        let len = strlen(self.filename.as_slice());
        proof {
            lemma_first_zero_range(self.filename@, 0);
        }
        let mut out: Vec<u8> = Vec::new();
        let mut i: usize = 0;
        while i < len
            invariant
                len <= self.filename@.len(),
                i == out@.len() <= len,
                forall|j: int| 0 <= j < i ==> out@[j] == self.filename@[j],
            decreases len - i,
        {
            out.push(self.filename[i]);
            i = i + 1;
        }
        proof {
            assert(out@ =~= self.filename@.subrange(0, first_zero(self.filename@, 0)));
        }
        out
    }

    /// The file size from the octal field.
    pub fn filesize(&self) -> (r: usize)
        requires
            self.wf(),
        ensures
            r == (parse_octal_rec(self.filesize@, 0, 0) as usize),
    {
        parse_octal(self.filesize.as_slice()) as usize
    }

    /// Number of 512-byte blocks holding the file's data.
    pub fn data_blocks(&self) -> (r: u64)
        requires
            self.wf(),
        ensures
            r == (parse_octal_rec(self.filesize@, 0, 0) as usize as int + 511) / 512,
    {
        let size = self.filesize();
        let full: u64 = size as u64 / 512;
        let r: u64 = if size as u64 % 512 != 0 {
            full + 1
        } else {
            full
        };
        proof {
            let x = size as int;
            assert((x + 511) / 512 == x / 512 + (if x % 512 != 0 {
                1int
            } else {
                0int
            })) by (nonlinear_arith)
                requires
                    x >= 0,
            ;
        }
        r
    }
}

/// What the sequential scan finds from header block `b` on: `Some` holds the
/// first data block and the recorded size of the first entry whose name is
/// exactly `name`; `None` means the archive ends — by its end marker or its
/// edge — without such an entry.
pub open spec fn find_in_tar(a: Seq<u8>, name: Seq<u8>, b: int) -> Option<(int, int)>
    decreases a.len() as int / 512 - b,
{
    let total = a.len() as int / 512;
    if b < 0 || b + 1 > total {
        None
    } else if a[512 * b] == 0 {
        None
    } else if tar_name(a.subrange(512 * b, 512 * b + 512)) == name {
        Some((b + 1, tar_size(a.subrange(512 * b, 512 * b + 512))))
    } else {
        let next = b + 1 + tar_data_blocks(a.subrange(512 * b, 512 * b + 512));
        find_in_tar(a, name, if next > total {
            total
        } else {
            next
        })
    }
}

/// A found entry's data position and recorded size are plain in-range
/// values: the position lies inside the archive and the size fits a machine
/// word.
pub proof fn lemma_find_in_tar_range(a: Seq<u8>, name: Seq<u8>, b: int)
    ensures
        match find_in_tar(a, name, b) {
            Some(pos_size) => 0 < pos_size.0 && pos_size.0 <= a.len() as int / 512 && 0
                <= pos_size.1 <= usize::MAX,
            None => true,
        },
    decreases a.len() as int / 512 - b,
{
    let total = a.len() as int / 512;
    if b < 0 || b + 1 > total {
    } else if a[512 * b] == 0 {
    } else if tar_name(a.subrange(512 * b, 512 * b + 512)) == name {
    } else {
        let next = b + 1 + tar_data_blocks(a.subrange(512 * b, 512 * b + 512));
        lemma_find_in_tar_range(a, name, if next > total {
            total
        } else {
            next
        });
    }
}

/// Byte-for-byte equality of two buffers.
pub fn bytes_eq(a: &[u8], b: &[u8]) -> (r: bool)
    ensures
        r == (a@ == b@),
{
    if a.len() != b.len() {
        proof {
            assert(a@ != b@);
        }
        return false;
    }
    let mut i: usize = 0;
    while i < a.len()
        invariant
            a@.len() == b@.len(),
            i <= a@.len(),
            forall|j: int| 0 <= j < i ==> a@[j] == b@[j],
        decreases a@.len() - i,
    {
        if a[i] != b[i] {
            proof {
                assert(a@ != b@);
            }
            return false;
        }
        i = i + 1;
    }
    proof {
        assert(a@ =~= b@);
    }
    true
}

/// The archive as the kernel sees it once the bootloader has left it in low
/// memory, with the sequential read position.
pub struct TarReader {
    pub archive: Vec<u8>,
    pub current_block: usize,
}

impl TarReader {
    /// Start reading an in-memory archive from its first block.
    pub fn init_fs(archive: Vec<u8>) -> (r: TarReader)
        ensures
            r.archive@ == archive@,
            r.current_block == 0,
    {
        TarReader { archive, current_block: 0 }
    }

    /// Scan the archive for a file by exact name.  Returns its recorded size
    /// and leaves the reader positioned on its first data block; returns
    /// `None` — with the position unspecified — exactly when the scan reaches
    /// the end marker or the archive's edge first.
    pub fn find_file(&mut self, filename: &[u8]) -> (r: Option<usize>)
        ensures
            final(self).archive@ == old(self).archive@,
            match find_in_tar(old(self).archive@, filename@, 0) {
                Some(pos_size) => {
                    &&& r == Some(pos_size.1 as usize)
                    &&& final(self).current_block == pos_size.0
                },
                None => r == None::<usize>,
            },
    {
        let alen = self.archive.len();
        let total = alen / BLOCK_SIZE;
        let mut b: usize = 0;
        self.current_block = 0;
        while b < total
            invariant
                self.archive@ == old(self).archive@,
                self.archive@.len() <= usize::MAX,
                total == self.archive@.len() as int / 512,
                b <= total,
                find_in_tar(self.archive@, filename@, 0) == find_in_tar(
                    self.archive@,
                    filename@,
                    b as int,
                ),
            decreases total - b,
        {
            proof {
                assert(512 * (b + 1) <= self.archive@.len()) by (nonlinear_arith)
                    requires
                        b + 1 <= total,
                        total == self.archive@.len() as int / 512,
            ;
            }
            let mut block: Vec<u8> = Vec::new();
            let mut j: usize = 0;
            while j < BLOCK_SIZE
                invariant
                    self.archive@.len() >= 512 * (b + 1),
                    self.archive@.len() <= usize::MAX,
                    b < usize::MAX,
                    j == block@.len() <= BLOCK_SIZE,
                    forall|t: int| 0 <= t < j ==> block@[t] == self.archive@[512 * b + t],
                decreases BLOCK_SIZE - j,
            {
                block.push(self.archive[BLOCK_SIZE * b + j]);
                j = j + 1;
            }
            proof {
                assert(block@ =~= self.archive@.subrange(512 * b as int, 512 * b as int + 512));
            }
            let header = TarHeader::from_block(block.as_slice());
            if header.is_end() {
                proof {
                    assert(block@[0] == self.archive@[512 * b as int]);
                }
                return None;
            }
            let size = header.filesize();
            let blocks = header.data_blocks();
            let name = header.filename();
            proof {
                assert(header.filename@ =~= block@.subrange(0, 100));
                assert(name@ == tar_name(block@));
                assert(header.filesize@ =~= block@.subrange(124, 136));
            }
            if bytes_eq(name.as_slice(), filename) {
                self.current_block = b + 1;
                return Some(size);
            }
            // Skip the data and move to the next header.
            proof {
                assert(blocks == tar_data_blocks(block@));
                assert(blocks <= (usize::MAX as u64 + 511) / 512);
                assert(b + 1 + blocks <= usize::MAX) by (nonlinear_arith)
                    requires
                        b + 1 <= total,
                        total == self.archive@.len() as int / 512,
                        self.archive@.len() <= usize::MAX,
                        blocks <= (usize::MAX as u64 + 511) / 512,
                ;
            }
            let next: usize = b + 1 + blocks as usize;
            let stepped: usize = if next > total {
                total
            } else {
                next
            };
            proof {
                assert(find_in_tar(self.archive@, filename@, b as int) == find_in_tar(
                    self.archive@,
                    filename@,
                    stepped as int,
                ));
            }
            b = stepped;
        }
        None
    }

    /// Read a file's bytes from the current position, advancing past its
    /// padded blocks.
    pub fn read_file(&mut self, size: usize) -> (r: Vec<u8>)
        requires
            old(self).current_block * 512 + size <= old(self).archive@.len(),
        ensures
            final(self).archive@ == old(self).archive@,
            r@ == old(self).archive@.subrange(
                old(self).current_block * 512,
                old(self).current_block * 512 + size,
            ),
            r@.len() == size,
            final(self).current_block == old(self).current_block + (size + 511) / 512 as int,
    {
        let alen = self.archive.len();
        let start = self.current_block * 512;
        let mut out: Vec<u8> = Vec::new();
        let mut i: usize = 0;
        while i < size
            invariant
                self.archive@ == old(self).archive@,
                self.current_block == old(self).current_block,
                start == old(self).current_block * 512,
                start + size <= self.archive@.len(),
                self.archive@.len() <= usize::MAX,
                i == out@.len() <= size,
                forall|j: int| 0 <= j < i ==> out@[j] == self.archive@[start + j],
            decreases size - i,
        {
            out.push(self.archive[start + i]);
            i = i + 1;
        }
        proof {
            assert(out@ =~= self.archive@.subrange(start as int, start as int + size));
        }
        let blocks = size / 512 + (if size % 512 != 0 {
            1
        } else {
            0
        });
        proof {
            let x = size as int;
            assert((x + 511) / 512 == x / 512 + (if x % 512 != 0 {
                1int
            } else {
                0int
            })) by (nonlinear_arith)
                requires
                    x >= 0,
            ;
            assert(self.current_block + blocks <= usize::MAX) by (nonlinear_arith)
                requires
                    self.current_block * 512 + size <= self.archive@.len(),
                    self.archive@.len() <= usize::MAX,
                    blocks <= size / 512 + 1,
                    size <= usize::MAX,
                    self.current_block >= 0,
                    size >= 0,
                    blocks >= 0,
            ;
        }
        self.current_block = self.current_block + blocks;
        out
    }
}

} // verus!
