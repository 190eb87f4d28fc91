//! MD5, used by the boot path to check the kernel image before jumping to it.
//!
//! The specification functions below state the algorithm over mathematical
//! sequences; the executable code is proved to compute exactly that digest.

use vstd::prelude::*;

verus! {

use vstd::wrapping::u32_specs;

/// A 32-bit word read little-endian from four bytes.
pub open spec fn u32_from_le_bytes(b0: u8, b1: u8, b2: u8, b3: u8) -> u32 {
    (b0 as u32) | ((b1 as u32) << 8) | ((b2 as u32) << 16) | ((b3 as u32) << 24)
}

/// The sixteen message words of one 64-byte block.
pub open spec fn block_words(bytes: Seq<u8>) -> Seq<u32> {
    Seq::new(
        16,
        |i: int| u32_from_le_bytes(bytes[4 * i], bytes[4 * i + 1], bytes[4 * i + 2], bytes[4 * i
            + 3]),
    )
}

/// Rotate a 32-bit word left by `c` bits.
pub open spec fn rotl32(x: u32, c: u32) -> u32
    recommends
        0 < c < 32,
{
    (x << c) | (x >> ((32 - c) as u32))
}

/// Per-round left-rotation amounts.
pub open spec fn md5_s(i: int) -> u32 {
    let j = i % 4;
    if i < 16 {
        if j == 0 {
            7
        } else if j == 1 {
            12
        } else if j == 2 {
            17
        } else {
            22
        }
    } else if i < 32 {
        if j == 0 {
            5
        } else if j == 1 {
            9
        } else if j == 2 {
            14
        } else {
            20
        }
    } else if i < 48 {
        if j == 0 {
            4
        } else if j == 1 {
            11
        } else if j == 2 {
            16
        } else {
            23
        }
    } else {
        if j == 0 {
            6
        } else if j == 1 {
            10
        } else if j == 2 {
            15
        } else {
            21
        }
    }
}

/// Per-round nonlinear function.
pub open spec fn md5_f(b: u32, c: u32, d: u32, i: int) -> u32 {
    if i < 16 {
        (b & c) | (!b & d)
    } else if i < 32 {
        (d & b) | (!d & c)
    } else if i < 48 {
        b ^ c ^ d
    } else {
        c ^ (b | !d)
    }
}

/// Per-round message-word index.
pub open spec fn md5_g(i: int) -> int {
    if i < 16 {
        i
    } else if i < 32 {
        (5 * i + 1) % 16
    } else if i < 48 {
        (3 * i + 5) % 16
    } else {
        (7 * i) % 16
    }
}

/// One round of the compression function.
pub open spec fn md5_step(a: u32, b: u32, c: u32, d: u32, m: Seq<u32>, i: int) -> (
    u32,
    u32,
    u32,
    u32,
) {
    let f = u32_specs::wrapping_add(
        u32_specs::wrapping_add(u32_specs::wrapping_add(md5_f(b, c, d, i), a), md5_k(i)),
        m[md5_g(i)],
    );
    (d, u32_specs::wrapping_add(b, rotl32(f, md5_s(i))), b, c)
}

/// The first `n` rounds of the compression function.
pub open spec fn md5_rounds(a: u32, b: u32, c: u32, d: u32, m: Seq<u32>, n: int) -> (
    u32,
    u32,
    u32,
    u32,
)
    decreases n,
{
    if n <= 0 {
        (a, b, c, d)
    } else {
        let p = md5_rounds(a, b, c, d, m, n - 1);
        md5_step(p.0, p.1, p.2, p.3, m, n - 1)
    }
}

/// Process one 64-byte block: 64 rounds, then add the block's result into the
/// running state.
pub open spec fn process_block_spec(a: u32, b: u32, c: u32, d: u32, bytes: Seq<u8>) -> (
    u32,
    u32,
    u32,
    u32,
) {
    let m = block_words(bytes);
    let r = md5_rounds(a, b, c, d, m, 64);
    (
        u32_specs::wrapping_add(a, r.0),
        u32_specs::wrapping_add(b, r.1),
        u32_specs::wrapping_add(c, r.2),
        u32_specs::wrapping_add(d, r.3),
    )
}

/// Fold the compression function over the first `n` blocks.
pub open spec fn md5_fold(a: u32, b: u32, c: u32, d: u32, bytes: Seq<u8>, n: int) -> (
    u32,
    u32,
    u32,
    u32,
)
    decreases n,
{
    if n <= 0 {
        (a, b, c, d)
    } else {
        let p = md5_fold(a, b, c, d, bytes, n - 1);
        process_block_spec(p.0, p.1, p.2, p.3, bytes.subrange(64 * (n - 1), 64 * n))
    }
}

/// A 64-bit value as eight little-endian bytes.
pub open spec fn u64_le_bytes(x: u64) -> Seq<u8> {
    Seq::new(8, |i: int| (x >> ((8 * i) as u64)) as u8)
}

/// A 32-bit value as four little-endian bytes.
pub open spec fn u32_le_bytes(x: u32) -> Seq<u8> {
    Seq::new(4, |i: int| (x >> ((8 * i) as u32)) as u8)
}

/// How many zero bytes the padding inserts after the 0x80 marker.
pub open spec fn md5_zero_count(rem: int) -> int {
    if rem < 56 {
        55 - rem
    } else {
        119 - rem
    }
}

/// The padded message: the data, one 0x80 byte, zeros up to 56 modulo 64,
/// then the bit length as a little-endian 64-bit value.
pub open spec fn md5_padded(data: Seq<u8>) -> Seq<u8> {
    data + seq![0x80u8] + Seq::new(md5_zero_count(data.len() as int % 64) as nat, |i: int| 0u8)
        + u64_le_bytes((data.len() * 8) as u64)
}

/// The MD5 digest of a byte sequence.
pub open spec fn md5_spec(data: Seq<u8>) -> Seq<u8> {
    let padded = md5_padded(data);
    let r = md5_fold(0x67452301u32, 0xefcdab89u32, 0x98badcfeu32, 0x10325476u32, padded,
        padded.len() as int / 64);
    u32_le_bytes(r.0) + u32_le_bytes(r.1) + u32_le_bytes(r.2) + u32_le_bytes(r.3)
}

/// The padded length is a positive multiple of 64.
pub proof fn lemma_md5_padded_len(data: Seq<u8>)
    ensures
        md5_padded(data).len() == data.len() + 1 + md5_zero_count(data.len() as int % 64) + 8,
        md5_padded(data).len() % 64 == 0,
        md5_padded(data).len() >= 64,
{
    let n = data.len() as int;
    let rem = n % 64;
    assert(0 <= rem < 64);
    assert((n + 1 + md5_zero_count(rem) + 8) % 64 == 0) by (nonlinear_arith)
        requires
            rem == n % 64,
            0 <= rem < 64,
            n >= 0,
            md5_zero_count(rem) == if rem < 56 {
                55 - rem
            } else {
                119 - rem
            },
    ;
}

/// Rotate a 32-bit word left.
pub fn left_rotate(x: u32, c: u32) -> (r: u32)
    requires
        0 < c < 32,
    ensures
        r == rotl32(x, c),
{
    (x << c) | (x >> (32 - c))
}

/// Round constant for round `i` (the binary digits of the sines).
pub fn md5_k_at(i: usize) -> (r: u32)
    requires
        i < 64,
    ensures
        r == md5_k(i as int),
{
    let k: Vec<u32> = vec![
        0xd76aa478, 0xe8c7b756, 0x242070db, 0xc1bdceee, 0xf57c0faf, 0x4787c62a, 0xa8304613,
        0xfd469501, 0x698098d8, 0x8b44f7af, 0xffff5bb1, 0x895cd7be, 0x6b901122, 0xfd987193,
        0xa679438e, 0x49b40821, 0xf61e2562, 0xc040b340, 0x265e5a51, 0xe9b6c7aa, 0xd62f105d,
        0x02441453, 0xd8a1e681, 0xe7d3fbc8, 0x21e1cde6, 0xc33707d6, 0xf4d50d87, 0x455a14ed,
        0xa9e3e905, 0xfcefa3f8, 0x676f02d9, 0x8d2a4c8a, 0xfffa3942, 0x8771f681, 0x6d9d6122,
        0xfde5380c, 0xa4beea44, 0x4bdecfa9, 0xf6bb4b60, 0xbebfbc70, 0x289b7ec6, 0xeaa127fa,
        0xd4ef3085, 0x04881d05, 0xd9d4d039, 0xe6db99e5, 0x1fa27cf8, 0xc4ac5665, 0xf4292244,
        0x432aff97, 0xab9423a7, 0xfc93a039, 0x655b59c3, 0x8f0ccc92, 0xffeff47d, 0x85845dd1,
        0x6fa87e4f, 0xfe2ce6e0, 0xa3014314, 0x4e0811a1, 0xf7537e82, 0xbd3af235, 0x2ad7d2bb,
        0xeb86d391,
    ];
    k[i]
}

/// Round constant for round `i`, at the specification level.
pub open spec fn md5_k(i: int) -> u32 {
    seq![
        0xd76aa478u32, 0xe8c7b756, 0x242070db, 0xc1bdceee, 0xf57c0faf, 0x4787c62a, 0xa8304613,
        0xfd469501, 0x698098d8, 0x8b44f7af, 0xffff5bb1, 0x895cd7be, 0x6b901122, 0xfd987193,
        0xa679438e, 0x49b40821, 0xf61e2562, 0xc040b340, 0x265e5a51, 0xe9b6c7aa, 0xd62f105d,
        0x02441453, 0xd8a1e681, 0xe7d3fbc8, 0x21e1cde6, 0xc33707d6, 0xf4d50d87, 0x455a14ed,
        0xa9e3e905, 0xfcefa3f8, 0x676f02d9, 0x8d2a4c8a, 0xfffa3942, 0x8771f681, 0x6d9d6122,
        0xfde5380c, 0xa4beea44, 0x4bdecfa9, 0xf6bb4b60, 0xbebfbc70, 0x289b7ec6, 0xeaa127fa,
        0xd4ef3085, 0x04881d05, 0xd9d4d039, 0xe6db99e5, 0x1fa27cf8, 0xc4ac5665, 0xf4292244,
        0x432aff97, 0xab9423a7, 0xfc93a039, 0x655b59c3, 0x8f0ccc92, 0xffeff47d, 0x85845dd1,
        0x6fa87e4f, 0xfe2ce6e0, 0xa3014314, 0x4e0811a1, 0xf7537e82, 0xbd3af235, 0x2ad7d2bb,
        0xeb86d391,
    ][i]
}

/// Rotation amount for round `i`.
pub fn md5_s_at(i: usize) -> (r: u32)
    requires
        i < 64,
    ensures
        r == md5_s(i as int),
        0 < r < 32,
{
    let j = i % 4;
    if i < 16 {
        if j == 0 {
            7
        } else if j == 1 {
            12
        } else if j == 2 {
            17
        } else {
            22
        }
    } else if i < 32 {
        if j == 0 {
            5
        } else if j == 1 {
            9
        } else if j == 2 {
            14
        } else {
            20
        }
    } else if i < 48 {
        if j == 0 {
            4
        } else if j == 1 {
            11
        } else if j == 2 {
            16
        } else {
            23
        }
    } else {
        if j == 0 {
            6
        } else if j == 1 {
            10
        } else if j == 2 {
            15
        } else {
            21
        }
    }
}

/// Message-word index for round `i`.
pub fn md5_g_at(i: usize) -> (r: usize)
    requires
        i < 64,
    ensures
        r == md5_g(i as int),
        r < 16,
{
    if i < 16 {
        i
    } else if i < 32 {
        (5 * i + 1) % 16
    } else if i < 48 {
        (3 * i + 5) % 16
    } else {
        (7 * i) % 16
    }
}

/// Run one 64-byte block through the compression function, updating the
/// running state in place.
pub fn process_block(block: &[u8], a0: &mut u32, b0: &mut u32, c0: &mut u32, d0: &mut u32)
    requires
        block@.len() == 64,
    ensures
        (*final(a0), *final(b0), *final(c0), *final(d0)) == process_block_spec(
            *old(a0),
            *old(b0),
            *old(c0),
            *old(d0),
            block@,
        ),
{
    let mut m: Vec<u32> = Vec::new();
    let mut i: usize = 0;
    while i < 16
        invariant
            block@.len() == 64,
            i == m@.len() <= 16,
            forall|j: int| 0 <= j < i ==> m@[j] == block_words(block@)[j],
        decreases 16 - i,
    {
        let w: u32 = (block[4 * i] as u32) | ((block[4 * i + 1] as u32) << 8) | ((block[4 * i
            + 2] as u32) << 16) | ((block[4 * i + 3] as u32) << 24);
        m.push(w);
        i = i + 1;
    }
    assert(m@ =~= block_words(block@));

    let mut a: u32 = *a0;
    let mut b: u32 = *b0;
    let mut c: u32 = *c0;
    let mut d: u32 = *d0;

    let mut r: usize = 0;
    while r < 64
        invariant
            m@ == block_words(block@),
            r <= 64,
            (a, b, c, d) == md5_rounds(*old(a0), *old(b0), *old(c0), *old(d0), m@, r as int),
        decreases 64 - r,
    {
        let f: u32 = if r < 16 {
            (b & c) | (!b & d)
        } else if r < 32 {
            (d & b) | (!d & c)
        } else if r < 48 {
            b ^ c ^ d
        } else {
            c ^ (b | !d)
        };
        let g = md5_g_at(r);
        let k = md5_k_at(r);
        let s = md5_s_at(r);
        let f2 = f.wrapping_add(a).wrapping_add(k).wrapping_add(m[g]);
        let rotated = left_rotate(f2, s);
        let new_b = b.wrapping_add(rotated);
        a = d;
        d = c;
        c = b;
        b = new_b;
        r = r + 1;
        proof {
            assert(md5_rounds(*old(a0), *old(b0), *old(c0), *old(d0), m@, r as int) == md5_step(
                md5_rounds(*old(a0), *old(b0), *old(c0), *old(d0), m@, r - 1).0,
                md5_rounds(*old(a0), *old(b0), *old(c0), *old(d0), m@, r - 1).1,
                md5_rounds(*old(a0), *old(b0), *old(c0), *old(d0), m@, r - 1).2,
                md5_rounds(*old(a0), *old(b0), *old(c0), *old(d0), m@, r - 1).3,
                m@,
                r - 1,
            ));
        }
    }

    *a0 = a0.wrapping_add(a);
    *b0 = b0.wrapping_add(b);
    *c0 = c0.wrapping_add(c);
    *d0 = d0.wrapping_add(d);
}

/// Where each byte of the padded message comes from.
pub proof fn lemma_md5_padded_index(data: Seq<u8>, i: int)
    requires
        0 <= i < md5_padded(data).len(),
    ensures
        md5_padded(data)[i] == (if i < data.len() {
            data[i]
        } else if i == data.len() {
            0x80u8
        } else if i < data.len() + 1 + md5_zero_count(data.len() as int % 64) {
            0u8
        } else {
            u64_le_bytes((data.len() * 8) as u64)[i - data.len() - 1 - md5_zero_count(
                data.len() as int % 64,
            )]
        }),
{
}

/// Append the four little-endian bytes of a 32-bit value.
pub fn push_u32_le(v: &mut Vec<u8>, x: u32)
    ensures
        final(v)@ == old(v)@ + u32_le_bytes(x),
{
    v.push(x as u8);
    v.push((x >> 8) as u8);
    v.push((x >> 16) as u8);
    v.push((x >> 24) as u8);
    proof {
        assert(x >> 0u32 == x) by (bit_vector);
        assert(v@ =~= old(v)@ + u32_le_bytes(x));
    }
}

/// Append the eight little-endian bytes of a 64-bit value.
pub fn push_u64_le(v: &mut Vec<u8>, x: u64)
    ensures
        final(v)@ == old(v)@ + u64_le_bytes(x),
{
    v.push(x as u8);
    v.push((x >> 8) as u8);
    v.push((x >> 16) as u8);
    v.push((x >> 24) as u8);
    v.push((x >> 32) as u8);
    v.push((x >> 40) as u8);
    v.push((x >> 48) as u8);
    v.push((x >> 56) as u8);
    proof {
        assert(x >> 0u64 == x) by (bit_vector);
        assert(v@ =~= old(v)@ + u64_le_bytes(x));
    }
}

/// Compute the MD5 digest of a byte slice.
pub fn compute(data: &[u8]) -> (out: Vec<u8>)
    requires
        data@.len() * 8 <= u64::MAX,
    ensures
        out@ == md5_spec(data@),
        out@.len() == 16,
{
    let mut a0: u32 = 0x67452301;
    let mut b0: u32 = 0xefcdab89;
    let mut c0: u32 = 0x98badcfe;
    let mut d0: u32 = 0x10325476;

    let n = data.len();
    let ghost padded = md5_padded(data@);
    proof {
        lemma_md5_padded_len(data@);
    }

    let mut offset: usize = 0;
    let ghost mut k: int = 0;
    while n - offset >= 64
        invariant
            n == data@.len(),
            data@.len() * 8 <= u64::MAX,
            padded == md5_padded(data@),
            offset == 64 * k,
            0 <= k,
            offset <= n,
            (a0, b0, c0, d0) == md5_fold(0x67452301u32, 0xefcdab89u32, 0x98badcfeu32,
            0x10325476u32, padded, k),
        decreases n - offset,
    {
        let mut block: Vec<u8> = Vec::new();
        let mut j: usize = 0;
        while j < 64
            invariant
                n == data@.len(),
                offset + 64 <= n,
                j == block@.len() <= 64,
                forall|t: int| 0 <= t < j ==> block@[t] == data@[offset + t],
            decreases 64 - j,
        {
            block.push(data[offset + j]);
            j = j + 1;
        }
        proof {
            lemma_md5_padded_len(data@);
            assert forall|t: int| 0 <= t < 64 implies block@[t] == padded.subrange(
                offset as int,
                offset as int + 64,
            )[t] by {
                lemma_md5_padded_index(data@, offset + t);
            }
            assert(block@ =~= padded.subrange(offset as int, offset as int + 64));
        }
        process_block(block.as_slice(), &mut a0, &mut b0, &mut c0, &mut d0);
        offset = offset + 64;
        proof {
            k = k + 1;
            assert(md5_fold(0x67452301u32, 0xefcdab89u32, 0x98badcfeu32, 0x10325476u32, padded, k)
                == process_block_spec(
                md5_fold(0x67452301u32, 0xefcdab89u32, 0x98badcfeu32, 0x10325476u32, padded,
                k - 1).0,
                md5_fold(0x67452301u32, 0xefcdab89u32, 0x98badcfeu32, 0x10325476u32, padded,
                k - 1).1,
                md5_fold(0x67452301u32, 0xefcdab89u32, 0x98badcfeu32, 0x10325476u32, padded,
                k - 1).2,
                md5_fold(0x67452301u32, 0xefcdab89u32, 0x98badcfeu32, 0x10325476u32, padded,
                k - 1).3,
                padded.subrange(64 * (k - 1), 64 * k),
            ));
        }
    }

    let remaining = n - offset;
    let bits: u64 = (n as u64) * 8;
    let ghost zeros = md5_zero_count(n as int % 64);
    proof {
        assert(n as int % 64 == remaining as int) by (nonlinear_arith)
            requires
                offset == 64 * k,
                0 <= k,
                offset <= n,
                n < offset + 64,
                remaining == n - offset,
        ;
    }

    let mut block: Vec<u8> = Vec::new();
    let mut j: usize = 0;
    while j < remaining
        invariant
            n == data@.len(),
            offset + remaining == n,
            remaining < 64,
            j == block@.len() <= remaining,
            forall|t: int| 0 <= t < j ==> block@[t] == data@[offset + t],
        decreases remaining - j,
    {
        block.push(data[offset + j]);
        j = j + 1;
    }
    block.push(0x80);

    if remaining < 56 {
        while block.len() < 56
            invariant
                n == data@.len(),
                offset + remaining == n,
                remaining < 56,
                remaining + 1 <= block@.len() <= 56,
                forall|t: int| 0 <= t < remaining ==> block@[t] == data@[offset + t],
                block@[remaining as int] == 0x80u8,
                forall|t: int| remaining < t < block@.len() ==> block@[t] == 0u8,
            decreases 56 - block@.len(),
        {
            block.push(0);
        }
        push_u64_le(&mut block, bits);
        proof {
            assert(padded.len() == offset + 64);
            assert forall|t: int| 0 <= t < 64 implies block@[t] == padded.subrange(
                offset as int,
                offset as int + 64,
            )[t] by {
                lemma_md5_padded_index(data@, offset + t);
                if t >= 56 {
                    assert(u64_le_bytes((data@.len() * 8) as u64)[t - 56] == u64_le_bytes(bits)[t
                        - 56]);
                }
            }
            assert(block@ =~= padded.subrange(offset as int, offset as int + 64));
        }
        process_block(block.as_slice(), &mut a0, &mut b0, &mut c0, &mut d0);
        proof {
            k = k + 1;
            assert(offset as int == 64 * (k - 1));
            assert(md5_fold(0x67452301u32, 0xefcdab89u32, 0x98badcfeu32, 0x10325476u32, padded, k)
                == process_block_spec(
                md5_fold(0x67452301u32, 0xefcdab89u32, 0x98badcfeu32, 0x10325476u32, padded,
                k - 1).0,
                md5_fold(0x67452301u32, 0xefcdab89u32, 0x98badcfeu32, 0x10325476u32, padded,
                k - 1).1,
                md5_fold(0x67452301u32, 0xefcdab89u32, 0x98badcfeu32, 0x10325476u32, padded,
                k - 1).2,
                md5_fold(0x67452301u32, 0xefcdab89u32, 0x98badcfeu32, 0x10325476u32, padded,
                k - 1).3,
                padded.subrange(64 * (k - 1), 64 * k),
            ));
            assert(padded.len() as int / 64 == k) by (nonlinear_arith)
                requires
                    padded.len() == 64 * k,
                    0 <= k,
            ;
        }
    } else {
        while block.len() < 64
            invariant
                n == data@.len(),
                offset + remaining == n,
                56 <= remaining < 64,
                remaining + 1 <= block@.len() <= 64,
                forall|t: int| 0 <= t < remaining ==> block@[t] == data@[offset + t],
                block@[remaining as int] == 0x80u8,
                forall|t: int| remaining < t < block@.len() ==> block@[t] == 0u8,
            decreases 64 - block@.len(),
        {
            block.push(0);
        }
        proof {
            assert(padded.len() == offset + 128);
            assert forall|t: int| 0 <= t < 64 implies block@[t] == padded.subrange(
                offset as int,
                offset as int + 64,
            )[t] by {
                lemma_md5_padded_index(data@, offset + t);
            }
            assert(block@ =~= padded.subrange(offset as int, offset as int + 64));
        }
        process_block(block.as_slice(), &mut a0, &mut b0, &mut c0, &mut d0);
        proof {
            k = k + 1;
            assert(offset as int == 64 * (k - 1));
            assert(md5_fold(0x67452301u32, 0xefcdab89u32, 0x98badcfeu32, 0x10325476u32, padded, k)
                == process_block_spec(
                md5_fold(0x67452301u32, 0xefcdab89u32, 0x98badcfeu32, 0x10325476u32, padded,
                k - 1).0,
                md5_fold(0x67452301u32, 0xefcdab89u32, 0x98badcfeu32, 0x10325476u32, padded,
                k - 1).1,
                md5_fold(0x67452301u32, 0xefcdab89u32, 0x98badcfeu32, 0x10325476u32, padded,
                k - 1).2,
                md5_fold(0x67452301u32, 0xefcdab89u32, 0x98badcfeu32, 0x10325476u32, padded,
                k - 1).3,
                padded.subrange(64 * (k - 1), 64 * k),
            ));
        }
        let mut block2: Vec<u8> = Vec::new();
        let mut z: usize = 0;
        while z < 56
            invariant
                z == block2@.len() <= 56,
                forall|t: int| 0 <= t < z ==> block2@[t] == 0u8,
            decreases 56 - z,
        {
            block2.push(0);
            z = z + 1;
        }
        push_u64_le(&mut block2, bits);
        proof {
            assert forall|t: int| 0 <= t < 64 implies block2@[t] == padded.subrange(
                offset + 64,
                offset + 128,
            )[t] by {
                lemma_md5_padded_index(data@, offset + 64 + t);
                if t >= 56 {
                    assert(u64_le_bytes((data@.len() * 8) as u64)[t - 56] == u64_le_bytes(bits)[t
                        - 56]);
                }
            }
            assert(block2@ =~= padded.subrange(offset + 64, offset + 128));
        }
        process_block(block2.as_slice(), &mut a0, &mut b0, &mut c0, &mut d0);
        proof {
            k = k + 1;
            assert(offset + 64 == 64 * (k - 1));
            assert(md5_fold(0x67452301u32, 0xefcdab89u32, 0x98badcfeu32, 0x10325476u32, padded, k)
                == process_block_spec(
                md5_fold(0x67452301u32, 0xefcdab89u32, 0x98badcfeu32, 0x10325476u32, padded,
                k - 1).0,
                md5_fold(0x67452301u32, 0xefcdab89u32, 0x98badcfeu32, 0x10325476u32, padded,
                k - 1).1,
                md5_fold(0x67452301u32, 0xefcdab89u32, 0x98badcfeu32, 0x10325476u32, padded,
                k - 1).2,
                md5_fold(0x67452301u32, 0xefcdab89u32, 0x98badcfeu32, 0x10325476u32, padded,
                k - 1).3,
                padded.subrange(64 * (k - 1), 64 * k),
            ));
            assert(padded.len() as int / 64 == k) by (nonlinear_arith)
                requires
                    padded.len() == 64 * k,
                    0 <= k,
            ;
        }
    }

    let mut out: Vec<u8> = Vec::new();
    push_u32_le(&mut out, a0);
    push_u32_le(&mut out, b0);
    push_u32_le(&mut out, c0);
    push_u32_le(&mut out, d0);
    proof {
        assert(out@ =~= md5_spec(data@));
    }
    out
}

} // verus!
