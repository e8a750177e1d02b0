//! Packing of low-bit integer codes into bytes.
//!
//! Three layouts are used:
//! - halves: 32 four-bit codes in 16 bytes; code `i` of the first half is the
//!   low nibble of byte `i`, code `i` of the second half its high nibble;
//! - bit plane: the fifth bit of each of 32 codes, bit `i % 8` of byte `i / 8`
//!   (a little-endian 32-bit word);
//! - chunks: 256 four-bit codes in 128 bytes, 64 codes per 32 bytes, laid out
//!   within each chunk as the halves layout.

use vstd::prelude::*;

verus! {

/// `v` clamped to at most `m`.
pub open spec fn clamp_max(v: u8, m: u8) -> u8 {
    if v > m {
        m
    } else {
        v
    }
}

/// `v` clamped into `0..=m`.
pub open spec fn clamp_range(v: i32, m: u8) -> u8 {
    if v < 0 {
        0
    } else if v > m {
        m
    } else {
        v as u8
    }
}

/// Code `i` of 32 codes in the halves layout.
pub open spec fn half_code(q: Seq<u8>, i: int) -> u8 {
    if i < 16 {
        q[i] & 15
    } else {
        q[i - 16] >> 4u8
    }
}

/// Bit `i` of a bit plane.
pub open spec fn plane_bit(qh: Seq<u8>, i: int) -> u8 {
    (qh[i / 8] >> ((i % 8) as u8)) & 1
}

/// Code `i` of 32 five-bit codes: low bits from the halves, fifth bit from the plane.
pub open spec fn five_bit_code(qh: Seq<u8>, ql: Seq<u8>, i: int) -> u8 {
    half_code(ql, i) | (plane_bit(qh, i) << 4u8)
}

/// Code `i` of 256 codes in the chunks layout.
pub open spec fn chunk_code(q: Seq<u8>, i: int) -> u8 {
    let c = i / 64;
    let r = i % 64;
    if r < 32 {
        q[32 * c + r] & 15
    } else {
        q[32 * c + r - 32] >> 4u8
    }
}

pub fn clamp_code(v: u8, m: u8) -> (r: u8)
    ensures
        r == clamp_max(v, m),
{
    if v > m {
        m
    } else {
        v
    }
}

pub fn clamp_code_i32(v: i32, m: u8) -> (r: u8)
    ensures
        r == clamp_range(v, m),
{
    if v < 0 {
        0
    } else if v > m as i32 {
        m
    } else {
        v as u8
    }
}

proof fn lemma_nibbles(l: u8, h: u8)
    requires
        l <= 15,
        h <= 15,
    ensures
        ((h << 4u8) | l) & 15 == l,
        ((h << 4u8) | l) >> 4u8 == h,
{
    assert(((h << 4u8) | l) & 15 == l && ((h << 4u8) | l) >> 4u8 == h) by (bit_vector)
        requires
            l <= 15,
            h <= 15,
    ;
}

/// Packs 32 four-bit codes in the halves layout.
pub fn pack_halves(c: &[u8; 32]) -> (q: [u8; 16])
    requires
        forall|i: int| 0 <= i < 32 ==> c[i] <= 15,
    ensures
        forall|i: int| 0 <= i < 32 ==> #[trigger] half_code(q@, i) == c[i],
{
    let mut q: [u8; 16] = [0; 16];
    let mut i: usize = 0;
    while i < 16
        invariant
            i <= 16,
            forall|k: int| 0 <= k < 32 ==> c[k] <= 15,
            forall|k: int| 0 <= k < i ==> q[k] & 15 == c[k] && q[k] >> 4u8 == c[k + 16],
        decreases 16 - i,
    {
        let l = c[i];
        let h = c[i + 16];
        proof {
            lemma_nibbles(l, h);
        }
        q[i] = (h << 4) | l;
        i += 1;
    }
    assert forall|i: int| 0 <= i < 32 implies #[trigger] half_code(q@, i) == c[i] by {
        if i >= 16 {
            assert(q[i - 16] >> 4u8 == c[(i - 16) + 16]);
        }
    }
    q
}

/// The 32 codes held in the halves layout.
pub fn unpack_halves(q: &[u8; 16]) -> (c: [u8; 32])
    ensures
        forall|i: int| 0 <= i < 32 ==> #[trigger] c[i] == half_code(q@, i),
        forall|i: int| 0 <= i < 32 ==> #[trigger] c[i] <= 15,
{
    let mut c: [u8; 32] = [0; 32];
    let mut i: usize = 0;
    while i < 16
        invariant
            i <= 16,
            forall|k: int| 0 <= k < 32 ==> c[k] <= 15,
            forall|k: int| 0 <= k < i ==> c[k] == q[k] & 15,
            forall|k: int| 16 <= k < 16 + i ==> c[k] == q[k - 16] >> 4u8,
        decreases 16 - i,
    {
        let b = q[i];
        c[i] = b & 15;
        c[i + 16] = b >> 4;
        assert(b & 15 <= 15 && b >> 4u8 <= 15) by (bit_vector);
        i += 1;
    }
    assert forall|i: int| 0 <= i < 32 implies #[trigger] c[i] == half_code(q@, i) && c[i] <= 15 by {
    }
    c
}

spec fn plane_byte(b: Seq<u8>, k: int) -> u8 {
    ((b[8 * k] >> 4u8) & 1) | (((b[8 * k + 1] >> 4u8) & 1) << 1u8) | (((b[8 * k + 2] >> 4u8) & 1)
        << 2u8) | (((b[8 * k + 3] >> 4u8) & 1) << 3u8) | (((b[8 * k + 4] >> 4u8) & 1) << 4u8) | (((b[8
        * k + 5] >> 4u8) & 1) << 5u8) | (((b[8 * k + 6] >> 4u8) & 1) << 6u8) | (((b[8 * k + 7]
        >> 4u8) & 1) << 7u8)
}

proof fn lemma_plane_byte(c0: u8, c1: u8, c2: u8, c3: u8, c4: u8, c5: u8, c6: u8, c7: u8, s: u8)
    by (bit_vector)
    requires
        s < 8,
    ensures
        ({
            let x = ((c0 >> 4u8) & 1) | (((c1 >> 4u8) & 1) << 1u8) | (((c2 >> 4u8) & 1) << 2u8) | (((c3
                >> 4u8) & 1) << 3u8) | (((c4 >> 4u8) & 1) << 4u8) | (((c5 >> 4u8) & 1) << 5u8) | (((c6
                >> 4u8) & 1) << 6u8) | (((c7 >> 4u8) & 1) << 7u8);
            (x >> s) & 1 == (if s == 0 {
                (c0 >> 4u8) & 1
            } else if s == 1 {
                (c1 >> 4u8) & 1
            } else if s == 2 {
                (c2 >> 4u8) & 1
            } else if s == 3 {
                (c3 >> 4u8) & 1
            } else if s == 4 {
                (c4 >> 4u8) & 1
            } else if s == 5 {
                (c5 >> 4u8) & 1
            } else if s == 6 {
                (c6 >> 4u8) & 1
            } else {
                (c7 >> 4u8) & 1
            })
        }),
{
}

/// The bit plane of the fifth bits of 32 codes.
pub fn pack_plane(c: &[u8; 32]) -> (qh: [u8; 4])
    ensures
        forall|i: int| 0 <= i < 32 ==> #[trigger] plane_bit(qh@, i) == (c[i] >> 4u8) & 1,
{
    let mut qh: [u8; 4] = [0; 4];
    let mut k: usize = 0;
    while k < 4
        invariant
            k <= 4,
            forall|j: int| 0 <= j < k ==> qh[j] == plane_byte(c@, j),
        decreases 4 - k,
    {
        let b = 8 * k;
        qh[k] = ((c[b] >> 4) & 1) | (((c[b + 1] >> 4) & 1) << 1) | (((c[b + 2] >> 4) & 1) << 2) | (((c[b
            + 3] >> 4) & 1) << 3) | (((c[b + 4] >> 4) & 1) << 4) | (((c[b + 5] >> 4) & 1) << 5) | (((c[b
            + 6] >> 4) & 1) << 6) | (((c[b + 7] >> 4) & 1) << 7);
        k += 1;
    }
    assert forall|i: int| 0 <= i < 32 implies #[trigger] plane_bit(qh@, i) == (c[i] >> 4u8) & 1 by {
        let k = i / 8;
        let s = (i % 8) as u8;
        lemma_plane_byte(
            c[8 * k],
            c[8 * k + 1],
            c[8 * k + 2],
            c[8 * k + 3],
            c[8 * k + 4],
            c[8 * k + 5],
            c[8 * k + 6],
            c[8 * k + 7],
            s,
        );
    }
    qh
}

proof fn lemma_five_bits(c: u8)
    requires
        c <= 31,
    ensures
        c & 15 <= 15,
        (c & 15) | (((c >> 4u8) & 1) << 4u8) == c,
{
    assert(c & 15 <= 15 && (c & 15) | (((c >> 4u8) & 1) << 4u8) == c) by (bit_vector)
        requires
            c <= 31,
    ;
}

/// Packs 32 five-bit codes into a bit plane and the halves layout.
pub fn pack_five_bit(c: &[u8; 32]) -> (r: ([u8; 4], [u8; 16]))
    requires
        forall|i: int| 0 <= i < 32 ==> c[i] <= 31,
    ensures
        forall|i: int| 0 <= i < 32 ==> #[trigger] five_bit_code(r.0@, r.1@, i) == c[i],
{
    let mut low: [u8; 32] = [0; 32];
    let mut i: usize = 0;
    while i < 32
        invariant
            i <= 32,
            forall|k: int| 0 <= k < 32 ==> c[k] <= 31,
            forall|k: int| 0 <= k < i ==> low[k] == c[k] & 15 && low[k] <= 15,
        decreases 32 - i,
    {
        proof {
            lemma_five_bits(c[i as int]);
        }
        low[i] = c[i] & 15;
        i += 1;
    }
    let ql = pack_halves(&low);
    let qh = pack_plane(c);
    assert forall|i: int| 0 <= i < 32 implies #[trigger] five_bit_code(qh@, ql@, i) == c[i] by {
        lemma_five_bits(c[i]);
        assert(half_code(ql@, i) == low[i]);
    }
    (qh, ql)
}

/// The 32 five-bit codes held in a bit plane and the halves layout.
pub fn unpack_five_bit(qh: &[u8; 4], ql: &[u8; 16]) -> (c: [u8; 32])
    ensures
        forall|i: int| 0 <= i < 32 ==> #[trigger] c[i] == five_bit_code(qh@, ql@, i),
        forall|i: int| 0 <= i < 32 ==> #[trigger] c[i] <= 31,
{
    let low = unpack_halves(ql);
    let mut c: [u8; 32] = [0; 32];
    let mut i: usize = 0;
    while i < 32
        invariant
            i <= 32,
            forall|k: int| 0 <= k < 32 ==> #[trigger] low[k] == half_code(ql@, k) && low[k] <= 15,
            forall|k: int| 0 <= k < i ==> c[k] == five_bit_code(qh@, ql@, k) && c[k] <= 31,
        decreases 32 - i,
    {
        let b = qh[i / 8];
        let s = (i % 8) as u8;
        let bit = (b >> s) & 1;
        let l = low[i];
        c[i] = l | (bit << 4);
        assert(l | (bit << 4u8) <= 31) by (bit_vector)
            requires
                l <= 15,
                bit == (b >> s) & 1,
        ;
        i += 1;
    }
    c
}

/// Packs 256 four-bit codes in the chunks layout.
pub fn pack_chunks(c: &[u8; 256]) -> (q: [u8; 128])
    requires
        forall|i: int| 0 <= i < 256 ==> c[i] <= 15,
    ensures
        forall|i: int| 0 <= i < 256 ==> #[trigger] chunk_code(q@, i) == c[i],
{
    let mut q: [u8; 128] = [0; 128];
    let mut k: usize = 0;
    while k < 128
        invariant
            k <= 128,
            forall|i: int| 0 <= i < 256 ==> c[i] <= 15,
            forall|j: int|
                0 <= j < k ==> #[trigger] q[j] == (c[64 * (j / 32) + j % 32 + 32] << 4u8) | c[64 * (j
                    / 32) + j % 32],
        decreases 128 - k,
    {
        let base = 64 * (k / 32) + k % 32;
        q[k] = (c[base + 32] << 4) | c[base];
        k += 1;
    }
    assert forall|i: int| 0 <= i < 256 implies #[trigger] chunk_code(q@, i) == c[i] by {
        let ch = i / 64;
        let r = i % 64;
        let j = if r < 32 {
            32 * ch + r
        } else {
            32 * ch + r - 32
        };
        assert(j / 32 == ch && j % 32 == r % 32);
        let base = 64 * ch + r % 32;
        lemma_nibbles(c[base], c[base + 32]);
    }
    q
}

/// The 256 codes held in the chunks layout.
pub fn unpack_chunks(q: &[u8; 128]) -> (c: [u8; 256])
    ensures
        forall|i: int| 0 <= i < 256 ==> #[trigger] c[i] == chunk_code(q@, i),
        forall|i: int| 0 <= i < 256 ==> #[trigger] c[i] <= 15,
{
    let mut c: [u8; 256] = [0; 256];
    let mut i: usize = 0;
    while i < 256
        invariant
            i <= 256,
            forall|k: int| 0 <= k < i ==> c[k] == chunk_code(q@, k) && c[k] <= 15,
        decreases 256 - i,
    {
        let ch = i / 64;
        let r = i % 64;
        let v = if r < 32 {
            let b = q[32 * ch + r];
            assert(b & 15 <= 15) by (bit_vector);
            b & 15
        } else {
            let b = q[32 * ch + r - 32];
            assert(b >> 4u8 <= 15) by (bit_vector);
            b >> 4
        };
        c[i] = v;
        i += 1;
    }
    c
}

/// Codes never exceed what their width can hold: a clamped code stays within
/// its bound, and any bytes read in the halves or chunks layout give codes of
/// at most 15, and in the five-bit layout codes of at most 31.
pub proof fn law_code_bounds(v: u8, w: i32, m: u8, q: Seq<u8>, qh: Seq<u8>, i: int)
    requires
        0 <= i < 32,
        q.len() >= 16,
        qh.len() >= 4,
    ensures
        clamp_max(v, m) <= m,
        clamp_range(w, m) <= m,
        half_code(q, i) <= 15,
        five_bit_code(qh, q, i) <= 31,
{
    let b = if i < 16 {
        q[i]
    } else {
        q[i - 16]
    };
    assert(b & 15 <= 15 && b >> 4u8 <= 15) by (bit_vector);
    let h = plane_bit(qh, i);
    let x = qh[i / 8];
    let s = (i % 8) as u8;
    assert((x >> s) & 1 <= 1) by (bit_vector);
    let l = half_code(q, i);
    assert(l <= 15 && h <= 1 ==> l | (h << 4u8) <= 31) by (bit_vector);
}

/// Every code of a 256-code chunks layout is at most 15.
pub proof fn law_chunk_code_bound(q: Seq<u8>, i: int)
    requires
        0 <= i < 256,
        q.len() == 128,
    ensures
        chunk_code(q, i) <= 15,
{
    let c = i / 64;
    let r = i % 64;
    let b = if r < 32 {
        q[32 * c + r]
    } else {
        q[32 * c + r - 32]
    };
    assert(b & 15 <= 15 && b >> 4u8 <= 15) by (bit_vector);
}

} // verus!
