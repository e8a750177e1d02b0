//! The 12-byte table of eight 6-bit (scale, min) pairs used by K-quant super-blocks.

use crate::codes::{clamp_code_i32, clamp_range};
use crate::q4_k::Q4K;
use vstd::prelude::*;

verus! {

/// Largest 6-bit code.
pub const MAX6: u8 = 63;

/// The 6-bit scale of sub-block `j` as stored in `t`.
pub open spec fn table_scale(t: Seq<u8>, j: int) -> u8 {
    if j < 4 {
        t[j] & 63
    } else {
        (t[j + 4] & 0x0f) | ((t[j - 4] >> 6u8) << 4u8)
    }
}

/// The 6-bit min of sub-block `j` as stored in `t`.
pub open spec fn table_min(t: Seq<u8>, j: int) -> u8 {
    if j < 4 {
        t[j + 4] & 63
    } else {
        (t[j + 4] >> 4u8) | ((t[j] >> 6u8) << 4u8)
    }
}

/// A raw 6-bit code clamped into `0..=63`.
pub open spec fn clamp6(v: i32) -> u8 {
    clamp_range(v, 63)
}

/// The table that holds the 6-bit codes `s[j]` (scale) and `m[j]` (min) of
/// the eight sub-blocks.
///
/// Sub-blocks 0..4 keep their codes in bytes `j` and `j + 4`; sub-blocks 4..8
/// keep the low four bits of both codes in byte `j + 4` and fold their top two
/// bits into the spare top bits of bytes `j - 4` (scale) and `j` (min).
pub open spec fn packed_table(s: Seq<u8>, m: Seq<u8>) -> Seq<u8> {
    Seq::new(
        12,
        |i: int|
            if i < 4 {
                s[i] | ((s[i + 4] >> 4u8) << 6u8)
            } else if i < 8 {
                m[i - 4] | ((m[i] >> 4u8) << 6u8)
            } else {
                (s[i - 4] & 0x0f) | ((m[i - 4] & 0x0f) << 4u8)
            },
    )
}

impl Q4K {
    /// Reads the (scale, min) pair of sub-block `j` from the packed table.
    pub fn get_scale_min_k4(j: usize, scales: &[u8; 12]) -> (r: (u8, u8))
        requires
            j < 8,
        ensures
            r.0 == table_scale(scales@, j as int),
            r.1 == table_min(scales@, j as int),
            r.0 <= MAX6,
            r.1 <= MAX6,
    {
        if j < 4 {
            let a = scales[j];
            let b = scales[j + 4];
            let d = a & 63;
            let m = b & 63;
            assert(d <= 63 && m <= 63) by (bit_vector)
                requires
                    d == a & 63,
                    m == b & 63,
            ;
            (d, m)
        } else {
            let a = scales[j + 4];
            let b = scales[j - 4];
            let c = scales[j];
            let d = (a & 0x0f) | ((b >> 6) << 4);
            let m = (a >> 4) | ((c >> 6) << 4);
            assert(d <= 63 && m <= 63) by (bit_vector)
                requires
                    d == (a & 0x0f) | ((b >> 6u8) << 4u8),
                    m == (a >> 4u8) | ((c >> 6u8) << 4u8),
            ;
            (d, m)
        }
    }

    /// Packs eight (scale, min) pairs into the 12-byte table. Each raw value is
    /// first clamped into `0..=63`.
    pub fn pack_scale_mins(ls: &[i32; 8], lm: &[i32; 8]) -> (t: [u8; 12])
        ensures
            t@ == packed_table(ls@.map_values(|v: i32| clamp6(v)), lm@.map_values(|v: i32| clamp6(v))),
            forall|j: int|
                0 <= j < 8 ==> #[trigger] table_scale(t@, j) == clamp6(ls[j]) && table_min(t@, j)
                    == clamp6(lm[j]),
    {
        let mut s: [u8; 8] = [0; 8];
        let mut m: [u8; 8] = [0; 8];
        let mut k: usize = 0;
        while k < 8
            invariant
                k <= 8,
                forall|i: int| 0 <= i < k ==> s[i] == clamp6(ls[i]) && m[i] == clamp6(lm[i]),
            decreases 8 - k,
        {
            s[k] = clamp_code_i32(ls[k], 63);
            m[k] = clamp_code_i32(lm[k], 63);
            k += 1;
        }
        assert(s@ =~= ls@.map_values(|v: i32| clamp6(v)));
        assert(m@ =~= lm@.map_values(|v: i32| clamp6(v)));
        let mut t: [u8; 12] = [0; 12];
        let mut j: usize = 0;
        while j < 4
            invariant
                j <= 4,
                forall|i: int| 0 <= i < j ==> t@[i] == packed_table(s@, m@)[i],
                forall|i: int| 4 <= i < 4 + j ==> t@[i] == packed_table(s@, m@)[i],
                forall|i: int| 8 <= i < 8 + j ==> t@[i] == packed_table(s@, m@)[i],
            decreases 4 - j,
        {
            t[j] = s[j] | ((s[j + 4] >> 4) << 6);
            t[j + 4] = m[j] | ((m[j + 4] >> 4) << 6);
            t[j + 8] = (s[j + 4] & 0x0f) | ((m[j + 4] & 0x0f) << 4);
            j += 1;
        }
        assert(t@ =~= packed_table(s@, m@));
        proof {
            law_scale_table_round_trip(s@, m@);
        }
        t
    }
}

proof fn lemma_low_group(s0: u8, s1: u8, m0: u8, m1: u8)
    requires
        s0 <= 63,
        s1 <= 63,
        m0 <= 63,
        m1 <= 63,
    ensures
        (s0 | ((s1 >> 4u8) << 6u8)) & 63 == s0,
        (m0 | ((m1 >> 4u8) << 6u8)) & 63 == m0,
{
    assert((s0 | ((s1 >> 4u8) << 6u8)) & 63 == s0) by (bit_vector)
        requires
            s0 <= 63,
            s1 <= 63,
    ;
    assert((m0 | ((m1 >> 4u8) << 6u8)) & 63 == m0) by (bit_vector)
        requires
            m0 <= 63,
            m1 <= 63,
    ;
}

proof fn lemma_high_group(s0: u8, s1: u8, m0: u8, m1: u8)
    requires
        s0 <= 63,
        s1 <= 63,
        m0 <= 63,
        m1 <= 63,
    ensures
        (((s1 & 0x0f) | ((m1 & 0x0f) << 4u8)) & 0x0f) | (((s0 | ((s1 >> 4u8) << 6u8)) >> 6u8)
            << 4u8) == s1,
        (((s1 & 0x0f) | ((m1 & 0x0f) << 4u8)) >> 4u8) | (((m0 | ((m1 >> 4u8) << 6u8)) >> 6u8)
            << 4u8) == m1,
{
    assert((((s1 & 0x0f) | ((m1 & 0x0f) << 4u8)) & 0x0f) | (((s0 | ((s1 >> 4u8) << 6u8))
        >> 6u8) << 4u8) == s1) by (bit_vector)
        requires
            s0 <= 63,
            s1 <= 63,
            m1 <= 63,
    ;
    assert((((s1 & 0x0f) | ((m1 & 0x0f) << 4u8)) >> 4u8) | (((m0 | ((m1 >> 4u8) << 6u8))
        >> 6u8) << 4u8) == m1) by (bit_vector)
        requires
            m0 <= 63,
            s1 <= 63,
            m1 <= 63,
    ;
}

/// Packing eight pairs of 6-bit codes into the table and reading back any
/// sub-block `j` gives the pair that was packed for `j`.
pub proof fn law_scale_table_round_trip(s: Seq<u8>, m: Seq<u8>)
    requires
        s.len() == 8,
        m.len() == 8,
        forall|k: int| 0 <= k < 8 ==> #[trigger] s[k] <= 63 && m[k] <= 63,
    ensures
        forall|j: int|
            0 <= j < 8 ==> #[trigger] table_scale(packed_table(s, m), j) == s[j] && table_min(
                packed_table(s, m),
                j,
            ) == m[j],
{
    assert forall|j: int| 0 <= j < 8 implies #[trigger] table_scale(packed_table(s, m), j)
        == s[j] && table_min(packed_table(s, m), j) == m[j] by {
        if j < 4 {
            lemma_low_group(s[j], s[j + 4], m[j], m[j + 4]);
        } else {
            lemma_high_group(s[j - 4], s[j], m[j - 4], m[j]);
        }
    }
}

} // verus!
