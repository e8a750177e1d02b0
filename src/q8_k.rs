//! The Q8_K block: 256 signed eight-bit codes with a scale, and the sum of
//! each run of 16 codes.

use crate::layout::{i8_bytes, le16, lemma_le16, push_all_i8, push_le16, read_array_i8, read_le16, BlockSizeError};
use crate::legacy::{read_half, size_error};
use vstd::prelude::*;

verus! {

/// The sum of `q[from..to]`.
pub open spec fn sum_codes(q: Seq<i8>, from: int, to: int) -> int
    decreases to - from,
{
    if to <= from {
        0
    } else {
        sum_codes(q, from, to - 1) + q[to - 1]
    }
}

/// The little-endian bytes of each element of `s`.
pub open spec fn i16_bytes(s: Seq<i16>) -> Seq<u8>
    decreases s.len(),
{
    if s.len() == 0 {
        Seq::empty()
    } else {
        i16_bytes(s.drop_last()) + le16(#[verifier::truncate] (s.last() as u16))
    }
}

/// 290 bytes: the scale, 256 codes, and 16 partial sums.
#[derive(Clone, Copy, Debug, PartialEq, Eq)]
pub struct Q8K {
    pub delta: u16,
    pub quants: [i8; 256],
    pub sums: [i16; 16],
}

impl Q8K {
    pub const COUNT: usize = 256;

    pub const SIZE: usize = 290;

    /// Each partial sum is the sum of its 16 codes.
    pub open spec fn sums_hold(&self) -> bool {
        forall|g: int| 0 <= g < 16 ==> #[trigger] self.sums[g] == sum_codes(self.quants@, 16 * g, 16 * g + 16)
    }

    pub open spec fn bytes(&self) -> Seq<u8> {
        le16(self.delta) + i8_bytes(self.quants@) + i16_bytes(self.sums@)
    }

    pub fn zeros() -> (r: Self)
        ensures
            r.delta == 0,
            r.quants@ == seq![0i8; 256],
            r.sums@ == seq![0i16; 16],
            r.sums_hold(),
    {
        Q8K::from_quants(0, [0; 256])
    }

    /// The block with this scale and these codes, and their partial sums.
    pub fn from_quants(delta: u16, quants: [i8; 256]) -> (r: Self)
        ensures
            r.delta == delta,
            r.quants == quants,
            r.sums_hold(),
            quants@ == seq![0i8; 256] ==> r.sums@ == seq![0i16; 16],
    {
        let mut sums: [i16; 16] = [0; 16];
        let mut g: usize = 0;
        while g < 16
            invariant
                g <= 16,
                forall|h: int| 0 <= h < g ==> #[trigger] sums[h] == sum_codes(quants@, 16 * h, 16 * h + 16),
            decreases 16 - g,
        {
            let mut s: i16 = 0;
            let mut k: usize = 0;
            while k < 16
                invariant
                    g < 16,
                    k <= 16,
                    s == sum_codes(quants@, 16 * g as int, 16 * g + k),
                    -128 * k <= s <= 127 * k,
                decreases 16 - k,
            {
                s = s + quants[16 * g + k] as i16;
                k += 1;
            }
            sums[g] = s;
            g += 1;
        }
        let r = Q8K { delta, quants, sums };
        proof {
            if quants@ == seq![0i8; 256] {
                assert forall|h: int| 0 <= h < 16 implies r.sums@[h] == 0i16 by {
                    lemma_sum_zero(quants@, 16 * h, 16 * h + 16);
                }
                assert(r.sums@ =~= seq![0i16; 16]);
            }
        }
        r
    }

    /// Whether every partial sum is the sum of its 16 codes.
    pub fn check_sums(&self) -> (r: bool)
        ensures
            r == self.sums_hold(),
    {
        let fresh = Q8K::from_quants(self.delta, self.quants);
        let mut g: usize = 0;
        while g < 16
            invariant
                g <= 16,
                fresh.sums_hold(),
                fresh.quants == self.quants,
                forall|h: int| 0 <= h < g ==> #[trigger] self.sums[h] == fresh.sums[h],
            decreases 16 - g,
        {
            if self.sums[g] != fresh.sums[g] {
                return false;
            }
            g += 1;
        }
        true
    }

    pub fn to_bytes(&self) -> (r: Vec<u8>)
        ensures
            r@ == self.bytes(),
    {
        let mut v: Vec<u8> = Vec::new();
        push_le16(&mut v, self.delta);
        push_all_i8(&mut v, self.quants.as_slice());
        let ghost head = v@;
        let mut g: usize = 0;
        while g < 16
            invariant
                g <= 16,
                v@ == head + i16_bytes(self.sums@.subrange(0, g as int)),
            decreases 16 - g,
        {
            push_le16(&mut v, #[verifier::truncate] (self.sums[g] as u16));
            g += 1;
            assert(self.sums@.subrange(0, g as int).drop_last() =~= self.sums@.subrange(0, g - 1));
            assert(v@ =~= head + i16_bytes(self.sums@.subrange(0, g as int)));
        }
        assert(self.sums@.subrange(0, 16) =~= self.sums@);
        assert(v@ =~= self.bytes());
        v
    }

    /// The block whose bytes are `b`; an error unless `b` holds exactly 290
    /// bytes. The partial sums are taken as they are: see [`Q8K::check_sums`].
    pub fn from_bytes(b: &[u8]) -> (r: Result<Self, BlockSizeError>)
        ensures
            match r {
                Ok(x) => b@.len() == 290 && x.bytes() == b@,
                Err(e) => b@.len() != 290 && e == (BlockSizeError { expected: 290, actual: b@.len() as usize }),
            },
    {
        if b.len() != 290 {
            return Err(size_error(290, b.len()));
        }
        let delta = read_half(b);
        let quants: [i8; 256] = read_array_i8(b, 2);
        let mut sums: [i16; 16] = [0; 16];
        let mut g: usize = 0;
        while g < 16
            invariant
                g <= 16,
                b@.len() == 290,
                i16_bytes(sums@.subrange(0, g as int)) == b@.subrange(258, 258 + 2 * g),
            decreases 16 - g,
        {
            let x = read_le16(b, 258 + 2 * g);
            let ghost before = sums@;
            sums[g] = #[verifier::truncate] (x as i16);
            proof {
                lemma_le16(x, b@[258 + 2 * g], b@[258 + 2 * g + 1]);
                assert(#[verifier::truncate] ((#[verifier::truncate] (x as i16)) as u16) == x) by (bit_vector);
                assert(sums@.subrange(0, g + 1).drop_last() =~= before.subrange(0, g as int));
                assert(b@.subrange(258, 258 + 2 * (g + 1)) =~= b@.subrange(258, 258 + 2 * g) + seq![b@[258 + 2 * g], b@[258 + 2 * g + 1]]);
            }
            g += 1;
        }
        let r = Q8K { delta, quants, sums };
        assert(sums@.subrange(0, 16) =~= sums@);
        assert(r.bytes() =~= b@);
        Ok(r)
    }
}

proof fn lemma_sum_zero(q: Seq<i8>, from: int, to: int)
    requires
        0 <= from,
        to <= q.len(),
        forall|k: int| 0 <= k < q.len() ==> q[k] == 0,
    ensures
        sum_codes(q, from, to) == 0,
    decreases to - from,
{
    if from < to {
        lemma_sum_zero(q, from, to - 1);
    }
}

} // verus!
