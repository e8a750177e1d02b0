//! The Q4_K super-block: 256 four-bit codes in eight sub-blocks of 32, each
//! sub-block with a 6-bit scale and min relative to the block's own pair.

use crate::codes::{chunk_code, clamp_code_i32, clamp_range, pack_chunks, unpack_chunks};
use crate::layout::{push_all, push_le16, read_array, BlockSizeError};
use crate::legacy::{read_delta_min, size_error, DeltaMin};
use crate::scales::{table_min, table_scale};
use vstd::prelude::*;

verus! {

/// 144 bytes: the block's (delta, min) pair, the 12-byte table of sub-block
/// scales and mins, and 128 bytes of codes.
#[derive(Clone, Copy, Debug, PartialEq, Eq)]
pub struct Q4K {
    pub delta_min: DeltaMin,
    pub scales: [u8; 12],
    pub qs: [u8; 128],
}

impl Q4K {
    pub const COUNT: usize = 256;

    pub const SIZE: usize = 144;

    /// Code `i`, in `0..=15`: the first 32 of each 64 are low nibbles, the
    /// next 32 high nibbles of the same 32 bytes.
    pub open spec fn code(&self, i: int) -> u8 {
        chunk_code(self.qs@, i)
    }

    /// The 6-bit scale of sub-block `j`.
    pub open spec fn sub_scale(&self, j: int) -> u8 {
        table_scale(self.scales@, j)
    }

    /// The 6-bit min of sub-block `j`.
    pub open spec fn sub_min(&self, j: int) -> u8 {
        table_min(self.scales@, j)
    }

    pub open spec fn bytes(&self) -> Seq<u8> {
        self.delta_min.bytes() + self.scales@ + self.qs@
    }

    pub fn zeros() -> (r: Self)
        ensures
            r.delta_min == (DeltaMin { delta: 0, min: 0 }),
            r.scales@ == seq![0u8; 12],
            r.qs@ == seq![0u8; 128],
    {
        let r = Q4K { delta_min: DeltaMin::zero(), scales: [0; 12], qs: [0; 128] };
        assert(r.scales@ =~= seq![0u8; 12]);
        assert(r.qs@ =~= seq![0u8; 128]);
        r
    }

    /// The block with this pair, this table and these codes, each code
    /// clamped into `0..=15`.
    pub fn from_parts(delta_min: DeltaMin, scales: [u8; 12], codes: &[i32; 256]) -> (r: Self)
        ensures
            r.delta_min == delta_min,
            r.scales == scales,
            forall|i: int| 0 <= i < 256 ==> #[trigger] r.code(i) == clamp_range(codes[i], 15),
    {
        let mut c: [u8; 256] = [0; 256];
        let mut i: usize = 0;
        while i < 256
            invariant
                i <= 256,
                forall|k: int| 0 <= k < i ==> c[k] == clamp_range(codes[k], 15),
                forall|k: int| 0 <= k < 256 ==> c[k] <= 15,
            decreases 256 - i,
        {
            c[i] = clamp_code_i32(codes[i], 15);
            i += 1;
        }
        Q4K { delta_min, scales, qs: pack_chunks(&c) }
    }

    /// The 256 codes.
    pub fn codes(&self) -> (r: [u8; 256])
        ensures
            forall|i: int| 0 <= i < 256 ==> #[trigger] r[i] == self.code(i) && r[i] <= 15,
    {
        unpack_chunks(&self.qs)
    }

    pub fn to_bytes(&self) -> (r: Vec<u8>)
        ensures
            r@ == self.bytes(),
    {
        let mut v: Vec<u8> = Vec::new();
        push_le16(&mut v, self.delta_min.delta);
        push_le16(&mut v, self.delta_min.min);
        push_all(&mut v, self.scales.as_slice());
        push_all(&mut v, self.qs.as_slice());
        assert(v@ =~= self.bytes());
        v
    }

    /// The block whose bytes are `b`; an error unless `b` holds exactly 144 bytes.
    pub fn from_bytes(b: &[u8]) -> (r: Result<Self, BlockSizeError>)
        ensures
            match r {
                Ok(x) => b@.len() == 144 && x.bytes() == b@,
                Err(e) => b@.len() != 144 && e == (BlockSizeError { expected: 144, actual: b@.len() as usize }),
            },
    {
        if b.len() != 144 {
            return Err(size_error(144, b.len()));
        }
        let delta_min = read_delta_min(b);
        let scales: [u8; 12] = read_array(b, 4);
        let qs: [u8; 128] = read_array(b, 16);
        let r = Q4K { delta_min, scales, qs };
        assert(r.bytes() =~= b@);
        Ok(r)
    }
}

} // verus!
