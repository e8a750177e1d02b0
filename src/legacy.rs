//! The 32-element blocks: Q4_1, Q5_0, Q5_1 and Q8_0.
//!
//! Half-precision numbers are held as their IEEE 754 binary16 bit patterns.

use crate::codes::{
    clamp_code, clamp_max, five_bit_code, half_code, pack_five_bit, pack_halves, unpack_five_bit,
    unpack_halves,
};
use crate::layout::{
    from_le16, i8_bytes, le16, lemma_le16, push_all, push_all_i8, push_le16, read_array,
    read_array_i8, read_le16, BlockSizeError,
};
use vstd::prelude::*;

verus! {

/// A scale and an offset, `value = code * delta + min`, as binary16 bit patterns.
#[derive(Clone, Copy, Debug, PartialEq, Eq, Structural)]
pub struct DeltaMin {
    pub delta: u16,
    pub min: u16,
}

impl DeltaMin {
    pub open spec fn bytes(&self) -> Seq<u8> {
        le16(self.delta) + le16(self.min)
    }

    /// Both halves zero.
    pub fn zero() -> (r: Self)
        ensures
            r.delta == 0 && r.min == 0,
    {
        DeltaMin { delta: 0, min: 0 }
    }

    /// The pair for a constant block: no delta, and `min` the constant.
    pub fn no_delta(min: u16) -> (r: Self)
        ensures
            r.delta == 0 && r.min == min,
    {
        DeltaMin { delta: 0, min }
    }

    pub fn new(delta: u16, min: u16) -> (r: Self)
        ensures
            r.delta == delta && r.min == min,
    {
        DeltaMin { delta, min }
    }
}

/// The pair in the first four bytes of `b`.
pub(crate) fn read_delta_min(b: &[u8]) -> (r: DeltaMin)
    requires
        4 <= b@.len(),
    ensures
        r.bytes() == b@.subrange(0, 4),
{
    let delta = read_le16(b, 0);
    let min = read_le16(b, 2);
    proof {
        lemma_le16(delta, b@[0], b@[1]);
        lemma_le16(min, b@[2], b@[3]);
    }
    let r = DeltaMin { delta, min };
    assert(r.bytes() =~= b@.subrange(0, 4));
    r
}

/// The half in the first two bytes of `b`.
pub(crate) fn read_half(b: &[u8]) -> (r: u16)
    requires
        2 <= b@.len(),
    ensures
        le16(r) == b@.subrange(0, 2),
{
    let r = read_le16(b, 0);
    proof {
        lemma_le16(r, b@[0], b@[1]);
    }
    assert(le16(r) =~= b@.subrange(0, 2));
    r
}

pub(crate) fn size_error(expected: usize, actual: usize) -> (r: BlockSizeError)
    ensures
        r.expected == expected && r.actual == actual,
{
    BlockSizeError { expected, actual }
}

/// 32 four-bit codes with a scale and an offset: 20 bytes.
#[derive(Clone, Copy, Debug, PartialEq, Eq)]
pub struct Q4_1 {
    pub delta_min: DeltaMin,
    pub quants: [u8; 16],
}

impl Q4_1 {
    pub const COUNT: usize = 32;

    pub const SIZE: usize = 20;

    /// Code `i`, in `0..=15`.
    pub open spec fn code(&self, i: int) -> u8 {
        half_code(self.quants@, i)
    }

    pub open spec fn bytes(&self) -> Seq<u8> {
        self.delta_min.bytes() + self.quants@
    }

    pub fn zeros() -> (r: Self)
        ensures
            r.delta_min == (DeltaMin { delta: 0, min: 0 }),
            forall|i: int| 0 <= i < 32 ==> #[trigger] r.code(i) == 0,
    {
        let r = Q4_1 { delta_min: DeltaMin::zero(), quants: [0; 16] };
        assert forall|i: int| 0 <= i < 32 implies #[trigger] r.code(i) == 0 by {
            assert(0u8 & 15 == 0 && 0u8 >> 4u8 == 0) by (bit_vector);
        }
        r
    }

    /// The block with these parameters and codes, each code clamped to at most 15.
    pub fn from_codes(delta_min: DeltaMin, codes: &[u8; 32]) -> (r: Self)
        ensures
            r.delta_min == delta_min,
            forall|i: int| 0 <= i < 32 ==> #[trigger] r.code(i) == clamp_max(codes[i], 15),
    {
        let mut c: [u8; 32] = [0; 32];
        let mut i: usize = 0;
        while i < 32
            invariant
                i <= 32,
                forall|k: int| 0 <= k < i ==> c[k] == clamp_max(codes[k], 15),
                forall|k: int| 0 <= k < 32 ==> c[k] <= 15,
            decreases 32 - i,
        {
            c[i] = clamp_code(codes[i], 15);
            i += 1;
        }
        Q4_1 { delta_min, quants: pack_halves(&c) }
    }

    /// The 32 codes.
    pub fn codes(&self) -> (r: [u8; 32])
        ensures
            forall|i: int| 0 <= i < 32 ==> #[trigger] r[i] == self.code(i) && r[i] <= 15,
    {
        unpack_halves(&self.quants)
    }

    pub fn to_bytes(&self) -> (r: Vec<u8>)
        ensures
            r@ == self.bytes(),
    {
        let mut v: Vec<u8> = Vec::new();
        push_le16(&mut v, self.delta_min.delta);
        push_le16(&mut v, self.delta_min.min);
        push_all(&mut v, self.quants.as_slice());
        assert(v@ =~= self.bytes());
        v
    }

    /// The block whose bytes are `b`; an error unless `b` holds exactly 20 bytes.
    pub fn from_bytes(b: &[u8]) -> (r: Result<Self, BlockSizeError>)
        ensures
            match r {
                Ok(x) => b@.len() == 20 && x.bytes() == b@,
                Err(e) => b@.len() != 20 && e == (BlockSizeError { expected: 20, actual: b@.len() as usize }),
            },
    {
        if b.len() != 20 {
            return Err(size_error(20, b.len()));
        }
        let delta_min = read_delta_min(b);
        let quants: [u8; 16] = read_array(b, 4);
        let r = Q4_1 { delta_min, quants };
        assert(r.bytes() =~= b@);
        Ok(r)
    }
}

/// 32 five-bit codes centred on 16, with a scale: 22 bytes.
#[derive(Clone, Copy, Debug, PartialEq, Eq)]
pub struct Q5_0 {
    pub delta: u16,
    pub qh: [u8; 4],
    pub ql: [u8; 16],
}

impl Q5_0 {
    pub const COUNT: usize = 32;

    pub const SIZE: usize = 22;

    /// Code `i`, in `0..=31`; it stands for `code - 16` times the scale.
    pub open spec fn code(&self, i: int) -> u8 {
        five_bit_code(self.qh@, self.ql@, i)
    }

    pub open spec fn bytes(&self) -> Seq<u8> {
        le16(self.delta) + self.qh@ + self.ql@
    }

    pub fn zeros() -> (r: Self)
        ensures
            r.delta == 0,
            r.qh@ == seq![0u8; 4],
            r.ql@ == seq![0u8; 16],
    {
        let r = Q5_0 { delta: 0, qh: [0; 4], ql: [0; 16] };
        assert(r.qh@ =~= seq![0u8; 4]);
        assert(r.ql@ =~= seq![0u8; 16]);
        r
    }

    /// The block with this scale and these codes, each clamped to at most 31.
    pub fn from_codes(delta: u16, codes: &[u8; 32]) -> (r: Self)
        ensures
            r.delta == delta,
            forall|i: int| 0 <= i < 32 ==> #[trigger] r.code(i) == clamp_max(codes[i], 31),
    {
        let c = clamp_all(codes, 31);
        let (qh, ql) = pack_five_bit(&c);
        Q5_0 { delta, qh, ql }
    }

    /// The 32 codes.
    pub fn codes(&self) -> (r: [u8; 32])
        ensures
            forall|i: int| 0 <= i < 32 ==> #[trigger] r[i] == self.code(i) && r[i] <= 31,
    {
        unpack_five_bit(&self.qh, &self.ql)
    }

    /// The 32 signed values, `code - 16`.
    pub fn values(&self) -> (r: [i8; 32])
        ensures
            forall|i: int| 0 <= i < 32 ==> #[trigger] r[i] == self.code(i) - 16,
    {
        let c = self.codes();
        let mut r: [i8; 32] = [0; 32];
        let mut i: usize = 0;
        while i < 32
            invariant
                i <= 32,
                forall|k: int| 0 <= k < 32 ==> #[trigger] c[k] == self.code(k) && c[k] <= 31,
                forall|k: int| 0 <= k < i ==> r[k] == self.code(k) - 16,
            decreases 32 - i,
        {
            let x: u8 = c[i];
            assert(x <= 31);
            r[i] = (x as i8) - 16;
            i += 1;
        }
        r
    }

    pub fn to_bytes(&self) -> (r: Vec<u8>)
        ensures
            r@ == self.bytes(),
    {
        let mut v: Vec<u8> = Vec::new();
        push_le16(&mut v, self.delta);
        push_all(&mut v, self.qh.as_slice());
        push_all(&mut v, self.ql.as_slice());
        assert(v@ =~= self.bytes());
        v
    }

    /// The block whose bytes are `b`; an error unless `b` holds exactly 22 bytes.
    pub fn from_bytes(b: &[u8]) -> (r: Result<Self, BlockSizeError>)
        ensures
            match r {
                Ok(x) => b@.len() == 22 && x.bytes() == b@,
                Err(e) => b@.len() != 22 && e == (BlockSizeError { expected: 22, actual: b@.len() as usize }),
            },
    {
        if b.len() != 22 {
            return Err(size_error(22, b.len()));
        }
        let delta = read_half(b);
        let qh: [u8; 4] = read_array(b, 2);
        let ql: [u8; 16] = read_array(b, 6);
        let r = Q5_0 { delta, qh, ql };
        assert(r.bytes() =~= b@);
        Ok(r)
    }
}

/// 32 five-bit codes with a scale and an offset: 24 bytes.
#[derive(Clone, Copy, Debug, PartialEq, Eq)]
pub struct Q5_1 {
    pub delta_min: DeltaMin,
    pub qh: [u8; 4],
    pub ql: [u8; 16],
}

impl Q5_1 {
    pub const COUNT: usize = 32;

    pub const SIZE: usize = 24;

    /// Code `i`, in `0..=31`.
    pub open spec fn code(&self, i: int) -> u8 {
        five_bit_code(self.qh@, self.ql@, i)
    }

    pub open spec fn bytes(&self) -> Seq<u8> {
        self.delta_min.bytes() + self.qh@ + self.ql@
    }

    pub fn zeros() -> (r: Self)
        ensures
            r.delta_min == (DeltaMin { delta: 0, min: 0 }),
            r.qh@ == seq![0u8; 4],
            r.ql@ == seq![0u8; 16],
    {
        let r = Q5_1 { delta_min: DeltaMin::zero(), qh: [0; 4], ql: [0; 16] };
        assert(r.qh@ =~= seq![0u8; 4]);
        assert(r.ql@ =~= seq![0u8; 16]);
        r
    }

    /// The block with these parameters and codes, each code clamped to at most 31.
    pub fn from_codes(delta_min: DeltaMin, codes: &[u8; 32]) -> (r: Self)
        ensures
            r.delta_min == delta_min,
            forall|i: int| 0 <= i < 32 ==> #[trigger] r.code(i) == clamp_max(codes[i], 31),
    {
        let c = clamp_all(codes, 31);
        let (qh, ql) = pack_five_bit(&c);
        Q5_1 { delta_min, qh, ql }
    }

    /// The 32 codes.
    pub fn codes(&self) -> (r: [u8; 32])
        ensures
            forall|i: int| 0 <= i < 32 ==> #[trigger] r[i] == self.code(i) && r[i] <= 31,
    {
        unpack_five_bit(&self.qh, &self.ql)
    }

    pub fn to_bytes(&self) -> (r: Vec<u8>)
        ensures
            r@ == self.bytes(),
    {
        let mut v: Vec<u8> = Vec::new();
        push_le16(&mut v, self.delta_min.delta);
        push_le16(&mut v, self.delta_min.min);
        push_all(&mut v, self.qh.as_slice());
        push_all(&mut v, self.ql.as_slice());
        assert(v@ =~= self.bytes());
        v
    }

    /// The block whose bytes are `b`; an error unless `b` holds exactly 24 bytes.
    pub fn from_bytes(b: &[u8]) -> (r: Result<Self, BlockSizeError>)
        ensures
            match r {
                Ok(x) => b@.len() == 24 && x.bytes() == b@,
                Err(e) => b@.len() != 24 && e == (BlockSizeError { expected: 24, actual: b@.len() as usize }),
            },
    {
        if b.len() != 24 {
            return Err(size_error(24, b.len()));
        }
        let delta_min = read_delta_min(b);
        let qh: [u8; 4] = read_array(b, 4);
        let ql: [u8; 16] = read_array(b, 8);
        let r = Q5_1 { delta_min, qh, ql };
        assert(r.bytes() =~= b@);
        Ok(r)
    }
}

/// 32 signed eight-bit codes with a scale: 34 bytes.
#[derive(Clone, Copy, Debug, PartialEq, Eq)]
pub struct Q8_0 {
    pub delta: u16,
    pub quants: [i8; 32],
}

impl Q8_0 {
    pub const COUNT: usize = 32;

    pub const SIZE: usize = 34;

    pub open spec fn bytes(&self) -> Seq<u8> {
        le16(self.delta) + i8_bytes(self.quants@)
    }

    pub fn zeros() -> (r: Self)
        ensures
            r.delta == 0,
            r.quants@ == seq![0i8; 32],
    {
        let r = Q8_0 { delta: 0, quants: [0; 32] };
        assert(r.quants@ =~= seq![0i8; 32]);
        r
    }

    pub fn to_bytes(&self) -> (r: Vec<u8>)
        ensures
            r@ == self.bytes(),
    {
        let mut v: Vec<u8> = Vec::new();
        push_le16(&mut v, self.delta);
        push_all_i8(&mut v, self.quants.as_slice());
        assert(v@ =~= self.bytes());
        v
    }

    /// The block whose bytes are `b`; an error unless `b` holds exactly 34 bytes.
    pub fn from_bytes(b: &[u8]) -> (r: Result<Self, BlockSizeError>)
        ensures
            match r {
                Ok(x) => b@.len() == 34 && x.bytes() == b@,
                Err(e) => b@.len() != 34 && e == (BlockSizeError { expected: 34, actual: b@.len() as usize }),
            },
    {
        if b.len() != 34 {
            return Err(size_error(34, b.len()));
        }
        let delta = read_half(b);
        let quants: [i8; 32] = read_array_i8(b, 2);
        let r = Q8_0 { delta, quants };
        assert(r.bytes() =~= b@);
        Ok(r)
    }
}

/// Each of the 32 codes clamped to at most `m`.
fn clamp_all(codes: &[u8; 32], m: u8) -> (c: [u8; 32])
    ensures
        forall|i: int| 0 <= i < 32 ==> #[trigger] c[i] == clamp_max(codes[i], m) && c[i] <= m,
{
    let mut c: [u8; 32] = [0; 32];
    let mut i: usize = 0;
    while i < 32
        invariant
            i <= 32,
            forall|k: int| 0 <= k < i ==> c[k] == clamp_max(codes[k], m) && c[k] <= m,
        decreases 32 - i,
    {
        c[i] = clamp_code(codes[i], m);
        i += 1;
    }
    c
}

} // verus!
