//! Block layouts whose codecs are not defined here: Q5_K, IQ3_S, IQ3_XXS and
//! IQ4_NL. Each has its element count, its size in bytes and its zero block.

use vstd::prelude::*;

verus! {

/// Q5_K: 256 five-bit codes, with a scale, a min, a sub-block table, a bit
/// plane and low nibbles: 176 bytes.
#[derive(Clone, Copy, Debug, PartialEq, Eq)]
pub struct Q5K {
    pub delta: u16,
    pub min: u16,
    pub scales: [u8; 12],
    pub qh: [u8; 32],
    pub qs: [u8; 128],
}

impl Q5K {
    pub const COUNT: usize = 256;

    pub const SIZE: usize = 176;

    pub fn zeros() -> (r: Self)
        ensures
            r.delta == 0 && r.min == 0,
            r.scales@ == seq![0u8; 12],
            r.qh@ == seq![0u8; 32],
            r.qs@ == seq![0u8; 128],
    {
        let r = Q5K { delta: 0, min: 0, scales: [0; 12], qh: [0; 32], qs: [0; 128] };
        assert(r.scales@ =~= seq![0u8; 12]);
        assert(r.qh@ =~= seq![0u8; 32]);
        assert(r.qs@ =~= seq![0u8; 128]);
        r
    }
}

/// IQ3_S: 256 codes with a scale, grid indices, high bits, signs and scales: 110 bytes.
#[derive(Clone, Copy, Debug, PartialEq, Eq)]
pub struct IQ3S {
    pub delta: u16,
    pub qs: [u8; 64],
    pub qh: [u8; 8],
    pub signs: [u8; 32],
    pub scales: [u8; 4],
}

impl IQ3S {
    pub const COUNT: usize = 256;

    pub const SIZE: usize = 110;

    pub fn zeros() -> (r: Self)
        ensures
            r.delta == 0,
            r.qs@ == seq![0u8; 64],
            r.qh@ == seq![0u8; 8],
            r.signs@ == seq![0u8; 32],
            r.scales@ == seq![0u8; 4],
    {
        let r = IQ3S { delta: 0, qs: [0; 64], qh: [0; 8], signs: [0; 32], scales: [0; 4] };
        assert(r.qs@ =~= seq![0u8; 64]);
        assert(r.qh@ =~= seq![0u8; 8]);
        assert(r.signs@ =~= seq![0u8; 32]);
        assert(r.scales@ =~= seq![0u8; 4]);
        r
    }
}

/// IQ3_XXS: 256 codes with a scale and 96 16-bit words: 194 bytes.
#[derive(Clone, Copy, Debug, PartialEq, Eq)]
pub struct IQ3XXS {
    pub delta: u16,
    pub qs: [u16; 96],
}

impl IQ3XXS {
    pub const COUNT: usize = 256;

    pub const SIZE: usize = 194;

    pub fn zeros() -> (r: Self)
        ensures
            r.delta == 0,
            r.qs@ == seq![0u16; 96],
    {
        let r = IQ3XXS { delta: 0, qs: [0; 96] };
        assert(r.qs@ =~= seq![0u16; 96]);
        r
    }
}

/// IQ4_NL: 32 codes with a scale and 16 16-bit words: 34 bytes.
#[derive(Clone, Copy, Debug, PartialEq, Eq)]
pub struct IQ4NL {
    pub delta: u16,
    pub qs: [u16; 16],
}

impl IQ4NL {
    pub const COUNT: usize = 32;

    pub const SIZE: usize = 34;

    pub fn zeros() -> (r: Self)
        ensures
            r.delta == 0,
            r.qs@ == seq![0u16; 16],
    {
        let r = IQ4NL { delta: 0, qs: [0; 16] };
        assert(r.qs@ =~= seq![0u16; 16]);
        r
    }
}

} // verus!
