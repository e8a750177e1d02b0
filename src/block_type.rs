//! The block types, with the element count and byte size of each.

use vstd::prelude::*;

verus! {

/// One of the block layouts.
#[derive(Clone, Copy, Debug, PartialEq, Eq, Structural)]
pub enum BlockType {
    Q4_1,
    Q5_0,
    Q5_1,
    Q8_0,
    Q4K,
    Q5K,
    Q8K,
    IQ3S,
    IQ3XXS,
    IQ4NL,
}

pub open spec fn spec_count(t: BlockType) -> nat {
    match t {
        BlockType::Q4_1 | BlockType::Q5_0 | BlockType::Q5_1 | BlockType::Q8_0 | BlockType::IQ4NL => 32,
        _ => 256,
    }
}

pub open spec fn spec_size(t: BlockType) -> nat {
    match t {
        BlockType::Q4_1 => 20,
        BlockType::Q5_0 => 22,
        BlockType::Q5_1 => 24,
        BlockType::Q8_0 => 34,
        BlockType::Q4K => 144,
        BlockType::Q5K => 176,
        BlockType::Q8K => 290,
        BlockType::IQ3S => 110,
        BlockType::IQ3XXS => 194,
        BlockType::IQ4NL => 34,
    }
}

impl BlockType {
    /// The number of elements a block holds.
    pub fn count(&self) -> (r: usize)
        ensures
            r == spec_count(*self),
    {
        match self {
            BlockType::Q4_1 | BlockType::Q5_0 | BlockType::Q5_1 | BlockType::Q8_0 | BlockType::IQ4NL => 32,
            _ => 256,
        }
    }

    /// The number of bytes a block takes.
    pub fn size(&self) -> (r: usize)
        ensures
            r == spec_size(*self),
    {
        match self {
            BlockType::Q4_1 => 20,
            BlockType::Q5_0 => 22,
            BlockType::Q5_1 => 24,
            BlockType::Q8_0 => 34,
            BlockType::Q4K => 144,
            BlockType::Q5K => 176,
            BlockType::Q8K => 290,
            BlockType::IQ3S => 110,
            BlockType::IQ3XXS => 194,
            BlockType::IQ4NL => 34,
        }
    }

    /// The bytes that `elements` elements take, `(elements / count) * size`;
    /// `None` when that exceeds `usize::MAX`.
    pub fn nbytes(&self, elements: usize) -> (r: Option<usize>)
        ensures
            r == (if (elements as nat / spec_count(*self)) * spec_size(*self) <= usize::MAX {
                Some(((elements as nat / spec_count(*self)) * spec_size(*self)) as usize)
            } else {
                None::<usize>
            }),
    {
        let blocks = elements / self.count();
        blocks.checked_mul(self.size())
    }
}

} // verus!
