//! Block quantization codecs for GGUF tensors: block layouts, code packing,
//! the K-quant scale table, a reader of GGUF bytes, and the GGUF file-name
//! grammar.
//!
//! The arithmetic on floats (choosing scales, rounding samples to codes,
//! reconstructing samples) stands outside this crate; here every block is
//! built from, and read back into, integer codes and binary16 bit patterns.

mod block_type;
mod chars;
mod codes;
mod extended;
mod layout;
mod legacy;
mod name;
mod q4_k;
mod q8_k;
mod reader;
mod scales;
mod text;

pub use block_type::{spec_count, spec_size, BlockType};
pub use codes::{
    chunk_code, clamp_max, clamp_range, five_bit_code, half_code, law_chunk_code_bound,
    law_code_bounds, plane_bit,
};
pub use extended::{IQ3S, IQ3XXS, IQ4NL, Q5K};
pub use layout::{i8_bytes, le16, BlockSizeError};
pub use legacy::{DeltaMin, Q4_1, Q5_0, Q5_1, Q8_0};
pub use name::{
    merge_shards, parse_name, GGufExtNotMatch, GGufFileName, NameView, Shard, SizeLabel, Type,
    Version,
};
pub use q4_k::Q4K;
pub use q8_k::{sum_codes, Q8K};
pub use reader::{value_type_of, GGufMetaDataValueType, GGufReadError, GGufReader};
pub use scales::{clamp6, law_scale_table_round_trip, packed_table, table_min, table_scale};
pub use text::{decimal, padded, write_int, write_zero};
