//! A cursor over the bytes of a GGUF file. Multi-byte integers are little-endian.

use vstd::bytes::{spec_u32_from_le_bytes, spec_u64_from_le_bytes, u32_from_le_bytes, u64_from_le_bytes};
use vstd::prelude::*;
use vstd::string::*;
use vstd::utf8::valid_utf8;

verus! {

#[verifier::external_type_specification]
#[verifier::external_body]
pub struct ExUtf8Error(std::str::Utf8Error);

/// Relies on `std::str::from_utf8`: `Ok` exactly when the bytes are valid
/// UTF-8, and then a string of those bytes.
#[verifier::external_body]
fn decode_utf8<'b>(b: &'b [u8]) -> (r: Result<&'b str, std::str::Utf8Error>)
    ensures
        match r {
            Ok(s) => valid_utf8(b@) && s.spec_bytes() == b@,
            Err(_) => !valid_utf8(b@),
        },
{
    std::str::from_utf8(b)
}

/// The types of GGUF metadata values, by their code in the file.
#[derive(Clone, Copy, Debug, PartialEq, Eq, Structural)]
pub enum GGufMetaDataValueType {
    U8,
    I8,
    U16,
    I16,
    U32,
    I32,
    F32,
    Bool,
    String,
    Array,
    U64,
    I64,
    F64,
}

/// The value type with code `c`, if there is one.
pub open spec fn value_type_of(c: u32) -> Option<GGufMetaDataValueType> {
    if c == 0 {
        Some(GGufMetaDataValueType::U8)
    } else if c == 1 {
        Some(GGufMetaDataValueType::I8)
    } else if c == 2 {
        Some(GGufMetaDataValueType::U16)
    } else if c == 3 {
        Some(GGufMetaDataValueType::I16)
    } else if c == 4 {
        Some(GGufMetaDataValueType::U32)
    } else if c == 5 {
        Some(GGufMetaDataValueType::I32)
    } else if c == 6 {
        Some(GGufMetaDataValueType::F32)
    } else if c == 7 {
        Some(GGufMetaDataValueType::Bool)
    } else if c == 8 {
        Some(GGufMetaDataValueType::String)
    } else if c == 9 {
        Some(GGufMetaDataValueType::Array)
    } else if c == 10 {
        Some(GGufMetaDataValueType::U64)
    } else if c == 11 {
        Some(GGufMetaDataValueType::I64)
    } else if c == 12 {
        Some(GGufMetaDataValueType::F64)
    } else {
        None
    }
}

impl GGufMetaDataValueType {
    pub fn from_code(c: u32) -> (r: Option<Self>)
        ensures
            r == value_type_of(c),
    {
        match c {
            0 => Some(GGufMetaDataValueType::U8),
            1 => Some(GGufMetaDataValueType::I8),
            2 => Some(GGufMetaDataValueType::U16),
            3 => Some(GGufMetaDataValueType::I16),
            4 => Some(GGufMetaDataValueType::U32),
            5 => Some(GGufMetaDataValueType::I32),
            6 => Some(GGufMetaDataValueType::F32),
            7 => Some(GGufMetaDataValueType::Bool),
            8 => Some(GGufMetaDataValueType::String),
            9 => Some(GGufMetaDataValueType::Array),
            10 => Some(GGufMetaDataValueType::U64),
            11 => Some(GGufMetaDataValueType::I64),
            12 => Some(GGufMetaDataValueType::F64),
            _ => None,
        }
    }
}

#[derive(Clone, Copy, PartialEq, Eq, Debug)]
pub enum GGufReadError {
    /// The bytes ended before the value did.
    Eos,
    /// A string's bytes are not UTF-8.
    Utf8(std::str::Utf8Error),
    /// A boolean byte other than 0 or 1.
    Bool(u8),
    /// A value-type code that names no type.
    ValueType(u32),
}

/// Reads values from the front of a byte slice.
#[derive(Clone)]
pub struct GGufReader<'a> {
    data: &'a [u8],
}

impl<'a> View for GGufReader<'a> {
    type V = Seq<u8>;

    closed spec fn view(&self) -> Seq<u8> {
        self.data@
    }
}

/// The little-endian `u64` in the first eight bytes of `s`.
pub open spec fn le_u64(s: Seq<u8>) -> u64 {
    spec_u64_from_le_bytes(s.subrange(0, 8))
}

/// The little-endian `u32` in the first four bytes of `s`.
pub open spec fn le_u32(s: Seq<u8>) -> u32 {
    spec_u32_from_le_bytes(s.subrange(0, 4))
}

impl<'a> GGufReader<'a> {
    pub fn new(data: &'a [u8]) -> (r: Self)
        ensures
            r@ == data@,
    {
        GGufReader { data }
    }

    /// The bytes not read yet.
    pub fn remaining(&self) -> (r: &'a [u8])
        ensures
            r@ == self@,
    {
        self.data
    }

    fn take(&mut self, n: usize) -> (r: Option<&'a [u8]>)
        ensures
            n <= old(self)@.len() ==> (r matches Some(h) && h@ == old(self)@.subrange(0, n as int)),
            n <= old(self)@.len() ==> final(self)@ == old(self)@.subrange(
                n as int,
                old(self)@.len() as int,
            ),
            n > old(self)@.len() ==> r is None && final(self)@ == old(self)@,
    {
        if n <= self.data.len() {
            let (h, t) = self.data.split_at(n);
            self.data = t;
            Some(h)
        } else {
            None
        }
    }

    /// Skips `len` bytes; `Eos`, reading nothing, when fewer are left.
    pub fn skip(&mut self, len: usize) -> (r: Result<(), GGufReadError>)
        ensures
            len <= old(self)@.len() ==> r is Ok && final(self)@ == old(self)@.subrange(
                len as int,
                old(self)@.len() as int,
            ),
            len > old(self)@.len() ==> r == Err::<(), GGufReadError>(GGufReadError::Eos)
                && final(self)@ == old(self)@,
    {
        match self.take(len) {
            Some(_) => Ok(()),
            None => Err(GGufReadError::Eos),
        }
    }

    pub fn read_u8(&mut self) -> (r: Result<u8, GGufReadError>)
        ensures
            old(self)@.len() >= 1 ==> r == Ok::<u8, GGufReadError>(old(self)@[0]) && final(self)@
                == old(self)@.subrange(1, old(self)@.len() as int),
            old(self)@.len() < 1 ==> r == Err::<u8, GGufReadError>(GGufReadError::Eos)
                && final(self)@ == old(self)@,
    {
        match self.take(1) {
            Some(h) => Ok(h[0]),
            None => Err(GGufReadError::Eos),
        }
    }

    pub fn read_u32(&mut self) -> (r: Result<u32, GGufReadError>)
        ensures
            old(self)@.len() >= 4 ==> r == Ok::<u32, GGufReadError>(le_u32(old(self)@))
                && final(self)@ == old(self)@.subrange(4, old(self)@.len() as int),
            old(self)@.len() < 4 ==> r == Err::<u32, GGufReadError>(GGufReadError::Eos)
                && final(self)@ == old(self)@,
    {
        match self.take(4) {
            Some(h) => Ok(u32_from_le_bytes(h)),
            None => Err(GGufReadError::Eos),
        }
    }

    pub fn read_u64(&mut self) -> (r: Result<u64, GGufReadError>)
        ensures
            old(self)@.len() >= 8 ==> r == Ok::<u64, GGufReadError>(le_u64(old(self)@))
                && final(self)@ == old(self)@.subrange(8, old(self)@.len() as int),
            old(self)@.len() < 8 ==> r == Err::<u64, GGufReadError>(GGufReadError::Eos)
                && final(self)@ == old(self)@,
    {
        match self.take(8) {
            Some(h) => Ok(u64_from_le_bytes(h)),
            None => Err(GGufReadError::Eos),
        }
    }

    /// Reads one byte as a boolean: 0 is false, 1 is true, any other byte `b`
    /// is `Bool(b)` (and is consumed).
    pub fn read_bool(&mut self) -> (r: Result<bool, GGufReadError>)
        ensures
            old(self)@.len() >= 1 ==> final(self)@ == old(self)@.subrange(
                1,
                old(self)@.len() as int,
            ),
            old(self)@.len() >= 1 ==> r == (if old(self)@[0] == 0 {
                Ok::<bool, GGufReadError>(false)
            } else if old(self)@[0] == 1 {
                Ok::<bool, GGufReadError>(true)
            } else {
                Err::<bool, GGufReadError>(GGufReadError::Bool(old(self)@[0]))
            }),
            old(self)@.len() < 1 ==> r == Err::<bool, GGufReadError>(GGufReadError::Eos)
                && final(self)@ == old(self)@,
    {
        match self.read_u8() {
            Ok(0) => Ok(false),
            Ok(1) => Ok(true),
            Ok(e) => Err(GGufReadError::Bool(e)),
            Err(e) => Err(e),
        }
    }

    /// Skips a string: a `u64` length, then that many bytes.
    pub fn skip_str(&mut self) -> (r: Result<(), GGufReadError>)
        ensures
            old(self)@.len() < 8 ==> r == Err::<(), GGufReadError>(GGufReadError::Eos)
                && final(self)@ == old(self)@,
            old(self)@.len() >= 8 && 8 + le_u64(old(self)@) as usize <= old(self)@.len() ==> r is Ok
                && final(self)@ == old(self)@.subrange(
                8 + le_u64(old(self)@) as usize,
                old(self)@.len() as int,
            ),
            old(self)@.len() >= 8 && 8 + le_u64(old(self)@) as usize > old(self)@.len() ==> r
                == Err::<(), GGufReadError>(GGufReadError::Eos) && final(self)@ == old(
                self,
            )@.subrange(8, old(self)@.len() as int),
    {
        let len = self.read_u64()?;
        self.skip(len as usize)
    }

    /// Reads a string: a `u64` length, then that many bytes of UTF-8. On a
    /// short or invalid string the length stays consumed.
    pub fn read_str(&mut self) -> (r: Result<&'a str, GGufReadError>)
        ensures
            old(self)@.len() < 8 ==> r == Err::<&'a str, GGufReadError>(GGufReadError::Eos)
                && final(self)@ == old(self)@,
            old(self)@.len() >= 8 && 8 + le_u64(old(self)@) as usize > old(self)@.len() ==> r
                == Err::<&'a str, GGufReadError>(GGufReadError::Eos) && final(self)@ == old(
                self,
            )@.subrange(8, old(self)@.len() as int),
            old(self)@.len() >= 8 && 8 + le_u64(old(self)@) as usize <= old(self)@.len() ==> {
                let end = 8 + le_u64(old(self)@) as usize;
                let bytes = old(self)@.subrange(8, end);
                &&& valid_utf8(bytes) ==> (r matches Ok(s) && s.spec_bytes() == bytes)
                &&& valid_utf8(bytes) ==> final(self)@ == old(self)@.subrange(
                    end,
                    old(self)@.len() as int,
                )
                &&& !valid_utf8(bytes) ==> (r matches Err(GGufReadError::Utf8(_)))
                &&& !valid_utf8(bytes) ==> final(self)@ == old(self)@.subrange(
                    8,
                    old(self)@.len() as int,
                )
            },
    {
        let len = self.read_u64()? as usize;
        if len > self.data.len() {
            return Err(GGufReadError::Eos);
        }
        let (s, tail) = self.data.split_at(len);
        assert(s@ =~= old(self)@.subrange(8, 8 + len));
        assert(tail@ =~= old(self)@.subrange(8 + len, old(self)@.len() as int));
        match decode_utf8(s) {
            Ok(ans) => {
                self.data = tail;
                Ok(ans)
            },
            Err(e) => Err(GGufReadError::Utf8(e)),
        }
    }

    /// Reads an array header: the elements' value type (a `u32` code), then
    /// the element count (a `u64`).
    pub fn read_arr_header(&mut self) -> (r: Result<(GGufMetaDataValueType, usize), GGufReadError>)
        ensures
            old(self)@.len() < 4 ==> r == Err::<(GGufMetaDataValueType, usize), GGufReadError>(
                GGufReadError::Eos,
            ) && final(self)@ == old(self)@,
            old(self)@.len() >= 4 && value_type_of(le_u32(old(self)@)) is None ==> r == Err::<
                (GGufMetaDataValueType, usize),
                GGufReadError,
            >(GGufReadError::ValueType(le_u32(old(self)@))) && final(self)@ == old(self)@.subrange(
                4,
                old(self)@.len() as int,
            ),
            old(self)@.len() >= 4 && value_type_of(le_u32(old(self)@)) is Some
                && old(self)@.len() < 12 ==> r == Err::<
                (GGufMetaDataValueType, usize),
                GGufReadError,
            >(GGufReadError::Eos) && final(self)@ == old(self)@.subrange(
                4,
                old(self)@.len() as int,
            ),
            old(self)@.len() >= 12 && value_type_of(le_u32(old(self)@)) is Some ==> r == Ok::<
                (GGufMetaDataValueType, usize),
                GGufReadError,
            >(
                (
                    value_type_of(le_u32(old(self)@))->0,
                    le_u64(old(self)@.subrange(4, old(self)@.len() as int)) as usize,
                ),
            ) && final(self)@ == old(self)@.subrange(12, old(self)@.len() as int),
    {
        let code = self.read_u32()?;
        let ty = match GGufMetaDataValueType::from_code(code) {
            Some(t) => t,
            None => return Err(GGufReadError::ValueType(code)),
        };
        let len = self.read_u64()?;
        Ok((ty, len as usize))
    }
}

} // verus!
