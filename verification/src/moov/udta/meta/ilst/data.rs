use vstd::prelude::*;

use crate::atom::Atom;
use crate::codec::{be32, be32_at, group_codec, put_bytes, put_u32, read_u32};
use crate::error::Error;
use crate::fourcc::FourCC;

verus! {

broadcast use group_codec;

/// The type of the value in a metadata `data` box.
#[derive(Debug, Clone, Copy, PartialEq, Eq, Structural)]
pub enum DataType {
    Binary,
    Text,
    Image,
    TempoCpil,
}

impl Default for DataType {
    /// Binary data.
    fn default() -> (r: DataType)
        ensures
            r == DataType::Binary,
    {
        DataType::Binary
    }
}

/// The code of a data type.
pub open spec fn data_type_code(t: DataType) -> u32 {
    match t {
        DataType::Binary => 0,
        DataType::Text => 1,
        DataType::Image => 13,
        DataType::TempoCpil => 21,
    }
}

/// The data type with this code, if the table has one.
pub open spec fn data_type_of(c: u32) -> Option<DataType> {
    if c == 0 {
        Some(DataType::Binary)
    } else if c == 1 {
        Some(DataType::Text)
    } else if c == 13 {
        Some(DataType::Image)
    } else if c == 21 {
        Some(DataType::TempoCpil)
    } else {
        None
    }
}

impl DataType {
    /// The code of this data type.
    pub fn code(&self) -> (r: u32)
        ensures
            r == data_type_code(*self),
    {
        match self {
            DataType::Binary => 0,
            DataType::Text => 1,
            DataType::Image => 13,
            DataType::TempoCpil => 21,
        }
    }

    /// The data type with this code; another code is `Unsupported`.
    pub fn from_code(c: u32) -> (r: Result<DataType, Error>)
        ensures
            r matches Ok(t) ==> data_type_of(c) == Some(t),
            r is Err ==> data_type_of(c) is None && r == Err::<DataType, Error>(
                Error::Unsupported("data type"),
            ),
    {
        if c == 0 {
            Ok(DataType::Binary)
        } else if c == 1 {
            Ok(DataType::Text)
        } else if c == 13 {
            Ok(DataType::Image)
        } else if c == 21 {
            Ok(DataType::TempoCpil)
        } else {
            Err(Error::Unsupported("data type"))
        }
    }
}

/// Metadata value box (`data`): a typed value.
#[derive(Debug, Clone, PartialEq, Eq, Default)]
pub struct Data {
    pub data: Vec<u8>,
    pub data_type: DataType,
}

impl View for Data {
    type V = (DataType, Seq<u8>);

    open spec fn view(&self) -> (DataType, Seq<u8>) {
        (self.data_type, self.data@)
    }
}

impl Atom for Data {
    open spec fn spec_kind() -> u32 {
        0x64617461
    }

    fn kind() -> (k: FourCC) {
        FourCC::from_u32(0x64617461)
    }

    /// The type code (one the table has, else `Unsupported`), a reserved word, then the
    /// value to the end.
    open spec fn spec_decode_body(s: Seq<u8>) -> Result<((DataType, Seq<u8>), int), Error> {
        if s.len() < 4 {
            Err(Error::OutOfBounds)
        } else {
            match data_type_of(be32_at(s, 0)) {
                None => Err(Error::Unsupported("data type")),
                Some(t) => if s.len() < 8 {
                    Err(Error::OutOfBounds)
                } else {
                    Ok(((t, s.subrange(8, s.len() as int)), s.len() as int))
                },
            }
        }
    }

    open spec fn spec_encode_body(v: (DataType, Seq<u8>)) -> Result<Seq<u8>, Error> {
        Ok(be32(data_type_code(v.0)) + be32(0) + v.1)
    }

    open spec fn spec_keeps(v: (DataType, Seq<u8>)) -> bool {
        true
    }

    fn decode_body(buf: &[u8]) -> (r: Result<(Self, usize), Error>) {
        let code = read_u32(buf, 0)?;
        let data_type = DataType::from_code(code)?;
        let _reserved = read_u32(buf, 4)?;
        let data = vstd::slice::slice_to_vec(vstd::slice::slice_subrange(buf, 8, buf.len()));
        Ok((Data { data, data_type }, buf.len()))
    }

    fn encode_body(&self, out: &mut Vec<u8>) -> (r: Result<(), Error>) {
        put_u32(out, self.data_type.code());
        put_u32(out, 0);
        put_bytes(out, self.data.as_slice());
        assert(out@ =~= old(out)@ + Self::spec_encode_body(self@)->Ok_0);
        Ok(())
    }

    proof fn lemma_body_roundtrip(v: (DataType, Seq<u8>)) {
        let s = Self::spec_encode_body(v)->Ok_0;
        assert(s.subrange(8, s.len() as int) =~= v.1);
    }
}

} // verus!
