use vstd::prelude::*;

use crate::codec::{be32_at, read_u32};
use crate::text::{from_utf8_lossy, parse_u32, spec_parse_u32, string_from_utf8_lossy};
use super::data::{Data, DataType};

verus! {

/// One item of a metadata list: its value.
#[derive(Debug, Clone, PartialEq, Eq, Default)]
pub struct IlstItem {
    pub data: Data,
}

/// The bytes of an item's value.
pub fn item_to_bytes(item: &IlstItem) -> (r: &[u8])
    ensures
        r@ == item.data.data@,
{
    item.data.data.as_slice()
}

/// An item's value as text, where bytes that are not UTF-8 become U+FFFD.
pub fn item_to_str(item: &IlstItem) -> (r: String)
    ensures
        r@ == from_utf8_lossy(item.data.data@),
{
    string_from_utf8_lossy(item.data.data.as_slice())
}

/// What an item's value gives as a number: four binary bytes, big-endian; text, as a
/// decimal number; nothing otherwise.
pub open spec fn spec_item_to_u32(t: DataType, d: Seq<u8>) -> Option<u32> {
    match t {
        DataType::Binary => if d.len() == 4 {
            Some(be32_at(d, 0))
        } else {
            None
        },
        DataType::Text => spec_parse_u32(from_utf8_lossy(d)),
        _ => None,
    }
}

/// An item's value as a number.
pub fn item_to_u32(item: &IlstItem) -> (r: Option<u32>)
    ensures
        r == spec_item_to_u32(item.data.data_type, item.data.data@),
{
    match item.data.data_type {
        DataType::Binary => if item.data.data.len() == 4 {
            match read_u32(item.data.data.as_slice(), 0) {
                Ok(v) => Some(v),
                Err(_) => None,
            }
        } else {
            None
        },
        DataType::Text => {
            let s = string_from_utf8_lossy(item.data.data.as_slice());
            parse_u32(s.as_str())
        },
        _ => None,
    }
}

} // verus!
