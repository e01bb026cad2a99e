use vstd::prelude::*;

use crate::fourcc::FourCC;

verus! {

/// What can go wrong while decoding or encoding atoms.
#[derive(Debug, Clone, PartialEq, Eq)]
pub enum Error {
    /// The input ended before a field could be read.
    OutOfBounds,
    /// A reader ran out of bytes in the middle of an atom.
    ShortRead,
    /// A size field holds a value that cannot be right.
    InvalidSize,
    /// The version of a full box is not one this library knows.
    UnknownVersion(u8),
    /// An atom of this type was found where it is not allowed.
    UnexpectedBox(FourCC),
    /// A required child atom is missing.
    MissingBox(FourCC),
    /// The body of an atom has bytes left over after decoding.
    UnderDecode(FourCC),
    /// The body of an atom ended before decoding was done.
    OverDecode(FourCC),
    /// The value is too large to be encoded in the atom's fields.
    TooLarge(FourCC),
    /// A descriptor with this tag was found where it is not allowed.
    UnexpectedDescriptor(u8),
    /// A required descriptor with this tag is missing.
    MissingDescriptor(u8),
    /// The bytes of a string are not valid UTF-8.
    InvalidString,
    /// A feature of the format that this library does not handle.
    Unsupported(&'static str),
    /// A field holds a value that the format reserves.
    Reserved,
    /// Two fields hold values that the format does not allow together.
    InvalidCombination(&'static str),
}

} // verus!
