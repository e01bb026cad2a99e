use vstd::prelude::*;
use vstd::std_specs::convert::FromSpecImpl;

verus! {

/// A four-character code naming the type of an atom, kept as its big-endian value.
#[derive(Clone, Copy, Debug, PartialEq, Eq, Hash, Structural)]
pub struct FourCC {
    /// The four bytes read as one big-endian number.
    pub code: u32,
}

/// The big-endian value of four bytes.
pub open spec fn code_of(b: [u8; 4]) -> u32 {
    (b[0] as int * 16777216 + b[1] as int * 65536 + b[2] as int * 256 + b[3] as int) as u32
}

impl FourCC {
    /// The code made of these four bytes.
    pub fn new(b: &[u8; 4]) -> (r: FourCC)
        ensures
            r.code == code_of(*b),
    {
        let v: u32 = (b[0] as u32) * 16777216 + (b[1] as u32) * 65536 + (b[2] as u32) * 256
            + (b[3] as u32);
        FourCC { code: v }
    }

    /// The code with this big-endian value.
    pub fn from_u32(code: u32) -> (r: FourCC)
        ensures
            r.code == code,
    {
        FourCC { code }
    }

    /// The big-endian value of the code.
    pub fn code(&self) -> (r: u32)
        ensures
            r == self.code,
    {
        self.code
    }

    /// Whether two codes are the same.
    pub fn same(&self, other: &FourCC) -> (r: bool)
        ensures
            r == (self.code == other.code),
    {
        self.code == other.code
    }

    /// Two codes with the same value are the same code.
    pub proof fn lemma_code_eq(a: FourCC, b: FourCC)
        requires
            a.code == b.code,
        ensures
            a == b,
    {
    }
}

impl From<&[u8; 4]> for FourCC {
    fn from(b: &[u8; 4]) -> (r: FourCC) {
        FourCC::new(b)
    }
}

impl FromSpecImpl<&[u8; 4]> for FourCC {
    open spec fn obeys_from_spec() -> bool {
        true
    }

    /// The code made of the four bytes.
    open spec fn from_spec(b: &[u8; 4]) -> FourCC {
        FourCC { code: code_of(*b) }
    }
}

} // verus!
