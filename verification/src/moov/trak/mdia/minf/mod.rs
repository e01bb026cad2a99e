pub mod stbl;
pub mod sthd;
pub mod vmhd;
