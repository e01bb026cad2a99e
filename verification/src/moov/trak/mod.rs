pub mod mdia;
pub mod tkhd;
pub mod tref;
