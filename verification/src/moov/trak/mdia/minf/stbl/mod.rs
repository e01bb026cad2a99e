pub mod stss;
pub mod stsz;
pub mod stts;
pub mod stz2;
pub mod stsd;
pub mod subs;
