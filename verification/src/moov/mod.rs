pub mod trak;
pub mod udta;

