pub mod covr;
pub mod data;
pub mod text_item;
pub mod item;
