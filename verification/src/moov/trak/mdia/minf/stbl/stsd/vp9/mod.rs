pub mod vpcc;
pub mod vp09;
