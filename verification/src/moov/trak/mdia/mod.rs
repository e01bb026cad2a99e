pub mod minf;

pub mod hdlr;
