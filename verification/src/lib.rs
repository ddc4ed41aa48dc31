//! Line reassembly, tokenizing and bounded rolling history for a stream of
//! numeric text lines read from a serial device.

pub mod backend;
pub mod shared;
pub mod text;
