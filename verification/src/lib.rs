//! Rate-distortion theory building blocks whose discrete logic is verified.
//!
//! Real numbers are carried through the library as the IEEE-754 bit patterns of
//! `f64` values (`u64`), which the library orders exactly as `f64`'s `<` does.
//! What the library computes on them is decisions and counts: which
//! quantization cell a value falls in, how many samples land in each cell, and
//! how many positions two symbol sequences differ in.

pub mod distortion;
pub mod float_order;
pub mod lloyd_max;
pub mod quantizer;
