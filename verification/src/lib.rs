//! Bitwise XOR, AND and OR over fixed-width unsigned integers, computed with
//! only addition, subtraction and shift-by-constant operations — for execution
//! environments whose instruction set exposes arithmetic but not boolean logic.
//!
//! The core construction decomposes a byte into two interleaved bit-planes,
//! applies single-bit boolean algebra arithmetically to each plane in
//! parallel, and recombines the planes. 32- and 64-bit operations compose the
//! 8-bit primitive byte-wise; 4-bit (nibble) operations are a byte-confined
//! variant backed by small lookup tables.

pub mod byte_ops;
pub mod nibble_ops;
pub mod word_ops;
