//! TEA (Tiny Encryption Algorithm) block cipher, in 16-, 32- and 64-round
//! variants, on 64-bit blocks with a 128-bit key.
//!
//! One generic round function serves both a single block (a pair of `u32`
//! words) and a group of four blocks (a pair of four-lane `u32x4` vectors).
//! Words are read from and written to blocks and keys big-endian.
pub mod bytes;
pub mod impls;
pub mod laws;
pub mod model;
pub mod rounds;
pub mod simd;

pub use crate::impls::{InvalidKeyLength, Tea16, Tea32, Tea64};
pub use crate::simd::{slice_block, u32x4, unslice_block, LaneWord, WrapArithmetic};
