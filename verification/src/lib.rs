//! Files as pictures: a byte stream is cut into blocks of [`BLOCK_SIZE`] bytes,
//! the last block is padded, and every block becomes one row of an RGB image
//! that is [`IMAGE_WIDTH`] pixels wide. The bytes may be sealed with
//! ChaCha20-Poly1305 before they are laid out.

use vstd::prelude::*;

pub mod decode;
pub mod encode;
pub mod encryption;
pub mod grid;
pub mod icons;
pub mod output;
pub mod padding;
pub mod sealed;
pub mod utils;

verus! {

/// Bytes in one block, and so in one row of an image.
pub const BLOCK_SIZE: usize = 255;

/// Pixels in one row of an image; three bytes make a pixel.
pub const IMAGE_WIDTH: usize = 85;

} // verus!
