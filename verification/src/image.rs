//! Pixel payloads that create or patch textures.

use vstd::prelude::*;
use crate::texture_id::TextureId;

verus! {

/// A block of RGBA pixels for one texture.
///
/// Without `pos` the block is the whole texture, whose dimensions become
/// `width` by `height`. With `pos` it replaces the rectangle of that size
/// whose top-left corner is `pos`, in a texture that exists already.
#[derive(Clone, Debug)]
pub struct ImageDelta {
    /// Columns of the block.
    pub width: usize,
    /// Rows of the block.
    pub height: usize,
    /// The pixels row by row from the top, four bytes each, in the order
    /// red, green, blue, alpha.
    pub pixels: Vec<u8>,
    /// Top-left corner `(x, y)` of a patch; `None` for a whole texture.
    pub pos: Option<(usize, usize)>,
}

impl ImageDelta {
    /// Number of bytes that a payload of these dimensions holds.
    pub open spec fn payload_len(self) -> int {
        4 * self.width * self.height
    }

    /// The payload has four bytes for each pixel of the block.
    pub open spec fn payload_fits(self) -> bool {
        self.pixels@.len() == self.payload_len()
    }
}

/// The texture changes of one frame.
#[derive(Clone, Debug)]
pub struct TexturesDelta {
    /// Textures to create or change before anything is drawn, in order.
    pub set: Vec<(TextureId, ImageDelta)>,
    /// Textures to destroy once everything is drawn.
    pub free: Vec<TextureId>,
}

} // verus!
