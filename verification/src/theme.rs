//! Theme settings that are plain numbers: how palettes are taken from images.

use vstd::prelude::*;

verus! {

/// Settings for taking a palette from an image: how many colours to find,
/// and how many pixels to step between samples (at least one).
#[derive(Debug, Clone, Copy, PartialEq, Eq, Structural)]
pub struct ImagePaletteExtractor {
    pub max_colors: usize,
    pub quality: u32,
}

impl ImagePaletteExtractor {
    /// An extractor for `max_colors` colours sampling every fifth pixel.
    pub fn new(max_colors: usize) -> (e: ImagePaletteExtractor)
        ensures
            e.max_colors == max_colors,
            e.quality == 5,
    {
        ImagePaletteExtractor { max_colors, quality: 5 }
    }

    /// This extractor sampling every `q`-th pixel (at least every one).
    pub fn quality(self, q: u32) -> (e: ImagePaletteExtractor)
        ensures
            e.max_colors == self.max_colors,
            e.quality == if q >= 1 { q } else { 1 },
    {
        ImagePaletteExtractor { quality: if q >= 1 { q } else { 1 }, ..self }
    }

    /// Whether the pixel at (`x`, `y`) of an image `w` pixels wide is
    /// sampled: its index, counted in `u32`, is a multiple of the quality.
    pub fn samples(&self, w: u32, x: u32, y: u32) -> (b: bool)
        requires
            self.quality >= 1,
            y * w + x <= u32::MAX,
        ensures
            b == ((y * w + x) % (self.quality as int) == 0),
    {
        (y * w + x) % self.quality == 0
    }
}

} // verus!
