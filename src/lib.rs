//! Signed distance field font atlases: the integer side of atlas
//! construction, verified.
//!
//! The library holds the glyph sets that callers usually ask for, the rectangle
//! packing trial with its missing-glyph rule, both size searches (largest font
//! size for a fixed texture, smallest square texture for a fixed font size) and
//! the pixel buffer into which rendered glyphs are written.

use vstd::prelude::*;

pub mod bisect;
pub mod charset;
pub mod pack;
pub mod raster;

pub use charset::{ascii, hexdigits, latin1, latin1_french};

verus! {

/// Possible errors that can happen while generating the atlas.
#[derive(Clone, Copy, Debug, PartialEq, Eq, Structural)]
pub enum Error {
    /// The font could not give everything needed to render the glyph of
    /// this codepoint.
    MissingGlyph(char),
    /// Even the largest texture cannot hold the glyphs at the requested
    /// font size.
    PackingAtlasFailed,
}

} // verus!
