//! Public options and errors of the conversion.

use crate::fx::FX_ONE;
use vstd::prelude::*;

verus! {

/// Options for the resulting standalone document.
#[derive(Clone, Copy, PartialEq, Eq, Structural, Debug)]
pub struct PageOptions {
    /// The resolution assumed for the conversion, in dots per unit length,
    /// fixed-point (the default stands for 72).
    pub dpi: i64,
}

impl Default for PageOptions {
    /// The default resolution: 72 dots per unit length.
    fn default() -> (r: Self)
        ensures
            r == (PageOptions { dpi: (72 * FX_ONE) as i64 }),
    {
        PageOptions { dpi: 72 * FX_ONE }
    }
}

/// An error that can appear during conversion.
#[derive(Clone, Copy, PartialEq, Eq, Structural, Debug)]
pub enum ConversionError {
    /// The scene contains an unrecognized or inconsistent raster image.
    InvalidImage,
    /// The scene tree itself violates its structural invariant (indices out
    /// of range, definitions out of order); a parser that upholds the
    /// documented invariant never produces this.
    UnknownError,
    /// The font at this index of the font arena cannot be subset.
    SubsetError(usize),
    /// The font at this index of the font arena cannot be read.  Reserved
    /// for the outer layer that loads font programs; the core falls back to
    /// outlined text instead of failing.
    InvalidFont(usize),
}

impl ConversionError {
    /// A human-readable description of the error.
    pub fn message(&self) -> (r: &'static str) {
        match self {
            ConversionError::InvalidImage => "An unknown type of image appears in the SVG.",
            ConversionError::UnknownError => "An unknown error occurred during the conversion. This could indicate a bug in svg2pdf",
            ConversionError::SubsetError(_) => "An error occurred while subsetting a font.",
            ConversionError::InvalidFont(_) => "An error occurred while reading a font.",
        }
    }
}

/// Options for the conversion itself.
#[derive(Clone, Copy, PartialEq, Eq, Structural, Debug)]
pub struct ConversionOptions {
    /// Whether the writer should compress content streams.
    pub compress: bool,
    /// How much rasterized filter fallbacks are oversampled, fixed-point
    /// (the default stands for 1.5).
    pub raster_scale: i64,
    /// Whether text is embedded as selectable text; when disabled, text is
    /// converted into paths.
    pub embed_text: bool,
}

impl Default for ConversionOptions {
    /// The defaults: compressed streams, 1.5-fold oversampling, embedded
    /// text.
    fn default() -> (r: Self)
        ensures
            r == (ConversionOptions { compress: true, raster_scale: 1500, embed_text: true }),
    {
        ConversionOptions { compress: true, raster_scale: 1500, embed_text: true }
    }
}

} // verus!
