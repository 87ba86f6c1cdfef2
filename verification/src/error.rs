//! Why a font could not be turned into a glyph sheet.

use vstd::prelude::*;

verus! {

/// The first thing found wrong with a font, and the code point it was found at.
#[derive(Clone, Copy, Debug, PartialEq, Eq)]
pub enum ConvertError {
    /// The font has no glyph for this code point.
    GlyphMissing(char),
    /// The glyph of `code` is `got.0` wide and `got.1` high, where the space
    /// glyph is `expected.0` wide and `expected.1` high.
    GeometryMismatch { code: char, got: (u32, u32), expected: (u32, u32) },
}

impl ConvertError {
    /// The code point at fault.
    pub open spec fn spec_code(&self) -> char {
        match *self {
            ConvertError::GlyphMissing(code) => code,
            ConvertError::GeometryMismatch { code, .. } => code,
        }
    }

    /// The code point at fault.
    #[verifier::when_used_as_spec(spec_code)]
    pub fn code(&self) -> (code: char)
        ensures
            code == self.code(),
    {
        match *self {
            ConvertError::GlyphMissing(code) => code,
            ConvertError::GeometryMismatch { code, .. } => code,
        }
    }
}

} // verus!
