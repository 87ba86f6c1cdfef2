//! Lays the printable ASCII glyphs of a fixed-size bitmap font out on a
//! 16 by 6 sheet of RGBA pixels: lit glyph pixels opaque white, everything
//! else transparent.
//!
//! [`sheet::convert`] does the work, on a [`font::Font`] of
//! [`glyph::Glyph`]s, and gives a [`canvas::Canvas`] or the first
//! [`error::ConvertError`]. [`layout`] says where each glyph goes, and
//! [`laws`] holds what is proved of every sheet.

pub mod canvas;
pub mod error;
pub mod font;
pub mod glyph;
pub mod laws;
pub mod layout;
pub mod sheet;
