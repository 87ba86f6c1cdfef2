//! Fonts: glyphs addressed by code point.

use crate::glyph::{Bitmap, Glyph};
use std::collections::HashMap;
use vstd::prelude::*;

verus! {

/// A collection of glyphs, at most one per code point.
#[derive(Debug)]
pub struct Font {
    /// Keyed by the code point's number.
    glyphs: HashMap<u32, Glyph>,
}

impl View for Font {
    type V = Map<char, Bitmap>;

    closed spec fn view(&self) -> Map<char, Bitmap> {
        Map::new(
            |code: char| self.glyphs@.contains_key(code as u32),
            |code: char| self.glyphs@[code as u32]@,
        )
    }
}

/// Different code points have different numbers.
pub proof fn lemma_code_numbers_differ(a: char, b: char)
    ensures
        a as u32 == b as u32 ==> a == b,
{
}

impl Font {
    /// Whatever a font holds, the model of each of its glyphs is well formed.
    pub proof fn lemma_view_wf(self)
        ensures
            forall|code: char| #[trigger] self@.contains_key(code) ==> self@[code].wf(),
    {
        assert forall|code: char| #[trigger] self@.contains_key(code) implies self@[code].wf() by {
            self.glyphs@[code as u32].lemma_view_wf();
        }
    }

    /// A font without glyphs.
    pub fn new() -> (font: Font)
        ensures
            font@ == Map::<char, Bitmap>::empty(),
    {
        let font = Font { glyphs: HashMap::new() };
        assert(font@ =~= Map::<char, Bitmap>::empty());
        font
    }

    /// Makes `glyph` the glyph of `code`, in place of any it had before.
    pub fn insert(&mut self, code: char, glyph: Glyph)
        ensures
            final(self)@ == old(self)@.insert(code, glyph@),
    {
        self.glyphs.insert(code as u32, glyph);
        proof {
            let expected = old(self)@.insert(code, glyph@);
            assert forall|other: char|
                #![trigger self@.contains_key(other)]
                #![trigger expected.contains_key(other)]
                self@.contains_key(other) == expected.contains_key(other) && (self@.contains_key(
                    other,
                ) ==> self@[other] == expected[other]) by {
                lemma_code_numbers_differ(other, code);
            }
            assert(self@ =~= expected);
        }
    }

    /// The glyph of `code`, if the font has one.
    pub fn get(&self, code: char) -> (found: Option<&Glyph>)
        ensures
            found is Some <==> self@.contains_key(code),
            found matches Some(glyph) ==> glyph@ == self@[code],
    {
        let key = code as u32;
        self.glyphs.get(&key)
    }
}

} // verus!

