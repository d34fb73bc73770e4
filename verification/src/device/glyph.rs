//! Characters as bitmaps.

use vstd::prelude::*;

verus! {

/// What `unifont::get_glyph` returns for a character: the width of its bitmap
/// and the sixteen rows of it.
pub uninterp spec fn unifont_glyph(c: char) -> Option<(usize, Seq<u16>)>;

/// Calls `unifont::get_glyph`, and hands out the width of the glyph and its rows
/// as plain numbers. A glyph is 8 or 16 pixels wide and has sixteen rows, and
/// there is one for the question mark; which bitmap a character has is left to
/// the font.
#[verifier::external_body]
fn font_glyph(c: char) -> (glyph: Option<(usize, Vec<u16>)>)
    ensures
        glyph matches Some(found) ==> unifont_glyph(c) == Some((found.0, found.1@)),
        glyph is None ==> unifont_glyph(c) is None,
        glyph matches Some(found) ==> (found.0 == 8 || found.0 == 16) && found.1@.len() == 16,
        c == '?' ==> glyph is Some,
{
    let glyph = unifont::get_glyph(c)?;
    let rows = match glyph {
        unifont::Glyph::HalfWidth(rows) => rows.iter().map(|row| *row as u16).collect(),
        unifont::Glyph::FullWidth(rows) => rows.to_vec(),
    };
    Some((glyph.get_width(), rows))
}

/// Bitmap of a character.
pub struct GlyphBitmap {
    pub width: usize,
    pub rows: Vec<u16>,
}

/// Whether a pixel of a row is set. The leftmost pixel is the highest bit of a
/// row that is as wide as the glyph.
pub open spec fn row_pixel(width: usize, row: u16, x: usize) -> bool {
    if width == 8 {
        row & (0x80u16 >> (x as u16)) != 0
    } else {
        row & (0x8000u16 >> (x as u16)) != 0
    }
}

impl GlyphBitmap {
    pub open spec fn wf(&self) -> bool {
        (self.width == 8 || self.width == 16) && self.rows@.len() == 16
    }

    /// Whether a pixel of the glyph is set.
    pub fn get_pixel(&self, x: usize, y: usize) -> (set: bool)
        requires
            self.wf(),
            x < self.width,
            y < 16,
        ensures
            set == row_pixel(self.width, self.rows@[y as int], x),
    {
        let row: u16 = self.rows[y];
        if self.width == 8 {
            row & (0x80u16 >> (x as u16)) != 0
        } else {
            row & (0x8000u16 >> (x as u16)) != 0
        }
    }
}

/// The bitmap that stands for a character: its own, or that of the question
/// mark.
pub open spec fn shown_glyph(c: char) -> (usize, Seq<u16>) {
    match unifont_glyph(c) {
        Some(glyph) => glyph,
        None => unifont_glyph('?')->0,
    }
}

/// Finds the bitmap that stands for a character.
pub fn glyph_for(c: char) -> (glyph: GlyphBitmap)
    ensures
        glyph.wf(),
        (glyph.width, glyph.rows@) == shown_glyph(c),
{
    match font_glyph(c) {
        Some((width, rows)) => GlyphBitmap { width, rows },
        None => match font_glyph('?') {
            Some((width, rows)) => GlyphBitmap { width, rows },
            None => {
                assert(false);
                GlyphBitmap { width: 8, rows: Vec::new() }
            },
        },
    }
}

} // verus!
