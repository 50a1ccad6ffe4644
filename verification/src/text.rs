//! Glyph runs: what the text shaping service hands back, and where the
//! compiler puts it.

use vstd::prelude::*;
use crate::geometry::{abs, LayoutPoint, LayoutSize, ORIGIN_LIMIT};
use crate::style::Text;

verus! {

/// A glyph as the shaper lays it out, relative to the top left of the text box.
#[derive(Clone, Copy, Debug, PartialEq, Eq, Structural)]
pub struct LaidGlyph {
    pub glyph_index: u32,
    pub x: i32,
    pub y: i32,
}

/// A glyph at its absolute position in the frame.
#[derive(Clone, Copy, Debug, PartialEq, Eq, Structural)]
pub struct GlyphInstance {
    pub index: u32,
    pub point: LayoutPoint,
}

/// The text shaping service: lays a text out within an available size.
///
/// Nothing is asked of the glyphs that come back.
pub trait TextShaper {
    fn shape_text(&self, text: &Text, available: LayoutSize) -> Vec<LaidGlyph>;
}

/// Distance from the top of a text box down to its baseline: half the line
/// height plus ten twenty-sevenths of the font size, each rounded down.
pub open spec fn baseline_offset(font_size: u32, line_height: u32) -> int {
    line_height as int / 2 + (font_size as int * 10) / 27
}

/// The glyph moved from text-local space to the text box whose top left is
/// at (`x`, `y`).
pub open spec fn glyph_at(glyph: LaidGlyph, x: int, y: int) -> GlyphInstance {
    GlyphInstance {
        index: glyph.glyph_index,
        point: LayoutPoint { x: (x + glyph.x) as i64, y: (y + glyph.y) as i64 },
    }
}

/// Every glyph of the run moved by (`x`, `y`), in the same order.
pub open spec fn glyphs_at(glyphs: Seq<LaidGlyph>, x: int, y: int) -> Seq<GlyphInstance> {
    Seq::new(glyphs.len(), |i: int| glyph_at(glyphs[i], x, y))
}

/// Computes the baseline offset of a text run.
pub fn baseline(text: &Text) -> (offset: i64)
    ensures
        offset == baseline_offset(text.font_size, text.line_height),
        0 <= offset <= 0x2_0000_0000,
{
    let half_line: i64 = (text.line_height / 2) as i64;
    let scaled: u64 = text.font_size as u64 * 10;
    let rise: i64 = (scaled / 27) as i64;
    half_line + rise
}

/// Translates a run of glyphs into absolute layout space.
pub fn place_glyphs(glyphs: &Vec<LaidGlyph>, x: i64, y: i64) -> (placed: Vec<GlyphInstance>)
    requires
        abs(x as int) <= 2 * ORIGIN_LIMIT,
        abs(y as int) <= 2 * ORIGIN_LIMIT,
    ensures
        placed@ == glyphs_at(glyphs@, x as int, y as int),
{
    let mut placed: Vec<GlyphInstance> = Vec::new();
    let mut i: usize = 0;
    while i < glyphs.len()
        invariant
            0 <= i <= glyphs.len(),
            abs(x as int) <= 2 * ORIGIN_LIMIT,
            abs(y as int) <= 2 * ORIGIN_LIMIT,
            placed@.len() == i,
            forall|k: int| 0 <= k < i ==> placed@[k] == glyph_at(glyphs@[k], x as int, y as int),
        decreases glyphs.len() - i,
    {
        let glyph = glyphs[i];
        placed.push(
            GlyphInstance {
                index: glyph.glyph_index,
                point: LayoutPoint { x: x + glyph.x as i64, y: y + glyph.y as i64 },
            },
        );
        i += 1;
    }
    assert(placed@ =~= glyphs_at(glyphs@, x as int, y as int));
    placed
}

} // verus!
