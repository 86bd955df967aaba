//! Fixed-cell bitmap fonts and the layout of text drawn with them.
use vstd::prelude::*;

use crate::color::Color;
use crate::raster::{blit_size, draw_sheet_rect, sheet_draw_result, sheet_ok, sheet_size};

verus! {

/// How the glyphs of a font sheet are laid out.
#[derive(Debug, Clone, Copy)]
pub struct FontSettings {
    /// The character of the sheet's first glyph.
    pub start: char,
    /// The width and height of every glyph cell.
    pub char_size: (usize, usize),
    /// Extra space between two lines, added to the cell height.
    pub leading_offset: i32,
    /// The colour that stands for transparency in the source image.
    pub mask_color: Color,
}

/// A font: a sheet of glyphs in one row, and its layout.
#[derive(Debug)]
pub struct Font {
    pub(crate) buffer: blit::BlitBuffer,
    pub(crate) settings: FontSettings,
}

/// Whether the glyph cells fit the `i32` rectangles that glyphs are drawn with;
/// a font whose cells do not draws nothing.
pub open spec fn cell_ok(s: FontSettings) -> bool {
    s.char_size.0 <= i32::MAX && s.char_size.1 <= i32::MAX
}

/// Where the cursor stands after laying out `text` from `origin`: a space or a
/// glyph moves it one cell right, a newline back to the origin's column and one
/// cell height plus the leading down.
pub open spec fn cursor_after(text: Seq<char>, origin: (int, int), s: FontSettings) -> (int, int)
    decreases text.len(),
{
    if text.len() == 0 {
        origin
    } else {
        let c = cursor_after(text.drop_last(), origin, s);
        if text.last() == '\n' {
            (origin.0, c.1 + s.char_size.1 + s.leading_offset)
        } else {
            (c.0 + s.char_size.0, c.1)
        }
    }
}

/// The glyphs of `text` laid out from `origin`: each character other than a
/// space or a newline, with the cursor position it is drawn at.
pub open spec fn placements(text: Seq<char>, origin: (int, int), s: FontSettings) -> Seq<
    (char, (int, int)),
>
    decreases text.len(),
{
    if text.len() == 0 {
        Seq::empty()
    } else {
        let before = placements(text.drop_last(), origin, s);
        let ch = text.last();
        if ch == ' ' || ch == '\n' {
            before
        } else {
            before.push((ch, cursor_after(text.drop_last(), origin, s)))
        }
    }
}

/// The part of the sheet that holds the glyph of `ch`.
pub open spec fn glyph_rect(s: FontSettings, ch: char) -> (i32, i32, i32, i32) {
    (
        ((ch as u32 - s.start as u32) * s.char_size.0) as i32,
        0,
        s.char_size.0 as i32,
        s.char_size.1 as i32,
    )
}

/// Whether the sheet holds a glyph for `ch`: it is not before the first glyph
/// and its cell lies inside the sheet. Other characters are skipped.
pub open spec fn has_glyph(sheet: blit::BlitBuffer, s: FontSettings, ch: char) -> bool {
    &&& s.start as u32 <= ch as u32
    &&& (ch as u32 - s.start as u32 + 1) * s.char_size.0 <= blit_size(sheet).0
    &&& s.char_size.1 <= blit_size(sheet).1
}

/// Whether a position can be handed to the blitter.
pub open spec fn is_i32_point(p: (int, int)) -> bool {
    i32::MIN <= p.0 <= i32::MAX && i32::MIN <= p.1 <= i32::MAX
}

/// The buffer after drawing one placed glyph.
pub open spec fn glyph_result(
    sheet: blit::BlitBuffer,
    s: FontSettings,
    dst: Seq<u32>,
    dst_w: int,
    g: (char, (int, int)),
) -> Seq<u32> {
    if has_glyph(sheet, s, g.0) && is_i32_point(g.1) {
        sheet_draw_result(sheet, dst, dst_w, (g.1.0 as i32, g.1.1 as i32), glyph_rect(s, g.0))
    } else {
        dst
    }
}

/// The buffer after drawing placed glyphs in order.
pub open spec fn glyphs_result(
    sheet: blit::BlitBuffer,
    s: FontSettings,
    dst: Seq<u32>,
    dst_w: int,
    gs: Seq<(char, (int, int))>,
) -> Seq<u32>
    decreases gs.len(),
{
    if gs.len() == 0 {
        dst
    } else {
        glyph_result(sheet, s, glyphs_result(sheet, s, dst, dst_w, gs.drop_last()), dst_w, gs.last())
    }
}

/// The buffer after drawing `text` with a font from `origin`.
pub open spec fn text_result(
    sheet: blit::BlitBuffer,
    s: FontSettings,
    dst: Seq<u32>,
    dst_w: int,
    text: Seq<char>,
    origin: (i32, i32),
) -> Seq<u32> {
    if cell_ok(s) {
        glyphs_result(sheet, s, dst, dst_w, placements(text, (origin.0 as int, origin.1 as int), s))
    } else {
        dst
    }
}

/// The number of newlines in `text`.
pub open spec fn newline_count(text: Seq<char>) -> int
    decreases text.len(),
{
    if text.len() == 0 {
        0
    } else {
        newline_count(text.drop_last()) + if text.last() == '\n' {
            1int
        } else {
            0int
        }
    }
}

/// The number of characters of `text` after its last newline (all of them when
/// it has none).
pub open spec fn column_count(text: Seq<char>) -> int
    decreases text.len(),
{
    if text.len() == 0 {
        0
    } else if text.last() == '\n' {
        0
    } else {
        column_count(text.drop_last()) + 1
    }
}

/// The cursor in closed form: after `text` it stands one cell width right of
/// the origin for each character since the last newline, and one cell height
/// plus the leading down for each newline.
pub proof fn lemma_cursor_closed_form(text: Seq<char>, origin: (int, int), s: FontSettings)
    ensures
        cursor_after(text, origin, s) == (
            origin.0 + s.char_size.0 * column_count(text),
            origin.1 + (s.char_size.1 + s.leading_offset) * newline_count(text),
        ),
    decreases text.len(),
{
    if text.len() > 0 {
        let pre = text.drop_last();
        lemma_cursor_closed_form(pre, origin, s);
        let w = s.char_size.0 as int;
        let step = s.char_size.1 + s.leading_offset;
        let c = column_count(pre);
        let n = newline_count(pre);
        assert(w * (c + 1) == w * c + w) by (nonlinear_arith);
        assert(step * (n + 1) == step * n + step) by (nonlinear_arith);
        assert(w * 0 == 0);
    }
}

/// Where each glyph of a text goes: the character at index `i`, unless it is
/// a space or a newline, is the last glyph laid out for the text up to it, at
/// the cursor that the characters before it leave, in closed form.
pub proof fn lemma_glyph_position(text: Seq<char>, origin: (int, int), s: FontSettings, i: int)
    requires
        0 <= i < text.len(),
        text[i] != ' ',
        text[i] != '\n',
    ensures
        placements(text.subrange(0, i + 1), origin, s).last() == (
            text[i],
            (
                origin.0 + s.char_size.0 * column_count(text.subrange(0, i)),
                origin.1 + (s.char_size.1 + s.leading_offset) * newline_count(text.subrange(0, i)),
            ),
        ),
{
    assert(text.subrange(0, i + 1).drop_last() =~= text.subrange(0, i));
    lemma_cursor_closed_form(text.subrange(0, i), origin, s);
}

/// Drawing text keeps the buffer's length.
pub proof fn lemma_text_result_len(
    sheet: blit::BlitBuffer,
    s: FontSettings,
    dst: Seq<u32>,
    dst_w: int,
    text: Seq<char>,
    origin: (i32, i32),
)
    ensures
        text_result(sheet, s, dst, dst_w, text, origin).len() == dst.len(),
{
    lemma_glyphs_result_len(sheet, s, dst, dst_w, placements(text, (origin.0 as int, origin.1 as int), s));
}

proof fn lemma_glyphs_result_len(
    sheet: blit::BlitBuffer,
    s: FontSettings,
    dst: Seq<u32>,
    dst_w: int,
    gs: Seq<(char, (int, int))>,
)
    ensures
        glyphs_result(sheet, s, dst, dst_w, gs).len() == dst.len(),
    decreases gs.len(),
{
    if gs.len() > 0 {
        lemma_glyphs_result_len(sheet, s, dst, dst_w, gs.drop_last());
    }
}

impl Font {
    /// The glyph sheet.
    pub open(crate) spec fn sheet(&self) -> blit::BlitBuffer {
        self.buffer
    }

    /// The layout of the glyphs.
    pub open(crate) spec fn layout(&self) -> FontSettings {
        self.settings
    }

    /// Create a font from its sheet and layout.
    pub fn new(buffer: blit::BlitBuffer, settings: FontSettings) -> (r: Font)
        ensures
            r.sheet() == buffer,
            r.layout() == settings,
    {
        Font { buffer, settings }
    }

    /// The glyph sheet.
    pub fn buffer(&self) -> (r: &blit::BlitBuffer)
        ensures
            *r == self.sheet(),
    {
        &self.buffer
    }

    /// The layout of the glyphs.
    pub fn settings(&self) -> (r: FontSettings)
        ensures
            r == self.layout(),
    {
        self.settings
    }

    /// Draw the glyph of `ch` with its top left corner at `pos`; a character
    /// that the sheet holds no glyph for is skipped.
    pub fn draw_char(&self, buffer: &mut Vec<u32>, buffer_width: usize, ch: char, pos: (i32, i32))
        requires
            sheet_ok(self.sheet()),
            cell_ok(self.layout()),
            0 < buffer_width <= i32::MAX,
            old(buffer)@.len() <= i32::MAX,
        ensures
            final(buffer)@ == glyph_result(
                self.sheet(),
                self.layout(),
                old(buffer)@,
                buffer_width as int,
                (ch, (pos.0 as int, pos.1 as int)),
            ),
    {
        let start = self.settings.start as u32;
        let code = ch as u32;
        if code < start {
            return ;
        }
        let index = (code - start) as u64;
        let (cw, chh) = self.settings.char_size;
        let size = sheet_size(&self.buffer);
        assert((index + 1) * (cw as int) <= 0x1_0000_0000 * 0x7FFF_FFFF) by (nonlinear_arith)
            requires
                index < 0x1_0000_0000,
                cw <= 0x7FFF_FFFF,
        ;
        if (index + 1) * (cw as u64) > size.0 as u64 || chh as u64 > size.1 as u64 {
            return ;
        }
        assert((index + 1) * (cw as int) == index * (cw as int) + cw) by (nonlinear_arith);
        let rect = ((index * cw as u64) as i32, 0, cw as i32, chh as i32);
        draw_sheet_rect(&self.buffer, buffer, buffer_width, pos, rect);
    }

    /// Draw `string` from `pos`: a space moves one cell right, a newline back to
    /// the column of `pos` and one cell height plus the leading down, any other
    /// character draws its glyph and moves one cell right.
    pub fn draw_string(&self, buffer: &mut Vec<u32>, buffer_width: usize, string: &String, pos: (
        i32,
        i32,
    ))
        requires
            sheet_ok(self.sheet()),
            0 < buffer_width <= i32::MAX,
            old(buffer)@.len() <= i32::MAX,
        ensures
            final(buffer)@ == text_result(
                self.sheet(),
                self.layout(),
                old(buffer)@,
                buffer_width as int,
                string@,
                pos,
            ),
    {
        let (cw, chh) = self.settings.char_size;
        if cw > i32::MAX as usize || chh > i32::MAX as usize {
            return ;
        }
        let ghost d = buffer@;
        let ghost s = self.settings;
        let ghost origin = (pos.0 as int, pos.1 as int);
        let text = string.as_str();
        let n = text.unicode_len();
        let step_x = cw as i128;
        let step_y = chh as i128 + self.settings.leading_offset as i128;
        let mut x = pos.0 as i128;
        let mut y = pos.1 as i128;
        let mut i: usize = 0;
        assert(text@.subrange(0, 0) =~= Seq::<char>::empty());
        while i < n
            invariant
                n == text@.len(),
                text@ == string@,
                s == self.layout(),
                cell_ok(s),
                step_x == s.char_size.0,
                step_y == s.char_size.1 + s.leading_offset,
                origin == (pos.0 as int, pos.1 as int),
                i <= n,
                (x as int, y as int) == cursor_after(text@.subrange(0, i as int), origin, s),
                -0x8000_0000 * (i + 1) <= x <= 0x8000_0000 * (i + 1),
                -0x1_0000_0000 * (i + 1) <= y <= 0x1_0000_0000 * (i + 1),
                sheet_ok(self.sheet()),
                0 < buffer_width <= i32::MAX,
                buffer@.len() == d.len(),
                d.len() <= i32::MAX,
                buffer@ == glyphs_result(
                    self.sheet(),
                    s,
                    d,
                    buffer_width as int,
                    placements(text@.subrange(0, i as int), origin, s),
                ),
            decreases n - i,
        {
            let ch = text.get_char(i);
            proof {
                assert(text@.subrange(0, i + 1).drop_last() =~= text@.subrange(0, i as int));
                assert(text@.subrange(0, i + 1).last() == ch);
            }
            if ch == ' ' {
                x = x + step_x;
            } else if ch == '\n' {
                x = pos.0 as i128;
                y = y + step_y;
            } else {
                proof {
                    let pre = text@.subrange(0, i as int);
                    let g = (ch, cursor_after(pre, origin, s));
                    assert(placements(pre, origin, s).push(g).drop_last() =~= placements(pre, origin, s));
                }
                if i32::MIN as i128 <= x && x <= i32::MAX as i128 && i32::MIN as i128 <= y && y
                    <= i32::MAX as i128 {
                    self.draw_char(buffer, buffer_width, ch, (x as i32, y as i32));
                }
                x = x + step_x;
            }
            i = i + 1;
        }
        assert(text@.subrange(0, n as int) =~= text@);
    }
}

} // verus!
