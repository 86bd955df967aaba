//! Text labels.
use vstd::prelude::*;

use crate::font::text_result;
use crate::resources::{FontRef, Resources};

verus! {

/// A label: text drawn with a font from a position.
#[derive(Debug)]
pub struct Label {
    pub(crate) font_ref: FontRef,
    pub(crate) pos: (i32, i32),
    pub(crate) text: String,
}

impl Label {
    /// The font.
    pub open(crate) spec fn spec_font(&self) -> FontRef {
        self.font_ref
    }

    /// The position.
    pub open(crate) spec fn spec_pos(&self) -> (i32, i32) {
        self.pos
    }

    /// The text.
    pub open(crate) spec fn spec_text(&self) -> Seq<char> {
        self.text@
    }

    /// An empty label with the given font, at the origin.
    pub fn new(font_ref: FontRef) -> (r: Label)
        ensures
            r.spec_font() == font_ref,
            r.spec_pos() == (0i32, 0i32),
            r.spec_text() == Seq::<char>::empty(),
    {
        Label { font_ref, pos: (0, 0), text: String::new() }
    }

    /// The font.
    pub fn font(&self) -> (r: FontRef)
        ensures
            r == self.spec_font(),
    {
        self.font_ref
    }

    /// The position.
    pub fn pos(&self) -> (r: (i32, i32))
        ensures
            r == self.spec_pos(),
    {
        self.pos
    }

    /// The same label at position (x, y).
    pub fn with_pos(self, x: i32, y: i32) -> (r: Label)
        ensures
            r.spec_pos() == (x, y),
            r.spec_font() == self.spec_font(),
            r.spec_text() == self.spec_text(),
    {
        let mut l = self;
        l.pos = (x, y);
        l
    }

    /// Move the label to position (x, y).
    pub fn set_pos(&mut self, x: i32, y: i32)
        ensures
            final(self).spec_pos() == (x, y),
            final(self).spec_font() == old(self).spec_font(),
            final(self).spec_text() == old(self).spec_text(),
    {
        self.pos = (x, y);
    }

    /// The text.
    pub fn text(&self) -> (r: &String)
        ensures
            r@ == self.spec_text(),
    {
        &self.text
    }

    /// The same label showing `text`.
    pub fn with_text(self, text: &str) -> (r: Label)
        ensures
            r.spec_text() == text@,
            r.spec_font() == self.spec_font(),
            r.spec_pos() == self.spec_pos(),
    {
        let mut l = self;
        l.text = String::from_str(text);
        l
    }

    /// Show `text`.
    pub fn set_text(&mut self, text: &str)
        ensures
            final(self).spec_text() == text@,
            final(self).spec_font() == old(self).spec_font(),
            final(self).spec_pos() == old(self).spec_pos(),
    {
        self.text = String::from_str(text);
    }

    /// Draw the text with the label's font from its position.
    pub fn draw(&self, buffer: &mut Vec<u32>, buffer_width: usize, res: &Resources)
        requires
            res.wf(),
            self.spec_font().id() < res.font_seq().len(),
            0 < buffer_width <= i32::MAX,
            old(buffer)@.len() <= i32::MAX,
        ensures
            ({
                let font = res.font_seq()[self.spec_font().id()];
                final(buffer)@ == text_result(
                    font.sheet(),
                    font.layout(),
                    old(buffer)@,
                    buffer_width as int,
                    self.spec_text(),
                    self.spec_pos(),
                )
            }),
    {
        let font = match res.get_font(self.font_ref) {
            Some(f) => f,
            None => {
                assert(false);
                return ;
            },
        };
        font.draw_string(buffer, buffer_width, &self.text, self.pos);
    }
}

} // verus!
