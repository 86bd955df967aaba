//! Static sprites.
use vstd::prelude::*;

use crate::raster::{blit_size, draw_sheet_rect, sheet_draw_result, sheet_size};
use crate::resources::{Resources, SpriteRef};

verus! {

/// A sprite drawn whole at a fixed position.
#[derive(Debug, Clone, Copy)]
pub struct Sprite {
    pub sprite_ref: SpriteRef,
    pub(crate) pos: (i32, i32),
}

/// The whole of a sheet of size `size`, as a sub-rectangle.
pub open spec fn whole_rect(size: (i32, i32)) -> (i32, i32, i32, i32) {
    (0, 0, size.0, size.1)
}

impl Sprite {
    /// The position.
    pub open(crate) spec fn spec_pos(&self) -> (i32, i32) {
        self.pos
    }

    /// The image.
    pub open(crate) spec fn spec_sprite(&self) -> SpriteRef {
        self.sprite_ref
    }

    /// A sprite of the given image, at the origin.
    pub fn new_with_sprite(sprite_ref: SpriteRef) -> (r: Sprite)
        ensures
            r.spec_sprite() == sprite_ref,
            r.spec_pos() == (0i32, 0i32),
    {
        Sprite { sprite_ref, pos: (0, 0) }
    }

    /// The position.
    pub fn pos(&self) -> (r: (i32, i32))
        ensures
            r == self.spec_pos(),
    {
        self.pos
    }

    /// The same sprite at position (x, y).
    pub fn with_pos(self, x: i32, y: i32) -> (r: Sprite)
        ensures
            r.spec_pos() == (x, y),
            r.spec_sprite() == self.spec_sprite(),
    {
        Sprite { sprite_ref: self.sprite_ref, pos: (x, y) }
    }

    /// Move the sprite to position (x, y).
    pub fn set_pos(&mut self, x: i32, y: i32)
        ensures
            final(self).spec_pos() == (x, y),
            final(self).spec_sprite() == old(self).spec_sprite(),
    {
        self.pos = (x, y);
    }

    /// Draw the whole image at the sprite's position.
    pub fn draw(&self, buffer: &mut Vec<u32>, buffer_width: usize, res: &Resources)
        requires
            res.wf(),
            self.spec_sprite().id() < res.sprite_seq().len(),
            0 < buffer_width <= i32::MAX,
            old(buffer)@.len() <= i32::MAX,
        ensures
            ({
                let sheet = res.sprite_seq()[self.spec_sprite().id()];
                final(buffer)@ == sheet_draw_result(
                    sheet,
                    old(buffer)@,
                    buffer_width as int,
                    self.spec_pos(),
                    whole_rect(blit_size(sheet)),
                )
            }),
    {
        let sprite = match res.get_sprite(self.sprite_ref) {
            Some(s) => s,
            None => {
                assert(false);
                return ;
            },
        };
        let size = sheet_size(sprite);
        draw_sheet_rect(sprite, buffer, buffer_width, self.pos, (0, 0, size.0, size.1));
    }
}

} // verus!
