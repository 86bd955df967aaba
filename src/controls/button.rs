//! Buttons: a three-state machine driven by the mouse, drawn flat or from a sprite.
use vstd::prelude::*;

use vstd::arithmetic::div_mod::{lemma_fundamental_div_mod, lemma_fundamental_div_mod_converse};

use crate::color::Color;
use crate::controls::{in_rect, ControlState};
use crate::raster::{blit_size, draw_sheet_rect, sheet_draw_result, sheet_size};
use crate::resources::{Resources, SpriteRef};

verus! {

/// ORed into the colour of a flat button under the mouse.
pub const HOVER_BRIGHTEN: u32 = 0x44_44_44;

/// ANDed into the colour of a pressed flat button.
pub const PRESSED_DIM: u32 = 0xAA_AA_AA;

/// The colour of a flat button's one-pixel border.
pub const BORDER_COLOR: u32 = 0;

/// The skin of a button drawn as a filled rectangle.
#[derive(Debug, Clone, Copy)]
pub struct Flat {
    pub color: Color,
    pub size: (i32, i32),
}

/// The skin of a button drawn from a sprite of three frames stacked vertically:
/// normal, hover and pressed.
#[derive(Debug, Clone, Copy, PartialEq, Eq, Structural)]
pub struct Image {
    pub sprite_ref: SpriteRef,
}

/// The state of a button as `update` last determined it.
#[derive(Debug, Clone, Copy, PartialEq, Eq, Structural)]
pub enum ButtonState {
    /// The mouse is not over the button.
    Normal,
    /// The mouse is over the button and not pressed.
    Hover,
    /// The mouse is over the button and pressed.
    Pressed,
}

/// A button, with skin `S` (`Flat` or `Image`).
pub struct Button<S> {
    pub(crate) show: S,
    pub(crate) pos: (i32, i32),
    pub(crate) state: ButtonState,
}

/// The state of a button whose hit rectangle is at `pos` of size `size`.
pub open spec fn next_state(input: ControlState, pos: (i32, i32), size: (i32, i32)) -> ButtonState {
    if !in_rect(input.mouse_pos, pos, size) {
        ButtonState::Normal
    } else if input.mouse_down {
        ButtonState::Pressed
    } else {
        ButtonState::Hover
    }
}

/// The event of an update: the new state when it differs from the old one.
pub open spec fn state_change(before: ButtonState, after: ButtonState) -> Option<ButtonState> {
    if before == after {
        None
    } else {
        Some(after)
    }
}

/// The hit rectangle of a sprite button: one frame of its sheet.
pub open spec fn frame_size(sheet_size: (i32, i32)) -> (i32, i32) {
    (sheet_size.0, (sheet_size.1 / 3) as i32)
}

/// The position of a state's frame in a sprite button's sheet.
pub open spec fn frame_index(state: ButtonState) -> int {
    match state {
        ButtonState::Normal => 0,
        ButtonState::Hover => 1,
        ButtonState::Pressed => 2,
    }
}

/// The part of a sprite button's sheet that shows `state`.
pub open spec fn frame_rect(sheet_size: (i32, i32), state: ButtonState) -> (i32, i32, i32, i32) {
    let h = sheet_size.1 / 3;
    (0, (frame_index(state) * h) as i32, sheet_size.0, h as i32)
}

/// The fill colour of a flat button in `state`.
pub open spec fn flat_fill(color: u32, state: ButtonState) -> u32 {
    match state {
        ButtonState::Normal => color,
        ButtonState::Hover => color | HOVER_BRIGHTEN,
        ButtonState::Pressed => color & PRESSED_DIM,
    }
}

/// Whether a flat button at `pos` of size `size` covers pixel (x, y) of a
/// buffer `dst_w` wide and `dst_h` tall.
pub open spec fn flat_covers(
    x: int,
    y: int,
    dst_w: int,
    dst_h: int,
    pos: (i32, i32),
    size: (i32, i32),
) -> bool {
    &&& 0 <= x < dst_w
    &&& 0 <= y < dst_h
    &&& pos.0 <= x < pos.0 + size.0
    &&& pos.1 <= y < pos.1 + size.1
}

/// The colour of a flat button at pixel (x, y): the border on its edges, the
/// fill inside.
pub open spec fn flat_pixel(x: int, y: int, pos: (i32, i32), size: (i32, i32), fill: u32) -> u32 {
    if x == pos.0 || x == pos.0 + size.0 - 1 || y == pos.1 || y == pos.1 + size.1 - 1 {
        BORDER_COLOR
    } else {
        fill
    }
}

/// The buffer after painting a flat button: every covered pixel replaced,
/// the others kept.
pub open spec fn flat_result(
    dst: Seq<u32>,
    dst_w: int,
    pos: (i32, i32),
    size: (i32, i32),
    fill: u32,
) -> Seq<u32> {
    Seq::new(
        dst.len(),
        |i: int|
            if flat_covers(i % dst_w, i / dst_w, dst_w, (dst.len() as int) / dst_w, pos, size) {
                flat_pixel(i % dst_w, i / dst_w, pos, size, fill)
            } else {
                dst[i]
            },
    )
}

/// The buffer while painting: the covered pixels before row `cy`, and those of
/// row `cy` before column `cx`, are painted.
spec fn flat_partial(
    dst: Seq<u32>,
    dst_w: int,
    pos: (i32, i32),
    size: (i32, i32),
    fill: u32,
    cy: int,
    cx: int,
) -> Seq<u32> {
    Seq::new(
        dst.len(),
        |i: int|
            if flat_covers(i % dst_w, i / dst_w, dst_w, (dst.len() as int) / dst_w, pos, size) && (i
                / dst_w < cy || (i / dst_w == cy && i % dst_w < cx)) {
                flat_pixel(i % dst_w, i / dst_w, pos, size, fill)
            } else {
                dst[i]
            },
    )
}

fn min_i64(a: i64, b: i64) -> (r: i64)
    ensures
        r == if a < b {
            a
        } else {
            b
        },
{
    if a < b {
        a
    } else {
        b
    }
}

fn max_i64(a: i64, b: i64) -> (r: i64)
    ensures
        r == if a > b {
            a
        } else {
            b
        },
{
    if a > b {
        a
    } else {
        b
    }
}

/// Paint a flat button's rectangle, clipped to the buffer.
fn paint_flat(buffer: &mut Vec<u32>, buffer_width: usize, pos: (i32, i32), size: (i32, i32), fill: u32)
    requires
        0 < buffer_width <= i32::MAX,
        old(buffer)@.len() <= i32::MAX,
    ensures
        final(buffer)@ == flat_result(old(buffer)@, buffer_width as int, pos, size, fill),
{
    let ghost d = buffer@;
    let ghost w = buffer_width as int;
    let width = buffer_width as i64;
    let height = (buffer.len() / buffer_width) as i64;
    let x0 = max_i64(pos.0 as i64, 0);
    let x1 = min_i64(pos.0 as i64 + size.0 as i64, width);
    let y0 = max_i64(pos.1 as i64, 0);
    let y1 = min_i64(pos.1 as i64 + size.1 as i64, height);
    let mut y = y0;
    assert(buffer@ =~= flat_partial(d, w, pos, size, fill, y as int, 0));
    while y < y1
        invariant
            buffer@.len() == d.len(),
            d.len() <= i32::MAX,
            w == buffer_width,
            0 < w <= i32::MAX,
            width == w,
            height == (d.len() as int) / w,
            x0 == if pos.0 > 0 { pos.0 as int } else { 0 },
            x1 == if pos.0 + size.0 < w { pos.0 + size.0 } else { w },
            y0 == if pos.1 > 0 { pos.1 as int } else { 0 },
            y1 == if pos.1 + size.1 < height { pos.1 + size.1 } else { height as int },
            y0 <= y,
            y1 < y ==> y == y0,
            buffer@ == flat_partial(d, w, pos, size, fill, y as int, 0),
        decreases y1 - y,
    {
        let mut x = x0;
        assert forall|i: int| 0 <= i < d.len() implies #[trigger] flat_partial(d, w, pos, size, fill, y as int, 0)[i]
            == flat_partial(d, w, pos, size, fill, y as int, x as int)[i] by {
        }
        assert(buffer@ =~= flat_partial(d, w, pos, size, fill, y as int, x as int));
        while x < x1
            invariant
                buffer@.len() == d.len(),
                d.len() <= i32::MAX,
                w == buffer_width,
                0 < w <= i32::MAX,
                width == w,
                height == (d.len() as int) / w,
                x0 == if pos.0 > 0 { pos.0 as int } else { 0 },
                x1 == if pos.0 + size.0 < w { pos.0 + size.0 } else { w },
                y0 <= y < y1,
                y1 <= height,
                y0 == if pos.1 > 0 { pos.1 as int } else { 0 },
                y1 == if pos.1 + size.1 < height { pos.1 + size.1 } else { height as int },
                x0 <= x,
                x1 < x ==> x == x0,
                buffer@ == flat_partial(d, w, pos, size, fill, y as int, x as int),
            decreases x1 - x,
        {
            assert((y as int) * w + (x as int) < d.len()) by (nonlinear_arith)
                requires
                    0 <= x < w,
                    0 <= y < height,
                    height == (d.len() as int) / w,
                    0 < w,
            {
                lemma_fundamental_div_mod(d.len() as int, w);
                assert((y as int) * w + (x as int) < (y + 1) * w);
                assert((y + 1) * w <= height * w);
            }
            let idx = (x + y * width) as usize;
            let ghost before = buffer@;
            let v = if x == pos.0 as i64 || x == pos.0 as i64 + size.0 as i64 - 1 || y == pos.1 as i64
                || y == pos.1 as i64 + size.1 as i64 - 1 {
                BORDER_COLOR
            } else {
                fill
            };
            buffer.set(idx, v);
            proof {
                lemma_fundamental_div_mod_converse(idx as int, w, y as int, x as int);
                assert forall|i: int| 0 <= i < d.len() implies #[trigger] buffer@[i] == flat_partial(
                    d,
                    w,
                    pos,
                    size,
                    fill,
                    y as int,
                    x + 1,
                )[i] by {
                    if i != idx {
                        lemma_fundamental_div_mod(i, w);
                        lemma_fundamental_div_mod(idx as int, w);
                    }
                }
            }
            assert(buffer@ =~= flat_partial(d, w, pos, size, fill, y as int, x + 1));
            x = x + 1;
        }
        assert forall|i: int| 0 <= i < d.len() implies #[trigger] buffer@[i] == flat_partial(
            d,
            w,
            pos,
            size,
            fill,
            y + 1,
            0,
        )[i] by {
            if i / w == y {
                assert(!(x1 <= i % w) ==> i % w < x);
            }
        }
        assert(buffer@ =~= flat_partial(d, w, pos, size, fill, y + 1, 0));
        y = y + 1;
    }
    assert forall|i: int| 0 <= i < d.len() implies #[trigger] buffer@[i] == flat_result(
        d,
        w,
        pos,
        size,
        fill,
    )[i] by {
        lemma_fundamental_div_mod(i, w);
        if flat_covers(i % w, i / w, w, (d.len() as int) / w, pos, size) {
            assert(i / w < y);
        }
    }
    assert(buffer@ =~= flat_result(d, w, pos, size, fill));
}

impl<S> Button<S> {
    /// The position.
    pub open(crate) spec fn spec_pos(&self) -> (i32, i32) {
        self.pos
    }

    /// The state.
    pub open(crate) spec fn spec_state(&self) -> ButtonState {
        self.state
    }

    /// The skin.
    pub open(crate) spec fn skin(&self) -> S {
        self.show
    }

    /// The position.
    pub fn pos(&self) -> (r: (i32, i32))
        ensures
            r == self.spec_pos(),
    {
        self.pos
    }

    /// The same button at position (x, y).
    pub fn with_pos(self, x: i32, y: i32) -> (r: Self)
        ensures
            r.spec_pos() == (x, y),
            r.spec_state() == self.spec_state(),
            r.skin() == self.skin(),
    {
        let mut b = self;
        b.pos = (x, y);
        b
    }

    /// Move the button to position (x, y).
    pub fn set_pos(&mut self, x: i32, y: i32)
        ensures
            final(self).spec_pos() == (x, y),
            final(self).spec_state() == old(self).spec_state(),
            final(self).skin() == old(self).skin(),
    {
        self.pos = (x, y);
    }

    /// Whether the button is pressed.
    pub fn pressed(&self) -> (r: bool)
        ensures
            r == (self.spec_state() == ButtonState::Pressed),
    {
        match self.state {
            ButtonState::Pressed => true,
            _ => false,
        }
    }

    /// The state.
    pub fn state(&self) -> (r: ButtonState)
        ensures
            r == self.spec_state(),
    {
        self.state
    }

    /// Move to `next` and report the change, if any.
    fn enter(&mut self, next: ButtonState) -> (event: Option<ButtonState>)
        ensures
            final(self).spec_state() == next,
            final(self).spec_pos() == old(self).spec_pos(),
            final(self).skin() == old(self).skin(),
            event == state_change(old(self).spec_state(), next),
    {
        let prev = self.state;
        self.state = next;
        if prev != next {
            Some(next)
        } else {
            None
        }
    }
}

/// The state a button takes for the input, given its hit rectangle.
fn state_for(args: &ControlState, pos: (i32, i32), size: (i32, i32)) -> (r: ButtonState)
    ensures
        r == next_state(*args, pos, size),
{
    if !args.mouse_collision(pos, size) {
        ButtonState::Normal
    } else if args.mouse_down {
        ButtonState::Pressed
    } else {
        ButtonState::Hover
    }
}

impl Button<Flat> {
    /// A flat button of `size` filled with `color`, at the origin.
    pub fn new(size: (i32, i32), color: Color) -> (r: Self)
        ensures
            r.skin() == (Flat { color, size }),
            r.spec_pos() == (0i32, 0i32),
            r.spec_state() == ButtonState::Normal,
    {
        Button { show: Flat { color, size }, pos: (0, 0), state: ButtonState::Normal }
    }

    /// Take the state that the input gives, the hit rectangle being the
    /// button's rectangle. Returns the new state when it changed.
    pub fn update(&mut self, args: &ControlState) -> (event: Option<ButtonState>)
        ensures
            final(self).spec_state() == next_state(*args, old(self).spec_pos(), old(self).skin().size),
            final(self).spec_pos() == old(self).spec_pos(),
            final(self).skin() == old(self).skin(),
            event == state_change(old(self).spec_state(), final(self).spec_state()),
    {
        let next = state_for(args, self.pos, self.show.size);
        self.enter(next)
    }

    /// Paint the button: its border in `BORDER_COLOR`, its inside in its colour,
    /// brightened under the mouse and dimmed when pressed.
    pub fn draw(&self, buffer: &mut Vec<u32>, buffer_width: usize)
        requires
            0 < buffer_width <= i32::MAX,
            old(buffer)@.len() <= i32::MAX,
        ensures
            final(buffer)@ == flat_result(
                old(buffer)@,
                buffer_width as int,
                self.spec_pos(),
                self.skin().size,
                flat_fill(self.skin().color.0, self.spec_state()),
            ),
    {
        let mut color = self.show.color.u32();
        match self.state {
            ButtonState::Hover => color = color | HOVER_BRIGHTEN,
            ButtonState::Pressed => color = color & PRESSED_DIM,
            _ => {},
        }
        paint_flat(buffer, buffer_width, self.pos, self.show.size, color);
    }
}

impl Button<Image> {
    /// A button drawn from a sprite of three stacked frames, at the origin.
    pub fn new_with_sprite(sprite_ref: SpriteRef) -> (r: Self)
        ensures
            r.skin() == (Image { sprite_ref }),
            r.spec_pos() == (0i32, 0i32),
            r.spec_state() == ButtonState::Normal,
    {
        Button { show: Image { sprite_ref }, pos: (0, 0), state: ButtonState::Normal }
    }

    /// Take the state that the input gives, the hit rectangle being one frame
    /// of the sprite. Returns the new state when it changed.
    pub fn update(&mut self, args: &ControlState, res: &Resources) -> (event: Option<ButtonState>)
        requires
            res.wf(),
            old(self).skin().sprite_ref.id() < res.sprite_seq().len(),
        ensures
            final(self).spec_state() == next_state(
                *args,
                old(self).spec_pos(),
                frame_size(blit_size(res.sprite_seq()[old(self).skin().sprite_ref.id()])),
            ),
            final(self).spec_pos() == old(self).spec_pos(),
            final(self).skin() == old(self).skin(),
            event == state_change(old(self).spec_state(), final(self).spec_state()),
    {
        let sprite = match res.get_sprite(self.show.sprite_ref) {
            Some(s) => s,
            None => {
                assert(false);
                return None;
            },
        };
        let size = sheet_size(sprite);
        let frame = (size.0, size.1 / 3);
        let next = state_for(args, self.pos, frame);
        self.enter(next)
    }

    /// Draw the frame of the sprite that shows the button's state.
    pub fn draw(&self, buffer: &mut Vec<u32>, buffer_width: usize, res: &Resources)
        requires
            res.wf(),
            self.skin().sprite_ref.id() < res.sprite_seq().len(),
            0 < buffer_width <= i32::MAX,
            old(buffer)@.len() <= i32::MAX,
        ensures
            ({
                let sheet = res.sprite_seq()[self.skin().sprite_ref.id()];
                final(buffer)@ == sheet_draw_result(
                    sheet,
                    old(buffer)@,
                    buffer_width as int,
                    self.spec_pos(),
                    frame_rect(blit_size(sheet), self.spec_state()),
                )
            }),
    {
        let sprite = match res.get_sprite(self.show.sprite_ref) {
            Some(s) => s,
            None => {
                assert(false);
                return ;
            },
        };
        let size = sheet_size(sprite);
        let h = size.1 / 3;
        let offset = match self.state {
            ButtonState::Normal => 0,
            ButtonState::Hover => h,
            ButtonState::Pressed => h * 2,
        };
        draw_sheet_rect(sprite, buffer, buffer_width, self.pos, (0, offset, size.0, h));
    }
}

} // verus!
