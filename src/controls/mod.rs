//! The widgets: buttons, labels and sprites, and the input they are updated with.
use vstd::prelude::*;

pub mod button;
pub mod sprite;
pub mod text;

pub use self::button::{Button, ButtonState, Flat, Image};
pub use self::sprite::Sprite;
pub use self::text::Label;

use self::button::{flat_fill, flat_result, frame_rect, frame_size, next_state, state_change};
use self::sprite::whole_rect;
use crate::font::{lemma_text_result_len, text_result};
use crate::raster::{blit_size, sheet_draw_result};
use crate::resources::Resources;



verus! {

/// The kinds of widget.
#[derive(Debug, Clone, Copy, PartialEq, Eq, Structural)]
pub enum ControlType {
    Button,
    Label,
    Sprite,
}

/// The input of one frame, handed to `update`.
#[derive(Debug, Clone, Copy)]
pub struct ControlState {
    /// The position of the mouse cursor; it may lie outside the buffer.
    pub mouse_pos: (i32, i32),
    /// Whether the left mouse button is held.
    pub mouse_down: bool,
}

/// Whether point `p` lies in the rectangle at `pos` of size `size`.
pub open spec fn in_rect(p: (i32, i32), pos: (i32, i32), size: (i32, i32)) -> bool {
    &&& pos.0 <= p.0 < pos.0 + size.0
    &&& pos.1 <= p.1 < pos.1 + size.1
}

impl ControlState {
    /// Whether the mouse lies in the rectangle at `pos` of size `size`.
    pub fn mouse_collision(&self, pos: (i32, i32), size: (i32, i32)) -> (r: bool)
        ensures
            r == in_rect(self.mouse_pos, pos, size),
    {
        let x = self.mouse_pos.0 as i64;
        let y = self.mouse_pos.1 as i64;
        x >= pos.0 as i64 && y >= pos.1 as i64 && x < pos.0 as i64 + size.0 as i64 && y < pos.1 as i64
            + size.1 as i64
    }
}

impl Default for ControlState {
    /// The mouse at the origin, not pressed.
    fn default() -> (r: ControlState)
        ensures
            r == (ControlState { mouse_pos: (0i32, 0i32), mouse_down: false }),
    {
        ControlState { mouse_pos: (0, 0), mouse_down: false }
    }
}

/// A widget of any kind, as the registry holds it.
pub enum Widget {
    FlatButton(Button<Flat>),
    ImageButton(Button<Image>),
    Label(Label),
    Sprite(Sprite),
}

impl Widget {
    /// Whether every resource handle of the widget belongs to `res`.
    pub open(crate) spec fn resolves_in(&self, res: &Resources) -> bool {
        match self {
            Widget::FlatButton(_) => true,
            Widget::ImageButton(b) => b.skin().sprite_ref.id() < res.sprite_seq().len(),
            Widget::Label(l) => l.spec_font().id() < res.font_seq().len(),
            Widget::Sprite(s) => s.spec_sprite().id() < res.sprite_seq().len(),
        }
    }

    /// The state a button widget takes for the input; `None` for other widgets.
    pub open(crate) spec fn next_button_state(&self, input: ControlState, res: &Resources) -> Option<
        ButtonState,
    > {
        match self {
            Widget::FlatButton(b) => Some(next_state(input, b.spec_pos(), b.skin().size)),
            Widget::ImageButton(b) => Some(
                next_state(
                    input,
                    b.spec_pos(),
                    frame_size(blit_size(res.sprite_seq()[b.skin().sprite_ref.id()])),
                ),
            ),
            _ => None,
        }
    }

    /// The state of a button widget; `None` for other widgets.
    pub open(crate) spec fn button_state(&self) -> Option<ButtonState> {
        match self {
            Widget::FlatButton(b) => Some(b.spec_state()),
            Widget::ImageButton(b) => Some(b.spec_state()),
            _ => None,
        }
    }

    /// What an update with `input` reports: a button's new state when it changed.
    pub open(crate) spec fn event(&self, input: ControlState, res: &Resources) -> Option<ButtonState> {
        match (self.button_state(), self.next_button_state(input, res)) {
            (Some(before), Some(after)) => state_change(before, after),
            _ => None,
        }
    }

    /// Whether `after` is this widget updated with `input`: a button takes its
    /// next state and keeps the rest; other widgets are unchanged.
    pub open(crate) spec fn updates_to(&self, input: ControlState, res: &Resources, after: Widget) -> bool {
        match (self, after) {
            (Widget::FlatButton(b), Widget::FlatButton(a)) => {
                &&& a.spec_pos() == b.spec_pos()
                &&& a.skin() == b.skin()
                &&& Some(a.spec_state()) == self.next_button_state(input, res)
            },
            (Widget::ImageButton(b), Widget::ImageButton(a)) => {
                &&& a.spec_pos() == b.spec_pos()
                &&& a.skin() == b.skin()
                &&& Some(a.spec_state()) == self.next_button_state(input, res)
            },
            (Widget::Label(_), Widget::Label(_)) => after == *self,
            (Widget::Sprite(_), Widget::Sprite(_)) => after == *self,
            _ => false,
        }
    }

    /// The buffer after drawing the widget on `dst`, `dst_w` pixels wide.
    pub open(crate) spec fn drawn(&self, res: &Resources, dst: Seq<u32>, dst_w: int) -> Seq<u32> {
        match self {
            Widget::FlatButton(b) => flat_result(
                dst,
                dst_w,
                b.spec_pos(),
                b.skin().size,
                flat_fill(b.skin().color.0, b.spec_state()),
            ),
            Widget::ImageButton(b) => {
                let sheet = res.sprite_seq()[b.skin().sprite_ref.id()];
                sheet_draw_result(sheet, dst, dst_w, b.spec_pos(), frame_rect(blit_size(sheet), b.spec_state()))
            },
            Widget::Label(l) => {
                let font = res.font_seq()[l.spec_font().id()];
                text_result(font.sheet(), font.layout(), dst, dst_w, l.spec_text(), l.spec_pos())
            },
            Widget::Sprite(s) => {
                let sheet = res.sprite_seq()[s.spec_sprite().id()];
                sheet_draw_result(sheet, dst, dst_w, s.spec_pos(), whole_rect(blit_size(sheet)))
            },
        }
    }

    /// An update reports a change at most once: updating again with the same
    /// input reports nothing.
    pub proof fn lemma_repeat_update_quiet(&self, input: ControlState, res: &Resources, after: Widget)
        requires
            self.updates_to(input, res, after),
        ensures
            after.event(input, res) is None,
    {
    }

    /// Drawing a widget keeps the buffer's length.
    pub proof fn lemma_drawn_len(&self, res: &Resources, dst: Seq<u32>, dst_w: int)
        ensures
            self.drawn(res, dst, dst_w).len() == dst.len(),
    {
        if let Widget::Label(l) = self {
            let font = res.font_seq()[l.spec_font().id()];
            lemma_text_result_len(font.sheet(), font.layout(), dst, dst_w, l.spec_text(), l.spec_pos());
        }
    }

    /// The kind of the widget.
    pub fn control_type(&self) -> (r: ControlType)
        ensures
            r == match self {
                Widget::FlatButton(_) | Widget::ImageButton(_) => ControlType::Button,
                Widget::Label(_) => ControlType::Label,
                Widget::Sprite(_) => ControlType::Sprite,
            },
    {
        match self {
            Widget::FlatButton(_) | Widget::ImageButton(_) => ControlType::Button,
            Widget::Label(_) => ControlType::Label,
            Widget::Sprite(_) => ControlType::Sprite,
        }
    }

    /// Update the widget with the input of a frame. Returns a button's new
    /// state when it changed.
    pub fn update(&mut self, input: &ControlState, res: &Resources) -> (event: Option<ButtonState>)
        requires
            res.wf(),
            old(self).resolves_in(res),
        ensures
            old(self).updates_to(*input, res, *final(self)),
            event == old(self).event(*input, res),
    {
        match self {
            Widget::FlatButton(b) => b.update(input),
            Widget::ImageButton(b) => b.update(input, res),
            Widget::Label(_) => None,
            Widget::Sprite(_) => None,
        }
    }

    /// Draw the widget on a buffer `buffer_width` pixels wide.
    pub fn draw(&self, buffer: &mut Vec<u32>, buffer_width: usize, res: &Resources)
        requires
            res.wf(),
            self.resolves_in(res),
            0 < buffer_width <= i32::MAX,
            old(buffer)@.len() <= i32::MAX,
        ensures
            final(buffer)@ == self.drawn(res, old(buffer)@, buffer_width as int),
    {
        match self {
            Widget::FlatButton(b) => b.draw(buffer, buffer_width),
            Widget::ImageButton(b) => b.draw(buffer, buffer_width, res),
            Widget::Label(l) => l.draw(buffer, buffer_width, res),
            Widget::Sprite(s) => s.draw(buffer, buffer_width, res),
        }
    }
}

/// A concrete widget type that the registry can hold and hand back.
pub trait Control: Sized {
    /// Whether a widget holds a value of this type.
    spec fn is_kind(w: Widget) -> bool;

    /// The widget that holds this value.
    spec fn to_widget(self) -> Widget;

    /// Wrap the value as a widget.
    fn into_widget(self) -> (w: Widget)
        ensures
            w == self.to_widget(),
            Self::is_kind(w),
    ;

    /// Whether every resource handle of the value belongs to `res`.
    fn resolves(&self, res: &Resources) -> (r: bool)
        ensures
            r == self.to_widget().resolves_in(res),
    ;

    /// The value a widget holds, if it is of this type.
    fn from_widget(w: &Widget) -> (r: Option<&Self>)
        ensures
            r is Some <==> Self::is_kind(*w),
            r matches Some(c) ==> c.to_widget() == *w,
    ;

    /// The value a widget holds, for change, if it is of this type.
    fn from_widget_mut(w: &mut Widget) -> (r: Option<&mut Self>)
        ensures
            r is Some <==> Self::is_kind(*old(w)),
            r matches Some(c) ==> c.to_widget() == *old(w) && *final(w) == final(c).to_widget(),
            r is None ==> *final(w) == *old(w),
    ;
}

impl Control for Button<Flat> {
    open spec fn is_kind(w: Widget) -> bool {
        w is FlatButton
    }

    open spec fn to_widget(self) -> Widget {
        Widget::FlatButton(self)
    }

    fn into_widget(self) -> (w: Widget) {
        Widget::FlatButton(self)
    }

    fn resolves(&self, res: &Resources) -> (r: bool) {
        true
    }

    fn from_widget(w: &Widget) -> (r: Option<&Self>) {
        match w {
            Widget::FlatButton(c) => Some(c),
            _ => None,
        }
    }

    fn from_widget_mut(w: &mut Widget) -> (r: Option<&mut Self>) {
        match w {
            Widget::FlatButton(c) => Some(c),
            _ => None,
        }
    }
}

impl Control for Button<Image> {
    open spec fn is_kind(w: Widget) -> bool {
        w is ImageButton
    }

    open spec fn to_widget(self) -> Widget {
        Widget::ImageButton(self)
    }

    fn into_widget(self) -> (w: Widget) {
        Widget::ImageButton(self)
    }

    fn resolves(&self, res: &Resources) -> (r: bool) {
        res.get_sprite(self.show.sprite_ref).is_some()
    }

    fn from_widget(w: &Widget) -> (r: Option<&Self>) {
        match w {
            Widget::ImageButton(c) => Some(c),
            _ => None,
        }
    }

    fn from_widget_mut(w: &mut Widget) -> (r: Option<&mut Self>) {
        match w {
            Widget::ImageButton(c) => Some(c),
            _ => None,
        }
    }
}

impl Control for Label {
    open spec fn is_kind(w: Widget) -> bool {
        w is Label
    }

    open spec fn to_widget(self) -> Widget {
        Widget::Label(self)
    }

    fn into_widget(self) -> (w: Widget) {
        Widget::Label(self)
    }

    fn resolves(&self, res: &Resources) -> (r: bool) {
        res.get_font(self.font_ref).is_some()
    }

    fn from_widget(w: &Widget) -> (r: Option<&Self>) {
        match w {
            Widget::Label(c) => Some(c),
            _ => None,
        }
    }

    fn from_widget_mut(w: &mut Widget) -> (r: Option<&mut Self>) {
        match w {
            Widget::Label(c) => Some(c),
            _ => None,
        }
    }
}

impl Control for Sprite {
    open spec fn is_kind(w: Widget) -> bool {
        w is Sprite
    }

    open spec fn to_widget(self) -> Widget {
        Widget::Sprite(self)
    }

    fn into_widget(self) -> (w: Widget) {
        Widget::Sprite(self)
    }

    fn resolves(&self, res: &Resources) -> (r: bool) {
        res.get_sprite(self.sprite_ref).is_some()
    }

    fn from_widget(w: &Widget) -> (r: Option<&Self>) {
        match w {
            Widget::Sprite(c) => Some(c),
            _ => None,
        }
    }

    fn from_widget_mut(w: &mut Widget) -> (r: Option<&mut Self>) {
        match w {
            Widget::Sprite(c) => Some(c),
            _ => None,
        }
    }
}

} // verus!
