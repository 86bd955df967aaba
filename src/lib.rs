//! Draw GUI controls directly on a pixel buffer.
//!
//! A [`Gui`] owns the loaded sprites and fonts and an ordered list of widgets.
//! Each frame the caller updates it with the input of the frame and draws it on
//! a buffer of `0xAARRGGBB` pixels; widgets are drawn in the order they were
//! registered, so later ones paint over earlier ones.
use vstd::prelude::*;

pub mod color;
pub mod controls;
pub mod font;
pub mod raster;
pub mod resources;

pub use color::Color;
pub use font::FontSettings;
pub use resources::{FontRef, InvalidImageFormat, LoadError, SpriteRef};

use controls::button::{flat_covers, flat_fill, flat_pixel};
use controls::{Button, ButtonState, Control, ControlState, Flat, Sprite, Widget};
use font::text_result;
use resources::{file_load_outcome, format_of, is_decoded, packed_load_outcome, Resources, SheetFormat};

verus! {

/// The error of a lookup whose handle names no widget of the requested type.
#[derive(Debug, Clone, Copy, PartialEq, Eq, Structural)]
pub struct InvalidControlReference;

impl InvalidControlReference {
    /// What went wrong, in words.
    pub fn message(&self) -> &'static str {
        "reference to control object doesn't exist anymore"
    }
}

/// A handle to a registered widget.
#[derive(Debug, Clone, Copy, PartialEq, Eq, Structural)]
pub struct ControlRef(usize);

impl ControlRef {
    /// The number the handle carries; the k-th registered widget gets k.
    pub closed spec fn id(self) -> int {
        self.0 as int
    }

    /// The number the handle carries.
    pub fn index(&self) -> (r: usize)
        ensures
            r == self.id(),
    {
        self.0
    }
}

/// The buffer after drawing `cs` on `dst` in order.
pub open spec fn draw_all(cs: Seq<Widget>, res: &Resources, dst: Seq<u32>, dst_w: int) -> Seq<u32>
    decreases cs.len(),
{
    if cs.len() == 0 {
        dst
    } else {
        cs.last().drawn(res, draw_all(cs.drop_last(), res, dst, dst_w), dst_w)
    }
}

/// Drawing widgets keeps the buffer's length.
pub proof fn lemma_draw_all_len(cs: Seq<Widget>, res: &Resources, dst: Seq<u32>, dst_w: int)
    ensures
        draw_all(cs, res, dst, dst_w).len() == dst.len(),
    decreases cs.len(),
{
    if cs.len() > 0 {
        lemma_draw_all_len(cs.drop_last(), res, dst, dst_w);
        cs.last().lemma_drawn_len(res, draw_all(cs.drop_last(), res, dst, dst_w), dst_w);
    }
}

/// Compositing order: a flat button drawn after other widgets shows its own
/// colour at every pixel it covers, whatever the widgets before it painted and
/// whatever the buffer held.
pub proof fn lemma_later_paints_over(
    earlier: Seq<Widget>,
    b: Button<Flat>,
    res: &Resources,
    dst: Seq<u32>,
    dst_w: int,
    i: int,
)
    requires
        0 < dst_w,
        0 <= i < dst.len(),
        flat_covers(i % dst_w, i / dst_w, dst_w, (dst.len() as int) / dst_w, b.spec_pos(), b.skin().size),
    ensures
        draw_all(earlier.push(Widget::FlatButton(b)), res, dst, dst_w)[i] == flat_pixel(
            i % dst_w,
            i / dst_w,
            b.spec_pos(),
            b.skin().size,
            flat_fill(b.skin().color.0, b.spec_state()),
        ),
{
    let all = earlier.push(Widget::FlatButton(b));
    assert(all.drop_last() =~= earlier);
    lemma_draw_all_len(earlier, res, dst, dst_w);
}

/// Compositing order for any widget: where the widget registered last puts the
/// same value on a pixel whatever lies beneath it, that value shows after the
/// whole GUI is drawn, whatever the widgets before it painted.
pub proof fn lemma_last_widget_shows(
    earlier: Seq<Widget>,
    last: Widget,
    res: &Resources,
    dst: Seq<u32>,
    dst_w: int,
    i: int,
    v: u32,
)
    requires
        forall|d: Seq<u32>| d.len() == dst.len() ==> (#[trigger] last.drawn(res, d, dst_w))[i] == v,
    ensures
        draw_all(earlier.push(last), res, dst, dst_w)[i] == v,
{
    let all = earlier.push(last);
    assert(all.drop_last() =~= earlier);
    lemma_draw_all_len(earlier, res, dst, dst_w);
    assert(last.drawn(res, draw_all(earlier, res, dst, dst_w), dst_w)[i] == v);
}

/// Compositing order for sprites: where a sprite drawn after other widgets has
/// an opaque cell, that cell's colour shows, whatever the widgets before it
/// painted and whatever the buffer held.
pub proof fn lemma_later_sprite_paints_over(
    earlier: Seq<Widget>,
    s: Sprite,
    res: &Resources,
    dst: Seq<u32>,
    dst_w: int,
    i: int,
)
    requires
        0 < dst_w,
        0 <= i < dst.len(),
        s.spec_sprite().id() < res.sprite_seq().len(),
        sprite_shows_cell(s, res, dst.len() as int, dst_w, i),
    ensures
        draw_all(earlier.push(Widget::Sprite(s)), res, dst, dst_w)[i] == sprite_cell_at(
            s,
            res,
            dst_w,
            i,
        ).0,
{
    let all = earlier.push(Widget::Sprite(s));
    assert(all.drop_last() =~= earlier);
    lemma_draw_all_len(earlier, res, dst, dst_w);
    let d = draw_all(earlier, res, dst, dst_w)[i];
    let c = sprite_cell_at(s, res, dst_w, i).0;
    let a = color::ALPHA_BITS;
    assert(c | a == c ==> (d & a) | c == c) by (bit_vector)
        requires
            a == 0xFF00_0000u32,
    ;
}

/// The sheet cell that a sprite puts on pixel `i` of a buffer `dst_w` wide.
pub open spec fn sprite_cell_at(s: Sprite, res: &Resources, dst_w: int, i: int) -> (u32, u32) {
    let sheet = res.sprite_seq()[s.spec_sprite().id()];
    let x = i % dst_w;
    let y = i / dst_w;
    raster::blit_cells(sheet)[(x - s.spec_pos().0) + (y - s.spec_pos().1) * raster::blit_size(
        sheet,
    ).0]
}

/// Whether a sprite covers pixel `i` of a buffer of `len` pixels `dst_w` wide
/// with an opaque cell.
pub open spec fn sprite_shows_cell(s: Sprite, res: &Resources, len: int, dst_w: int, i: int) -> bool {
    let sheet = res.sprite_seq()[s.spec_sprite().id()];
    let size = raster::blit_size(sheet);
    let c = sprite_cell_at(s, res, dst_w, i);
    &&& s.spec_pos().0 + size.0 <= i32::MAX
    &&& s.spec_pos().1 + size.1 <= i32::MAX
    &&& raster::in_blit_area(i % dst_w, i / dst_w, dst_w, len / dst_w, s.spec_pos(), controls::sprite::whole_rect(size))
    &&& c.1 == color::ALPHA_BITS
    &&& c.0 | color::ALPHA_BITS == c.0
}

/// The events of updating `cs` in order: each button whose state changed,
/// with its new state.
pub open spec fn update_events(
    cs: Seq<(ControlRef, Widget)>,
    input: ControlState,
    res: &Resources,
) -> Seq<(ControlRef, ButtonState)>
    decreases cs.len(),
{
    if cs.len() == 0 {
        Seq::empty()
    } else {
        let before = update_events(cs.drop_last(), input, res);
        match cs.last().1.event(input, res) {
            Some(state) => before.push((cs.last().0, state)),
            None => before,
        }
    }
}

/// The main entry point: the resources, and the widgets in registration order.
pub struct Gui {
    size: (i32, i32),
    resources: Resources,
    controls: Vec<(ControlRef, Widget)>,
    control_ref: usize,
}

impl Gui {
    /// The size of the buffers the GUI draws on.
    pub closed spec fn spec_size(&self) -> (i32, i32) {
        self.size
    }

    /// The resource store.
    pub closed spec fn store(&self) -> Resources {
        self.resources
    }

    /// The registered widgets with their handles, in registration order.
    pub closed spec fn entries(&self) -> Seq<(ControlRef, Widget)> {
        self.controls@
    }

    /// The registered widgets, in registration order.
    pub closed spec fn widgets(&self) -> Seq<Widget> {
        self.controls@.map_values(|e: (ControlRef, Widget)| e.1)
    }

    /// The store is well formed, the k-th widget carries handle k, and every
    /// widget's resources are in the store.
    pub closed spec fn wf(&self) -> bool {
        &&& self.resources.wf()
        &&& self.control_ref == self.controls@.len()
        &&& forall|i: int|
            0 <= i < self.controls@.len() ==> (#[trigger] self.controls@[i]).0 == ControlRef(
                (i + 1) as usize,
            )
        &&& forall|i: int|
            0 <= i < self.controls@.len() ==> (#[trigger] self.controls@[i]).1.resolves_in(
                &self.resources,
            )
    }

    /// A GUI for buffers of `size` (width, height), holding the built-in font:
    /// a blank sheet with the layout of a 9x9 ASCII font, which draws nothing.
    pub fn new(size: (i32, i32)) -> (r: Gui)
        ensures
            r.wf(),
            r.spec_size() == size,
            r.entries().len() == 0,
            r.store().sprite_seq().len() == 0,
            r.store().font_seq().len() == 1,
            r.store().font_seq()[0].layout() == resources::default_font_settings(),
            raster::blit_size(r.store().font_seq()[0].sheet()) == (
                (resources::DEFAULT_FONT_GLYPHS * resources::DEFAULT_FONT_CELL) as i32,
                resources::DEFAULT_FONT_CELL as i32,
            ),
            raster::blit_cells(r.store().font_seq()[0].sheet()) == Seq::new(
                (resources::DEFAULT_FONT_GLYPHS * resources::DEFAULT_FONT_CELL
                    * resources::DEFAULT_FONT_CELL) as nat,
                |i: int| raster::clear_cell(),
            ),
    {
        Gui { size, resources: Resources::new(), controls: Vec::new(), control_ref: 0 }
    }

    /// The number of registered widgets.
    pub fn control_count(&self) -> (r: usize)
        requires
            self.wf(),
        ensures
            r == self.entries().len(),
    {
        self.controls.len()
    }

    /// The number of loaded sprites.
    pub fn sprite_count(&self) -> (r: usize)
        ensures
            r == self.store().sprite_seq().len(),
    {
        self.resources.sprite_count()
    }

    /// The number of fonts, the built-in one included.
    pub fn font_count(&self) -> (r: usize)
        ensures
            r == self.store().font_seq().len(),
    {
        self.resources.font_count()
    }

    /// Whether the resources that `ctrl` refers to are in this GUI's store, as
    /// `register` requires.
    pub fn can_register<T: Control>(&self, ctrl: &T) -> (r: bool)
        ensures
            r == ctrl.to_widget().resolves_in(&self.store()),
    {
        ctrl.resolves(&self.resources)
    }

    /// Register a widget; it is drawn after, and so over, every widget
    /// registered before it. Returns its handle: the k-th widget gets k.
    pub fn register<T: Control>(&mut self, ctrl: T) -> (r: ControlRef)
        requires
            old(self).wf(),
            ctrl.to_widget().resolves_in(&old(self).store()),
            old(self).entries().len() < usize::MAX,
        ensures
            final(self).wf(),
            r.id() == old(self).entries().len() + 1,
            final(self).entries() == old(self).entries().push((r, ctrl.to_widget())),
            final(self).widgets() == old(self).widgets().push(ctrl.to_widget()),
            final(self).store() == old(self).store(),
            final(self).spec_size() == old(self).spec_size(),
    {
        self.control_ref = self.control_ref + 1;
        let r = ControlRef(self.control_ref);
        self.controls.push((r, ctrl.into_widget()));
        assert(self.widgets() =~= old(self).widgets().push(ctrl.to_widget()));
        r
    }

    /// The widget of type `T` registered under `control_ref`; an error when no
    /// widget has that handle or it is of another type.
    pub fn get<T: Control>(&self, control_ref: ControlRef) -> (r: Result<&T, InvalidControlReference>)
        requires
            self.wf(),
        ensures
            r is Ok <==> (1 <= control_ref.id() <= self.entries().len() && T::is_kind(
                self.entries()[control_ref.id() - 1].1,
            )),
            r matches Ok(c) ==> c.to_widget() == self.entries()[control_ref.id() - 1].1,
            r matches Err(e) ==> e == InvalidControlReference,
    {
        if control_ref.0 == 0 || control_ref.0 > self.controls.len() {
            return Err(InvalidControlReference);
        }
        match T::from_widget(&self.controls[control_ref.0 - 1].1) {
            Some(c) => Ok(c),
            None => Err(InvalidControlReference),
        }
    }

    /// The widget of type `T` registered under `control_ref`, for change; an
    /// error when no widget has that handle or it is of another type.
    pub fn get_mut<T: Control>(&mut self, control_ref: ControlRef) -> (r: Result<
        &mut T,
        InvalidControlReference,
    >)
        requires
            old(self).wf(),
        ensures
            r is Ok <==> (1 <= control_ref.id() <= old(self).entries().len() && T::is_kind(
                old(self).entries()[control_ref.id() - 1].1,
            )),
            r matches Ok(c) ==> {
                &&& c.to_widget() == old(self).entries()[control_ref.id() - 1].1
                &&& final(self).entries() == old(self).entries().update(
                    control_ref.id() - 1,
                    (control_ref, final(c).to_widget()),
                )
                &&& final(self).store() == old(self).store()
                &&& final(self).spec_size() == old(self).spec_size()
                &&& final(c).to_widget().resolves_in(&old(self).store()) ==> final(self).wf()
            },
            r is Err ==> {
                &&& final(self).wf()
                &&& final(self).entries() == old(self).entries()
                &&& final(self).store() == old(self).store()
                &&& final(self).spec_size() == old(self).spec_size()
            },
            r matches Err(e) ==> e == InvalidControlReference,
    {
        if control_ref.0 == 0 || control_ref.0 > self.controls.len() {
            return Err(InvalidControlReference);
        }
        let entry = &mut self.controls[control_ref.0 - 1];
        match T::from_widget_mut(&mut entry.1) {
            Some(c) => Ok(c),
            None => Err(InvalidControlReference),
        }
    }

    /// Update every widget with the input of a frame, in registration order.
    /// Returns, in that order, each button whose state changed, with its new
    /// state.
    pub fn update(&mut self, state: &ControlState) -> (events: Vec<(ControlRef, ButtonState)>)
        requires
            old(self).wf(),
        ensures
            final(self).wf(),
            final(self).store() == old(self).store(),
            final(self).spec_size() == old(self).spec_size(),
            final(self).entries().len() == old(self).entries().len(),
            forall|i: int|
                0 <= i < old(self).entries().len() ==> {
                    &&& (#[trigger] final(self).entries()[i]).0 == old(self).entries()[i].0
                    &&& old(self).entries()[i].1.updates_to(
                        *state,
                        &old(self).store(),
                        final(self).entries()[i].1,
                    )
                },
            events@ == update_events(old(self).entries(), *state, &old(self).store()),
    {
        let ghost before = self.controls@;
        let mut events: Vec<(ControlRef, ButtonState)> = Vec::new();
        let n = self.controls.len();
        let mut i: usize = 0;
        assert(before.subrange(0, 0) =~= Seq::<(ControlRef, Widget)>::empty());
        while i < n
            invariant
                self.wf(),
                n == before.len(),
                self.controls@.len() == n,
                self.resources == old(self).resources,
                self.size == old(self).size,
                i <= n,
                forall|j: int|
                    0 <= j < n ==> (#[trigger] self.controls@[j]).0 == before[j].0,
                forall|j: int|
                    0 <= j < i ==> before[j].1.updates_to(
                        *state,
                        &self.resources,
                        (#[trigger] self.controls@[j]).1,
                    ),
                forall|j: int| i <= j < n ==> #[trigger] self.controls@[j] == before[j],
                events@ == update_events(before.subrange(0, i as int), *state, &self.resources),
            decreases n - i,
        {
            let ghost w = self.controls@[i as int];
            let r = self.controls[i].0;
            let event = self.controls[i].1.update(state, &self.resources);
            match event {
                Some(st) => events.push((r, st)),
                None => {},
            }
            proof {
                assert(before.subrange(0, i + 1).drop_last() =~= before.subrange(0, i as int));
                assert(before.subrange(0, i + 1).last() == before[i as int]);
                assert(w == before[i as int]);
                let after = self.controls@[i as int].1;
                match (w.1, after) {
                    (Widget::ImageButton(b), Widget::ImageButton(a)) => {
                        assert(a.skin() == b.skin());
                    },
                    _ => {},
                }
                assert(after.resolves_in(&self.resources));
            }
            i = i + 1;
        }
        assert(before.subrange(0, n as int) =~= before);
        events
    }

    /// Draw every widget on `buffer`, a buffer of the GUI's width, in
    /// registration order: where two widgets overlap, the one registered later
    /// paints last.
    pub fn draw_to_buffer(&mut self, buffer: &mut Vec<u32>)
        requires
            old(self).wf(),
            old(self).spec_size().0 > 0,
            old(buffer)@.len() <= i32::MAX,
        ensures
            *final(self) == *old(self),
            final(buffer)@ == draw_all(
                old(self).widgets(),
                &old(self).store(),
                old(buffer)@,
                old(self).spec_size().0 as int,
            ),
    {
        let ghost d = buffer@;
        let ghost ws = self.widgets();
        let width = self.size.0 as usize;
        let n = self.controls.len();
        let mut i: usize = 0;
        assert(ws.subrange(0, 0) =~= Seq::<Widget>::empty());
        while i < n
            invariant
                self.wf(),
                n == self.controls@.len(),
                ws == self.widgets(),
                ws.len() == n,
                width == self.size.0,
                0 < width <= i32::MAX,
                i <= n,
                buffer@.len() == d.len(),
                d.len() <= i32::MAX,
                buffer@ == draw_all(ws.subrange(0, i as int), &self.resources, d, width as int),
            decreases n - i,
        {
            let ghost current = buffer@;
            self.controls[i].1.draw(buffer, width, &self.resources);
            proof {
                self.controls@[i as int].1.lemma_drawn_len(&self.resources, current, width as int);
                assert(ws.subrange(0, i + 1).drop_last() =~= ws.subrange(0, i as int));
                assert(ws.subrange(0, i + 1).last() == self.controls@[i as int].1);
            }
            i = i + 1;
        }
        assert(ws.subrange(0, n as int) =~= ws);
    }

    /// Draw `string` with a font from `pos`, once, without registering a label.
    pub fn draw_label(&mut self, buffer: &mut Vec<u32>, font_ref: FontRef, string: &str, pos: (
        i32,
        i32,
    ))
        requires
            old(self).wf(),
            font_ref.id() < old(self).store().font_seq().len(),
            old(self).spec_size().0 > 0,
            old(buffer)@.len() <= i32::MAX,
        ensures
            *final(self) == *old(self),
            ({
                let font = old(self).store().font_seq()[font_ref.id()];
                final(buffer)@ == text_result(
                    font.sheet(),
                    font.layout(),
                    old(buffer)@,
                    old(self).spec_size().0 as int,
                    string@,
                    pos,
                )
            }),
    {
        let font = match self.resources.get_font(font_ref) {
            Some(f) => f,
            None => {
                assert(false);
                return ;
            },
        };
        let text = String::from_str(string);
        font.draw_string(buffer, self.size.0 as usize, &text, pos);
    }

    /// The handle of the built-in font, a blank sheet that draws nothing.
    pub fn default_font(&self) -> (r: FontRef)
        requires
            self.wf(),
        ensures
            r.id() == 0,
            r.id() < self.store().font_seq().len(),
    {
        self.resources.default_font()
    }

    /// Load a sprite from the contents of the file at `path`; see
    /// `Resources::load_sprite_from_file`.
    pub fn load_sprite_from_file(&mut self, path: &str, contents: &[u8], mask_color: Color) -> (r:
        Result<SpriteRef, LoadError>)
        requires
            old(self).wf(),
        ensures
            final(self).wf(),
            final(self).store().sprite_loaded(&old(self).store(), r),
            final(self).entries() == old(self).entries(),
            final(self).spec_size() == old(self).spec_size(),
            file_load_outcome(path@, contents@, mask_color.0, r),
            r is Ok ==> is_decoded(
                final(self).store().sprite_seq().last(),
                format_of(path@)->0,
                contents@,
                mask_color.0,
            ),
    {
        let r = self.resources.load_sprite_from_file(path, contents, mask_color);
        proof {
            self.lemma_store_grows(old(self).resources);
        }
        r
    }

    /// Load a sprite from bytes in blit's packed format.
    pub fn load_sprite_from_memory(&mut self, buffer: &[u8]) -> (r: Result<SpriteRef, LoadError>)
        requires
            old(self).wf(),
        ensures
            final(self).wf(),
            final(self).store().sprite_loaded(&old(self).store(), r),
            final(self).entries() == old(self).entries(),
            final(self).spec_size() == old(self).spec_size(),
            packed_load_outcome(buffer@, r),
            r is Ok ==> is_decoded(final(self).store().sprite_seq().last(), SheetFormat::Blit, buffer@, 0),
    {
        let r = self.resources.load_sprite_from_memory(buffer);
        proof {
            self.lemma_store_grows(old(self).resources);
        }
        r
    }

    /// Load a font sheet from the contents of the file at `path`; see
    /// `Resources::load_font_sprite_from_file`.
    pub fn load_font_sprite_from_file(
        &mut self,
        path: &str,
        contents: &[u8],
        settings: FontSettings,
    ) -> (r: Result<FontRef, LoadError>)
        requires
            old(self).wf(),
        ensures
            final(self).wf(),
            final(self).store().font_loaded(&old(self).store(), settings, r),
            final(self).entries() == old(self).entries(),
            final(self).spec_size() == old(self).spec_size(),
            file_load_outcome(path@, contents@, settings.mask_color.0, r),
            r is Ok ==> is_decoded(
                final(self).store().font_seq().last().sheet(),
                format_of(path@)->0,
                contents@,
                settings.mask_color.0,
            ),
    {
        let r = self.resources.load_font_sprite_from_file(path, contents, settings);
        proof {
            self.lemma_store_grows(old(self).resources);
        }
        r
    }

    /// Load a font sheet from bytes in blit's packed format.
    pub fn load_font_sprite_from_memory(&mut self, buffer: &[u8], settings: FontSettings) -> (r:
        Result<FontRef, LoadError>)
        requires
            old(self).wf(),
        ensures
            final(self).wf(),
            final(self).store().font_loaded(&old(self).store(), settings, r),
            final(self).entries() == old(self).entries(),
            final(self).spec_size() == old(self).spec_size(),
            packed_load_outcome(buffer@, r),
            r is Ok ==> is_decoded(final(self).store().font_seq().last().sheet(), SheetFormat::Blit, buffer@, 0),
    {
        let r = self.resources.load_font_sprite_from_memory(buffer, settings);
        proof {
            self.lemma_store_grows(old(self).resources);
        }
        r
    }

    /// A store that only grew keeps every widget's resources.
    proof fn lemma_store_grows(&self, earlier: Resources)
        requires
            self.resources.wf(),
            self.control_ref == self.controls@.len(),
            forall|i: int|
                0 <= i < self.controls@.len() ==> (#[trigger] self.controls@[i]).0 == ControlRef(
                    (i + 1) as usize,
                ),
            forall|i: int|
                0 <= i < self.controls@.len() ==> (#[trigger] self.controls@[i]).1.resolves_in(
                    &earlier,
                ),
            earlier.sprite_seq().len() <= self.resources.sprite_seq().len(),
            earlier.font_seq().len() <= self.resources.font_seq().len(),
        ensures
            self.wf(),
    {
        assert forall|i: int| 0 <= i < self.controls@.len() implies (
        #[trigger] self.controls@[i]).1.resolves_in(&self.resources) by {
            assert(self.controls@[i].1.resolves_in(&earlier));
        }
    }
}

} // verus!
