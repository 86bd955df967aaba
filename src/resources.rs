//! The store of loaded sprites and fonts, addressed by stable handles.
use vstd::prelude::*;

use crate::color::{Color, ALPHA_BITS};
use crate::font::{Font, FontSettings};
use crate::raster::{
    blit_cells, blit_size, clear_cell, blit_unpacked, png_rgb, png_sheet, png_size, rgb_sheet_of, sheet_colors,
    sheet_from_packed, sheet_from_pixels, sheet_ok, sheet_size,
};

verus! {

/// The error of a load whose path names neither a `.png` nor a `.blit` file.
#[derive(Debug, Clone, Copy, PartialEq, Eq, Structural)]
pub struct InvalidImageFormat;

impl InvalidImageFormat {
    /// What went wrong, in words.
    pub fn message(&self) -> &'static str {
        "file format doesn't match '.png' or '.blit'"
    }
}

/// Why a sprite or font could not be loaded.
#[derive(Debug, Clone, Copy, PartialEq, Eq, Structural)]
pub enum LoadError {
    /// The file extension names no supported format.
    InvalidImageFormat,
    /// The bytes could not be decoded into a sheet of plain RGB or packed cells.
    DecodeFailed,
}

/// The two formats a sheet is read from.
#[derive(Debug, Clone, Copy, PartialEq, Eq, Structural)]
pub enum SheetFormat {
    /// blit's packed format: cells with the transparency already resolved.
    Blit,
    /// A PNG image of 8-bit RGB pixels.
    Png,
}

/// A handle to a loaded sprite.
#[derive(Debug, Clone, Copy, PartialEq, Eq, Structural)]
pub struct SpriteRef(pub(crate) usize);

/// A handle to a loaded font.
#[derive(Debug, Clone, Copy, PartialEq, Eq, Structural)]
pub struct FontRef(pub(crate) usize);

impl SpriteRef {
    /// The position of the sprite in the store.
    pub open(crate) spec fn id(self) -> int {
        self.0 as int
    }

    /// The position of the sprite in the store: the number of sprites loaded
    /// before it.
    pub fn index(&self) -> (r: usize)
        ensures
            r == self.id(),
    {
        self.0
    }
}

impl FontRef {
    /// The position of the font in the store.
    pub open(crate) spec fn id(self) -> int {
        self.0 as int
    }

    /// The position of the font in the store: the number of fonts loaded
    /// before it, the built-in one included.
    pub fn index(&self) -> (r: usize)
        ensures
            r == self.id(),
    {
        self.0
    }
}

/// The first character of the built-in font.
///
/// The built-in font is a blank sheet: its layout is that of a 9x9 ASCII font,
/// but every cell is transparent, so text drawn with it leaves the buffer as it
/// was. It holds the place of a font until one is loaded.
pub const DEFAULT_FONT_START: char = '!';

/// The glyph cell of the built-in font, in pixels.
pub const DEFAULT_FONT_CELL: usize = 9;

/// The leading of the built-in font.
pub const DEFAULT_FONT_LEADING: i32 = 2;

/// The mask colour of the built-in font.
pub const DEFAULT_FONT_MASK: u32 = 0xFF_00_FF;

/// The glyph cells of the built-in sheet: one for every printable ASCII
/// character after the space, all of them blank.
pub const DEFAULT_FONT_GLYPHS: usize = 94;

/// The layout of the built-in font.
pub open spec fn default_font_settings() -> FontSettings {
    FontSettings {
        start: DEFAULT_FONT_START,
        char_size: (DEFAULT_FONT_CELL, DEFAULT_FONT_CELL),
        leading_offset: DEFAULT_FONT_LEADING,
        mask_color: Color(DEFAULT_FONT_MASK | ALPHA_BITS),
    }
}

/// The extension of the file that a path names: the text after the last dot of
/// its last component, where that dot does not start the component.
/// `scan_end` is the position (exclusive) from which the scan goes back.
pub open spec fn extension_dot(p: Seq<char>, scan_end: int) -> Option<int>
    decreases scan_end,
{
    if scan_end <= 0 {
        None
    } else if p[scan_end - 1] == '/' {
        None
    } else if p[scan_end - 1] == '.' {
        if scan_end - 1 == 0 || p[scan_end - 2] == '/' {
            None
        } else {
            Some(scan_end - 1)
        }
    } else {
        extension_dot(p, scan_end - 1)
    }
}

/// The end (exclusive) of the first `n` characters of a path without their
/// trailing separators and `.` components: `a.png/` and `a.png/.` name the
/// file `a.png`.
pub open spec fn trimmed_end(p: Seq<char>, n: int) -> int
    decreases n,
{
    if n >= 1 && p[n - 1] == '/' {
        trimmed_end(p, n - 1)
    } else if n >= 2 && p[n - 1] == '.' && p[n - 2] == '/' {
        trimmed_end(p, n - 1)
    } else {
        n
    }
}

/// The extension of a path, if it has one.
pub open spec fn extension_of(p: Seq<char>) -> Option<Seq<char>> {
    let end = trimmed_end(p, p.len() as int);
    match extension_dot(p, end) {
        Some(d) => Some(p.subrange(d + 1, end)),
        None => None,
    }
}

/// A character in ASCII lower case.
pub open spec fn ascii_lower(c: char) -> char {
    if 'A' <= c <= 'Z' {
        ((c as u8) + 32) as u8 as char
    } else {
        c
    }
}

/// Whether `ext` is `word` written in any mix of ASCII cases.
pub open spec fn ext_is(ext: Seq<char>, word: Seq<char>) -> bool {
    ext.len() == word.len() && forall|i: int| 0 <= i < ext.len() ==> ascii_lower(#[trigger] ext[i]) == word[i]
}

/// The format that a path's extension selects.
pub open spec fn format_of(p: Seq<char>) -> Option<SheetFormat> {
    match extension_of(p) {
        Some(ext) => if ext_is(ext, seq!['b', 'l', 'i', 't']) {
            Some(SheetFormat::Blit)
        } else if ext_is(ext, seq!['p', 'n', 'g']) {
            Some(SheetFormat::Png)
        } else {
            None
        },
        None => None,
    }
}

fn lower_char(c: char) -> (r: char)
    ensures
        r == ascii_lower(c),
{
    if 'A' <= c && c <= 'Z' {
        ((c as u8) + 32) as char
    } else {
        c
    }
}

/// Whether chars `from..` of `path` spell `word` in any mix of ASCII cases.
fn tail_is(path: &str, from: usize, len: usize, word: &[char]) -> (r: bool)
    requires
        from <= len,
        len <= path@.len(),
    ensures
        r == ext_is(path@.subrange(from as int, len as int), word@),
{
    let n = len - from;
    if n != word.len() {
        return false;
    }
    let mut i: usize = 0;
    while i < n
        invariant
            i <= n,
            n == len - from,
            n == word@.len(),
            len <= path@.len(),
            from <= len,
            forall|j: int| 0 <= j < i ==> ascii_lower(path@[from + j]) == word@[j],
        decreases n - i,
    {
        let c = lower_char(path.get_char(from + i));
        if c != word[i] {
            assert(path@.subrange(from as int, len as int)[i as int] == path@[from + i]);
            return false;
        }
        i = i + 1;
    }
    assert forall|j: int| 0 <= j < n implies ascii_lower(
        #[trigger] path@.subrange(from as int, len as int)[j],
    ) == word@[j] by {
        assert(path@.subrange(from as int, len as int)[j] == path@[from + j]);
    }
    true
}

impl SheetFormat {
    /// The format that a path's extension selects, `.blit` or `.png` in any case;
    /// any other or a missing extension is an error.
    pub fn from_path(path: &str) -> (r: Result<SheetFormat, InvalidImageFormat>)
        ensures
            r matches Ok(f) ==> format_of(path@) == Some(f),
            r is Err <==> format_of(path@) is None,
    {
        let full = path.unicode_len();
        let mut len: usize = full;
        let mut trimming = true;
        while len > 0 && trimming
            invariant
                len <= full,
                full == path@.len(),
                trimming ==> trimmed_end(path@, full as int) == trimmed_end(path@, len as int),
                !trimming ==> trimmed_end(path@, full as int) == len,
            decreases len, (if trimming { 1int } else { 0int }),
        {
            let c = path.get_char(len - 1);
            if c == '/' || (c == '.' && len >= 2 && path.get_char(len - 2) == '/') {
                len = len - 1;
            } else {
                trimming = false;
            }
        }
        assert(len == trimmed_end(path@, full as int));
        let mut end: usize = len;
        let mut dot: Option<usize> = None;
        let mut done = false;
        while end > 0 && !done
            invariant
                end <= len,
                len <= path@.len(),
                full == path@.len(),
                len == trimmed_end(path@, full as int),
                !done ==> dot is None,
                dot matches Some(d) ==> d < len,
                !done ==> extension_dot(path@, len as int) == extension_dot(path@, end as int),
                done ==> extension_dot(path@, len as int) == match dot {
                    Some(d) => Some(d as int),
                    None => None::<int>,
                },
            decreases end, (if done { 0int } else { 1int }),
        {
            let c = path.get_char(end - 1);
            if c == '/' {
                done = true;
            } else if c == '.' {
                if end - 1 == 0 || path.get_char(end - 2) == '/' {
                    done = true;
                } else {
                    dot = Some(end - 1);
                    done = true;
                }
            } else {
                end = end - 1;
            }
        }
        match dot {
            None => Err(InvalidImageFormat),
            Some(d) => {
                if tail_is(path, d + 1, len, &['b', 'l', 'i', 't']) {
                    Ok(SheetFormat::Blit)
                } else if tail_is(path, d + 1, len, &['p', 'n', 'g']) {
                    Ok(SheetFormat::Png)
                } else {
                    Err(InvalidImageFormat)
                }
            },
        }
    }
}

/// The sheet read from bytes in the given format, as its (width, height) and
/// cells: blit's packed format as it is, a plain RGB PNG with the pixels of the
/// mask colour made clear. `None` when the outside decoder rejects the bytes.
pub open spec fn decoded(format: SheetFormat, bytes: Seq<u8>, mask: u32) -> Option<
    ((int, int), Seq<(u32, u32)>),
> {
    match format {
        SheetFormat::Blit => match blit_unpacked(bytes) {
            Some(u) => Some(((u.0.0 as int, u.0.1 as int), u.1)),
            None => None,
        },
        SheetFormat::Png => match png_rgb(bytes) {
            Some(p) => Some(rgb_sheet_of(p.0, p.1, mask)),
            None => None,
        },
    }
}

/// Whether a sheet's cells fill its size, as every stored sheet's must, and its
/// sides fit the `i32` fields that blit keeps them in.
pub open spec fn fills(sheet: ((int, int), Seq<(u32, u32)>)) -> bool {
    &&& 0 <= sheet.0.0 <= i32::MAX
    &&& 0 <= sheet.0.1 <= i32::MAX
    &&& sheet.0.0 * sheet.0.1 <= i32::MAX
    &&& sheet.1.len() == sheet.0.0 * sheet.0.1
}

/// Whether a load of these bytes in this format succeeds: they decode, and
/// the sheet's cells fill its size.
pub open spec fn loads_as(format: SheetFormat, bytes: Seq<u8>, mask: u32) -> bool {
    decoded(format, bytes, mask) matches Some(u) && fills(u)
}

/// Whether `b` is the sheet read from these bytes in this format.
pub open spec fn is_decoded(b: blit::BlitBuffer, format: SheetFormat, bytes: Seq<u8>, mask: u32) -> bool {
    decoded(format, bytes, mask) == Some(((blit_size(b).0 as int, blit_size(b).1 as int), blit_cells(b)))
}

/// What a load from the contents of the file at `path` returns: an
/// unsupported extension is `InvalidImageFormat`; otherwise the load succeeds
/// exactly when the contents load in the format of the extension, and fails
/// with `DecodeFailed`.
pub open spec fn file_load_outcome<T>(
    path: Seq<char>,
    contents: Seq<u8>,
    mask: u32,
    r: Result<T, LoadError>,
) -> bool {
    &&& format_of(path) is None <==> r == Err::<T, LoadError>(LoadError::InvalidImageFormat)
    &&& format_of(path) matches Some(f) ==> {
        &&& r is Ok <==> loads_as(f, contents, mask)
        &&& r is Err ==> r == Err::<T, LoadError>(LoadError::DecodeFailed)
    }
}

/// What a load from bytes in blit's packed format returns: success exactly
/// when they load, `DecodeFailed` otherwise.
pub open spec fn packed_load_outcome<T>(bytes: Seq<u8>, r: Result<T, LoadError>) -> bool {
    &&& r is Ok <==> loads_as(SheetFormat::Blit, bytes, 0)
    &&& r is Err ==> r == Err::<T, LoadError>(LoadError::DecodeFailed)
}

/// Whether a sheet's cells fill its reported size; checked on every loaded sheet.
fn check_sheet(b: &blit::BlitBuffer) -> (r: bool)
    ensures
        r == sheet_ok(*b),
{
    let (w, h) = sheet_size(b);
    if w < 0 || h < 0 {
        return false;
    }
    assert(0 <= (w as int) * (h as int) <= 0x7FFF_FFFF * 0x7FFF_FFFF) by (nonlinear_arith)
        requires
            0 <= w <= 0x7FFF_FFFF,
            0 <= h <= 0x7FFF_FFFF,
    ;
    let area = (w as i64) * (h as i64);
    if area > i32::MAX as i64 {
        return false;
    }
    let colors = sheet_colors(b);
    colors.len() == area as usize
}

/// Read a sheet from encoded bytes: blit's packed format as it is, a PNG image
/// with the pixels of `mask_color` made transparent. The sheet must fill its
/// size, and a PNG must be plain 8-bit RGB.
pub fn load_sheet(format: SheetFormat, bytes: &[u8], mask_color: Color) -> (r: Result<
    blit::BlitBuffer,
    LoadError,
>)
    ensures
        r is Ok <==> loads_as(format, bytes@, mask_color.0),
        r matches Ok(b) ==> sheet_ok(b) && is_decoded(b, format, bytes@, mask_color.0),
        r is Err ==> r == Err::<blit::BlitBuffer, LoadError>(LoadError::DecodeFailed),
{
    let sheet = match format {
        SheetFormat::Blit => sheet_from_packed(bytes),
        SheetFormat::Png => match png_size(bytes) {
            Some((w, h)) => {
                if w > i32::MAX as u32 || h > i32::MAX as u32 {
                    None
                } else {
                    assert((w as int) * (h as int) <= 0x7FFF_FFFF * 0x7FFF_FFFF) by (nonlinear_arith)
                        requires
                            w <= 0x7FFF_FFFF,
                            h <= 0x7FFF_FFFF,
                    ;
                    if (w as u64) * (h as u64) > i32::MAX as u64 {
                        None
                    } else {
                        png_sheet(bytes, mask_color.0)
                    }
                }
            },
            None => None,
        },
    };
    match sheet {
        Some(b) => {
            if check_sheet(&b) {
                Ok(b)
            } else {
                Err(LoadError::DecodeFailed)
            }
        },
        None => Err(LoadError::DecodeFailed),
    }
}

/// The store of static resources: sprites and fonts, each kept in load order.
#[derive(Debug)]
pub struct Resources {
    pub(crate) sprites: Vec<blit::BlitBuffer>,
    pub(crate) fonts: Vec<Font>,
}

impl Resources {
    /// The sprites, in load order.
    pub open(crate) spec fn sprite_seq(&self) -> Seq<blit::BlitBuffer> {
        self.sprites@
    }

    /// The fonts, in load order; the built-in font first.
    pub open(crate) spec fn font_seq(&self) -> Seq<Font> {
        self.fonts@
    }

    /// The store holds the built-in font, and every sheet fills its size.
    pub open(crate) spec fn wf(&self) -> bool {
        &&& self.fonts@.len() >= 1
        &&& forall|i: int| 0 <= i < self.sprites@.len() ==> sheet_ok(#[trigger] self.sprites@[i])
        &&& forall|i: int| 0 <= i < self.fonts@.len() ==> sheet_ok(#[trigger] self.fonts@[i].sheet())
    }

    /// Every resource of `earlier` is still here, under the same handle.
    pub open(crate) spec fn extends(&self, earlier: &Resources) -> bool {
        &&& earlier.sprites@.len() <= self.sprites@.len()
        &&& earlier.fonts@.len() <= self.fonts@.len()
        &&& self.sprites@.subrange(0, earlier.sprites@.len() as int) == earlier.sprites@
        &&& self.fonts@.subrange(0, earlier.fonts@.len() as int) == earlier.fonts@
    }

    /// What a sprite load did: on success one sheet was appended and its handle
    /// is its position; on failure nothing changed.
    pub open(crate) spec fn sprite_loaded(
        &self,
        earlier: &Resources,
        r: Result<SpriteRef, LoadError>,
    ) -> bool {
        &&& self.fonts@ == earlier.fonts@
        &&& match r {
            Ok(s) => {
                &&& s.id() == earlier.sprites@.len()
                &&& self.sprites@.len() == earlier.sprites@.len() + 1
                &&& self.extends(earlier)
            },
            Err(_) => self.sprites@ == earlier.sprites@,
        }
    }

    /// What a font load did: on success one font with these settings was
    /// appended and its handle is its position; on failure nothing changed.
    pub open(crate) spec fn font_loaded(
        &self,
        earlier: &Resources,
        settings: FontSettings,
        r: Result<FontRef, LoadError>,
    ) -> bool {
        &&& self.sprites@ == earlier.sprites@
        &&& match r {
            Ok(f) => {
                &&& f.id() == earlier.fonts@.len()
                &&& self.fonts@.len() == earlier.fonts@.len() + 1
                &&& self.fonts@.last().layout() == settings
                &&& self.extends(earlier)
            },
            Err(_) => self.fonts@ == earlier.fonts@,
        }
    }

    /// Read a sheet from the contents of the file at `path`, in the format that the
    /// path's extension selects; an unsupported extension is
    /// `LoadError::InvalidImageFormat`.
    pub fn load_blitbuffer(path: &str, contents: &[u8], mask_color: Color) -> (r: Result<
        blit::BlitBuffer,
        LoadError,
    >)
        ensures
            file_load_outcome(path@, contents@, mask_color.0, r),
            r matches Ok(b) ==> sheet_ok(b) && is_decoded(
                b,
                format_of(path@)->0,
                contents@,
                mask_color.0,
            ),
    {
        match SheetFormat::from_path(path) {
            Ok(format) => load_sheet(format, contents, mask_color),
            Err(_) => Err(LoadError::InvalidImageFormat),
        }
    }

    /// A store that holds the built-in font, a blank sheet with the layout of
    /// a 9x9 ASCII font, and no sprites.
    pub fn new() -> (r: Resources)
        ensures
            r.wf(),
            r.sprite_seq().len() == 0,
            r.font_seq().len() == 1,
            r.font_seq()[0].layout() == default_font_settings(),
            blit_size(r.font_seq()[0].sheet()) == (
                (DEFAULT_FONT_GLYPHS * DEFAULT_FONT_CELL) as i32,
                DEFAULT_FONT_CELL as i32,
            ),
            blit_cells(r.font_seq()[0].sheet()) == Seq::new(
                (DEFAULT_FONT_GLYPHS * DEFAULT_FONT_CELL * DEFAULT_FONT_CELL) as nat,
                |i: int| clear_cell(),
            ),
    {
        let width: usize = DEFAULT_FONT_GLYPHS * DEFAULT_FONT_CELL;
        let pixels: Vec<u32> = vec![DEFAULT_FONT_MASK; width * DEFAULT_FONT_CELL];
        let sheet = sheet_from_pixels(pixels.as_slice(), width as i32, DEFAULT_FONT_MASK);
        assert(blit_cells(sheet) =~= Seq::new(
            (DEFAULT_FONT_GLYPHS * DEFAULT_FONT_CELL * DEFAULT_FONT_CELL) as nat,
            |i: int| clear_cell(),
        ));
        let settings = FontSettings {
            start: DEFAULT_FONT_START,
            char_size: (DEFAULT_FONT_CELL, DEFAULT_FONT_CELL),
            leading_offset: DEFAULT_FONT_LEADING,
            mask_color: Color::from_u32(DEFAULT_FONT_MASK),
        };
        let mut fonts: Vec<Font> = Vec::new();
        fonts.push(Font::new(sheet, settings));
        Resources { sprites: Vec::new(), fonts }
    }

    /// The handle of the built-in font, which is always the first font.
    pub fn default_font(&self) -> (r: FontRef)
        ensures
            r.id() == 0,
    {
        FontRef(0)
    }

    /// The number of sprites loaded.
    pub fn sprite_count(&self) -> (r: usize)
        ensures
            r == self.sprite_seq().len(),
    {
        self.sprites.len()
    }

    /// The number of fonts, the built-in one included.
    pub fn font_count(&self) -> (r: usize)
        ensures
            r == self.font_seq().len(),
    {
        self.fonts.len()
    }

    fn push_sprite(&mut self, sheet: blit::BlitBuffer) -> (r: SpriteRef)
        requires
            old(self).wf(),
            sheet_ok(sheet),
        ensures
            final(self).wf(),
            final(self).sprite_loaded(old(self), Ok(r)),
            final(self).sprite_seq().last() == sheet,
    {
        let index = self.sprites.len();
        self.sprites.push(sheet);
        assert(self.sprites@.subrange(0, index as int) =~= old(self).sprites@);
        assert(self.fonts@.subrange(0, self.fonts@.len() as int) =~= self.fonts@);
        SpriteRef(index)
    }

    fn push_font(&mut self, sheet: blit::BlitBuffer, settings: FontSettings) -> (r: FontRef)
        requires
            old(self).wf(),
            sheet_ok(sheet),
        ensures
            final(self).wf(),
            final(self).font_loaded(old(self), settings, Ok(r)),
            final(self).font_seq().last().sheet() == sheet,
    {
        let index = self.fonts.len();
        self.fonts.push(Font::new(sheet, settings));
        assert(self.fonts@.subrange(0, index as int) =~= old(self).fonts@);
        assert(self.sprites@.subrange(0, self.sprites@.len() as int) =~= self.sprites@);
        FontRef(index)
    }

    /// Load a sprite from the contents of the file at `path`: `.blit` files in
    /// blit's packed format, `.png` files with the pixels of `mask_color` made
    /// transparent. Returns the new sprite's handle.
    pub fn load_sprite_from_file(&mut self, path: &str, contents: &[u8], mask_color: Color) -> (r:
        Result<SpriteRef, LoadError>)
        requires
            old(self).wf(),
        ensures
            final(self).wf(),
            final(self).sprite_loaded(old(self), r),
            file_load_outcome(path@, contents@, mask_color.0, r),
            r is Ok ==> is_decoded(
                final(self).sprite_seq().last(),
                format_of(path@)->0,
                contents@,
                mask_color.0,
            ),
    {
        match Resources::load_blitbuffer(path, contents, mask_color) {
            Ok(sheet) => Ok(self.push_sprite(sheet)),
            Err(e) => Err(e),
        }
    }

    /// Load a sprite from bytes in blit's packed format. Returns the new
    /// sprite's handle.
    pub fn load_sprite_from_memory(&mut self, buffer: &[u8]) -> (r: Result<SpriteRef, LoadError>)
        requires
            old(self).wf(),
        ensures
            final(self).wf(),
            final(self).sprite_loaded(old(self), r),
            packed_load_outcome(buffer@, r),
            r is Ok ==> is_decoded(final(self).sprite_seq().last(), SheetFormat::Blit, buffer@, 0),
    {
        match load_sheet(SheetFormat::Blit, buffer, Color(0)) {
            Ok(sheet) => Ok(self.push_sprite(sheet)),
            Err(e) => Err(e),
        }
    }

    /// Load a font sheet from the contents of the file at `path`, as for
    /// sprites, with the settings' mask colour. Returns the new font's handle.
    pub fn load_font_sprite_from_file(
        &mut self,
        path: &str,
        contents: &[u8],
        settings: FontSettings,
    ) -> (r: Result<FontRef, LoadError>)
        requires
            old(self).wf(),
        ensures
            final(self).wf(),
            final(self).font_loaded(old(self), settings, r),
            file_load_outcome(path@, contents@, settings.mask_color.0, r),
            r is Ok ==> is_decoded(
                final(self).font_seq().last().sheet(),
                format_of(path@)->0,
                contents@,
                settings.mask_color.0,
            ),
    {
        match Resources::load_blitbuffer(path, contents, settings.mask_color) {
            Ok(sheet) => Ok(self.push_font(sheet, settings)),
            Err(e) => Err(e),
        }
    }

    /// Load a font sheet from bytes in blit's packed format. Returns the new
    /// font's handle.
    pub fn load_font_sprite_from_memory(&mut self, buffer: &[u8], settings: FontSettings) -> (r:
        Result<FontRef, LoadError>)
        requires
            old(self).wf(),
        ensures
            final(self).wf(),
            final(self).font_loaded(old(self), settings, r),
            packed_load_outcome(buffer@, r),
            r is Ok ==> is_decoded(final(self).font_seq().last().sheet(), SheetFormat::Blit, buffer@, 0),
    {
        match load_sheet(SheetFormat::Blit, buffer, Color(0)) {
            Ok(sheet) => Ok(self.push_font(sheet, settings)),
            Err(e) => Err(e),
        }
    }

    /// The sprite behind a handle, if the handle belongs to this store.
    pub fn get_sprite(&self, sprite_ref: SpriteRef) -> (r: Option<&blit::BlitBuffer>)
        ensures
            match r {
                Some(b) => sprite_ref.id() < self.sprite_seq().len() && *b
                    == self.sprite_seq()[sprite_ref.id()],
                None => sprite_ref.id() >= self.sprite_seq().len(),
            },
    {
        if sprite_ref.0 < self.sprites.len() {
            Some(&self.sprites[sprite_ref.0])
        } else {
            None
        }
    }

    /// The font behind a handle, if the handle belongs to this store.
    pub fn get_font(&self, font_ref: FontRef) -> (r: Option<&Font>)
        ensures
            match r {
                Some(f) => font_ref.id() < self.font_seq().len() && *f == self.font_seq()[font_ref.id()],
                None => font_ref.id() >= self.font_seq().len(),
            },
    {
        if font_ref.0 < self.fonts.len() {
            Some(&self.fonts[font_ref.0])
        } else {
            None
        }
    }
}

/// A store extends itself.
pub proof fn lemma_extends_refl(res: &Resources)
    ensures
        res.extends(res),
{
    assert(res.sprites@.subrange(0, res.sprites@.len() as int) =~= res.sprites@);
    assert(res.fonts@.subrange(0, res.fonts@.len() as int) =~= res.fonts@);
}

/// Extending is transitive: loads one after another keep every earlier resource.
pub proof fn lemma_extends_trans(a: &Resources, b: &Resources, c: &Resources)
    requires
        b.extends(a),
        c.extends(b),
    ensures
        c.extends(a),
{
    assert(c.sprites@.subrange(0, a.sprites@.len() as int) =~= c.sprites@.subrange(
        0,
        b.sprites@.len() as int,
    ).subrange(0, a.sprites@.len() as int));
    assert(c.fonts@.subrange(0, a.fonts@.len() as int) =~= c.fonts@.subrange(
        0,
        b.fonts@.len() as int,
    ).subrange(0, a.fonts@.len() as int));
}

/// Handle stability: once a load has returned a handle, every later state of
/// the store resolves that handle to the same resource.
pub proof fn lemma_handles_stable(earlier: &Resources, later: &Resources, s: SpriteRef, f: FontRef)
    requires
        later.extends(earlier),
    ensures
        s.id() < earlier.sprite_seq().len() ==> s.id() < later.sprite_seq().len()
            && later.sprite_seq()[s.id()] == earlier.sprite_seq()[s.id()],
        f.id() < earlier.font_seq().len() ==> f.id() < later.font_seq().len()
            && later.font_seq()[f.id()] == earlier.font_seq()[f.id()],
{
    if s.id() < earlier.sprite_seq().len() {
        assert(later.sprites@.subrange(0, earlier.sprites@.len() as int)[s.id()] == later.sprites@[s.id()]);
    }
    if f.id() < earlier.font_seq().len() {
        assert(later.fonts@.subrange(0, earlier.fonts@.len() as int)[f.id()] == later.fonts@[f.id()]);
    }
}

/// Every load leaves a store that extends the one before it, and the handle of
/// a successful load counts the resources of its kind loaded before it.
pub proof fn lemma_load_extends(
    earlier: &Resources,
    later: &Resources,
    sprite: Result<SpriteRef, LoadError>,
    settings: FontSettings,
    font: Result<FontRef, LoadError>,
)
    ensures
        later.sprite_loaded(earlier, sprite) ==> later.extends(earlier),
        later.font_loaded(earlier, settings, font) ==> later.extends(earlier),
        later.sprite_loaded(earlier, sprite) && sprite is Ok ==> sprite->Ok_0.id()
            == earlier.sprite_seq().len(),
        later.font_loaded(earlier, settings, font) && font is Ok ==> font->Ok_0.id()
            == earlier.font_seq().len(),
{
    lemma_extends_refl(earlier);
}

} // verus!
