//! Pixel sheets held by `blit::BlitBuffer`, and what blitting one does to a buffer.
use vstd::prelude::*;

use crate::color::ALPHA_BITS;

verus! {

#[verifier::external_type_specification]
#[verifier::external_body]
pub struct ExBlitBuffer(blit::BlitBuffer);

/// The (colour, mask) cells that a blit buffer holds, row by row.
pub uninterp spec fn blit_cells(b: blit::BlitBuffer) -> Seq<(u32, u32)>;

/// The (width, height) that a blit buffer reports.
pub uninterp spec fn blit_size(b: blit::BlitBuffer) -> (i32, i32);

/// The sheet that `blit` reads out of these bytes in its packed format, as its
/// (width, height) and its cells; `None` when the bytes hold no such sheet.
pub uninterp spec fn blit_unpacked(bytes: Seq<u8>) -> Option<((i32, i32), Seq<(u32, u32)>)>;

/// The image that `image` decodes from these bytes as a PNG, as its
/// (width, height) and its pixels as `0xRRGGBB` words, row by row; `None` when
/// the bytes are no PNG or the image is not plain 8-bit RGB.
pub uninterp spec fn png_rgb(bytes: Seq<u8>) -> Option<((u32, u32), Seq<u32>)>;

/// The cell of a transparent pixel: blitting it keeps the destination's colour.
pub open spec fn clear_cell() -> (u32, u32) {
    (ALPHA_BITS, 0xFFFF_FFFFu32)
}

/// The cell that a source pixel becomes: the mask colour turns transparent,
/// every other colour opaque.
pub open spec fn masked_cell(pixel: u32, mask: u32) -> (u32, u32) {
    if pixel | ALPHA_BITS == mask | ALPHA_BITS {
        clear_cell()
    } else {
        (pixel | ALPHA_BITS, ALPHA_BITS)
    }
}

/// A sheet whose cells fill its reported size exactly.
pub open spec fn sheet_ok(b: blit::BlitBuffer) -> bool {
    &&& 0 <= blit_size(b).0
    &&& 0 <= blit_size(b).1
    &&& blit_size(b).0 * blit_size(b).1 <= i32::MAX
    &&& blit_cells(b).len() == blit_size(b).0 * blit_size(b).1
}

/// A sub-rectangle `(x, y, width, height)` that lies inside a sheet.
pub open spec fn rect_in_sheet(b: blit::BlitBuffer, rect: (i32, i32, i32, i32)) -> bool {
    &&& 0 <= rect.0
    &&& 0 <= rect.1
    &&& 0 <= rect.2
    &&& 0 <= rect.3
    &&& rect.0 + rect.2 <= blit_size(b).0
    &&& rect.1 + rect.3 <= blit_size(b).1
}

/// Whether pixel (x, y) of a buffer `dst_w` wide and `dst_h` tall is covered
/// when a rectangle of size (rect.2, rect.3) is placed at `offset`.
pub open spec fn in_blit_area(
    x: int,
    y: int,
    dst_w: int,
    dst_h: int,
    offset: (i32, i32),
    rect: (i32, i32, i32, i32),
) -> bool {
    &&& 0 <= x < dst_w
    &&& 0 <= y < dst_h
    &&& offset.0 <= x < offset.0 + rect.2
    &&& offset.1 <= y < offset.1 + rect.3
}

/// The buffer after blitting sub-rectangle `rect` of a sheet (cells `cells`,
/// `src_w` wide) at `offset`: each covered pixel is ANDed with the cell's mask
/// and ORed with its colour; every other pixel is kept.
pub open spec fn blit_rect_result(
    cells: Seq<(u32, u32)>,
    src_w: int,
    dst: Seq<u32>,
    dst_w: int,
    offset: (i32, i32),
    rect: (i32, i32, i32, i32),
) -> Seq<u32> {
    Seq::new(
        dst.len(),
        |i: int|
            {
                let x = i % dst_w;
                let y = i / dst_w;
                if in_blit_area(x, y, dst_w, (dst.len() as int) / dst_w, offset, rect) {
                    let cell = cells[(x - offset.0 + rect.0) + (y - offset.1 + rect.1) * src_w];
                    dst[i] & cell.1 | cell.0
                } else {
                    dst[i]
                }
            },
    )
}

/// Relies on `blit::BlitBuffer::size`: the width and height of the sheet.
#[verifier::external_body]
pub(crate) fn sheet_size(b: &blit::BlitBuffer) -> (r: (i32, i32))
    ensures
        r == blit_size(*b),
{
    b.size()
}

/// Relies on `blit::BlitBuffer::to_raw_buffer`: the colour of every cell, in order.
#[verifier::external_body]
pub(crate) fn sheet_colors(b: &blit::BlitBuffer) -> (r: Vec<u32>)
    ensures
        r@ == blit_cells(*b).map_values(|c: (u32, u32)| c.0),
{
    b.to_raw_buffer()
}

/// Relies on `blit::BlitBuffer::blit_rect`: the covered pixels are combined
/// with the sheet's cells, the others kept. The requirements keep its index
/// arithmetic in range.
#[verifier::external_body]
pub(crate) fn sheet_blit_rect(
    b: &blit::BlitBuffer,
    dst: &mut Vec<u32>,
    dst_width: usize,
    offset: (i32, i32),
    rect: (i32, i32, i32, i32),
)
    requires
        sheet_ok(*b),
        rect_in_sheet(*b, rect),
        0 < dst_width <= i32::MAX,
        old(dst)@.len() <= i32::MAX,
        offset.0 + rect.2 <= i32::MAX,
        offset.1 + rect.3 <= i32::MAX,
    ensures
        final(dst)@ == blit_rect_result(
            blit_cells(*b),
            blit_size(*b).0 as int,
            old(dst)@,
            dst_width as int,
            offset,
            rect,
        ),
{
    b.blit_rect(dst, dst_width, offset, rect)
}

/// Relies on `blit::BlitBuffer::from_buffer`: one cell per pixel, the mask
/// colour transparent, rows of `width` pixels.
#[verifier::external_body]
pub(crate) fn sheet_from_pixels(src: &[u32], width: i32, mask: u32) -> (r: blit::BlitBuffer)
    requires
        0 < width,
        src@.len() <= i32::MAX,
        (src@.len() as int) % (width as int) == 0,
    ensures
        blit_size(r) == (width, ((src@.len() as int) / (width as int)) as i32),
        blit_cells(r) == src@.map_values(|p: u32| masked_cell(p, mask)),
{
    blit::BlitBuffer::from_buffer(src, width, blit::Color::from_u32(mask))
}

/// Relies on `blit::BlitBuffer::from_memory`: reads a sheet in blit's packed
/// format (through bincode), or fails; the result depends on the bytes alone.
#[verifier::external_body]
pub(crate) fn sheet_from_packed(bytes: &[u8]) -> (r: Option<blit::BlitBuffer>)
    ensures
        r is Some <==> blit_unpacked(bytes@) is Some,
        r matches Some(b) ==> blit_unpacked(bytes@) == Some((blit_size(b), blit_cells(b))),
{
    blit::BlitBuffer::from_memory(bytes).ok()
}

/// The sheet that blit makes of an RGB image of size `size` with pixels `pixels`:
/// that size, and one cell per pixel, the mask colour clear.
pub open spec fn rgb_sheet_of(size: (u32, u32), pixels: Seq<u32>, mask: u32) -> (
    (int, int),
    Seq<(u32, u32)>,
) {
    ((size.0 as int, size.1 as int), pixels.map_values(|p: u32| masked_cell(p, mask)))
}

/// Relies on `image::codecs::png::PngDecoder::new`, which reads a PNG's header,
/// and on its `ImageDecoder::dimensions`. `image` decodes a PNG through that
/// decoder and gives the decoded image those dimensions, so when the header
/// cannot be read the PNG does not decode either.
#[verifier::external_body]
pub(crate) fn png_size(bytes: &[u8]) -> (r: Option<(u32, u32)>)
    ensures
        r is None ==> png_rgb(bytes@) is None,
        r matches Some(d) ==> (png_rgb(bytes@) matches Some(p) ==> p.0 == d),
{
    match image::codecs::png::PngDecoder::new(std::io::Cursor::new(bytes)) {
        Ok(decoder) => Some(image::ImageDecoder::dimensions(&decoder)),
        Err(_) => None,
    }
}

/// Relies on `image::load_from_memory_with_format` with the PNG format, on
/// `image::DynamicImage::as_rgb8`, which gives the image only when it is plain
/// 8-bit RGB, and on `blit::BlitExt::to_blit_buffer` for such an image, which
/// keeps its size and makes the pixels of the mask colour transparent and all
/// others opaque. The three calls share one wrapper because the image passed
/// between them, an `image::RgbImage`, is a type whose trait bounds cannot be
/// declared here. `to_blit_buffer` multiplies width by height in `u32`, so the
/// image must have at most `i32::MAX` pixels.
#[verifier::external_body]
pub(crate) fn png_sheet(bytes: &[u8], mask: u32) -> (r: Option<blit::BlitBuffer>)
    requires
        png_rgb(bytes@) matches Some(p) ==> (p.0.0 as int) * (p.0.1 as int) <= i32::MAX && p.0.0
            <= i32::MAX && p.0.1 <= i32::MAX,
    ensures
        r is Some <==> png_rgb(bytes@) is Some,
        r matches Some(b) ==> (png_rgb(bytes@) matches Some(p) && (
            (blit_size(b).0 as int, blit_size(b).1 as int),
            blit_cells(b),
        ) == rgb_sheet_of(p.0, p.1, mask)),
{
    match image::load_from_memory_with_format(bytes, image::ImageFormat::Png) {
        Ok(img) => match img.as_rgb8() {
            Some(rgb) => Some(blit::BlitExt::to_blit_buffer(rgb, blit::Color::from_u32(mask))),
            None => None,
        },
        Err(_) => None,
    }
}

/// The buffer after drawing sub-rectangle `rect` of a sheet at `offset`. A
/// placement whose far edge lies beyond the `i32` range is not drawn.
pub open spec fn sheet_draw_result(
    sheet: blit::BlitBuffer,
    dst: Seq<u32>,
    dst_w: int,
    offset: (i32, i32),
    rect: (i32, i32, i32, i32),
) -> Seq<u32> {
    if offset.0 + rect.2 <= i32::MAX && offset.1 + rect.3 <= i32::MAX {
        blit_rect_result(blit_cells(sheet), blit_size(sheet).0 as int, dst, dst_w, offset, rect)
    } else {
        dst
    }
}

/// Draw sub-rectangle `rect` of a sheet at `offset`.
pub(crate) fn draw_sheet_rect(
    sheet: &blit::BlitBuffer,
    dst: &mut Vec<u32>,
    dst_width: usize,
    offset: (i32, i32),
    rect: (i32, i32, i32, i32),
)
    requires
        sheet_ok(*sheet),
        rect_in_sheet(*sheet, rect),
        0 < dst_width <= i32::MAX,
        old(dst)@.len() <= i32::MAX,
    ensures
        final(dst)@ == sheet_draw_result(*sheet, old(dst)@, dst_width as int, offset, rect),
{
    if offset.0 as i64 + rect.2 as i64 <= i32::MAX as i64 && offset.1 as i64 + rect.3 as i64
        <= i32::MAX as i64 {
        sheet_blit_rect(sheet, dst, dst_width, offset, rect);
    }
}

} // verus!
