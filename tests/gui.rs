use direct_gui::controls::{Button, ButtonState, ControlState, ControlType, Flat, Image, Label, Sprite, Widget};
use direct_gui::resources::{Resources, SheetFormat};
use direct_gui::{Color, ControlRef, FontSettings, Gui, InvalidControlReference, InvalidImageFormat, LoadError};

const MASK: u32 = 0xFF00FF;

fn png_bytes(width: u32, height: u32, pixels: &[u32]) -> Vec<u8> {
    let mut raw = Vec::new();
    for p in pixels {
        raw.push((p >> 16) as u8);
        raw.push((p >> 8) as u8);
        raw.push(*p as u8);
    }
    let img = image::RgbImage::from_raw(width, height, raw).unwrap();
    let mut out = Vec::new();
    image::DynamicImage::ImageRgb8(img).write_to(&mut out, image::ImageOutputFormat::Png).unwrap();
    out
}

fn rgba_png_bytes() -> Vec<u8> {
    let img = image::RgbaImage::from_raw(1, 1, vec![1, 2, 3, 255]).unwrap();
    let mut out = Vec::new();
    image::DynamicImage::ImageRgba8(img).write_to(&mut out, image::ImageOutputFormat::Png).unwrap();
    out
}

/// Three 9x9 glyphs 'A', 'B', 'C' in red, green and blue.
fn glyph_sheet() -> Vec<u8> {
    let colors = [0xFF0000u32, 0x00FF00, 0x0000FF];
    let mut pixels = Vec::new();
    for _y in 0..9 {
        for x in 0..27 {
            pixels.push(colors[x / 9]);
        }
    }
    png_bytes(27, 9, &pixels)
}

fn glyph_settings() -> FontSettings {
    FontSettings { start: 'A', char_size: (9, 9), leading_offset: 2, mask_color: Color::from_u32(MASK) }
}

fn at(x: i32, y: i32, down: bool) -> ControlState {
    ControlState { mouse_pos: (x, y), mouse_down: down }
}

#[test]
fn handles_count_successful_loads() {
    let mut res = Resources::new();
    let png = png_bytes(2, 1, &[0x010203, MASK]);
    let first = res.load_sprite_from_file("a.png", &png, Color::from_u32(MASK)).unwrap();
    assert!(res.load_sprite_from_file("b.png", &[1, 2, 3], Color::from_u32(MASK)).is_err());
    let second = res.load_sprite_from_file("c.PNG", &png, Color::from_u32(MASK)).unwrap();
    assert_eq!(first.index(), 0);
    assert_eq!(second.index(), 1);
    assert_eq!(res.sprite_count(), 2);
    let font = res.load_font_sprite_from_file("f.png", &glyph_sheet(), glyph_settings()).unwrap();
    assert_eq!(font.index(), 1);
    assert_eq!(res.get_sprite(first).unwrap().size(), (2, 1));
    assert_eq!(res.get_font(font).unwrap().buffer().size(), (27, 9));
    assert_eq!(res.get_font(font).unwrap().settings().start, 'A');
}

#[test]
fn handles_resolve_to_the_same_sprite_later() {
    let mut gui = Gui::new((4, 4));
    let png = png_bytes(1, 1, &[0x123456]);
    let a = gui.load_sprite_from_file("a.png", &png, Color::from_u32(MASK)).unwrap();
    let b = gui.load_sprite_from_file("b.png", &png_bytes(2, 2, &[0; 4]), Color::from_u32(MASK)).unwrap();
    assert_ne!(a, b);
    let sprite = gui.register(Sprite::new_with_sprite(a));
    let mut buffer = vec![0u32; 16];
    gui.draw_to_buffer(&mut buffer);
    assert_eq!(buffer[0], 0xFF123456);
    assert_eq!(buffer[1], 0);
    assert_eq!(gui.get::<Sprite>(sprite).unwrap().sprite_ref, a);
}

#[test]
fn sprite_from_memory_rejects_garbage() {
    let mut gui = Gui::new((4, 4));
    assert_eq!(gui.load_sprite_from_memory(&[1, 2, 3]), Err(LoadError::DecodeFailed));
    assert_eq!(gui.load_font_sprite_from_memory(&[], glyph_settings()), Err(LoadError::DecodeFailed));
    assert_eq!(gui.sprite_count(), 0);
    assert_eq!(gui.font_count(), 1);
}

#[test]
fn default_font_is_available() {
    let res = Resources::new();
    let font = res.get_font(res.default_font()).unwrap();
    assert_eq!(res.default_font().index(), 0);
    assert_eq!(res.font_count(), 1);
    assert_eq!(res.sprite_count(), 0);
    assert_eq!(font.buffer().size(), (94 * 9, 9));
    assert_eq!(font.settings().char_size, (9, 9));
    assert_eq!(font.settings().leading_offset, 2);
    assert_eq!(font.settings().start, '!');
    let gui = Gui::new((10, 10));
    assert_eq!(gui.default_font().index(), 0);
    assert_eq!(gui.font_count(), 1);
}

#[test]
fn flat_button_state_machine() {
    let mut b = Button::new((20, 10), Color::from_u32(0x808080)).with_pos(10, 10);
    assert_eq!(b.state(), ButtonState::Normal);
    assert_eq!(b.update(&at(15, 15, false)), Some(ButtonState::Hover));
    assert_eq!(b.state(), ButtonState::Hover);
    assert_eq!(b.update(&at(15, 15, false)), None);
    assert_eq!(b.update(&at(15, 15, true)), Some(ButtonState::Pressed));
    assert!(b.pressed());
    assert_eq!(b.update(&at(15, 15, true)), None);
    assert_eq!(b.update(&at(100, 100, true)), Some(ButtonState::Normal));
    assert!(!b.pressed());
    assert_eq!(b.update(&at(100, 100, false)), None);
    assert_eq!(b.state(), ButtonState::Normal);
}

#[test]
fn button_hit_rectangle_edges() {
    let mut b = Button::new((20, 10), Color::from_u32(0)).with_pos(10, 10);
    assert_eq!(b.update(&at(29, 19, false)), Some(ButtonState::Hover));
    assert_eq!(b.update(&at(30, 19, false)), Some(ButtonState::Normal));
    assert_eq!(b.update(&at(10, 10, false)), Some(ButtonState::Hover));
    assert_eq!(b.update(&at(9, 10, false)), Some(ButtonState::Normal));
    let cs = ControlState::default();
    assert_eq!(cs.mouse_pos, (0, 0));
    assert!(!cs.mouse_down);
    assert!(cs.mouse_collision((0, 0), (1, 1)));
    assert!(!cs.mouse_collision((0, 0), (0, 1)));
    assert!(at(i32::MAX, 0, false).mouse_collision((i32::MAX - 1, 0), (i32::MAX, 1)));
}

#[test]
fn gui_update_reports_changes_once() {
    let mut gui = Gui::new((40, 40));
    let h = gui.register(Button::new((20, 10), Color::from_u32(0x808080)).with_pos(10, 10));
    let label = gui.register(Label::new(gui.default_font()));
    let events = gui.update(&at(15, 15, false));
    assert_eq!(events.len(), 1);
    assert_eq!(events[0].0, h);
    assert_eq!(events[0].1, ButtonState::Hover);
    assert!(gui.update(&at(15, 15, false)).is_empty());
    let events = gui.update(&at(15, 15, true));
    assert_eq!(events, vec![(h, ButtonState::Pressed)]);
    assert!(gui.get::<Button<Flat>>(h).unwrap().pressed());
    assert_eq!(h.index(), 1);
    assert_eq!(label.index(), 2);
}

#[test]
fn later_widget_paints_over_earlier() {
    let mut gui = Gui::new((20, 20));
    gui.register(Button::new((10, 10), Color::from_u32(0x112233)));
    gui.register(Button::new((10, 10), Color::from_u32(0x445566)).with_pos(5, 5));
    let mut buffer = vec![0x999999u32; 400];
    gui.draw_to_buffer(&mut buffer);
    assert_eq!(buffer[7 + 7 * 20], 0xFF445566);
    assert_eq!(buffer[5 + 5 * 20], 0);
    assert_eq!(buffer[2 + 2 * 20], 0xFF112233);
    assert_eq!(buffer[19 + 19 * 20], 0x999999);

    let mut gui = Gui::new((20, 20));
    gui.register(Button::new((10, 10), Color::from_u32(0x445566)).with_pos(5, 5));
    gui.register(Button::new((10, 10), Color::from_u32(0x112233)));
    let mut buffer = vec![0x999999u32; 400];
    gui.draw_to_buffer(&mut buffer);
    assert_eq!(buffer[7 + 7 * 20], 0xFF112233);
    assert_eq!(buffer[12 + 12 * 20], 0xFF445566);
}

#[test]
fn flat_button_colours_by_state() {
    let mut gui = Gui::new((10, 10));
    let h = gui.register(Button::new((5, 5), Color::from_u32(0x102030)));
    let mut buffer = vec![7u32; 100];
    gui.draw_to_buffer(&mut buffer);
    assert_eq!(buffer[2 + 2 * 10], 0xFF102030);
    assert_eq!(buffer[0], 0);
    assert_eq!(buffer[4 + 4 * 10], 0);
    assert_eq!(buffer[5], 7);
    gui.update(&at(2, 2, false));
    gui.draw_to_buffer(&mut buffer);
    assert_eq!(buffer[2 + 2 * 10], 0xFF102030 | 0x444444);
    gui.update(&at(2, 2, true));
    gui.draw_to_buffer(&mut buffer);
    assert_eq!(buffer[2 + 2 * 10], 0xFF102030 & 0xAAAAAA);
    assert_eq!(gui.get::<Button<Flat>>(h).unwrap().state(), ButtonState::Pressed);
}

#[test]
fn flat_button_is_clipped_to_the_buffer() {
    let mut gui = Gui::new((4, 4));
    gui.register(Button::new((6, 6), Color::from_u32(0x010101)).with_pos(-2, 1));
    let mut buffer = vec![5u32; 16];
    gui.draw_to_buffer(&mut buffer);
    assert_eq!(buffer[0], 5);
    assert_eq!(buffer[1 * 4], 0);
    assert_eq!(buffer[2 * 4], 0xFF010101);
    assert_eq!(buffer[2 * 4 + 3], 0);
    assert_eq!(buffer[2 * 4 + 2], 0xFF010101);
}

#[test]
fn label_wraps_lines() {
    let mut gui = Gui::new((30, 30));
    let font = gui.load_font_sprite_from_file("glyphs.png", &glyph_sheet(), glyph_settings()).unwrap();
    let label = gui.register(Label::new(font).with_text("AB\nC"));
    let mut buffer = vec![0u32; 900];
    gui.draw_to_buffer(&mut buffer);
    assert_eq!(buffer[0], 0xFFFF0000);
    assert_eq!(buffer[8 + 8 * 30], 0xFFFF0000);
    assert_eq!(buffer[9], 0xFF00FF00);
    assert_eq!(buffer[11 * 30], 0xFF0000FF);
    assert_eq!(buffer[18], 0);
    assert_eq!(buffer[9 * 30], 0);
    assert_eq!(buffer[10 * 30], 0);
    assert_eq!(buffer[9 + 11 * 30], 0);
    assert_eq!(gui.get::<Label>(label).unwrap().text(), "AB\nC");
}

#[test]
fn label_skips_spaces_and_unknown_glyphs() {
    let mut gui = Gui::new((40, 10));
    let font = gui.load_font_sprite_from_file("glyphs.png", &glyph_sheet(), glyph_settings()).unwrap();
    let mut buffer = vec![0u32; 400];
    gui.draw_label(&mut buffer, font, "A ?D", (0, 0));
    assert_eq!(buffer[0], 0xFFFF0000);
    assert_eq!(buffer[9], 0);
    assert_eq!(buffer[18], 0);
    assert_eq!(buffer[27], 0);
}

#[test]
fn label_text_can_change() {
    let mut gui = Gui::new((30, 30));
    let font = gui.load_font_sprite_from_file("g.png", &glyph_sheet(), glyph_settings()).unwrap();
    let h = gui.register(Label::new(font).with_pos(9, 0));
    gui.get_mut::<Label>(h).unwrap().set_text("C");
    let mut buffer = vec![0u32; 900];
    gui.draw_to_buffer(&mut buffer);
    assert_eq!(buffer[9], 0xFF0000FF);
    assert_eq!(buffer[0], 0);
    let label = gui.get_mut::<Label>(h).unwrap();
    label.set_pos(1, 2);
    assert_eq!(label.pos(), (1, 2));
    assert_eq!(label.font(), font);
}

#[test]
fn typed_lookup_failure() {
    let mut gui = Gui::new((10, 10));
    let button = gui.register(Button::new((5, 5), Color::from_u32(0)));
    assert_eq!(gui.get::<Label>(button).err(), Some(InvalidControlReference));
    assert_eq!(gui.get::<Button<Image>>(button).err(), Some(InvalidControlReference));
    assert!(gui.get::<Button<Flat>>(button).is_ok());

    let mut other = Gui::new((10, 10));
    other.register(Button::new((5, 5), Color::from_u32(0)));
    let unknown: ControlRef = other.register(Button::new((5, 5), Color::from_u32(0)));
    assert_eq!(gui.get::<Button<Flat>>(unknown).err(), Some(InvalidControlReference));
    assert!(gui.get_mut::<Button<Flat>>(unknown).is_err());
    assert!(gui.get_mut::<Sprite>(button).is_err());
    assert!(gui.get_mut::<Button<Flat>>(button).is_ok());
    assert_eq!(InvalidControlReference.message(), "reference to control object doesn't exist anymore");
}

#[test]
fn jpg_is_rejected_without_change() {
    let mut gui = Gui::new((10, 10));
    let png = png_bytes(1, 1, &[0]);
    assert_eq!(
        gui.load_sprite_from_file("photo.jpg", &png, Color::from_u32(MASK)),
        Err(LoadError::InvalidImageFormat)
    );
    assert_eq!(gui.sprite_count(), 0);
    assert_eq!(
        gui.load_font_sprite_from_file("font.jpg", &png, glyph_settings()),
        Err(LoadError::InvalidImageFormat)
    );
    assert_eq!(gui.font_count(), 1);
}

#[test]
fn format_follows_the_extension() {
    assert_eq!(SheetFormat::from_path("a/b.png"), Ok(SheetFormat::Png));
    assert_eq!(SheetFormat::from_path("b.PnG"), Ok(SheetFormat::Png));
    assert_eq!(SheetFormat::from_path("dir.x/b.blit"), Ok(SheetFormat::Blit));
    assert_eq!(SheetFormat::from_path("x.tar.BLIT"), Ok(SheetFormat::Blit));
    assert_eq!(SheetFormat::from_path("photo.jpg"), Err(InvalidImageFormat));
    assert_eq!(SheetFormat::from_path("png"), Err(InvalidImageFormat));
    assert_eq!(SheetFormat::from_path(".png"), Err(InvalidImageFormat));
    assert_eq!(SheetFormat::from_path("dir/.png"), Err(InvalidImageFormat));
    assert_eq!(SheetFormat::from_path("dir.png/file"), Err(InvalidImageFormat));
    assert_eq!(SheetFormat::from_path(""), Err(InvalidImageFormat));
    assert_eq!(SheetFormat::from_path("a.pngx"), Err(InvalidImageFormat));
    assert_eq!(SheetFormat::from_path("a.png/"), Ok(SheetFormat::Png));
    assert_eq!(SheetFormat::from_path("a.png/."), Ok(SheetFormat::Png));
    assert_eq!(SheetFormat::from_path("dir/a.blit/./"), Ok(SheetFormat::Blit));
    assert_eq!(SheetFormat::from_path("a.png//"), Ok(SheetFormat::Png));
    assert_eq!(SheetFormat::from_path("/"), Err(InvalidImageFormat));
    assert_eq!(SheetFormat::from_path(".png/"), Err(InvalidImageFormat));
    assert_eq!(SheetFormat::from_path("a.png/.."), Err(InvalidImageFormat));
    assert_eq!(InvalidImageFormat.message(), "file format doesn't match '.png' or '.blit'");
}

#[test]
fn undecodable_bytes_fail() {
    let mut gui = Gui::new((10, 10));
    assert_eq!(
        gui.load_sprite_from_file("broken.png", &[1, 2, 3, 4], Color::from_u32(MASK)),
        Err(LoadError::DecodeFailed)
    );
    assert_eq!(
        gui.load_sprite_from_file("broken.blit", &[1, 2, 3, 4], Color::from_u32(MASK)),
        Err(LoadError::DecodeFailed)
    );
    assert_eq!(
        gui.load_sprite_from_file("alpha.png", &rgba_png_bytes(), Color::from_u32(MASK)),
        Err(LoadError::DecodeFailed)
    );
    assert_eq!(gui.sprite_count(), 0);
}

#[test]
fn mask_colour_becomes_transparent() {
    let mut gui = Gui::new((3, 1));
    let png = png_bytes(3, 1, &[0x102030, MASK, 0x000000]);
    let s = gui.load_sprite_from_file("s.png", &png, Color::from_u32(MASK)).unwrap();
    gui.register(Sprite::new_with_sprite(s));
    let mut buffer = vec![0x00ABCDEFu32; 3];
    gui.draw_to_buffer(&mut buffer);
    assert_eq!(buffer[0], 0xFF102030);
    assert_eq!(buffer[1], 0xFFABCDEF);
    assert_eq!(buffer[2], 0xFF000000);
}

#[test]
fn sprite_moves_and_clips() {
    let mut gui = Gui::new((3, 3));
    let png = png_bytes(2, 2, &[0x010101, 0x020202, 0x030303, 0x040404]);
    let s = gui.load_sprite_from_file("s.png", &png, Color::from_u32(MASK)).unwrap();
    let mut sprite = Sprite::new_with_sprite(s).with_pos(5, 5);
    sprite.set_pos(2, -1);
    assert_eq!(sprite.pos(), (2, -1));
    gui.register(sprite);
    let mut buffer = vec![0u32; 9];
    gui.draw_to_buffer(&mut buffer);
    assert_eq!(buffer[2], 0xFF030303);
    assert_eq!(buffer[0], 0);
    assert_eq!(buffer[3], 0);
}

#[test]
fn image_button_draws_the_frame_of_its_state() {
    let mut gui = Gui::new((4, 4));
    let png = png_bytes(2, 6, &[0x11, 0x11, 0x11, 0x11, 0x22, 0x22, 0x22, 0x22, 0x33, 0x33, 0x33, 0x33]);
    let s = gui.load_sprite_from_file("button.png", &png, Color::from_u32(MASK)).unwrap();
    let h = gui.register(Button::new_with_sprite(s).with_pos(1, 1));
    let mut buffer = vec![0u32; 16];
    gui.draw_to_buffer(&mut buffer);
    assert_eq!(buffer[1 + 4], 0xFF000011);
    assert_eq!(buffer[1 + 3 * 4], 0);
    assert_eq!(gui.update(&at(1, 3, false)), vec![]);
    assert_eq!(gui.update(&at(2, 2, false)), vec![(h, ButtonState::Hover)]);
    gui.draw_to_buffer(&mut buffer);
    assert_eq!(buffer[2 + 2 * 4], 0xFF000022);
    gui.update(&at(2, 2, true));
    gui.draw_to_buffer(&mut buffer);
    assert_eq!(buffer[2 + 2 * 4], 0xFF000033);
    assert!(gui.get::<Button<Image>>(h).unwrap().pressed());
}

#[test]
fn colour_gets_its_alpha_byte() {
    assert_eq!(Color::from_u32(0x123456).u32(), 0xFF123456);
    assert_eq!(Color::from_u32(0xFF00FF).0, 0xFFFF00FF);
}

#[test]
fn widget_kinds() {
    let gui = Gui::new((1, 1));
    let flat = Widget::FlatButton(Button::new((1, 1), Color::from_u32(0)));
    assert_eq!(flat.control_type(), ControlType::Button);
    assert_eq!(Widget::Label(Label::new(gui.default_font())).control_type(), ControlType::Label);
    assert!(gui.can_register(&Label::new(gui.default_font())));
    let mut other = Gui::new((1, 1));
    let s = other.load_sprite_from_file("s.png", &png_bytes(1, 1, &[0]), Color::from_u32(MASK)).unwrap();
    assert!(!gui.can_register(&Sprite::new_with_sprite(s)));
    assert!(other.can_register(&Sprite::new_with_sprite(s)));
    let b = Button::new_with_sprite(s);
    assert_eq!(b.pos(), (0, 0));
    assert!(!b.pressed());
}

fn packed(pixels: &[u32], width: i32) -> Vec<u8> {
    let sheet = blit::BlitBuffer::from_buffer(pixels, width, blit::Color::from_u32(MASK));
    bincode::serialize(&sheet).unwrap()
}

#[test]
fn packed_sheets_load_as_they_are() {
    let mut gui = Gui::new((2, 1));
    let bytes = packed(&[0x0A0B0C, MASK], 2);
    let a = gui.load_sprite_from_memory(&bytes).unwrap();
    let b = gui.load_sprite_from_file("dir/sprite.blit", &bytes, Color::from_u32(0)).unwrap();
    assert_eq!((a.index(), b.index()), (0, 1));
    let f = gui.load_font_sprite_from_memory(&bytes, glyph_settings()).unwrap();
    assert_eq!(f.index(), 1);
    gui.register(Sprite::new_with_sprite(b));
    let mut buffer = vec![0x00777777u32; 2];
    gui.draw_to_buffer(&mut buffer);
    assert_eq!(buffer, vec![0xFF0A0B0C, 0xFF777777]);
}

#[test]
fn packed_sheet_with_wrong_size_is_rejected() {
    let mut bytes = packed(&[1, 2], 2);
    bytes[0] = 3;
    let mut gui = Gui::new((2, 1));
    assert_eq!(gui.load_sprite_from_memory(&bytes), Err(LoadError::DecodeFailed));
    assert_eq!(gui.sprite_count(), 0);
}

#[test]
fn sprite_paints_over_earlier_button() {
    let mut gui = Gui::new((4, 1));
    gui.register(Button::new((4, 1), Color::from_u32(0x111111)));
    let png = png_bytes(2, 1, &[0x222222, MASK]);
    let s = gui.load_sprite_from_file("s.png", &png, Color::from_u32(MASK)).unwrap();
    gui.register(Sprite::new_with_sprite(s).with_pos(1, 0));
    let mut buffer = vec![0u32; 4];
    gui.draw_to_buffer(&mut buffer);
    assert_eq!(buffer[1], 0xFF222222);
    assert_eq!(buffer[2], 0xFF000000);
}

#[test]
fn png_sheet_keeps_size_and_pixels() {
    let mut res = Resources::new();
    let png = png_bytes(3, 2, &[1, 2, MASK, 4, 5, 6]);
    let s = res.load_sprite_from_file("dir/img.png/", &png, Color::from_u32(MASK)).unwrap();
    let sheet = res.get_sprite(s).unwrap();
    assert_eq!(sheet.size(), (3, 2));
    assert_eq!(sheet.to_raw_buffer(), vec![0xFF000001, 0xFF000002, 0xFF000000, 0xFF000004, 0xFF000005, 0xFF000006]);
}
