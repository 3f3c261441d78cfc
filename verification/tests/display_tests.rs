use rp_spi_tft::_2d::sprite::Sprite;
use rp_spi_tft::color::{convert, Color};
use rp_spi_tft::display::Display;
use rp_spi_tft::text::{Font, Glyph};

fn glyph_pixel(x: u16, y: u16, alpha: u16) -> u16 {
    (x << 11) | (y << 6) | alpha
}

#[test]
fn new_display_is_blank() {
    let d = Display::<4, 3>::new();
    assert_eq!(d.data, [[0; 4]; 3]);
    assert_eq!(d.color.c, 0xffff);
    assert_eq!(d.letter_space, 1);
    assert_eq!(d.letter_cursor, [0, 0]);
    assert_eq!(d.letter_padding, [0, 0]);
    assert_eq!(d.word_space, 0);
    assert_eq!(d.line_height, 0);
    assert_eq!(d.font.line_height, 0);
    assert!(d.font.glyphs.is_empty());
}

#[test]
fn draw_pixel_sets_only_that_pixel() {
    let mut d = Display::<4, 3>::new();
    d.color = Color::red();
    d.draw_pixel(2, 1);
    assert_eq!(d.data[1][2], 0xf800);
    let mut expected = [[0u16; 4]; 3];
    expected[1][2] = 0xf800;
    assert_eq!(d.data, expected);
}

#[test]
fn draw_pixel_off_panel_is_ignored() {
    let mut d = Display::<4, 3>::new();
    d.draw_pixel(-1, 0);
    d.draw_pixel(0, -1);
    d.draw_pixel(4, 0);
    d.draw_pixel(0, 3);
    d.draw_pixel(isize::MAX, isize::MIN);
    assert_eq!(d.data, [[0; 4]; 3]);
}

#[test]
fn set_pixel_color_writes_the_word() {
    let mut d = Display::<4, 3>::new();
    d.set_pixel_color(3, 2, 0x1234);
    d.set_pixel_color(5, 2, 0x4321);
    assert_eq!(d.data[2][3], 0x1234);
    assert_eq!(d.data[2].iter().filter(|p| **p != 0).count(), 1);
}

#[test]
fn draw_pixel_blend_mixes_with_the_background() {
    let mut d = Display::<2, 2>::new();
    d.set_pixel_color(0, 0, convert(0, 0, 31));
    d.color = Color::from_rgb_565(31, 63, 0);
    d.draw_pixel_blend(0, 0, 32);
    assert_eq!(d.data[0][0], convert(15, 31, 15));
    d.draw_pixel_blend(7, 0, 32);
    assert_eq!(d.data[0][1], 0);
}

#[test]
fn draw_rect_fills_the_clipped_rectangle() {
    let mut d = Display::<5, 4>::new();
    d.color = Color::blue();
    d.draw_rect(3, -1, 4, 3);
    let mut expected = [[0u16; 5]; 4];
    for y in 0..2 {
        for x in 3..5 {
            expected[y][x] = 0x001f;
        }
    }
    assert_eq!(d.data, expected);
}

#[test]
fn draw_rect_empty_sizes_draw_nothing() {
    let mut d = Display::<5, 4>::new();
    d.draw_rect(1, 1, 0, 2);
    d.draw_rect(1, 1, 2, 0);
    d.draw_rect(1, 1, -3, 2);
    d.draw_rect(1, 1, 2, -3);
    assert_eq!(d.data, [[0; 5]; 4]);
}

#[test]
fn clear_blanks_and_resets_the_cursor() {
    let mut d = Display::<3, 3>::new();
    d.draw_rect(0, 0, 3, 3);
    d.line_height = 7;
    d.set_cursor_position(5, 9);
    d.clear();
    assert_eq!(d.data, [[0; 3]; 3]);
    assert_eq!(d.letter_cursor, [0, 7]);
}

#[test]
fn reset_cursor_goes_to_the_first_line() {
    let mut d = Display::<3, 3>::new();
    d.line_height = 4;
    d.set_cursor_position(-2, 11);
    assert_eq!(d.letter_cursor, [-2, 11]);
    d.reset_cursor();
    assert_eq!(d.letter_cursor, [0, 4]);
}

#[test]
fn draw_sprite_copies_with_clipping() {
    let mut d = Display::<4, 3>::new();
    let s = Sprite([[1, 2, 3], [4, 5, 6]]);
    d.draw_sprite(&s, 2, 1);
    assert_eq!(d.data, [[0, 0, 0, 0], [0, 0, 1, 2], [0, 0, 4, 5]]);
    let mut e = Display::<4, 3>::new();
    e.draw_sprite(&s, -1, -1);
    assert_eq!(e.data, [[5, 6, 0, 0], [0, 0, 0, 0], [0, 0, 0, 0]]);
}

fn test_font() -> Font {
    Font {
        line_height: 2,
        glyphs: vec![
            Glyph { ch: 'a', width: 2, pixels: vec![glyph_pixel(0, 0, 63), glyph_pixel(1, 1, 32)] },
            Glyph { ch: 'b', width: 1, pixels: vec![glyph_pixel(0, 1, 0)] },
            Glyph { ch: 'a', width: 9, pixels: vec![] },
        ],
    }
}

#[test]
fn font_data_finds_the_first_glyph() {
    let f = test_font();
    let (w, px) = f.data('a');
    assert_eq!(w, 2);
    assert_eq!(px, &[glyph_pixel(0, 0, 63), glyph_pixel(1, 1, 32)][..]);
    assert_eq!(f.find('b'), Some(1));
    let (w, px) = f.data('z');
    assert_eq!((w, px.len()), (0, 0));
    assert_eq!(f.find('z'), None);
    let e = Font::empty();
    assert_eq!(e.data('a').0, 0);
}

#[test]
fn write_char_blends_the_glyph_and_advances() {
    let mut d = Display::<8, 4>::new();
    d.font = test_font();
    d.color = Color::white();
    d.set_cursor_position(1, 1);
    d.write_char('a');
    assert_eq!(d.data[1][1], convert(30, 62, 30));
    assert_eq!(d.data[2][2], convert(15, 31, 15));
    assert_eq!(d.letter_cursor, [1 + 1 + 2, 1]);
}

#[test]
fn write_char_unknown_letter_only_advances_by_spacing() {
    let mut d = Display::<8, 4>::new();
    d.font = test_font();
    d.write_char('?');
    assert_eq!(d.data, [[0; 8]; 4]);
    assert_eq!(d.letter_cursor, [1, 0]);
}

#[test]
fn write_char_newline_starts_a_line() {
    let mut d = Display::<8, 4>::new();
    d.font = test_font();
    d.line_height = 3;
    d.set_cursor_position(6, 1);
    d.write_char('\n');
    assert_eq!(d.letter_cursor, [0, 1 + 3 + 2]);
    assert_eq!(d.data, [[0; 8]; 4]);
}

#[test]
fn write_str_writes_each_letter() {
    let mut d = Display::<8, 8>::new();
    d.font = test_font();
    d.write_str("ab\na");
    let mut e = Display::<8, 8>::new();
    e.font = test_font();
    e.write_char('a');
    e.write_char('b');
    e.write_char('\n');
    e.write_char('a');
    assert_eq!(d.data, e.data);
    assert_eq!(d.letter_cursor, e.letter_cursor);
    assert_eq!(d.letter_cursor, [3, 2]);
}

#[test]
fn write_str_splits_anywhere() {
    let mut d = Display::<8, 8>::new();
    d.font = test_font();
    d.write_str("abab");
    let mut e = Display::<8, 8>::new();
    e.font = test_font();
    e.write_str("ab");
    e.write_str("ab");
    assert_eq!(d.data, e.data);
    assert_eq!(d.letter_cursor, e.letter_cursor);
}
