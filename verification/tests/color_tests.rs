use rp_spi_tft::color::{convert, Color};

fn float_scale(v: u8, max: f32) -> u8 {
    ((v as f32 / 255.) * max) as u8
}

fn float_blend(bg: u8, fg: u8, a: f32) -> u8 {
    let ai = 1. - a;
    ((bg as f32 * ai) + (fg as f32 * a)) as u8
}

#[test]
fn convert_packs_channels() {
    assert_eq!(convert(0, 0, 0), 0);
    assert_eq!(convert(31, 63, 31), 0xffff);
    assert_eq!(convert(31, 0, 0), 0xf800);
    assert_eq!(convert(0, 63, 0), 0x07e0);
    assert_eq!(convert(0, 0, 31), 0x001f);
    assert_eq!(convert(1, 2, 3), (1 << 11) + (2 << 5) + 3);
    // a red value past five bits loses its high bits in the shift
    assert_eq!(convert(32, 0, 1), 1);
}

#[test]
fn from_565_splits_channels() {
    let c = Color::from_565(0b10101_110011_01110);
    assert_eq!((c.r, c.g, c.b, c.c), (0b10101, 0b110011, 0b01110, 0b10101_110011_01110));
    let w = Color::from_565(0xffff);
    assert_eq!((w.r, w.g, w.b), (31, 63, 31));
}

#[test]
fn pack_unpack_roundtrip() {
    for c in 0..=u16::MAX {
        let col = Color::from_565(c);
        assert!(col.r < 32 && col.g < 64 && col.b < 32);
        assert_eq!(convert(col.r, col.g, col.b), c);
    }
}

#[test]
fn unpack_pack_roundtrip() {
    for r in 0..32u8 {
        for g in 0..64u8 {
            for b in 0..32u8 {
                let c = Color::from_565(convert(r, g, b));
                assert_eq!((c.r, c.g, c.b), (r, g, b));
            }
        }
    }
}

#[test]
fn from_rgb_565_keeps_channels() {
    let c = Color::from_rgb_565(10, 20, 30);
    assert_eq!((c.r, c.g, c.b), (10, 20, 30));
    assert_eq!(c.c, (10 << 11) + (20 << 5) + 30);
}

#[test]
fn named_colors() {
    assert_eq!(Color::black().c, 0);
    assert_eq!(Color::white().c, 0xffff);
    assert_eq!(Color::red().c, 0xf800);
    assert_eq!(Color::green().c, 0x07e0);
    assert_eq!(Color::blue().c, 0x001f);
}

#[test]
fn from_rgb_u8_scales_like_the_float_formula() {
    for v in 0..=255u8 {
        let c = Color::from_rgb_u8(v, v, v);
        assert_eq!(c.r, float_scale(v, 31.), "red {}", v);
        assert_eq!(c.g, float_scale(v, 63.), "green {}", v);
        assert_eq!(c.b, float_scale(v, 31.), "blue {}", v);
        assert_eq!(c.c, convert(c.r, c.g, c.b));
    }
    let c = Color::from_rgb_u8(255, 128, 0);
    assert_eq!((c.r, c.g, c.b), (31, 31, 0));
}

#[test]
fn sub_saturates_per_channel() {
    let mut c = Color::from_rgb_565(10, 40, 5);
    c.sub(convert(3, 50, 5));
    assert_eq!((c.r, c.g, c.b), (7, 0, 0));
    assert_eq!(c.c, convert(7, 0, 0));
}

#[test]
fn blend_mixes_by_sixty_fourths() {
    let mut c = Color::from_rgb_565(0, 0, 31);
    c.blend(&Color::from_rgb_565(31, 63, 0), 32);
    assert_eq!((c.r, c.g, c.b), (15, 31, 15));
    assert_eq!(c.c, convert(15, 31, 15));
    let mut keep = Color::from_rgb_565(4, 5, 6);
    keep.blend(&Color::white(), 0);
    assert_eq!((keep.r, keep.g, keep.b), (4, 5, 6));
    let mut take = Color::from_rgb_565(4, 5, 6);
    take.blend(&Color::white(), 64);
    assert_eq!((take.r, take.g, take.b), (31, 63, 31));
}

#[test]
fn blend_matches_the_float_formula_on_glyph_coverages() {
    for bg in 0..64u8 {
        for fg in 0..64u8 {
            for k in 0..64u8 {
                let mut c = Color::from_rgb_565(bg / 2, bg, fg / 2);
                c.blend(&Color::from_rgb_565(fg / 2, fg, bg / 2), k);
                let a = k as f32 / 64.;
                assert_eq!(c.r, float_blend(bg / 2, fg / 2, a));
                assert_eq!(c.g, float_blend(bg, fg, a));
                assert_eq!(c.b, float_blend(fg / 2, bg / 2, a));
            }
        }
    }
}
