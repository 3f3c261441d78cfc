use vstd::prelude::*;

verus! {

/// The pixel word that `convert` computes from three channel values: the red
/// channel shifted into bits 11.., green into bits 5.., blue added at the
/// bottom. The shifts are those of `u16`, so bits shifted past bit 15 are lost.
pub open spec fn spec_convert(r: u8, g: u8, b: u8) -> int {
    (((r as u16) << 11u16) as int) + (((g as u16) << 5u16) as int) + (b as int)
}

/// `convert` does not overflow on these channel values.
pub open spec fn convert_fits(r: u8, g: u8, b: u8) -> bool {
    spec_convert(r, g, b) <= u16::MAX
}

/// Channels in the ranges of the 5-6-5 format.
pub open spec fn channels_in_range(r: u8, g: u8, b: u8) -> bool {
    r < 32 && g < 64 && b < 32
}

/// The red channel (bits 11..16) of a 5-6-5 pixel word.
pub open spec fn red_565(c: u16) -> u8 {
    (c / 2048) as u8
}

/// The green channel (bits 5..11) of a 5-6-5 pixel word.
pub open spec fn green_565(c: u16) -> u8 {
    ((c / 32) % 64) as u8
}

/// The blue channel (bits 0..5) of a 5-6-5 pixel word.
pub open spec fn blue_565(c: u16) -> u8 {
    (c % 32) as u8
}

/// `a - b`, or 0 where `b` is larger.
pub open spec fn saturating_sub_u8(a: u8, b: u8) -> u8 {
    if a < b {
        0
    } else {
        (a - b) as u8
    }
}

/// Mixes channel `bg` toward channel `fg` by `alpha` sixty-fourths, rounding down.
pub open spec fn mix_channel(bg: u8, fg: u8, alpha: u8) -> u8 {
    ((bg * (64 - alpha) + fg * alpha) / 64) as u8
}

/// A color, as separate channels and as the packed 5-6-5 word that the panel takes.
#[derive(Copy, Clone, Debug)]
pub struct Color {
    pub r: u8,
    pub g: u8,
    pub b: u8,
    pub c: u16,
}

impl Color {
    /// The packed word agrees with the channels.
    pub open spec fn is_packed(self) -> bool {
        self.c == spec_convert(self.r, self.g, self.b)
    }

    /// Black: every channel 0.
    pub fn black() -> (res: Color)
        ensures
            res.r == 0 && res.g == 0 && res.b == 0,
            res.is_packed(),
    {
        proof {
            lemma_convert_in_range(0, 0, 0);
        }
        Self::from_rgb_565(0, 0, 0)
    }

    /// White: every channel at the top of its range.
    pub fn white() -> (res: Color)
        ensures
            res.r == 31 && res.g == 63 && res.b == 31,
            res.is_packed(),
    {
        proof {
            lemma_convert_in_range(31, 63, 31);
        }
        Self::from_rgb_565(31, 63, 31)
    }

    /// Full red.
    pub fn red() -> (res: Color)
        ensures
            res.r == 31 && res.g == 0 && res.b == 0,
            res.is_packed(),
    {
        proof {
            lemma_convert_in_range(31, 0, 0);
        }
        Self::from_rgb_565(31, 0, 0)
    }

    /// Full green.
    pub fn green() -> (res: Color)
        ensures
            res.r == 0 && res.g == 63 && res.b == 0,
            res.is_packed(),
    {
        proof {
            lemma_convert_in_range(0, 63, 0);
        }
        Self::from_rgb_565(0, 63, 0)
    }

    /// Full blue.
    pub fn blue() -> (res: Color)
        ensures
            res.r == 0 && res.g == 0 && res.b == 31,
            res.is_packed(),
    {
        proof {
            lemma_convert_in_range(0, 0, 31);
        }
        Self::from_rgb_565(0, 0, 31)
    }

    /// Splits a 5-6-5 pixel word into its channels.
    pub fn from_565(c: u16) -> (res: Color)
        ensures
            res.r == red_565(c),
            res.g == green_565(c),
            res.b == blue_565(c),
            res.c == c,
    {
        assert((c >> 11u16) == c / 2048 && (c >> 11u16) < 32) by (bit_vector);
        assert(((c & 0x7e0u16) >> 5u16) == (c / 32) % 64 && ((c & 0x7e0u16) >> 5u16) < 64)
            by (bit_vector);
        assert((c & 0x1fu16) == c % 32 && (c & 0x1fu16) < 32) by (bit_vector);
        Color { r: (c >> 11) as u8, g: ((c & 0b00000_111111_00000) >> 5) as u8, b: (c & 0b00000_000000_11111) as u8, c }
    }

    /// Builds a color from 5-6-5 channels (red and blue in `0..=31`, green in
    /// `0..=63`); the packed word is `convert(r, g, b)`.
    pub fn from_rgb_565(r: u8, g: u8, b: u8) -> (res: Color)
        requires
            convert_fits(r, g, b),
        ensures
            res.r == r,
            res.g == g,
            res.b == b,
            res.c == spec_convert(r, g, b),
    {
        Color { r, g, b, c: convert(r, g, b) }
    }

    /// Builds a color from 8-bit channels, each scaled down to its 5-6-5 range
    /// and rounded down.
    pub fn from_rgb_u8(r: u8, g: u8, b: u8) -> (res: Color)
        ensures
            res.r == r * 31 / 255,
            res.g == g * 63 / 255,
            res.b == b * 31 / 255,
            channels_in_range(res.r, res.g, res.b),
            res.is_packed(),
    {
        let r5 = ((r as u16) * 31 / 255) as u8;
        let g6 = ((g as u16) * 63 / 255) as u8;
        let b5 = ((b as u16) * 31 / 255) as u8;
        proof {
            lemma_convert_in_range(r5, g6, b5);
        }
        Self::from_rgb_565(r5, g6, b5)
    }

    /// Subtracts, channel by channel and saturating at 0, the channels of the
    /// pixel word `color`, then repacks.
    pub fn sub(&mut self, color: u16)
        requires
            convert_fits(
                saturating_sub_u8(old(self).r, red_565(color)),
                saturating_sub_u8(old(self).g, green_565(color)),
                saturating_sub_u8(old(self).b, blue_565(color)),
            ),
        ensures
            final(self).r == saturating_sub_u8(old(self).r, red_565(color)),
            final(self).g == saturating_sub_u8(old(self).g, green_565(color)),
            final(self).b == saturating_sub_u8(old(self).b, blue_565(color)),
            final(self).is_packed(),
    {
        let color = Self::from_565(color);
        self.r = if self.r < color.r { 0 } else { self.r - color.r };
        self.g = if self.g < color.g { 0 } else { self.g - color.g };
        self.b = if self.b < color.b { 0 } else { self.b - color.b };
        self.c = convert(self.r, self.g, self.b);
    }

    /// Moves each channel toward those of `color` by `alpha` sixty-fourths
    /// (`alpha` in `0..=64`, 0 keeping `self`, 64 taking `color`), rounding
    /// down, then repacks.
    pub fn blend(&mut self, color: &Color, alpha: u8)
        requires
            alpha <= 64,
            convert_fits(
                mix_channel(old(self).r, color.r, alpha),
                mix_channel(old(self).g, color.g, alpha),
                mix_channel(old(self).b, color.b, alpha),
            ),
        ensures
            final(self).r == mix_channel(old(self).r, color.r, alpha),
            final(self).g == mix_channel(old(self).g, color.g, alpha),
            final(self).b == mix_channel(old(self).b, color.b, alpha),
            final(self).is_packed(),
    {
        self.r = mix_u8(self.r, color.r, alpha);
        self.g = mix_u8(self.g, color.g, alpha);
        self.b = mix_u8(self.b, color.b, alpha);
        self.c = convert(self.r, self.g, self.b);
    }
}

fn mix_u8(bg: u8, fg: u8, alpha: u8) -> (res: u8)
    requires
        alpha <= 64,
    ensures
        res == mix_channel(bg, fg, alpha),
{
    let inv = 64 - alpha;
    assert(bg * inv <= 255 * 64) by (nonlinear_arith)
        requires
            bg <= 255,
            inv <= 64,
    ;
    assert(fg * alpha <= 255 * 64) by (nonlinear_arith)
        requires
            fg <= 255,
            alpha <= 64,
    ;
    assert(bg * inv + fg * alpha <= 255 * 64) by (nonlinear_arith)
        requires
            bg <= 255,
            inv + alpha == 64,
    ;
    let sum = (bg as u16) * (inv as u16) + (fg as u16) * (alpha as u16);
    (sum / 64) as u8
}

/// Packs three channels into one 5-6-5 pixel word.
pub fn convert(r: u8, g: u8, b: u8) -> (c: u16)
    requires
        convert_fits(r, g, b),
    ensures
        c == spec_convert(r, g, b),
{
    ((r as u16) << 11) + ((g as u16) << 5) + (b as u16)
}

/// In the 5-6-5 ranges, packing is the positional sum and never overflows.
pub proof fn lemma_convert_in_range(r: u8, g: u8, b: u8)
    requires
        channels_in_range(r, g, b),
    ensures
        spec_convert(r, g, b) == r * 2048 + g * 32 + b,
        convert_fits(r, g, b),
{
    let r16 = r as u16;
    let g16 = g as u16;
    assert((r16 << 11u16) == r16 * 2048) by (bit_vector)
        requires
            r16 < 32,
    ;
    assert((g16 << 5u16) == g16 * 32) by (bit_vector)
        requires
            g16 < 64,
    ;
}

/// Unpacking a pixel word and packing its channels gives the word back.
pub proof fn lemma_pack_unpack(c: u16)
    ensures
        channels_in_range(red_565(c), green_565(c), blue_565(c)),
        spec_convert(red_565(c), green_565(c), blue_565(c)) == c,
{
    lemma_convert_in_range(red_565(c), green_565(c), blue_565(c));
}

/// Packing channels in the 5-6-5 ranges and unpacking gives the channels back.
pub proof fn lemma_unpack_pack(r: u8, g: u8, b: u8)
    requires
        channels_in_range(r, g, b),
    ensures
        red_565(spec_convert(r, g, b) as u16) == r,
        green_565(spec_convert(r, g, b) as u16) == g,
        blue_565(spec_convert(r, g, b) as u16) == b,
{
    lemma_convert_in_range(r, g, b);
}

/// Mixing moves a channel between its two ends: by 0 sixty-fourths it stays,
/// by 64 it becomes the pen channel, and in between it never leaves the range
/// spanned by the two.
pub proof fn lemma_mix_channel(bg: u8, fg: u8, alpha: u8)
    requires
        alpha <= 64,
    ensures
        mix_channel(bg, fg, 0) == bg,
        mix_channel(bg, fg, 64) == fg,
        bg <= fg ==> bg <= mix_channel(bg, fg, alpha) <= fg,
        fg <= bg ==> fg <= mix_channel(bg, fg, alpha) <= bg,
{
    assert(bg * (64 - 64) + fg * 64 == fg * 64) by (nonlinear_arith);
    assert(bg * (64 - 0) + fg * 0 == bg * 64) by (nonlinear_arith);
    let inv = 64 - alpha;
    let s = bg * inv + fg * alpha;
    assert(bg <= fg ==> bg * 64 <= s <= fg * 64) by (nonlinear_arith)
        requires
            s == bg * inv + fg * alpha,
            inv + alpha == 64,
            0 <= inv,
            0 <= alpha,
    ;
    assert(fg <= bg ==> fg * 64 <= s <= bg * 64) by (nonlinear_arith)
        requires
            s == bg * inv + fg * alpha,
            inv + alpha == 64,
            0 <= inv,
            0 <= alpha,
    ;
    assert(0 <= s <= 255 * 64) by (nonlinear_arith)
        requires
            s == bg * inv + fg * alpha,
            inv + alpha == 64,
            0 <= inv,
            0 <= alpha,
            bg <= 255,
            fg <= 255,
    ;
}

/// Blending two colors whose channels are in the 5-6-5 ranges gives channels
/// in those ranges, so the repacking never overflows.
pub proof fn lemma_blend_in_range(bg: Color, fg: Color, alpha: u8)
    requires
        alpha <= 64,
        channels_in_range(bg.r, bg.g, bg.b),
        channels_in_range(fg.r, fg.g, fg.b),
    ensures
        channels_in_range(
            mix_channel(bg.r, fg.r, alpha),
            mix_channel(bg.g, fg.g, alpha),
            mix_channel(bg.b, fg.b, alpha),
        ),
        convert_fits(
            mix_channel(bg.r, fg.r, alpha),
            mix_channel(bg.g, fg.g, alpha),
            mix_channel(bg.b, fg.b, alpha),
        ),
{
    lemma_mix_channel(bg.r, fg.r, alpha);
    lemma_mix_channel(bg.g, fg.g, alpha);
    lemma_mix_channel(bg.b, fg.b, alpha);
    lemma_convert_in_range(
        mix_channel(bg.r, fg.r, alpha),
        mix_channel(bg.g, fg.g, alpha),
        mix_channel(bg.b, fg.b, alpha),
    );
}

/// Subtracting any pixel word from a color whose channels are in the 5-6-5
/// ranges keeps them there, so the repacking never overflows.
pub proof fn lemma_sub_in_range(col: Color, color: u16)
    requires
        channels_in_range(col.r, col.g, col.b),
    ensures
        channels_in_range(
            saturating_sub_u8(col.r, red_565(color)),
            saturating_sub_u8(col.g, green_565(color)),
            saturating_sub_u8(col.b, blue_565(color)),
        ),
        convert_fits(
            saturating_sub_u8(col.r, red_565(color)),
            saturating_sub_u8(col.g, green_565(color)),
            saturating_sub_u8(col.b, blue_565(color)),
        ),
{
    lemma_convert_in_range(
        saturating_sub_u8(col.r, red_565(color)),
        saturating_sub_u8(col.g, green_565(color)),
        saturating_sub_u8(col.b, blue_565(color)),
    );
}

} // verus!
