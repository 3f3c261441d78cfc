use vstd::prelude::*;

use crate::color::{
    blue_565, channels_in_range, convert_fits, green_565, lemma_blend_in_range, lemma_pack_unpack,
    mix_channel, red_565, spec_convert, Color,
};
use crate::text::Font;

verus! {

broadcast use vstd::array::group_array_axioms;

/// `(x, y)` is a pixel of frame `f`.
pub open spec fn in_frame(f: Seq<Seq<u16>>, x: int, y: int) -> bool {
    0 <= y < f.len() && 0 <= x < f[y].len()
}

/// The frame after pixel `(x, y)` of frame `f` is set to `v`; a position
/// outside the frame leaves it as it is.
pub open spec fn frame_set(f: Seq<Seq<u16>>, x: int, y: int, v: u16) -> Seq<Seq<u16>> {
    if in_frame(f, x, y) {
        f.update(y, f[y].update(x, v))
    } else {
        f
    }
}

/// The pixel word of background word `bg` mixed toward `fg` by `alpha`
/// sixty-fourths, channel by channel.
pub open spec fn blend_word(bg: u16, fg: Color, alpha: u8) -> u16 {
    spec_convert(
        mix_channel(red_565(bg), fg.r, alpha),
        mix_channel(green_565(bg), fg.g, alpha),
        mix_channel(blue_565(bg), fg.b, alpha),
    ) as u16
}

/// Mixing `bg` toward `fg` does not overflow the packed word.
pub open spec fn blend_fits(bg: u16, fg: Color, alpha: u8) -> bool {
    convert_fits(
        mix_channel(red_565(bg), fg.r, alpha),
        mix_channel(green_565(bg), fg.g, alpha),
        mix_channel(blue_565(bg), fg.b, alpha),
    )
}

/// Blending pen `fg` into pixel `(x, y)` of `f` does not overflow (trivially
/// so off the frame, where nothing is drawn).
pub open spec fn frame_blend_ok(f: Seq<Seq<u16>>, x: int, y: int, fg: Color, alpha: u8) -> bool {
    in_frame(f, x, y) ==> blend_fits(f[y][x], fg, alpha)
}

/// The frame after pen `fg` is blended into pixel `(x, y)` by `alpha` sixty-fourths.
pub open spec fn frame_blend(f: Seq<Seq<u16>>, x: int, y: int, fg: Color, alpha: u8) -> Seq<
    Seq<u16>,
> {
    if in_frame(f, x, y) {
        frame_set(f, x, y, blend_word(f[y][x], fg, alpha))
    } else {
        f
    }
}

/// Blending a pen whose channels are in the 5-6-5 ranges into any pixel word
/// never overflows.
pub proof fn lemma_blend_fits_in_range(bg: u16, fg: Color, alpha: u8)
    requires
        alpha <= 64,
        channels_in_range(fg.r, fg.g, fg.b),
    ensures
        blend_fits(bg, fg, alpha),
{
    lemma_pack_unpack(bg);
    let back = Color { r: red_565(bg), g: green_565(bg), b: blue_565(bg), c: bg };
    lemma_blend_in_range(back, fg, alpha);
}

/// Law of `draw_pixel` and `set_pixel_color`: an on-panel pixel takes the
/// word `v` and every other pixel keeps its word; off the panel nothing
/// changes; the frame keeps its shape.
pub proof fn law_set_pixel(f: Seq<Seq<u16>>, x: int, y: int, v: u16)
    ensures
        frame_set(f, x, y, v).len() == f.len(),
        forall|j: int| 0 <= j < f.len() ==> #[trigger] frame_set(f, x, y, v)[j].len() == f[j].len(),
        forall|j: int, i: int|
            0 <= j < f.len() && 0 <= i < f[j].len() ==> #[trigger] frame_set(f, x, y, v)[j][i] == if i
                == x && j == y {
                v
            } else {
                f[j][i]
            },
{
}

/// Law of `new` and `clear`: the blank frame has `h` rows of `w` pixels, every
/// one 0.
pub proof fn law_blank_frame(w: nat, h: nat)
    ensures
        filled_frame(w as int, h as int, 0).len() == h,
        forall|j: int|
            0 <= j < h ==> #[trigger] filled_frame(w as int, h as int, 0)[j].len() == w && forall|i: int|
                0 <= i < w ==> #[trigger] filled_frame(w as int, h as int, 0)[j][i] == 0,
{
}

/// Law of `draw_pixel_blend`: blending the pen `fg` into an on-panel pixel by
/// `alpha` sixty-fourths replaces that pixel, whatever `alpha` is, by the old
/// word with each channel `bg` moved to `(bg * (64 - alpha) + pen * alpha) / 64`
/// and repacked; every other pixel, and the frame's shape, stay as they were.
pub proof fn law_blend_pixel(f: Seq<Seq<u16>>, x: int, y: int, fg: Color, alpha: u8)
    requires
        alpha <= 64,
        0 <= y < f.len(),
        0 <= x < f[y].len(),
    ensures
        frame_blend(f, x, y, fg, alpha).len() == f.len(),
        forall|j: int| 0 <= j < f.len() ==> #[trigger] frame_blend(f, x, y, fg, alpha)[j].len() == f[j].len(),
        frame_blend(f, x, y, fg, alpha)[y][x] == spec_convert(
            ((((f[y][x] / 2048) as u8) * (64 - alpha) + fg.r * alpha) / 64) as u8,
            (((((f[y][x] / 32) % 64) as u8) * (64 - alpha) + fg.g * alpha) / 64) as u8,
            ((((f[y][x] % 32) as u8) * (64 - alpha) + fg.b * alpha) / 64) as u8,
        ) as u16,
        forall|j: int, i: int|
            0 <= j < f.len() && 0 <= i < f[j].len() && (i != x || j != y) ==> #[trigger] frame_blend(
                f,
                x,
                y,
                fg,
                alpha,
            )[j][i] == f[j][i],
{
}

/// Law of `draw_pixel_blend` off the panel: nothing changes.
pub proof fn law_blend_off_panel(f: Seq<Seq<u16>>, x: int, y: int, fg: Color, alpha: u8)
    requires
        !(0 <= y < f.len() && 0 <= x < f[y].len()),
    ensures
        frame_blend(f, x, y, fg, alpha) == f,
{
}

/// A frame of `h` rows of `w` pixels each.
pub open spec fn frame_shape(f: Seq<Seq<u16>>, w: int, h: int) -> bool {
    f.len() == h && forall|j: int| 0 <= j < h ==> #[trigger] f[j].len() == w
}

/// A `w` x `h` frame with every pixel set to `v`.
pub open spec fn filled_frame(w: int, h: int, v: u16) -> Seq<Seq<u16>> {
    Seq::new(h as nat, |j: int| Seq::new(w as nat, |i: int| v))
}

/// The drawing state of a `W` x `H` panel: the frame buffer that `draw`
/// sends, the pen color, the text cursor and the text settings.
pub struct Display<const W: usize, const H: usize> {
    pub data: [[u16; W]; H],
    pub color: Color,
    pub letter_space: isize,
    pub letter_cursor: [isize; 2],
    pub letter_padding: [isize; 2],
    pub word_space: isize,
    pub line_height: isize,
    pub font: Font,
}

impl<const W: usize, const H: usize> Display<W, H> {
    /// The frame buffer as rows of pixel words, row `y` holding pixels `(0..W, y)`.
    pub open spec fn frame(&self) -> Seq<Seq<u16>> {
        self.data@.map_values(|row: [u16; W]| row@)
    }

    /// Pixel `(x, y)` of the frame buffer.
    pub open spec fn pixel(&self, x: int, y: int) -> u16 {
        self.frame()[y][x]
    }

    /// The text cursor as a pair of integers.
    pub open spec fn cursor(&self) -> (int, int) {
        (self.letter_cursor@[0] as int, self.letter_cursor@[1] as int)
    }

    /// Everything but the frame buffer and the cursor is the same in `self` and `other`.
    pub open spec fn same_settings(&self, other: &Self) -> bool {
        &&& self.color == other.color
        &&& self.letter_space == other.letter_space
        &&& self.letter_padding == other.letter_padding
        &&& self.word_space == other.word_space
        &&& self.line_height == other.line_height
        &&& self.font == other.font
    }

    /// The frame buffer always has `H` rows of `W` pixels.
    pub proof fn lemma_frame_shape(&self)
        ensures
            frame_shape(self.frame(), W as int, H as int),
    {
    }

    /// A blank panel: every pixel 0, white pen, cursor at the origin, one pixel
    /// between letters and the empty font.
    pub fn new() -> (res: Self)
        ensures
            res.frame() == filled_frame(W as int, H as int, 0),
            res.color.r == 31 && res.color.g == 63 && res.color.b == 31,
            res.color.is_packed(),
            res.letter_space == 1,
            res.cursor() == (0int, 0int),
            res.letter_padding@ == seq![0isize, 0isize],
            res.word_space == 0,
            res.line_height == 0,
            res.font.line_height == 0,
            res.font.glyphs@.len() == 0,
    {
        let res = Display {
            data: [[0;W];H],
            color: Color::white(),
            letter_space: 1,
            letter_cursor: [0, 0],
            letter_padding: [0, 0],
            word_space: 0,
            line_height: 0,
            font: Font::empty(),
        };
        assert(res.frame() =~= filled_frame(W as int, H as int, 0)) by {
            assert forall|j: int| 0 <= j < H implies #[trigger] res.frame()[j]
                =~= filled_frame(W as int, H as int, 0)[j] by {
                assert(res.data@[j]@ =~= Seq::new(W as nat, |i: int| 0u16));
            }
        }
        res
    }

    /// Moves the text cursor to the start of the first line.
    pub fn reset_cursor(&mut self)
        ensures
            final(self).cursor() == (0int, old(self).line_height as int),
            final(self).frame() == old(self).frame(),
            final(self).same_settings(old(self)),
    {
        self.letter_cursor[0] = 0;
        self.letter_cursor[1] = self.line_height;
    }

    /// Blanks every pixel and resets the text cursor.
    pub fn clear(&mut self)
        ensures
            final(self).frame() == filled_frame(W as int, H as int, 0),
            final(self).cursor() == (0int, old(self).line_height as int),
            final(self).same_settings(old(self)),
    {
        self.reset_cursor();
        let ghost settled = *self;
        let mut y: usize = 0;
        while y < H
            invariant
                y <= H,
                self.same_settings(&settled),
                self.cursor() == settled.cursor(),
                forall|j: int, i: int|
                    0 <= j < y && 0 <= i < W ==> #[trigger] self.data@[j]@[i] == 0,
            decreases H - y,
        {
            let mut x: usize = 0;
            while x < W
                invariant
                    x <= W,
                    y < H,
                    self.same_settings(&settled),
                    self.cursor() == settled.cursor(),
                    forall|j: int, i: int|
                        0 <= j < y && 0 <= i < W ==> #[trigger] self.data@[j]@[i] == 0,
                    forall|i: int| 0 <= i < x ==> #[trigger] self.data@[y as int]@[i] == 0,
                decreases W - x,
            {
                self.data[y][x] = 0;
                x = x + 1;
            }
            y = y + 1;
        }
        assert(self.frame() =~= filled_frame(W as int, H as int, 0)) by {
            assert forall|j: int| 0 <= j < H implies #[trigger] self.frame()[j]
                =~= filled_frame(W as int, H as int, 0)[j] by {}
        }
    }

    /// Sets pixel `(x, y)` to the pen color; a position off the panel is ignored.
    pub fn draw_pixel(&mut self, x: isize, y: isize)
        ensures
            final(self).frame() == frame_set(old(self).frame(), x as int, y as int, old(self).color.c),
            final(self).cursor() == old(self).cursor(),
            final(self).same_settings(old(self)),
    {
        if x < 0 || y < 0 || x as usize >= W || y as usize >= H {
            return ;
        }
        self.data[y as usize][x as usize] = self.color.c;
        assert(self.frame() =~= frame_set(old(self).frame(), x as int, y as int, old(self).color.c));
    }

    /// Blends the pen color into pixel `(x, y)` by `alpha` sixty-fourths
    /// (`alpha` in `0..=64`); a position off the panel is ignored.
    pub fn draw_pixel_blend(&mut self, x: isize, y: isize, alpha: u8)
        requires
            alpha <= 64,
            frame_blend_ok(old(self).frame(), x as int, y as int, old(self).color, alpha),
        ensures
            final(self).frame() == frame_blend(
                old(self).frame(),
                x as int,
                y as int,
                old(self).color,
                alpha,
            ),
            final(self).cursor() == old(self).cursor(),
            final(self).same_settings(old(self)),
    {
        if x < 0 || y < 0 || x as usize >= W || y as usize >= H {
            return ;
        }
        let mut color = Color::from_565(self.data[y as usize][x as usize]);
        color.blend(&self.color, alpha);
        self.data[y as usize][x as usize] = color.c;
        assert(self.frame() =~= frame_blend(
            old(self).frame(),
            x as int,
            y as int,
            old(self).color,
            alpha,
        ));
    }

    /// Sets pixel `(x, y)` to the word `c`; a position off the panel is ignored.
    pub fn set_pixel_color(&mut self, x: isize, y: isize, c: u16)
        ensures
            final(self).frame() == frame_set(old(self).frame(), x as int, y as int, c),
            final(self).cursor() == old(self).cursor(),
            final(self).same_settings(old(self)),
    {
        if x < 0 || y < 0 || x as usize >= W || y as usize >= H {
            return ;
        }
        self.data[y as usize][x as usize] = c;
        assert(self.frame() =~= frame_set(old(self).frame(), x as int, y as int, c));
    }
}

} // verus!
