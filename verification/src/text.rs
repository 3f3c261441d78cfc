use vstd::prelude::*;

use crate::color::{channels_in_range, spec_convert, Color};
use crate::display::{
    frame_blend, frame_blend_ok, law_blend_off_panel, law_blend_pixel, lemma_blend_fits_in_range,
    Display,
};

verus! {

/// One letter of a font: its advance width and its pixels. Each pixel word
/// holds the column in bits 11..16, the row in bits 6..11 and the coverage,
/// in sixty-fourths, in bits 0..6.
pub struct Glyph {
    pub ch: char,
    pub width: u8,
    pub pixels: Vec<u16>,
}

/// A font: the extra line height it asks for, and the glyphs it has. A
/// letter the font has no glyph for is drawn as nothing, zero pixels wide.
pub struct Font {
    pub line_height: isize,
    pub glyphs: Vec<Glyph>,
}

/// The width and pixels that the glyph list `glyphs` gives letter `c`: those
/// of the first glyph for `c`, or nothing if there is none.
pub open spec fn glyph_lookup(glyphs: Seq<Glyph>, c: char) -> (u8, Seq<u16>)
    decreases glyphs.len(),
{
    if glyphs.len() == 0 {
        (0u8, Seq::empty())
    } else if glyphs[0].ch == c {
        (glyphs[0].width, glyphs[0].pixels@)
    } else {
        glyph_lookup(glyphs.drop_first(), c)
    }
}

impl Font {
    /// The font with no glyphs and no extra line height.
    pub fn empty() -> (res: Font)
        ensures
            res.line_height == 0,
            res.glyphs@.len() == 0,
    {
        Font { line_height: 0, glyphs: Vec::new() }
    }

    /// The width and pixels of letter `c`.
    pub open spec fn spec_data(&self, c: char) -> (u8, Seq<u16>) {
        glyph_lookup(self.glyphs@, c)
    }

    /// Looks up letter `c`: the first glyph for it, or a zero width and no
    /// pixels.
    pub fn data(&self, c: char) -> (res: (u8, &[u16]))
        ensures
            (res.0, res.1@) == self.spec_data(c),
    {
        match self.find(c) {
            Some(k) => (self.glyphs[k].width, self.glyphs[k].pixels.as_slice()),
            None => (0, &[]),
        }
    }

    /// The position of the first glyph for letter `c`, if there is one.
    pub fn find(&self, c: char) -> (res: Option<usize>)
        ensures
            match res {
                Some(k) => {
                    &&& k < self.glyphs@.len()
                    &&& self.glyphs@[k as int].ch == c
                    &&& forall|j: int| 0 <= j < k ==> #[trigger] self.glyphs@[j].ch != c
                    &&& self.spec_data(c) == (
                        self.glyphs@[k as int].width,
                        self.glyphs@[k as int].pixels@,
                    )
                },
                None => {
                    &&& forall|j: int| 0 <= j < self.glyphs@.len() ==> #[trigger] self.glyphs@[j].ch != c
                    &&& self.spec_data(c) == (0u8, Seq::<u16>::empty())
                },
            },
    {
        let mut i: usize = 0;
        assert(self.glyphs@.skip(0) =~= self.glyphs@);
        while i < self.glyphs.len()
            invariant
                i <= self.glyphs@.len(),
                forall|j: int| 0 <= j < i ==> #[trigger] self.glyphs@[j].ch != c,
                glyph_lookup(self.glyphs@, c) == glyph_lookup(self.glyphs@.skip(i as int), c),
            decreases self.glyphs@.len() - i,
        {
            assert(self.glyphs@.skip(i as int).drop_first() =~= self.glyphs@.skip(i + 1));
            if self.glyphs[i].ch == c {
                return Some(i);
            }
            i = i + 1;
        }
        assert(self.glyphs@.skip(i as int).len() == 0);
        None
    }
}

/// The column offset that glyph pixel word `p` holds (bits 11..16).
pub open spec fn glyph_x(p: u16) -> int {
    (p / 2048) as int
}

/// The row offset that glyph pixel word `p` holds (bits 6..11).
pub open spec fn glyph_y(p: u16) -> int {
    ((p / 64) % 32) as int
}

/// The coverage, in sixty-fourths, that glyph pixel word `p` holds (bits 0..6).
pub open spec fn glyph_alpha(p: u16) -> u8 {
    (p % 64) as u8
}

/// `v` fits in an `isize`.
pub open spec fn in_isize(v: int) -> bool {
    isize::MIN <= v <= isize::MAX
}

/// Placing every pixel of `pixels` at cursor `(cx, cy)` stays within `isize`.
pub open spec fn glyph_fits(cx: int, cy: int, pixels: Seq<u16>) -> bool {
    forall|i: int|
        0 <= i < pixels.len() ==> in_isize(cx + glyph_x(#[trigger] pixels[i])) && in_isize(
            cy + glyph_y(pixels[i]),
        )
}

/// Frame `f` after the pixels of `pixels`, in order, are blended in with pen
/// `fg` at cursor `(cx, cy)`.
pub open spec fn paint_glyph(f: Seq<Seq<u16>>, fg: Color, cx: int, cy: int, pixels: Seq<u16>) -> Seq<
    Seq<u16>,
>
    decreases pixels.len(),
{
    if pixels.len() == 0 {
        f
    } else {
        let p = pixels.last();
        frame_blend(
            paint_glyph(f, fg, cx, cy, pixels.drop_last()),
            cx + glyph_x(p),
            cy + glyph_y(p),
            fg,
            glyph_alpha(p),
        )
    }
}

/// No blend while painting `pixels` overflows a packed pixel word.
pub open spec fn paint_glyph_ok(f: Seq<Seq<u16>>, fg: Color, cx: int, cy: int, pixels: Seq<u16>) -> bool
    decreases pixels.len(),
{
    if pixels.len() == 0 {
        true
    } else {
        let p = pixels.last();
        &&& paint_glyph_ok(f, fg, cx, cy, pixels.drop_last())
        &&& frame_blend_ok(
            paint_glyph(f, fg, cx, cy, pixels.drop_last()),
            cx + glyph_x(p),
            cy + glyph_y(p),
            fg,
            glyph_alpha(p),
        )
    }
}

/// The state that text output changes: the frame and the cursor.
pub type TextState = (Seq<Seq<u16>>, int, int);

impl<const W: usize, const H: usize> Display<W, H> {
    /// The frame and the cursor.
    pub open spec fn text_state(&self) -> TextState {
        (self.frame(), self.cursor().0, self.cursor().1)
    }

    /// Writing letter `c` in state `st`, with the settings of `self`, stays within
    /// the integer ranges of the cursor and of the pixel words.
    pub open spec fn char_ok(&self, st: TextState, c: char) -> bool {
        if c == '\n' {
            &&& in_isize(self.line_height + self.font.line_height)
            &&& in_isize(st.2 + self.line_height + self.font.line_height)
        } else {
            let (width, pixels) = self.font.spec_data(c);
            &&& glyph_fits(st.1, st.2, pixels)
            &&& paint_glyph_ok(st.0, self.color, st.1, st.2, pixels)
            &&& in_isize(self.letter_space + width)
            &&& in_isize(st.1 + self.letter_space + width)
        }
    }

    /// The state after letter `c` is written in state `st` with the settings of
    /// `self`: a line feed moves the cursor to the start of the next line; any
    /// other letter blends its glyph in at the cursor and advances the cursor
    /// by the glyph width and the letter spacing.
    pub open spec fn char_step(&self, st: TextState, c: char) -> TextState {
        if c == '\n' {
            (st.0, 0, st.2 + self.line_height + self.font.line_height)
        } else {
            let (width, pixels) = self.font.spec_data(c);
            (
                paint_glyph(st.0, self.color, st.1, st.2, pixels),
                st.1 + self.letter_space + width,
                st.2,
            )
        }
    }

    /// The state after the letters of `s`, in order, are written from state `st`.
    pub open spec fn text_after(&self, st: TextState, s: Seq<char>) -> TextState
        decreases s.len(),
    {
        if s.len() == 0 {
            st
        } else {
            self.char_step(self.text_after(st, s.drop_last()), s.last())
        }
    }

    /// Writing the letters of `s` from state `st` stays within the integer ranges.
    pub open spec fn text_ok(&self, st: TextState, s: Seq<char>) -> bool
        decreases s.len(),
    {
        if s.len() == 0 {
            true
        } else {
            self.text_ok(st, s.drop_last()) && self.char_ok(
                self.text_after(st, s.drop_last()),
                s.last(),
            )
        }
    }

    /// The integer conditions of writing letter `c` in state `st`: the cursor
    /// and every pixel position stay within `isize`.
    pub open spec fn char_in_bounds(&self, st: TextState, c: char) -> bool {
        if c == '\n' {
            &&& in_isize(self.line_height + self.font.line_height)
            &&& in_isize(st.2 + self.line_height + self.font.line_height)
        } else {
            let (width, pixels) = self.font.spec_data(c);
            &&& glyph_fits(st.1, st.2, pixels)
            &&& in_isize(self.letter_space + width)
            &&& in_isize(st.1 + self.letter_space + width)
        }
    }

    /// Checks that letter `c` can be written now: the positions stay within
    /// `isize` and, for a letter other than a line feed, the pen channels are in
    /// the 5-6-5 ranges, which keeps every blend from overflowing.
    pub fn can_write_char(&self, c: char) -> (res: bool)
        ensures
            res == (self.char_in_bounds(self.text_state(), c) && (c != '\n' ==> channels_in_range(
                self.color.r,
                self.color.g,
                self.color.b,
            ))),
            res ==> self.char_ok(self.text_state(), c),
    {
        if c == '\n' {
            return match self.line_height.checked_add(self.font.line_height) {
                Some(dy) => self.letter_cursor[1].checked_add(dy).is_some(),
                None => false,
            };
        }
        if !(self.color.r < 32 && self.color.g < 64 && self.color.b < 32) {
            return false;
        }
        proof {
            lemma_paint_ok_in_range(
                self.frame(),
                self.color,
                self.cursor().0,
                self.cursor().1,
                self.font.spec_data(c).1,
            );
        }
        let (letter_width, data) = self.font.data(c);
        let advance = match self.letter_space.checked_add(letter_width as isize) {
            Some(a) => a,
            None => {
                return false;
            },
        };
        if self.letter_cursor[0].checked_add(advance).is_none() {
            return false;
        }
        let ghost pixels = data@;
        let mut i: usize = 0;
        while i < data.len()
            invariant
                i <= data@.len(),
                pixels == data@,
                c != '\n',
                (letter_width, pixels) == self.font.spec_data(c),
                channels_in_range(self.color.r, self.color.g, self.color.b),
                paint_glyph_ok(self.frame(), self.color, self.cursor().0, self.cursor().1, pixels),
                in_isize(self.letter_space + letter_width),
                in_isize(self.cursor().0 + self.letter_space + letter_width),
                forall|j: int|
                    0 <= j < i ==> in_isize(self.cursor().0 + glyph_x(#[trigger] pixels[j]))
                        && in_isize(self.cursor().1 + glyph_y(pixels[j])),
            decreases data@.len() - i,
        {
            let pixel = data[i];
            assert(((pixel & 0xf800u16) >> 11u16) == pixel / 2048) by (bit_vector);
            assert(((pixel & 0x07c0u16) >> 6u16) == (pixel / 64) % 32) by (bit_vector);
            let px = ((pixel & 0b11111_00000_000000) >> 11) as isize;
            let py = ((pixel & 0b00000_11111_000000) >> 6) as isize;
            if self.letter_cursor[0].checked_add(px).is_none() || self.letter_cursor[1].checked_add(
                py,
            ).is_none() {
                assert(!in_isize(self.cursor().0 + glyph_x(pixels[i as int])) || !in_isize(
                    self.cursor().1 + glyph_y(pixels[i as int]),
                ));
                return false;
            }
            i = i + 1;
        }
        true
    }

    /// Writes letter `c` at the text cursor: a line feed starts a new line,
    /// any other letter has its glyph blended in with the pen color and moves
    /// the cursor right.
    pub fn write_char(&mut self, c: char)
        requires
            old(self).char_ok(old(self).text_state(), c),
        ensures
            final(self).text_state() == old(self).char_step(old(self).text_state(), c),
            final(self).same_settings(old(self)),
    {
        if c == '\n' {
            self.letter_cursor[0] = 0;
            self.letter_cursor[1] += self.line_height + self.font.line_height;
        } else {
            let found = self.font.find(c);
            let (letter_width, count) = match found {
                Some(k) => (self.font.glyphs[k].width, self.font.glyphs[k].pixels.len()),
                None => (0, 0),
            };
            let ghost start = *self;
            let ghost pixels = self.font.spec_data(c).1;
            let mut i: usize = 0;
            while i < count
                invariant
                    i <= count,
                    count == pixels.len(),
                    found matches Some(k) ==> k < self.font.glyphs@.len() && self.font.glyphs@[k as int].pixels@ == pixels,
                    found is None ==> pixels.len() == 0,
                    self.same_settings(&start),
                    self.cursor() == start.cursor(),
                    glyph_fits(start.cursor().0, start.cursor().1, pixels),
                    paint_glyph_ok(start.frame(), start.color, start.cursor().0, start.cursor().1, pixels),
                    self.frame() == paint_glyph(
                        start.frame(),
                        start.color,
                        start.cursor().0,
                        start.cursor().1,
                        pixels.take(i as int),
                    ),
                decreases count - i,
            {
                let pixel = match found {
                    Some(k) => self.font.glyphs[k].pixels[i],
                    None => 0,
                };
                proof {
                    lemma_paint_ok_prefix(start.frame(), start.color, start.cursor().0, start.cursor().1, pixels, i as int + 1);
                    assert(pixels.take(i + 1).drop_last() =~= pixels.take(i as int));
                    assert(in_isize(start.cursor().0 + glyph_x(pixels[i as int])));
                }
                assert(((pixel & 0xf800u16) >> 11u16) == pixel / 2048) by (bit_vector);
                assert(((pixel & 0x07c0u16) >> 6u16) == (pixel / 64) % 32) by (bit_vector);
                assert((pixel & 0x3fu16) == pixel % 64) by (bit_vector);
                let x = ((pixel & 0b11111_00000_000000) >> 11) as isize + self.letter_cursor[0];
                let y = ((pixel & 0b00000_11111_000000) >> 6) as isize + self.letter_cursor[1];
                let alpha = (pixel & 0b00000_00000_111111) as u8;
                assert(pixel == pixels[i as int]);
                assert(pixels.take(i + 1).last() == pixels[i as int]);
                assert(x == start.cursor().0 + glyph_x(pixel));
                assert(y == start.cursor().1 + glyph_y(pixel));
                assert(alpha == glyph_alpha(pixel));
                self.draw_pixel_blend(x, y, alpha);
                i = i + 1;
            }
            assert(pixels.take(pixels.len() as int) =~= pixels);
            self.letter_cursor[0] += self.letter_space + letter_width as isize;
        }
    }

    /// Moves the text cursor to `(x, y)`.
    pub fn set_cursor_position(&mut self, x: isize, y: isize)
        ensures
            final(self).cursor() == (x as int, y as int),
            final(self).frame() == old(self).frame(),
            final(self).same_settings(old(self)),
    {
        self.letter_cursor = [x, y];
    }

    /// Writes the letters of `s` in order, as `write_char` does.
    pub fn write_str(&mut self, s: &str)
        requires
            old(self).text_ok(old(self).text_state(), s@),
        ensures
            final(self).text_state() == old(self).text_after(old(self).text_state(), s@),
            final(self).same_settings(old(self)),
    {
        let ghost start = *self;
        let ghost init = self.text_state();
        assert(s@.take(0) =~= Seq::<char>::empty());
        for c in it: s.chars()
            invariant
                it.seq() == s@,
                self.same_settings(&start),
                start.text_ok(init, s@),
                self.text_state() == start.text_after(init, s@.take(it.index())),
        {
            proof {
                start.lemma_text_ok_prefix(init, s@, it.index() + 1);
                assert(s@.take(it.index() + 1).drop_last() =~= s@.take(it.index()));
            }
            self.write_char(c);
        }
        assert(s@.take(s@.len() as int) =~= s@);
    }

    /// Writing `a` and then `b` is writing `a + b`: the state after `a + b` is the
    /// state after `b` written from the state after `a`, and `a + b` can be
    /// written without overflow exactly when `a` can and then `b` can.
    pub proof fn lemma_text_concat(&self, st: TextState, a: Seq<char>, b: Seq<char>)
        ensures
            self.text_after(st, a + b) == self.text_after(self.text_after(st, a), b),
            self.text_ok(st, a + b) == (self.text_ok(st, a) && self.text_ok(
                self.text_after(st, a),
                b,
            )),
        decreases b.len(),
    {
        if b.len() == 0 {
            assert(a + b =~= a);
        } else {
            self.lemma_text_concat(st, a, b.drop_last());
            assert((a + b).drop_last() =~= a + b.drop_last());
            assert((a + b).last() == b.last());
        }
    }

    /// Law of `write_char` for a letter other than a line feed: when no two
    /// pixels of its glyph land on the same spot, each glyph pixel `p` that lands
    /// on the frame (at the cursor plus `(p / 2048, (p / 64) % 32)`) turns the
    /// word there into the old word with every channel moved toward the pen
    /// `self.color` by `p % 64` sixty-fourths (`(bg * (64 - a) + pen * a) / 64`),
    /// every other pixel keeps its word, and the cursor moves right by the
    /// letter spacing plus the glyph width, staying on its line.
    pub proof fn law_write_char(&self, st: TextState, c: char)
        requires
            c != '\n',
            forall|k1: int, k2: int|
                0 <= k1 < k2 < self.font.spec_data(c).1.len() ==> st.1 + #[trigger] self.font.spec_data(
                    c,
                ).1[k1] / 2048 != st.1 + #[trigger] self.font.spec_data(c).1[k2] / 2048 || st.2 + (
                self.font.spec_data(c).1[k1] / 64) % 32 != st.2 + (self.font.spec_data(c).1[k2] / 64)
                    % 32,
        ensures
            self.char_step(st, c).1 == st.1 + self.letter_space + self.font.spec_data(c).0,
            self.char_step(st, c).2 == st.2,
            self.char_step(st, c).0.len() == st.0.len(),
            forall|j: int| 0 <= j < st.0.len() ==> #[trigger] self.char_step(st, c).0[j].len() == st.0[j].len(),
            forall|k: int|
                0 <= k < self.font.spec_data(c).1.len() && 0 <= st.2 + (
                #[trigger] self.font.spec_data(c).1[k] / 64) % 32 < st.0.len() && 0 <= st.1
                    + self.font.spec_data(c).1[k] / 2048 < st.0[st.2 + (self.font.spec_data(c).1[k] / 64)
                    % 32].len() ==> {
                    let p = self.font.spec_data(c).1[k];
                    let x = st.1 + p / 2048;
                    let y = st.2 + (p / 64) % 32;
                    let a = (p % 64) as u8;
                    self.char_step(st, c).0[y][x] == spec_convert(
                        ((((st.0[y][x] / 2048) as u8) * (64 - a) + self.color.r * a) / 64) as u8,
                        (((((st.0[y][x] / 32) % 64) as u8) * (64 - a) + self.color.g * a) / 64) as u8,
                        ((((st.0[y][x] % 32) as u8) * (64 - a) + self.color.b * a) / 64) as u8,
                    ) as u16
                },
            forall|j: int, i: int|
                0 <= j < st.0.len() && 0 <= i < st.0[j].len() && (forall|k: int|
                    0 <= k < self.font.spec_data(c).1.len() ==> st.1 + #[trigger] self.font.spec_data(
                        c,
                    ).1[k] / 2048 != i || st.2 + (self.font.spec_data(c).1[k] / 64) % 32 != j)
                    ==> #[trigger] self.char_step(st, c).0[j][i] == st.0[j][i],
    {
        law_paint_glyph(st.0, self.color, st.1, st.2, self.font.spec_data(c).1);
    }

    /// Law of `write_char` for a line feed: nothing is drawn, the cursor goes
    /// to the start of the line below, lower by the line height and the font's
    /// line height.
    pub proof fn law_write_newline(&self, st: TextState)
        ensures
            self.char_step(st, '\n').0 == st.0,
            self.char_step(st, '\n').1 == 0,
            self.char_step(st, '\n').2 == st.2 + self.line_height + self.font.line_height,
    {
    }

    /// Law of `write_str`: writing `s` and then letter `c`, whatever `c` is
    /// (spaces included), is writing `s + [c]`; writing nothing changes nothing.
    pub proof fn law_write_str_letter_by_letter(&self, st: TextState, s: Seq<char>, c: char)
        ensures
            self.text_after(st, Seq::empty()) == st,
            self.text_after(st, s.push(c)) == self.char_step(self.text_after(st, s), c),
            self.text_ok(st, s.push(c)) == (self.text_ok(st, s) && self.char_ok(
                self.text_after(st, s),
                c,
            )),
    {
        assert(s.push(c).drop_last() =~= s);
    }

    /// Text that can be written without overflow can be written without
    /// overflow up to any point.
    pub proof fn lemma_text_ok_prefix(&self, st: TextState, s: Seq<char>, n: int)
        requires
            self.text_ok(st, s),
            0 <= n <= s.len(),
        ensures
            self.text_ok(st, s.take(n)),
        decreases s.len(),
    {
        if n == s.len() {
            assert(s.take(n) =~= s);
        } else {
            self.lemma_text_ok_prefix(st, s.drop_last(), n);
            assert(s.drop_last().take(n) =~= s.take(n));
        }
    }
}

/// Painting a glyph whose paint is free of overflow is free of overflow on
/// every prefix of its pixels.
pub proof fn lemma_paint_ok_prefix(f: Seq<Seq<u16>>, fg: Color, cx: int, cy: int, pixels: Seq<u16>, n: int)
    requires
        paint_glyph_ok(f, fg, cx, cy, pixels),
        0 <= n <= pixels.len(),
    ensures
        paint_glyph_ok(f, fg, cx, cy, pixels.take(n)),
    decreases pixels.len(),
{
    if n == pixels.len() {
        assert(pixels.take(n) =~= pixels);
    } else {
        lemma_paint_ok_prefix(f, fg, cx, cy, pixels.drop_last(), n);
        assert(pixels.drop_last().take(n) =~= pixels.take(n));
    }
}

/// With a pen whose channels are in the 5-6-5 ranges, painting any glyph
/// anywhere never overflows a pixel word.
pub proof fn lemma_paint_ok_in_range(f: Seq<Seq<u16>>, fg: Color, cx: int, cy: int, pixels: Seq<u16>)
    requires
        channels_in_range(fg.r, fg.g, fg.b),
    ensures
        paint_glyph_ok(f, fg, cx, cy, pixels),
    decreases pixels.len(),
{
    if pixels.len() > 0 {
        let p = pixels.last();
        lemma_paint_ok_in_range(f, fg, cx, cy, pixels.drop_last());
        let g = paint_glyph(f, fg, cx, cy, pixels.drop_last());
        let x = cx + glyph_x(p);
        let y = cy + glyph_y(p);
        if 0 <= y < g.len() && 0 <= x < g[y].len() {
            lemma_blend_fits_in_range(g[y][x], fg, glyph_alpha(p));
        }
    }
}

/// Law of glyph painting: when no two pixels of `pixels` land on the same
/// spot, each one that lands on the frame (at `(cx + p / 2048, cy + (p / 64) % 32)`)
/// turns the word there into the old word with every channel `bg` moved to
/// `(bg * (64 - a) + pen * a) / 64`, `a = p % 64`, pen `fg`, repacked; every
/// spot that no pixel lands on keeps its word; the frame keeps its shape.
pub proof fn law_paint_glyph(f: Seq<Seq<u16>>, fg: Color, cx: int, cy: int, pixels: Seq<u16>)
    requires
        forall|k1: int, k2: int|
            0 <= k1 < k2 < pixels.len() ==> cx + #[trigger] pixels[k1] / 2048 != cx + #[trigger] pixels[k2]
                / 2048 || cy + (pixels[k1] / 64) % 32 != cy + (pixels[k2] / 64) % 32,
    ensures
        paint_glyph(f, fg, cx, cy, pixels).len() == f.len(),
        forall|j: int| 0 <= j < f.len() ==> #[trigger] paint_glyph(f, fg, cx, cy, pixels)[j].len() == f[j].len(),
        forall|k: int|
            0 <= k < pixels.len() && 0 <= cy + (#[trigger] pixels[k] / 64) % 32 < f.len() && 0 <= cx
                + pixels[k] / 2048 < f[cy + (pixels[k] / 64) % 32].len() ==> {
                let x = cx + pixels[k] / 2048;
                let y = cy + (pixels[k] / 64) % 32;
                let a = (pixels[k] % 64) as u8;
                paint_glyph(f, fg, cx, cy, pixels)[y][x] == spec_convert(
                    ((((f[y][x] / 2048) as u8) * (64 - a) + fg.r * a) / 64) as u8,
                    (((((f[y][x] / 32) % 64) as u8) * (64 - a) + fg.g * a) / 64) as u8,
                    ((((f[y][x] % 32) as u8) * (64 - a) + fg.b * a) / 64) as u8,
                ) as u16
            },
        forall|j: int, i: int|
            0 <= j < f.len() && 0 <= i < f[j].len() && (forall|k: int|
                0 <= k < pixels.len() ==> cx + #[trigger] pixels[k] / 2048 != i || cy + (pixels[k] / 64)
                    % 32 != j) ==> #[trigger] paint_glyph(f, fg, cx, cy, pixels)[j][i] == f[j][i],
    decreases pixels.len(),
{
    if pixels.len() > 0 {
        let n = pixels.len() - 1;
        let q = pixels.drop_last();
        let p = pixels[n];
        assert forall|k1: int, k2: int| 0 <= k1 < k2 < q.len() implies cx + #[trigger] q[k1] / 2048 != cx
            + #[trigger] q[k2] / 2048 || cy + (q[k1] / 64) % 32 != cy + (q[k2] / 64) % 32 by {
            assert(q[k1] == pixels[k1] && q[k2] == pixels[k2]);
        }
        law_paint_glyph(f, fg, cx, cy, q);
        let g = paint_glyph(f, fg, cx, cy, q);
        let x = cx + p / 2048;
        let y = cy + (p / 64) % 32;
        let a = (p % 64) as u8;
        assert(glyph_x(p) == p / 2048 && glyph_y(p) == (p / 64) % 32 && glyph_alpha(p) == a);
        assert(pixels.last() == p);
        let r = paint_glyph(f, fg, cx, cy, pixels);
        assert(r == frame_blend(g, x, y, fg, a));
        if 0 <= y < g.len() && 0 <= x < g[y].len() {
            law_blend_pixel(g, x, y, fg, a);
            assert forall|k: int| 0 <= k < q.len() implies cx + #[trigger] q[k] / 2048 != x || cy + (q[k]
                / 64) % 32 != y by {
                assert(q[k] == pixels[k]);
            }
            assert(g[y][x] == f[y][x]);
        } else {
            law_blend_off_panel(g, x, y, fg, a);
        }
        assert forall|k: int|
            0 <= k < pixels.len() && 0 <= cy + (#[trigger] pixels[k] / 64) % 32 < f.len() && 0 <= cx
                + pixels[k] / 2048 < f[cy + (pixels[k] / 64) % 32].len() implies {
                let xk = cx + pixels[k] / 2048;
                let yk = cy + (pixels[k] / 64) % 32;
                let ak = (pixels[k] % 64) as u8;
                r[yk][xk] == spec_convert(
                    ((((f[yk][xk] / 2048) as u8) * (64 - ak) + fg.r * ak) / 64) as u8,
                    (((((f[yk][xk] / 32) % 64) as u8) * (64 - ak) + fg.g * ak) / 64) as u8,
                    ((((f[yk][xk] % 32) as u8) * (64 - ak) + fg.b * ak) / 64) as u8,
                ) as u16
            } by {
            if k < n {
                assert(q[k] == pixels[k]);
            }
        }
        assert forall|j: int, i: int|
            0 <= j < f.len() && 0 <= i < f[j].len() && (forall|k: int|
                0 <= k < pixels.len() ==> cx + #[trigger] pixels[k] / 2048 != i || cy + (pixels[k] / 64)
                    % 32 != j) implies #[trigger] r[j][i] == f[j][i] by {
            assert(cx + pixels[n] / 2048 != i || cy + (pixels[n] / 64) % 32 != j);
            assert forall|k: int| 0 <= k < q.len() implies cx + #[trigger] q[k] / 2048 != i || cy + (q[k]
                / 64) % 32 != j by {
                assert(q[k] == pixels[k]);
                assert(cx + pixels[k] / 2048 != i || cy + (pixels[k] / 64) % 32 != j);
            }
        }
    }
}

/// Law of the font lookup: a letter gets the width and pixels of the first
/// glyph for it.
pub proof fn law_font_first_glyph(font: &Font, c: char, k: int)
    requires
        0 <= k < font.glyphs@.len(),
        font.glyphs@[k].ch == c,
        forall|j: int| 0 <= j < k ==> #[trigger] font.glyphs@[j].ch != c,
    ensures
        font.spec_data(c) == (font.glyphs@[k].width, font.glyphs@[k].pixels@),
{
    lemma_lookup_first(font.glyphs@, c, k);
}

/// Law of the font lookup: a letter with no glyph is drawn as nothing, zero
/// pixels wide.
pub proof fn law_font_no_glyph(font: &Font, c: char)
    requires
        forall|j: int| 0 <= j < font.glyphs@.len() ==> #[trigger] font.glyphs@[j].ch != c,
    ensures
        font.spec_data(c) == (0u8, Seq::<u16>::empty()),
{
    lemma_lookup_none(font.glyphs@, c);
}

proof fn lemma_lookup_first(glyphs: Seq<Glyph>, c: char, k: int)
    requires
        0 <= k < glyphs.len(),
        glyphs[k].ch == c,
        forall|j: int| 0 <= j < k ==> #[trigger] glyphs[j].ch != c,
    ensures
        glyph_lookup(glyphs, c) == (glyphs[k].width, glyphs[k].pixels@),
    decreases k,
{
    if k > 0 {
        let rest = glyphs.drop_first();
        assert(glyphs[0].ch != c);
        assert forall|j: int| 0 <= j < k - 1 implies #[trigger] rest[j].ch != c by {
            assert(rest[j] == glyphs[j + 1]);
        }
        lemma_lookup_first(rest, c, k - 1);
    }
}

proof fn lemma_lookup_none(glyphs: Seq<Glyph>, c: char)
    requires
        forall|j: int| 0 <= j < glyphs.len() ==> #[trigger] glyphs[j].ch != c,
    ensures
        glyph_lookup(glyphs, c) == (0u8, Seq::<u16>::empty()),
    decreases glyphs.len(),
{
    if glyphs.len() > 0 {
        let rest = glyphs.drop_first();
        assert(glyphs[0].ch != c);
        assert forall|j: int| 0 <= j < rest.len() implies #[trigger] rest[j].ch != c by {
            assert(rest[j] == glyphs[j + 1]);
        }
        lemma_lookup_none(rest, c);
    }
}

} // verus!
