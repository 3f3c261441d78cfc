use vstd::prelude::*;

use crate::display::{frame_set, Display};
use crate::text::in_isize;

verus! {

broadcast use vstd::array::group_array_axioms;

/// A `SW` x `SH` picture of pixel words, row by row.
pub struct Sprite<const SW: usize, const SH: usize>(pub [[u16; SW]; SH]);

impl<const SW: usize, const SH: usize> Sprite<SW, SH> {
    /// The picture as rows of pixel words.
    pub open spec fn rows(&self) -> Seq<Seq<u16>> {
        self.0@.map_values(|row: [u16; SW]| row@)
    }
}

/// Frame `f` with the first `rows` rows of picture `s` (each `sw` wide), and
/// the first `cols` pixels of the row after them, laid over it with the
/// picture's top left corner at `(x, y)`.
pub open spec fn blit_part(
    f: Seq<Seq<u16>>,
    s: Seq<Seq<u16>>,
    sw: int,
    x: int,
    y: int,
    rows: int,
    cols: int,
) -> Seq<Seq<u16>> {
    Seq::new(
        f.len(),
        |j: int|
            Seq::new(
                f[j].len(),
                |i: int|
                    if 0 <= i - x < sw && (0 <= j - y < rows || (j - y == rows && i - x < cols)) {
                        s[j - y][i - x]
                    } else {
                        f[j][i]
                    },
            ),
    )
}

/// Frame `f` with the whole `sw` x `sh` picture `s` laid over it, its top
/// left corner at `(x, y)`; the part of the picture off the frame is lost.
pub open spec fn blit(f: Seq<Seq<u16>>, s: Seq<Seq<u16>>, sw: int, sh: int, x: int, y: int) -> Seq<
    Seq<u16>,
> {
    blit_part(f, s, sw, x, y, sh, 0)
}

/// Law of `draw_sprite`: every pixel `(i, j)` of the frame under the picture
/// (`0 <= i - x < sw`, `0 <= j - y < sh`) becomes the picture's word
/// `s[j - y][i - x]`, whatever that word is, and every other pixel keeps its
/// word; the frame keeps its shape.
pub proof fn law_blit(f: Seq<Seq<u16>>, s: Seq<Seq<u16>>, sw: int, sh: int, x: int, y: int)
    ensures
        blit(f, s, sw, sh, x, y).len() == f.len(),
        forall|j: int| 0 <= j < f.len() ==> #[trigger] blit(f, s, sw, sh, x, y)[j].len() == f[j].len(),
        forall|j: int, i: int|
            0 <= j < f.len() && 0 <= i < f[j].len() ==> #[trigger] blit(f, s, sw, sh, x, y)[j][i] == if 0
                <= i - x < sw && 0 <= j - y < sh {
                s[j - y][i - x]
            } else {
                f[j][i]
            },
{
}

/// Laying nothing over a frame changes nothing.
pub proof fn lemma_blit_nothing(f: Seq<Seq<u16>>, s: Seq<Seq<u16>>, sw: int, x: int, y: int)
    ensures
        blit_part(f, s, sw, x, y, 0, 0) == f,
{
    let a = blit_part(f, s, sw, x, y, 0, 0);
    assert forall|j: int| 0 <= j < f.len() implies #[trigger] a[j] =~= f[j] by {}
    assert(a =~= f);
}

/// Setting the next picture pixel extends the laid part by one pixel.
pub proof fn lemma_blit_step(
    f: Seq<Seq<u16>>,
    s: Seq<Seq<u16>>,
    sw: int,
    x: int,
    y: int,
    rows: int,
    cols: int,
)
    requires
        0 <= rows,
        0 <= cols < sw,
        rows < s.len(),
        s[rows].len() == sw,
    ensures
        frame_set(blit_part(f, s, sw, x, y, rows, cols), x + cols, y + rows, s[rows][cols])
            == blit_part(f, s, sw, x, y, rows, cols + 1),
{
    let p = blit_part(f, s, sw, x, y, rows, cols);
    let a = frame_set(p, x + cols, y + rows, s[rows][cols]);
    let b = blit_part(f, s, sw, x, y, rows, cols + 1);
    assert forall|j: int| 0 <= j < f.len() implies #[trigger] a[j] =~= b[j] by {
        assert(a[j].len() == b[j].len());
        assert forall|i: int| 0 <= i < a[j].len() implies a[j][i] == b[j][i] by {
            if j == y + rows && i == x + cols {
            } else {
                assert(a[j][i] == p[j][i]);
            }
        }
    }
    assert(a =~= b);
}

/// A laid row that is complete is the same as the start of the next one.
pub proof fn lemma_blit_next_row(f: Seq<Seq<u16>>, s: Seq<Seq<u16>>, sw: int, x: int, y: int, rows: int)
    requires
        0 <= sw,
        0 <= rows,
    ensures
        blit_part(f, s, sw, x, y, rows, sw) == blit_part(f, s, sw, x, y, rows + 1, 0),
{
    let a = blit_part(f, s, sw, x, y, rows, sw);
    let b = blit_part(f, s, sw, x, y, rows + 1, 0);
    assert forall|j: int| 0 <= j < f.len() implies #[trigger] a[j] =~= b[j] by {}
    assert(a =~= b);
}

impl<const W: usize, const H: usize> Display<W, H> {
    /// Copies `sprite` onto the frame with its top left corner at `(x, y)`;
    /// the part off the panel is ignored.
    pub fn draw_sprite<const SW: usize, const SH: usize>(
        &mut self,
        sprite: &Sprite<SW, SH>,
        x: isize,
        y: isize,
    )
        requires
            SW <= isize::MAX,
            SH <= isize::MAX,
            SW > 0 && SH > 0 ==> in_isize(x + SW - 1) && in_isize(y + SH - 1),
        ensures
            final(self).frame() == blit(old(self).frame(), sprite.rows(), SW as int, SH as int, x as int, y as int),
            final(self).cursor() == old(self).cursor(),
            final(self).same_settings(old(self)),
    {
        let ghost start = *self;
        let ghost s = sprite.rows();
        proof {
            lemma_blit_nothing(start.frame(), s, SW as int, x as int, y as int);
        }
        let mut py: usize = 0;
        while py < SH
            invariant
                py <= SH,
                SW <= isize::MAX,
                SH <= isize::MAX,
                SW > 0 && SH > 0 ==> in_isize(x + SW - 1) && in_isize(y + SH - 1),
                s == sprite.rows(),
                self.same_settings(&start),
                self.cursor() == start.cursor(),
                self.frame() == blit_part(start.frame(), s, SW as int, x as int, y as int, py as int, 0),
            decreases SH - py,
        {
            let mut px: usize = 0;
            while px < SW
                invariant
                    px <= SW,
                    py < SH,
                    SW <= isize::MAX,
                    SH <= isize::MAX,
                    SW > 0 && SH > 0 ==> in_isize(x + SW - 1) && in_isize(y + SH - 1),
                    s == sprite.rows(),
                    self.same_settings(&start),
                    self.cursor() == start.cursor(),
                    self.frame() == blit_part(start.frame(), s, SW as int, x as int, y as int, py as int, px as int),
                decreases SW - px,
            {
                let c = sprite.0[py][px];
                self.set_pixel_color(px as isize + x, py as isize + y, c);
                proof {
                    lemma_blit_step(start.frame(), s, SW as int, x as int, y as int, py as int, px as int);
                }
                px = px + 1;
            }
            proof {
                lemma_blit_next_row(start.frame(), s, SW as int, x as int, y as int, py as int);
            }
            py = py + 1;
        }
    }
}

} // verus!
