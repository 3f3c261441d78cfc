use vstd::prelude::*;

use crate::display::{frame_set, in_frame, Display};
use crate::text::in_isize;

pub mod sprite;

verus! {

/// Frame `f` with every pixel `(i, j)` where `x0 <= i < x1` and `y0 <= j < y1`
/// set to `v`.
pub open spec fn rect_fill(f: Seq<Seq<u16>>, x0: int, y0: int, x1: int, y1: int, v: u16) -> Seq<
    Seq<u16>,
> {
    Seq::new(
        f.len(),
        |j: int|
            Seq::new(
                f[j].len(),
                |i: int|
                    if x0 <= i < x1 && y0 <= j < y1 {
                        v
                    } else {
                        f[j][i]
                    },
            ),
    )
}

/// Law of `draw_rect`: pixel `(i, j)` of the frame takes the pen word `v`
/// exactly when `x0 <= i < x1` and `y0 <= j < y1`; every other pixel keeps
/// its word; the frame keeps its shape.
pub proof fn law_rect_fill(f: Seq<Seq<u16>>, x0: int, y0: int, x1: int, y1: int, v: u16)
    ensures
        rect_fill(f, x0, y0, x1, y1, v).len() == f.len(),
        forall|j: int| 0 <= j < f.len() ==> #[trigger] rect_fill(f, x0, y0, x1, y1, v)[j].len() == f[j].len(),
        forall|j: int, i: int|
            0 <= j < f.len() && 0 <= i < f[j].len() ==> #[trigger] rect_fill(f, x0, y0, x1, y1, v)[j][i]
                == if x0 <= i < x1 && y0 <= j < y1 {
                v
            } else {
                f[j][i]
            },
{
}

/// A rectangle with no columns or no rows changes nothing.
pub proof fn lemma_rect_fill_empty(f: Seq<Seq<u16>>, x0: int, y0: int, x1: int, y1: int, v: u16)
    requires
        x1 <= x0 || y1 <= y0,
    ensures
        rect_fill(f, x0, y0, x1, y1, v) == f,
{
    assert forall|j: int| 0 <= j < f.len() implies #[trigger] rect_fill(f, x0, y0, x1, y1, v)[j]
        =~= f[j] by {}
    assert(rect_fill(f, x0, y0, x1, y1, v) =~= f);
}

/// Setting the pixel just right of a filled run of row `y` extends the run.
pub proof fn lemma_rect_fill_extend_run(f: Seq<Seq<u16>>, x0: int, x: int, y: int, v: u16)
    requires
        x0 <= x,
    ensures
        frame_set(rect_fill(f, x0, y, x, y + 1, v), x, y, v) == rect_fill(f, x0, y, x + 1, y + 1, v),
{
    let a = frame_set(rect_fill(f, x0, y, x, y + 1, v), x, y, v);
    let b = rect_fill(f, x0, y, x + 1, y + 1, v);
    assert forall|j: int| 0 <= j < f.len() implies #[trigger] a[j] =~= b[j] by {
        if j == y && in_frame(f, x, y) {
            assert forall|i: int| 0 <= i < f[j].len() implies a[j][i] == b[j][i] by {}
        }
    }
    assert(a =~= b);
}

/// A filled row added below a filled block of the same columns extends the block.
pub proof fn lemma_rect_fill_extend_block(f: Seq<Seq<u16>>, x0: int, x1: int, y0: int, y: int, v: u16)
    requires
        y0 <= y,
    ensures
        rect_fill(rect_fill(f, x0, y0, x1, y, v), x0, y, x1, y + 1, v) == rect_fill(
            f,
            x0,
            y0,
            x1,
            y + 1,
            v,
        ),
{
    let a = rect_fill(rect_fill(f, x0, y0, x1, y, v), x0, y, x1, y + 1, v);
    let b = rect_fill(f, x0, y0, x1, y + 1, v);
    assert forall|j: int| 0 <= j < f.len() implies #[trigger] a[j] =~= b[j] by {}
    assert(a =~= b);
}

impl<const W: usize, const H: usize> Display<W, H> {
    /// Fills the `w` x `h` rectangle whose top left corner is `(x, y)` with
    /// the pen color; the part off the panel is ignored, and a rectangle with
    /// `w <= 0` or `h <= 0` draws nothing.
    pub fn draw_rect(&mut self, x: isize, y: isize, w: isize, h: isize)
        requires
            in_isize(y + h),
            h > 0 ==> in_isize(x + w),
        ensures
            final(self).frame() == rect_fill(
                old(self).frame(),
                x as int,
                y as int,
                x + w,
                y + h,
                old(self).color.c,
            ),
            final(self).cursor() == old(self).cursor(),
            final(self).same_settings(old(self)),
    {
        let ghost start = *self;
        let ghost c = self.color.c;
        let y_end = y + h;
        let mut yy = y;
        proof {
            lemma_rect_fill_empty(start.frame(), x as int, y as int, x + w, y as int, c);
        }
        while yy < y_end
            invariant
                y <= yy,
                yy <= y_end || yy == y,
                y_end == y + h,
                h > 0 ==> in_isize(x + w),
                c == start.color.c,
                self.same_settings(&start),
                self.cursor() == start.cursor(),
                self.frame() == rect_fill(start.frame(), x as int, y as int, x + w, yy as int, c),
            decreases y_end - yy,
        {
            let x_end = x + w;
            let mut xx = x;
            let ghost row_start = self.frame();
            proof {
                lemma_rect_fill_empty(row_start, x as int, yy as int, x as int, yy + 1, c);
            }
            while xx < x_end
                invariant
                    x <= xx,
                    xx <= x_end || xx == x,
                    x_end == x + w,
                    yy < y_end,
                    y <= yy,
                    c == start.color.c,
                    self.same_settings(&start),
                    self.cursor() == start.cursor(),
                    row_start == rect_fill(start.frame(), x as int, y as int, x + w, yy as int, c),
                    self.frame() == rect_fill(row_start, x as int, yy as int, xx as int, yy + 1, c),
                decreases x_end - xx,
            {
                self.draw_pixel(xx, yy);
                proof {
                    lemma_rect_fill_extend_run(row_start, x as int, xx as int, yy as int, c);
                }
                xx = xx + 1;
            }
            proof {
                if x_end <= x {
                    lemma_rect_fill_empty(row_start, x as int, yy as int, xx as int, yy + 1, c);
                    lemma_rect_fill_empty(row_start, x as int, yy as int, x + w, yy + 1, c);
                }
                lemma_rect_fill_extend_block(start.frame(), x as int, x + w, y as int, yy as int, c);
            }
            yy = yy + 1;
        }
        proof {
            if y_end <= y {
                lemma_rect_fill_empty(start.frame(), x as int, y as int, x + w, yy as int, c);
                lemma_rect_fill_empty(start.frame(), x as int, y as int, x + w, y + h, c);
            }
        }
    }
}

} // verus!
