//! The pixel buffer, the colour table and the rasteriser that fills a wall
//! as vertical spans.

use vstd::prelude::*;
use crate::arith::{clamp, clamp_i128, div_toward_zero, trunc_div, magnitude, lemma_trunc_div_shrinks};

verus! {

/// Width of the buffer in pixels.
pub const WIDTH: i32 = 160;

/// Height of the buffer in pixels.
pub const HEIGHT: i32 = 120;

/// Number of entries of the colour table.
pub const PALETTE_LEN: usize = 9;

/// Index of the wall's colour in the table.
pub const WALL_COLOR: usize = 0;

/// Index of the background colour in the table.
pub const BACKGROUND_COLOR: usize = 8;

/// One pixel: red, green, blue and alpha.
#[derive(Clone, Copy, Debug, PartialEq, Eq, Structural)]
pub struct Rgba {
    pub r: u8,
    pub g: u8,
    pub b: u8,
    pub a: u8,
}

/// The fixed colour table.
pub open spec fn palette_spec(i: int) -> Rgba {
    if i == 0 {
        Rgba { r: 255, g: 255, b: 0, a: 255 }
    } else if i == 1 {
        Rgba { r: 160, g: 160, b: 0, a: 255 }
    } else if i == 2 {
        Rgba { r: 0, g: 255, b: 0, a: 255 }
    } else if i == 3 {
        Rgba { r: 0, g: 160, b: 0, a: 255 }
    } else if i == 4 {
        Rgba { r: 0, g: 255, b: 255, a: 255 }
    } else if i == 5 {
        Rgba { r: 0, g: 160, b: 160, a: 255 }
    } else if i == 6 {
        Rgba { r: 160, g: 100, b: 0, a: 255 }
    } else if i == 7 {
        Rgba { r: 110, g: 50, b: 0, a: 255 }
    } else {
        Rgba { r: 0, g: 60, b: 130, a: 255 }
    }
}

/// Entry `i` of the colour table.
pub fn palette(i: usize) -> (c: Rgba)
    requires
        i < PALETTE_LEN,
    ensures
        c == palette_spec(i as int),
{
    if i == 0 {
        Rgba { r: 255, g: 255, b: 0, a: 255 }
    } else if i == 1 {
        Rgba { r: 160, g: 160, b: 0, a: 255 }
    } else if i == 2 {
        Rgba { r: 0, g: 255, b: 0, a: 255 }
    } else if i == 3 {
        Rgba { r: 0, g: 160, b: 0, a: 255 }
    } else if i == 4 {
        Rgba { r: 0, g: 255, b: 255, a: 255 }
    } else if i == 5 {
        Rgba { r: 0, g: 160, b: 160, a: 255 }
    } else if i == 6 {
        Rgba { r: 160, g: 100, b: 0, a: 255 }
    } else if i == 7 {
        Rgba { r: 110, g: 50, b: 0, a: 255 }
    } else {
        Rgba { r: 0, g: 60, b: 130, a: 255 }
    }
}

/// Whether `(x, y)` is a pixel of the buffer.
pub open spec fn on_screen(x: int, y: int) -> bool {
    0 <= x < WIDTH && 0 <= y < HEIGHT
}

/// A `WIDTH` by `HEIGHT` grid of pixels, row by row. Rows grow upward:
/// row 0 is the bottom of the picture.
pub struct Framebuffer {
    pixels: Vec<Rgba>,
}

impl Framebuffer {
    /// The buffer holds exactly one pixel per grid position.
    pub closed spec fn wf(&self) -> bool {
        self.pixels@.len() == WIDTH * HEIGHT
    }

    /// The pixel at column `x`, row `y`.
    pub closed spec fn px(&self, x: int, y: int) -> Rgba {
        self.pixels@[y * WIDTH + x]
    }

    /// A buffer filled with colour `c`.
    pub fn new(c: Rgba) -> (r: Framebuffer)
        ensures
            r.wf(),
            forall|x: int, y: int| on_screen(x, y) ==> #[trigger] r.px(x, y) == c,
    {
        let mut pixels: Vec<Rgba> = Vec::new();
        let n: usize = (WIDTH * HEIGHT) as usize;
        while pixels.len() < n
            invariant
                n == WIDTH * HEIGHT,
                pixels@.len() <= n,
                forall|i: int| 0 <= i < pixels@.len() ==> #[trigger] pixels@[i] == c,
            decreases n - pixels@.len(),
        {
            pixels.push(c);
        }
        let r = Framebuffer { pixels };
        assert forall|x: int, y: int| on_screen(x, y) implies #[trigger] r.px(x, y) == c by {
            assert(0 <= y * WIDTH + x < WIDTH * HEIGHT);
        }
        r
    }

    /// The pixel at column `x`, row `y`.
    pub fn pixel(&self, x: i32, y: i32) -> (c: Rgba)
        requires
            self.wf(),
            on_screen(x as int, y as int),
        ensures
            c == self.px(x as int, y as int),
    {
        self.pixels[(y * WIDTH + x) as usize]
    }

    /// Paints the pixel at column `x`, row `y` with `c` and leaves the others.
    pub fn set_pixel(&mut self, x: i32, y: i32, c: Rgba)
        requires
            old(self).wf(),
            on_screen(x as int, y as int),
        ensures
            final(self).wf(),
            forall|i: int, j: int| on_screen(i, j) ==> #[trigger] final(self).px(i, j) == if i == x && j == y {
                c
            } else {
                old(self).px(i, j)
            },
    {
        let k = (y * WIDTH + x) as usize;
        self.pixels.set(k, c);
        proof {
            assert forall|i: int, j: int| on_screen(i, j) implies #[trigger] self.px(i, j) == if i == x && j == y {
                c
            } else {
                old(self).px(i, j)
            } by {
                assert(0 <= j * WIDTH + i < WIDTH * HEIGHT);
                assert((j * WIDTH + i == k) <==> (i == x && j == y));
            }
        }
    }

    /// Paints every pixel with `c`.
    pub fn clear(&mut self, c: Rgba)
        requires
            old(self).wf(),
        ensures
            final(self).wf(),
            forall|x: int, y: int| on_screen(x, y) ==> #[trigger] final(self).px(x, y) == c,
    {
        let n: usize = self.pixels.len();
        let mut i: usize = 0;
        while i < n
            invariant
                n == WIDTH * HEIGHT,
                self.pixels@.len() == n,
                i <= n,
                forall|k: int| 0 <= k < i ==> #[trigger] self.pixels@[k] == c,
            decreases n - i,
        {
            self.pixels.set(i, c);
            i = i + 1;
        }
        assert forall|x: int, y: int| on_screen(x, y) implies #[trigger] self.px(x, y) == c by {
            assert(0 <= y * WIDTH + x < WIDTH * HEIGHT);
        }
    }

    /// The pixels as bytes, four per pixel (red, green, blue, alpha), row by
    /// row from row 0.
    pub fn to_rgba_bytes(&self) -> (r: Vec<u8>)
        requires
            self.wf(),
        ensures
            r@.len() == 4 * WIDTH * HEIGHT,
            forall|x: int, y: int| on_screen(x, y) ==> {
                let k = 4 * (y * WIDTH + x);
                let c = #[trigger] self.px(x, y);
                r@[k] == c.r && r@[k + 1] == c.g && r@[k + 2] == c.b && r@[k + 3] == c.a
            },
    {
        let n: usize = self.pixels.len();
        let mut out: Vec<u8> = Vec::new();
        let mut i: usize = 0;
        while i < n
            invariant
                n == WIDTH * HEIGHT,
                self.pixels@.len() == n,
                i <= n,
                out@.len() == 4 * i,
                forall|p: int| 0 <= p < i ==> {
                    let c = #[trigger] self.pixels@[p];
                    out@[4 * p] == c.r && out@[4 * p + 1] == c.g && out@[4 * p + 2] == c.b
                        && out@[4 * p + 3] == c.a
                },
            decreases n - i,
        {
            let c = self.pixels[i];
            out.push(c.r);
            out.push(c.g);
            out.push(c.b);
            out.push(c.a);
            i = i + 1;
        }
        assert forall|x: int, y: int| on_screen(x, y) implies {
            let k = 4 * (y * WIDTH + x);
            let c = #[trigger] self.px(x, y);
            out@[k] == c.r && out@[k + 1] == c.g && out@[k + 2] == c.b && out@[k + 3] == c.a
        } by {
            let p = y * WIDTH + x;
            assert(0 <= p < n);
            assert(self.pixels@[p] == self.px(x, y));
        }
        out
    }
}

/// Width of the span between `x1` and `x2`, with a zero width taken as one.
pub open spec fn span_width(x1: int, x2: int) -> int {
    if x2 - x1 == 0 { 1 } else { x2 - x1 }
}

/// First column that the sweep paints.
pub open spec fn first_column(x1: int) -> int {
    clamp(x1, 1, WIDTH - 1)
}

/// Column at which the sweep stops (not painted). A zero-width span
/// still paints one column.
pub open spec fn end_column(x1: int, x2: int) -> int {
    if x1 == x2 { first_column(x1) + 1 } else { clamp(x2, 1, WIDTH - 1) }
}

/// The row of an edge that runs from `(x1, from)` to `(x2, to)`, taken at
/// the middle of column `col` against the unclamped span, then held on
/// screen.
pub open spec fn edge_row(from: int, to: int, x1: int, x2: int, col: int) -> int {
    clamp(
        trunc_div((to - from) * (2 * (col - x1) + 1), 2 * span_width(x1, x2)) + from,
        1,
        HEIGHT - 1,
    )
}

/// Whether [`draw_wall`] paints pixel `(col, row)` for the wall whose left
/// edge stands at `x1` from row `b1` up to row `t1` and whose right edge
/// stands at `x2` from `b2` up to `t2`: the column lies in the clamped
/// sweep, the row from the bottom edge (included) up to the top edge
/// (excluded).
pub open spec fn wall_covers(x1: int, x2: int, b1: int, b2: int, t1: int, t2: int, col: int, row: int) -> bool {
    &&& first_column(x1) <= col < end_column(x1, x2)
    &&& edge_row(b1, b2, x1, x2, col) <= row < edge_row(t1, t2, x1, x2, col)
}

/// Computes [`edge_row`].
fn edge_row_at(from: i32, to: i32, x1: i32, x2: i32, col: i32) -> (r: i32)
    ensures
        r == edge_row(from as int, to as int, x1 as int, x2 as int, col as int),
        1 <= r < HEIGHT,
{
    let rise: i128 = to as i128 - from as i128;
    let width: i128 = if x2 as i128 - x1 as i128 == 0 { 1 } else { x2 as i128 - x1 as i128 };
    let offset: i128 = 2 * (col as i128 - x1 as i128) + 1;
    assert(magnitude(rise * offset) <= 0x1_0000_0000 * 0x2_0000_0000) by (nonlinear_arith)
        requires
            magnitude(rise as int) <= 0x1_0000_0000,
            magnitude(offset as int) <= 0x2_0000_0000;
    let q = div_toward_zero(rise * offset, 2 * width);
    proof {
        lemma_trunc_div_shrinks((rise * offset) as int, (2 * width) as int);
    }
    clamp_i128(q + from as i128, 1, (HEIGHT - 1) as i128) as i32
}

/// Paints the wall between the screen columns `x1` and `x2` with the wall
/// colour: each column of the clamped sweep from its bottom edge up to its
/// top edge, both edges interpolated linearly from the corner rows `b1`,
/// `b2` (bottom) and `t1`, `t2` (top). Every other pixel is left as it was.
pub fn draw_wall(x1: i32, x2: i32, b1: i32, b2: i32, t1: i32, t2: i32, fb: &mut Framebuffer)
    requires
        old(fb).wf(),
    ensures
        final(fb).wf(),
        forall|col: int, row: int| on_screen(col, row) ==> #[trigger] final(fb).px(col, row) == if wall_covers(
            x1 as int, x2 as int, b1 as int, b2 as int, t1 as int, t2 as int, col, row,
        ) {
            palette_spec(WALL_COLOR as int)
        } else {
            old(fb).px(col, row)
        },
{
    let wall = palette(WALL_COLOR);
    let lo: i32 = clamp_i128(x1 as i128, 1, (WIDTH - 1) as i128) as i32;
    let hi: i32 = if x1 == x2 { lo + 1 } else { clamp_i128(x2 as i128, 1, (WIDTH - 1) as i128) as i32 };
    let mut col: i32 = lo;
    while col < hi
        invariant
            fb.wf(),
            lo == first_column(x1 as int),
            hi == end_column(x1 as int, x2 as int),
            1 <= lo <= col,
            hi <= WIDTH,
            col <= hi || col == lo,
            forall|c: int, r: int| on_screen(c, r) ==> #[trigger] fb.px(c, r) == if c < col && wall_covers(x1 as int, x2 as int, b1 as int, b2 as int, t1 as int, t2 as int, c, r) {
                wall
            } else {
                old(fb).px(c, r)
            },
        decreases hi - col,
    {
        let bottom = edge_row_at(b1, b2, x1, x2, col);
        let top = edge_row_at(t1, t2, x1, x2, col);
        let mut row: i32 = bottom;
        while row < top
            invariant
                fb.wf(),
                lo <= col < hi <= WIDTH,
                1 <= col,
                bottom == edge_row(b1 as int, b2 as int, x1 as int, x2 as int, col as int),
                top == edge_row(t1 as int, t2 as int, x1 as int, x2 as int, col as int),
                1 <= bottom <= row,
                row <= top || row == bottom,
                row < HEIGHT,
                forall|c: int, r: int| on_screen(c, r) ==> #[trigger] fb.px(c, r) == if (c < col && wall_covers(x1 as int, x2 as int, b1 as int, b2 as int, t1 as int, t2 as int, c, r))
                    || (c == col && bottom <= r < row) {
                    wall
                } else {
                    old(fb).px(c, r)
                },
            decreases top - row,
        {
            fb.set_pixel(col, row, wall);
            row = row + 1;
        }
        assert forall|c: int, r: int| on_screen(c, r) implies #[trigger] fb.px(c, r) == if c < col + 1 && wall_covers(x1 as int, x2 as int, b1 as int, b2 as int, t1 as int, t2 as int, c, r) {
            wall
        } else {
            old(fb).px(c, r)
        } by {
            if c == col {
                assert(wall_covers(x1 as int, x2 as int, b1 as int, b2 as int, t1 as int, t2 as int, c, r) <==> (bottom <= r < top));
            }
        }
        col = col + 1;
    }
}

/// A wall of zero width paints exactly one column, the clamped `x`: every
/// painted pixel lies in it, and where its bottom edge lies below its top
/// edge the column holds painted pixels.
pub proof fn lemma_zero_span_sliver(x: int, b1: int, b2: int, t1: int, t2: int)
    ensures
        forall|col: int, row: int| #[trigger] wall_covers(x, x, b1, b2, t1, t2, col, row) ==> col == first_column(x),
        ({
            let c = first_column(x);
            let bottom = edge_row(b1, b2, x, x, c);
            bottom < edge_row(t1, t2, x, x, c) ==> on_screen(c, bottom) && wall_covers(x, x, b1, b2, t1, t2, c, bottom)
        }),
{
}

} // verus!
