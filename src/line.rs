//! Axis-aligned thick lines, rasterized into a row-major pixel buffer.
//!
//! Coordinates are normalized to the canvas width and written in hundredths:
//! `UNIT` stands for the full width, so a coordinate `v` falls on pixel
//! `v * width / UNIT`, rounded down and saturated at `usize::MAX`. Rows are
//! measured in canvas widths too, so on a canvas taller than wide a row
//! coordinate may exceed `UNIT`.
use vstd::arithmetic::div_mod::lemma_fundamental_div_mod;
use vstd::arithmetic::div_mod::lemma_fundamental_div_mod_converse;
use vstd::prelude::*;

verus! {

/// The colour that a line paints.
pub const FOREGROUND: u32 = 0xff000000;

/// One full canvas width, in normalized hundredths.
pub const UNIT: usize = 100;

/// A segment in normalized coordinates: a vertical one at column `x` from
/// `start` to `end` downwards, or a horizontal one at row `y` from `start` to
/// `end` rightwards.
#[derive(Clone, Copy, Debug, PartialEq, Eq, Structural)]
pub enum Line {
    Vertical { x: usize, start: usize, end: usize },
    Horizontal { y: usize, start: usize, end: usize },
}

impl Line {
    /// Moving the line by the offsets keeps every coordinate within `usize`.
    pub open spec fn fits_translated(self, x_offs: int, y_offs: int) -> bool {
        match self {
            Line::Vertical { x, start, end } => x + x_offs <= usize::MAX && start + y_offs
                <= usize::MAX && end + y_offs <= usize::MAX,
            Line::Horizontal { y, start, end } => y + y_offs <= usize::MAX && start + x_offs
                <= usize::MAX && end + x_offs <= usize::MAX,
        }
    }

    /// The line moved right by `x_offs` and down by `y_offs`.
    pub open spec fn translated(self, x_offs: int, y_offs: int) -> Line {
        match self {
            Line::Vertical { x, start, end } => Line::Vertical {
                x: (x + x_offs) as usize,
                start: (start + y_offs) as usize,
                end: (end + y_offs) as usize,
            },
            Line::Horizontal { y, start, end } => Line::Horizontal {
                y: (y + y_offs) as usize,
                start: (start + x_offs) as usize,
                end: (end + x_offs) as usize,
            },
        }
    }

    pub fn translate(&self, x_offs: usize, y_offs: usize) -> (r: Line)
        requires
            self.fits_translated(x_offs as int, y_offs as int),
        ensures
            r == self.translated(x_offs as int, y_offs as int),
    {
        match *self {
            Line::Vertical { x, start, end } => Line::Vertical {
                x: x + x_offs,
                start: start + y_offs,
                end: end + y_offs,
            },
            Line::Horizontal { y, start, end } => Line::Horizontal {
                y: y + y_offs,
                start: start + x_offs,
                end: end + x_offs,
            },
        }
    }
}

/// The pixel on which normalized coordinate `v` falls, for a canvas `w` wide,
/// saturated at `usize::MAX`.
pub open spec fn to_px(v: int, w: int) -> int {
    min(v * w / (UNIT as int), usize::MAX as int)
}

pub open spec fn sat_sub(a: int, b: int) -> int {
    if a >= b {
        a - b
    } else {
        0
    }
}

pub open spec fn min(a: int, b: int) -> int {
    if a <= b {
        a
    } else {
        b
    }
}

/// The pixels that `line` covers on a canvas `w` wide and `h` high, as the rows
/// `[.0, .1)` by the columns `[.2, .3)`. A line is a band six pixels thick
/// around its own row or column, and reaches two pixels past each end; the band
/// is cut off at the canvas's edges.
pub open spec fn band(line: Line, w: int, h: int) -> (int, int, int, int) {
    match line {
        Line::Horizontal { y, start, end } => {
            let y_px = to_px(y as int, w);
            (
                sat_sub(y_px, 3),
                min(y_px + 3, h),
                sat_sub(to_px(start as int, w), 2),
                min(to_px(end as int, w) + 2, w),
            )
        },
        Line::Vertical { x, start, end } => {
            let x_px = to_px(x as int, w);
            (
                sat_sub(to_px(start as int, w), 2),
                min(to_px(end as int, w) + 2, h),
                sat_sub(x_px, 3),
                min(x_px + 3, w),
            )
        },
    }
}

/// Whether `line` paints the pixel at column `col` and row `row`.
pub open spec fn covers(line: Line, w: int, h: int, col: int, row: int) -> bool {
    let b = band(line, w, h);
    b.0 <= row < b.1 && b.2 <= col < b.3
}

/// `canvas` after a line: the pixels it covers hold `FOREGROUND`, the others
/// keep their colour.
pub open spec fn drawn(canvas: Seq<u32>, line: Line, w: int, h: int) -> Seq<u32> {
    Seq::new(
        canvas.len(),
        |i: int|
            if i < w * h && covers(line, w, h, i % w, i / w) {
                FOREGROUND
            } else {
                canvas[i]
            },
    )
}

fn to_canvas(val: usize, canvas_width: usize) -> (r: usize)
    ensures
        r == to_px(val as int, canvas_width as int),
{
    assert((val as int) * (canvas_width as int) <= u128::MAX) by (nonlinear_arith)
        requires
            val <= u64::MAX,
            canvas_width <= u64::MAX,
    ;
    let p: u128 = (val as u128) * (canvas_width as u128);
    let q: u128 = p / 100;
    if q > usize::MAX as u128 {
        usize::MAX
    } else {
        q as usize
    }
}

/// `min(a + b, bound)`, without overflow.
fn add_capped(a: usize, b: usize, bound: usize) -> (r: usize)
    ensures
        r == min(a + b, bound as int),
{
    if a >= bound || bound - a <= b {
        bound
    } else {
        a + b
    }
}

/// Pixel `(col, row)` of a canvas `w` wide has index `row * w + col`.
proof fn lemma_pixel_index(w: int, h: int, row: int, col: int)
    requires
        0 <= row < h,
        0 <= col < w,
    ensures
        0 <= row * w + col < w * h,
        (row * w + col) / w == row,
        (row * w + col) % w == col,
{
    assert(0 <= row * w + col < w * h) by (nonlinear_arith)
        requires
            0 <= row < h,
            0 <= col < w,
    ;
    lemma_fundamental_div_mod_converse(row * w + col, w, row, col);
}

/// Paints `color` over rows `[r0, r1)` by columns `[c0, c1)`.
fn fill_rect(
    canvas: &mut Vec<u32>,
    w: usize,
    h: usize,
    r0: usize,
    r1: usize,
    c0: usize,
    c1: usize,
    color: u32,
)
    requires
        w * h <= old(canvas)@.len(),
        r1 <= h,
        c1 <= w,
    ensures
        final(canvas)@.len() == old(canvas)@.len(),
        forall|i: int|
            0 <= i < old(canvas)@.len() ==> #[trigger] final(canvas)@[i] == if i < w * h && r0
                <= i / (w as int) < r1 && c0 <= i % (w as int) < c1 {
                color
            } else {
                old(canvas)@[i]
            },
{
    let ghost start = canvas@;
    let len = canvas.len();
    let mut row: usize = r0;
    while row < r1
        invariant
            canvas@.len() == start.len(),
            w * h <= start.len() == len,
            r1 <= h,
            c1 <= w,
            r0 <= row,
            row == r0 || row <= r1,
            forall|i: int|
                0 <= i < start.len() ==> #[trigger] canvas@[i] == if i < w * h && r0 <= i / (
                w as int) < row && c0 <= i % (w as int) < c1 {
                    color
                } else {
                    start[i]
                },
        decreases r1 - row,
    {
        let mut col: usize = c0;
        while col < c1
            invariant
                canvas@.len() == start.len(),
                w * h <= start.len() == len,
                r1 <= h,
                c1 <= w,
                r0 <= row < r1,
                c0 <= col,
                col == c0 || col <= c1,
                forall|i: int|
                    0 <= i < start.len() ==> #[trigger] canvas@[i] == if i < w * h && ((r0 <= i / (
                    w as int) < row && c0 <= i % (w as int) < c1) || (i / (w as int) == row && c0
                        <= i % (w as int) < col)) {
                        color
                    } else {
                        start[i]
                    },
            decreases c1 - col,
        {
            proof {
                lemma_pixel_index(w as int, h as int, row as int, col as int);
            }
            let k = row * w + col;
            let ghost before = canvas@;
            canvas.set(k, color);
            proof {
                assert forall|i: int| 0 <= i < start.len() implies #[trigger] canvas@[i] == if i
                    < w * h && ((r0 <= i / (w as int) < row && c0 <= i % (w as int) < c1) || (i / (
                w as int) == row && c0 <= i % (w as int) < col + 1)) {
                    color
                } else {
                    start[i]
                } by {
                    if i != k {
                        lemma_fundamental_div_mod(i, w as int);
                        if i / (w as int) == row && i % (w as int) == col {
                            assert((w as int) * row == row * (w as int)) by (nonlinear_arith);
                        }
                        assert(canvas@[i] == before[i]);
                    }
                }
            }
            col = col + 1;
        }
        row = row + 1;
    }
}

/// Paints `line` onto a canvas `canvas_width` wide and `canvas_height` high,
/// whose pixels are the first `canvas_width * canvas_height` of `canvas`.
/// Nothing past them is written, whatever the line.
pub fn draw_line(line: Line, canvas_width: usize, canvas_height: usize, canvas: &mut Vec<u32>)
    requires
        canvas_width * canvas_height <= old(canvas)@.len(),
    ensures
        final(canvas)@ == drawn(old(canvas)@, line, canvas_width as int, canvas_height as int),
        forall|i: int|
            canvas_width * canvas_height <= i < old(canvas)@.len() ==> #[trigger] final(canvas)@[i]
                == old(canvas)@[i],
{
    let w = canvas_width;
    let h = canvas_height;
    let (r0, r1, c0, c1) = match line {
        Line::Horizontal { y, start, end } => {
            let y_px = to_canvas(y, w);
            let r0 = y_px.saturating_sub(3);
            let r1 = add_capped(y_px, 3, h);
            let c0 = to_canvas(start, w).saturating_sub(2);
            let c1 = add_capped(to_canvas(end, w), 2, w);
            (r0, r1, c0, c1)
        },
        Line::Vertical { x, start, end } => {
            let x_px = to_canvas(x, w);
            let r0 = to_canvas(start, w).saturating_sub(2);
            let r1 = add_capped(to_canvas(end, w), 2, h);
            let c0 = x_px.saturating_sub(3);
            let c1 = add_capped(x_px, 3, w);
            (r0, r1, c0, c1)
        },
    };
    assert(band(line, w as int, h as int) == (r0 as int, r1 as int, c0 as int, c1 as int));
    fill_rect(canvas, w, h, r0, r1, c0, c1, FOREGROUND);
    assert(canvas@ =~= drawn(old(canvas)@, line, w as int, h as int));
}

} // verus!
