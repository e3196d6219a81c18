//! Seven-segment digits, drawn with the line rasterizer.
//!
//! A glyph is 10 hundredths wide and 20 high. Its segments are numbered
//!
//! ```text
//!       0
//!     ____
//!    |    |
//!  5 |__6_| 1
//!    |    |
//!  4 |____| 2
//!       3
//! ```
use crate::line::{covers, draw_line, drawn, Line, FOREGROUND};
use vstd::prelude::*;

verus! {

/// Width of a glyph, in normalized hundredths.
pub const GLYPH_WIDTH: usize = 10;

/// Height of a glyph, in normalized hundredths.
pub const GLYPH_HEIGHT: usize = 20;

/// Number of segments of a glyph.
pub const SEGMENTS: usize = 7;

/// Segment `s` of a glyph whose top left corner is at the origin.
pub open spec fn segment_line(s: int) -> Line {
    if s == 0 {
        Line::Horizontal { y: 0, start: 0, end: 10 }
    } else if s == 1 {
        Line::Vertical { x: 10, start: 0, end: 10 }
    } else if s == 2 {
        Line::Vertical { x: 10, start: 10, end: 20 }
    } else if s == 3 {
        Line::Horizontal { y: 20, start: 0, end: 10 }
    } else if s == 4 {
        Line::Vertical { x: 0, start: 10, end: 20 }
    } else if s == 5 {
        Line::Vertical { x: 0, start: 0, end: 10 }
    } else {
        Line::Horizontal { y: 10, start: 0, end: 10 }
    }
}

/// The segments that digit `d` lights.
pub open spec fn digit_segments(d: int) -> Set<int> {
    if d == 0 {
        set![0, 1, 2, 3, 4, 5]
    } else if d == 1 {
        set![1, 2]
    } else if d == 2 {
        set![0, 1, 3, 4, 6]
    } else if d == 3 {
        set![0, 1, 2, 3, 6]
    } else if d == 4 {
        set![1, 2, 5, 6]
    } else if d == 5 {
        set![0, 2, 3, 5, 6]
    } else if d == 6 {
        set![0, 2, 3, 4, 5, 6]
    } else if d == 7 {
        set![0, 1, 2]
    } else if d == 8 {
        set![0, 1, 2, 3, 4, 5, 6]
    } else {
        set![0, 1, 2, 3, 5, 6]
    }
}

/// The lookup table of lit segments: bit `s` of `digit_mask(d)` is set when
/// digit `d` lights segment `s`.
pub open spec fn digit_mask(d: int) -> u8 {
    if d == 0 {
        0b00111111
    } else if d == 1 {
        0b00000110
    } else if d == 2 {
        0b01011011
    } else if d == 3 {
        0b01001111
    } else if d == 4 {
        0b01100110
    } else if d == 5 {
        0b01101101
    } else if d == 6 {
        0b01111101
    } else if d == 7 {
        0b00000111
    } else if d == 8 {
        0b01111111
    } else {
        0b01101111
    }
}

/// The mask table lights, for each digit, exactly the segments of
/// `digit_segments`: digit 0 all but the middle one, digit 1 the two on the
/// right, and so on.
pub proof fn lemma_digit_mask_matches(d: u8, s: u8)
    requires
        d < 10,
        s < 7,
    ensures
        ((digit_mask(d as int) >> s) & 1u8 == 1u8) == digit_segments(d as int).contains(s as int),
{
    if d == 0 {
        assert(((0b00111111u8 >> s) & 1u8 == 1u8) == (s <= 5)) by (bit_vector)
            requires
                s < 7,
        ;
    } else if d == 1 {
        assert(((0b00000110u8 >> s) & 1u8 == 1u8) == (s == 1 || s == 2)) by (bit_vector)
            requires
                s < 7,
        ;
    } else if d == 2 {
        assert(((0b01011011u8 >> s) & 1u8 == 1u8) == (s == 0 || s == 1 || s == 3 || s == 4 || s
            == 6)) by (bit_vector)
            requires
                s < 7,
        ;
    } else if d == 3 {
        assert(((0b01001111u8 >> s) & 1u8 == 1u8) == (s <= 3 || s == 6)) by (bit_vector)
            requires
                s < 7,
        ;
    } else if d == 4 {
        assert(((0b01100110u8 >> s) & 1u8 == 1u8) == (s == 1 || s == 2 || s == 5 || s == 6))
            by (bit_vector)
            requires
                s < 7,
        ;
    } else if d == 5 {
        assert(((0b01101101u8 >> s) & 1u8 == 1u8) == (s == 0 || s == 2 || s == 3 || s == 5 || s
            == 6)) by (bit_vector)
            requires
                s < 7,
        ;
    } else if d == 6 {
        assert(((0b01111101u8 >> s) & 1u8 == 1u8) == (s != 1)) by (bit_vector)
            requires
                s < 7,
        ;
    } else if d == 7 {
        assert(((0b00000111u8 >> s) & 1u8 == 1u8) == (s <= 2)) by (bit_vector)
            requires
                s < 7,
        ;
    } else if d == 8 {
        assert(((0b01111111u8 >> s) & 1u8 == 1u8) == (s <= 6)) by (bit_vector)
            requires
                s < 7,
        ;
    } else {
        assert(((0b01101111u8 >> s) & 1u8 == 1u8) == (s != 4)) by (bit_vector)
            requires
                s < 7,
        ;
    }
}

/// Whether one of the first `k` segments that digit `d` lights, with the glyph
/// placed at `(x_offs, y_offs)`, paints pixel `(col, row)`.
pub open spec fn glyph_covers_first(
    d: int,
    x_offs: int,
    y_offs: int,
    w: int,
    h: int,
    col: int,
    row: int,
    k: int,
) -> bool
    decreases k,
{
    if k <= 0 {
        false
    } else {
        glyph_covers_first(d, x_offs, y_offs, w, h, col, row, k - 1) || (digit_segments(d).contains(
            k - 1,
        ) && covers(segment_line(k - 1).translated(x_offs, y_offs), w, h, col, row))
    }
}

/// Whether the glyph of digit `d`, placed at `(x_offs, y_offs)`, paints pixel
/// `(col, row)` of a canvas `w` wide and `h` high.
pub open spec fn glyph_covers(
    d: int,
    x_offs: int,
    y_offs: int,
    w: int,
    h: int,
    col: int,
    row: int,
) -> bool {
    glyph_covers_first(d, x_offs, y_offs, w, h, col, row, SEGMENTS as int)
}

/// `canvas` after the first `k` segments of digit `d`'s glyph.
pub open spec fn glyph_drawn_first(
    canvas: Seq<u32>,
    d: int,
    x_offs: int,
    y_offs: int,
    w: int,
    h: int,
    k: int,
) -> Seq<u32> {
    Seq::new(
        canvas.len(),
        |i: int|
            if i < w * h && glyph_covers_first(d, x_offs, y_offs, w, h, i % w, i / w, k) {
                FOREGROUND
            } else {
                canvas[i]
            },
    )
}

/// `canvas` after the glyph of digit `d`, placed at `(x_offs, y_offs)`.
pub open spec fn glyph_drawn(
    canvas: Seq<u32>,
    d: int,
    x_offs: int,
    y_offs: int,
    w: int,
    h: int,
) -> Seq<u32> {
    glyph_drawn_first(canvas, d, x_offs, y_offs, w, h, SEGMENTS as int)
}

fn digit_mask_of(d: u8) -> (r: u8)
    requires
        d < 10,
    ensures
        r == digit_mask(d as int),
{
    match d {
        0 => 0b00111111,
        1 => 0b00000110,
        2 => 0b01011011,
        3 => 0b01001111,
        4 => 0b01100110,
        5 => 0b01101101,
        6 => 0b01111101,
        7 => 0b00000111,
        8 => 0b01111111,
        _ => 0b01101111,
    }
}

fn segment(s: usize) -> (r: Line)
    requires
        s < SEGMENTS,
    ensures
        r == segment_line(s as int),
{
    match s {
        0 => Line::Horizontal { y: 0, start: 0, end: 10 },
        1 => Line::Vertical { x: 10, start: 0, end: 10 },
        2 => Line::Vertical { x: 10, start: 10, end: 20 },
        3 => Line::Horizontal { y: 20, start: 0, end: 10 },
        4 => Line::Vertical { x: 0, start: 10, end: 20 },
        5 => Line::Vertical { x: 0, start: 0, end: 10 },
        _ => Line::Horizontal { y: 10, start: 0, end: 10 },
    }
}

/// Draws digit `val` with its glyph's top left corner at `(x_offs, y_offs)`.
pub fn render_7seg(
    val: u8,
    x_offs: usize,
    y_offs: usize,
    canvas_width: usize,
    canvas_height: usize,
    canvas: &mut Vec<u32>,
)
    requires
        val < 10,
        x_offs + GLYPH_WIDTH <= usize::MAX,
        y_offs + GLYPH_HEIGHT <= usize::MAX,
        canvas_width * canvas_height <= old(canvas)@.len(),
    ensures
        final(canvas)@ == glyph_drawn(
            old(canvas)@,
            val as int,
            x_offs as int,
            y_offs as int,
            canvas_width as int,
            canvas_height as int,
        ),
{
    let ghost start = canvas@;
    let ghost w = canvas_width as int;
    let ghost h = canvas_height as int;
    let mask = digit_mask_of(val);
    let mut bitset: u8 = mask;
    let mut s: usize = 0;
    assert(canvas@ =~= glyph_drawn_first(start, val as int, x_offs as int, y_offs as int, w, h, 0));
    assert(mask >> 0u8 == mask) by (bit_vector);
    while s < SEGMENTS
        invariant
            s <= SEGMENTS,
            w == canvas_width,
            h == canvas_height,
            val < 10,
            x_offs + GLYPH_WIDTH <= usize::MAX,
            y_offs + GLYPH_HEIGHT <= usize::MAX,
            canvas_width * canvas_height <= start.len(),
            mask == digit_mask(val as int),
            bitset == mask >> (s as u8),
            canvas@ == glyph_drawn_first(
                start,
                val as int,
                x_offs as int,
                y_offs as int,
                w,
                h,
                s as int,
            ),
        decreases SEGMENTS - s,
    {
        let ghost t: u8 = s as u8;
        proof {
            lemma_digit_mask_matches(val, t);
        }
        assert((bitset & 1 == 1) == digit_segments(val as int).contains(s as int));
        let line = segment(s);
        let ghost before = canvas@;
        let ghost moved = segment_line(s as int).translated(x_offs as int, y_offs as int);
        if bitset & 1 == 1 {
            draw_line(line.translate(x_offs, y_offs), canvas_width, canvas_height, canvas);
            assert(canvas@ == drawn(before, moved, w, h));
        }
        assert(canvas@ =~= glyph_drawn_first(
            start,
            val as int,
            x_offs as int,
            y_offs as int,
            w,
            h,
            s + 1,
        ));
        assert((mask >> t) >> 1u8 == mask >> ((t + 1) as u8)) by (bit_vector)
            requires
                t < 7,
        ;
        bitset = bitset >> 1;
        s = s + 1;
    }
}

} // verus!
