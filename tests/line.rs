use counter::line::{draw_line, Line, FOREGROUND};

fn painted(canvas: &[u32], width: usize) -> Vec<(usize, usize)> {
    let mut r = Vec::new();
    for (i, p) in canvas.iter().enumerate() {
        if *p == FOREGROUND {
            r.push((i % width, i / width));
        }
    }
    r
}

fn rect(cols: std::ops::Range<usize>, rows: std::ops::Range<usize>) -> Vec<(usize, usize)> {
    let mut r = Vec::new();
    for row in rows {
        for col in cols.clone() {
            r.push((col, row));
        }
    }
    r
}

#[test]
fn horizontal_line_band_is_exact() {
    let mut canvas = vec![0u32; 10000];
    draw_line(Line::Horizontal { y: 50, start: 20, end: 30 }, 100, 100, &mut canvas);
    assert_eq!(painted(&canvas, 100), rect(18..32, 47..53));
}

#[test]
fn vertical_line_band_is_exact() {
    let mut canvas = vec![0u32; 10000];
    draw_line(Line::Vertical { x: 40, start: 10, end: 20 }, 100, 100, &mut canvas);
    assert_eq!(painted(&canvas, 100), rect(37..43, 8..22));
}

#[test]
fn pixel_coordinates_round_down() {
    // 0.33 of a 50 pixel canvas is 16.5 pixels: row 16.
    let mut canvas = vec![0u32; 2500];
    draw_line(Line::Horizontal { y: 33, start: 10, end: 20 }, 50, 50, &mut canvas);
    assert_eq!(painted(&canvas, 50), rect(3..12, 13..19));
}

#[test]
fn lines_at_the_edges_stay_inside_the_frame() {
    let mut canvas = vec![0u32; 200];
    draw_line(Line::Horizontal { y: 100, start: 0, end: 100 }, 10, 10, &mut canvas);
    draw_line(Line::Vertical { x: 100, start: 0, end: 100 }, 10, 10, &mut canvas);
    draw_line(Line::Vertical { x: 0, start: 0, end: 100 }, 10, 10, &mut canvas);
    draw_line(Line::Horizontal { y: 0, start: 0, end: 100 }, 10, 10, &mut canvas);
    assert!(canvas[100..].iter().all(|p| *p == 0));
    for row in 0..10 {
        for col in 0..10 {
            let edge = row < 3 || row >= 7 || col < 3 || col >= 7;
            let expected = if edge { FOREGROUND } else { 0 };
            assert_eq!(canvas[row * 10 + col], expected);
        }
    }
}

#[test]
fn zero_sized_frames_are_left_alone() {
    let mut canvas = vec![0u32; 16];
    draw_line(Line::Horizontal { y: 0, start: 0, end: 100 }, 0, 0, &mut canvas);
    draw_line(Line::Vertical { x: 0, start: 0, end: 100 }, 16, 0, &mut canvas);
    draw_line(Line::Vertical { x: 100, start: 100, end: 100 }, 0, 16, &mut canvas);
    assert!(canvas.iter().all(|p| *p == 0));
}

#[test]
fn huge_width_with_no_rows_does_not_overflow() {
    let mut canvas = vec![7u32; 4];
    draw_line(Line::Horizontal { y: 100, start: 100, end: 100 }, usize::MAX, 0, &mut canvas);
    draw_line(Line::Vertical { x: 100, start: 100, end: 100 }, usize::MAX, 0, &mut canvas);
    assert_eq!(canvas, vec![7u32; 4]);
}

#[test]
fn translate_moves_along_the_axes() {
    let h = Line::Horizontal { y: 10, start: 0, end: 10 };
    assert_eq!(h.translate(60, 20), Line::Horizontal { y: 30, start: 60, end: 70 });
    let v = Line::Vertical { x: 10, start: 10, end: 20 };
    assert_eq!(v.translate(45, 20), Line::Vertical { x: 55, start: 30, end: 40 });
}

#[test]
fn vertical_line_reaches_rows_below_the_width() {
    // A frame 10 wide and 30 high: rows past row 10 are real pixels.
    let mut canvas = vec![0u32; 300];
    draw_line(Line::Vertical { x: 50, start: 100, end: 250 }, 10, 30, &mut canvas);
    assert_eq!(painted(&canvas, 10), rect(2..8, 8..27));
}

#[test]
fn coordinates_past_the_unit_square_saturate() {
    let mut canvas = vec![0u32; 200];
    draw_line(Line::Horizontal { y: usize::MAX, start: 0, end: usize::MAX }, 10, 10, &mut canvas);
    assert!(canvas.iter().all(|p| *p == 0));
    draw_line(Line::Vertical { x: 0, start: 0, end: usize::MAX }, 10, 10, &mut canvas);
    assert_eq!(painted(&canvas, 10), rect(0..3, 0..10));
    assert!(canvas[100..].iter().all(|p| *p == 0));
}

#[test]
fn translate_accepts_large_offsets() {
    let h = Line::Horizontal { y: 10, start: 0, end: 10 };
    let big = usize::MAX - 10;
    assert_eq!(h.translate(big, 500), Line::Horizontal { y: 510, start: big, end: usize::MAX });
}
