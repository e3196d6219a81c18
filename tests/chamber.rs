use counter::chamber::{
    ballsMemory, ball_record, canvasMemory, init, load, num_balls, render, save, saveMemory,
    saveSize, set_ball_record, step, write_save_memory, BACKGROUND,
};
use counter::line::FOREGROUND;

fn pixel(canvas: &[u32], width: usize, col: usize, row: usize) -> u32 {
    canvas[row * width + col]
}

#[test]
fn init_sizes_and_zeroes_buffers() {
    let c = init(10, 10000);
    assert_eq!(ballsMemory(&c).len(), 200);
    assert!(ballsMemory(&c).iter().all(|b| *b == 0));
    assert_eq!(canvasMemory(&c).len(), 10000);
    assert!(canvasMemory(&c).iter().all(|p| *p == 0));
    assert_eq!(num_balls(&c), 0);
    assert_eq!(saveSize(), 1);
    assert_eq!(saveMemory(&c), &[0u8][..]);
}

#[test]
fn save_then_load_restores_every_count() {
    let mut c = init(255, 0);
    for v in 0..=255usize {
        step(&mut c, v);
        save(&mut c);
        assert_eq!(saveMemory(&c), &[v as u8][..]);
        step(&mut c, 0);
        load(&mut c);
        assert_eq!(num_balls(&c), v as u8);
    }
}

#[test]
fn load_takes_a_written_save_byte() {
    let mut c = init(0, 0);
    write_save_memory(&mut c, 42);
    assert_eq!(num_balls(&c), 0);
    load(&mut c);
    assert_eq!(num_balls(&c), 42);
}

#[test]
fn step_records_count_below_the_cap() {
    let mut c = init(300, 0);
    for n in [0usize, 1, 7, 254, 255] {
        step(&mut c, n);
        assert_eq!(num_balls(&c), n as u8);
    }
}

#[test]
fn step_clamps_count_to_255() {
    let mut c = init(300, 0);
    step(&mut c, 300);
    assert_eq!(num_balls(&c), 255);
    step(&mut c, 256);
    assert_eq!(num_balls(&c), 255);
}

#[test]
fn one_ball_step_records_one() {
    let mut c = init(10, 10000);
    let mut record: Vec<u8> = Vec::new();
    for f in [0.5f32, 0.05, 0.05, 0.0, -1.0] {
        record.extend_from_slice(&f.to_le_bytes());
    }
    set_ball_record(&mut c, 0, &record);
    assert_eq!(ball_record(&c, 0), record);
    assert_eq!(&ballsMemory(&c)[0..20], &record[..]);
    assert!(ballsMemory(&c)[20..].iter().all(|b| *b == 0));
    step(&mut c, 1);
    assert_eq!(num_balls(&c), 1);
}

#[test]
fn ball_records_are_independent() {
    let mut c = init(3, 0);
    let a: Vec<u8> = (1..=20).collect();
    let b: Vec<u8> = (101..=120).collect();
    set_ball_record(&mut c, 2, &a);
    set_ball_record(&mut c, 1, &b);
    assert_eq!(ball_record(&c, 0), vec![0u8; 20]);
    assert_eq!(ball_record(&c, 1), b);
    assert_eq!(ball_record(&c, 2), a);
}

#[test]
fn render_twice_gives_identical_canvas() {
    let mut c = init(300, 12000);
    step(&mut c, 123);
    render(&mut c, 100, 100);
    let first = canvasMemory(&c).to_vec();
    render(&mut c, 100, 100);
    assert_eq!(canvasMemory(&c), &first[..]);
}

#[test]
fn render_fills_background_and_leaves_the_rest() {
    let mut c = init(0, 12000);
    render(&mut c, 100, 100);
    let canvas = canvasMemory(&c);
    // Outside every glyph.
    assert_eq!(pixel(canvas, 100, 5, 5), BACKGROUND);
    assert_eq!(pixel(canvas, 100, 99, 99), BACKGROUND);
    assert_eq!(pixel(canvas, 100, 80, 30), BACKGROUND);
    // The middle segment of a zero stays dark.
    assert_eq!(pixel(canvas, 100, 65, 30), BACKGROUND);
    // Past the frame nothing is written.
    assert!(canvas[10000..].iter().all(|p| *p == 0));
    let painted = canvas[..10000].iter().filter(|p| **p == FOREGROUND).count();
    let blank = canvas[..10000].iter().filter(|p| **p == BACKGROUND).count();
    assert_eq!(painted + blank, 10000);
    assert!(painted > 0);
}

#[test]
fn render_places_digits_right_to_left() {
    let mut c = init(300, 10000);
    step(&mut c, 1);
    render(&mut c, 100, 100);
    let canvas = canvasMemory(&c);
    // Units digit 1 at column 60: right verticals at column 70, no top bar.
    assert_eq!(pixel(canvas, 100, 70, 25), FOREGROUND);
    assert_eq!(pixel(canvas, 100, 70, 35), FOREGROUND);
    assert_eq!(pixel(canvas, 100, 64, 20), BACKGROUND);
    // Tens digit 0 at column 45: top bar at row 20, no middle bar.
    assert_eq!(pixel(canvas, 100, 50, 20), FOREGROUND);
    assert_eq!(pixel(canvas, 100, 50, 30), BACKGROUND);
    // Hundreds digit 0 at column 30: left vertical at column 30.
    assert_eq!(pixel(canvas, 100, 30, 25), FOREGROUND);
    assert_eq!(pixel(canvas, 100, 35, 30), BACKGROUND);
}

#[test]
fn render_shows_a_three_digit_count() {
    let mut c = init(300, 10000);
    step(&mut c, 208);
    render(&mut c, 100, 100);
    let canvas = canvasMemory(&c);
    // Units 8: middle bar lit.
    assert_eq!(pixel(canvas, 100, 65, 30), FOREGROUND);
    // Tens 0: middle bar dark.
    assert_eq!(pixel(canvas, 100, 50, 30), BACKGROUND);
    // Hundreds 2: middle bar lit, lower right vertical dark.
    assert_eq!(pixel(canvas, 100, 35, 30), FOREGROUND);
    assert_eq!(pixel(canvas, 100, 40, 35), BACKGROUND);
}

#[test]
fn render_on_an_empty_frame_writes_nothing() {
    let mut c = init(0, 50);
    render(&mut c, 0, 0);
    assert!(canvasMemory(&c).iter().all(|p| *p == 0));
    render(&mut c, 1000, 0);
    assert!(canvasMemory(&c).iter().all(|p| *p == 0));
}

#[test]
fn render_on_a_short_frame_stays_inside() {
    // Glyph bands reach below row 10, but the frame ends there.
    let mut c = init(0, 2000);
    render(&mut c, 100, 10);
    let canvas = canvasMemory(&c);
    assert!(canvas[..1000].iter().all(|p| *p == BACKGROUND));
    assert!(canvas[1000..].iter().all(|p| *p == 0));
    render(&mut c, 100, 19);
    let canvas = canvasMemory(&c);
    assert_eq!(pixel(canvas, 100, 65, 18), FOREGROUND);
    assert!(canvas[1900..].iter().all(|p| *p == 0));
}
