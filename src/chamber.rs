//! The chamber: the buffers that the host shares with the library, and the
//! operations that run on them once per tick.
use crate::line::FOREGROUND;
use crate::seven_segment::{glyph_covers, render_7seg};
use vstd::prelude::*;

verus! {

/// Bytes of one ball record: position, radius and velocity, five 32-bit
/// floats.
pub const BALL_RECORD_SIZE: usize = 20;

/// Bytes of persisted state.
pub const SAVE_SIZE: usize = 1;

/// The largest ball count that the state records.
pub const MAX_RECORDED_BALLS: usize = 255;

/// The colour of every pixel that no digit covers.
pub const BACKGROUND: u32 = 0xffffffff;

/// Column of the units digit, in normalized hundredths.
pub const UNITS_X: usize = 60;

/// Column of the tens digit, in normalized hundredths.
pub const TENS_X: usize = 45;

/// Column of the hundreds digit, in normalized hundredths.
pub const HUNDREDS_X: usize = 30;

/// Row of the readout's top edge, in normalized hundredths.
pub const DIGITS_Y: usize = 20;

/// The scalar simulation state: how many balls the last tick advanced.
pub struct State {
    pub num_balls: u8,
}

impl State {
    pub fn new() -> (r: State)
        ensures
            r.num_balls == 0,
    {
        State { num_balls: 0 }
    }
}

/// What a chamber holds: the ball records as raw bytes, the canvas pixels, the
/// recorded ball count and the persisted byte.
pub ghost struct ChamberView {
    pub balls: Seq<u8>,
    pub canvas: Seq<u32>,
    pub num_balls: u8,
    pub saved: u8,
}

impl ChamberView {
    /// How many ball records the ball buffer holds.
    pub open spec fn ball_capacity(self) -> nat {
        self.balls.len() / (BALL_RECORD_SIZE as nat)
    }

    /// The chamber after `save`.
    pub open spec fn saved_state(self) -> ChamberView {
        ChamberView { saved: self.num_balls, ..self }
    }

    /// The chamber after `load`.
    pub open spec fn loaded_state(self) -> ChamberView {
        ChamberView { num_balls: self.saved, ..self }
    }

    /// The chamber after a tick over the first `n` ball slots.
    pub open spec fn stepped(self, n: nat) -> ChamberView {
        ChamberView { num_balls: recorded_count(n), ..self }
    }

    /// The ball buffer with record `index` replaced by `record`.
    pub open spec fn with_record(self, index: int, record: Seq<u8>) -> ChamberView {
        let lo = index * BALL_RECORD_SIZE;
        ChamberView {
            balls: Seq::new(
                self.balls.len(),
                |j: int|
                    if lo <= j < lo + BALL_RECORD_SIZE {
                        record[j - lo]
                    } else {
                        self.balls[j]
                    },
            ),
            ..self
        }
    }
}

/// The count that the state records for a tick over `n` balls: `n`, capped
/// at 255.
pub open spec fn recorded_count(n: nat) -> u8 {
    if n <= MAX_RECORDED_BALLS {
        n as u8
    } else {
        MAX_RECORDED_BALLS as u8
    }
}

/// Whether one of the readout's three digits for count `n` paints pixel
/// `(col, row)`: the units at `UNITS_X`, the tens at `TENS_X` and the hundreds
/// at `HUNDREDS_X`, leading zeros included.
pub open spec fn readout_covers(n: u8, w: int, h: int, col: int, row: int) -> bool {
    glyph_covers((n % 10) as int, UNITS_X as int, DIGITS_Y as int, w, h, col, row)
        || glyph_covers(((n / 10) % 10) as int, TENS_X as int, DIGITS_Y as int, w, h, col, row)
        || glyph_covers(((n / 100) % 10) as int, HUNDREDS_X as int, DIGITS_Y as int, w, h, col, row)
}

/// The canvas after a frame `w` wide and `h` high showing count `n`: each of
/// its first `w * h` pixels is `FOREGROUND` where the readout covers it and
/// `BACKGROUND` elsewhere; the pixels past them keep their colour.
pub open spec fn rendered(canvas: Seq<u32>, n: u8, w: int, h: int) -> Seq<u32> {
    Seq::new(
        canvas.len(),
        |i: int|
            if i < w * h {
                if readout_covers(n, w, h, i % w, i / w) {
                    FOREGROUND
                } else {
                    BACKGROUND
                }
            } else {
                canvas[i]
            },
    )
}

/// The buffers of one chamber. The host reads and writes the ball records and
/// the persisted byte, and reads the canvas; the library runs the ticks and
/// draws the frames.
pub struct Chamber {
    balls: Vec<u8>,
    canvas: Vec<u32>,
    state: State,
    save_memory: Vec<u8>,
}

impl View for Chamber {
    type V = ChamberView;

    closed spec fn view(&self) -> ChamberView {
        ChamberView {
            balls: self.balls@,
            canvas: self.canvas@,
            num_balls: self.state.num_balls,
            saved: self.save_memory@[0],
        }
    }
}

impl Chamber {
    /// The ball buffer holds whole records, and the persisted state is one byte.
    pub closed spec fn wf(&self) -> bool {
        &&& self.save_memory@.len() == SAVE_SIZE
        &&& self.balls@.len() % (BALL_RECORD_SIZE as nat) == 0
    }
}

/// A chamber with room for `max_balls` ball records and `max_chamber_pixels`
/// pixels, all of them zero, and a recorded count of zero.
pub fn init(max_balls: usize, max_chamber_pixels: usize) -> (r: Chamber)
    requires
        max_balls * BALL_RECORD_SIZE <= usize::MAX,
    ensures
        r.wf(),
        r@.balls == Seq::new((max_balls * BALL_RECORD_SIZE) as nat, |j: int| 0u8),
        r@.ball_capacity() == max_balls,
        r@.canvas == Seq::new(max_chamber_pixels as nat, |j: int| 0u32),
        r@.num_balls == 0,
        r@.saved == 0,
{
    let balls: Vec<u8> = vec![0u8; max_balls * BALL_RECORD_SIZE];
    let canvas: Vec<u32> = vec![0u32; max_chamber_pixels];
    let save_memory: Vec<u8> = vec![0u8; SAVE_SIZE];
    let r = Chamber { balls, canvas, state: State::new(), save_memory };
    assert(r@.balls =~= Seq::new((max_balls * BALL_RECORD_SIZE) as nat, |j: int| 0u8));
    assert(r@.canvas =~= Seq::new(max_chamber_pixels as nat, |j: int| 0u32));
    assert((max_balls * BALL_RECORD_SIZE) as nat / (BALL_RECORD_SIZE as nat) == max_balls);
    r
}

/// The canvas pixels, row by row.
#[allow(non_snake_case)]
pub fn canvasMemory(chamber: &Chamber) -> (r: &[u32])
    ensures
        r@ == chamber@.canvas,
{
    chamber.canvas.as_slice()
}

/// The ball records, `BALL_RECORD_SIZE` bytes each.
#[allow(non_snake_case)]
pub fn ballsMemory(chamber: &Chamber) -> (r: &[u8])
    requires
        chamber.wf(),
    ensures
        r@ == chamber@.balls,
        r@.len() == chamber@.ball_capacity() * BALL_RECORD_SIZE,
{
    chamber.balls.as_slice()
}

/// The persisted state.
#[allow(non_snake_case)]
pub fn saveMemory(chamber: &Chamber) -> (r: &[u8])
    requires
        chamber.wf(),
    ensures
        r@ == seq![chamber@.saved],
{
    let r = chamber.save_memory.as_slice();
    assert(r@ =~= seq![chamber@.saved]);
    r
}

/// How many bytes the persisted state takes.
#[allow(non_snake_case)]
pub fn saveSize() -> (r: usize)
    ensures
        r == 1,
{
    SAVE_SIZE
}

/// The ball count that the last tick recorded.
pub fn num_balls(chamber: &Chamber) -> (r: u8)
    ensures
        r == chamber@.num_balls,
{
    chamber.state.num_balls
}

/// Copies the recorded ball count into the persisted byte.
pub fn save(chamber: &mut Chamber)
    requires
        old(chamber).wf(),
    ensures
        final(chamber).wf(),
        final(chamber)@ == old(chamber)@.saved_state(),
{
    let n = chamber.state.num_balls;
    chamber.save_memory.set(0, n);
    assert(chamber@ =~= old(chamber)@.saved_state());
}

/// Copies the persisted byte back into the recorded ball count.
pub fn load(chamber: &mut Chamber)
    requires
        old(chamber).wf(),
    ensures
        final(chamber).wf(),
        final(chamber)@ == old(chamber)@.loaded_state(),
{
    chamber.state.num_balls = chamber.save_memory[0];
}

/// Overwrites the persisted byte, as a host restoring a snapshot does.
pub fn write_save_memory(chamber: &mut Chamber, byte: u8)
    requires
        old(chamber).wf(),
    ensures
        final(chamber).wf(),
        final(chamber)@ == (ChamberView { saved: byte, ..old(chamber)@ }),
{
    chamber.save_memory.set(0, byte);
}

/// Record `index` of a buffer of `len` bytes with room for more than `index`
/// records lies within the buffer.
proof fn lemma_record_in_bounds(index: int, len: int)
    requires
        0 <= index < len / (BALL_RECORD_SIZE as int),
        0 <= len,
    ensures
        index * BALL_RECORD_SIZE + BALL_RECORD_SIZE <= len,
{
    assert(index * 20 + 20 <= len) by (nonlinear_arith)
        requires
            0 <= index < len / 20,
            0 <= len,
    ;
}

/// A copy of ball record `index`.
pub fn ball_record(chamber: &Chamber, index: usize) -> (r: Vec<u8>)
    requires
        chamber.wf(),
        index < chamber@.ball_capacity(),
    ensures
        r@ == chamber@.balls.subrange(
            index * BALL_RECORD_SIZE,
            index * BALL_RECORD_SIZE + BALL_RECORD_SIZE,
        ),
{
    let len = chamber.balls.len();
    proof {
        lemma_record_in_bounds(index as int, len as int);
    }
    let lo = index * BALL_RECORD_SIZE;
    let mut r: Vec<u8> = Vec::new();
    let mut j: usize = 0;
    while j < BALL_RECORD_SIZE
        invariant
            lo == index * BALL_RECORD_SIZE,
            lo + BALL_RECORD_SIZE <= chamber@.balls.len() == len,
            j <= BALL_RECORD_SIZE,
            r@ == chamber@.balls.subrange(lo as int, lo + j),
        decreases BALL_RECORD_SIZE - j,
    {
        r.push(chamber.balls[lo + j]);
        j = j + 1;
        assert(r@ =~= chamber@.balls.subrange(lo as int, lo + j));
    }
    r
}

/// Overwrites ball record `index` with `record`, as the host writing a ball
/// into the shared buffer does.
pub fn set_ball_record(chamber: &mut Chamber, index: usize, record: &[u8])
    requires
        old(chamber).wf(),
        index < old(chamber)@.ball_capacity(),
        record@.len() == BALL_RECORD_SIZE,
    ensures
        final(chamber).wf(),
        final(chamber)@ == old(chamber)@.with_record(index as int, record@),
{
    let len = chamber.balls.len();
    proof {
        lemma_record_in_bounds(index as int, len as int);
    }
    let lo = index * BALL_RECORD_SIZE;
    let mut j: usize = 0;
    assert(chamber@.balls =~= Seq::new(
        old(chamber)@.balls.len(),
        |k: int|
            if lo <= k < lo + j {
                record@[k - lo]
            } else {
                old(chamber)@.balls[k]
            },
    ));
    while j < BALL_RECORD_SIZE
        invariant
            lo == index * BALL_RECORD_SIZE,
            lo + BALL_RECORD_SIZE <= old(chamber)@.balls.len() == len,
            record@.len() == BALL_RECORD_SIZE,
            j <= BALL_RECORD_SIZE,
            chamber.wf(),
            chamber@ == (ChamberView {
                balls: Seq::new(
                    old(chamber)@.balls.len(),
                    |k: int|
                        if lo <= k < lo + j {
                            record@[k - lo]
                        } else {
                            old(chamber)@.balls[k]
                        },
                ),
                ..old(chamber)@
            }),
        decreases BALL_RECORD_SIZE - j,
    {
        chamber.balls.set(lo + j, record[j]);
        j = j + 1;
        assert(chamber@.balls =~= Seq::new(
            old(chamber)@.balls.len(),
            |k: int|
                if lo <= k < lo + j {
                    record@[k - lo]
                } else {
                    old(chamber)@.balls[k]
                },
        ));
    }
    assert(chamber@ =~= old(chamber)@.with_record(index as int, record@));
}

/// Closes a tick over the first `num_balls` ball slots, whose records the
/// physics has already advanced: records their count, capped at 255.
pub fn step(chamber: &mut Chamber, num_balls: usize)
    requires
        old(chamber).wf(),
        num_balls <= old(chamber)@.ball_capacity(),
    ensures
        final(chamber).wf(),
        final(chamber)@ == old(chamber)@.stepped(num_balls as nat),
        final(chamber)@.num_balls == vstd::math::min(num_balls as int, 255),
{
    let n: u8 = if num_balls <= MAX_RECORDED_BALLS {
        num_balls as u8
    } else {
        MAX_RECORDED_BALLS as u8
    };
    chamber.state.num_balls = n;
    assert(chamber@ =~= old(chamber)@.stepped(num_balls as nat));
}

/// Repaints a frame `canvas_width` wide and `canvas_height` high: its
/// pixels, the first `canvas_width * canvas_height` of the canvas, become the
/// background, and the recorded ball count is drawn over them as three
/// seven-segment digits. No pixel past the frame is written.
pub fn render(chamber: &mut Chamber, canvas_width: usize, canvas_height: usize)
    requires
        old(chamber).wf(),
        canvas_width * canvas_height <= old(chamber)@.canvas.len(),
    ensures
        final(chamber).wf(),
        final(chamber)@ == (ChamberView {
            canvas: rendered(
                old(chamber)@.canvas,
                old(chamber)@.num_balls,
                canvas_width as int,
                canvas_height as int,
            ),
            ..old(chamber)@
        }),
        forall|i: int|
            0 <= i < canvas_width * canvas_height && !readout_covers(
                old(chamber)@.num_balls,
                canvas_width as int,
                canvas_height as int,
                i % (canvas_width as int),
                i / (canvas_width as int),
            ) ==> #[trigger] final(chamber)@.canvas[i] == BACKGROUND,
        forall|i: int|
            canvas_width * canvas_height <= i < old(chamber)@.canvas.len()
                ==> #[trigger] final(chamber)@.canvas[i] == old(chamber)@.canvas[i],
{
    let ghost w = canvas_width as int;
    let ghost h = canvas_height as int;
    let ghost start = chamber.canvas@;
    let n = chamber.state.num_balls;
    let len = chamber.canvas.len();
    assert(canvas_width * canvas_height <= len);
    let size = canvas_width * canvas_height;
    let mut i: usize = 0;
    while i < size
        invariant
            size == w * h,
            size <= start.len(),
            i <= size,
            chamber.wf(),
            chamber.state.num_balls == n,
            chamber@ == (ChamberView { canvas: chamber@.canvas, ..old(chamber)@ }),
            chamber.canvas@.len() == start.len(),
            forall|j: int|
                0 <= j < start.len() ==> #[trigger] chamber.canvas@[j] == if j < i {
                    BACKGROUND
                } else {
                    start[j]
                },
        decreases size - i,
    {
        chamber.canvas.set(i, BACKGROUND);
        i = i + 1;
    }
    render_7seg(n % 10, UNITS_X, DIGITS_Y, canvas_width, canvas_height, &mut chamber.canvas);
    render_7seg((n / 10) % 10, TENS_X, DIGITS_Y, canvas_width, canvas_height, &mut chamber.canvas);
    render_7seg((n / 100) % 10, HUNDREDS_X, DIGITS_Y, canvas_width, canvas_height, &mut chamber.canvas);
    assert(chamber.canvas@ =~= rendered(start, n, w, h));
    assert(chamber@ =~= (ChamberView { canvas: rendered(start, n, w, h), ..old(chamber)@ }));
}

/// Saving and then loading restores the ball count that was recorded before
/// the save, whatever its value.
pub proof fn lemma_save_load_round_trip(m: ChamberView)
    ensures
        m.saved_state().loaded_state().num_balls == m.num_balls,
        m.saved_state().loaded_state() == m.saved_state(),
{
}

/// Rendering a frame of one size twice, with the same ball count, leaves the
/// canvas as rendering it once does.
pub proof fn lemma_render_idempotent(canvas: Seq<u32>, n: u8, w: nat, h: nat)
    ensures
        rendered(rendered(canvas, n, w as int, h as int), n, w as int, h as int) == rendered(
            canvas,
            n,
            w as int,
            h as int,
        ),
{
    assert(rendered(rendered(canvas, n, w as int, h as int), n, w as int, h as int) =~= rendered(
        canvas,
        n,
        w as int,
        h as int,
    ));
}

} // verus!
