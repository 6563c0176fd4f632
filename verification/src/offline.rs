use vstd::prelude::*;

use crate::pattern::Pattern;
use crate::{BPM_MAX, BPM_MIN, LANES, STEPS};

verus! {

/// Sample rate of the offline render, in samples per second.
pub const OFFLINE_SAMPLE_RATE: u32 = 44100;

/// Channels of the offline render (the same signal on each).
pub const OFFLINE_CHANNELS: u16 = 2;

/// Bits per sample of the offline render.
pub const OFFLINE_BITS: u16 = 16;

/// Samples in one step at `sample_rate` and `bpm`, rounded down: a step is a
/// quarter beat, so `60 / bpm / 4` seconds.
pub open spec fn step_samples_spec(sample_rate: int, bpm: int) -> int {
    15 * sample_rate / bpm
}

/// Frames the offline render of a pattern at `bpm` holds: the length of the
/// whole pattern, rounded down to a frame.
pub open spec fn render_frames_spec(bpm: int) -> int {
    (STEPS as int) * 15 * (OFFLINE_SAMPLE_RATE as int) / bpm
}

/// Samples in one step of the offline render at `bpm`, rounded down.
pub fn step_samples(bpm: u32) -> (n: usize)
    requires
        bpm > 0,
    ensures
        n == step_samples_spec(OFFLINE_SAMPLE_RATE as int, bpm as int),
{
    let whole: u32 = 15 * OFFLINE_SAMPLE_RATE;
    (whole / bpm) as usize
}

/// Frames in the offline render of a pattern at `bpm`.
pub fn render_frames(bpm: u32) -> (n: usize)
    requires
        bpm > 0,
    ensures
        n == render_frames_spec(bpm as int),
{
    let whole: u32 = (STEPS as u32) * 15 * OFFLINE_SAMPLE_RATE;
    (whole / bpm) as usize
}

/// The lanes struck at `frame` of the offline render, when each step lasts
/// `step_len` frames: at the first frame of each of the pattern's steps,
/// those on at that step; at any other frame, and at every frame after the
/// last step's length, none. Each step is struck once, in order.
pub fn render_hits(pattern: &Pattern, frame: usize, step_len: usize) -> (hits: Vec<bool>)
    requires
        pattern@.wf(),
        step_len > 0,
    ensures
        hits@.len() == LANES,
        forall|lane: int|
            0 <= lane < LANES ==> #[trigger] hits@[lane] == (frame % step_len == 0 && frame
                / step_len < STEPS && pattern@.on(lane, (frame / step_len) as int)),
{
    let step = frame / step_len;
    let starts = frame % step_len == 0 && step < STEPS;
    let mut hits: Vec<bool> = Vec::new();
    let mut lane: usize = 0;
    while lane < LANES
        invariant
            lane <= LANES,
            pattern@.wf(),
            step == frame / step_len,
            starts == (frame % step_len == 0 && step < STEPS),
            hits@.len() == lane,
            forall|l: int|
                0 <= l < lane ==> #[trigger] hits@[l] == (starts && pattern@.on(l, step as int)),
        decreases LANES - lane,
    {
        hits.push(starts && pattern.is_on(lane, step));
        lane += 1;
    }
    hits
}

/// A step lasts `15 * sample_rate / bpm` samples, rounded down: the rounded
/// length times the tempo falls short of `15 * sample_rate` by less than the
/// tempo. A faster tempo gives a step no longer than a slower one, and over
/// the tempo bounds a step lasts between a twentieth and a half of a second.
pub proof fn lemma_step_length(sample_rate: int, b1: int, b2: int)
    requires
        0 < sample_rate,
        0 < b1 <= b2,
    ensures
        step_samples_spec(sample_rate, b1) * b1 <= 15 * sample_rate < (step_samples_spec(sample_rate, b1) + 1) * b1,
        step_samples_spec(sample_rate, b1) >= step_samples_spec(sample_rate, b2),
        BPM_MIN <= b1 <= BPM_MAX ==> step_samples_spec(sample_rate, BPM_MAX as int) <= step_samples_spec(sample_rate, b1)
            <= step_samples_spec(sample_rate, BPM_MIN as int),
        step_samples_spec(sample_rate, BPM_MAX as int) == sample_rate / 20,
        step_samples_spec(sample_rate, BPM_MIN as int) == sample_rate / 2,
{
    let x = 15 * sample_rate;
    vstd::arithmetic::div_mod::lemma_fundamental_div_mod(x, b1);
    assert(step_samples_spec(sample_rate, b1) * b1 <= x < (step_samples_spec(sample_rate, b1) + 1) * b1) by (nonlinear_arith)
        requires
            x == b1 * (x / b1) + x % b1,
            0 <= x % b1 < b1,
            step_samples_spec(sample_rate, b1) == x / b1,
    ;
    vstd::arithmetic::div_mod::lemma_div_is_ordered_by_denominator(x, b1, b2);
    if BPM_MIN <= b1 <= BPM_MAX {
        vstd::arithmetic::div_mod::lemma_div_is_ordered_by_denominator(x, b1, BPM_MAX as int);
        vstd::arithmetic::div_mod::lemma_div_is_ordered_by_denominator(x, BPM_MIN as int, b1);
    }
    vstd::arithmetic::div_mod::lemma_div_denominator(sample_rate, 15, 20);
    vstd::arithmetic::div_mod::lemma_div_denominator(sample_rate, 15, 2);
    assert(x / 300 == sample_rate / 20) by {
        vstd::arithmetic::div_mod::lemma_div_multiples_vanish_fancy(sample_rate, 0, 15);
        vstd::arithmetic::div_mod::lemma_div_denominator(x, 15, 20);
    }
    assert(x / 30 == sample_rate / 2) by {
        vstd::arithmetic::div_mod::lemma_div_denominator(x, 15, 2);
    }
}

/// The offline render holds the whole pattern: every step begins within it,
/// at a whole multiple of the step length, and it runs on past the last step
/// by less than one frame per step (frames in which no lane is struck, as
/// `render_hits` states).
pub proof fn lemma_render_covers_pattern(bpm: int)
    requires
        BPM_MIN <= bpm <= BPM_MAX,
    ensures
        ({
            let len = step_samples_spec(OFFLINE_SAMPLE_RATE as int, bpm);
            let frames = render_frames_spec(bpm);
            &&& len > 0
            &&& (STEPS as int) * len <= frames
            &&& frames < (STEPS as int) * len + STEPS
        }),
{
    let x = 15 * (OFFLINE_SAMPLE_RATE as int);
    let len = x / bpm;
    let frames = (STEPS as int) * x / bpm;
    let r = x % bpm;
    vstd::arithmetic::div_mod::lemma_fundamental_div_mod(x, bpm);
    assert(x == bpm * len + r);
    assert((STEPS as int) * x == bpm * ((STEPS as int) * len) + (STEPS as int) * r) by (nonlinear_arith)
        requires
            x == bpm * len + r,
    ;
    let q = (STEPS as int) * r / bpm;
    vstd::arithmetic::div_mod::lemma_fundamental_div_mod((STEPS as int) * r, bpm);
    assert((STEPS as int) * x == bpm * ((STEPS as int) * len + q) + (STEPS as int) * r % bpm) by (nonlinear_arith)
        requires
            (STEPS as int) * x == bpm * ((STEPS as int) * len) + (STEPS as int) * r,
            (STEPS as int) * r == bpm * q + (STEPS as int) * r % bpm,
    ;
    vstd::arithmetic::div_mod::lemma_fundamental_div_mod_converse(
        (STEPS as int) * x,
        bpm,
        (STEPS as int) * len + q,
        (STEPS as int) * r % bpm,
    );
    assert(0 <= q < STEPS) by (nonlinear_arith)
        requires
            0 <= r < bpm,
            q == (STEPS as int) * r / bpm,
            bpm > 0,
    {
        assert((STEPS as int) * r < (STEPS as int) * bpm);
        vstd::arithmetic::div_mod::lemma_div_is_ordered((STEPS as int) * r, (STEPS as int) * bpm - 1, bpm);
        vstd::arithmetic::div_mod::lemma_div_multiples_vanish(STEPS as int, bpm);
        vstd::arithmetic::div_mod::lemma_div_pos_is_pos((STEPS as int) * r, bpm);
    }
    assert(len > 0) by {
        vstd::arithmetic::div_mod::lemma_div_is_ordered(BPM_MAX as int, x, bpm);
        vstd::arithmetic::div_mod::lemma_div_is_ordered_by_denominator(BPM_MAX as int, bpm, BPM_MAX as int);
    }
}

} // verus!
