//! The verified core of a terminal step sequencer: the pattern grid, the
//! editor's key handling, the audio engine's command handling and step clock,
//! the grid view's layout, and the schedule of the offline renderer.
//!
//! Time is kept in exact integer units throughout: a tempo is a whole number
//! of beats per minute and a master gain a whole number of hundredths.
use vstd::prelude::*;

pub mod engine;
pub mod offline;
pub mod pattern;
pub mod sequencer;
pub mod sync;
pub mod view;
pub mod voice;

verus! {

/// Steps in one beat (a step is a sixteenth note).
pub const STEPS_PER_BEAT: usize = 4;

/// Steps in one bar of four beats.
pub const STEPS_PER_BAR: usize = 16;

/// Bars in a pattern.
pub const BARS: usize = 16;

/// Steps in a pattern: `BARS` bars of `STEPS_PER_BAR` steps.
pub const STEPS: usize = 256;

/// Lanes (instruments) in a pattern: kick, snare, hat, clap, tom, rim.
pub const LANES: usize = 6;

/// Cells of the grid, `LANES` lanes of `STEPS` steps, lane after lane.
pub const CELLS: usize = 1536;

/// Slowest tempo, in beats per minute.
pub const BPM_MIN: u32 = 30;

/// Fastest tempo, in beats per minute.
pub const BPM_MAX: u32 = 300;

/// Tempo of a new pattern.
pub const BPM_DEFAULT: u32 = 120;

/// Full master gain, in hundredths.
pub const GAIN_MAX: u32 = 100;

/// Master gain at start, in hundredths.
pub const GAIN_DEFAULT: u32 = 80;

/// Change of master gain per key press, in hundredths.
pub const GAIN_STEP: u32 = 5;

/// Where the cell of `lane` at `step` stands in the flattened grid.
pub open spec fn cell_index(lane: int, step: int) -> int {
    lane * STEPS + step
}

/// The flattened index of a cell.
pub fn cell_at(lane: usize, step: usize) -> (i: usize)
    requires
        lane < LANES,
        step < STEPS,
    ensures
        i == cell_index(lane as int, step as int),
        i < CELLS,
{
    lane * STEPS + step
}

} // verus!
