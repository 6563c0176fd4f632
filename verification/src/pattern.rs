use vstd::prelude::*;

use crate::{cell_at, cell_index, BPM_DEFAULT, BPM_MAX, BPM_MIN, CELLS, LANES, STEPS, STEPS_PER_BAR};

verus! {

/// The mathematical content of a pattern: its tempo and its cells, lane after lane.
pub struct PatternModel {
    pub bpm: int,
    pub cells: Seq<bool>,
}

impl PatternModel {
    /// A pattern has every cell of the grid and a tempo within bounds.
    pub open spec fn wf(self) -> bool {
        &&& self.cells.len() == CELLS
        &&& BPM_MIN <= self.bpm <= BPM_MAX
    }

    /// Whether `lane` sounds at `step`.
    pub open spec fn on(self, lane: int, step: int) -> bool {
        self.cells[cell_index(lane, step)]
    }
}

/// The beat a new pattern holds, the same in every bar: a kick on each beat,
/// a snare on beats two and four, a hat on every step, and a rim shot between
/// the beats.
pub open spec fn default_cell(lane: int, step: int) -> bool {
    let s = step % (STEPS_PER_BAR as int);
    if lane == 0 {
        s % 4 == 0
    } else if lane == 1 {
        s == 4 || s == 12
    } else if lane == 2 {
        true
    } else if lane == 5 {
        s % 4 == 2
    } else {
        false
    }
}

/// A tempo and a grid of lanes by steps.
pub struct Pattern {
    bpm: u32,
    cells: Vec<bool>,
}

impl View for Pattern {
    type V = PatternModel;

    closed spec fn view(&self) -> PatternModel {
        PatternModel { bpm: self.bpm as int, cells: self.cells@ }
    }
}

fn default_cell_exec(lane: usize, step: usize) -> (on: bool)
    ensures
        on == default_cell(lane as int, step as int),
{
    let s = step % STEPS_PER_BAR;
    if lane == 0 {
        s % 4 == 0
    } else if lane == 1 {
        s == 4 || s == 12
    } else if lane == 2 {
        true
    } else if lane == 5 {
        s % 4 == 2
    } else {
        false
    }
}

impl Pattern {
    /// The pattern a session starts with: the default beat at the default tempo.
    pub fn default_beat() -> (p: Pattern)
        ensures
            p@.wf(),
            p@.bpm == BPM_DEFAULT,
            forall|lane: int, step: int|
                0 <= lane < LANES && 0 <= step < STEPS ==> #[trigger] p@.on(lane, step)
                    == default_cell(lane, step),
    {
        let mut cells: Vec<bool> = Vec::new();
        let mut lane: usize = 0;
        while lane < LANES
            invariant
                lane <= LANES,
                cells@.len() == lane * STEPS,
                forall|l: int, s: int|
                    0 <= l < lane && 0 <= s < STEPS ==> #[trigger] cells@[cell_index(l, s)]
                        == default_cell(l, s),
            decreases LANES - lane,
        {
            let mut step: usize = 0;
            while step < STEPS
                invariant
                    lane < LANES,
                    step <= STEPS,
                    cells@.len() == lane * STEPS + step,
                    forall|l: int, s: int|
                        ((0 <= l < lane && 0 <= s < STEPS) || (l == lane && 0 <= s < step))
                            ==> #[trigger] cells@[cell_index(l, s)] == default_cell(l, s),
                decreases STEPS - step,
            {
                cells.push(default_cell_exec(lane, step));
                step += 1;
            }
            lane += 1;
        }
        Pattern { bpm: BPM_DEFAULT, cells }
    }

    /// A pattern at `bpm` with every cell silent.
    pub fn silent(bpm: u32) -> (p: Pattern)
        requires
            BPM_MIN <= bpm <= BPM_MAX,
        ensures
            p@.wf(),
            p@.bpm == bpm,
            p@.cells == Seq::new(CELLS as nat, |i: int| false),
    {
        let mut cells: Vec<bool> = Vec::new();
        let mut i: usize = 0;
        while i < CELLS
            invariant
                i <= CELLS,
                cells@ == Seq::new(i as nat, |k: int| false),
            decreases CELLS - i,
        {
            cells.push(false);
            i += 1;
        }
        Pattern { bpm, cells }
    }

    /// The tempo, in beats per minute.
    pub fn bpm(&self) -> (bpm: u32)
        ensures
            bpm == self@.bpm,
    {
        self.bpm
    }

    /// Whether `lane` sounds at `step`.
    pub fn is_on(&self, lane: usize, step: usize) -> (on: bool)
        requires
            self@.wf(),
            lane < LANES,
            step < STEPS,
        ensures
            on == self@.on(lane as int, step as int),
    {
        self.cells[cell_at(lane, step)]
    }

    /// Sets the cell of `lane` at `step`, and nothing else.
    pub fn set(&mut self, lane: usize, step: usize, on: bool)
        requires
            old(self)@.wf(),
            lane < LANES,
            step < STEPS,
        ensures
            final(self)@ == (PatternModel {
                bpm: old(self)@.bpm,
                cells: old(self)@.cells.update(cell_index(lane as int, step as int), on),
            }),
            final(self)@.wf(),
    {
        let i = cell_at(lane, step);
        self.cells.set(i, on);
    }

    /// Changes the tempo, and nothing else.
    pub fn set_bpm(&mut self, bpm: u32)
        requires
            old(self)@.wf(),
            BPM_MIN <= bpm <= BPM_MAX,
        ensures
            final(self)@ == (PatternModel { bpm: bpm as int, cells: old(self)@.cells }),
            final(self)@.wf(),
    {
        self.bpm = bpm;
    }
}

} // verus!
