use vstd::prelude::*;

use crate::engine::EngineCmd;
use crate::pattern::{default_cell, Pattern, PatternModel};
use crate::{
    cell_index, BPM_DEFAULT, BPM_MAX, BPM_MIN, GAIN_DEFAULT, GAIN_MAX, GAIN_STEP, LANES, STEPS,
};

verus! {

/// A key of the keyboard, as far as the editor tells keys apart.
#[derive(Clone, Copy, Debug, PartialEq, Eq)]
pub enum Key {
    Char(char),
    Up,
    Down,
    Left,
    Right,
    Other,
}

/// A key press: the key, and whether Control, and no other modifier, was held.
#[derive(Clone, Copy, Debug, PartialEq, Eq)]
pub struct KeyPress {
    pub key: Key,
    pub control_only: bool,
}

/// What a key press asks of the editor.
#[derive(Clone, Copy, Debug, PartialEq, Eq, Structural)]
pub enum Action {
    Quit,
    TogglePlay,
    LaneUp,
    LaneDown,
    StepLeft,
    StepRight,
    ToggleStep,
    TempoUp,
    TempoDown,
    GainUp,
    GainDown,
    Render,
    Ignore,
}

/// What the caller is to do after a key press.
#[derive(Clone, Copy, Debug, PartialEq, Eq, Structural)]
pub enum KeyOutcome {
    /// Leave the editor.
    Quit,
    /// Tell the audio engine.
    Send(EngineCmd),
    /// Render the pattern to a wave file.
    RenderWav,
    /// Nothing more.
    Nothing,
}

/// The key map: `q` or Control-`c` quits, `p` plays or stops, the arrows move
/// the cursor, space toggles the cell under it, `+` (or `=`) and `-` change
/// the tempo, `]` and `[` the master gain, and `r` renders.
pub open spec fn action_of(k: KeyPress) -> Action {
    match k.key {
        Key::Char(c) => {
            if c == 'q' {
                Action::Quit
            } else if c == 'c' && k.control_only {
                Action::Quit
            } else if c == 'p' {
                Action::TogglePlay
            } else if c == ' ' {
                Action::ToggleStep
            } else if c == '+' || c == '=' {
                Action::TempoUp
            } else if c == '-' {
                Action::TempoDown
            } else if c == ']' {
                Action::GainUp
            } else if c == '[' {
                Action::GainDown
            } else if c == 'r' {
                Action::Render
            } else {
                Action::Ignore
            }
        },
        Key::Up => Action::LaneUp,
        Key::Down => Action::LaneDown,
        Key::Left => Action::StepLeft,
        Key::Right => Action::StepRight,
        Key::Other => Action::Ignore,
    }
}

/// The mathematical state of the editor.
pub struct SequencerModel {
    pub pattern: PatternModel,
    pub playing: bool,
    pub gain: int,
    pub cursor_lane: int,
    pub cursor_step: int,
}

impl SequencerModel {
    /// The pattern is well formed, the gain is in range and the cursor is on the grid.
    pub open spec fn wf(self) -> bool {
        &&& self.pattern.wf()
        &&& 0 <= self.gain <= GAIN_MAX
        &&& 0 <= self.cursor_lane < LANES
        &&& 0 <= self.cursor_step < STEPS
    }
}

/// The effect of an action on the editor, and what the caller is to do.
///
/// The cursor stops at the edges of the grid, the tempo at its bounds and the
/// gain at silence and at full gain. Each change of what is heard is told to
/// the engine with its new value.
pub open spec fn step_spec(m: SequencerModel, a: Action) -> (SequencerModel, KeyOutcome) {
    match a {
        Action::Quit => (m, KeyOutcome::Quit),
        Action::TogglePlay => (
            SequencerModel { playing: !m.playing, ..m },
            KeyOutcome::Send(EngineCmd::SetPlaying(!m.playing)),
        ),
        Action::LaneUp => (
            SequencerModel { cursor_lane: if m.cursor_lane > 0 { m.cursor_lane - 1 } else { 0 }, ..m },
            KeyOutcome::Nothing,
        ),
        Action::LaneDown => (
            SequencerModel {
                cursor_lane: if m.cursor_lane + 1 < LANES { m.cursor_lane + 1 } else { LANES - 1 },
                ..m
            },
            KeyOutcome::Nothing,
        ),
        Action::StepLeft => (
            SequencerModel { cursor_step: if m.cursor_step > 0 { m.cursor_step - 1 } else { 0 }, ..m },
            KeyOutcome::Nothing,
        ),
        Action::StepRight => (
            SequencerModel {
                cursor_step: if m.cursor_step + 1 < STEPS { m.cursor_step + 1 } else { STEPS - 1 },
                ..m
            },
            KeyOutcome::Nothing,
        ),
        Action::ToggleStep => {
            let on = !m.pattern.on(m.cursor_lane, m.cursor_step);
            (
                SequencerModel {
                    pattern: PatternModel {
                        bpm: m.pattern.bpm,
                        cells: m.pattern.cells.update(cell_index(m.cursor_lane, m.cursor_step), on),
                    },
                    ..m
                },
                KeyOutcome::Send(
                    EngineCmd::ToggleStep {
                        lane: m.cursor_lane as usize,
                        step: m.cursor_step as usize,
                        on,
                    },
                ),
            )
        },
        Action::TempoUp => {
            let b = if m.pattern.bpm + 1 < BPM_MAX { m.pattern.bpm + 1 } else { BPM_MAX as int };
            (
                SequencerModel { pattern: PatternModel { bpm: b, cells: m.pattern.cells }, ..m },
                KeyOutcome::Send(EngineCmd::SetBpm(b as u32)),
            )
        },
        Action::TempoDown => {
            let b = if m.pattern.bpm - 1 > BPM_MIN { m.pattern.bpm - 1 } else { BPM_MIN as int };
            (
                SequencerModel { pattern: PatternModel { bpm: b, cells: m.pattern.cells }, ..m },
                KeyOutcome::Send(EngineCmd::SetBpm(b as u32)),
            )
        },
        Action::GainUp => {
            let g = if m.gain + GAIN_STEP < GAIN_MAX { m.gain + GAIN_STEP } else { GAIN_MAX as int };
            (SequencerModel { gain: g, ..m }, KeyOutcome::Send(EngineCmd::SetMasterGain(g as u32)))
        },
        Action::GainDown => {
            let g = if m.gain > GAIN_STEP { m.gain - GAIN_STEP } else { 0 };
            (SequencerModel { gain: g, ..m }, KeyOutcome::Send(EngineCmd::SetMasterGain(g as u32)))
        },
        Action::Render => (m, KeyOutcome::RenderWav),
        Action::Ignore => (m, KeyOutcome::Nothing),
    }
}


/// Pressing space twice on the same cell leaves the editor as it was, and the
/// second press tells the engine the cell's first value again.
pub proof fn lemma_toggle_twice(m: SequencerModel)
    requires
        m.wf(),
    ensures
        step_spec(step_spec(m, Action::ToggleStep).0, Action::ToggleStep).0 == m,
        step_spec(step_spec(m, Action::ToggleStep).0, Action::ToggleStep).1 == KeyOutcome::Send(
            EngineCmd::ToggleStep {
                lane: m.cursor_lane as usize,
                step: m.cursor_step as usize,
                on: m.pattern.on(m.cursor_lane, m.cursor_step),
            },
        ),
{
    let m1 = step_spec(m, Action::ToggleStep).0;
    let i = cell_index(m.cursor_lane, m.cursor_step);
    assert(m1.pattern.cells.update(i, m.pattern.cells[i]) == m.pattern.cells);
}

/// Away from the last step, moving right and then left returns the cursor;
/// away from the last lane, moving down and then up does too.
pub proof fn lemma_moves_undo(m: SequencerModel)
    requires
        m.wf(),
    ensures
        m.cursor_step + 1 < STEPS ==> step_spec(step_spec(m, Action::StepRight).0, Action::StepLeft).0 == m,
        m.cursor_lane + 1 < LANES ==> step_spec(step_spec(m, Action::LaneDown).0, Action::LaneUp).0 == m,
        m.cursor_step > 0 ==> step_spec(step_spec(m, Action::StepLeft).0, Action::StepRight).0 == m,
        m.cursor_lane > 0 ==> step_spec(step_spec(m, Action::LaneUp).0, Action::LaneDown).0 == m,
{
}

/// Below the fastest tempo, a tempo step up is undone by a step down; above
/// the slowest, a step down is undone by a step up. Likewise for the gain,
/// while a whole gain step fits.
pub proof fn lemma_adjustments_undo(m: SequencerModel)
    requires
        m.wf(),
    ensures
        m.pattern.bpm < BPM_MAX ==> step_spec(step_spec(m, Action::TempoUp).0, Action::TempoDown).0 == m,
        m.pattern.bpm > BPM_MIN ==> step_spec(step_spec(m, Action::TempoDown).0, Action::TempoUp).0 == m,
        m.gain + GAIN_STEP <= GAIN_MAX ==> step_spec(step_spec(m, Action::GainUp).0, Action::GainDown).0 == m,
        m.gain >= GAIN_STEP ==> step_spec(step_spec(m, Action::GainDown).0, Action::GainUp).0 == m,
{
}


/// Only the cursor differs between two editor states.
pub open spec fn same_but_cursor(a: SequencerModel, b: SequencerModel) -> bool {
    &&& a.pattern == b.pattern
    &&& a.playing == b.playing
    &&& a.gain == b.gain
}

/// Each arrow moves the cursor by exactly one lane or one step in its
/// direction, stays put at the grid's edge, changes nothing else, and tells
/// the engine nothing.
pub proof fn lemma_cursor_moves(m: SequencerModel)
    requires
        m.wf(),
    ensures
        ({
            let (n, out) = step_spec(m, Action::LaneDown);
            &&& out == KeyOutcome::Nothing
            &&& same_but_cursor(n, m)
            &&& n.cursor_step == m.cursor_step
            &&& m.cursor_lane + 1 < LANES ==> n.cursor_lane == m.cursor_lane + 1
            &&& m.cursor_lane + 1 == LANES ==> n.cursor_lane == m.cursor_lane
        }),
        ({
            let (n, out) = step_spec(m, Action::LaneUp);
            &&& out == KeyOutcome::Nothing
            &&& same_but_cursor(n, m)
            &&& n.cursor_step == m.cursor_step
            &&& m.cursor_lane > 0 ==> n.cursor_lane == m.cursor_lane - 1
            &&& m.cursor_lane == 0 ==> n.cursor_lane == 0
        }),
        ({
            let (n, out) = step_spec(m, Action::StepRight);
            &&& out == KeyOutcome::Nothing
            &&& same_but_cursor(n, m)
            &&& n.cursor_lane == m.cursor_lane
            &&& m.cursor_step + 1 < STEPS ==> n.cursor_step == m.cursor_step + 1
            &&& m.cursor_step + 1 == STEPS ==> n.cursor_step == m.cursor_step
        }),
        ({
            let (n, out) = step_spec(m, Action::StepLeft);
            &&& out == KeyOutcome::Nothing
            &&& same_but_cursor(n, m)
            &&& n.cursor_lane == m.cursor_lane
            &&& m.cursor_step > 0 ==> n.cursor_step == m.cursor_step - 1
            &&& m.cursor_step == 0 ==> n.cursor_step == 0
        }),
{
}

/// `+` raises the tempo by exactly one beat per minute and `-` lowers it by
/// exactly one, each staying put at its bound; `]` raises the gain by
/// exactly one gain step and `[` lowers it by one, stopping at full gain and
/// at silence. Each changes nothing else and tells the engine the new value.
pub proof fn lemma_adjustments(m: SequencerModel)
    requires
        m.wf(),
    ensures
        ({
            let (n, out) = step_spec(m, Action::TempoUp);
            &&& n.pattern.cells == m.pattern.cells
            &&& n.playing == m.playing && n.gain == m.gain
            &&& n.cursor_lane == m.cursor_lane && n.cursor_step == m.cursor_step
            &&& m.pattern.bpm < BPM_MAX ==> n.pattern.bpm == m.pattern.bpm + 1
            &&& m.pattern.bpm == BPM_MAX ==> n.pattern.bpm == m.pattern.bpm
            &&& out == KeyOutcome::Send(EngineCmd::SetBpm(n.pattern.bpm as u32))
        }),
        ({
            let (n, out) = step_spec(m, Action::TempoDown);
            &&& n.pattern.cells == m.pattern.cells
            &&& n.playing == m.playing && n.gain == m.gain
            &&& n.cursor_lane == m.cursor_lane && n.cursor_step == m.cursor_step
            &&& m.pattern.bpm > BPM_MIN ==> n.pattern.bpm == m.pattern.bpm - 1
            &&& m.pattern.bpm == BPM_MIN ==> n.pattern.bpm == m.pattern.bpm
            &&& out == KeyOutcome::Send(EngineCmd::SetBpm(n.pattern.bpm as u32))
        }),
        ({
            let (n, out) = step_spec(m, Action::GainUp);
            &&& n.pattern == m.pattern && n.playing == m.playing
            &&& n.cursor_lane == m.cursor_lane && n.cursor_step == m.cursor_step
            &&& m.gain + GAIN_STEP <= GAIN_MAX ==> n.gain == m.gain + GAIN_STEP
            &&& m.gain + GAIN_STEP > GAIN_MAX ==> n.gain == GAIN_MAX
            &&& out == KeyOutcome::Send(EngineCmd::SetMasterGain(n.gain as u32))
        }),
        ({
            let (n, out) = step_spec(m, Action::GainDown);
            &&& n.pattern == m.pattern && n.playing == m.playing
            &&& n.cursor_lane == m.cursor_lane && n.cursor_step == m.cursor_step
            &&& m.gain >= GAIN_STEP ==> n.gain == m.gain - GAIN_STEP
            &&& m.gain < GAIN_STEP ==> n.gain == 0
            &&& out == KeyOutcome::Send(EngineCmd::SetMasterGain(n.gain as u32))
        }),
{
}

/// Space flips the cell under the cursor and no other cell, and tells the
/// engine that cell's new value; `p` flips playback and tells the engine;
/// `q` quits, `r` asks for a render, and an unmapped key does nothing, all
/// three leaving the editor as it was.
pub proof fn lemma_edits(m: SequencerModel)
    requires
        m.wf(),
    ensures
        ({
            let (n, out) = step_spec(m, Action::ToggleStep);
            &&& n.pattern.bpm == m.pattern.bpm
            &&& n.pattern.cells.len() == m.pattern.cells.len()
            &&& n.pattern.on(m.cursor_lane, m.cursor_step) == !m.pattern.on(m.cursor_lane, m.cursor_step)
            &&& forall|lane: int, step: int|
                0 <= lane < LANES && 0 <= step < STEPS && (lane != m.cursor_lane || step != m.cursor_step)
                    ==> #[trigger] n.pattern.on(lane, step) == m.pattern.on(lane, step)
            &&& n.playing == m.playing && n.gain == m.gain
            &&& n.cursor_lane == m.cursor_lane && n.cursor_step == m.cursor_step
            &&& out == KeyOutcome::Send(
                EngineCmd::ToggleStep {
                    lane: m.cursor_lane as usize,
                    step: m.cursor_step as usize,
                    on: n.pattern.on(m.cursor_lane, m.cursor_step),
                },
            )
        }),
        ({
            let (n, out) = step_spec(m, Action::TogglePlay);
            &&& n.playing == !m.playing
            &&& n.pattern == m.pattern && n.gain == m.gain
            &&& n.cursor_lane == m.cursor_lane && n.cursor_step == m.cursor_step
            &&& out == KeyOutcome::Send(EngineCmd::SetPlaying(n.playing))
        }),
        step_spec(m, Action::Quit) == (m, KeyOutcome::Quit),
        step_spec(m, Action::Render) == (m, KeyOutcome::RenderWav),
        step_spec(m, Action::Ignore) == (m, KeyOutcome::Nothing),
{
    let (n, out) = step_spec(m, Action::ToggleStep);
    assert forall|lane: int, step: int|
        0 <= lane < LANES && 0 <= step < STEPS && (lane != m.cursor_lane || step != m.cursor_step)
            implies #[trigger] n.pattern.on(lane, step) == m.pattern.on(lane, step) by {
        assert(cell_index(lane, step) != cell_index(m.cursor_lane, m.cursor_step));
    }
}

/// The editor: the pattern, whether it plays, the master gain and the cursor.
pub struct Sequencer {
    pattern: Pattern,
    playing: bool,
    master_gain: u32,
    cursor_lane: usize,
    cursor_step: usize,
}

impl View for Sequencer {
    type V = SequencerModel;

    closed spec fn view(&self) -> SequencerModel {
        SequencerModel {
            pattern: self.pattern@,
            playing: self.playing,
            gain: self.master_gain as int,
            cursor_lane: self.cursor_lane as int,
            cursor_step: self.cursor_step as int,
        }
    }
}

/// The action a key press asks for.
pub fn action_for(k: KeyPress) -> (a: Action)
    ensures
        a == action_of(k),
{
    match k.key {
        Key::Char(c) => {
            if c == 'q' {
                Action::Quit
            } else if c == 'c' && k.control_only {
                Action::Quit
            } else if c == 'p' {
                Action::TogglePlay
            } else if c == ' ' {
                Action::ToggleStep
            } else if c == '+' || c == '=' {
                Action::TempoUp
            } else if c == '-' {
                Action::TempoDown
            } else if c == ']' {
                Action::GainUp
            } else if c == '[' {
                Action::GainDown
            } else if c == 'r' {
                Action::Render
            } else {
                Action::Ignore
            }
        },
        Key::Up => Action::LaneUp,
        Key::Down => Action::LaneDown,
        Key::Left => Action::StepLeft,
        Key::Right => Action::StepRight,
        Key::Other => Action::Ignore,
    }
}

impl Sequencer {
    /// The editor at start: the default beat at the default tempo, stopped,
    /// at the default gain, with the cursor on the first step of the first lane.
    pub fn new() -> (s: Sequencer)
        ensures
            s@.wf(),
            s@.pattern.bpm == BPM_DEFAULT,
            forall|lane: int, step: int|
                0 <= lane < LANES && 0 <= step < STEPS ==> #[trigger] s@.pattern.on(lane, step)
                    == default_cell(lane, step),
            !s@.playing,
            s@.gain == GAIN_DEFAULT,
            s@.cursor_lane == 0,
            s@.cursor_step == 0,
    {
        Sequencer {
            pattern: Pattern::default_beat(),
            playing: false,
            master_gain: GAIN_DEFAULT,
            cursor_lane: 0,
            cursor_step: 0,
        }
    }

    /// The pattern being edited.
    pub fn pattern(&self) -> (p: &Pattern)
        ensures
            p@ == self@.pattern,
    {
        &self.pattern
    }

    /// Whether playback is on.
    pub fn is_playing(&self) -> (playing: bool)
        ensures
            playing == self@.playing,
    {
        self.playing
    }

    /// The master gain, in hundredths.
    pub fn master_gain(&self) -> (gain: u32)
        ensures
            gain == self@.gain,
    {
        self.master_gain
    }

    /// The lane under the cursor.
    pub fn cursor_lane(&self) -> (lane: usize)
        ensures
            lane == self@.cursor_lane,
    {
        self.cursor_lane
    }

    /// The step under the cursor.
    pub fn cursor_step(&self) -> (step: usize)
        ensures
            step == self@.cursor_step,
    {
        self.cursor_step
    }

    /// Carries out an action.
    pub fn apply(&mut self, a: Action) -> (out: KeyOutcome)
        requires
            old(self)@.wf(),
        ensures
            (final(self)@, out) == step_spec(old(self)@, a),
            final(self)@.wf(),
    {
        match a {
            Action::Quit => KeyOutcome::Quit,
            Action::TogglePlay => {
                self.playing = !self.playing;
                KeyOutcome::Send(EngineCmd::SetPlaying(self.playing))
            },
            Action::LaneUp => {
                if self.cursor_lane > 0 {
                    self.cursor_lane = self.cursor_lane - 1;
                }
                KeyOutcome::Nothing
            },
            Action::LaneDown => {
                if self.cursor_lane + 1 < LANES {
                    self.cursor_lane = self.cursor_lane + 1;
                }
                KeyOutcome::Nothing
            },
            Action::StepLeft => {
                if self.cursor_step > 0 {
                    self.cursor_step = self.cursor_step - 1;
                }
                KeyOutcome::Nothing
            },
            Action::StepRight => {
                if self.cursor_step + 1 < STEPS {
                    self.cursor_step = self.cursor_step + 1;
                }
                KeyOutcome::Nothing
            },
            Action::ToggleStep => {
                let lane = self.cursor_lane;
                let step = self.cursor_step;
                let on = !self.pattern.is_on(lane, step);
                self.pattern.set(lane, step, on);
                KeyOutcome::Send(EngineCmd::ToggleStep { lane, step, on })
            },
            Action::TempoUp => {
                let cur = self.pattern.bpm();
                let b = if cur + 1 < BPM_MAX {
                    cur + 1
                } else {
                    BPM_MAX
                };
                self.pattern.set_bpm(b);
                KeyOutcome::Send(EngineCmd::SetBpm(b))
            },
            Action::TempoDown => {
                let cur = self.pattern.bpm();
                let b = if cur - 1 > BPM_MIN {
                    cur - 1
                } else {
                    BPM_MIN
                };
                self.pattern.set_bpm(b);
                KeyOutcome::Send(EngineCmd::SetBpm(b))
            },
            Action::GainUp => {
                let g = if self.master_gain + GAIN_STEP < GAIN_MAX {
                    self.master_gain + GAIN_STEP
                } else {
                    GAIN_MAX
                };
                self.master_gain = g;
                KeyOutcome::Send(EngineCmd::SetMasterGain(g))
            },
            Action::GainDown => {
                let g = if self.master_gain > GAIN_STEP {
                    self.master_gain - GAIN_STEP
                } else {
                    0
                };
                self.master_gain = g;
                KeyOutcome::Send(EngineCmd::SetMasterGain(g))
            },
            Action::Render => KeyOutcome::RenderWav,
            Action::Ignore => KeyOutcome::Nothing,
        }
    }

    /// Handles a key press: the action the key map gives it, carried out.
    pub fn handle_key(&mut self, k: KeyPress) -> (out: KeyOutcome)
        requires
            old(self)@.wf(),
        ensures
            (final(self)@, out) == step_spec(old(self)@, action_of(k)),
            final(self)@.wf(),
    {
        let a = action_for(k);
        self.apply(a)
    }
}

} // verus!
