use vstd::prelude::*;

use crate::sequencer::Sequencer;
use crate::{BARS, LANES, STEPS, STEPS_PER_BAR, STEPS_PER_BEAT};

verus! {

/// Columns one bar takes in the grid together with the bar mark before it:
/// two per step, two per beat mark within the bar, and two for the bar mark.
/// The first bar shown has no bar mark, so `n` bars take `n * BAR_COLUMNS -
/// BAR_MARK_COLUMNS` columns.
pub const BAR_COLUMNS: usize = 40;

/// Columns a bar mark takes.
pub const BAR_MARK_COLUMNS: usize = 2;

/// Columns that `n` whole bars take, side by side.
pub open spec fn bars_columns(n: int) -> int {
    n * BAR_COLUMNS - BAR_MARK_COLUMNS
}

/// Columns the border of a panel takes.
pub const BORDER_COLUMNS: u16 = 2;

/// Where the playhead stands: the step, and the bar, beat and step within
/// the beat, each counted from zero.
#[derive(Clone, Copy, Debug, PartialEq, Eq)]
pub struct Position {
    pub step: usize,
    pub bar: usize,
    pub beat: usize,
    pub sub: usize,
}

/// The position of a playhead count, taken around the pattern.
pub fn position(playhead: usize) -> (p: Position)
    ensures
        p.step == playhead % STEPS,
        p.bar == p.step / STEPS_PER_BAR,
        p.beat == (p.step % STEPS_PER_BAR) / STEPS_PER_BEAT,
        p.sub == p.step % STEPS_PER_BEAT,
        p.step == p.bar * STEPS_PER_BAR + p.beat * STEPS_PER_BEAT + p.sub,
        p.bar < BARS,
        p.beat < STEPS_PER_BAR / STEPS_PER_BEAT,
        p.sub < STEPS_PER_BEAT,
{
    let step = playhead % STEPS;
    let bar = (step / STEPS_PER_BAR) % BARS;
    let beat = (step % STEPS_PER_BAR) / STEPS_PER_BEAT;
    let sub = step % STEPS_PER_BEAT;
    Position { step, bar, beat, sub }
}

/// How many whole bars a grid panel `width` columns wide shows: as many as
/// fit inside its border, at least one and at most all.
pub open spec fn bars_fitting(width: int) -> int {
    let inner = if width > BORDER_COLUMNS { width - BORDER_COLUMNS } else { 0 };
    let n = (inner + BAR_MARK_COLUMNS) / (BAR_COLUMNS as int);
    if n < 1 {
        1
    } else if n > BARS {
        BARS as int
    } else {
        n
    }
}


/// The grid shows as many whole bars as fit inside the panel's border: the
/// bars shown fit, unless only one is shown, and one more would not fit,
/// unless every bar is shown.
pub proof fn lemma_bars_fit(width: int)
    requires
        0 <= width,
    ensures
        ({
            let n = bars_fitting(width);
            let inner = if width > BORDER_COLUMNS { width - BORDER_COLUMNS } else { 0 };
            &&& 1 <= n <= BARS
            &&& n == 1 || bars_columns(n) <= inner
            &&& n == BARS || inner < bars_columns(n + 1)
        }),
{
    let inner = if width > BORDER_COLUMNS { width - BORDER_COLUMNS } else { 0 };
    vstd::arithmetic::div_mod::lemma_fundamental_div_mod(inner + BAR_MARK_COLUMNS, BAR_COLUMNS as int);
}

/// The bars a grid panel shows, first and last, and the steps from
/// `start_step` up to, not including, `end_step`.
#[derive(Clone, Copy, Debug, PartialEq, Eq)]
pub struct ViewWindow {
    pub start_bar: usize,
    pub end_bar: usize,
    pub start_step: usize,
    pub end_step: usize,
}

/// The bars shown around the cursor: as many as fit, with the cursor's bar
/// in the middle where the pattern's ends allow.
pub open spec fn window_spec(width: int, cursor_step: int) -> ViewWindow {
    let n = bars_fitting(width);
    let cursor_bar = if cursor_step / (STEPS_PER_BAR as int) < BARS {
        cursor_step / (STEPS_PER_BAR as int)
    } else {
        BARS - 1
    };
    let half = n / 2;
    let centered = if cursor_bar > half { cursor_bar - half } else { 0 };
    let start = if centered < BARS - n { centered } else { BARS - n };
    ViewWindow {
        start_bar: start as usize,
        end_bar: (start + n - 1) as usize,
        start_step: (start * STEPS_PER_BAR) as usize,
        end_step: ((start + n) * STEPS_PER_BAR) as usize,
    }
}

/// The window a grid panel `width` columns wide shows, around `cursor_step`.
pub fn view_window(width: u16, cursor_step: usize) -> (w: ViewWindow)
    ensures
        w == window_spec(width as int, cursor_step as int),
        w.start_bar <= w.end_bar < BARS,
        w.end_bar - w.start_bar + 1 == bars_fitting(width as int),
        w.start_step == w.start_bar * STEPS_PER_BAR,
        w.end_step == (w.end_bar + 1) * STEPS_PER_BAR,
        w.end_step <= STEPS,
        cursor_step < STEPS ==> w.start_step <= cursor_step < w.end_step,
{
    let inner: usize = if width > BORDER_COLUMNS {
        (width - BORDER_COLUMNS) as usize
    } else {
        0
    };
    let fit = (inner + BAR_MARK_COLUMNS) / BAR_COLUMNS;
    let n: usize = if fit < 1 {
        1
    } else if fit > BARS {
        BARS
    } else {
        fit
    };
    let whole = cursor_step / STEPS_PER_BAR;
    let cursor_bar = if whole < BARS {
        whole
    } else {
        BARS - 1
    };
    let half = n / 2;
    let centered = if cursor_bar > half {
        cursor_bar - half
    } else {
        0
    };
    let start = if centered < BARS - n {
        centered
    } else {
        BARS - n
    };
    ViewWindow {
        start_bar: start,
        end_bar: start + n - 1,
        start_step: start * STEPS_PER_BAR,
        end_step: (start + n) * STEPS_PER_BAR,
    }
}

/// The mark drawn before a column of the grid.
#[derive(Clone, Copy, Debug, PartialEq, Eq, Structural)]
pub enum Separator {
    Blank,
    Beat,
    Bar,
}

/// No mark before the first column shown; a bar mark before the first step
/// of a bar; a beat mark before the first step of any other beat.
pub open spec fn separator_spec(step: int, start_step: int) -> Separator {
    if step <= start_step {
        Separator::Blank
    } else if step % (STEPS_PER_BAR as int) == 0 {
        Separator::Bar
    } else if step % (STEPS_PER_BEAT as int) == 0 {
        Separator::Beat
    } else {
        Separator::Blank
    }
}

/// The mark before the column of `step`, in a window starting at `start_step`.
pub fn separator_before(step: usize, start_step: usize) -> (s: Separator)
    ensures
        s == separator_spec(step as int, start_step as int),
{
    if step <= start_step {
        Separator::Blank
    } else if step % STEPS_PER_BAR == 0 {
        Separator::Bar
    } else if step % STEPS_PER_BEAT == 0 {
        Separator::Beat
    } else {
        Separator::Blank
    }
}

/// The ruler labels the first step of each beat with the beat's number
/// within its bar, counted from one.
pub open spec fn ruler_label_spec(step: int) -> Option<usize> {
    if step % (STEPS_PER_BEAT as int) == 0 {
        Some(((step % (STEPS_PER_BAR as int)) / (STEPS_PER_BEAT as int) + 1) as usize)
    } else {
        None
    }
}

/// The ruler's label above `step`, if any.
pub fn ruler_label(step: usize) -> (label: Option<usize>)
    ensures
        label == ruler_label_spec(step as int),
{
    if step % STEPS_PER_BEAT == 0 {
        Some((step % STEPS_PER_BAR) / STEPS_PER_BEAT + 1)
    } else {
        None
    }
}


/// In any window, a column after the first shown that begins a bar has a bar
/// mark, one that begins any other beat has a beat mark, and every other
/// column has none. The ruler labels exactly the first step of each beat,
/// with the beat's number within its bar, from one to four.
pub proof fn lemma_marks(step: int, start_step: int)
    requires
        0 <= step,
    ensures
        step > start_step && step % (STEPS_PER_BAR as int) == 0 ==> separator_spec(step, start_step) == Separator::Bar,
        step > start_step && step % (STEPS_PER_BEAT as int) == 0 && step % (STEPS_PER_BAR as int) != 0
            ==> separator_spec(step, start_step) == Separator::Beat,
        step <= start_step || step % (STEPS_PER_BEAT as int) != 0 ==> separator_spec(step, start_step)
            == Separator::Blank,
        step % (STEPS_PER_BEAT as int) != 0 ==> ruler_label_spec(step) == None::<usize>,
        step % (STEPS_PER_BEAT as int) == 0 ==> ruler_label_spec(step) is Some,
        ruler_label_spec(step) matches Some(k) ==> 1 <= k <= 4 && step % (STEPS_PER_BAR as int) == (k - 1)
            * (STEPS_PER_BEAT as int),
{
    if step % (STEPS_PER_BAR as int) == 0 {
        assert(step % (STEPS_PER_BEAT as int) == 0);
    }
    if step % (STEPS_PER_BEAT as int) != 0 {
        assert(step % (STEPS_PER_BAR as int) != 0);
    }
    if step % (STEPS_PER_BEAT as int) == 0 {
        let r = step % (STEPS_PER_BAR as int);
        let k = r / (STEPS_PER_BEAT as int) + 1;
        assert(r % 4 == 0);
        assert(step % (STEPS_PER_BAR as int) == (k - 1) * (STEPS_PER_BEAT as int));
    }
}

/// One column of the ruler.
#[derive(Clone, Copy, Debug, PartialEq, Eq)]
pub struct RulerMark {
    pub separator: Separator,
    pub label: Option<usize>,
}

/// The ruler over the steps of a window.
pub fn ruler(w: ViewWindow) -> (marks: Vec<RulerMark>)
    requires
        w.start_step <= w.end_step,
    ensures
        marks@.len() == w.end_step - w.start_step,
        forall|i: int|
            0 <= i < marks@.len() ==> #[trigger] marks@[i] == (RulerMark {
                separator: separator_spec(w.start_step + i, w.start_step as int),
                label: ruler_label_spec(w.start_step + i),
            }),
{
    let mut marks: Vec<RulerMark> = Vec::new();
    let mut st = w.start_step;
    while st < w.end_step
        invariant
            w.start_step <= st <= w.end_step,
            marks@.len() == st - w.start_step,
            forall|i: int|
                0 <= i < marks@.len() ==> #[trigger] marks@[i] == (RulerMark {
                    separator: separator_spec(w.start_step + i, w.start_step as int),
                    label: ruler_label_spec(w.start_step + i),
                }),
        decreases w.end_step - st,
    {
        marks.push(RulerMark { separator: separator_before(st, w.start_step), label: ruler_label(st) });
        st += 1;
    }
    marks
}

/// One cell of the grid as shown: the mark before it, whether it is on,
/// whether the cursor is on it and whether the playhead is.
#[derive(Clone, Copy, Debug, PartialEq, Eq)]
pub struct Cell {
    pub separator: Separator,
    pub on: bool,
    pub cursor: bool,
    pub playhead: bool,
}

impl Sequencer {
    /// The cells of `lane` over the steps of a window, with the playhead at
    /// `playhead_step`; the playhead shows only while playback is on.
    pub fn row(&self, lane: usize, w: ViewWindow, playhead_step: usize) -> (cells: Vec<Cell>)
        requires
            self@.wf(),
            lane < LANES,
            w.start_step <= w.end_step <= STEPS,
        ensures
            cells@.len() == w.end_step - w.start_step,
            forall|i: int|
                0 <= i < cells@.len() ==> #[trigger] cells@[i] == (Cell {
                    separator: separator_spec(w.start_step + i, w.start_step as int),
                    on: self@.pattern.on(lane as int, w.start_step + i),
                    cursor: lane == self@.cursor_lane && w.start_step + i == self@.cursor_step,
                    playhead: self@.playing && w.start_step + i == playhead_step,
                }),
    {
        let mut cells: Vec<Cell> = Vec::new();
        let mut st = w.start_step;
        while st < w.end_step
            invariant
                self@.wf(),
                lane < LANES,
                w.start_step <= st <= w.end_step,
                w.end_step <= STEPS,
                cells@.len() == st - w.start_step,
                forall|i: int|
                    0 <= i < cells@.len() ==> #[trigger] cells@[i] == (Cell {
                        separator: separator_spec(w.start_step + i, w.start_step as int),
                        on: self@.pattern.on(lane as int, w.start_step + i),
                        cursor: lane == self@.cursor_lane && w.start_step + i == self@.cursor_step,
                        playhead: self@.playing && w.start_step + i == playhead_step,
                    }),
            decreases w.end_step - st,
        {
            cells.push(
                Cell {
                    separator: separator_before(st, w.start_step),
                    on: self.pattern().is_on(lane, st),
                    cursor: lane == self.cursor_lane() && st == self.cursor_step(),
                    playhead: self.is_playing() && st == playhead_step,
                },
            );
            st += 1;
        }
        cells
    }
}

/// The colour a lane is drawn in.
#[derive(Clone, Copy, Debug, PartialEq, Eq)]
pub enum Hue {
    Red,
    Yellow,
    Cyan,
    Magenta,
    Green,
    Blue,
    White,
}

/// Kick red, snare yellow, hat cyan, clap magenta, tom green, rim blue; any
/// other lane white.
pub fn lane_hue(lane: usize) -> (h: Hue)
    ensures
        h == (if lane == 0 {
            Hue::Red
        } else if lane == 1 {
            Hue::Yellow
        } else if lane == 2 {
            Hue::Cyan
        } else if lane == 3 {
            Hue::Magenta
        } else if lane == 4 {
            Hue::Green
        } else if lane == 5 {
            Hue::Blue
        } else {
            Hue::White
        }),
{
    match lane {
        0 => Hue::Red,
        1 => Hue::Yellow,
        2 => Hue::Cyan,
        3 => Hue::Magenta,
        4 => Hue::Green,
        5 => Hue::Blue,
        _ => Hue::White,
    }
}

/// The name of a lane's instrument.
pub fn lane_name(lane: usize) -> (name: &'static str)
    requires
        lane < LANES,
    ensures
        lane == 0 ==> name@ == "Kick"@,
        lane == 1 ==> name@ == "Snare"@,
        lane == 2 ==> name@ == "Hat"@,
        lane == 3 ==> name@ == "Clap"@,
        lane == 4 ==> name@ == "Tom"@,
        lane == 5 ==> name@ == "Rim"@,
{
    if lane == 0 {
        "Kick"
    } else if lane == 1 {
        "Snare"
    } else if lane == 2 {
        "Hat"
    } else if lane == 3 {
        "Clap"
    } else if lane == 4 {
        "Tom"
    } else {
        "Rim"
    }
}

} // verus!
