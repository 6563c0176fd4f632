use crossbeam_channel::Receiver;
use vstd::prelude::*;

use crate::pattern::{Pattern, PatternModel};
use crate::{
    cell_index, BPM_DEFAULT, BPM_MAX, BPM_MIN, CELLS, GAIN_DEFAULT, GAIN_MAX, LANES, STEPS,
};

verus! {

#[verifier::external_type_specification]
#[verifier::external_body]
#[verifier::reject_recursive_types(T)]
pub struct ExReceiver<T>(Receiver<T>);

/// What the editor tells the audio engine.
#[derive(Clone, Copy, Debug, PartialEq, Eq, Structural)]
pub enum EngineCmd {
    /// Start (`true`) or stop (`false`) playback.
    SetPlaying(bool),
    /// Change the tempo, in beats per minute; it is clamped to the tempo bounds.
    SetBpm(u32),
    /// Set one cell of the grid; a cell outside the grid is ignored.
    ToggleStep { lane: usize, step: usize, on: bool },
    /// Change the master gain, in hundredths; it is clamped to at most full gain.
    SetMasterGain(u32),
}

/// The mathematical state of the engine.
///
/// Time within a step is counted in ticks: a sample lasts `frame_ticks(bpm)`
/// ticks and a step lasts `step_ticks(sample_rate)` ticks, so that a step is
/// exactly a quarter beat, `15 * sample_rate / bpm` samples, at every tempo.
pub struct EngineModel {
    pub sample_rate: int,
    pub pattern: PatternModel,
    pub playing: bool,
    pub gain: int,
    /// Ticks since the last step began.
    pub phase: int,
    /// The step last reached, which the playhead shows.
    pub step: int,
}

/// Ticks in one step at `sample_rate` samples per second.
pub open spec fn step_ticks(sample_rate: int) -> int {
    60 * sample_rate
}

/// Ticks in one sample at `bpm` beats per minute.
pub open spec fn frame_ticks(bpm: int) -> int {
    4 * bpm
}

impl EngineModel {
    /// The engine runs at a positive sample rate on a well-formed pattern, its
    /// gain and step are in range, and the time since the last step began is at
    /// most a step at the slowest tempo.
    pub open spec fn wf(self) -> bool {
        &&& 0 < self.sample_rate <= u32::MAX
        &&& self.pattern.wf()
        &&& 0 <= self.gain <= GAIN_MAX
        &&& 0 <= self.step < STEPS
        &&& 0 <= self.phase
        &&& self.phase * BPM_MIN <= step_ticks(self.sample_rate) * self.pattern.bpm
    }
}

/// A tempo held within the tempo bounds.
pub open spec fn clamp_bpm(bpm: int) -> int {
    if bpm < BPM_MIN {
        BPM_MIN as int
    } else if bpm > BPM_MAX {
        BPM_MAX as int
    } else {
        bpm
    }
}

/// The engine right after it is started at `sample_rate`.
pub open spec fn fresh_engine(sample_rate: int) -> EngineModel {
    EngineModel {
        sample_rate,
        pattern: PatternModel { bpm: BPM_DEFAULT as int, cells: Seq::new(CELLS as nat, |i: int| false) },
        playing: false,
        gain: GAIN_DEFAULT as int,
        phase: 0,
        step: 0,
    }
}

/// The effect of one command.
///
/// Starting playback sets the time since the last step to a whole step, so
/// the next advance reaches the step after the current one at once. Stopping
/// returns to the first step. A tempo change keeps the time since the last
/// step in samples (rounded down to a tick).
pub open spec fn apply_cmd_spec(m: EngineModel, cmd: EngineCmd) -> EngineModel {
    match cmd {
        EngineCmd::SetPlaying(p) => {
            if !p {
                EngineModel { playing: false, phase: 0, step: 0, ..m }
            } else if !m.playing {
                EngineModel { playing: true, phase: step_ticks(m.sample_rate), ..m }
            } else {
                m
            }
        },
        EngineCmd::SetBpm(b) => {
            let nb = clamp_bpm(b as int);
            EngineModel {
                pattern: PatternModel { bpm: nb, cells: m.pattern.cells },
                phase: m.phase * nb / m.pattern.bpm,
                ..m
            }
        },
        EngineCmd::ToggleStep { lane, step, on } => {
            if lane < LANES && step < STEPS {
                EngineModel {
                    pattern: PatternModel {
                        bpm: m.pattern.bpm,
                        cells: m.pattern.cells.update(cell_index(lane as int, step as int), on),
                    },
                    ..m
                }
            } else {
                m
            }
        },
        EngineCmd::SetMasterGain(g) => {
            EngineModel { gain: if g > GAIN_MAX { GAIN_MAX as int } else { g as int }, ..m }
        },
    }
}

/// The effect of a sequence of commands, applied in order.
pub open spec fn apply_all(m: EngineModel, cmds: Seq<EngineCmd>) -> EngineModel
    decreases cmds.len(),
{
    if cmds.len() == 0 {
        m
    } else {
        apply_cmd_spec(apply_all(m, cmds.drop_last()), cmds.last())
    }
}

/// Ticks since the last step began, after `frames` more samples.
pub open spec fn ticks_after(m: EngineModel, frames: int) -> int {
    m.phase + frames * frame_ticks(m.pattern.bpm)
}

/// How many step boundaries `frames` samples of playback cross.
pub open spec fn crossings(m: EngineModel, frames: int) -> int {
    if m.playing {
        ticks_after(m, frames) / step_ticks(m.sample_rate)
    } else {
        0
    }
}

/// The engine after `frames` samples: while it plays, the clock runs and the
/// step moves on by the boundaries crossed, around the pattern; while it is
/// stopped, nothing moves.
pub open spec fn advance_spec(m: EngineModel, frames: int) -> EngineModel {
    if m.playing {
        EngineModel {
            phase: ticks_after(m, frames) % step_ticks(m.sample_rate),
            step: (m.step + crossings(m, frames)) % (STEPS as int),
            ..m
        }
    } else {
        m
    }
}

/// Whether `lane` sounds at the `j`-th step after the current one.
pub open spec fn lands(m: EngineModel, lane: int, j: int) -> bool {
    m.pattern.on(lane, (m.step + j) % (STEPS as int))
}

/// Whether `lane` is struck while `frames` samples play: some step reached
/// in that time has `lane` on.
pub open spec fn struck(m: EngineModel, frames: int, lane: int) -> bool {
    exists|j: int| 1 <= j <= crossings(m, frames) && #[trigger] lands(m, lane, j)
}

/// The audio engine: the pattern it plays, its gain, and its step clock.
pub struct Engine {
    sample_rate: u32,
    pattern: Pattern,
    playing: bool,
    master_gain: u32,
    phase: u64,
    step_index: usize,
}

impl View for Engine {
    type V = EngineModel;

    closed spec fn view(&self) -> EngineModel {
        EngineModel {
            sample_rate: self.sample_rate as int,
            pattern: self.pattern@,
            playing: self.playing,
            gain: self.master_gain as int,
            phase: self.phase as int,
            step: self.step_index as int,
        }
    }
}

/// Calls `Receiver::len`. The count of waiting messages depends on what other
/// threads send and receive, so nothing is stated of it.
#[verifier::external_body]
fn pending(rx: &Receiver<EngineCmd>) -> usize {
    rx.len()
}

/// Calls `Receiver::try_recv` and keeps the message, if one was waiting. Which
/// message comes, if any, depends on other threads, so nothing is stated of it.
#[verifier::external_body]
fn try_take(rx: &Receiver<EngineCmd>) -> Option<EngineCmd> {
    rx.try_recv().ok()
}

proof fn lemma_rescale_phase(p: int, t: int, b: int, nb: int)
    requires
        0 <= p,
        0 < t,
        BPM_MIN <= b,
        BPM_MIN <= nb,
        p * BPM_MIN <= t * b,
    ensures
        0 <= p * nb / b,
        (p * nb / b) * BPM_MIN <= t * nb,
{
    let q = p * nb / b;
    assert(0 <= p * nb) by (nonlinear_arith)
        requires
            0 <= p,
            0 <= nb,
    ;
    assert(0 <= q && q * b <= p * nb) by (nonlinear_arith)
        requires
            q == p * nb / b,
            0 <= p * nb,
            0 < b,
    ;
    assert(q * BPM_MIN * b <= t * nb * b) by (nonlinear_arith)
        requires
            q * b <= p * nb,
            p * BPM_MIN <= t * b,
            0 <= nb,
            0 <= q,
    ;
    assert(q * BPM_MIN <= t * nb) by (nonlinear_arith)
        requires
            q * BPM_MIN * b <= t * nb * b,
            0 < b,
    ;
}


/// A lane struck within some steps is struck within the first lap of them.
proof fn lemma_struck_within_lap(m: EngineModel, frames: int, lane: int)
    requires
        m.wf(),
        0 <= frames,
    ensures
        struck(m, frames, lane) == exists|j: int|
            1 <= j <= (if crossings(m, frames) < STEPS { crossings(m, frames) } else { STEPS as int })
                && #[trigger] lands(m, lane, j),
{
    let k = crossings(m, frames);
    let limit = if k < STEPS { k } else { STEPS as int };
    if struck(m, frames, lane) {
        let j = choose|j: int| 1 <= j <= k && #[trigger] lands(m, lane, j);
        let q = (j - 1) / (STEPS as int);
        let r = (j - 1) % (STEPS as int);
        let j2 = r + 1;
        assert(j - 1 == (STEPS as int) * q + r) by {
            vstd::arithmetic::div_mod::lemma_fundamental_div_mod(j - 1, STEPS as int);
        }
        assert(0 <= r < STEPS);
        assert((m.step + j) % (STEPS as int) == (m.step + j2) % (STEPS as int)) by {
            vstd::arithmetic::div_mod::lemma_mod_multiples_vanish(q, m.step + j2, STEPS as int);
        }
        if k >= STEPS {
            assert(lands(m, lane, j2));
        } else {
            assert(lands(m, lane, j));
        }
    }
}


/// Steps taken later lie `k` steps further on, once the engine has moved `k` steps.
proof fn lemma_lands_shift(m: EngineModel, k: int, lane: int, j: int)
    requires
        m.wf(),
        0 <= k,
        0 <= j,
    ensures
        lands(EngineModel { step: (m.step + k) % (STEPS as int), ..m }, lane, j) == lands(m, lane, k + j),
{
    vstd::arithmetic::div_mod::lemma_add_mod_noop(m.step + k, j, STEPS as int);
    vstd::arithmetic::div_mod::lemma_mod_twice(m.step + k, STEPS as int);
    assert((m.step + k) % (STEPS as int) % (STEPS as int) == (m.step + k) % (STEPS as int));
    assert(((m.step + k) % (STEPS as int) + j) % (STEPS as int) == (m.step + k + j) % (STEPS as int));
}

/// The step clock keeps the engine well formed.
pub proof fn lemma_advance_wf(m: EngineModel, frames: nat)
    requires
        m.wf(),
    ensures
        advance_spec(m, frames as int).wf(),
{
    if m.playing {
        let t = step_ticks(m.sample_rate);
        let p = ticks_after(m, frames as int) % t;
        assert(0 <= frames * frame_ticks(m.pattern.bpm)) by (nonlinear_arith)
            requires
                0 <= frames,
                0 <= m.pattern.bpm,
        ;
        assert(0 <= p < t);
        assert(p * BPM_MIN <= t * m.pattern.bpm) by (nonlinear_arith)
            requires
                0 <= p < t,
                BPM_MIN <= m.pattern.bpm,
        ;
    }
}

/// Playing `a` samples and then `b` more is playing `a + b` samples at once:
/// the clock ends at the same step and time within it, and each lane is
/// struck in the whole span exactly when it is struck in one of the parts.
/// How the audio is cut into buffers changes nothing of the beat.
#[verifier::spinoff_prover]
#[verifier::rlimit(40)]
pub proof fn lemma_advance_additive(m: EngineModel, a: nat, b: nat, lane: int)
    requires
        m.wf(),
    ensures
        advance_spec(advance_spec(m, a as int), b as int) == advance_spec(m, (a + b) as int),
        struck(m, (a + b) as int, lane) == (struck(m, a as int, lane) || struck(
            advance_spec(m, a as int),
            b as int,
            lane,
        )),
{
    if m.playing {
        let t = step_ticks(m.sample_rate);
        let f = frame_ticks(m.pattern.bpm);
        let t1 = ticks_after(m, a as int);
        let k1 = t1 / t;
        let p1 = t1 % t;
        let m1 = advance_spec(m, a as int);
        let t2 = ticks_after(m1, b as int);
        let k2 = t2 / t;
        let p2 = t2 % t;
        let tt = ticks_after(m, (a + b) as int);
        assert(tt == t1 + b * f) by (nonlinear_arith)
            requires
                tt == m.phase + (a + b) * f,
                t1 == m.phase + a * f,
        ;
        assert(0 <= b * f) by (nonlinear_arith)
            requires
                0 <= b,
                0 <= f,
        ;
        vstd::arithmetic::div_mod::lemma_fundamental_div_mod(t1, t);
        vstd::arithmetic::div_mod::lemma_fundamental_div_mod(t2, t);
        assert(tt == t * k1 + t * k2 + p2);
        assert(tt == t * (k1 + k2) + p2) by (nonlinear_arith)
            requires
                tt == t * k1 + t * k2 + p2,
        ;
        vstd::arithmetic::div_mod::lemma_fundamental_div_mod_converse(tt, t, k1 + k2, p2);
        assert(0 <= k1) by {
            assert(0 <= a * f) by (nonlinear_arith)
                requires
                    0 <= a,
                    0 <= f,
            ;
            vstd::arithmetic::div_mod::lemma_div_pos_is_pos(t1, t);
        }
        assert(0 <= k2) by {
            vstd::arithmetic::div_mod::lemma_div_pos_is_pos(t2, t);
        }
        assert(m1 == EngineModel { step: (m.step + k1) % (STEPS as int), phase: p1, ..m });
        lemma_lands_shift(m, k1, lane, 0);
        vstd::arithmetic::div_mod::lemma_add_mod_noop(m.step + k1, k2, STEPS as int);
        vstd::arithmetic::div_mod::lemma_mod_twice(m.step + k1, STEPS as int);
        vstd::arithmetic::div_mod::lemma_add_mod_noop(m.step + k1, 0, STEPS as int);
        assert(((m.step + k1) % (STEPS as int) + k2) % (STEPS as int) == (m.step + (k1 + k2)) % (STEPS as int));
        let mb = EngineModel { step: (m.step + k1) % (STEPS as int), ..m };
        assert(crossings(m1, b as int) == k2);
        assert(crossings(m, (a + b) as int) == k1 + k2);
        if struck(m, (a + b) as int, lane) {
            let j = choose|j: int| 1 <= j <= k1 + k2 && #[trigger] lands(m, lane, j);
            if j > k1 {
                lemma_lands_shift(m, k1, lane, j - k1);
                assert(lands(mb, lane, j - k1) == lands(m1, lane, j - k1));
                assert(lands(m1, lane, j - k1));
            } else {
                assert(lands(m, lane, j));
            }
        }
        if struck(m1, b as int, lane) {
            let j = choose|j: int| 1 <= j <= k2 && #[trigger] lands(m1, lane, j);
            lemma_lands_shift(m, k1, lane, j);
            assert(lands(mb, lane, j) == lands(m1, lane, j));
            assert(lands(m, lane, k1 + j));
        }
        if struck(m, a as int, lane) {
            let j = choose|j: int| 1 <= j <= k1 && #[trigger] lands(m, lane, j);
            assert(lands(m, lane, j));
        }
    }
}


/// Each command keeps the engine well formed.
pub proof fn lemma_apply_cmd_wf(m: EngineModel, cmd: EngineCmd)
    requires
        m.wf(),
    ensures
        apply_cmd_spec(m, cmd).wf(),
{
    let t = step_ticks(m.sample_rate);
    match cmd {
        EngineCmd::SetPlaying(p) => {
            assert(t * BPM_MIN <= t * m.pattern.bpm) by (nonlinear_arith)
                requires
                    0 <= t,
                    BPM_MIN <= m.pattern.bpm,
            ;
        },
        EngineCmd::SetBpm(b) => {
            lemma_rescale_phase(m.phase, t, m.pattern.bpm, clamp_bpm(b as int));
        },
        _ => {},
    }
}

/// Each run of commands keeps the engine well formed.
pub proof fn lemma_apply_all_wf(m: EngineModel, cmds: Seq<EngineCmd>)
    requires
        m.wf(),
    ensures
        apply_all(m, cmds).wf(),
    decreases cmds.len(),
{
    if cmds.len() > 0 {
        lemma_apply_all_wf(m, cmds.drop_last());
        lemma_apply_cmd_wf(apply_all(m, cmds.drop_last()), cmds.last());
    }
}

/// From the start of a step, playback reaches the next step once the samples
/// played last a quarter beat: `frames` samples at `bpm` beats per minute
/// cross a step boundary exactly when `frames * bpm >= 15 * sample_rate`. A
/// step lasts `15 * sample_rate / bpm` samples, shorter at a faster tempo.
pub proof fn lemma_step_duration(m: EngineModel, frames: nat)
    requires
        m.wf(),
        m.playing,
        m.phase == 0,
    ensures
        (crossings(m, frames as int) >= 1) == (frames * m.pattern.bpm >= 15 * m.sample_rate),
{
    let t = step_ticks(m.sample_rate);
    let x = frames * frame_ticks(m.pattern.bpm);
    assert(ticks_after(m, frames as int) == x);
    assert(x == 4 * (frames * m.pattern.bpm)) by (nonlinear_arith)
        requires
            x == frames * (4 * m.pattern.bpm),
    ;
    assert(0 <= frames * m.pattern.bpm) by (nonlinear_arith)
        requires
            0 <= frames,
            0 <= m.pattern.bpm,
    ;
    if x >= t {
        vstd::arithmetic::div_mod::lemma_div_is_ordered(t, x, t);
        vstd::arithmetic::div_mod::lemma_div_by_self(t);
    } else {
        vstd::arithmetic::div_mod::lemma_basic_div(x, t);
    }
}


/// What each command changes in the engine, and that it changes nothing else:
/// - a cell command sets that one cell, when it is on the grid, and leaves
///   every other cell, the tempo, the gain, playback, the step and the time
///   within it as they were; off the grid it changes nothing;
/// - a tempo command sets the tempo, held within its bounds, keeps the time
///   since the step began in samples up to one tick, and changes nothing else;
/// - a gain command sets the gain, held at most full, and changes nothing else;
/// - stopping returns to the first step with no time into it; starting a
///   stopped engine keeps its step and sets a whole step's time, so the next
///   step comes at once; starting a playing engine changes nothing.
pub proof fn lemma_cmd_effects(m: EngineModel, cmd: EngineCmd)
    requires
        m.wf(),
    ensures
        ({
            let n = apply_cmd_spec(m, cmd);
            &&& n.sample_rate == m.sample_rate
            &&& cmd matches EngineCmd::ToggleStep { lane, step, on } ==> {
                &&& n.step == m.step && n.phase == m.phase
                &&& n.playing == m.playing && n.gain == m.gain
                &&& n.pattern.bpm == m.pattern.bpm
                &&& n.pattern.cells.len() == m.pattern.cells.len()
                &&& (lane < LANES && step < STEPS) ==> n.pattern.on(lane as int, step as int) == on
                &&& forall|l: int, s: int|
                    0 <= l < LANES && 0 <= s < STEPS && (l != lane || s != step) ==> #[trigger] n.pattern.on(l, s)
                        == m.pattern.on(l, s)
            }
            &&& cmd matches EngineCmd::SetBpm(b) ==> {
                &&& n.step == m.step && n.playing == m.playing && n.gain == m.gain
                &&& n.pattern.cells == m.pattern.cells
                &&& BPM_MIN <= b <= BPM_MAX ==> n.pattern.bpm == b
                &&& b < BPM_MIN ==> n.pattern.bpm == BPM_MIN
                &&& b > BPM_MAX ==> n.pattern.bpm == BPM_MAX
                &&& n.phase * m.pattern.bpm <= m.phase * n.pattern.bpm
                &&& m.phase * n.pattern.bpm < (n.phase + 1) * m.pattern.bpm
            }
            &&& cmd matches EngineCmd::SetMasterGain(g) ==> {
                &&& n.step == m.step && n.phase == m.phase && n.playing == m.playing
                &&& n.pattern == m.pattern
                &&& g <= GAIN_MAX ==> n.gain == g
                &&& g > GAIN_MAX ==> n.gain == GAIN_MAX
            }
            &&& cmd == EngineCmd::SetPlaying(false) ==> {
                &&& !n.playing && n.step == 0 && n.phase == 0
                &&& n.pattern == m.pattern && n.gain == m.gain
            }
            &&& cmd == EngineCmd::SetPlaying(true) ==> {
                &&& n.playing
                &&& m.playing ==> n == m
                &&& !m.playing ==> n.step == m.step && n.phase == step_ticks(m.sample_rate)
                    && n.pattern == m.pattern && n.gain == m.gain
            }
        }),
{
    let n = apply_cmd_spec(m, cmd);
    match cmd {
        EngineCmd::ToggleStep { lane, step, on } => {
            if lane < LANES && step < STEPS {
                assert forall|l: int, s: int|
                    0 <= l < LANES && 0 <= s < STEPS && (l != lane || s != step) implies #[trigger] n.pattern.on(l, s)
                        == m.pattern.on(l, s) by {
                    assert(cell_index(l, s) != cell_index(lane as int, step as int));
                }
            }
        },
        EngineCmd::SetBpm(b) => {
            let nb = clamp_bpm(b as int);
            let q = m.phase * nb / m.pattern.bpm;
            vstd::arithmetic::div_mod::lemma_fundamental_div_mod(m.phase * nb, m.pattern.bpm);
            assert(q * m.pattern.bpm <= m.phase * nb < (q + 1) * m.pattern.bpm) by (nonlinear_arith)
                requires
                    m.phase * nb == m.pattern.bpm * q + (m.phase * nb) % m.pattern.bpm,
                    0 <= (m.phase * nb) % m.pattern.bpm < m.pattern.bpm,
            ;
        },
        _ => {},
    }
}

impl Engine {
    /// An engine at `sample_rate`, stopped at the first step, with a silent
    /// pattern at the default tempo and the default gain.
    pub fn new(sample_rate: u32) -> (e: Engine)
        requires
            sample_rate > 0,
        ensures
            e@ == fresh_engine(sample_rate as int),
            e@.wf(),
    {
        Engine {
            sample_rate,
            pattern: Pattern::silent(BPM_DEFAULT),
            playing: false,
            master_gain: GAIN_DEFAULT,
            phase: 0,
            step_index: 0,
        }
    }

    /// The step last reached, for the playhead.
    pub fn playhead(&self) -> (step: usize)
        ensures
            step == self@.step,
    {
        self.step_index
    }

    /// Whether the engine plays.
    pub fn is_playing(&self) -> (playing: bool)
        ensures
            playing == self@.playing,
    {
        self.playing
    }

    /// The master gain, in hundredths.
    pub fn master_gain(&self) -> (gain: u32)
        ensures
            gain == self@.gain,
    {
        self.master_gain
    }

    /// The pattern the engine plays.
    pub fn pattern(&self) -> (p: &Pattern)
        ensures
            p@ == self@.pattern,
    {
        &self.pattern
    }

    /// Applies one command; returns whether it stops playback, in which case
    /// every voice is to fall silent.
    pub fn apply(&mut self, cmd: EngineCmd) -> (stops: bool)
        requires
            old(self)@.wf(),
        ensures
            final(self)@ == apply_cmd_spec(old(self)@, cmd),
            final(self)@.wf(),
            stops == (cmd == EngineCmd::SetPlaying(false)),
    {
        match cmd {
            EngineCmd::SetPlaying(p) => {
                if p && !self.playing {
                    proof {
                        let t = step_ticks(self.sample_rate as int);
                        let b = self.pattern@.bpm;
                        assert(t * BPM_MIN <= t * b) by (nonlinear_arith)
                            requires
                                0 <= t,
                                BPM_MIN <= b,
                        ;
                    }
                    self.phase = 60 * (self.sample_rate as u64);
                }
                self.playing = p;
                if !p {
                    self.phase = 0;
                    self.step_index = 0;
                }
                !p
            },
            EngineCmd::SetBpm(b) => {
                let nb: u32 = if b < BPM_MIN {
                    BPM_MIN
                } else if b > BPM_MAX {
                    BPM_MAX
                } else {
                    b
                };
                let old_bpm = self.pattern.bpm();
                proof {
                    lemma_rescale_phase(
                        self.phase as int,
                        step_ticks(self.sample_rate as int),
                        old_bpm as int,
                        nb as int,
                    );
                    assert((self.phase * nb / old_bpm as int) * BPM_MIN <= 60 * (u32::MAX as int)
                        * BPM_MAX) by (nonlinear_arith)
                        requires
                            (self.phase * nb / old_bpm as int) * BPM_MIN <= step_ticks(
                                self.sample_rate as int,
                            ) * nb,
                            self.sample_rate <= u32::MAX,
                            nb <= BPM_MAX,
                            0 <= nb,
                    ;
                }
                proof {
                    assert((self.phase as u128) * (nb as u128) <= u64::MAX * BPM_MAX) by (nonlinear_arith)
                        requires
                            self.phase <= u64::MAX,
                            nb <= BPM_MAX,
                    ;
                }
                let scaled: u128 = (self.phase as u128) * (nb as u128) / (old_bpm as u128);
                self.phase = scaled as u64;
                self.pattern.set_bpm(nb);
                false
            },
            EngineCmd::ToggleStep { lane, step, on } => {
                if lane < LANES && step < STEPS {
                    self.pattern.set(lane, step, on);
                }
                false
            },
            EngineCmd::SetMasterGain(g) => {
                self.master_gain = if g > GAIN_MAX {
                    GAIN_MAX
                } else {
                    g
                };
                false
            },
        }
    }

    /// Takes the commands waiting in `rx`, as many as were waiting when the
    /// call began, and applies them in order; returns whether one of them
    /// stopped playback. Whatever the channel hands over, the engine ends as
    /// the commands taken, applied in turn, leave it.
    pub fn drain(&mut self, rx: &Receiver<EngineCmd>) -> (stopped: bool)
        requires
            old(self)@.wf(),
        ensures
            final(self)@.wf(),
            exists|cmds: Seq<EngineCmd>|
                final(self)@ == apply_all(old(self)@, cmds) && stopped == cmds.contains(
                    EngineCmd::SetPlaying(false),
                ),
    {
        let n = pending(rx);
        let ghost mut taken: Seq<EngineCmd> = Seq::empty();
        let mut stopped = false;
        let mut i: usize = 0;
        while i < n
            invariant
                self@.wf(),
                self@ == apply_all(old(self)@, taken),
                stopped == taken.contains(EngineCmd::SetPlaying(false)),
            decreases n - i,
        {
            match try_take(rx) {
                Some(cmd) => {
                    let ghost before = taken;
                    let stops = self.apply(cmd);
                    proof {
                        taken = before.push(cmd);
                        assert(taken.drop_last() == before);
                        assert(taken[before.len() as int] == cmd);
                        if before.contains(EngineCmd::SetPlaying(false)) {
                            let k = choose|k: int|
                                0 <= k < before.len() && before[k] == EngineCmd::SetPlaying(false);
                            assert(taken[k] == before[k]);
                        }
                        if taken.contains(EngineCmd::SetPlaying(false)) && !stops {
                            let k = choose|k: int|
                                0 <= k < taken.len() && taken[k] == EngineCmd::SetPlaying(false);
                            assert(before[k] == taken[k]);
                        }
                    }
                    stopped = stopped || stops;
                    i += 1;
                },
                None => {
                    i = n;
                },
            }
        }
        stopped
    }

    /// Runs the step clock over `frames` samples and returns, lane by lane,
    /// whether the lane is struck on a step reached meanwhile. A stopped
    /// engine does not move and strikes nothing.
    pub fn advance(&mut self, frames: usize) -> (hits: Vec<bool>)
        requires
            old(self)@.wf(),
        ensures
            final(self)@ == advance_spec(old(self)@, frames as int),
            final(self)@.wf(),
            hits@.len() == LANES,
            forall|lane: int| 0 <= lane < LANES ==> #[trigger] hits@[lane] == struck(old(self)@, frames as int, lane),
    {
        let ghost m = self@;
        if !self.playing {
            let mut none: Vec<bool> = Vec::new();
            let mut lane: usize = 0;
            while lane < LANES
                invariant
                    lane <= LANES,
                    none@ == Seq::new(lane as nat, |l: int| false),
                decreases LANES - lane,
            {
                none.push(false);
                lane += 1;
            }
            return none;
        }
        let t: u128 = 60 * (self.sample_rate as u128);
        let per_frame: u128 = 4 * (self.pattern.bpm() as u128);
        proof {
            assert((frames as u128) * per_frame <= usize::MAX * (4 * BPM_MAX)) by (nonlinear_arith)
                requires
                    frames <= usize::MAX,
                    per_frame <= 4 * BPM_MAX,
            ;
        }
        let total: u128 = (self.phase as u128) + (frames as u128) * per_frame;
        let k: u128 = total / t;
        let start: usize = self.step_index;
        assert(total == ticks_after(m, frames as int));
        assert(k == crossings(m, frames as int));
        // each lane, over at most one lap of the pattern
        let limit: usize = if k < STEPS as u128 {
            k as usize
        } else {
            STEPS
        };
        let mut hits: Vec<bool> = Vec::new();
        let mut lane: usize = 0;
        while lane < LANES
            invariant
                lane <= LANES,
                limit <= STEPS,
                start == m.step,
                self@ == m,
                m.wf(),
                hits@.len() == lane,
                forall|l: int|
                    0 <= l < lane ==> #[trigger] hits@[l] == exists|j: int|
                        1 <= j <= limit && #[trigger] lands(m, l, j),
            decreases LANES - lane,
        {
            let mut found = false;
            let mut j: usize = 1;
            while j <= limit
                invariant
                    1 <= j <= limit + 1,
                    limit <= STEPS,
                    lane < LANES,
                    start == m.step,
                    self@ == m,
                    m.wf(),
                    found == exists|i: int| 1 <= i < j && #[trigger] lands(m, lane as int, i),
                decreases limit + 1 - j,
            {
                let here = (start + j) % STEPS;
                if self.pattern.is_on(lane, here) {
                    assert(lands(m, lane as int, j as int));
                    found = true;
                } else {
                    assert forall|i: int| 1 <= i < j + 1 && #[trigger] lands(m, lane as int, i) implies i < j by {
                        if i == j {
                            assert(!lands(m, lane as int, j as int));
                        }
                    }
                }
                j += 1;
            }
            hits.push(found);
            lane += 1;
        }
        proof {
            assert forall|l: int| 0 <= l < LANES implies #[trigger] hits@[l] == struck(m, frames as int, l) by {
                lemma_struck_within_lap(m, frames as int, l);
            }
        }
        self.phase = (total % t) as u64;
        self.step_index = ((start as u128 + k) % (STEPS as u128)) as usize;
        proof {
            let tt = step_ticks(m.sample_rate);
            assert(self.phase < tt);
            assert(tt * BPM_MIN <= tt * m.pattern.bpm) by (nonlinear_arith)
                requires
                    0 <= tt,
                    BPM_MIN <= m.pattern.bpm,
            ;
            assert(self.phase * BPM_MIN <= tt * BPM_MIN) by (nonlinear_arith)
                requires
                    self.phase < tt,
            ;
        }
        hits
    }
}

} // verus!
