use vstd::prelude::*;

use crate::engine::{
    apply_all, apply_cmd_spec, fresh_engine, lemma_apply_cmd_wf, EngineCmd, EngineModel,
};
use crate::sequencer::{step_spec, Action, KeyOutcome, Sequencer, SequencerModel};
use crate::{cell_index, CELLS, STEPS};

verus! {

/// The engine plays what the editor shows: the same pattern and tempo, the
/// same gain, and playback on or off alike.
pub open spec fn in_sync(ui: SequencerModel, e: EngineModel) -> bool {
    &&& ui.pattern == e.pattern
    &&& ui.gain == e.gain
    &&& ui.playing == e.playing
}

/// The command that sets the `i`-th cell of the flattened grid on.
pub open spec fn cell_on_cmd(i: int) -> EngineCmd {
    EngineCmd::ToggleStep { lane: (i / STEPS as int) as usize, step: (i % STEPS as int) as usize, on: true }
}

/// A command for each of the first `n` cells that is on, in grid order.
pub open spec fn cells_on_cmds(cells: Seq<bool>, n: nat) -> Seq<EngineCmd>
    decreases n,
{
    if n == 0 {
        Seq::empty()
    } else {
        let rest = cells_on_cmds(cells, (n - 1) as nat);
        if cells[n - 1] {
            rest.push(cell_on_cmd(n - 1))
        } else {
            rest
        }
    }
}

/// What the editor tells a new engine at start: the tempo, the gain, and
/// every cell that is on.
pub open spec fn startup_cmds(ui: SequencerModel) -> Seq<EngineCmd> {
    seq![EngineCmd::SetBpm(ui.pattern.bpm as u32), EngineCmd::SetMasterGain(ui.gain as u32)]
        + cells_on_cmds(ui.pattern.cells, CELLS as nat)
}

proof fn lemma_cell_index_split(i: int)
    requires
        0 <= i,
    ensures
        cell_index(i / STEPS as int, i % STEPS as int) == i,
        0 <= i % (STEPS as int) < STEPS,
{
    vstd::arithmetic::div_mod::lemma_fundamental_div_mod(i, STEPS as int);
}

/// Applying two runs of commands is applying the first, then the second.
pub proof fn lemma_apply_all_concat(m: EngineModel, a: Seq<EngineCmd>, b: Seq<EngineCmd>)
    ensures
        apply_all(m, a + b) == apply_all(apply_all(m, a), b),
    decreases b.len(),
{
    if b.len() == 0 {
        assert(a + b == a);
    } else {
        assert((a + b).drop_last() == a + b.drop_last());
        assert((a + b).last() == b.last());
        lemma_apply_all_concat(m, a, b.drop_last());
    }
}

proof fn lemma_cells_on_cmds(m: EngineModel, cells: Seq<bool>, n: nat)
    requires
        m.pattern.cells.len() == CELLS,
        cells.len() == CELLS,
        n <= CELLS,
        forall|i: int| 0 <= i < CELLS ==> !#[trigger] m.pattern.cells[i],
    ensures
        apply_all(m, cells_on_cmds(cells, n)).pattern.cells == Seq::new(
            CELLS as nat,
            |i: int| i < n && cells[i],
        ),
        apply_all(m, cells_on_cmds(cells, n)).pattern.bpm == m.pattern.bpm,
        apply_all(m, cells_on_cmds(cells, n)).gain == m.gain,
        apply_all(m, cells_on_cmds(cells, n)).playing == m.playing,
    decreases n,
{
    if n == 0 {
        assert(m.pattern.cells == Seq::new(CELLS as nat, |i: int| i < n && cells[i]));
    } else {
        let rest = cells_on_cmds(cells, (n - 1) as nat);
        lemma_cells_on_cmds(m, cells, (n - 1) as nat);
        if cells[n - 1] {
            let i = n - 1;
            lemma_cell_index_split(i);
            assert(rest.push(cell_on_cmd(i)).drop_last() == rest);
        }
    }
}

/// At start the editor's commands bring a new engine in step with it.
pub proof fn lemma_startup_syncs(ui: SequencerModel, sample_rate: int)
    requires
        ui.wf(),
        !ui.playing,
    ensures
        in_sync(ui, apply_all(fresh_engine(sample_rate), startup_cmds(ui))),
{
    let e0 = fresh_engine(sample_rate);
    let head = seq![EngineCmd::SetBpm(ui.pattern.bpm as u32), EngineCmd::SetMasterGain(ui.gain as u32)];
    lemma_apply_all_concat(e0, head, cells_on_cmds(ui.pattern.cells, CELLS as nat));
    let first = seq![EngineCmd::SetBpm(ui.pattern.bpm as u32)];
    assert(head.drop_last() == first);
    assert(first.drop_last() == Seq::<EngineCmd>::empty());
    assert(apply_all(e0, Seq::<EngineCmd>::empty()) == e0);
    assert(first.last() == EngineCmd::SetBpm(ui.pattern.bpm as u32));
    assert(head.last() == EngineCmd::SetMasterGain(ui.gain as u32));
    assert(apply_all(e0, first) == apply_cmd_spec(e0, EngineCmd::SetBpm(ui.pattern.bpm as u32)));
    let e1 = apply_all(e0, head);
    assert(e1 == apply_cmd_spec(apply_all(e0, first), EngineCmd::SetMasterGain(ui.gain as u32)));
    assert(e1.pattern.cells == e0.pattern.cells);
    assert(e1.pattern.bpm == ui.pattern.bpm);
    assert(e1.gain == ui.gain);
    lemma_cells_on_cmds(e1, ui.pattern.cells, CELLS as nat);
    let e2 = apply_all(e1, cells_on_cmds(ui.pattern.cells, CELLS as nat));
    assert(e2.pattern.cells == ui.pattern.cells);
    assert(e2.pattern == ui.pattern);
}

/// Every key press keeps the engine in step with the editor, once the engine
/// has the command the press hands over, if any.
pub proof fn lemma_key_keeps_sync(ui: SequencerModel, e: EngineModel, a: Action)
    requires
        ui.wf(),
        e.wf(),
        in_sync(ui, e),
    ensures
        ({
            let (ui2, out) = step_spec(ui, a);
            match out {
                KeyOutcome::Send(cmd) => in_sync(ui2, apply_cmd_spec(e, cmd)),
                _ => in_sync(ui2, e),
            }
        }),
{
}


/// The editor after a run of actions, and the commands it sent meanwhile, in order.
pub open spec fn run_actions(ui: SequencerModel, actions: Seq<Action>) -> (SequencerModel, Seq<EngineCmd>)
    decreases actions.len(),
{
    if actions.len() == 0 {
        (ui, Seq::empty())
    } else {
        let (u, sent) = run_actions(ui, actions.drop_last());
        let (u2, out) = step_spec(u, actions.last());
        (
            u2,
            match out {
                KeyOutcome::Send(cmd) => sent.push(cmd),
                _ => sent,
            },
        )
    }
}

/// The engine mirrors the editor: after any run of key presses, an engine
/// that was in step with the editor and applies, in order, the commands the
/// presses sent through the channel is in step with it again.
pub proof fn lemma_keys_keep_sync(ui: SequencerModel, e: EngineModel, actions: Seq<Action>)
    requires
        ui.wf(),
        e.wf(),
        in_sync(ui, e),
    ensures
        run_actions(ui, actions).0.wf(),
        apply_all(e, run_actions(ui, actions).1).wf(),
        in_sync(run_actions(ui, actions).0, apply_all(e, run_actions(ui, actions).1)),
    decreases actions.len(),
{
    if actions.len() > 0 {
        let (u, sent) = run_actions(ui, actions.drop_last());
        lemma_keys_keep_sync(ui, e, actions.drop_last());
        let e1 = apply_all(e, sent);
        let (u2, out) = step_spec(u, actions.last());
        lemma_key_keeps_sync(u, e1, actions.last());
        match out {
            KeyOutcome::Send(cmd) => {
                assert(sent.push(cmd).drop_last() == sent);
                lemma_apply_cmd_wf(e1, cmd);
            },
            _ => {},
        }
    }
}

impl Sequencer {
    /// The commands that bring a new engine in step with the editor: the
    /// tempo, the gain, and a command for each cell that is on, in grid order.
    pub fn startup_commands(&self) -> (cmds: Vec<EngineCmd>)
        requires
            self@.wf(),
        ensures
            cmds@ == startup_cmds(self@),
    {
        let mut cmds: Vec<EngineCmd> = Vec::new();
        cmds.push(EngineCmd::SetBpm(self.pattern().bpm()));
        cmds.push(EngineCmd::SetMasterGain(self.master_gain()));
        let ghost head = cmds@;
        let mut i: usize = 0;
        while i < CELLS
            invariant
                i <= CELLS,
                self@.wf(),
                head == seq![EngineCmd::SetBpm(self@.pattern.bpm as u32), EngineCmd::SetMasterGain(self@.gain as u32)],
                cmds@ == head + cells_on_cmds(self@.pattern.cells, i as nat),
            decreases CELLS - i,
        {
            let lane = i / STEPS;
            let step = i % STEPS;
            proof {
                lemma_cell_index_split(i as int);
            }
            let ghost before = cmds@;
            if self.pattern().is_on(lane, step) {
                cmds.push(EngineCmd::ToggleStep { lane, step, on: true });
                proof {
                    assert(cmds@ == head + cells_on_cmds(self@.pattern.cells, i as nat).push(cell_on_cmd(i as int)));
                }
            }
            i += 1;
        }
        cmds
    }
}

} // verus!
