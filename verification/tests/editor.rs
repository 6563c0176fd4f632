use tuityloops::engine::EngineCmd;
use tuityloops::sequencer::{action_for, Action, Key, KeyOutcome, KeyPress, Sequencer};
use tuityloops::{BPM_DEFAULT, BPM_MAX, BPM_MIN, GAIN_DEFAULT, GAIN_MAX, LANES, STEPS};

fn press(c: char) -> KeyPress {
    KeyPress { key: Key::Char(c), control_only: false }
}

fn arrow(key: Key) -> KeyPress {
    KeyPress { key, control_only: false }
}

#[test]
fn default_beat_repeats_in_every_bar() {
    let s = Sequencer::new();
    let p = s.pattern();
    assert_eq!(p.bpm(), BPM_DEFAULT);
    for bar in 0..16 {
        let base = bar * 16;
        for st in 0..16 {
            assert_eq!(p.is_on(0, base + st), [0, 4, 8, 12].contains(&st));
            assert_eq!(p.is_on(1, base + st), [4, 12].contains(&st));
            assert!(p.is_on(2, base + st));
            assert!(!p.is_on(3, base + st));
            assert!(!p.is_on(4, base + st));
            assert_eq!(p.is_on(5, base + st), [2, 6, 10, 14].contains(&st));
        }
    }
    assert!(!s.is_playing());
    assert_eq!(s.master_gain(), GAIN_DEFAULT);
    assert_eq!((s.cursor_lane(), s.cursor_step()), (0, 0));
}

#[test]
fn key_map() {
    assert_eq!(action_for(press('q')), Action::Quit);
    assert_eq!(action_for(KeyPress { key: Key::Char('q'), control_only: true }), Action::Quit);
    assert_eq!(action_for(KeyPress { key: Key::Char('c'), control_only: true }), Action::Quit);
    assert_eq!(action_for(press('c')), Action::Ignore);
    assert_eq!(action_for(press('p')), Action::TogglePlay);
    assert_eq!(action_for(press(' ')), Action::ToggleStep);
    assert_eq!(action_for(press('+')), Action::TempoUp);
    assert_eq!(action_for(press('=')), Action::TempoUp);
    assert_eq!(action_for(press('-')), Action::TempoDown);
    assert_eq!(action_for(press(']')), Action::GainUp);
    assert_eq!(action_for(press('[')), Action::GainDown);
    assert_eq!(action_for(press('r')), Action::Render);
    assert_eq!(action_for(press('x')), Action::Ignore);
    assert_eq!(action_for(arrow(Key::Up)), Action::LaneUp);
    assert_eq!(action_for(arrow(Key::Down)), Action::LaneDown);
    assert_eq!(action_for(arrow(Key::Left)), Action::StepLeft);
    assert_eq!(action_for(arrow(Key::Right)), Action::StepRight);
    assert_eq!(action_for(arrow(Key::Other)), Action::Ignore);
}

#[test]
fn quit_and_render_change_nothing() {
    let mut s = Sequencer::new();
    assert_eq!(s.handle_key(press('q')), KeyOutcome::Quit);
    assert_eq!(s.handle_key(KeyPress { key: Key::Char('c'), control_only: true }), KeyOutcome::Quit);
    assert_eq!(s.handle_key(press('r')), KeyOutcome::RenderWav);
    assert_eq!(s.handle_key(press('z')), KeyOutcome::Nothing);
    assert!(!s.is_playing());
    assert_eq!(s.pattern().bpm(), BPM_DEFAULT);
}

#[test]
fn play_toggles_and_tells_the_engine() {
    let mut s = Sequencer::new();
    assert_eq!(s.handle_key(press('p')), KeyOutcome::Send(EngineCmd::SetPlaying(true)));
    assert!(s.is_playing());
    assert_eq!(s.handle_key(press('p')), KeyOutcome::Send(EngineCmd::SetPlaying(false)));
    assert!(!s.is_playing());
}

#[test]
fn cursor_stops_at_the_edges() {
    let mut s = Sequencer::new();
    assert_eq!(s.handle_key(arrow(Key::Up)), KeyOutcome::Nothing);
    assert_eq!(s.handle_key(arrow(Key::Left)), KeyOutcome::Nothing);
    assert_eq!((s.cursor_lane(), s.cursor_step()), (0, 0));
    for _ in 0..10 {
        s.handle_key(arrow(Key::Down));
    }
    assert_eq!(s.cursor_lane(), LANES - 1);
    for _ in 0..300 {
        s.handle_key(arrow(Key::Right));
    }
    assert_eq!(s.cursor_step(), STEPS - 1);
    s.handle_key(arrow(Key::Left));
    s.handle_key(arrow(Key::Up));
    assert_eq!((s.cursor_lane(), s.cursor_step()), (LANES - 2, STEPS - 2));
}

#[test]
fn space_toggles_the_cell_under_the_cursor() {
    let mut s = Sequencer::new();
    s.handle_key(arrow(Key::Right));
    assert!(!s.pattern().is_on(0, 1));
    assert_eq!(
        s.handle_key(press(' ')),
        KeyOutcome::Send(EngineCmd::ToggleStep { lane: 0, step: 1, on: true })
    );
    assert!(s.pattern().is_on(0, 1));
    assert_eq!(
        s.handle_key(press(' ')),
        KeyOutcome::Send(EngineCmd::ToggleStep { lane: 0, step: 1, on: false })
    );
    assert!(!s.pattern().is_on(0, 1));
    // the rest of the pattern is untouched
    let fresh = Sequencer::new();
    for lane in 0..LANES {
        for step in 0..STEPS {
            assert_eq!(s.pattern().is_on(lane, step), fresh.pattern().is_on(lane, step));
        }
    }
}

#[test]
fn tempo_stays_within_bounds() {
    let mut s = Sequencer::new();
    assert_eq!(s.handle_key(press('+')), KeyOutcome::Send(EngineCmd::SetBpm(121)));
    assert_eq!(s.handle_key(press('=')), KeyOutcome::Send(EngineCmd::SetBpm(122)));
    assert_eq!(s.handle_key(press('-')), KeyOutcome::Send(EngineCmd::SetBpm(121)));
    for _ in 0..400 {
        s.handle_key(press('+'));
    }
    assert_eq!(s.pattern().bpm(), BPM_MAX);
    assert_eq!(s.handle_key(press('+')), KeyOutcome::Send(EngineCmd::SetBpm(300)));
    for _ in 0..400 {
        s.handle_key(press('-'));
    }
    assert_eq!(s.pattern().bpm(), BPM_MIN);
    assert_eq!(s.handle_key(press('-')), KeyOutcome::Send(EngineCmd::SetBpm(30)));
}

#[test]
fn gain_stays_within_bounds() {
    let mut s = Sequencer::new();
    assert_eq!(s.handle_key(press(']')), KeyOutcome::Send(EngineCmd::SetMasterGain(85)));
    for _ in 0..10 {
        s.handle_key(press(']'));
    }
    assert_eq!(s.master_gain(), GAIN_MAX);
    assert_eq!(s.handle_key(press('[')), KeyOutcome::Send(EngineCmd::SetMasterGain(95)));
    for _ in 0..30 {
        s.handle_key(press('['));
    }
    assert_eq!(s.master_gain(), 0);
    assert_eq!(s.handle_key(press('[')), KeyOutcome::Send(EngineCmd::SetMasterGain(0)));
}

#[test]
fn moves_and_adjustments_undo() {
    let mut s = Sequencer::new();
    s.handle_key(arrow(Key::Right));
    s.handle_key(arrow(Key::Right));
    s.handle_key(arrow(Key::Left));
    assert_eq!(s.cursor_step(), 1);
    s.handle_key(press('+'));
    s.handle_key(press('-'));
    assert_eq!(s.pattern().bpm(), BPM_DEFAULT);
    s.handle_key(press(']'));
    s.handle_key(press('['));
    assert_eq!(s.master_gain(), GAIN_DEFAULT);
}
