use tuityloops::engine::{Engine, EngineCmd};
use tuityloops::pattern::Pattern;
use tuityloops::sequencer::{Key, KeyOutcome, KeyPress, Sequencer};
use tuityloops::{BPM_DEFAULT, GAIN_DEFAULT, LANES, STEPS};

const RATE: u32 = 48_000;

fn same_pattern(a: &Pattern, b: &Pattern) -> bool {
    if a.bpm() != b.bpm() {
        return false;
    }
    for lane in 0..LANES {
        for step in 0..STEPS {
            if a.is_on(lane, step) != b.is_on(lane, step) {
                return false;
            }
        }
    }
    true
}

fn playing_engine() -> Engine {
    let mut e = Engine::new(RATE);
    let s = Sequencer::new();
    for cmd in s.startup_commands() {
        e.apply(cmd);
    }
    e
}

#[test]
fn new_engine_is_silent_and_stopped() {
    let e = Engine::new(RATE);
    assert!(!e.is_playing());
    assert_eq!(e.playhead(), 0);
    assert_eq!(e.master_gain(), GAIN_DEFAULT);
    assert_eq!(e.pattern().bpm(), BPM_DEFAULT);
    for lane in 0..LANES {
        for step in 0..STEPS {
            assert!(!e.pattern().is_on(lane, step));
        }
    }
}

#[test]
fn startup_commands_bring_the_engine_in_step() {
    let s = Sequencer::new();
    let cmds = s.startup_commands();
    // tempo, gain, then 64 kicks, 32 snares, 256 hats and 64 rim shots
    assert_eq!(cmds.len(), 2 + 64 + 32 + 256 + 64);
    assert_eq!(cmds[0], EngineCmd::SetBpm(120));
    assert_eq!(cmds[1], EngineCmd::SetMasterGain(80));
    assert_eq!(cmds[2], EngineCmd::ToggleStep { lane: 0, step: 0, on: true });
    assert_eq!(cmds[3], EngineCmd::ToggleStep { lane: 0, step: 4, on: true });
    let e = playing_engine();
    assert!(same_pattern(e.pattern(), s.pattern()));
    assert_eq!(e.master_gain(), s.master_gain());
}

#[test]
fn key_presses_keep_the_engine_in_step() {
    let mut s = Sequencer::new();
    let mut e = playing_engine();
    let keys = [' ', 'p', '+', '+', ']', ' ', '-', '[', '[', 'p'];
    for (i, c) in keys.iter().enumerate() {
        if i % 3 == 0 {
            s.handle_key(KeyPress { key: Key::Right, control_only: false });
            s.handle_key(KeyPress { key: Key::Down, control_only: false });
        }
        if let KeyOutcome::Send(cmd) = s.handle_key(KeyPress { key: Key::Char(*c), control_only: false }) {
            e.apply(cmd);
        }
        assert!(same_pattern(e.pattern(), s.pattern()));
        assert_eq!(e.master_gain(), s.master_gain());
        assert_eq!(e.is_playing(), s.is_playing());
    }
}

#[test]
fn commands_are_clamped_or_ignored() {
    let mut e = Engine::new(RATE);
    assert!(!e.apply(EngineCmd::SetBpm(10)));
    assert_eq!(e.pattern().bpm(), 30);
    e.apply(EngineCmd::SetBpm(1000));
    assert_eq!(e.pattern().bpm(), 300);
    e.apply(EngineCmd::SetMasterGain(250));
    assert_eq!(e.master_gain(), 100);
    e.apply(EngineCmd::ToggleStep { lane: LANES, step: 0, on: true });
    e.apply(EngineCmd::ToggleStep { lane: 0, step: STEPS, on: true });
    for lane in 0..LANES {
        for step in 0..STEPS {
            assert!(!e.pattern().is_on(lane, step));
        }
    }
    e.apply(EngineCmd::ToggleStep { lane: 3, step: 17, on: true });
    assert!(e.pattern().is_on(3, 17));
}

#[test]
fn stopped_engine_does_not_move() {
    let mut e = playing_engine();
    let hits = e.advance(1_000_000);
    assert_eq!(hits, vec![false; LANES]);
    assert_eq!(e.playhead(), 0);
}

#[test]
fn starting_reaches_the_next_step_at_once() {
    let mut e = playing_engine();
    assert!(!e.apply(EngineCmd::SetPlaying(true)));
    let hits = e.advance(0);
    assert_eq!(e.playhead(), 1);
    // step 1 of the default beat: only the hat
    assert_eq!(hits, vec![false, false, true, false, false, false]);
}

#[test]
fn a_step_lasts_a_quarter_beat() {
    // at 120 bpm and 48 kHz a step is 48000 * 15 / 120 = 6000 samples
    let mut e = playing_engine();
    e.apply(EngineCmd::SetPlaying(true));
    e.advance(0);
    assert_eq!(e.playhead(), 1);
    let hits = e.advance(5999);
    assert_eq!(e.playhead(), 1);
    assert_eq!(hits, vec![false; LANES]);
    let hits = e.advance(1);
    assert_eq!(e.playhead(), 2);
    // step 2: hat and rim shot
    assert_eq!(hits, vec![false, false, true, false, false, true]);
    let hits = e.advance(12_000);
    assert_eq!(e.playhead(), 4);
    // steps 3 and 4: the hat on both, kick and snare on step 4
    assert_eq!(hits, vec![true, true, true, false, false, false]);
}

#[test]
fn the_step_wraps_around_the_pattern() {
    let mut e = playing_engine();
    e.apply(EngineCmd::SetPlaying(true));
    e.advance(0);
    e.advance(6000 * 255);
    assert_eq!(e.playhead(), 0);
    let hits = e.advance(6000 * 1000);
    assert_eq!(e.playhead(), 232);
    assert_eq!(hits, vec![true, true, true, false, false, true]);
}

#[test]
fn buffer_sizes_do_not_change_the_beat() {
    let mut whole = playing_engine();
    let mut parts = playing_engine();
    whole.apply(EngineCmd::SetPlaying(true));
    parts.apply(EngineCmd::SetPlaying(true));
    let all = whole.advance(10_001);
    let a = parts.advance(3_333);
    let b = parts.advance(6_668);
    assert_eq!(whole.playhead(), parts.playhead());
    for lane in 0..LANES {
        assert_eq!(all[lane], a[lane] || b[lane]);
    }
    whole.advance(777);
    parts.advance(700);
    parts.advance(77);
    assert_eq!(whole.playhead(), parts.playhead());
}

#[test]
fn stopping_returns_to_the_first_step() {
    let mut e = playing_engine();
    e.apply(EngineCmd::SetPlaying(true));
    e.advance(50_000);
    assert_ne!(e.playhead(), 0);
    assert!(e.apply(EngineCmd::SetPlaying(false)));
    assert_eq!(e.playhead(), 0);
    assert!(!e.is_playing());
}

#[test]
fn a_tempo_change_keeps_the_time_since_the_step() {
    // 3000 samples into a 6000-sample step at 120 bpm; at 240 bpm a step is
    // 3000 samples, so the next sample reaches the next step
    let mut e = playing_engine();
    e.apply(EngineCmd::SetPlaying(true));
    e.advance(0);
    e.advance(2999);
    e.apply(EngineCmd::SetBpm(240));
    assert_eq!(e.playhead(), 1);
    e.advance(0);
    assert_eq!(e.playhead(), 1);
    e.advance(1);
    assert_eq!(e.playhead(), 2);
}

#[test]
fn drain_applies_what_waits_in_the_channel() {
    let (tx, rx) = crossbeam_channel::unbounded::<EngineCmd>();
    let mut e = Engine::new(RATE);
    assert!(!e.drain(&rx));
    tx.send(EngineCmd::SetBpm(90)).unwrap();
    tx.send(EngineCmd::ToggleStep { lane: 4, step: 9, on: true }).unwrap();
    tx.send(EngineCmd::SetPlaying(true)).unwrap();
    assert!(!e.drain(&rx));
    assert_eq!(e.pattern().bpm(), 90);
    assert!(e.pattern().is_on(4, 9));
    assert!(e.is_playing());
    tx.send(EngineCmd::SetPlaying(false)).unwrap();
    tx.send(EngineCmd::SetMasterGain(40)).unwrap();
    assert!(e.drain(&rx));
    assert!(!e.is_playing());
    assert_eq!(e.master_gain(), 40);
    assert!(rx.is_empty());
}
