use tuityloops::sequencer::{Key, KeyPress, Sequencer};
use tuityloops::view::{
    lane_hue, lane_name, position, ruler, ruler_label, separator_before, view_window, Hue,
    Position, Separator, ViewWindow,
};

#[test]
fn position_splits_the_playhead() {
    assert_eq!(position(0), Position { step: 0, bar: 0, beat: 0, sub: 0 });
    assert_eq!(position(300), Position { step: 44, bar: 2, beat: 3, sub: 0 });
    assert_eq!(position(255), Position { step: 255, bar: 15, beat: 3, sub: 3 });
}

#[test]
fn narrow_panel_shows_one_bar() {
    assert_eq!(
        view_window(0, 0),
        ViewWindow { start_bar: 0, end_bar: 0, start_step: 0, end_step: 16 }
    );
    assert_eq!(
        view_window(41, 100),
        ViewWindow { start_bar: 6, end_bar: 6, start_step: 96, end_step: 112 }
    );
}

#[test]
fn panel_shows_every_bar_that_fits() {
    // 78 inner columns hold two bars: 2 * 40 - 2 columns, the first bar
    // having no bar mark before it
    assert_eq!(
        view_window(80, 0),
        ViewWindow { start_bar: 0, end_bar: 1, start_step: 0, end_step: 32 }
    );
    // 77 inner columns hold only one
    assert_eq!(
        view_window(79, 0),
        ViewWindow { start_bar: 0, end_bar: 0, start_step: 0, end_step: 16 }
    );
    // sixteen bars take 638 columns
    assert_eq!(view_window(640, 0).end_bar, 15);
    assert_eq!(view_window(639, 0).end_bar, 14);
}

#[test]
fn window_centres_the_cursor_bar() {
    // 98 inner columns fit two bars
    assert_eq!(
        view_window(100, 200),
        ViewWindow { start_bar: 11, end_bar: 12, start_step: 176, end_step: 208 }
    );
    // five bars around bar 1 start at the first bar
    assert_eq!(
        view_window(202, 20),
        ViewWindow { start_bar: 0, end_bar: 4, start_step: 0, end_step: 80 }
    );
    // near the end the window stops at the last bar
    assert_eq!(
        view_window(202, 255),
        ViewWindow { start_bar: 11, end_bar: 15, start_step: 176, end_step: 256 }
    );
    // a wide panel shows every bar
    assert_eq!(
        view_window(1000, 130),
        ViewWindow { start_bar: 0, end_bar: 15, start_step: 0, end_step: 256 }
    );
}

#[test]
fn marks_and_labels() {
    assert_eq!(separator_before(16, 16), Separator::Blank);
    assert_eq!(separator_before(32, 16), Separator::Bar);
    assert_eq!(separator_before(20, 16), Separator::Beat);
    assert_eq!(separator_before(21, 16), Separator::Blank);
    assert_eq!(ruler_label(16), Some(1));
    assert_eq!(ruler_label(28), Some(4));
    assert_eq!(ruler_label(29), None);
    let r = ruler(ViewWindow { start_bar: 1, end_bar: 1, start_step: 16, end_step: 32 });
    assert_eq!(r.len(), 16);
    assert_eq!(r[0].separator, Separator::Blank);
    assert_eq!(r[0].label, Some(1));
    assert_eq!(r[4].separator, Separator::Beat);
    assert_eq!(r[4].label, Some(2));
    assert_eq!(r[5].label, None);
}

#[test]
fn rows_show_cells_cursor_and_playhead() {
    let mut s = Sequencer::new();
    s.handle_key(KeyPress { key: Key::Right, control_only: false });
    let w = view_window(40, 0);
    let row = s.row(0, w, 4);
    assert_eq!(row.len(), 16);
    assert!(row[0].on && !row[0].cursor);
    assert!(!row[1].on && row[1].cursor);
    // playback is off, so no playhead
    assert!(row.iter().all(|c| !c.playhead));
    s.handle_key(KeyPress { key: Key::Char('p'), control_only: false });
    let row = s.row(1, w, 4);
    assert!(row[4].playhead && row[4].on && !row[4].cursor);
    assert_eq!(row.iter().filter(|c| c.playhead).count(), 1);
}

#[test]
fn lane_names_and_hues() {
    let names = ["Kick", "Snare", "Hat", "Clap", "Tom", "Rim"];
    let hues = [Hue::Red, Hue::Yellow, Hue::Cyan, Hue::Magenta, Hue::Green, Hue::Blue];
    for lane in 0..6 {
        assert_eq!(lane_name(lane), names[lane]);
        assert_eq!(lane_hue(lane), hues[lane]);
    }
    assert_eq!(lane_hue(6), Hue::White);
}
