use tuityloops::offline::{render_frames, render_hits, step_samples};
use tuityloops::sequencer::Sequencer;
use tuityloops::voice::{clap_gate_open, Noise};

#[test]
fn offline_step_length_and_render_length() {
    // 44100 * 15 / 120 = 5512.5 samples per step
    assert_eq!(step_samples(120), 5512);
    assert_eq!(step_samples(300), 2205);
    assert_eq!(step_samples(30), 22050);
    assert_eq!(render_frames(120), 1_411_200);
    assert_eq!(render_frames(30), 5_644_800);
    for bpm in 30..=300 {
        let len = step_samples(bpm);
        let frames = render_frames(bpm);
        assert!(256 * len <= frames && frames < 256 * len + 256);
        assert!(len * bpm as usize <= 15 * 44100 && 15 * 44100 < (len + 1) * bpm as usize);
        if bpm > 30 {
            assert!(step_samples(bpm - 1) >= len);
        }
    }
}

#[test]
fn offline_schedule() {
    let s = Sequencer::new();
    let p = s.pattern();
    assert_eq!(render_hits(p, 0, 5512), vec![true, false, true, false, false, false]);
    assert_eq!(render_hits(p, 1, 5512), vec![false; 6]);
    assert_eq!(render_hits(p, 5512 * 4, 5512), vec![true, true, true, false, false, false]);
    assert_eq!(render_hits(p, 5512 * 2, 5512), vec![false, false, true, false, false, true]);
    // the last step is struck once; after it the render holds no strike
    assert_eq!(render_hits(p, 5512 * 255, 5512), vec![false, false, true, false, false, false]);
    assert_eq!(render_hits(p, 5512 * 256, 5512), vec![false; 6]);
    let frames = render_frames(120);
    let mut strikes = 0;
    for i in 0..frames {
        if render_hits(p, i, 5512)[2] {
            strikes += 1;
        }
    }
    assert_eq!(strikes, 256);
}

#[test]
fn noise_sources_step_their_generators() {
    let mut n = Noise::snare();
    let expect = 0x1234_5678u32.wrapping_mul(1_664_525).wrapping_add(1_013_904_223);
    let (draw, full) = n.draw();
    assert_eq!(n.state, expect);
    assert_eq!(draw, expect >> 9);
    assert_eq!(full, u32::MAX >> 9);
    let mut h = Noise::hat();
    let (d, f) = h.draw();
    assert_eq!(h.state, 0xdead_beefu32.wrapping_mul(1_103_515_245).wrapping_add(12_345));
    assert!(d <= f);
    assert_eq!(f, u32::MAX >> 10);
    assert_eq!(Noise::clap().shift, 11);
    assert_eq!(Noise::rim().state, 0x3141_5926);
}

#[test]
fn clap_claps_three_times() {
    let opens: Vec<bool> = [0, 250, 251, 380, 381, 620, 621, 760, 761, 1100, 1101, 5000]
        .iter()
        .map(|&b| clap_gate_open(b))
        .collect();
    assert_eq!(
        opens,
        vec![true, true, false, false, true, true, false, false, true, true, false, false]
    );
}
