use worker_dsp::fix::{
    clip_runs, gate_start, gate_step, silence_keep_frames, trim_range, GateState,
};

fn flags_of(xs: &[f32]) -> Vec<bool> {
    xs.iter().map(|x| x.abs() >= 0.99).collect()
}

#[test]
fn clean_signal_has_no_runs() {
    let xs: Vec<f32> = (0..100).map(|i| (i as f32 / 100.0) * 0.98 - 0.49).collect();
    assert!(clip_runs(&flags_of(&xs)).is_empty());
}

#[test]
fn clipped_ramp_is_covered() {
    // A ramp hard-clipped to 1.0 for 16 frames in the middle.
    let mut xs: Vec<f32> = (0..64).map(|i| i as f32 / 64.0).collect();
    for x in xs.iter_mut().skip(24).take(16) {
        *x = 1.0;
    }
    let runs = clip_runs(&flags_of(&xs));
    assert_eq!(runs, vec![(24, 40)]);
}

#[test]
fn runs_touching_the_ends_stay() {
    let flags = vec![true, true, false, true, false, false, true];
    assert_eq!(clip_runs(&flags), vec![(3, 4)]);
    assert!(clip_runs(&vec![true, true, true]).is_empty());
    assert!(clip_runs(&vec![]).is_empty());
}

#[test]
fn several_interior_runs_in_order() {
    let flags = vec![false, true, false, true, true, false];
    assert_eq!(clip_runs(&flags), vec![(1, 2), (3, 5)]);
}

#[test]
fn keep_frames_is_100_ms() {
    assert_eq!(silence_keep_frames(44100), 4410);
    assert_eq!(silence_keep_frames(48000), 4800);
}

#[test]
fn trim_keeps_padding_on_both_ends() {
    let mut a = vec![false; 1000];
    for x in a.iter_mut().skip(300).take(100) {
        *x = true;
    }
    // First audible 300, last 399, keep 50.
    assert_eq!(trim_range(&a, 50), Some((250, 450)));
}

#[test]
fn trim_nothing_when_short_silence() {
    let mut a = vec![false; 100];
    for x in a.iter_mut().skip(5).take(90) {
        *x = true;
    }
    assert_eq!(trim_range(&a, 10), None);
    assert_eq!(trim_range(&vec![false; 10], 2), None);
    assert_eq!(trim_range(&vec![], 2), None);
}

#[test]
fn trim_one_end_only() {
    let mut a = vec![false; 100];
    for x in a.iter_mut().skip(50) {
        *x = true;
    }
    assert_eq!(trim_range(&a, 10), Some((40, 100)));
}

#[test]
fn gate_holds_then_closes() {
    let g = gate_start();
    assert_eq!(g, GateState { open: false, hold: 0 });
    let g = gate_step(g, true, 2);
    assert_eq!(g, GateState { open: true, hold: 2 });
    let g = gate_step(g, false, 2);
    assert_eq!(g, GateState { open: true, hold: 1 });
    let g = gate_step(g, false, 2);
    assert_eq!(g, GateState { open: true, hold: 0 });
    let g = gate_step(g, false, 2);
    assert_eq!(g, GateState { open: false, hold: 0 });
}
