use piano_core::detect::{select_tones, DetectionMode};
use piano_core::onset::{OnsetTracker, FFT_ACCUMULATE_BLOCKS, TOTAL_SIZE};
use piano_core::{Note, Tone};

fn t(note: Note, octave: i32) -> Tone {
    Tone::new(note, octave)
}

#[test]
fn detection_mode_defaults_to_polyphonic() {
    assert_eq!(DetectionMode::default(), DetectionMode::Polyphonic);
}

#[test]
fn select_tones_drops_neighbours_and_unknown_atoms() {
    let map = [t(Note::C, 3), t(Note::Cs, 3), t(Note::D, 3), t(Note::E, 3), t(Note::C, 4)];
    // strongest first: C#3, then C3 (one semitone away: dropped), atom 9 (unknown),
    // D3 (one semitone from C#3: dropped), E3 (kept), C4 (kept)
    let kept = select_tones(&map, &[1, 0, 9, 2, 3, 4]);
    assert_eq!(kept, vec![t(Note::Cs, 3), t(Note::E, 3), t(Note::C, 4)]);
    assert!(select_tones(&map, &[]).is_empty());
    assert_eq!(select_tones(&map, &[0, 2]), vec![t(Note::C, 3), t(Note::D, 3)]);
    assert_eq!(select_tones(&map, &[4, 4]), vec![t(Note::C, 4)]);
}

#[test]
fn kept_tones_are_two_semitones_apart() {
    let map: Vec<Tone> = (0..24).map(|m| Tone::from_midi(48 + m)).collect();
    let cands: Vec<usize> = vec![5, 6, 4, 7, 3, 20, 21, 19, 0, 1, 30];
    let kept = select_tones(&map, &cands);
    let semi = |x: &Tone| x.octave as i64 * 12 + x.note.index() as i64;
    for a in 0..kept.len() {
        for b in a + 1..kept.len() {
            assert!((semi(&kept[a]) - semi(&kept[b])).abs() >= 2);
        }
    }
    assert_eq!(kept.len(), 5);
}

#[test]
fn tracker_stays_idle_below_onset() {
    let mut tr = OnsetTracker::new(0i32);
    let out = tr.process_block(&[5, 5], false, true);
    assert!(!out.onset && !out.offset && out.window.is_none());
}

#[test]
fn tracker_hands_out_window_every_tenth_block() {
    let mut tr = OnsetTracker::new(0i32);
    let out = tr.process_block(&[1, 2, 3], true, false);
    assert!(out.onset && !out.offset && out.window.is_none());
    let mut next = 4;
    for b in 1..FFT_ACCUMULATE_BLOCKS {
        let block = [next, next + 1, next + 2];
        next += 3;
        let out = tr.process_block(&block, true, false);
        assert!(!out.onset && !out.offset);
        if b + 1 < FFT_ACCUMULATE_BLOCKS {
            assert!(out.window.is_none());
        } else {
            let w = out.window.expect("window due");
            assert_eq!(w.len(), TOTAL_SIZE);
            assert!(w[..TOTAL_SIZE - 30].iter().all(|&x| x == 0));
            let tail: Vec<i32> = (1..=30).collect();
            assert_eq!(&w[TOTAL_SIZE - 30..], &tail[..]);
        }
    }
    // the next window comes ten blocks later
    let out = tr.process_block(&[100], false, false);
    assert!(out.window.is_none());
    let out = tr.process_block(&[7], false, true);
    assert!(out.offset && out.window.is_none());
    // a new onset starts from silence again
    let out = tr.process_block(&[9], true, false);
    assert!(out.onset);
}

#[test]
fn tracker_window_wraps_around_the_ring() {
    let mut tr = OnsetTracker::new(-1i64);
    let mut last = None;
    let block: Vec<i64> = (0..1000).collect();
    for _ in 0..FFT_ACCUMULATE_BLOCKS {
        let out = tr.process_block(&block, true, false);
        if out.window.is_some() {
            last = out.window;
        }
    }
    let w = last.expect("window due");
    // 10000 samples went in; the window holds the last 4096 of them
    let all: Vec<i64> = (0..10).flat_map(|_| 0..1000).collect();
    assert_eq!(&w[..], &all[all.len() - TOTAL_SIZE..]);
}

#[test]
fn tracker_second_window_comes_ten_blocks_later() {
    let mut tr = OnsetTracker::new(0u8);
    let mut windows = Vec::new();
    for k in 0..(3 * FFT_ACCUMULATE_BLOCKS) {
        let out = tr.process_block(&[1, 2], true, false);
        if out.window.is_some() {
            windows.push(k);
        }
    }
    assert_eq!(
        windows,
        vec![FFT_ACCUMULATE_BLOCKS - 1, 2 * FFT_ACCUMULATE_BLOCKS - 1, 3 * FFT_ACCUMULATE_BLOCKS - 1]
    );
}
