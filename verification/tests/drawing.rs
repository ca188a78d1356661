use piano_core::layout::{place_keys, KeyPlacement};
use piano_core::piano::{black_left_white_index, contains_tone, frame_lines, header, render, split_keys};
use piano_core::{generate_keys, KeyboardSpec, Note, Tone};

fn t(note: Note, octave: i32) -> Tone {
    Tone::new(note, octave)
}

#[test]
fn render_three_keys_with_black_active() {
    let keys = [t(Note::C, 4), t(Note::Cs, 4), t(Note::D, 4)];
    let lines = render(&keys, &[t(Note::Cs, 4)]);
    let expected = [
        "|  |X|  |",
        "|  |X|  |",
        "|  |X|  |",
        "|  |X|  |",
        "|   |   |",
        "|   |   |",
        "|   |   |",
        "|___|___|",
        " C4      ",
    ];
    assert_eq!(lines, expected);
}

#[test]
fn render_marks_active_white_keys() {
    let keys = [t(Note::B, 3), t(Note::C, 4), t(Note::Cs, 4), t(Note::D, 4)];
    let lines = render(&keys, &[t(Note::C, 4), t(Note::E, 9)]);
    let expected = [
        "|   |  | |  |",
        "|   |  | |  |",
        "|   |  | |  |",
        "|   |  | |  |",
        "|   |XXX|   |",
        "|   |XXX|   |",
        "|   |XXX|   |",
        "|___|___|___|",
        "     C4      ",
    ];
    assert_eq!(lines, expected);
}

#[test]
fn render_empty_keyboard() {
    let lines = render(&[], &[]);
    assert_eq!(lines.len(), 9);
    for l in &lines[..8] {
        assert_eq!(l, "|");
    }
    assert_eq!(lines[8], " ");
}

#[test]
fn render_skips_black_key_without_its_white_key() {
    let keys = [t(Note::Fs, 2), t(Note::G, 2)];
    let lines = render(&keys, &[t(Note::Fs, 2)]);
    assert_eq!(lines[0], "|   |");
    assert_eq!(lines[4], "|   |");
    assert_eq!(lines[8], "     ");
}

#[test]
fn render_label_is_cut_at_the_right_edge() {
    let keys = [t(Note::C, -1000)];
    let lines = render(&keys, &[]);
    assert_eq!(lines[8], " C-10");
}

#[test]
fn render_full_piano_shape() {
    let keys: Vec<Tone> = generate_keys(&KeyboardSpec::piano_88())
        .iter()
        .map(|k| Tone::new(k.note, k.octave))
        .collect();
    let lines = render(&keys, &[t(Note::A, 4)]);
    assert_eq!(lines.len(), 9);
    for l in &lines {
        assert_eq!(l.chars().count(), 52 * 4 + 1);
    }
    assert_eq!(lines[8].matches('C').count(), 8);
    assert_eq!(lines[5].matches('X').count(), 3);
}

#[test]
fn black_key_finds_its_left_white_key() {
    let whites = [t(Note::C, 4), t(Note::D, 4), t(Note::C, 5), t(Note::C, 4)];
    assert_eq!(black_left_white_index(&t(Note::Cs, 4), &whites), Some(0));
    assert_eq!(black_left_white_index(&t(Note::Cs, 5), &whites), Some(2));
    assert_eq!(black_left_white_index(&t(Note::Ds, 4), &whites), Some(1));
    assert_eq!(black_left_white_index(&t(Note::Ds, 5), &whites), None);
    assert_eq!(black_left_white_index(&t(Note::D, 4), &whites), None);
}

#[test]
fn split_keys_keeps_order() {
    let keys = [t(Note::As, 1), t(Note::B, 1), t(Note::C, 2), t(Note::Cs, 2)];
    let (w, b) = split_keys(&keys);
    assert_eq!(w, vec![t(Note::B, 1), t(Note::C, 2)]);
    assert_eq!(b, vec![t(Note::As, 1), t(Note::Cs, 2)]);
    assert!(contains_tone(&keys, &t(Note::C, 2)));
    assert!(!contains_tone(&keys, &t(Note::C, 3)));
}

#[test]
fn header_lines() {
    assert_eq!(header(&[]), "(silence)");
    assert_eq!(header(&[t(Note::A, 4)]), "playing: A4");
    assert_eq!(header(&[t(Note::C, 3), t(Note::Ds, 5), t(Note::G, -1)]), "playing: C3  Ds5  G-1");
}

#[test]
fn frame_is_header_then_drawing() {
    let keys = [t(Note::C, 4), t(Note::Cs, 4), t(Note::D, 4)];
    let active = [t(Note::Cs, 4)];
    let f = frame_lines(&keys, &active);
    assert_eq!(f.len(), 10);
    assert_eq!(f[0], "playing: Cs4");
    assert_eq!(&f[1..], &render(&keys, &active)[..]);
}

#[test]
fn key_placements() {
    let keys = [t(Note::Cs, 4), t(Note::D, 4), t(Note::Ds, 4), t(Note::E, 4), t(Note::F, 4), t(Note::Fs, 4)];
    let p = place_keys(&keys);
    assert_eq!(
        p,
        vec![
            None,
            Some(KeyPlacement::White { slot: 0 }),
            Some(KeyPlacement::Black { after_slot: 0 }),
            Some(KeyPlacement::White { slot: 1 }),
            Some(KeyPlacement::White { slot: 2 }),
            Some(KeyPlacement::Black { after_slot: 2 }),
        ]
    );
}

#[test]
fn render_ignores_order_repeats_and_foreign_tones() {
    let keys = [t(Note::B, 3), t(Note::C, 4), t(Note::Cs, 4), t(Note::D, 4)];
    let a = render(&keys, &[t(Note::Cs, 4), t(Note::B, 3)]);
    let b = render(&keys, &[t(Note::B, 3), t(Note::A, 0), t(Note::Cs, 4), t(Note::B, 3)]);
    assert_eq!(a, b);
    let c = render(&keys, &[t(Note::B, 3)]);
    assert_ne!(a, c);
}
