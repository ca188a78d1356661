use piano_core::{Note, Pitch, Tone};

#[test]
fn black_and_white_notes() {
    let blacks = [Note::Cs, Note::Ds, Note::Fs, Note::Gs, Note::As];
    for n in Note::all_notes() {
        assert_eq!(n.is_black(), blacks.contains(&n));
        assert_eq!(n.is_white(), !n.is_black());
    }
}

#[test]
fn all_notes_in_chromatic_order() {
    let notes = Note::all_notes();
    assert_eq!(notes[0], Note::C);
    assert_eq!(notes[9], Note::A);
    assert_eq!(notes[11], Note::B);
    for (i, n) in notes.iter().enumerate() {
        assert_eq!(n.index() as usize, i);
    }
}

#[test]
fn note_names() {
    let names: Vec<String> = Note::all_notes().iter().map(|n| n.to_string()).collect();
    assert_eq!(names, ["C", "Cs", "D", "Ds", "E", "F", "Fs", "G", "Gs", "A", "As", "B"]);
}

#[test]
fn tone_text() {
    assert_eq!(Tone::new(Note::Cs, 4).to_string(), "Cs4");
    assert_eq!(Tone::new(Note::A, -1).to_string(), "A-1");
    assert_eq!(Tone::new(Note::B, 10).to_string(), "B10");
    assert_eq!(Tone::new(Note::C, i32::MIN).to_string(), "C-2147483648");
}

#[test]
fn tones_of_midi_numbers() {
    assert_eq!(Tone::from_midi(69), Tone::new(Note::A, 4));
    assert_eq!(Tone::from_midi(60), Tone::new(Note::C, 4));
    assert_eq!(Tone::from_midi(12), Tone::new(Note::C, 0));
    assert_eq!(Tone::from_midi(0), Tone::new(Note::C, -1));
    assert_eq!(Tone::from_midi(11), Tone::new(Note::B, -1));
    // below zero the octave division rounds toward zero
    assert_eq!(Tone::from_midi(-1), Tone::new(Note::B, -1));
    assert_eq!(Tone::from_midi(-12), Tone::new(Note::C, -2));
    assert_eq!(Tone::from_midi(-13), Tone::new(Note::B, -2));
    assert_eq!(Tone::from_midi(i32::MAX), Tone::new(Note::G, 178956969));
    assert_eq!(Tone::from_midi(i32::MIN), Tone::new(Note::E, -178956971));
}

#[test]
fn midi_numbers_count_semitones_from_c_minus_one() {
    for m in 0..200 {
        let t = Tone::from_midi(m);
        assert_eq!(t.octave * 12 + t.note.index() as i32, m - 12);
    }
}

#[test]
fn pitch_new() {
    let p = Pitch::new(Note::Gs, 2);
    assert_eq!(p.note, Note::Gs);
    assert_eq!(p.octave, 2);
}
