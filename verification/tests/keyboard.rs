use piano_core::keyboard::keyboard_spec;
use piano_core::{generate_keys, KeyInfo, KeyboardKind, KeyboardSpec, ModelInfo, Note, Tone};

#[test]
fn test_generate_keys() {
    // generate keys for a small piano
    let spec = KeyboardSpec::piano_smaller();
    let keys = generate_keys(&spec);
    assert_eq!(keys.len(), spec.key_count);

    // generate keys for a standard 88-key piano, pretty much same as above
    let spec = KeyboardSpec::piano_88();
    let keys = generate_keys(&spec);
    assert_eq!(keys.len(), spec.key_count);

    // generate keys for a custom spec
    let spec = KeyboardSpec {
        start_note: Note::C,
        start_octave: 4,
        key_count: 24,
    };
    let keys = generate_keys(&spec);
    assert_eq!(keys.len(), spec.key_count);

    // generate keys for a spec starting with a black key
    let spec = KeyboardSpec {
        start_note: Note::Cs,
        start_octave: 4,
        key_count: 12,
    };
    let keys = generate_keys(&spec);
    assert_eq!(keys.len(), spec.key_count);

    // generate keys for a specification with a single key
    let spec = KeyboardSpec {
        start_note: Note::C,
        start_octave: 4,
        key_count: 1,
    };
    let keys = generate_keys(&spec);
    assert_eq!(keys.len(), spec.key_count);
}

#[test]
fn test_keyboard_spec_from_octaves() {
    let spec = KeyboardSpec::from_octaves(Note::C, 4, 2);
    assert_eq!(spec.start_note, Note::C);
    assert_eq!(spec.start_octave, 4);
    assert_eq!(spec.key_count, 25);
}

#[test]
fn test_keyboard_spec_piano_88() {
    let spec = KeyboardSpec::piano_88();
    assert_eq!(spec.start_note, Note::A);
    assert_eq!(spec.start_octave, 0);
    assert_eq!(spec.key_count, 88);
}

#[test]
fn test_keyboard_spec_piano_smaller() {
    let spec = KeyboardSpec::piano_smaller();
    assert_eq!(spec.start_note, Note::C);
    assert_eq!(spec.start_octave, 3);
    assert_eq!(spec.key_count, 61);
}

#[test]
fn piano_88_spans_a0_to_c8() {
    let keys = generate_keys(&KeyboardSpec::piano_88());
    assert_eq!(keys[0], KeyInfo { note: Note::A, octave: 0 });
    assert_eq!(keys[1], KeyInfo { note: Note::As, octave: 0 });
    assert_eq!(keys[2], KeyInfo { note: Note::B, octave: 0 });
    assert_eq!(keys[3], KeyInfo { note: Note::C, octave: 1 });
    assert_eq!(keys[87], KeyInfo { note: Note::C, octave: 8 });
    assert_eq!(keys.iter().filter(|k| k.note.is_white()).count(), 52);
    assert_eq!(keys.iter().filter(|k| k.note.is_black()).count(), 36);
}

#[test]
fn piano_smaller_spans_c3_to_c8() {
    let keys = generate_keys(&KeyboardSpec::piano_smaller());
    assert_eq!(keys[0], KeyInfo { note: Note::C, octave: 3 });
    assert_eq!(keys[60], KeyInfo { note: Note::C, octave: 8 });
}

#[test]
fn keys_rise_one_semitone_at_a_time() {
    let spec = KeyboardSpec { start_note: Note::Gs, start_octave: -2, key_count: 40 };
    let keys = generate_keys(&spec);
    let semi = |k: &KeyInfo| k.octave as i64 * 12 + k.note.index() as i64;
    for i in 0..keys.len() {
        assert_eq!(semi(&keys[i]), semi(&keys[0]) + i as i64);
    }
    assert_eq!(keys[4], KeyInfo { note: Note::C, octave: -1 });
}

#[test]
fn starting_on_a_black_key_wraps_into_the_next_octave() {
    let spec = KeyboardSpec { start_note: Note::Cs, start_octave: 4, key_count: 12 };
    let keys = generate_keys(&spec);
    assert_eq!(keys[0], KeyInfo { note: Note::Cs, octave: 4 });
    assert_eq!(keys[10], KeyInfo { note: Note::B, octave: 4 });
    assert_eq!(keys[11], KeyInfo { note: Note::C, octave: 5 });
}

#[test]
fn empty_keyboard_has_no_keys() {
    let spec = KeyboardSpec { start_note: Note::E, start_octave: 1, key_count: 0 };
    assert!(generate_keys(&spec).is_empty());
}

#[test]
fn whole_octaves_end_on_the_start_note() {
    let spec = KeyboardSpec::from_octaves(Note::F, 2, 3);
    assert_eq!(spec.key_count, 37);
    let keys = generate_keys(&spec);
    assert_eq!(keys[0], KeyInfo { note: Note::F, octave: 2 });
    assert_eq!(keys[36], KeyInfo { note: Note::F, octave: 5 });
}

#[test]
fn keyboard_kinds_select_their_keyboards() {
    let big = keyboard_spec(KeyboardKind::Piano88);
    assert_eq!((big.start_note, big.start_octave, big.key_count), (Note::A, 0, 88));
    let small = keyboard_spec(KeyboardKind::PianoSmall);
    assert_eq!((small.start_note, small.start_octave, small.key_count), (Note::C, 3, 61));
}

#[test]
fn model_summary_and_keyboard() {
    let m = ModelInfo {
        name: "Grand".to_string(),
        filename: "grand.bin".to_string(),
        start_tone: Tone::new(Note::C, 3),
        key_count: 61,
    };
    assert_eq!(m.summary(), "Grand (61 notes from C3)");
    let spec = m.to_keyboard_spec();
    assert_eq!((spec.start_note, spec.start_octave, spec.key_count), (Note::C, 3, 61));

    let m2 = ModelInfo {
        name: String::new(),
        filename: String::new(),
        start_tone: Tone::new(Note::As, -1),
        key_count: 0,
    };
    assert_eq!(m2.summary(), " (0 notes from As-1)");
}
