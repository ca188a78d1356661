use vstd::prelude::*;

use crate::note::{lemma_note_index_at, note_at, note_index, Note};
use crate::tone::semitone;

verus! {

/// One key of a keyboard: the note it plays and the octave of that note.
#[derive(Debug, Clone, Copy, PartialEq, Eq, Structural)]
pub struct KeyInfo {
    pub note: Note,
    pub octave: i32,
}

/// A keyboard: its lowest key and how many keys it has, one per semitone.
#[derive(Debug, Clone, Copy, PartialEq, Eq, Structural)]
pub struct KeyboardSpec {
    pub start_note: Note,
    pub start_octave: i32,
    pub key_count: usize,
}

/// The two keyboards that can be shown.
#[derive(Debug, Clone, Copy, PartialEq, Eq, Structural)]
pub enum KeyboardKind {
    Piano88,
    PianoSmall,
}

/// The key `i` semitones above the given lowest key.
pub open spec fn key_at(start_note: Note, start_octave: int, i: int) -> KeyInfo {
    let k = note_index(start_note) + i;
    KeyInfo { note: note_at(k % 12), octave: (start_octave + k / 12) as i32 }
}

/// The keys of a keyboard, from the lowest up, one semitone apart.
pub open spec fn spec_keys(spec: KeyboardSpec) -> Seq<KeyInfo> {
    Seq::new(spec.key_count as nat, |i: int| key_at(spec.start_note, spec.start_octave as int, i))
}

/// The keys of a keyboard can be listed without an octave number leaving the range of `i32`.
pub open spec fn keys_fit(spec: KeyboardSpec) -> bool {
    spec.start_octave + (note_index(spec.start_note) + spec.key_count) / 12 <= i32::MAX
}

/// The keyboard of the 88-key piano: A0 up to C8.
pub open spec fn spec_piano_88() -> KeyboardSpec {
    KeyboardSpec { start_note: Note::A, start_octave: 0, key_count: 88 }
}

/// The smaller 61-key keyboard: C3 up to C8.
pub open spec fn spec_piano_smaller() -> KeyboardSpec {
    KeyboardSpec { start_note: Note::C, start_octave: 3, key_count: 61 }
}

impl KeyboardSpec {
    /// A keyboard that starts at the given key and spans `octaves` whole octaves: twelve keys
    /// per octave and one more, so that it ends on the note it starts with.
    pub fn from_octaves(start_note: Note, start_octave: i32, octaves: usize) -> (s: KeyboardSpec)
        requires
            octaves * 12 + 1 <= usize::MAX,
        ensures
            s.start_note == start_note,
            s.start_octave == start_octave,
            s.key_count == octaves * 12 + 1,
    {
        KeyboardSpec { start_note, start_octave, key_count: octaves * 12 + 1 }
    }

    /// The 88-key piano, from A0 up to C8.
    pub fn piano_88() -> (s: KeyboardSpec)
        ensures
            s == spec_piano_88(),
    {
        KeyboardSpec { start_note: Note::A, start_octave: 0, key_count: 88 }
    }

    /// The smaller 61-key keyboard, from C3 up to C8.
    pub fn piano_smaller() -> (s: KeyboardSpec)
        ensures
            s == spec_piano_smaller(),
    {
        KeyboardSpec { start_note: Note::C, start_octave: 3, key_count: 61 }
    }
}

/// The keys of a keyboard, from the lowest up.
pub fn generate_keys(spec: &KeyboardSpec) -> (keys: Vec<KeyInfo>)
    requires
        keys_fit(*spec),
    ensures
        keys@ == spec_keys(*spec),
{
    let scale = Note::all_notes();
    let mut keys: Vec<KeyInfo> = Vec::with_capacity(spec.key_count);
    let mut octave: i32 = spec.start_octave;
    let mut index: usize = spec.start_note.index() as usize;
    let ghost i0 = note_index(spec.start_note);
    proof {
        lemma_note_index_at();
    }
    let mut n: usize = 0;
    while n < spec.key_count
        invariant
            n <= spec.key_count,
            keys_fit(*spec),
            0 <= i0 < 12,
            i0 == note_index(spec.start_note),
            index == (i0 + n) % 12,
            octave == spec.start_octave + (i0 + n) / 12,
            forall|i: int| 0 <= i < 12 ==> #[trigger] scale@[i] == note_at(i),
            keys@ == spec_keys(*spec).take(n as int),
        decreases spec.key_count - n,
    {
        let note = scale[index];
        keys.push(KeyInfo { note, octave });
        assert(keys@ =~= spec_keys(*spec).take(n + 1));
        index = index + 1;
        if index == 12 {
            index = 0;
            assert((i0 + n + 1) / 12 == (i0 + n) / 12 + 1);
            octave = octave + 1;
        }
        n = n + 1;
    }
    assert(keys@ =~= spec_keys(*spec));
    keys
}

/// The keyboard of the given kind.
pub fn keyboard_spec(kind: KeyboardKind) -> (s: KeyboardSpec)
    ensures
        kind == KeyboardKind::Piano88 ==> s == spec_piano_88(),
        kind == KeyboardKind::PianoSmall ==> s == spec_piano_smaller(),
{
    match kind {
        KeyboardKind::Piano88 => KeyboardSpec::piano_88(),
        KeyboardKind::PianoSmall => KeyboardSpec::piano_smaller(),
    }
}

/// The keys of a keyboard rise one semitone at a time: the key at position `i` lies `i`
/// semitones above the lowest key.
pub proof fn lemma_keys_rise_by_semitones(spec: KeyboardSpec)
    requires
        keys_fit(spec),
    ensures
        forall|i: int|
            0 <= i < spec.key_count ==> semitone(#[trigger] spec_keys(spec)[i].note, spec_keys(spec)[i].octave as int)
                == semitone(spec.start_note, spec.start_octave as int) + i,
{
    lemma_note_index_at();
    assert forall|i: int| 0 <= i < spec.key_count implies semitone(
        #[trigger] spec_keys(spec)[i].note,
        spec_keys(spec)[i].octave as int,
    ) == semitone(spec.start_note, spec.start_octave as int) + i by {
        let k = note_index(spec.start_note) + i;
        assert(0 <= k % 12 < 12);
        assert(note_index(note_at(k % 12)) == k % 12);
        assert(k / 12 <= (note_index(spec.start_note) + spec.key_count) / 12);
        assert(12 * (k / 12) + k % 12 == k);
    }
}

/// A keyboard made of whole octaves ends on the note it starts with, that many octaves higher.
pub proof fn lemma_octaves_end_on_start_note(start_note: Note, start_octave: i32, octaves: usize)
    requires
        octaves * 12 + 1 <= usize::MAX,
        start_octave + octaves + 1 <= i32::MAX,
    ensures
        ({
            let spec = KeyboardSpec { start_note, start_octave, key_count: (octaves * 12 + 1) as usize };
            &&& keys_fit(spec)
            &&& spec_keys(spec)[0] == KeyInfo { note: start_note, octave: start_octave }
            &&& spec_keys(spec)[octaves * 12] == KeyInfo {
                note: start_note,
                octave: (start_octave + octaves) as i32,
            }
        }),
{
    lemma_note_index_at();
    let i0 = note_index(start_note);
    assert((i0 + octaves * 12) % 12 == i0);
    assert((i0 + octaves * 12) / 12 == octaves);
    assert((i0 + octaves * 12 + 1) / 12 <= octaves + 1);
}

} // verus!
