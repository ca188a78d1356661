use vstd::prelude::*;

use crate::note::{lemma_note_index_at, note_at, note_index, note_name, Note};
use crate::text::{int_decimal, push_signed_decimal};

verus! {

/// A note in a given octave, such as the A of octave 4.
#[derive(Debug, Clone, Copy, PartialEq, Eq, Structural, Hash)]
pub struct Tone {
    pub note: Note,
    pub octave: i32,
}

/// A detected note in a given octave.
#[derive(Debug, Clone, Copy, PartialEq, Eq, Structural, Hash)]
pub struct Pitch {
    pub note: Note,
    pub octave: i32,
}

/// The number of semitones from C of octave 0 up to a note in an octave.
pub open spec fn semitone(note: Note, octave: int) -> int {
    12 * octave + note_index(note)
}

/// Division rounding toward zero, as Rust's integer `/` does.
pub open spec fn div_toward_zero(a: int, b: int) -> int
    recommends
        b > 0,
{
    if a >= 0 {
        a / b
    } else {
        -((-a) / b)
    }
}

/// The tone of a MIDI note number: the note is the number modulo 12 (counted from C), the
/// octave is the number divided by 12 (rounded toward zero) minus one.
pub open spec fn tone_of_midi(midi: int) -> Tone {
    Tone { note: note_at(midi % 12), octave: (div_toward_zero(midi, 12) - 1) as i32 }
}

/// The text of a tone: the name of its note followed by its octave in decimal, such as `Cs4`.
pub open spec fn tone_text(t: Tone) -> Seq<char> {
    note_name(t.note) + int_decimal(t.octave as int)
}

impl Tone {
    /// The tone of a note in an octave.
    pub fn new(note: Note, octave: i32) -> (t: Tone)
        ensures
            t.note == note,
            t.octave == octave,
    {
        Tone { note, octave }
    }

    /// The tone that a MIDI note number names (69 is the A of octave 4).
    pub fn from_midi(midi: i32) -> (t: Tone)
        ensures
            t == tone_of_midi(midi as int),
    {
        let m = midi as i64;
        let q: i64 = if m >= 0 {
            m / 12
        } else {
            -((-m) / 12)
        };
        let r: i64 = if m >= 0 {
            m % 12
        } else {
            let k = (-m) % 12;
            if k == 0 {
                0
            } else {
                12 - k
            }
        };
        assert(r == (midi as int) % 12) by (nonlinear_arith)
            requires
                m == midi,
                m >= 0 ==> r == m % 12,
                m < 0 ==> r == (if (-m) % 12 == 0 {
                    0
                } else {
                    12 - (-m) % 12
                }),
        ;
        let notes = Note::all_notes();
        let note = notes[r as usize];
        Tone { note, octave: (q - 1) as i32 }
    }

    /// The text of the tone, such as `Cs4` or `A-1`.
    pub fn to_string(&self) -> (s: String)
        ensures
            s@ == tone_text(*self),
    {
        let mut s = self.note.to_string();
        push_signed_decimal(&mut s, self.octave as i64);
        s
    }
}

impl Pitch {
    /// The pitch of a note in an octave.
    pub fn new(note: Note, octave: i32) -> (p: Pitch)
        ensures
            p.note == note,
            p.octave == octave,
    {
        Pitch { note, octave }
    }
}

/// MIDI numbering: the tone of MIDI number `m` lies `m - 12` semitones above C of octave 0
/// (MIDI 12 is C0, 60 is C4, 69 is A4). This holds for every number from 0 up, and for
/// negative multiples of twelve; other negative numbers land one octave too high, since the
/// octave is found by a division that rounds toward zero.
pub proof fn lemma_midi_semitone(midi: int)
    requires
        i32::MIN <= midi <= i32::MAX,
        midi >= 0 || midi % 12 == 0,
    ensures
        semitone(tone_of_midi(midi).note, tone_of_midi(midi).octave as int) == midi - 12,
{
    lemma_note_index_at();
    assert(0 <= midi % 12 < 12);
    if midi >= 0 {
        assert(12 * (midi / 12) + midi % 12 == midi);
    } else {
        assert(((-midi) % 12) == 0);
        assert(12 * ((-midi) / 12) == -midi);
    }
}

} // verus!
