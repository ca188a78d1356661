use vstd::prelude::*;

use crate::keyboard::KeyboardSpec;
use crate::text::{nat_decimal, push_decimal};
use crate::tone::{tone_text, Tone};

verus! {

/// A trained detection model: its name, the file that holds its data, and the keys it was
/// trained on (the lowest one and how many).
#[derive(Debug, Clone)]
pub struct ModelInfo {
    pub name: String,
    pub filename: String,
    pub start_tone: Tone,
    pub key_count: usize,
}

/// The one-line description of a model: `<name> (<count> notes from <lowest tone>)`.
pub open spec fn summary_text(name: Seq<char>, key_count: nat, start_tone: Tone) -> Seq<char> {
    name + " ("@ + nat_decimal(key_count) + " notes from "@ + tone_text(start_tone) + ")"@
}

impl ModelInfo {
    /// A one-line description of the model, such as `Grand (61 notes from C3)`.
    pub fn summary(&self) -> (s: String)
        ensures
            s@ == summary_text(self.name@, self.key_count as nat, self.start_tone),
    {
        let mut s = self.name.clone();
        s.append(" (");
        push_decimal(&mut s, self.key_count as u64);
        s.append(" notes from ");
        let tone = self.start_tone.to_string();
        s.append(tone.as_str());
        s.append(")");
        s
    }

    /// The keyboard that the model covers: from its lowest tone, as many keys as it knows.
    pub fn to_keyboard_spec(&self) -> (k: KeyboardSpec)
        ensures
            k.start_note == self.start_tone.note,
            k.start_octave == self.start_tone.octave,
            k.key_count == self.key_count,
    {
        KeyboardSpec {
            start_note: self.start_tone.note,
            start_octave: self.start_tone.octave,
            key_count: self.key_count,
        }
    }
}

} // verus!
