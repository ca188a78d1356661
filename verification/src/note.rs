use vstd::prelude::*;

verus! {

/// The twelve pitch classes of the chromatic scale; `Cs` stands for C sharp, and so on.
#[derive(Debug, Clone, Copy, PartialEq, Eq, Structural, Hash)]
pub enum Note {
    C,
    Cs,
    D,
    Ds,
    E,
    F,
    Fs,
    G,
    Gs,
    A,
    As,
    B,
}

/// Position of a note in the chromatic scale that starts at C, from 0 to 11.
pub open spec fn note_index(n: Note) -> int {
    match n {
        Note::C => 0,
        Note::Cs => 1,
        Note::D => 2,
        Note::Ds => 3,
        Note::E => 4,
        Note::F => 5,
        Note::Fs => 6,
        Note::G => 7,
        Note::Gs => 8,
        Note::A => 9,
        Note::As => 10,
        Note::B => 11,
    }
}

/// The note at a position of the chromatic scale that starts at C (positions 0 to 11).
pub open spec fn note_at(i: int) -> Note {
    if i == 0 {
        Note::C
    } else if i == 1 {
        Note::Cs
    } else if i == 2 {
        Note::D
    } else if i == 3 {
        Note::Ds
    } else if i == 4 {
        Note::E
    } else if i == 5 {
        Note::F
    } else if i == 6 {
        Note::Fs
    } else if i == 7 {
        Note::G
    } else if i == 8 {
        Note::Gs
    } else if i == 9 {
        Note::A
    } else if i == 10 {
        Note::As
    } else {
        Note::B
    }
}

/// The notes played on black keys: the five sharps.
pub open spec fn is_black_note(n: Note) -> bool {
    n == Note::Cs || n == Note::Ds || n == Note::Fs || n == Note::Gs || n == Note::As
}

/// The name of a note as text: its letter, followed by `s` for a sharp.
pub open spec fn note_name(n: Note) -> Seq<char> {
    match n {
        Note::C => seq!['C'],
        Note::Cs => seq!['C', 's'],
        Note::D => seq!['D'],
        Note::Ds => seq!['D', 's'],
        Note::E => seq!['E'],
        Note::F => seq!['F'],
        Note::Fs => seq!['F', 's'],
        Note::G => seq!['G'],
        Note::Gs => seq!['G', 's'],
        Note::A => seq!['A'],
        Note::As => seq!['A', 's'],
        Note::B => seq!['B'],
    }
}

/// Numbering the notes from C and naming the note at a number are inverse to each other.
pub proof fn lemma_note_index_at()
    ensures
        forall|n: Note| #[trigger] note_at(note_index(n)) == n,
        forall|n: Note| 0 <= #[trigger] note_index(n) < 12,
        forall|i: int| 0 <= i < 12 ==> #[trigger] note_index(note_at(i)) == i,
{
}

impl Note {
    /// Whether the note is played on a black key.
    pub fn is_black(&self) -> (b: bool)
        ensures
            b == is_black_note(*self),
    {
        match self {
            Note::Cs | Note::Ds | Note::Fs | Note::Gs | Note::As => true,
            _ => false,
        }
    }

    /// Whether the note is played on a white key.
    pub fn is_white(&self) -> (b: bool)
        ensures
            b == !is_black_note(*self),
    {
        !self.is_black()
    }

    /// The twelve notes in chromatic order, starting at C.
    pub fn all_notes() -> (notes: [Note; 12])
        ensures
            forall|i: int| 0 <= i < 12 ==> #[trigger] notes@[i] == note_at(i),
    {
        [
            Note::C,
            Note::Cs,
            Note::D,
            Note::Ds,
            Note::E,
            Note::F,
            Note::Fs,
            Note::G,
            Note::Gs,
            Note::A,
            Note::As,
            Note::B,
        ]
    }

    /// The position of the note in the chromatic scale that starts at C.
    pub fn index(&self) -> (i: u8)
        ensures
            i == note_index(*self),
    {
        match self {
            Note::C => 0,
            Note::Cs => 1,
            Note::D => 2,
            Note::Ds => 3,
            Note::E => 4,
            Note::F => 5,
            Note::Fs => 6,
            Note::G => 7,
            Note::Gs => 8,
            Note::A => 9,
            Note::As => 10,
            Note::B => 11,
        }
    }

    /// The name of the note as text, such as `C` or `Cs`.
    pub fn name(&self) -> (s: &'static str)
        ensures
            s@ == note_name(*self),
    {
        match self {
            Note::C => {
                proof {
                    reveal_strlit("C");
                }
                "C"
            },
            Note::Cs => {
                proof {
                    reveal_strlit("Cs");
                }
                "Cs"
            },
            Note::D => {
                proof {
                    reveal_strlit("D");
                }
                "D"
            },
            Note::Ds => {
                proof {
                    reveal_strlit("Ds");
                }
                "Ds"
            },
            Note::E => {
                proof {
                    reveal_strlit("E");
                }
                "E"
            },
            Note::F => {
                proof {
                    reveal_strlit("F");
                }
                "F"
            },
            Note::Fs => {
                proof {
                    reveal_strlit("Fs");
                }
                "Fs"
            },
            Note::G => {
                proof {
                    reveal_strlit("G");
                }
                "G"
            },
            Note::Gs => {
                proof {
                    reveal_strlit("Gs");
                }
                "Gs"
            },
            Note::A => {
                proof {
                    reveal_strlit("A");
                }
                "A"
            },
            Note::As => {
                proof {
                    reveal_strlit("As");
                }
                "As"
            },
            Note::B => {
                proof {
                    reveal_strlit("B");
                }
                "B"
            },
        }
    }

    /// The name of the note as an owned string.
    pub fn to_string(&self) -> (s: String)
        ensures
            s@ == note_name(*self),
    {
        String::from_str(self.name())
    }
}

} // verus!
