use vstd::prelude::*;

use crate::note::{is_black_note, note_index, Note};
use crate::tone::{tone_text, Tone};

verus! {

/// Width of a white key in the text drawing, counting both borders.
pub const KEY_WIDTH: usize = 5;
/// Number of text rows that show black keys.
pub const BLACK_H: usize = 4;
/// Number of text rows below the black keys that show only white keys.
pub const WHITE_H: usize = 3;

/// The white keys among `keys`, in their order.
pub open spec fn white_tones(keys: Seq<Tone>) -> Seq<Tone>
    decreases keys.len(),
{
    if keys.len() == 0 {
        seq![]
    } else if is_black_note(keys.last().note) {
        white_tones(keys.drop_last())
    } else {
        white_tones(keys.drop_last()).push(keys.last())
    }
}

/// The black keys among `keys`, in their order.
pub open spec fn black_tones(keys: Seq<Tone>) -> Seq<Tone>
    decreases keys.len(),
{
    if keys.len() == 0 {
        seq![]
    } else if is_black_note(keys.last().note) {
        black_tones(keys.drop_last()).push(keys.last())
    } else {
        black_tones(keys.drop_last())
    }
}

/// There are no more white keys than keys.
pub proof fn lemma_white_tones_len(keys: Seq<Tone>)
    ensures
        white_tones(keys).len() <= keys.len(),
    decreases keys.len(),
{
    if keys.len() > 0 {
        lemma_white_tones_len(keys.drop_last());
    }
}

/// The white note just below a black note (C below C sharp, and so on); none for white notes.
pub open spec fn left_white_note(n: Note) -> Option<Note> {
    match n {
        Note::Cs => Some(Note::C),
        Note::Ds => Some(Note::D),
        Note::Fs => Some(Note::F),
        Note::Gs => Some(Note::G),
        Note::As => Some(Note::A),
        _ => None,
    }
}

/// The first position at which `t` occurs in `s`, if it occurs.
pub open spec fn first_index_of(s: Seq<Tone>, t: Tone) -> Option<int>
    decreases s.len(),
{
    if s.len() == 0 {
        None
    } else {
        match first_index_of(s.drop_last(), t) {
            Some(j) => Some(j),
            None => if s.last() == t {
                Some(s.len() - 1)
            } else {
                None
            },
        }
    }
}

/// The position, among the white keys, of the white key just left of a black key: the first
/// white key with the black key's lower neighbour note, in the same octave.
pub open spec fn left_white_position(black: Tone, whites: Seq<Tone>) -> Option<int> {
    match left_white_note(black.note) {
        Some(n) => first_index_of(whites, Tone { note: n, octave: black.octave }),
        None => None,
    }
}

proof fn lemma_first_index_of_bounds(s: Seq<Tone>, t: Tone)
    ensures
        match first_index_of(s, t) {
            Some(j) => 0 <= j < s.len() && s[j] == t && forall|k: int|
                0 <= k < j ==> #[trigger] s[k] != t,
            None => forall|k: int| 0 <= k < s.len() ==> #[trigger] s[k] != t,
        },
    decreases s.len(),
{
    if s.len() > 0 {
        lemma_first_index_of_bounds(s.drop_last(), t);
        assert forall|k: int| 0 <= k < s.len() - 1 implies #[trigger] s[k] == s.drop_last()[k] by {}
    }
}

/// Where a tone first occurs in a list of tones, if at all.
fn find_tone(s: &[Tone], t: &Tone) -> (r: Option<usize>)
    ensures
        match r {
            Some(j) => first_index_of(s@, *t) == Some(j as int),
            None => first_index_of(s@, *t) is None,
        },
{
    let mut i: usize = 0;
    while i < s.len()
        invariant
            i <= s.len(),
            first_index_of(s@.take(i as int), *t) is None,
        decreases s.len() - i,
    {
        assert(s@.take(i + 1).drop_last() =~= s@.take(i as int));
        if s[i] == *t {
            proof {
                lemma_first_index_of_prefix(s@, i + 1, *t);
            }
            return Some(i);
        }
        i = i + 1;
    }
    assert(s@.take(s.len() as int) =~= s@);
    None
}

/// Once a tone occurs in a prefix, its first position in the whole list is its first position
/// in that prefix.
proof fn lemma_first_index_of_prefix(s: Seq<Tone>, k: int, t: Tone)
    requires
        0 <= k <= s.len(),
        first_index_of(s.take(k), t) is Some,
    ensures
        first_index_of(s, t) == first_index_of(s.take(k), t),
    decreases s.len() - k,
{
    if k < s.len() {
        assert(s.take(k + 1).drop_last() =~= s.take(k));
        lemma_first_index_of_prefix(s, k + 1, t);
    } else {
        assert(s.take(k) =~= s);
    }
}

/// The position, among `whites`, of the white key just left of the black key `black`: the first
/// white key whose note is the black key's lower neighbour, in the same octave. `None` when
/// `black` is not a black key or no such white key is listed.
pub fn black_left_white_index(black: &Tone, whites: &[Tone]) -> (r: Option<usize>)
    ensures
        match r {
            Some(j) => left_white_position(*black, whites@) == Some(j as int),
            None => left_white_position(*black, whites@) is None,
        },
{
    let left_note = match black.note {
        Note::Cs => Note::C,
        Note::Ds => Note::D,
        Note::Fs => Note::F,
        Note::Gs => Note::G,
        Note::As => Note::A,
        _ => {
            return None;
        },
    };
    find_tone(whites, &Tone { note: left_note, octave: black.octave })
}

/// Every black note has a white note just below it, one semitone lower in the chromatic
/// scale: C sharp sits right of C, D sharp right of D, F sharp right of F, G sharp right of G
/// and A sharp right of A. White notes have none.
pub proof fn lemma_left_white_note_one_semitone_below(n: Note)
    ensures
        is_black_note(n) <==> left_white_note(n) is Some,
        is_black_note(n) ==> !is_black_note(left_white_note(n).unwrap()) && note_index(
            left_white_note(n).unwrap(),
        ) == note_index(n) - 1,
{
}

/// The white key found for a black key is the first listed key of the same octave whose note
/// lies one semitone below the black key's note; none is found for a note that is not black
/// or when no listed key is that one.
pub proof fn lemma_left_white_position_is_semitone_below(black: Tone, whites: Seq<Tone>)
    ensures
        match left_white_position(black, whites) {
            Some(j) => {
                &&& is_black_note(black.note)
                &&& 0 <= j < whites.len()
                &&& whites[j].octave == black.octave
                &&& note_index(whites[j].note) + 1 == note_index(black.note)
                &&& forall|k: int|
                    0 <= k < j ==> !((#[trigger] whites[k]).octave == black.octave && note_index(
                        whites[k].note,
                    ) + 1 == note_index(black.note))
            },
            None => !is_black_note(black.note) || forall|k: int|
                0 <= k < whites.len() ==> !((#[trigger] whites[k]).octave == black.octave && note_index(
                    whites[k].note,
                ) + 1 == note_index(black.note)),
        },
{
    lemma_left_white_note_one_semitone_below(black.note);
    if is_black_note(black.note) {
        let t = Tone { note: left_white_note(black.note).unwrap(), octave: black.octave };
        lemma_first_index_of_bounds(whites, t);
        assert forall|x: Tone| x.octave == black.octave && note_index(x.note) + 1 == note_index(black.note)
            implies x == t by {
            lemma_note_index_injective(x.note, t.note);
        }
    }
}

/// Two notes at the same position of the chromatic scale are the same note.
proof fn lemma_note_index_injective(a: Note, b: Note)
    requires
        note_index(a) == note_index(b),
    ensures
        a == b,
{
}

/// Whether a tone occurs in a list of tones, such as a key among the detected tones.
pub fn contains_tone(s: &[Tone], t: &Tone) -> (r: bool)
    ensures
        r == s@.contains(*t),
{
    let mut i: usize = 0;
    while i < s.len()
        invariant
            i <= s.len(),
            forall|k: int| 0 <= k < i ==> s@[k] != *t,
        decreases s.len() - i,
    {
        if s[i] == *t {
            assert(s@[i as int] == *t);
            return true;
        }
        i = i + 1;
    }
    false
}

/// The white keys and the black keys of a list of keys, each in their order.
pub fn split_keys(keys: &[Tone]) -> (r: (Vec<Tone>, Vec<Tone>))
    ensures
        r.0@ == white_tones(keys@),
        r.1@ == black_tones(keys@),
{
    let mut whites: Vec<Tone> = Vec::new();
    let mut blacks: Vec<Tone> = Vec::new();
    let mut i: usize = 0;
    while i < keys.len()
        invariant
            i <= keys.len(),
            whites@ == white_tones(keys@.take(i as int)),
            blacks@ == black_tones(keys@.take(i as int)),
        decreases keys.len() - i,
    {
        assert(keys@.take(i + 1).drop_last() =~= keys@.take(i as int));
        let k = keys[i];
        if k.note.is_white() {
            whites.push(k);
        } else {
            blacks.push(k);
        }
        i = i + 1;
    }
    assert(keys@.take(keys.len() as int) =~= keys@);
    (whites, blacks)
}


/// The character that shows whether a key is sounding: `X` when it is among the active tones,
/// a blank otherwise.
pub open spec fn fill_char(t: Tone, active: Seq<Tone>) -> char {
    if active.contains(t) {
        'X'
    } else {
        ' '
    }
}

/// Number of text columns of the drawing of `n` white keys: four per key and a closing border.
pub open spec fn drawing_width(n: nat) -> nat {
    n * 4 + 1
}

/// The drawing of the white keys alone, at a row and a column: borders every four columns,
/// the white keys' fill in the three rows under the black keys, their bottom edge in the last
/// row, and blanks above.
pub open spec fn white_cell(whites: Seq<Tone>, active: Seq<Tone>, row: int, col: int) -> char {
    if col % 4 == 0 {
        '|'
    } else if BLACK_H <= row < BLACK_H + WHITE_H {
        fill_char(whites[col / 4], active)
    } else if row == BLACK_H + WHITE_H {
        '_'
    } else {
        ' '
    }
}

/// What the black keys draw in a column of their rows, if anything: a black key whose left
/// white key is at position `wi` is centred on the border after that key (column `4 * wi + 4`),
/// shows its fill there and a border on each side; when several black keys draw in a column,
/// the last one listed decides.
pub open spec fn black_cell(whites: Seq<Tone>, blacks: Seq<Tone>, active: Seq<Tone>, col: int) -> Option<char>
    decreases blacks.len(),
{
    if blacks.len() == 0 {
        None
    } else {
        let b = blacks.last();
        match left_white_position(b, whites) {
            Some(wi) => if col == 4 * wi + 3 || col == 4 * wi + 5 {
                Some('|')
            } else if col == 4 * wi + 4 {
                Some(fill_char(b, active))
            } else {
                black_cell(whites, blacks.drop_last(), active, col)
            },
            None => black_cell(whites, blacks.drop_last(), active, col),
        }
    }
}

/// The character of the keyboard drawing at a row (0 to 7) and a column: in the rows of the
/// black keys, what a black key draws there, otherwise the drawing of the white keys.
pub open spec fn keyboard_cell(whites: Seq<Tone>, blacks: Seq<Tone>, active: Seq<Tone>, row: int, col: int) -> char {
    if row < BLACK_H {
        match black_cell(whites, blacks, active, col) {
            Some(c) => c,
            None => white_cell(whites, active, row, col),
        }
    } else {
        white_cell(whites, active, row, col)
    }
}

/// The label of a white key C: `C` followed by its octave.
pub open spec fn c_label(octave: i32) -> Seq<char> {
    seq!['C'] + crate::text::int_decimal(octave as int)
}

/// The character of the label row at a column: every white C key writes its label from the
/// column after its left border; when labels overlap, the one of the later key is kept.
pub open spec fn label_cell(whites: Seq<Tone>, col: int) -> char
    decreases whites.len(),
{
    if whites.len() == 0 {
        ' '
    } else {
        let w = whites.last();
        let start = 4 * (whites.len() - 1) + 1;
        let s = c_label(w.octave);
        if w.note == Note::C && start <= col < start + s.len() {
            s[col - start]
        } else {
            label_cell(whites.drop_last(), col)
        }
    }
}

/// The text drawing of a keyboard with its sounding keys marked: eight rows of keys and a
/// row of octave labels, all as wide as the white keys need.
pub open spec fn spec_render(all_keys: Seq<Tone>, active: Seq<Tone>) -> Seq<Seq<char>> {
    let whites = white_tones(all_keys);
    let blacks = black_tones(all_keys);
    let w = drawing_width(whites.len());
    Seq::new(
        (BLACK_H + WHITE_H + 2) as nat,
        |r: int|
            if r < BLACK_H + WHITE_H + 1 {
                Seq::new(w, |c: int| keyboard_cell(whites, blacks, active, r, c))
            } else {
                Seq::new(w, |c: int| label_cell(whites, c))
            },
    )
}

/// The characters `X` or blank for each tone of a list, by whether it is active.
fn fills(tones: &Vec<Tone>, active: &[Tone]) -> (r: Vec<char>)
    ensures
        r@.len() == tones@.len(),
        forall|i: int| 0 <= i < tones@.len() ==> #[trigger] r@[i] == fill_char(tones@[i], active@),
{
    let mut r: Vec<char> = Vec::new();
    let mut i: usize = 0;
    while i < tones.len()
        invariant
            i <= tones.len(),
            r@.len() == i,
            forall|k: int| 0 <= k < i ==> #[trigger] r@[k] == fill_char(tones@[k], active@),
        decreases tones.len() - i,
    {
        let c = if contains_tone(active, &tones[i]) {
            'X'
        } else {
            ' '
        };
        r.push(c);
        i = i + 1;
    }
    r
}

/// One row of the keyboard drawing.
fn keyboard_row(
    whites: &Vec<Tone>,
    blacks: &Vec<Tone>,
    active: &[Tone],
    white_fill: &Vec<char>,
    black_pos: &Vec<Option<usize>>,
    black_fill: &Vec<char>,
    row: usize,
    width: usize,
) -> (line: Vec<char>)
    requires
        width == drawing_width(whites@.len()),
        width + 8 <= usize::MAX,
        row < BLACK_H + WHITE_H + 1,
        white_fill@.len() == whites@.len(),
        forall|i: int| 0 <= i < whites@.len() ==> #[trigger] white_fill@[i] == fill_char(whites@[i], active@),
        black_pos@.len() == blacks@.len(),
        black_fill@.len() == blacks@.len(),
        forall|i: int|
            0 <= i < blacks@.len() ==> match #[trigger] black_pos@[i] {
                Some(j) => left_white_position(blacks@[i], whites@) == Some(j as int),
                None => left_white_position(blacks@[i], whites@) is None,
            },
        forall|i: int| 0 <= i < blacks@.len() ==> #[trigger] black_fill@[i] == fill_char(blacks@[i], active@),
    ensures
        line@ == Seq::new(width as nat, |c: int| keyboard_cell(whites@, blacks@, active@, row as int, c)),
{
    let mut line: Vec<char> = Vec::new();
    let mut col: usize = 0;
    while col < width
        invariant
            col <= width,
            width == drawing_width(whites@.len()),
            row < BLACK_H + WHITE_H + 1,
            white_fill@.len() == whites@.len(),
            forall|i: int| 0 <= i < whites@.len() ==> #[trigger] white_fill@[i] == fill_char(whites@[i], active@),
            line@.len() == col,
            forall|c: int| 0 <= c < col ==> #[trigger] line@[c] == white_cell(whites@, active@, row as int, c),
        decreases width - col,
    {
        let ch = if col % 4 == 0 {
            '|'
        } else if BLACK_H <= row && row < BLACK_H + WHITE_H {
            white_fill[col / 4]
        } else if row == BLACK_H + WHITE_H {
            '_'
        } else {
            ' '
        };
        line.push(ch);
        col = col + 1;
    }
    if row < BLACK_H {
        let mut k: usize = 0;
        while k < blacks.len()
            invariant
                k <= blacks@.len(),
                width == drawing_width(whites@.len()),
                width + 8 <= usize::MAX,
                row < BLACK_H,
                black_pos@.len() == blacks@.len(),
                black_fill@.len() == blacks@.len(),
                forall|i: int|
                    0 <= i < blacks@.len() ==> match #[trigger] black_pos@[i] {
                        Some(j) => left_white_position(blacks@[i], whites@) == Some(j as int),
                        None => left_white_position(blacks@[i], whites@) is None,
                    },
                forall|i: int| 0 <= i < blacks@.len() ==> #[trigger] black_fill@[i] == fill_char(blacks@[i], active@),
                line@.len() == width,
                forall|c: int|
                    0 <= c < width ==> #[trigger] line@[c] == match black_cell(whites@, blacks@.take(k as int), active@, c) {
                        Some(ch) => ch,
                        None => white_cell(whites@, active@, row as int, c),
                    },
            decreases blacks@.len() - k,
        {
            assert(blacks@.take(k + 1).drop_last() =~= blacks@.take(k as int));
            assert(blacks@.take(k + 1).last() == blacks@[k as int]);
            match black_pos[k] {
                Some(wi) => {
                    proof {
                        lemma_first_index_of_bounds(
                            whites@,
                            Tone { note: left_white_note(blacks@[k as int].note).unwrap(), octave: blacks@[k as int].octave },
                        );
                    }
                    let centre = wi * 4 + 4;
                    line.set(centre - 1, '|');
                    line.set(centre, black_fill[k]);
                    if centre + 1 < width {
                        line.set(centre + 1, '|');
                    }
                },
                None => {},
            }
            k = k + 1;
        }
        assert(blacks@.take(blacks@.len() as int) =~= blacks@);
    }
    assert(line@ =~= Seq::new(width as nat, |c: int| keyboard_cell(whites@, blacks@, active@, row as int, c)));
    line
}


/// The row of octave labels under the white keys.
fn label_row(whites: &Vec<Tone>, width: usize) -> (line: Vec<char>)
    requires
        width == drawing_width(whites@.len()),
        width + 64 <= usize::MAX,
    ensures
        line@ == Seq::new(width as nat, |c: int| label_cell(whites@, c)),
{
    let mut line: Vec<char> = Vec::new();
    let mut col: usize = 0;
    while col < width
        invariant
            col <= width,
            line@.len() == col,
            forall|c: int| 0 <= c < col ==> #[trigger] line@[c] == ' ',
        decreases width - col,
    {
        line.push(' ');
        col = col + 1;
    }
    let mut wi: usize = 0;
    while wi < whites.len()
        invariant
            wi <= whites@.len(),
            width == drawing_width(whites@.len()),
            width + 64 <= usize::MAX,
            line@.len() == width,
            forall|c: int| 0 <= c < width ==> #[trigger] line@[c] == label_cell(whites@.take(wi as int), c),
        decreases whites@.len() - wi,
    {
        assert(whites@.take(wi + 1).drop_last() =~= whites@.take(wi as int));
        assert(whites@.take(wi + 1).last() == whites@[wi as int]);
        let wt = whites[wi];
        if wt.note == Note::C {
            let start = wi * 4 + 1;
            let mut label = String::from_str("C");
            proof {
                reveal_strlit("C");
            }
            crate::text::push_signed_decimal(&mut label, wt.octave as i64);
            assert(label@ == c_label(wt.octave));
            let n = label.as_str().unicode_len();
            let mut j: usize = 0;
            while j < n
                invariant
                    j <= n,
                    n == label@.len(),
                    label@ == c_label(wt.octave),
                    wt == whites@[wi as int],
                    wt.note == Note::C,
                    wi < whites@.len(),
                    start == wi * 4 + 1,
                    width == drawing_width(whites@.len()),
                    width + 64 <= usize::MAX,
                    line@.len() == width,
                    forall|c: int|
                        0 <= c < width ==> #[trigger] line@[c] == if start <= c < start + j {
                            label@[c - start]
                        } else {
                            label_cell(whites@.take(wi as int), c)
                        },
                decreases n - j,
            {
                if start < width && j < width - start {
                    let ch = label.as_str().get_char(j);
                    line.set(start + j, ch);
                }
                j = j + 1;
            }
        }
        wi = wi + 1;
    }
    assert(whites@.take(whites@.len() as int) =~= whites@);
    assert(line@ =~= Seq::new(width as nat, |c: int| label_cell(whites@, c)));
    line
}

/// The text drawing of a keyboard with its sounding keys marked with `X`: eight rows of keys
/// (black keys in the top four rows, white keys below, their bottom edge last) and a row that
/// labels each C with its octave.
pub fn render(all_keys: &[Tone], active: &[Tone]) -> (lines: Vec<String>)
    requires
        all_keys@.len() * 4 + 64 <= usize::MAX,
    ensures
        lines@.len() == spec_render(all_keys@, active@).len(),
        forall|r: int| 0 <= r < lines@.len() ==> #[trigger] lines@[r]@ == spec_render(all_keys@, active@)[r],
{
    let (whites, blacks) = split_keys(all_keys);
    proof {
        lemma_white_tones_len(all_keys@);
    }
    let n_whites = whites.len();
    assert(KEY_WIDTH - 1 == 4);
    assert(n_whites * (KEY_WIDTH - 1) == n_whites * 4) by (nonlinear_arith)
        requires
            KEY_WIDTH - 1 == 4,
    ;
    let width = n_whites * (KEY_WIDTH - 1) + 1;
    let white_fill = fills(&whites, active);
    let black_fill = fills(&blacks, active);
    let mut black_pos: Vec<Option<usize>> = Vec::new();
    let mut k: usize = 0;
    while k < blacks.len()
        invariant
            k <= blacks@.len(),
            black_pos@.len() == k,
            forall|i: int|
                0 <= i < k ==> match #[trigger] black_pos@[i] {
                    Some(j) => left_white_position(blacks@[i], whites@) == Some(j as int),
                    None => left_white_position(blacks@[i], whites@) is None,
                },
        decreases blacks@.len() - k,
    {
        black_pos.push(black_left_white_index(&blacks[k], whites.as_slice()));
        k = k + 1;
    }
    let ghost spec = spec_render(all_keys@, active@);
    let mut lines: Vec<String> = Vec::new();
    let mut row: usize = 0;
    while row < BLACK_H + WHITE_H + 1
        invariant
            row <= BLACK_H + WHITE_H + 1,
            width == drawing_width(whites@.len()),
            width + 64 <= usize::MAX,
            whites@ == white_tones(all_keys@),
            blacks@ == black_tones(all_keys@),
            spec == spec_render(all_keys@, active@),
            white_fill@.len() == whites@.len(),
            forall|i: int| 0 <= i < whites@.len() ==> #[trigger] white_fill@[i] == fill_char(whites@[i], active@),
            black_pos@.len() == blacks@.len(),
            black_fill@.len() == blacks@.len(),
            forall|i: int|
                0 <= i < blacks@.len() ==> match #[trigger] black_pos@[i] {
                    Some(j) => left_white_position(blacks@[i], whites@) == Some(j as int),
                    None => left_white_position(blacks@[i], whites@) is None,
                },
            forall|i: int| 0 <= i < blacks@.len() ==> #[trigger] black_fill@[i] == fill_char(blacks@[i], active@),
            lines@.len() == row,
            forall|r: int| 0 <= r < row ==> #[trigger] lines@[r]@ == spec[r],
        decreases BLACK_H + WHITE_H + 1 - row,
    {
        let chars = keyboard_row(&whites, &blacks, active, &white_fill, &black_pos, &black_fill, row, width);
        lines.push(crate::text::chars_to_string(&chars));
        row = row + 1;
    }
    let label = label_row(&whites, width);
    lines.push(crate::text::chars_to_string(&label));
    lines
}


/// The texts of the given tones, separated by two blanks.
pub open spec fn joined_tones(ts: Seq<Tone>) -> Seq<char>
    decreases ts.len(),
{
    if ts.len() == 0 {
        seq![]
    } else if ts.len() == 1 {
        tone_text(ts[0])
    } else {
        joined_tones(ts.drop_last()) + "  "@ + tone_text(ts.last())
    }
}

/// The line above the keyboard drawing: `(silence)` when no tone sounds, otherwise
/// `playing: ` and the sounding tones.
pub open spec fn header_text(active: Seq<Tone>) -> Seq<char> {
    if active.len() == 0 {
        "(silence)"@
    } else {
        "playing: "@ + joined_tones(active)
    }
}

/// The line naming the sounding tones, shown above the keyboard drawing.
pub fn header(active: &[Tone]) -> (s: String)
    ensures
        s@ == header_text(active@),
{
    proof {
        reveal_strlit("(silence)");
        reveal_strlit("playing: ");
        reveal_strlit("  ");
    }
    if active.len() == 0 {
        return String::from_str("(silence)");
    }
    let mut s = String::from_str("playing: ");
    let mut i: usize = 0;
    while i < active.len()
        invariant
            i <= active@.len(),
            active@.len() > 0,
            s@ == "playing: "@ + joined_tones(active@.take(i as int)),
        decreases active@.len() - i,
    {
        assert(active@.take(i + 1).drop_last() =~= active@.take(i as int));
        if i > 0 {
            s.append("  ");
        }
        let t = active[i].to_string();
        s.append(t.as_str());
        if i == 0 {
            assert(joined_tones(active@.take(1)) == tone_text(active@[0]));
            assert(s@ =~= "playing: "@ + joined_tones(active@.take(1)));
        } else {
            assert(s@ =~= "playing: "@ + joined_tones(active@.take(i + 1)));
        }
        i = i + 1;
    }
    assert(active@.take(active@.len() as int) =~= active@);
    s
}

/// Everything one screen of the terminal tracker shows: the header line, then the keyboard
/// drawing.
pub fn frame_lines(all_keys: &[Tone], active: &[Tone]) -> (lines: Vec<String>)
    requires
        all_keys@.len() * 4 + 64 <= usize::MAX,
    ensures
        lines@.len() == spec_render(all_keys@, active@).len() + 1,
        lines@[0]@ == header_text(active@),
        forall|r: int|
            1 <= r < lines@.len() ==> #[trigger] lines@[r]@ == spec_render(all_keys@, active@)[r - 1],
{
    let mut lines: Vec<String> = Vec::new();
    lines.push(header(active));
    let mut drawing = render(all_keys, active);
    lines.append(&mut drawing);
    lines
}

/// The drawing has nine lines (eight rows of keys and the labels), all as wide as four
/// columns per white key and a closing border.
pub proof fn lemma_render_shape(all_keys: Seq<Tone>, active: Seq<Tone>)
    ensures
        spec_render(all_keys, active).len() == 9,
        forall|r: int|
            0 <= r < 9 ==> #[trigger] spec_render(all_keys, active)[r].len() == drawing_width(
                white_tones(all_keys).len(),
            ),
{
}

/// A white key shows `X` across its three rows under the black keys exactly when it is active.
pub proof fn lemma_white_key_marked(all_keys: Seq<Tone>, active: Seq<Tone>, wi: int, row: int, col: int)
    requires
        0 <= wi < white_tones(all_keys).len(),
        BLACK_H <= row < BLACK_H + WHITE_H,
        4 * wi + 1 <= col < 4 * wi + 4,
    ensures
        spec_render(all_keys, active)[row][col] == fill_char(white_tones(all_keys)[wi], active),
{
    assert(col % 4 != 0);
    assert(col / 4 == wi);
}

/// The black notes are told apart by the white note just below them.
proof fn lemma_left_white_note_injective(a: Note, b: Note)
    requires
        left_white_note(a) is Some,
        left_white_note(a) == left_white_note(b),
    ensures
        a == b,
{
}

/// Whatever order the black keys come in, a black key whose left white key is listed shows,
/// in each of the black-key rows, `X` in its centre column exactly when it is active, with a
/// border on its left and, where the drawing reaches, on its right.
pub proof fn lemma_black_key_marked(all_keys: Seq<Tone>, active: Seq<Tone>, k: int, row: int)
    requires
        0 <= k < black_tones(all_keys).len(),
        left_white_position(black_tones(all_keys)[k], white_tones(all_keys)) is Some,
        0 <= row < BLACK_H,
    ensures
        ({
            let wi = left_white_position(black_tones(all_keys)[k], white_tones(all_keys)).unwrap();
            &&& spec_render(all_keys, active)[row][4 * wi + 4] == fill_char(black_tones(all_keys)[k], active)
            &&& spec_render(all_keys, active)[row][4 * wi + 3] == '|'
            &&& 4 * wi + 5 < drawing_width(white_tones(all_keys).len()) ==> spec_render(all_keys, active)[row][4
                * wi + 5] == '|'
        }),
{
    let whites = white_tones(all_keys);
    let blacks = black_tones(all_keys);
    let b = blacks[k];
    let wi = left_white_position(b, whites).unwrap();
    lemma_first_index_of_bounds(whites, Tone { note: left_white_note(b.note).unwrap(), octave: b.octave });
    lemma_black_cell_centre(whites, blacks, active, k);
    lemma_black_cell_side(whites, blacks, active, k, 3);
    lemma_black_cell_side(whites, blacks, active, k, 5);
}

proof fn lemma_black_cell_centre(whites: Seq<Tone>, blacks: Seq<Tone>, active: Seq<Tone>, k: int)
    requires
        0 <= k < blacks.len(),
        left_white_position(blacks[k], whites) is Some,
    ensures
        black_cell(whites, blacks, active, 4 * left_white_position(blacks[k], whites).unwrap() + 4)
            == Some(fill_char(blacks[k], active)),
    decreases blacks.len(),
{
    let b = blacks[k];
    let wi = left_white_position(b, whites).unwrap();
    let last = blacks.last();
    let col = 4 * wi + 4;
    if k == blacks.len() - 1 {
    } else {
        match left_white_position(last, whites) {
            Some(wj) => {
                if wj == wi {
                    let tb = Tone { note: left_white_note(b.note).unwrap(), octave: b.octave };
                    let tl = Tone { note: left_white_note(last.note).unwrap(), octave: last.octave };
                    lemma_first_index_of_bounds(whites, tb);
                    lemma_first_index_of_bounds(whites, tl);
                    assert(tb == tl);
                    lemma_left_white_note_injective(b.note, last.note);
                    assert(last == b);
                } else {
                    assert(col != 4 * wj + 3 && col != 4 * wj + 5 && col != 4 * wj + 4);
                    assert(blacks.drop_last()[k] == b);
                    lemma_black_cell_centre(whites, blacks.drop_last(), active, k);
                }
            },
            None => {
                assert(blacks.drop_last()[k] == b);
                lemma_black_cell_centre(whites, blacks.drop_last(), active, k);
            },
        }
    }
}

proof fn lemma_black_cell_side(whites: Seq<Tone>, blacks: Seq<Tone>, active: Seq<Tone>, k: int, side: int)
    requires
        0 <= k < blacks.len(),
        left_white_position(blacks[k], whites) is Some,
        side == 3 || side == 5,
    ensures
        black_cell(whites, blacks, active, 4 * left_white_position(blacks[k], whites).unwrap() + side)
            == Some('|'),
    decreases blacks.len(),
{
    let b = blacks[k];
    let wi = left_white_position(b, whites).unwrap();
    let last = blacks.last();
    let col = 4 * wi + side;
    if k == blacks.len() - 1 {
    } else {
        match left_white_position(last, whites) {
            Some(wj) => {
                if col == 4 * wj + 3 || col == 4 * wj + 5 {
                } else {
                    assert(col != 4 * wj + 4);
                    assert(blacks.drop_last()[k] == b);
                    lemma_black_cell_side(whites, blacks.drop_last(), active, k, side);
                }
            },
            None => {
                assert(blacks.drop_last()[k] == b);
                lemma_black_cell_side(whites, blacks.drop_last(), active, k, side);
            },
        }
    }
}

/// A column that no black key draws in gets nothing from the black keys.
proof fn lemma_black_cell_none(whites: Seq<Tone>, blacks: Seq<Tone>, active: Seq<Tone>, col: int)
    requires
        forall|k: int|
            0 <= k < blacks.len() ==> match left_white_position(#[trigger] blacks[k], whites) {
                Some(wi) => col != 4 * wi + 3 && col != 4 * wi + 4 && col != 4 * wi + 5,
                None => true,
            },
    ensures
        black_cell(whites, blacks, active, col) is None,
    decreases blacks.len(),
{
    if blacks.len() > 0 {
        assert(blacks[blacks.len() - 1] == blacks.last());
        assert forall|k: int| 0 <= k < blacks.drop_last().len() implies match left_white_position(
            #[trigger] blacks.drop_last()[k],
            whites,
        ) {
            Some(wi) => col != 4 * wi + 3 && col != 4 * wi + 4 && col != 4 * wi + 5,
            None => true,
        } by {
            assert(blacks.drop_last()[k] == blacks[k]);
        }
        lemma_black_cell_none(whites, blacks.drop_last(), active, col);
    }
}

/// In the rows of the black keys, a column that no black key covers (its centre and the
/// border on each side) shows the white keys' drawing there: a border every four columns and
/// blanks between.
pub proof fn lemma_black_rows_elsewhere(all_keys: Seq<Tone>, active: Seq<Tone>, row: int, col: int)
    requires
        0 <= row < BLACK_H,
        0 <= col < drawing_width(white_tones(all_keys).len()),
        forall|k: int|
            0 <= k < black_tones(all_keys).len() ==> match left_white_position(
                #[trigger] black_tones(all_keys)[k],
                white_tones(all_keys),
            ) {
                Some(wi) => col != 4 * wi + 3 && col != 4 * wi + 4 && col != 4 * wi + 5,
                None => true,
            },
    ensures
        spec_render(all_keys, active)[row][col] == (if col % 4 == 0 {
            '|'
        } else {
            ' '
        }),
{
    lemma_black_cell_none(white_tones(all_keys), black_tones(all_keys), active, col);
}

/// The label row shows, from the column after the left border of each white C key, `C` and
/// its octave, as far as the drawing reaches and until the label of a later C key begins.
pub proof fn lemma_c_key_labelled(all_keys: Seq<Tone>, active: Seq<Tone>, wi: int, j: int)
    requires
        0 <= wi < white_tones(all_keys).len(),
        white_tones(all_keys)[wi].note == Note::C,
        0 <= j < c_label(white_tones(all_keys)[wi].octave).len(),
        4 * wi + 1 + j < drawing_width(white_tones(all_keys).len()),
        forall|m: int|
            wi < m < white_tones(all_keys).len() && (#[trigger] white_tones(all_keys)[m]).note == Note::C
                ==> 4 * m + 1 > 4 * wi + 1 + j,
    ensures
        spec_render(all_keys, active)[BLACK_H + WHITE_H + 1][4 * wi + 1 + j] == c_label(
            white_tones(all_keys)[wi].octave,
        )[j],
{
    lemma_label_cell_of_c(white_tones(all_keys), wi, j);
}

proof fn lemma_label_cell_of_c(whites: Seq<Tone>, wi: int, j: int)
    requires
        0 <= wi < whites.len(),
        whites[wi].note == Note::C,
        0 <= j < c_label(whites[wi].octave).len(),
        forall|m: int| wi < m < whites.len() && (#[trigger] whites[m]).note == Note::C ==> 4 * m + 1 > 4 * wi + 1 + j,
    ensures
        label_cell(whites, 4 * wi + 1 + j) == c_label(whites[wi].octave)[j],
    decreases whites.len(),
{
    let m = whites.len() - 1;
    assert(whites[m] == whites.last());
    if m > wi {
        let rest = whites.drop_last();
        assert(rest[wi] == whites[wi]);
        assert forall|m2: int| wi < m2 < rest.len() && (#[trigger] rest[m2]).note == Note::C implies 4 * m2 + 1 > 4
            * wi + 1 + j by {
            assert(rest[m2] == whites[m2]);
        }
        lemma_label_cell_of_c(rest, wi, j);
    }
}

/// Every white key and every black key picked out of `keys` is one of `keys`.
proof fn lemma_split_tones_in(keys: Seq<Tone>)
    ensures
        forall|i: int| 0 <= i < white_tones(keys).len() ==> keys.contains(#[trigger] white_tones(keys)[i]),
        forall|i: int| 0 <= i < black_tones(keys).len() ==> keys.contains(#[trigger] black_tones(keys)[i]),
    decreases keys.len(),
{
    if keys.len() > 0 {
        let rest = keys.drop_last();
        let last = keys.last();
        lemma_split_tones_in(rest);
        assert(keys[keys.len() - 1] == last);
        assert forall|i: int| 0 <= i < white_tones(keys).len() implies keys.contains(
            #[trigger] white_tones(keys)[i],
        ) by {
            if i < white_tones(rest).len() {
                assert(white_tones(keys)[i] == white_tones(rest)[i]);
                assert(rest.contains(white_tones(rest)[i]));
                let j = choose|j: int| 0 <= j < rest.len() && rest[j] == white_tones(rest)[i];
                assert(keys[j] == rest[j]);
            } else {
                assert(white_tones(keys)[i] == last);
            }
        }
        assert forall|i: int| 0 <= i < black_tones(keys).len() implies keys.contains(
            #[trigger] black_tones(keys)[i],
        ) by {
            if i < black_tones(rest).len() {
                assert(black_tones(keys)[i] == black_tones(rest)[i]);
                assert(rest.contains(black_tones(rest)[i]));
                let j = choose|j: int| 0 <= j < rest.len() && rest[j] == black_tones(rest)[i];
                assert(keys[j] == rest[j]);
            } else {
                assert(black_tones(keys)[i] == last);
            }
        }
    }
}

proof fn lemma_black_cell_same_sounding(
    whites: Seq<Tone>,
    blacks: Seq<Tone>,
    a1: Seq<Tone>,
    a2: Seq<Tone>,
    col: int,
)
    requires
        forall|i: int| 0 <= i < blacks.len() ==> (a1.contains(#[trigger] blacks[i]) <==> a2.contains(blacks[i])),
    ensures
        black_cell(whites, blacks, a1, col) == black_cell(whites, blacks, a2, col),
    decreases blacks.len(),
{
    if blacks.len() > 0 {
        assert(a1.contains(blacks[blacks.len() - 1]) <==> a2.contains(blacks[blacks.len() - 1]));
        assert forall|i: int| 0 <= i < blacks.drop_last().len() implies (a1.contains(
            #[trigger] blacks.drop_last()[i],
        ) <==> a2.contains(blacks.drop_last()[i])) by {
            assert(blacks.drop_last()[i] == blacks[i]);
        }
        lemma_black_cell_same_sounding(whites, blacks.drop_last(), a1, a2, col);
    }
}

/// The drawing depends on the sounding tones only through which keys of the keyboard sound:
/// their order, repetitions, and tones that are not keys of the keyboard change nothing.
pub proof fn lemma_render_depends_on_sounding_keys(all_keys: Seq<Tone>, a1: Seq<Tone>, a2: Seq<Tone>)
    requires
        forall|t: Tone| all_keys.contains(t) ==> (a1.contains(t) <==> a2.contains(t)),
    ensures
        spec_render(all_keys, a1) == spec_render(all_keys, a2),
{
    let whites = white_tones(all_keys);
    let blacks = black_tones(all_keys);
    let w = drawing_width(whites.len());
    lemma_split_tones_in(all_keys);
    assert forall|i: int| 0 <= i < blacks.len() implies (a1.contains(#[trigger] blacks[i]) <==> a2.contains(
        blacks[i],
    )) by {
        assert(all_keys.contains(blacks[i]));
    }
    let r1 = spec_render(all_keys, a1);
    let r2 = spec_render(all_keys, a2);
    assert forall|r: int| 0 <= r < r1.len() implies #[trigger] r1[r] == r2[r] by {
        if r < BLACK_H + WHITE_H + 1 {
            assert forall|c: int| 0 <= c < w implies #[trigger] keyboard_cell(whites, blacks, a1, r, c)
                == keyboard_cell(whites, blacks, a2, r, c) by {
                lemma_black_cell_same_sounding(whites, blacks, a1, a2, c);
                if c % 4 != 0 {
                    assert(0 <= c / 4 < whites.len());
                    assert(all_keys.contains(whites[c / 4]));
                }
            }
            assert(r1[r] =~= r2[r]);
        } else {
            assert(r1[r] =~= r2[r]);
        }
    }
    assert(r1 =~= r2);
}

} // verus!
