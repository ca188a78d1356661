use vstd::prelude::*;

use crate::note::is_black_note;
use crate::piano::{lemma_white_tones_len, white_tones};
use crate::tone::Tone;

verus! {

/// Where a key goes on the drawn keyboard, counted in white-key slots from the left.
#[derive(Debug, Clone, Copy, PartialEq, Eq, Structural)]
pub enum KeyPlacement {
    /// A white key in the given slot.
    White { slot: usize },
    /// A black key centred between the white slot `after_slot` and the next one.
    Black { after_slot: usize },
}

/// Where the key at position `i` of `keys` goes: a white key takes the next free slot; a black
/// key sits between the last white key placed before it and the next slot; a black key with
/// no white key before it is not drawn.
pub open spec fn placement_at(keys: Seq<Tone>, i: int) -> Option<KeyPlacement> {
    let whites_before = white_tones(keys.take(i)).len();
    if is_black_note(keys[i].note) {
        if whites_before > 0 {
            Some(KeyPlacement::Black { after_slot: (whites_before - 1) as usize })
        } else {
            None
        }
    } else {
        Some(KeyPlacement::White { slot: whites_before as usize })
    }
}

/// Where each key of a keyboard goes when drawn, in white-key slots: white keys side by side
/// from the left, each black key between the white key before it and the next slot, black
/// keys before the first white key left out.
pub fn place_keys(keys: &[Tone]) -> (placements: Vec<Option<KeyPlacement>>)
    ensures
        placements@.len() == keys@.len(),
        forall|i: int| 0 <= i < keys@.len() ==> #[trigger] placements@[i] == placement_at(keys@, i),
{
    let mut placements: Vec<Option<KeyPlacement>> = Vec::new();
    let mut whites: usize = 0;
    let mut i: usize = 0;
    while i < keys.len()
        invariant
            i <= keys@.len(),
            placements@.len() == i,
            whites == white_tones(keys@.take(i as int)).len(),
            whites <= i,
            forall|k: int| 0 <= k < i ==> #[trigger] placements@[k] == placement_at(keys@, k),
        decreases keys@.len() - i,
    {
        assert(keys@.take(i + 1).drop_last() =~= keys@.take(i as int));
        if keys[i].note.is_white() {
            placements.push(Some(KeyPlacement::White { slot: whites }));
            whites = whites + 1;
        } else if whites > 0 {
            placements.push(Some(KeyPlacement::Black { after_slot: whites - 1 }));
        } else {
            placements.push(None);
        }
        i = i + 1;
    }
    placements
}

/// How many white keys there are among the first `k + 1` keys: one more than among the
/// first `k` when key `k` is white, as many otherwise.
proof fn lemma_white_count_step(keys: Seq<Tone>, k: int)
    requires
        0 <= k < keys.len(),
    ensures
        white_tones(keys.take(k + 1)).len() == white_tones(keys.take(k)).len() + (if is_black_note(
            keys[k].note,
        ) {
            0int
        } else {
            1int
        }),
{
    assert(keys.take(k + 1).drop_last() =~= keys.take(k));
    assert(keys.take(k + 1).last() == keys[k]);
}

/// Counting white keys over a longer prefix gives at least as many, and more when a white key
/// lies between the two ends.
proof fn lemma_white_count_grows(keys: Seq<Tone>, i: int, j: int)
    requires
        0 <= i <= j <= keys.len(),
    ensures
        white_tones(keys.take(i)).len() <= white_tones(keys.take(j)).len(),
        i < j && !is_black_note(keys[i].note) ==> white_tones(keys.take(i)).len() < white_tones(
            keys.take(j),
        ).len(),
        (forall|m: int| i <= m < j ==> is_black_note((#[trigger] keys[m]).note)) ==> white_tones(
            keys.take(i),
        ).len() == white_tones(keys.take(j)).len(),
    decreases j - i,
{
    if i < j {
        lemma_white_count_grows(keys, i, j - 1);
        lemma_white_count_step(keys, j - 1);
        if i == j - 1 {
            lemma_white_count_step(keys, i);
        }
    }
}

/// White keys are laid out side by side from the left: the first white key takes slot 0, each
/// later white key the slot right after that of the white key before it, so the slots of
/// white keys rise with their position and no two white keys share a slot; a black key sits
/// right after the slot of the last white key before it.
pub proof fn lemma_slots_side_by_side(keys: Seq<Tone>, i: int, j: int)
    requires
        0 <= i < j < keys.len(),
        keys.len() <= usize::MAX,
        !is_black_note(keys[i].note),
        forall|m: int| i < m < j ==> is_black_note((#[trigger] keys[m]).note),
    ensures
        (forall|m: int| 0 <= m < i ==> is_black_note((#[trigger] keys[m]).note)) ==> placement_at(keys, i)
            == Some(KeyPlacement::White { slot: 0 }),
        match (placement_at(keys, i), placement_at(keys, j)) {
            (Some(KeyPlacement::White { slot: si }), Some(KeyPlacement::White { slot: sj })) => !is_black_note(
                keys[j].note,
            ) && sj == si + 1,
            (Some(KeyPlacement::White { slot: si }), Some(KeyPlacement::Black { after_slot })) => is_black_note(
                keys[j].note,
            ) && after_slot == si,
            _ => false,
        },
{
    lemma_white_count_grows(keys, 0, i);
    lemma_white_count_grows(keys, i + 1, j);
    lemma_white_count_step(keys, i);
    lemma_white_tones_len(keys.take(j));
}

/// Distinct white keys get distinct slots, the one further right the higher slot.
pub proof fn lemma_white_slots_rise(keys: Seq<Tone>, i: int, j: int)
    requires
        0 <= i < j < keys.len(),
        keys.len() <= usize::MAX,
        !is_black_note(keys[i].note),
        !is_black_note(keys[j].note),
    ensures
        match (placement_at(keys, i), placement_at(keys, j)) {
            (Some(KeyPlacement::White { slot: si }), Some(KeyPlacement::White { slot: sj })) => si < sj,
            _ => false,
        },
{
    lemma_white_count_grows(keys, i, j);
    lemma_white_tones_len(keys.take(j));
}

/// A black key with no white key before it is left out of the drawing.
pub proof fn lemma_leading_black_keys_left_out(keys: Seq<Tone>, j: int)
    requires
        0 <= j < keys.len(),
        forall|m: int| 0 <= m <= j ==> is_black_note((#[trigger] keys[m]).note),
    ensures
        placement_at(keys, j) is None,
{
    lemma_white_count_grows(keys, 0, j);
    assert(keys.take(0) =~= Seq::<Tone>::empty());
}

} // verus!
