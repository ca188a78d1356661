use vstd::prelude::*;

use crate::tone::{semitone, Tone};

verus! {

/// Two detected notes closer than this many semitones are taken for one note; the stronger
/// one is kept.
pub const MIN_SEMITONE_DISTANCE: i64 = 2;

/// How notes are detected.
#[derive(Debug, Clone, Copy, PartialEq, Eq, Structural)]
pub enum DetectionMode {
    /// Several notes at once, from a trained model.
    Polyphonic,
    /// One note at a time.
    Monophonic,
}

impl Default for DetectionMode {
    fn default() -> (m: DetectionMode)
        ensures
            m == DetectionMode::Polyphonic,
    {
        DetectionMode::Polyphonic
    }
}

/// The semitone number of a tone.
pub open spec fn tone_semitone(t: Tone) -> int {
    semitone(t.note, t.octave as int)
}

/// Whether a tone lies at least `MIN_SEMITONE_DISTANCE` semitones away from each of `kept`.
pub open spec fn far_from_all(t: Tone, kept: Seq<Tone>) -> bool {
    forall|k: int|
        0 <= k < kept.len() ==> #[trigger] abs_int(tone_semitone(t) - tone_semitone(kept[k]))
            >= MIN_SEMITONE_DISTANCE
}

/// The absolute value of an integer.
pub open spec fn abs_int(x: int) -> int {
    if x < 0 {
        -x
    } else {
        x
    }
}

/// The tones kept from candidate atoms, taken strongest first: a candidate is kept when it
/// names a tone of `note_map` that is far enough from every tone kept before it; candidates
/// outside `note_map` are passed over.
pub open spec fn spec_select_tones(note_map: Seq<Tone>, candidates: Seq<usize>) -> Seq<Tone>
    decreases candidates.len(),
{
    if candidates.len() == 0 {
        seq![]
    } else {
        let kept = spec_select_tones(note_map, candidates.drop_last());
        let i = candidates.last() as int;
        if i < note_map.len() && far_from_all(note_map[i], kept) {
            kept.push(note_map[i])
        } else {
            kept
        }
    }
}

/// The semitone number of a tone, computed exactly.
fn semitone_of(t: &Tone) -> (s: i64)
    ensures
        s == tone_semitone(*t),
{
    (t.octave as i64) * 12 + (t.note.index() as i64)
}

/// Keeps, from candidate atoms ordered strongest first, the tones they name in `note_map`,
/// passing over atoms outside `note_map` and tones closer than `MIN_SEMITONE_DISTANCE`
/// semitones to a tone kept before.
pub fn select_tones(note_map: &[Tone], candidates: &[usize]) -> (kept: Vec<Tone>)
    ensures
        kept@ == spec_select_tones(note_map@, candidates@),
{
    let mut kept: Vec<Tone> = Vec::new();
    let mut kept_semitones: Vec<i64> = Vec::new();
    let mut c: usize = 0;
    while c < candidates.len()
        invariant
            c <= candidates@.len(),
            kept@ == spec_select_tones(note_map@, candidates@.take(c as int)),
            kept_semitones@.len() == kept@.len(),
            forall|k: int| 0 <= k < kept@.len() ==> #[trigger] kept_semitones@[k] == tone_semitone(kept@[k]),
            forall|k: int| 0 <= k < kept@.len() ==> -100000000000 <= #[trigger] kept_semitones@[k] <= 100000000000,
        decreases candidates@.len() - c,
    {
        assert(candidates@.take(c + 1).drop_last() =~= candidates@.take(c as int));
        let i = candidates[c];
        if i < note_map.len() {
            let t = note_map[i];
            let s = semitone_of(&t);
            let mut far = true;
            let mut k: usize = 0;
            while k < kept_semitones.len()
                invariant
                    k <= kept_semitones@.len(),
                    kept_semitones@.len() == kept@.len(),
                    forall|j: int| 0 <= j < kept@.len() ==> #[trigger] kept_semitones@[j] == tone_semitone(kept@[j]),
                    forall|j: int| 0 <= j < kept@.len() ==> -100000000000 <= #[trigger] kept_semitones@[j] <= 100000000000,
                    s == tone_semitone(t),
                    -100000000000 <= s <= 100000000000,
                    far == forall|j: int|
                        0 <= j < k ==> #[trigger] abs_int(tone_semitone(t) - tone_semitone(kept@[j]))
                            >= MIN_SEMITONE_DISTANCE,
                decreases kept_semitones@.len() - k,
            {
                let d = s - kept_semitones[k];
                let ad = if d < 0 {
                    -d
                } else {
                    d
                };
                assert(abs_int(tone_semitone(t) - tone_semitone(kept@[k as int])) == ad);
                if ad < MIN_SEMITONE_DISTANCE {
                    far = false;
                }
                k = k + 1;
            }
            if far {
                kept.push(t);
                kept_semitones.push(s);
            }
        }
        c = c + 1;
    }
    assert(candidates@.take(candidates@.len() as int) =~= candidates@);
    kept
}

/// The kept tones are pairwise at least `MIN_SEMITONE_DISTANCE` semitones apart.
pub proof fn lemma_selected_tones_apart(note_map: Seq<Tone>, candidates: Seq<usize>)
    ensures
        forall|a: int, b: int|
            0 <= a < b < spec_select_tones(note_map, candidates).len() ==> abs_int(
                tone_semitone(#[trigger] spec_select_tones(note_map, candidates)[a])
                    - tone_semitone(#[trigger] spec_select_tones(note_map, candidates)[b]),
            ) >= MIN_SEMITONE_DISTANCE,
    decreases candidates.len(),
{
    if candidates.len() > 0 {
        lemma_selected_tones_apart(note_map, candidates.drop_last());
        let kept = spec_select_tones(note_map, candidates.drop_last());
        let r = spec_select_tones(note_map, candidates);
        assert forall|a: int, b: int| 0 <= a < b < r.len() implies abs_int(
            tone_semitone(#[trigger] r[a]) - tone_semitone(#[trigger] r[b]),
        ) >= MIN_SEMITONE_DISTANCE by {
            if b < kept.len() {
                assert(r[a] == kept[a] && r[b] == kept[b]);
            } else {
                let t = r[b];
                assert(far_from_all(t, kept));
                assert(r[a] == kept[a]);
                assert(abs_int(tone_semitone(t) - tone_semitone(kept[a])) >= MIN_SEMITONE_DISTANCE);
            }
        }
    }
}

/// Every kept tone is a tone of the note map, named by one of the candidates.
pub proof fn lemma_selected_tones_from_map(note_map: Seq<Tone>, candidates: Seq<usize>)
    ensures
        forall|a: int|
            0 <= a < spec_select_tones(note_map, candidates).len() ==> exists|c: int|
                0 <= c < candidates.len() && candidates[c] < note_map.len() && #[trigger] spec_select_tones(
                    note_map,
                    candidates,
                )[a] == note_map[candidates[c] as int],
    decreases candidates.len(),
{
    if candidates.len() > 0 {
        lemma_selected_tones_from_map(note_map, candidates.drop_last());
        let kept = spec_select_tones(note_map, candidates.drop_last());
        let r = spec_select_tones(note_map, candidates);
        assert forall|a: int| 0 <= a < r.len() implies exists|c: int|
            0 <= c < candidates.len() && candidates[c] < note_map.len() && #[trigger] r[a]
                == note_map[candidates[c] as int] by {
            if a < kept.len() {
                let c = choose|c: int|
                    0 <= c < candidates.drop_last().len() && candidates.drop_last()[c] < note_map.len()
                        && kept[a] == note_map[candidates.drop_last()[c] as int];
                assert(candidates[c] == candidates.drop_last()[c]);
            } else {
                assert(r[a] == note_map[candidates[candidates.len() - 1] as int]);
            }
        }
    }
}

/// One more candidate, weaker than all before it: it adds the tone it names exactly when
/// that tone is a tone of the note map lying two or more semitones from every tone kept so
/// far (above or below, an octave away too); otherwise the kept tones stay as they were.
pub proof fn lemma_next_candidate(note_map: Seq<Tone>, candidates: Seq<usize>, c: usize)
    ensures
        ({
            let kept = spec_select_tones(note_map, candidates);
            let next = spec_select_tones(note_map, candidates.push(c));
            if c < note_map.len() && forall|k: int|
                0 <= k < kept.len() ==> (tone_semitone(note_map[c as int]) - tone_semitone(#[trigger] kept[k])
                    >= 2 || tone_semitone(kept[k]) - tone_semitone(note_map[c as int]) >= 2) {
                next == kept.push(note_map[c as int])
            } else {
                next == kept
            }
        }),
{
    assert(candidates.push(c).drop_last() =~= candidates);
    let kept = spec_select_tones(note_map, candidates);
    if c < note_map.len() {
        let t = note_map[c as int];
        if far_from_all(t, kept) {
            assert forall|k: int| 0 <= k < kept.len() implies (tone_semitone(t) - tone_semitone(
                #[trigger] kept[k],
            ) >= 2 || tone_semitone(kept[k]) - tone_semitone(t) >= 2) by {
                assert(abs_int(tone_semitone(t) - tone_semitone(kept[k])) >= MIN_SEMITONE_DISTANCE);
            }
        } else {
            let k = choose|k: int|
                0 <= k < kept.len() && !(abs_int(tone_semitone(t) - tone_semitone(kept[k]))
                    >= MIN_SEMITONE_DISTANCE);
            assert(!(tone_semitone(t) - tone_semitone(kept[k]) >= 2 || tone_semitone(kept[k])
                - tone_semitone(t) >= 2));
        }
    }
}

} // verus!
