use vstd::prelude::*;

verus! {

/// Number of samples in one analysis window.
pub const TOTAL_SIZE: usize = 4096;

/// A window is handed out for analysis once this many blocks have arrived since the last one
/// (or since the onset).
pub const FFT_ACCUMULATE_BLOCKS: usize = 10;

/// What one block of audio led to.
pub struct BlockOutcome<T> {
    /// The block was loud enough to start a note.
    pub onset: bool,
    /// The block was quiet enough to end the sounding note.
    pub offset: bool,
    /// The most recent `TOTAL_SIZE` samples, oldest first, when a window is due for analysis.
    pub window: Option<Vec<T>>,
}

/// Follows the loudness of incoming audio blocks: a loud block starts a note, a quiet block
/// ends it, and while a note sounds the samples are kept in a ring of `TOTAL_SIZE` samples
/// that is handed out for analysis every `FFT_ACCUMULATE_BLOCKS` blocks.
pub struct OnsetTracker<T> {
    note_on: bool,
    ring: Vec<T>,
    write_pos: usize,
    block_count: usize,
    silence: T,
    since_onset: Ghost<Seq<T>>,
}

/// The last `TOTAL_SIZE` samples of `samples`, filled up in front with `silence` when there
/// are fewer.
pub open spec fn window_of<T>(silence: T, samples: Seq<T>) -> Seq<T> {
    let padded = Seq::new(TOTAL_SIZE as nat, |i: int| silence) + samples;
    padded.subrange(padded.len() - TOTAL_SIZE, padded.len() as int)
}

/// What a tracker holds, as plain values: whether a note sounds, the samples since the last
/// onset, and the blocks received since the last window was handed out.
pub struct TrackerView<T> {
    pub on: bool,
    pub samples: Seq<T>,
    pub pending: nat,
}

/// A block starts a note when none sounds and the block reaches the onset threshold.
pub open spec fn starts<T>(v: TrackerView<T>, reaches_onset: bool) -> bool {
    !v.on && reaches_onset
}

/// A block ends the sounding note when it lies below the offset threshold.
pub open spec fn stops<T>(v: TrackerView<T>, reaches_onset: bool, below_offset: bool) -> bool {
    !starts(v, reaches_onset) && v.on && below_offset
}

/// Whether a note sounds after the block.
pub open spec fn on_after<T>(v: TrackerView<T>, reaches_onset: bool, below_offset: bool) -> bool {
    starts(v, reaches_onset) || (v.on && !stops(v, reaches_onset, below_offset))
}

/// The blocks counted toward the next window once the block is in.
pub open spec fn count_after<T>(v: TrackerView<T>, reaches_onset: bool) -> nat {
    if starts(v, reaches_onset) {
        1
    } else {
        v.pending + 1
    }
}

/// Whether the block completes a window: a note sounds after it and it is the
/// `FFT_ACCUMULATE_BLOCKS`-th block counted.
pub open spec fn window_due<T>(v: TrackerView<T>, reaches_onset: bool, below_offset: bool) -> bool {
    on_after(v, reaches_onset, below_offset) && count_after(v, reaches_onset) >= FFT_ACCUMULATE_BLOCKS
}

/// The tracker after one block: an onset starts counting samples and blocks afresh; while a
/// note sounds the block's samples are added and the block counted, the count starting again
/// once a window is due; with no note sounding, nothing else changes.
pub open spec fn tracker_next<T>(v: TrackerView<T>, block: Seq<T>, reaches_onset: bool, below_offset: bool) -> TrackerView<T> {
    if !on_after(v, reaches_onset, below_offset) {
        TrackerView { on: false, samples: v.samples, pending: v.pending }
    } else {
        TrackerView {
            on: true,
            samples: if starts(v, reaches_onset) {
                block
            } else {
                v.samples + block
            },
            pending: if window_due(v, reaches_onset, below_offset) {
                0
            } else {
                count_after(v, reaches_onset)
            },
        }
    }
}

/// While a note sounds, a block below the offset threshold ends it, however many blocks are
/// pending: the block is reported as the offset, hands out no window, adds no samples, and no
/// note sounds after it. A block that does not lie below the offset threshold keeps the note
/// sounding and adds its samples.
pub proof fn lemma_quiet_block_ends_note<T>(v: TrackerView<T>, block: Seq<T>, reaches_onset: bool, below_offset: bool)
    requires
        v.on,
    ensures
        !starts(v, reaches_onset),
        below_offset ==> {
            &&& stops(v, reaches_onset, below_offset)
            &&& !window_due(v, reaches_onset, below_offset)
            &&& !tracker_next(v, block, reaches_onset, below_offset).on
            &&& tracker_next(v, block, reaches_onset, below_offset).samples == v.samples
        },
        !below_offset ==> {
            &&& !stops(v, reaches_onset, below_offset)
            &&& tracker_next(v, block, reaches_onset, below_offset).on
            &&& tracker_next(v, block, reaches_onset, below_offset).samples == v.samples + block
        },
{
}

/// With no note sounding, a block that reaches the onset threshold starts one (and is no
/// offset) and its samples are the first ones kept; any other block leaves the tracker as it
/// was and hands out nothing.
pub proof fn lemma_loud_block_starts_note<T>(v: TrackerView<T>, block: Seq<T>, reaches_onset: bool, below_offset: bool)
    requires
        !v.on,
    ensures
        !stops(v, reaches_onset, below_offset),
        reaches_onset ==> starts(v, reaches_onset) && tracker_next(v, block, reaches_onset, below_offset).on
            && tracker_next(v, block, reaches_onset, below_offset).samples == block,
        !reaches_onset ==> !starts(v, reaches_onset) && !window_due(v, reaches_onset, below_offset)
            && tracker_next(v, block, reaches_onset, below_offset) == v,
{
}

/// One block handed to a tracker, with its level against the two thresholds.
pub struct TrackerInput<T> {
    pub block: Seq<T>,
    pub reaches_onset: bool,
    pub below_offset: bool,
}

/// The tracker after a run of blocks, in order.
pub open spec fn run<T>(v: TrackerView<T>, inputs: Seq<TrackerInput<T>>) -> TrackerView<T>
    decreases inputs.len(),
{
    if inputs.len() == 0 {
        v
    } else {
        let i = inputs.last();
        tracker_next(run(v, inputs.drop_last()), i.block, i.reaches_onset, i.below_offset)
    }
}

/// The samples of a run of blocks, one block after the other.
pub open spec fn run_samples<T>(inputs: Seq<TrackerInput<T>>) -> Seq<T>
    decreases inputs.len(),
{
    if inputs.len() == 0 {
        seq![]
    } else {
        run_samples(inputs.drop_last()) + inputs.last().block
    }
}

/// Over a run of blocks that starts a note and never ends it: after the block at position `k`
/// the note sounds, the samples since the onset are those of blocks `0..=k`, and the block at
/// `k` completes a window exactly when it is the `FFT_ACCUMULATE_BLOCKS`-th, `2 *
/// FFT_ACCUMULATE_BLOCKS`-th, ... block since the onset. With the window that each call hands
/// out (the last `TOTAL_SIZE` samples since the onset, filled up in front with silence), every
/// such block hands out the last `TOTAL_SIZE` samples of blocks `0..=k`.
pub proof fn lemma_windows_every_few_blocks<T>(v: TrackerView<T>, inputs: Seq<TrackerInput<T>>, k: int)
    requires
        !v.on,
        0 <= k < inputs.len(),
        inputs[0].reaches_onset,
        forall|j: int| 1 <= j < inputs.len() ==> !(#[trigger] inputs[j]).below_offset,
    ensures
        run(v, inputs.take(k + 1)).on,
        run(v, inputs.take(k + 1)).samples == run_samples(inputs.take(k + 1)),
        run(v, inputs.take(k + 1)).pending == (k + 1) % (FFT_ACCUMULATE_BLOCKS as int),
        window_due(run(v, inputs.take(k)), inputs[k].reaches_onset, inputs[k].below_offset) == ((k + 1) % (
        FFT_ACCUMULATE_BLOCKS as int) == 0),
    decreases k,
{
    let n = FFT_ACCUMULATE_BLOCKS as int;
    assert(inputs.take(k + 1).drop_last() =~= inputs.take(k));
    assert(inputs.take(k + 1).last() == inputs[k]);
    if k == 0 {
        assert(inputs.take(0) =~= Seq::<TrackerInput<T>>::empty());
        assert(run_samples(inputs.take(0)) =~= Seq::<T>::empty());
        assert(run_samples(inputs.take(1)) =~= inputs[0].block);
    } else {
        lemma_windows_every_few_blocks(v, inputs, k - 1);
        assert(k % n + 1 >= n <==> (k + 1) % n == 0);
        assert(k % n + 1 < n ==> (k + 1) % n == k % n + 1);
    }
}

/// A consistent tracker has fewer than `FFT_ACCUMULATE_BLOCKS` blocks pending: a window
/// always comes out before the count could reach it.
pub proof fn lemma_pending_below_window<T: Copy>(t: &OnsetTracker<T>)
    requires
        t.wf(),
    ensures
        t.pending_blocks() < FFT_ACCUMULATE_BLOCKS,
{
}

impl<T: Copy> OnsetTracker<T> {
    /// Whether a note is sounding.
    pub closed spec fn is_on(&self) -> bool {
        self.note_on
    }

    /// The samples received since the last onset.
    pub closed spec fn samples(&self) -> Seq<T> {
        self.since_onset@
    }

    /// Blocks received since the last window was handed out (or since the onset).
    pub closed spec fn pending_blocks(&self) -> nat {
        self.block_count as nat
    }

    /// The sample value that stands for silence.
    pub closed spec fn silence(&self) -> T {
        self.silence
    }

    /// What the tracker holds, as plain values.
    pub open spec fn state(&self) -> TrackerView<T> {
        TrackerView { on: self.is_on(), samples: self.samples(), pending: self.pending_blocks() }
    }

    /// The tracker is consistent: its ring holds the current window.
    pub closed spec fn wf(&self) -> bool {
        &&& self.ring@.len() == TOTAL_SIZE
        &&& self.write_pos < TOTAL_SIZE
        &&& self.block_count < FFT_ACCUMULATE_BLOCKS
        &&& forall|k: int|
            0 <= k < TOTAL_SIZE ==> #[trigger] self.ring@[(self.write_pos + k) % (TOTAL_SIZE as int)]
                == window_of(self.silence, self.since_onset@)[k]
    }

    /// A tracker with no note sounding and a silent ring.
    pub fn new(silence: T) -> (t: OnsetTracker<T>)
        ensures
            t.wf(),
            !t.is_on(),
            t.samples() == Seq::<T>::empty(),
            t.pending_blocks() == 0,
            t.silence() == silence,
    {
        let mut ring: Vec<T> = Vec::new();
        let mut i: usize = 0;
        while i < TOTAL_SIZE
            invariant
                i <= TOTAL_SIZE,
                ring@.len() == i,
                forall|k: int| 0 <= k < i ==> #[trigger] ring@[k] == silence,
            decreases TOTAL_SIZE - i,
        {
            ring.push(silence);
            i = i + 1;
        }
        let t = OnsetTracker {
            note_on: false,
            ring,
            write_pos: 0,
            block_count: 0,
            silence,
            since_onset: Ghost(Seq::empty()),
        };
        assert forall|k: int| 0 <= k < TOTAL_SIZE implies #[trigger] t.ring@[(t.write_pos + k) % (
        TOTAL_SIZE as int)] == window_of(t.silence, t.since_onset@)[k] by {
            assert((0 + k) % (TOTAL_SIZE as int) == k);
        }
        t
    }

    /// Takes one block of audio and whether its level reaches the onset threshold and whether
    /// it lies below the offset threshold.
    ///
    /// With no note sounding, a block that reaches the onset threshold starts a note: the ring
    /// is silenced and the samples counted from there. With a note sounding, a block below the
    /// offset threshold ends it and is dropped. While a note sounds, each block's samples enter
    /// the ring and every `FFT_ACCUMULATE_BLOCKS`-th block hands out the window: the last
    /// `TOTAL_SIZE` samples since the onset, filled up in front with silence.
    pub fn process_block(&mut self, block: &[T], reaches_onset: bool, below_offset: bool) -> (r: BlockOutcome<T>)
        requires
            old(self).wf(),
        ensures
            final(self).wf(),
            final(self).silence() == old(self).silence(),
            final(self).pending_blocks() < FFT_ACCUMULATE_BLOCKS,
            final(self).state() == tracker_next(old(self).state(), block@, reaches_onset, below_offset),
            r.onset == starts(old(self).state(), reaches_onset),
            r.offset == stops(old(self).state(), reaches_onset, below_offset),
            r.window is Some == window_due(old(self).state(), reaches_onset, below_offset),
            r.window is Some ==> r.window.unwrap()@ == window_of(old(self).silence(), final(self).samples()),
    {
        let mut onset = false;
        if !self.note_on && reaches_onset {
            self.note_on = true;
            let mut i: usize = 0;
            while i < TOTAL_SIZE
                invariant
                    i <= TOTAL_SIZE,
                    self.ring@.len() == TOTAL_SIZE,
                    self.silence == old(self).silence,
                    self.note_on,
                    forall|k: int| 0 <= k < i ==> #[trigger] self.ring@[k] == self.silence,
                decreases TOTAL_SIZE - i,
            {
                let s = self.silence;
                self.ring.set(i, s);
                i = i + 1;
            }
            self.write_pos = 0;
            self.block_count = 0;
            self.since_onset = Ghost(Seq::empty());
            onset = true;
            assert forall|k: int| 0 <= k < TOTAL_SIZE implies #[trigger] self.ring@[(self.write_pos + k) % (
            TOTAL_SIZE as int)] == window_of(self.silence, self.since_onset@)[k] by {
                assert((0 + k) % (TOTAL_SIZE as int) == k);
            }
        } else if self.note_on && below_offset {
            self.note_on = false;
            return BlockOutcome { onset: false, offset: true, window: None };
        }
        if !self.note_on {
            return BlockOutcome { onset: false, offset: false, window: None };
        }
        let ghost start = self.since_onset@;
        let mut j: usize = 0;
        while j < block.len()
            invariant
                j <= block@.len(),
                self.ring@.len() == TOTAL_SIZE,
                self.write_pos < TOTAL_SIZE,
                self.silence == old(self).silence,
                self.note_on,
                self.block_count < FFT_ACCUMULATE_BLOCKS,
                self.block_count == (if onset { 0 } else { old(self).block_count }),
                onset == (!old(self).note_on && reaches_onset),
                self.since_onset@ == start + block@.take(j as int),
                forall|k: int|
                    0 <= k < TOTAL_SIZE ==> #[trigger] self.ring@[(self.write_pos + k) % (TOTAL_SIZE as int)]
                        == window_of(self.silence, self.since_onset@)[k],
            decreases block@.len() - j,
        {
            let s = block[j];
            let ghost before = self.since_onset@;
            let ghost old_ring = self.ring@;
            let ghost wp = self.write_pos as int;
            self.ring.set(self.write_pos, s);
            self.write_pos = (self.write_pos + 1) % TOTAL_SIZE;
            self.since_onset = Ghost(before.push(s));
            proof {
                lemma_window_push(self.silence, before, s);
                assert forall|k: int| 0 <= k < TOTAL_SIZE implies #[trigger] self.ring@[(self.write_pos + k) % (
                TOTAL_SIZE as int)] == window_of(self.silence, self.since_onset@)[k] by {
                    let n = TOTAL_SIZE as int;
                    if k < n - 1 {
                        assert((self.write_pos + k) % n == (wp + (k + 1)) % n);
                        assert((wp + (k + 1)) % n != wp);
                    } else {
                        assert((self.write_pos + k) % n == wp);
                    }
                }
            }
            assert(block@.take(j + 1) =~= block@.take(j as int).push(s));
            assert(self.since_onset@ =~= start + block@.take(j + 1));
            j = j + 1;
        }
        assert(block@.take(block@.len() as int) =~= block@);
        self.block_count = self.block_count + 1;
        if self.block_count < FFT_ACCUMULATE_BLOCKS {
            return BlockOutcome { onset, offset: false, window: None };
        }
        self.block_count = 0;
        let mut buf: Vec<T> = Vec::with_capacity(TOTAL_SIZE);
        let mut k: usize = 0;
        while k < TOTAL_SIZE
            invariant
                k <= TOTAL_SIZE,
                self.ring@.len() == TOTAL_SIZE,
                self.write_pos < TOTAL_SIZE,
                buf@.len() == k,
                self.silence == old(self).silence,
                forall|i: int|
                    0 <= i < TOTAL_SIZE ==> #[trigger] self.ring@[(self.write_pos + i) % (TOTAL_SIZE as int)]
                        == window_of(self.silence, self.since_onset@)[i],
                forall|i: int| 0 <= i < k ==> #[trigger] buf@[i] == window_of(self.silence, self.since_onset@)[i],
            decreases TOTAL_SIZE - k,
        {
            let idx = if self.write_pos + k < TOTAL_SIZE {
                self.write_pos + k
            } else {
                self.write_pos + k - TOTAL_SIZE
            };
            assert(idx == (self.write_pos + k) % (TOTAL_SIZE as int));
            buf.push(self.ring[idx]);
            k = k + 1;
        }
        assert(buf@ =~= window_of(self.silence, self.since_onset@));
        BlockOutcome { onset, offset: false, window: Some(buf) }
    }
}

/// Taking one more sample drops the oldest sample of the window and adds the new one last.
proof fn lemma_window_push<T>(silence: T, samples: Seq<T>, s: T)
    ensures
        window_of(silence, samples.push(s)) == window_of(silence, samples).drop_first().push(s),
{
    let n = TOTAL_SIZE as int;
    let padded = Seq::new(TOTAL_SIZE as nat, |i: int| silence) + samples;
    let padded2 = Seq::new(TOTAL_SIZE as nat, |i: int| silence) + samples.push(s);
    assert(padded2 =~= padded.push(s));
    assert(window_of(silence, samples.push(s)) =~= window_of(silence, samples).drop_first().push(s));
}

} // verus!
