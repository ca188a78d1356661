use vstd::prelude::*;

verus! {

/// Takes the first channel out of interleaved audio: the samples come in frames of
/// `channels` values, one per channel, the last frame possibly short; the result holds the
/// first value of each frame, in order.
pub fn first_channel<T: Copy>(data: &[T], channels: usize) -> (mono: Vec<T>)
    requires
        channels > 0,
    ensures
        mono.len() * channels >= data.len(),
        mono.len() == 0 || (mono.len() - 1) * channels < data.len(),
        forall|i: int|
            0 <= i < mono.len() ==> #[trigger] mono@[i] == data@[i * channels],
{
    let mut mono: Vec<T> = Vec::new();
    if data.len() == 0 {
        return mono;
    }
    let mut pos: usize = 0;
    assert(mono.len() * channels == 0) by (nonlinear_arith)
        requires
            mono.len() == 0,
    ;
    loop
        invariant_except_break
            pos < data.len(),
            pos == mono.len() * channels,
            channels > 0,
            forall|i: int|
                0 <= i < mono.len() ==> #[trigger] mono@[i] == data@[i * channels],
        ensures
            mono.len() * channels >= data.len(),
            mono.len() == 0 || (mono.len() - 1) * channels < data.len(),
            forall|i: int|
                0 <= i < mono.len() ==> #[trigger] mono@[i] == data@[i * channels],
        decreases data.len() - pos,
    {
        let ghost k = mono.len() as int;
        let ghost before = mono@;
        assert(k * channels == pos);
        mono.push(data[pos]);
        assert(mono.len() * channels == pos + channels) by (nonlinear_arith)
            requires
                mono.len() == k + 1,
                pos == k * channels,
        ;
        assert((mono.len() - 1) * channels < data.len());
        assert forall|i: int| 0 <= i < mono.len() implies #[trigger] mono@[i] == data@[i * channels] by {
            if i < k {
                assert(mono@[i] == before[i]);
            }
        }
        if data.len() - pos <= channels {
            break;
        }
        pos = pos + channels;
    }
    mono
}

} // verus!
