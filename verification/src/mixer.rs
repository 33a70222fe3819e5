//! The mixing of microphone and system audio.
//!
//! Microphone samples are queued and leave in whole blocks; each block is
//! paired with as much system audio, passed through the echo canceller where
//! that is on, and written out unless the recording is paused. The arithmetic
//! on the samples is the caller's; what is decided here is which samples meet,
//! which are written, and which stay queued.
use crate::blocks::{
    chunks, law_downmix_ignores_the_cut, means_of, padded, pull_block, queue_samples, settle_block,
    take_block, AEC_FRAME_SIZE,
};
use std::collections::VecDeque;
use vstd::prelude::*;

verus! {

/// The gain of an open source, in hundredths.
pub const OPEN_GAIN_PERCENT: u32 = 72;

/// The gain of a source, in hundredths: nothing while it is muted.
pub open spec fn gain_of(on: bool) -> u32 {
    if on {
        OPEN_GAIN_PERCENT
    } else {
        0
    }
}

/// The gain of a source, in hundredths.
pub fn gain_percent(on: bool) -> (r: u32)
    ensures
        r == gain_of(on),
{
    if on {
        OPEN_GAIN_PERCENT
    } else {
        0
    }
}

/// The switches that one mixing run reads.
#[derive(Clone, Copy)]
pub struct MixControls {
    pub mic_on: bool,
    pub system_on: bool,
    pub echo_cancel: bool,
    pub paused: bool,
}

impl MixControls {
    /// Whether blocks pass through the echo canceller.
    pub open spec fn cancels(self) -> bool {
        self.echo_cancel && !self.paused
    }

    /// The switches of an application that has just started: both sources open,
    /// the canceller on, nothing paused.
    pub fn new() -> (r: MixControls)
        ensures
            r == (MixControls { mic_on: true, system_on: true, echo_cancel: true, paused: false }),
    {
        MixControls { mic_on: true, system_on: true, echo_cancel: true, paused: false }
    }

    /// Opens or mutes the two sources; the other switches stay.
    pub fn set_mix_gates(&mut self, mic: bool, system: bool)
        ensures
            *final(self) == (MixControls { mic_on: mic, system_on: system, ..*old(self) }),
    {
        self.mic_on = mic;
        self.system_on = system;
    }

    /// Switches the echo canceller; the other switches stay.
    pub fn set_aec_enabled(&mut self, enabled: bool)
        ensures
            *final(self) == (MixControls { echo_cancel: enabled, ..*old(self) }),
    {
        self.echo_cancel = enabled;
    }
}

/// What one mixing run took: the microphone samples after echo cancelling and
/// the system samples that go with them, in step, and whether they are to be
/// written.
pub struct MixedAudio<S> {
    pub mic: Vec<S>,
    pub system: Vec<S>,
    pub write: bool,
}

/// How many whole blocks are in `n` samples.
pub open spec fn whole_blocks(n: nat) -> nat {
    n / AEC_FRAME_SIZE as nat
}

/// The `k`th block of a sequence.
pub open spec fn block_of<S>(s: Seq<S>, k: int) -> Seq<S> {
    s.subrange(k * AEC_FRAME_SIZE, (k + 1) * AEC_FRAME_SIZE)
}

/// Whether the canceller, handed the block `taken` in the state `before`, may
/// return `back` and be left in the state `after`.
pub open spec fn hands_over<A, S, C: Fn(A, Vec<S>) -> (A, Vec<S>)>(
    cancel: C,
    before: A,
    taken: Seq<S>,
    after: A,
    back: Vec<S>,
) -> bool {
    exists|given: Vec<S>|
        given@ == taken && #[trigger] call_ensures(cancel, (before, given), (after, back))
}

/// Whether the canceller goes through `states` when it is handed the first
/// blocks of `waiting`, each once and in order, and returns `backs`.
pub open spec fn handed_in_order<A, S, C: Fn(A, Vec<S>) -> (A, Vec<S>)>(
    waiting: Seq<S>,
    cancel: C,
    states: Seq<A>,
    backs: Seq<Vec<S>>,
) -> bool {
    &&& states.len() == backs.len() + 1
    &&& forall|k: int|
        0 <= k < backs.len() ==> hands_over(
            cancel,
            states[k],
            block_of(waiting, k),
            states[k + 1],
            #[trigger] backs[k],
        )
}

/// Whether `out` is what was returned, block by block, each brought to the
/// block size.
pub open spec fn settled<S>(backs: Seq<Vec<S>>, fill: S, out: Seq<S>) -> bool {
    &&& out.len() == backs.len() * AEC_FRAME_SIZE
    &&& forall|k: int|
        0 <= k < backs.len() ==> block_of(out, k) == padded(
            (#[trigger] backs[k])@,
            AEC_FRAME_SIZE as nat,
            fill,
        )
}

/// Whether `out` may come of the first `n` blocks of `waiting` by way of the
/// canceller, which goes from the state `before` to the state `after`: it is
/// called `n` times, on these blocks in their order and on nothing else.
pub open spec fn cancelled<A, S, C: Fn(A, Vec<S>) -> (A, Vec<S>)>(
    waiting: Seq<S>,
    n: nat,
    cancel: C,
    fill: S,
    before: A,
    out: Seq<S>,
    after: A,
) -> bool {
    exists|states: Seq<A>, backs: Seq<Vec<S>>|
        {
            &&& #[trigger] handed_in_order(waiting, cancel, states, backs)
            &&& backs.len() == n
            &&& states[0] == before
            &&& states[n as int] == after
            &&& settled(backs, fill, out)
        }
}

/// Whether the canceller takes what a run hands it: the waiting blocks, and
/// these only while it is on.
pub open spec fn may_be_handed<A, S, C: Fn(A, Vec<S>) -> (A, Vec<S>)>(
    waiting: Seq<S>,
    controls: MixControls,
    cancel: C,
) -> bool {
    controls.cancels() ==> forall|state: A, block: Vec<S>, k: int|
        #![trigger call_requires(cancel, (state, block)), block_of(waiting, k)]
        0 <= k < whole_blocks(waiting.len()) && block@ == block_of(waiting, k) ==> call_requires(
            cancel,
            (state, block),
        )
}

/// What is left of a queue after `n` samples were pulled off it.
pub open spec fn left_after<S>(s: Seq<S>, n: nat) -> Seq<S> {
    if s.len() <= n {
        Seq::empty()
    } else {
        s.skip(n as int)
    }
}

/// Whether a mixing run may take `r` off the waiting microphone samples and
/// the system samples, and leave `mic_left` and `system_left` behind. The
/// canceller goes from the state `before` to the state `after`; while it is off
/// it is not called, and its state stays.
pub open spec fn mixes<A, S, C: Fn(A, Vec<S>) -> (A, Vec<S>)>(
    waiting: Seq<S>,
    system: Seq<S>,
    controls: MixControls,
    cancel: C,
    fill: S,
    before: A,
    r: MixedAudio<S>,
    mic_left: Seq<S>,
    system_left: Seq<S>,
    after: A,
) -> bool {
    let blocks = whole_blocks(waiting.len());
    let taken = blocks * AEC_FRAME_SIZE as nat;
    &&& mic_left == waiting.skip(taken as int)
    &&& r.mic@.len() == taken
    &&& controls.cancels() ==> cancelled(waiting, blocks, cancel, fill, before, r.mic@, after)
    &&& !controls.cancels() ==> r.mic@ == waiting.take(taken as int) && after == before
    &&& r.system@ == padded(system, taken, fill)
    &&& system_left == left_after(system, taken)
    &&& r.write == !controls.paused
}

/// One mixing run: queues `raw_mic` behind the samples that wait, and takes
/// every whole block off the queue. Each takes a block of system audio along,
/// filled up with `fill` where the system queue runs short, also while the
/// recording is paused: then nothing is written and nothing cancelled. The
/// canceller remembers what it was handed, so its state is passed from call to
/// call, and comes back with the audio.
pub fn write_mixed_samples<A, S: Copy, C: Fn(A, Vec<S>) -> (A, Vec<S>)>(
    mic_queue: &mut VecDeque<S>,
    raw_mic: &[S],
    system_queue: &mut VecDeque<S>,
    controls: MixControls,
    canceller: A,
    cancel: C,
    fill: S,
) -> (r: (MixedAudio<S>, A))
    requires
        may_be_handed(old(mic_queue)@ + raw_mic@, controls, cancel),
    ensures
        mixes(
            old(mic_queue)@ + raw_mic@,
            old(system_queue)@,
            controls,
            cancel,
            fill,
            canceller,
            r.0,
            final(mic_queue)@,
            final(system_queue)@,
            r.1,
        ),
{
    let ghost waiting = mic_queue@ + raw_mic@;
    let ghost sys = system_queue@;
    let ghost mut states: Seq<A> = seq![canceller];
    let ghost mut backs: Seq<Vec<S>> = Seq::empty();
    queue_samples(mic_queue, raw_mic);
    let mut state = canceller;
    let mut mic: Vec<S> = Vec::new();
    let mut system: Vec<S> = Vec::new();
    let cancels: bool = controls.echo_cancel && !controls.paused;
    let ghost mut n: nat = 0;
    let mut block = take_block(mic_queue);
    proof {
        assert(waiting.skip(0) =~= waiting);
        assert(mic@ =~= waiting.take(0));
        assert(system@ =~= padded(sys, 0, fill));
        assert(sys =~= left_after(sys, 0));
    }
    while block.is_some()
        invariant
            cancels == controls.cancels(),
            may_be_handed(waiting, controls, cancel),
            block matches Some(b) ==> {
                &&& b@ == block_of(waiting, n as int)
                &&& (n + 1) * AEC_FRAME_SIZE <= waiting.len()
                &&& mic_queue@ == waiting.skip((n + 1) * AEC_FRAME_SIZE)
            },
            block is None ==> {
                &&& mic_queue@ == waiting.skip(n * AEC_FRAME_SIZE)
                &&& n * AEC_FRAME_SIZE <= waiting.len() < (n + 1) * AEC_FRAME_SIZE
            },
            mic@.len() == n * AEC_FRAME_SIZE,
            cancels ==> {
                &&& handed_in_order(waiting, cancel, states, backs)
                &&& backs.len() == n
                &&& states[0] == canceller
                &&& states[n as int] == state
                &&& settled(backs, fill, mic@)
            },
            !cancels ==> mic@ == waiting.take(n * AEC_FRAME_SIZE) && state == canceller,
            system@ == padded(sys, (n * AEC_FRAME_SIZE) as nat, fill),
            system_queue@ == left_after(sys, (n * AEC_FRAME_SIZE) as nat),
        decreases waiting.len() - n * AEC_FRAME_SIZE,
    {
        let taken = block.unwrap();
        let ghost before_mic = mic@;
        let ghost before_state = state;
        let mut system_block = pull_block(system_queue, fill);
        let mut mic_block = if cancels {
            assert(taken@ == block_of(waiting, n as int));
            let (next, back) = cancel(state, taken);
            state = next;
            proof {
                assert(hands_over(cancel, before_state, block_of(waiting, n as int), next, back));
                let grown = backs.push(back);
                let passed = states.push(next);
                assert forall|k: int| 0 <= k < grown.len() implies hands_over(
                    cancel,
                    passed[k],
                    block_of(waiting, k),
                    passed[k + 1],
                    #[trigger] grown[k],
                ) by {
                    if k < n {
                        assert(grown[k] == backs[k]);
                    }
                }
                backs = grown;
                states = passed;
            }
            settle_block(back, fill)
        } else {
            taken
        };
        let ghost added = mic_block@;
        mic.append(&mut mic_block);
        system.append(&mut system_block);
        proof {
            assert(mic@ =~= before_mic + added);
            assert(added.len() == AEC_FRAME_SIZE);
            if cancels {
                assert forall|k: int| 0 <= k < backs.len() implies block_of(mic@, k) == padded(
                    (#[trigger] backs[k])@,
                    AEC_FRAME_SIZE as nat,
                    fill,
                ) by {
                    if k < n {
                        assert(block_of(mic@, k) =~= block_of(before_mic, k));
                    } else {
                        assert(block_of(mic@, k) =~= added);
                    }
                }
            } else {
                assert(mic@ =~= waiting.take((n + 1) * AEC_FRAME_SIZE));
            }
            assert(system@ =~= padded(sys, ((n + 1) * AEC_FRAME_SIZE) as nat, fill));
            assert(system_queue@ =~= left_after(sys, ((n + 1) * AEC_FRAME_SIZE) as nat));
            n = n + 1;
        }
        block = take_block(mic_queue);
        proof {
            if block is Some {
                assert(block.unwrap()@ =~= block_of(waiting, n as int));
                assert(mic_queue@ =~= waiting.skip((n + 1) * AEC_FRAME_SIZE));
            }
        }
    }
    assert(n == whole_blocks(waiting.len()));
    (MixedAudio { mic, system, write: !controls.paused }, state)
}

/// Whether `out` is what is written of a mixing run: nothing while paused, else
/// one sample for each pair, mixed with the gains of the two sources.
pub open spec fn written_of<S, T, M: Fn(S, S, u32, u32) -> T>(
    audio: MixedAudio<S>,
    controls: MixControls,
    mix: M,
    out: Seq<T>,
) -> bool {
    if !audio.write {
        out.len() == 0
    } else {
        &&& out.len() == audio.mic@.len()
        &&& forall|i: int|
            0 <= i < out.len() ==> call_ensures(
                mix,
                (
                    audio.mic@[i],
                    audio.system@[i],
                    gain_of(controls.mic_on),
                    gain_of(controls.system_on),
                ),
                #[trigger] out[i],
            )
    }
}

/// The samples to be written of a mixing run. `mix` takes a microphone and a
/// system sample and the gains of the two in hundredths.
pub fn written_samples<S: Copy, T, M: Fn(S, S, u32, u32) -> T>(
    audio: &MixedAudio<S>,
    controls: MixControls,
    mix: M,
) -> (r: Vec<T>)
    requires
        audio.mic@.len() == audio.system@.len(),
        forall|m: S, s: S, a: u32, b: u32| #[trigger] call_requires(mix, (m, s, a, b)),
    ensures
        written_of(*audio, controls, mix, r@),
{
    let mut out: Vec<T> = Vec::new();
    if !audio.write {
        return out;
    }
    let mic_gain: u32 = gain_percent(controls.mic_on);
    let system_gain: u32 = gain_percent(controls.system_on);
    for i in 0..audio.mic.len()
        invariant
            audio.mic@.len() == audio.system@.len(),
            mic_gain == gain_of(controls.mic_on),
            system_gain == gain_of(controls.system_on),
            forall|m: S, s: S, a: u32, b: u32| #[trigger] call_requires(mix, (m, s, a, b)),
            out@.len() == i,
            forall|j: int|
                0 <= j < i ==> call_ensures(
                    mix,
                    (audio.mic@[j], audio.system@[j], mic_gain, system_gain),
                    #[trigger] out@[j],
                ),
    {
        let sample = mix(audio.mic[i], audio.system[i], mic_gain, system_gain);
        out.push(sample);
    }
    out
}

/// One mixing run without an echo canceller: every microphone sample is paired
/// with one of system audio and handed back to be written. With nothing to
/// write to, the system audio stays queued; while paused, as much of it is
/// dropped as would have been written.
pub fn pair_samples<S: Copy>(
    raw_mic: &[S],
    system_queue: &mut VecDeque<S>,
    paused: bool,
    writing: bool,
    fill: S,
) -> (r: Vec<(S, S)>)
    ensures
        !paused && writing ==> {
            &&& r@.len() == raw_mic@.len()
            &&& forall|i: int|
                0 <= i < r@.len() ==> #[trigger] r@[i] == (
                    raw_mic@[i],
                    padded(old(system_queue)@, raw_mic@.len(), fill)[i],
                )
        },
        paused || !writing ==> r@.len() == 0,
        paused || writing ==> final(system_queue)@ == left_after(
            old(system_queue)@,
            raw_mic@.len(),
        ),
        !paused && !writing ==> final(system_queue)@ == old(system_queue)@,
{
    let mut out: Vec<(S, S)> = Vec::new();
    if !paused && !writing {
        return out;
    }
    let ghost sys = system_queue@;
    let n: usize = raw_mic.len();
    assert(sys =~= left_after(sys, 0));
    for i in 0..n
        invariant
            n == raw_mic@.len(),
            paused || writing,
            paused ==> out@.len() == 0,
            !paused ==> out@.len() == i,
            !paused ==> forall|j: int|
                0 <= j < i ==> #[trigger] out@[j] == (raw_mic@[j], padded(sys, n as nat, fill)[j]),
            system_queue@ == left_after(sys, i as nat),
    {
        let system = match system_queue.pop_front() {
            Some(s) => s,
            None => fill,
        };
        assert(system_queue@ =~= left_after(sys, (i + 1) as nat));
        if !paused {
            out.push((raw_mic[i], system));
        }
    }
    out
}

/// A run with the canceller off loses no microphone sample and reorders none:
/// what it takes and what stays queued are the waiting samples, and less than
/// one block stays. The canceller is not called.
pub proof fn law_mix_keeps_microphone<A, S, C: Fn(A, Vec<S>) -> (A, Vec<S>)>(
    waiting: Seq<S>,
    system: Seq<S>,
    controls: MixControls,
    cancel: C,
    fill: S,
    before: A,
    r: MixedAudio<S>,
    mic_left: Seq<S>,
    system_left: Seq<S>,
    after: A,
)
    requires
        mixes(waiting, system, controls, cancel, fill, before, r, mic_left, system_left, after),
        !controls.cancels(),
    ensures
        r.mic@ + mic_left == waiting,
        mic_left.len() < AEC_FRAME_SIZE,
        after == before,
{
    assert(r.mic@ + mic_left =~= waiting);
}

/// Whatever the canceller does, the two sources stay in step, in whole blocks.
pub proof fn law_mix_in_step<A, S, C: Fn(A, Vec<S>) -> (A, Vec<S>)>(
    waiting: Seq<S>,
    system: Seq<S>,
    controls: MixControls,
    cancel: C,
    fill: S,
    before: A,
    r: MixedAudio<S>,
    mic_left: Seq<S>,
    system_left: Seq<S>,
    after: A,
)
    requires
        mixes(waiting, system, controls, cancel, fill, before, r, mic_left, system_left, after),
    ensures
        r.mic@.len() == r.system@.len(),
        r.mic@.len() % AEC_FRAME_SIZE as nat == 0,
        r.mic@.len() + mic_left.len() == waiting.len(),
{
}

/// While it is on, the canceller is called once for each whole block that
/// waits, on the blocks in their order, each of the block size; what it returns
/// is what the run takes. Otherwise it is not called, and its state stays.
pub proof fn law_canceller_gets_each_block_once<A, S, C: Fn(A, Vec<S>) -> (A, Vec<S>)>(
    waiting: Seq<S>,
    system: Seq<S>,
    controls: MixControls,
    cancel: C,
    fill: S,
    before: A,
    r: MixedAudio<S>,
    mic_left: Seq<S>,
    system_left: Seq<S>,
    after: A,
) -> (calls: (Seq<A>, Seq<Vec<S>>))
    requires
        mixes(waiting, system, controls, cancel, fill, before, r, mic_left, system_left, after),
    ensures
        calls.0.len() == calls.1.len() + 1,
        calls.0[0] == before,
        calls.0.last() == after,
        calls.1.len() == (if controls.echo_cancel && !controls.paused {
            waiting.len() / AEC_FRAME_SIZE as nat
        } else {
            0
        }),
        forall|k: int|
            0 <= k < calls.1.len() ==> {
                &&& block_of(waiting, k).len() == AEC_FRAME_SIZE
                &&& hands_over(
                    cancel,
                    calls.0[k],
                    block_of(waiting, k),
                    calls.0[k + 1],
                    #[trigger] calls.1[k],
                )
                &&& block_of(r.mic@, k) == padded(calls.1[k]@, AEC_FRAME_SIZE as nat, fill)
            },
{
    if controls.cancels() {
        let n = whole_blocks(waiting.len());
        let (states, backs) = choose|states: Seq<A>, backs: Seq<Vec<S>>|
            {
                &&& #[trigger] handed_in_order(waiting, cancel, states, backs)
                &&& backs.len() == n
                &&& states[0] == before
                &&& states[n as int] == after
                &&& settled(backs, fill, r.mic@)
            };
        (states, backs)
    } else {
        (seq![before], Seq::empty())
    }
}

/// Pausing changes what is written and cancelled, never what is consumed: two
/// runs on the same samples leave the same queues, paused or not.
pub proof fn law_pause_consumes_alike<A, S, C: Fn(A, Vec<S>) -> (A, Vec<S>)>(
    waiting: Seq<S>,
    system: Seq<S>,
    playing: MixControls,
    paused: MixControls,
    cancel: C,
    fill: S,
    before: A,
    r: MixedAudio<S>,
    mic_left: Seq<S>,
    system_left: Seq<S>,
    after: A,
    paused_r: MixedAudio<S>,
    paused_mic_left: Seq<S>,
    paused_system_left: Seq<S>,
    paused_after: A,
)
    requires
        mixes(waiting, system, playing, cancel, fill, before, r, mic_left, system_left, after),
        mixes(
            waiting,
            system,
            paused,
            cancel,
            fill,
            before,
            paused_r,
            paused_mic_left,
            paused_system_left,
            paused_after,
        ),
        !playing.paused,
        paused.paused,
    ensures
        r.write,
        !paused_r.write,
        mic_left == paused_mic_left,
        system_left == paused_system_left,
        r.system@ == paused_r.system@,
        paused_r.mic@ + paused_mic_left == waiting,
        paused_after == before,
{
    assert(paused_r.mic@ + paused_mic_left =~= waiting);
}

/// Whether all samples of a run are tame, in a sense that the caller sets.
pub open spec fn all_tame<S>(audio: MixedAudio<S>, tame: spec_fn(S) -> bool) -> bool {
    &&& forall|i: int| 0 <= i < audio.mic@.len() ==> tame(#[trigger] audio.mic@[i])
    &&& forall|i: int| 0 <= i < audio.system@.len() ==> tame(#[trigger] audio.system@[i])
}

/// Whether `mix` leaves out a system sample whose gain is nothing, of tame
/// samples.
pub open spec fn leaves_out_system<S, T, M: Fn(S, S, u32, u32) -> T>(
    mix: M,
    tame: spec_fn(S) -> bool,
) -> bool {
    forall|m: S, s: S, s2: S, a: u32, t: T, t2: T|
        tame(m) && tame(s) && tame(s2) && #[trigger] call_ensures(mix, (m, s, a, 0u32), t)
            && #[trigger] call_ensures(mix, (m, s2, a, 0u32), t2) ==> t == t2
}

/// Whether `mix` leaves out a microphone sample whose gain is nothing, of tame
/// samples.
pub open spec fn leaves_out_microphone<S, T, M: Fn(S, S, u32, u32) -> T>(
    mix: M,
    tame: spec_fn(S) -> bool,
) -> bool {
    forall|m: S, m2: S, s: S, b: u32, t: T, t2: T|
        tame(m) && tame(m2) && tame(s) && #[trigger] call_ensures(mix, (m, s, 0u32, b), t)
            && #[trigger] call_ensures(mix, (m2, s, 0u32, b), t2) ==> t == t2
}

/// Muted system audio is gone from the mix: two runs with the canceller off, on
/// the same microphone samples and any system audio, write the same.
pub proof fn law_muted_system_is_gone<
    A,
    S,
    T,
    C: Fn(A, Vec<S>) -> (A, Vec<S>),
    M: Fn(S, S, u32, u32) -> T,
>(
    waiting: Seq<S>,
    controls: MixControls,
    cancel: C,
    fill: S,
    mix: M,
    tame: spec_fn(S) -> bool,
    system: Seq<S>,
    before: A,
    r: MixedAudio<S>,
    mic_left: Seq<S>,
    system_left: Seq<S>,
    after: A,
    out: Seq<T>,
    system2: Seq<S>,
    before2: A,
    r2: MixedAudio<S>,
    mic_left2: Seq<S>,
    system_left2: Seq<S>,
    after2: A,
    out2: Seq<T>,
)
    requires
        mixes(waiting, system, controls, cancel, fill, before, r, mic_left, system_left, after),
        mixes(
            waiting,
            system2,
            controls,
            cancel,
            fill,
            before2,
            r2,
            mic_left2,
            system_left2,
            after2,
        ),
        !controls.cancels(),
        !controls.system_on,
        written_of(r, controls, mix, out),
        written_of(r2, controls, mix, out2),
        all_tame(r, tame),
        all_tame(r2, tame),
        leaves_out_system(mix, tame),
    ensures
        out == out2,
{
    let a = gain_of(controls.mic_on);
    assert forall|i: int| 0 <= i < out.len() implies out[i] == out2[i] by {
        assert(call_ensures(mix, (r.mic@[i], r.system@[i], a, 0u32), out[i]));
        assert(call_ensures(mix, (r2.mic@[i], r2.system@[i], a, 0u32), out2[i]));
        assert(tame(r.mic@[i]) && tame(r.system@[i]) && tame(r2.system@[i]));
    }
    assert(out =~= out2);
}

/// A muted microphone is gone from the mix: two runs on the same system audio
/// and as many microphone samples, whatever these are and whatever the
/// canceller made of them, write the same.
pub proof fn law_muted_microphone_is_gone<
    A,
    S,
    T,
    C: Fn(A, Vec<S>) -> (A, Vec<S>),
    M: Fn(S, S, u32, u32) -> T,
>(
    system: Seq<S>,
    controls: MixControls,
    cancel: C,
    fill: S,
    mix: M,
    tame: spec_fn(S) -> bool,
    waiting: Seq<S>,
    before: A,
    r: MixedAudio<S>,
    mic_left: Seq<S>,
    system_left: Seq<S>,
    after: A,
    out: Seq<T>,
    waiting2: Seq<S>,
    before2: A,
    r2: MixedAudio<S>,
    mic_left2: Seq<S>,
    system_left2: Seq<S>,
    after2: A,
    out2: Seq<T>,
)
    requires
        mixes(waiting, system, controls, cancel, fill, before, r, mic_left, system_left, after),
        mixes(
            waiting2,
            system,
            controls,
            cancel,
            fill,
            before2,
            r2,
            mic_left2,
            system_left2,
            after2,
        ),
        waiting.len() == waiting2.len(),
        !controls.mic_on,
        written_of(r, controls, mix, out),
        written_of(r2, controls, mix, out2),
        all_tame(r, tame),
        all_tame(r2, tame),
        leaves_out_microphone(mix, tame),
    ensures
        out == out2,
{
    let b = gain_of(controls.system_on);
    assert forall|i: int| 0 <= i < out.len() implies out[i] == out2[i] by {
        assert(call_ensures(mix, (r.mic@[i], r.system@[i], 0u32, b), out[i]));
        assert(call_ensures(mix, (r2.mic@[i], r2.system@[i], 0u32, b), out2[i]));
        assert(tame(r.mic@[i]) && tame(r2.mic@[i]) && tame(r.system@[i]));
    }
    assert(out =~= out2);
}

/// With both sources muted, silence is written, as much of it as sound would
/// have been.
pub proof fn law_both_muted_is_silence<S, T, M: Fn(S, S, u32, u32) -> T>(
    audio: MixedAudio<S>,
    controls: MixControls,
    mix: M,
    tame: spec_fn(S) -> bool,
    silence: T,
    out: Seq<T>,
)
    requires
        written_of(audio, controls, mix, out),
        audio.mic@.len() == audio.system@.len(),
        !controls.mic_on,
        !controls.system_on,
        all_tame(audio, tame),
        forall|m: S, s: S, t: T|
            tame(m) && tame(s) && #[trigger] call_ensures(mix, (m, s, 0u32, 0u32), t) ==> t
                == silence,
    ensures
        audio.write ==> out.len() == audio.mic@.len(),
        forall|i: int| 0 <= i < out.len() ==> #[trigger] out[i] == silence,
{
    assert forall|i: int| 0 <= i < out.len() implies #[trigger] out[i] == silence by {
        assert(call_ensures(mix, (audio.mic@[i], audio.system@[i], 0u32, 0u32), out[i]));
        assert(tame(audio.mic@[i]) && tame(audio.system@[i]));
    }
}

/// How the driver slices its callbacks does not matter, to the canceller either:
/// two runs, the second on what the first left and `more`, are together a run
/// on everything, with the same queues and the same canceller in the end.
pub proof fn law_mix_ignores_callback_size<A, S, C: Fn(A, Vec<S>) -> (A, Vec<S>)>(
    waiting: Seq<S>,
    more: Seq<S>,
    system: Seq<S>,
    controls: MixControls,
    cancel: C,
    fill: S,
    before: A,
    first: MixedAudio<S>,
    first_mic: Seq<S>,
    first_system: Seq<S>,
    between: A,
    second: MixedAudio<S>,
    second_mic: Seq<S>,
    second_system: Seq<S>,
    after: A,
    both: MixedAudio<S>,
)
    requires
        mixes(
            waiting,
            system,
            controls,
            cancel,
            fill,
            before,
            first,
            first_mic,
            first_system,
            between,
        ),
        mixes(
            first_mic + more,
            first_system,
            controls,
            cancel,
            fill,
            between,
            second,
            second_mic,
            second_system,
            after,
        ),
        both.mic@ == first.mic@ + second.mic@,
        both.system@ == first.system@ + second.system@,
        both.write == first.write,
    ensures
        mixes(
            waiting + more,
            system,
            controls,
            cancel,
            fill,
            before,
            both,
            second_mic,
            second_system,
            after,
        ),
{
    let all = waiting + more;
    let rest = first_mic + more;
    let n = whole_blocks(waiting.len());
    let m = whole_blocks(rest.len());
    assert(n + m == whole_blocks(all.len()));
    let taken = ((n + m) * AEC_FRAME_SIZE) as nat;
    assert(rest =~= all.skip(n * AEC_FRAME_SIZE));
    assert(second_mic =~= all.skip(taken as int));
    assert(both.system@ =~= padded(system, taken, fill));
    assert(second_system =~= left_after(system, taken));
    if controls.cancels() {
        let (states, backs) = law_canceller_gets_each_block_once(
            waiting,
            system,
            controls,
            cancel,
            fill,
            before,
            first,
            first_mic,
            first_system,
            between,
        );
        let (states2, backs2) = law_canceller_gets_each_block_once(
            rest,
            first_system,
            controls,
            cancel,
            fill,
            between,
            second,
            second_mic,
            second_system,
            after,
        );
        let passed = states + states2.drop_first();
        let grown = backs + backs2;
        assert(passed[n as int] == states2[0]);
        assert forall|k: int| 0 <= k < grown.len() implies hands_over(
            cancel,
            passed[k],
            block_of(all, k),
            passed[k + 1],
            #[trigger] grown[k],
        ) by {
            if k < n {
                assert(grown[k] == backs[k]);
                assert(block_of(all, k) =~= block_of(waiting, k));
            } else {
                assert(grown[k] == backs2[k - n]);
                assert(block_of(all, k) =~= block_of(rest, k - n));
                assert(passed[k] == states2[k - n]);
                assert(passed[k + 1] == states2[k - n + 1]);
            }
        }
        assert forall|k: int| 0 <= k < grown.len() implies block_of(both.mic@, k) == padded(
            (#[trigger] grown[k])@,
            AEC_FRAME_SIZE as nat,
            fill,
        ) by {
            if k < n {
                assert(grown[k] == backs[k]);
                assert(block_of(both.mic@, k) =~= block_of(first.mic@, k));
            } else {
                assert(grown[k] == backs2[k - n]);
                assert(block_of(both.mic@, k) =~= block_of(second.mic@, k - n));
            }
        }
        assert(handed_in_order(all, cancel, passed, grown));
        assert(settled(grown, fill, both.mic@));
        assert(passed[(n + m) as int] == after);
        assert(cancelled(all, n + m, cancel, fill, before, both.mic@, after));
    } else {
        assert(both.mic@ =~= all.take(taken as int));
    }
}

/// With the canceller off a run is determined: the same samples give the same
/// audio and leave the same queues.
pub proof fn law_mix_is_determined<A, S, C: Fn(A, Vec<S>) -> (A, Vec<S>)>(
    waiting: Seq<S>,
    system: Seq<S>,
    controls: MixControls,
    cancel: C,
    fill: S,
    before: A,
    r: MixedAudio<S>,
    mic_left: Seq<S>,
    system_left: Seq<S>,
    after: A,
    r2: MixedAudio<S>,
    mic_left2: Seq<S>,
    system_left2: Seq<S>,
    after2: A,
)
    requires
        mixes(waiting, system, controls, cancel, fill, before, r, mic_left, system_left, after),
        mixes(waiting, system, controls, cancel, fill, before, r2, mic_left2, system_left2, after2),
        !controls.cancels(),
    ensures
        r.mic@ == r2.mic@,
        r.system@ == r2.system@,
        r.write == r2.write,
        mic_left == mic_left2,
        system_left == system_left2,
        after == after2,
{
}

/// What two runs write, one after the other, is what is written of both.
pub proof fn law_written_joins<S, T, M: Fn(S, S, u32, u32) -> T>(
    first: MixedAudio<S>,
    second: MixedAudio<S>,
    both: MixedAudio<S>,
    controls: MixControls,
    mix: M,
    out: Seq<T>,
    out2: Seq<T>,
)
    requires
        written_of(first, controls, mix, out),
        written_of(second, controls, mix, out2),
        first.mic@.len() == first.system@.len(),
        second.mic@.len() == second.system@.len(),
        first.write == second.write,
        both.mic@ == first.mic@ + second.mic@,
        both.system@ == first.system@ + second.system@,
        both.write == first.write,
    ensures
        written_of(both, controls, mix, out + out2),
{
    let all = out + out2;
    if both.write {
        let n = out.len() as int;
        assert forall|i: int| 0 <= i < all.len() implies call_ensures(
            mix,
            (
                both.mic@[i],
                both.system@[i],
                gain_of(controls.mic_on),
                gain_of(controls.system_on),
            ),
            #[trigger] all[i],
        ) by {
            if i < n {
                assert(all[i] == out[i]);
            } else {
                assert(all[i] == out2[i - n]);
                assert(both.mic@[i] == second.mic@[i - n]);
                assert(both.system@[i] == second.system@[i - n]);
            }
        }
    }
}

/// The recording does not depend on how callbacks cut the input between whole
/// frames: two callbacks, on `a` and then on `b`, do together what one on all of
/// it may do. They write what it writes, and leave the same queues and the same
/// canceller.
pub proof fn law_recording_ignores_the_cut<
    A,
    S,
    T,
    D,
    F: Fn(&[D]) -> S,
    C: Fn(A, Vec<S>) -> (A, Vec<S>),
    M: Fn(S, S, u32, u32) -> T,
>(
    a: Seq<D>,
    b: Seq<D>,
    channels: nat,
    mean: F,
    mono_a: Seq<S>,
    mono_b: Seq<S>,
    queued: Seq<S>,
    system: Seq<S>,
    controls: MixControls,
    cancel: C,
    fill: S,
    mix: M,
    before: A,
    first: MixedAudio<S>,
    first_mic: Seq<S>,
    first_system: Seq<S>,
    between: A,
    out: Seq<T>,
    second: MixedAudio<S>,
    second_mic: Seq<S>,
    second_system: Seq<S>,
    after: A,
    out2: Seq<T>,
    both: MixedAudio<S>,
)
    requires
        channels > 0,
        a.len() % channels == 0,
        means_of(mean, chunks(a, channels), mono_a),
        means_of(mean, chunks(b, channels), mono_b),
        mixes(
            queued + mono_a,
            system,
            controls,
            cancel,
            fill,
            before,
            first,
            first_mic,
            first_system,
            between,
        ),
        mixes(
            first_mic + mono_b,
            first_system,
            controls,
            cancel,
            fill,
            between,
            second,
            second_mic,
            second_system,
            after,
        ),
        written_of(first, controls, mix, out),
        written_of(second, controls, mix, out2),
        both.mic@ == first.mic@ + second.mic@,
        both.system@ == first.system@ + second.system@,
        both.write == first.write,
    ensures
        means_of(mean, chunks(a + b, channels), mono_a + mono_b),
        mixes(
            queued + (mono_a + mono_b),
            system,
            controls,
            cancel,
            fill,
            before,
            both,
            second_mic,
            second_system,
            after,
        ),
        written_of(both, controls, mix, out + out2),
{
    law_downmix_ignores_the_cut(mean, a, b, channels, mono_a, mono_b);
    law_mix_ignores_callback_size(
        queued + mono_a,
        mono_b,
        system,
        controls,
        cancel,
        fill,
        before,
        first,
        first_mic,
        first_system,
        between,
        second,
        second_mic,
        second_system,
        after,
        both,
    );
    assert(queued + (mono_a + mono_b) =~= (queued + mono_a) + mono_b);
    law_written_joins(first, second, both, controls, mix, out, out2);
}

/// What a run takes off the microphone queue is as many whole blocks as wait, and
/// off the system queue as many samples, the oldest; no sample of either is
/// lost. System audio that is there is in the mix, in its place: only where the
/// queue runs short is there anything else, and that is `fill`.
pub proof fn law_no_system_audio_is_lost<A, S, C: Fn(A, Vec<S>) -> (A, Vec<S>)>(
    waiting: Seq<S>,
    system: Seq<S>,
    controls: MixControls,
    cancel: C,
    fill: S,
    before: A,
    r: MixedAudio<S>,
    mic_left: Seq<S>,
    system_left: Seq<S>,
    after: A,
)
    requires
        mixes(waiting, system, controls, cancel, fill, before, r, mic_left, system_left, after),
    ensures
        r.mic@.len() % 480 == 0,
        r.mic@.len() <= waiting.len() < r.mic@.len() + 480,
        mic_left.len() == waiting.len() - r.mic@.len(),
        forall|i: int|
            0 <= i < mic_left.len() ==> #[trigger] mic_left[i] == waiting[r.mic@.len() + i],
        r.system@.len() == r.mic@.len(),
        forall|i: int|
            0 <= i < r.system@.len() && i < system.len() ==> #[trigger] r.system@[i] == system[i],
        forall|i: int| system.len() <= i < r.system@.len() ==> #[trigger] r.system@[i] == fill,
        system.len() >= r.system@.len() ==> r.system@ + system_left == system,
        system.len() < r.system@.len() ==> system_left.len() == 0 && r.system@.take(
            system.len() as int,
        ) == system,
        r.write == !controls.paused,
{
    if system.len() >= r.system@.len() {
        assert(r.system@ + system_left =~= system);
    } else {
        assert(r.system@.take(system.len() as int) =~= system);
    }
}

/// While it is on, the canceller is handed the waiting samples, 480 at a time and
/// in order, and the run takes what it gives back, cut or filled to 480. While it
/// is off, the run takes the waiting samples themselves.
pub proof fn law_canceller_is_handed_what_waits<A, S, C: Fn(A, Vec<S>) -> (A, Vec<S>)>(
    waiting: Seq<S>,
    system: Seq<S>,
    controls: MixControls,
    cancel: C,
    fill: S,
    before: A,
    r: MixedAudio<S>,
    mic_left: Seq<S>,
    system_left: Seq<S>,
    after: A,
) -> (calls: (Seq<A>, Seq<Vec<S>>, Seq<Vec<S>>))
    requires
        mixes(waiting, system, controls, cancel, fill, before, r, mic_left, system_left, after),
    ensures
        calls.1.len() == calls.2.len(),
        calls.0.len() == calls.1.len() + 1,
        calls.0[0] == before,
        calls.0.last() == after,
        controls.echo_cancel && !controls.paused ==> calls.1.len() * 480 == r.mic@.len(),
        !controls.echo_cancel || controls.paused ==> calls.1.len() == 0,
        !controls.echo_cancel || controls.paused ==> forall|i: int|
            0 <= i < r.mic@.len() ==> #[trigger] r.mic@[i] == waiting[i],
        forall|k: int|
            0 <= k < calls.1.len() ==> {
                &&& (#[trigger] calls.1[k])@ == waiting.subrange(480 * k, 480 * k + 480)
                &&& call_ensures(
                    cancel,
                    (calls.0[k], calls.1[k]),
                    (calls.0[k + 1], calls.2[k]),
                )
            },
        forall|k: int|
            0 <= k < calls.2.len() ==> r.mic@.subrange(480 * k, 480 * k + 480) == Seq::new(
                480,
                |i: int|
                    if i < (#[trigger] calls.2[k])@.len() {
                        calls.2[k]@[i]
                    } else {
                        fill
                    },
            ),
{
    let (states, backs) = law_canceller_gets_each_block_once(
        waiting,
        system,
        controls,
        cancel,
        fill,
        before,
        r,
        mic_left,
        system_left,
        after,
    );
    let givens = Seq::new(
        backs.len(),
        |k: int|
            choose|given: Vec<S>|
                given@ == block_of(waiting, k) && #[trigger] call_ensures(
                    cancel,
                    (states[k], given),
                    (states[k + 1], backs[k]),
                ),
    );
    assert forall|k: int| 0 <= k < givens.len() implies {
        &&& (#[trigger] givens[k])@ == waiting.subrange(480 * k, 480 * k + 480)
        &&& call_ensures(cancel, (states[k], givens[k]), (states[k + 1], backs[k]))
    } by {
        assert(hands_over(cancel, states[k], block_of(waiting, k), states[k + 1], backs[k]));
        assert(block_of(waiting, k) =~= waiting.subrange(480 * k, 480 * k + 480));
    }
    assert forall|k: int| 0 <= k < backs.len() implies r.mic@.subrange(480 * k, 480 * k + 480)
        == Seq::new(
        480,
        |i: int|
            if i < (#[trigger] backs[k])@.len() {
                backs[k]@[i]
            } else {
                fill
            },
    ) by {
        assert(block_of(r.mic@, k) == padded(backs[k]@, AEC_FRAME_SIZE as nat, fill));
        assert(r.mic@.subrange(480 * k, 480 * k + 480) =~= Seq::new(
            480,
            |i: int|
                if i < backs[k]@.len() {
                    backs[k]@[i]
                } else {
                    fill
                },
        ));
    }
    (states, givens, backs)
}

/// What is written of a run is one sample for each pair, of the two samples of
/// that pair, an open source at 72 hundredths and a muted one at none; while
/// paused it is nothing.
pub proof fn law_every_pair_is_written<S, T, M: Fn(S, S, u32, u32) -> T>(
    audio: MixedAudio<S>,
    controls: MixControls,
    mix: M,
    out: Seq<T>,
)
    requires
        written_of(audio, controls, mix, out),
    ensures
        audio.write ==> out.len() == audio.mic@.len(),
        !audio.write ==> out.len() == 0,
        forall|i: int|
            0 <= i < out.len() ==> call_ensures(
                mix,
                (
                    audio.mic@[i],
                    audio.system@[i],
                    if controls.mic_on {
                        72u32
                    } else {
                        0u32
                    },
                    if controls.system_on {
                        72u32
                    } else {
                        0u32
                    },
                ),
                #[trigger] out[i],
            ),
{
}

/// What is pulled off a queue is its front: what is left is the rest of it, and
/// nothing where it ran short.
pub proof fn law_what_is_left_is_the_rest<S>(s: Seq<S>, n: nat)
    ensures
        n <= s.len() ==> s.take(n as int) + left_after(s, n) == s,
        n >= s.len() ==> left_after(s, n).len() == 0,
{
    if n <= s.len() {
        assert(s.take(n as int) + left_after(s, n) =~= s);
    }
}

/// An open source is mixed in at 72 hundredths, and a muted one not at all.
pub proof fn law_gain_of_a_source(on: bool)
    ensures
        on ==> gain_of(on) == 72,
        !on ==> gain_of(on) == 0,
{
}

/// A canceller that takes any block of 480 samples will do, however many samples
/// wait; and while it is off, any will.
pub proof fn law_canceller_of_blocks_will_do<A, S, C: Fn(A, Vec<S>) -> (A, Vec<S>)>(
    waiting: Seq<S>,
    controls: MixControls,
    cancel: C,
)
    requires
        !controls.echo_cancel || controls.paused || forall|state: A, block: Vec<S>|
            block@.len() == 480 ==> #[trigger] call_requires(cancel, (state, block)),
    ensures
        may_be_handed(waiting, controls, cancel),
{
}

/// System audio that is queued is in the mix, however much of it there is.
pub proof fn law_queued_system_audio_is_mixed<A, S: Copy, C: Fn(A, Vec<S>) -> (A, Vec<S>)>(
    raw_mic: &[S],
    controls: MixControls,
    canceller: A,
    cancel: C,
    fill: S,
)
    ensures
        forall|mic_queue: &mut VecDeque<S>, system_queue: &mut VecDeque<S>, r: (MixedAudio<S>, A)|
            #[trigger] call_ensures(
                write_mixed_samples::<A, S, C>,
                (mic_queue, raw_mic, system_queue, controls, canceller, cancel, fill),
                r,
            ) ==> {
                let n = r.0.system@.len();
                &&& n == r.0.mic@.len()
                &&& n <= mic_queue@.len() + raw_mic@.len() < n + 480
                &&& n <= system_queue@.len() ==> r.0.system@ + final(system_queue)@ == system_queue@
                &&& n > system_queue@.len() ==> r.0.system@.take(
                    system_queue@.len() as int,
                ) == system_queue@
            },
{
    assert forall|mic_queue: &mut VecDeque<S>, system_queue: &mut VecDeque<S>, r: (
        MixedAudio<S>,
        A,
    )| #[trigger] call_ensures(
        write_mixed_samples::<A, S, C>,
        (mic_queue, raw_mic, system_queue, controls, canceller, cancel, fill),
        r,
    ) implies {
        let n = r.0.system@.len();
        &&& n == r.0.mic@.len()
        &&& n <= mic_queue@.len() + raw_mic@.len() < n + 480
        &&& n <= system_queue@.len() ==> r.0.system@ + final(system_queue)@ == system_queue@
        &&& n > system_queue@.len() ==> r.0.system@.take(system_queue@.len() as int)
            == system_queue@
    } by {
        law_no_system_audio_is_lost(
            mic_queue@ + raw_mic@,
            system_queue@,
            controls,
            cancel,
            fill,
            canceller,
            r.0,
            final(mic_queue)@,
            final(system_queue)@,
            r.1,
        );
    }
}

/// Without a canceller every microphone sample is handed back, with the system
/// sample of its place or `fill` where there is none; what was not taken of the
/// system audio stays. While paused as much is taken, and without a file nothing.
pub proof fn law_every_sample_is_paired<S: Copy>(
    raw_mic: &[S],
    paused: bool,
    writing: bool,
    fill: S,
)
    ensures
        forall|system_queue: &mut VecDeque<S>, r: Vec<(S, S)>| #[trigger]
            call_ensures(pair_samples::<S>, (raw_mic, system_queue, paused, writing, fill), r)
                ==> {
                let n = raw_mic@.len();
                &&& r@.len() == (if paused || !writing {
                    0
                } else {
                    n
                })
                &&& forall|i: int| 0 <= i < r@.len() ==> (#[trigger] r@[i]).0 == raw_mic@[i]
                &&& forall|i: int|
                    0 <= i < r@.len() && i < system_queue@.len() ==> (#[trigger] r@[i]).1
                        == system_queue@[i]
                &&& forall|i: int|
                    system_queue@.len() <= i < r@.len() ==> (#[trigger] r@[i]).1 == fill
                &&& !paused && !writing ==> final(system_queue)@ == system_queue@
                &&& (paused || writing) && n <= system_queue@.len() ==> system_queue@.take(n as int)
                    + final(system_queue)@ == system_queue@
                &&& (paused || writing) && n > system_queue@.len() ==> final(system_queue)@.len()
                    == 0
            },
{
    assert forall|system_queue: &mut VecDeque<S>, r: Vec<(S, S)>|
        (paused || writing) && raw_mic@.len() <= system_queue@.len() && #[trigger] call_ensures(
            pair_samples::<S>,
            (raw_mic, system_queue, paused, writing, fill),
            r,
        ) implies system_queue@.take(raw_mic@.len() as int) + final(system_queue)@
        == system_queue@ by {
        law_what_is_left_is_the_rest(system_queue@, raw_mic@.len());
    }
}

} // verus!
