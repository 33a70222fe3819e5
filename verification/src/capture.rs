//! What becomes of captured system audio: it is mixed down to one channel, and
//! while the echo canceller is on, handed to it in whole blocks as the sound
//! that leaves the speakers.
use crate::blocks::{
    capture_frames, downmix_capture, law_newest_is_the_end, law_system_buffer_keeps_the_newest,
    max_buffered, mean_gives, means_of, newest, queue_samples, store_system_samples, take_block,
    CapturedBuffer, AEC_FRAME_SIZE, SYSTEM_BUFFER_SECONDS,
};
use crate::mixer::{block_of, whole_blocks};
use crate::text::concat_text;
use std::collections::VecDeque;
use vstd::prelude::*;

verus! {

/// What is asked of the system: a picture as small as can be, and sound.
#[derive(Clone, Copy)]
pub struct CaptureConfig {
    pub width: u32,
    pub height: u32,
    pub captures_audio: bool,
    pub channels: u32,
}

/// What is asked of the system.
pub fn capture_config() -> (r: CaptureConfig)
    ensures
        r == (CaptureConfig { width: 2, height: 2, captures_audio: true, channels: 2 }),
{
    CaptureConfig { width: 2, height: 2, captures_audio: true, channels: 2 }
}

/// Whether there is something to capture, given how many displays there are, or
/// why that could not be told.
pub fn capture_source(displays: Result<usize, String>) -> (r: Result<(), String>)
    ensures
        match displays {
            Err(e) => r matches Err(m) && m@ == "ScreenCaptureKit content unavailable: "@ + e@,
            Ok(n) => if n == 0 {
                r matches Err(m) && m@ == "No displays available for ScreenCaptureKit"@
            } else {
                r is Ok
            },
        },
{
    match displays {
        Err(e) => Err(concat_text("ScreenCaptureKit content unavailable: ", e.as_str())),
        Ok(n) => if n == 0 {
            Err("No displays available for ScreenCaptureKit".to_owned())
        } else {
            Ok(())
        },
    }
}

/// What the start of a capture is answered.
pub fn capture_started(start: Result<(), String>) -> (r: Result<(), String>)
    ensures
        match start {
            Err(e) => r matches Err(m) && m@ == "Could not start ScreenCaptureKit stream: "@ + e@,
            Ok(_) => r is Ok,
        },
{
    match start {
        Err(e) => Err(concat_text("Could not start ScreenCaptureKit stream: ", e.as_str())),
        Ok(_) => Ok(()),
    }
}

/// What the end of a capture is answered.
pub fn capture_stopped(stop: Result<(), String>) -> (r: Result<(), String>)
    ensures
        match stop {
            Err(e) => r matches Err(m) && m@ == "Could not stop ScreenCaptureKit stream: "@ + e@,
            Ok(_) => r is Ok,
        },
{
    match stop {
        Err(e) => Err(concat_text("Could not stop ScreenCaptureKit stream: ", e.as_str())),
        Ok(_) => Ok(()),
    }
}

/// One capture: its samples on one channel, and the blocks for the canceller.
pub struct CapturedAudio<S> {
    pub mono: Vec<S>,
    pub render: Vec<Vec<S>>,
}

/// Whether `blocks` are all whole blocks of `waiting`, in order, and `left` is
/// what is left over.
pub open spec fn cut_into<S>(waiting: Seq<S>, blocks: Seq<Vec<S>>, left: Seq<S>) -> bool {
    let n = whole_blocks(waiting.len());
    &&& blocks.len() == n
    &&& forall|k: int| 0 <= k < n ==> (#[trigger] blocks[k])@ == block_of(waiting, k)
    &&& left == waiting.skip((n * AEC_FRAME_SIZE) as int)
}

/// Takes every whole block off the front of the queue.
pub fn take_blocks<S>(queue: &mut VecDeque<S>) -> (r: Vec<Vec<S>>)
    ensures
        cut_into(old(queue)@, r@, final(queue)@),
{
    let ghost waiting = queue@;
    let mut blocks: Vec<Vec<S>> = Vec::new();
    assert(waiting.skip(0) =~= waiting);
    while queue.len() >= AEC_FRAME_SIZE
        invariant
            blocks@.len() * AEC_FRAME_SIZE <= waiting.len(),
            queue@ == waiting.skip(blocks@.len() * AEC_FRAME_SIZE),
            forall|k: int|
                0 <= k < blocks@.len() ==> (#[trigger] blocks@[k])@ == block_of(waiting, k),
        decreases queue@.len(),
    {
        match take_block(queue) {
            Some(block) => {
                let ghost n = blocks@.len();
                assert(block@ =~= block_of(waiting, n as int));
                blocks.push(block);
                assert(queue@ =~= waiting.skip((n + 1) * AEC_FRAME_SIZE));
            },
            None => {},
        }
    }
    blocks
}

/// Takes in one capture; nothing comes of one without a whole frame. While the
/// canceller is on, the samples join those that wait for it, and the whole
/// blocks are handed out.
pub fn take_capture<S: Copy, T: Copy, F: Fn(&[S]) -> T>(
    buffers: &Vec<CapturedBuffer<S>>,
    mean: F,
    echo_cancel: bool,
    render_queue: &mut VecDeque<T>,
) -> (r: Option<CapturedAudio<T>>)
    requires
        forall|f: &[S]| f@.len() > 0 ==> #[trigger] call_requires(mean, (f,)),
    ensures
        r is None <==> capture_frames(buffers@).len() == 0,
        r is None ==> final(render_queue)@ == old(render_queue)@,
        r matches Some(c) ==> {
            &&& means_of(mean, capture_frames(buffers@), c.mono@)
            &&& echo_cancel ==> cut_into(
                old(render_queue)@ + c.mono@,
                c.render@,
                final(render_queue)@,
            )
            &&& !echo_cancel ==> c.render@.len() == 0 && final(render_queue)@ == old(render_queue)@
        },
{
    let mono = downmix_capture(buffers, mean);
    if mono.len() == 0 {
        return None;
    }
    let render = if echo_cancel {
        queue_samples(render_queue, mono.as_slice());
        take_blocks(render_queue)
    } else {
        Vec::new()
    };
    Some(CapturedAudio { mono, render })
}

/// A capture of system audio: the samples that wait for the canceller, and how
/// many samples are buffered at most.
pub struct SystemAudioCapture<T> {
    pub waiting: VecDeque<T>,
    pub cap: usize,
}

/// Whether `r` is what comes of taking in the given frames: `waiting` and
/// `system` are what waits for the canceller and what is buffered before, the
/// other two after. A capture without a frame changes nothing.
pub open spec fn takes_in<S, T, F: Fn(&[S]) -> T>(
    frames: Seq<Seq<S>>,
    mean: F,
    echo_cancel: bool,
    cap: nat,
    waiting: Seq<T>,
    system: Seq<T>,
    r: Option<CapturedAudio<T>>,
    waiting_after: Seq<T>,
    system_after: Seq<T>,
) -> bool {
    match r {
        None => {
            &&& frames.len() == 0
            &&& waiting_after == waiting
            &&& system_after == system
        },
        Some(c) => {
            &&& frames.len() > 0
            &&& means_of(mean, frames, c.mono@)
            &&& echo_cancel ==> cut_into(waiting + c.mono@, c.render@, waiting_after)
            &&& !echo_cancel ==> c.render@.len() == 0 && waiting_after == waiting
            &&& system_after == newest(system + c.mono@, cap)
        },
    }
}

impl<T: Copy> SystemAudioCapture<T> {
    /// A capture at the given sample rate that has heard nothing yet.
    pub fn start(sample_rate: u32) -> (r: SystemAudioCapture<T>)
        requires
            sample_rate * SYSTEM_BUFFER_SECONDS <= usize::MAX,
        ensures
            r.waiting@ == Seq::<T>::empty(),
            r.cap == sample_rate * SYSTEM_BUFFER_SECONDS,
    {
        SystemAudioCapture { waiting: VecDeque::new(), cap: max_buffered(sample_rate) }
    }

    /// Takes in captured buffers: they are mixed down, joined to what waits for
    /// the canceller while that is on, and buffered, the newest samples only.
    pub fn take_in<S: Copy, F: Fn(&[S]) -> T>(
        &mut self,
        buffers: &Vec<CapturedBuffer<S>>,
        mean: F,
        echo_cancel: bool,
        system: &mut VecDeque<T>,
    ) -> (r: Option<CapturedAudio<T>>)
        requires
            forall|f: &[S]| f@.len() > 0 ==> #[trigger] call_requires(mean, (f,)),
        ensures
            takes_in(
                capture_frames(buffers@),
                mean,
                echo_cancel,
                old(self).cap as nat,
                old(self).waiting@,
                old(system)@,
                r,
                final(self).waiting@,
                final(system)@,
            ),
            final(self).cap == old(self).cap,
    {
        match take_capture(buffers, mean, echo_cancel, &mut self.waiting) {
            None => None,
            Some(captured) => {
                store_system_samples(system, captured.mono.as_slice(), self.cap);
                Some(captured)
            },
        }
    }
}

/// No sample is lost on the way to the canceller: the blocks that are handed out
/// and what waits on are the samples that waited, and less than a block waits
/// on.
pub proof fn law_render_blocks_keep_every_sample<S>(
    waiting: Seq<S>,
    blocks: Seq<Vec<S>>,
    left: Seq<S>,
    i: int,
)
    requires
        cut_into(waiting, blocks, left),
        0 <= i < waiting.len(),
    ensures
        blocks.len() * AEC_FRAME_SIZE + left.len() == waiting.len(),
        left.len() < AEC_FRAME_SIZE,
        i < blocks.len() * AEC_FRAME_SIZE ==> blocks[i / AEC_FRAME_SIZE as int]@[i
            % AEC_FRAME_SIZE as int] == waiting[i],
        i >= blocks.len() * AEC_FRAME_SIZE ==> left[i - blocks.len() * AEC_FRAME_SIZE] == waiting[i],
{
    if i < blocks.len() * AEC_FRAME_SIZE {
        let k = i / AEC_FRAME_SIZE as int;
        assert(blocks[k]@ == block_of(waiting, k));
    }
}

/// Two captures in a row hand out what one capture of all their samples would.
proof fn lemma_cut_twice<S>(
    waiting: Seq<S>,
    blocks: Seq<Vec<S>>,
    between: Seq<S>,
    more: Seq<S>,
    blocks2: Seq<Vec<S>>,
    left: Seq<S>,
)
    requires
        cut_into(waiting, blocks, between),
        cut_into(between + more, blocks2, left),
    ensures
        cut_into(waiting + more, blocks + blocks2, left),
{
    let all = waiting + more;
    let n = whole_blocks(waiting.len());
    let m = whole_blocks((between + more).len());
    assert(n + m == whole_blocks(all.len()));
    assert(between + more =~= all.skip((n * AEC_FRAME_SIZE) as int));
    let both = blocks + blocks2;
    assert forall|k: int| 0 <= k < n + m implies (#[trigger] both[k])@ == block_of(all, k) by {
        if k < n {
            assert(both[k] == blocks[k]);
            assert(block_of(all, k) =~= block_of(waiting, k));
        } else {
            assert(both[k] == blocks2[k - n]);
            assert(block_of(all, k) =~= block_of(between + more, k - n));
        }
    }
    assert(left =~= all.skip(((n + m) * AEC_FRAME_SIZE) as int));
}

/// Over a row of captures the canceller gets the whole blocks of all their
/// samples, in order: `monos` are the samples of each capture, `renders` the
/// blocks that each hands out, and `queues` what waits before the first, and
/// after each.
pub proof fn law_render_blocks_over_captures<S>(
    monos: Seq<Seq<S>>,
    renders: Seq<Seq<Vec<S>>>,
    queues: Seq<Seq<S>>,
)
    requires
        renders.len() == monos.len(),
        queues.len() == monos.len() + 1,
        queues[0].len() < AEC_FRAME_SIZE,
        forall|k: int|
            0 <= k < monos.len() ==> cut_into(
                queues[k] + #[trigger] monos[k],
                renders[k],
                queues[k + 1],
            ),
    ensures
        cut_into(queues[0] + monos.flatten(), renders.flatten(), queues.last()),
        renders.flatten().len() == (queues[0].len() + monos.flatten().len())
            / AEC_FRAME_SIZE as nat,
    decreases monos.len(),
{
    if monos.len() == 0 {
        assert(queues[0] + monos.flatten() =~= queues[0]);
        assert(renders.flatten() =~= Seq::<Vec<S>>::empty());
        assert(queues[0].skip(0) =~= queues[0]);
    } else {
        let n = monos.len() - 1;
        let first_monos = monos.drop_last();
        let first_renders = renders.drop_last();
        let first_queues = queues.drop_last();
        assert forall|k: int| 0 <= k < first_monos.len() implies cut_into(
            first_queues[k] + #[trigger] first_monos[k],
            first_renders[k],
            first_queues[k + 1],
        ) by {
            assert(first_monos[k] == monos[k]);
        }
        law_render_blocks_over_captures(first_monos, first_renders, first_queues);
        let waiting = queues[0] + first_monos.flatten();
        assert(cut_into(queues[n] + monos[n], renders[n], queues[n + 1]));
        lemma_cut_twice(
            waiting,
            first_renders.flatten(),
            queues[n],
            monos[n],
            renders[n],
            queues[n + 1],
        );
        lemma_flatten_last(monos);
        lemma_flatten_last(renders);
        assert(waiting + monos[n] =~= queues[0] + monos.flatten());
    }
}

/// The last of some sequences comes last when they are laid end to end.
proof fn lemma_flatten_last<S>(parts: Seq<Seq<S>>)
    requires
        parts.len() > 0,
    ensures
        parts.flatten() == parts.drop_last().flatten() + parts.last(),
    decreases parts.len(),
{
    if parts.len() == 1 {
        assert(parts.drop_first().flatten() =~= Seq::<S>::empty());
        assert(parts.drop_last().flatten() =~= Seq::<S>::empty());
        assert(parts.flatten() =~= parts.first() + parts.drop_first().flatten());
        assert(parts.flatten() =~= parts.drop_last().flatten() + parts.last());
    } else {
        lemma_flatten_last(parts.drop_first());
        assert(parts.drop_first().drop_last() =~= parts.drop_last().drop_first());
        assert(parts.flatten() =~= parts.first() + parts.drop_first().flatten());
        assert(parts.drop_last().flatten() =~= parts.first()
            + parts.drop_last().drop_first().flatten());
        assert(parts.flatten() =~= parts.drop_last().flatten() + parts.last());
    }
}

/// What is buffered of system audio after a row of captures at a given sample
/// rate.
pub open spec fn buffered<S>(queue: Seq<S>, monos: Seq<Seq<S>>, sample_rate: u32) -> Seq<S>
    decreases monos.len(),
{
    if monos.len() == 0 {
        queue
    } else {
        newest(
            buffered(queue, monos.drop_last(), sample_rate) + monos.last(),
            (sample_rate * SYSTEM_BUFFER_SECONDS) as nat,
        )
    }
}

/// Over a row of captures the newest three seconds of all their samples are
/// kept, and never more: what is dropped is the oldest.
pub proof fn law_newest_seconds_are_buffered<S>(
    queue: Seq<S>,
    monos: Seq<Seq<S>>,
    sample_rate: u32,
)
    requires
        queue.len() <= 3 * sample_rate,
    ensures
        buffered(queue, monos, sample_rate) == newest(
            queue + monos.flatten(),
            (3 * sample_rate) as nat,
        ),
        buffered(queue, monos, sample_rate).len() <= 3 * sample_rate,
    decreases monos.len(),
{
    let cap = (3 * sample_rate) as nat;
    if monos.len() == 0 {
        assert(queue + monos.flatten() =~= queue);
    } else {
        let before = monos.drop_last();
        law_newest_seconds_are_buffered(queue, before, sample_rate);
        law_system_buffer_keeps_the_newest(queue + before.flatten(), monos.last(), cap);
        lemma_flatten_last(monos);
        assert(queue + before.flatten() + monos.last() =~= queue + monos.flatten());
    }
}

/// Over a row of captures from a start on, with the canceller on: it is handed as
/// many blocks as the samples of all captures fill, each of the block size, and
/// they are these samples in order; and the newest three seconds of all samples
/// are buffered. `captures` are what came of each, and the other two what waits
/// and what is buffered before the first and after each.
pub proof fn law_captures_from_a_start<S, T, F: Fn(&[S]) -> T>(
    sample_rate: u32,
    frames: Seq<Seq<Seq<S>>>,
    mean: F,
    captures: Seq<CapturedAudio<T>>,
    waiting: Seq<Seq<T>>,
    system: Seq<Seq<T>>,
)
    requires
        frames.len() == captures.len(),
        waiting.len() == captures.len() + 1,
        system.len() == captures.len() + 1,
        waiting[0].len() == 0,
        system[0].len() == 0,
        forall|k: int|
            0 <= k < captures.len() ==> takes_in(
                frames[k],
                mean,
                true,
                (sample_rate * SYSTEM_BUFFER_SECONDS) as nat,
                waiting[k],
                system[k],
                Some(#[trigger] captures[k]),
                waiting[k + 1],
                system[k + 1],
            ),
    ensures
        ({
            let all = captures.map_values(|c: CapturedAudio<T>| c.mono@).flatten();
            let blocks = captures.map_values(|c: CapturedAudio<T>| c.render@).flatten();
            &&& blocks.len() == all.len() / AEC_FRAME_SIZE as nat
            &&& forall|k: int|
                0 <= k < blocks.len() ==> (#[trigger] blocks[k])@ == block_of(all, k)
                    && blocks[k]@.len() == AEC_FRAME_SIZE
            &&& system.last() == newest(all, (3 * sample_rate) as nat)
        }),
{
    let monos = captures.map_values(|c: CapturedAudio<T>| c.mono@);
    let renders = captures.map_values(|c: CapturedAudio<T>| c.render@);
    assert forall|k: int| 0 <= k < monos.len() implies cut_into(
        waiting[k] + #[trigger] monos[k],
        renders[k],
        waiting[k + 1],
    ) by {
        assert(monos[k] == captures[k].mono@);
    }
    law_render_blocks_over_captures(monos, renders, waiting);
    assert(waiting[0] + monos.flatten() =~= monos.flatten());
    lemma_buffered_in_turn(sample_rate, monos, system);
    law_newest_seconds_are_buffered(system[0], monos, sample_rate);
    assert(system[0] + monos.flatten() =~= monos.flatten());
}

/// What is buffered capture by capture is what is buffered over the row.
proof fn lemma_buffered_in_turn<T>(sample_rate: u32, monos: Seq<Seq<T>>, system: Seq<Seq<T>>)
    requires
        system.len() == monos.len() + 1,
        forall|k: int|
            0 <= k < monos.len() ==> system[k + 1] == newest(
                system[k] + #[trigger] monos[k],
                (sample_rate * SYSTEM_BUFFER_SECONDS) as nat,
            ),
    ensures
        system.last() == buffered(system[0], monos, sample_rate),
    decreases monos.len(),
{
    if monos.len() > 0 {
        let n = monos.len() - 1;
        let before = monos.drop_last();
        assert forall|k: int| 0 <= k < before.len() implies system.drop_last()[k + 1] == newest(
            system.drop_last()[k] + #[trigger] before[k],
            (sample_rate * SYSTEM_BUFFER_SECONDS) as nat,
        ) by {
            assert(before[k] == monos[k]);
        }
        lemma_buffered_in_turn(sample_rate, before, system.drop_last());
        assert(system[n + 1] == newest(
            system[n] + monos[n],
            (sample_rate * SYSTEM_BUFFER_SECONDS) as nat,
        ));
    }
}

/// What comes of one capture: a sample for each frame; while the canceller is on,
/// what waited and these samples, 480 at a time, and less than that waits on;
/// and in the buffer the newest samples, as many as it holds.
pub proof fn law_capture_hands_everything_on<S, T, F: Fn(&[S]) -> T>(
    frames: Seq<Seq<S>>,
    mean: F,
    echo_cancel: bool,
    cap: nat,
    waiting: Seq<T>,
    system: Seq<T>,
    c: CapturedAudio<T>,
    waiting_after: Seq<T>,
    system_after: Seq<T>,
    i: int,
)
    requires
        takes_in(
            frames,
            mean,
            echo_cancel,
            cap,
            waiting,
            system,
            Some(c),
            waiting_after,
            system_after,
        ),
        0 <= i < frames.len(),
    ensures
        c.mono@.len() == frames.len(),
        exists|f: &[S]| f@ == frames[i] && #[trigger] call_ensures(mean, (f,), c.mono@[i]),
        echo_cancel ==> {
            let all = waiting + c.mono@;
            &&& 480 * c.render@.len() + waiting_after.len() == all.len()
            &&& waiting_after.len() < 480
            &&& forall|k: int|
                0 <= k < c.render@.len() ==> (#[trigger] c.render@[k])@ == all.subrange(
                    480 * k,
                    480 * k + 480,
                )
            &&& waiting_after == all.skip(480 * c.render@.len() as int)
        },
        !echo_cancel ==> c.render@.len() == 0 && waiting_after == waiting,
        ({
            let all = system + c.mono@;
            &&& system_after.len() == (if all.len() < cap {
                all.len()
            } else {
                cap
            })
            &&& system_after == all.skip(all.len() - system_after.len())
        }),
{
    assert(mean_gives(mean, frames[i], c.mono@[i]));
    let all = system + c.mono@;
    law_newest_is_the_end(all, cap);
    assert(system_after =~= all.skip(all.len() - system_after.len()));
    if echo_cancel {
        let heard = waiting + c.mono@;
        assert forall|k: int| 0 <= k < c.render@.len() implies (#[trigger] c.render@[k])@
            == heard.subrange(480 * k, 480 * k + 480) by {
            assert(c.render@[k]@ == block_of(heard, k));
        }
    }
}

/// A capture without a frame changes nothing, and one with a frame is taken in.
pub proof fn law_empty_capture_changes_nothing<S, T, F: Fn(&[S]) -> T>(
    frames: Seq<Seq<S>>,
    mean: F,
    echo_cancel: bool,
    cap: nat,
    waiting: Seq<T>,
    system: Seq<T>,
    r: Option<CapturedAudio<T>>,
    waiting_after: Seq<T>,
    system_after: Seq<T>,
)
    requires
        takes_in(
            frames,
            mean,
            echo_cancel,
            cap,
            waiting,
            system,
            r,
            waiting_after,
            system_after,
        ),
    ensures
        r is None <==> frames.len() == 0,
        r is None ==> waiting_after == waiting && system_after == system,
{
}

} // verus!
