//! Sample queues and fixed-size blocks.
//!
//! Everything here moves samples without looking at them, so it is generic in
//! the sample type: the recorder instantiates it with 32-bit floats.
use std::collections::VecDeque;
use vstd::prelude::*;
use vstd::slice::slice_subrange;

verus! {

/// Samples per second of every stream the recorder opens.
pub const TARGET_SAMPLE_RATE: u32 = 48_000;

/// Samples in one echo-canceller block: ten milliseconds at the target rate.
pub const AEC_FRAME_SIZE: usize = 480;

/// Seconds of system audio that are buffered at most.
pub const SYSTEM_BUFFER_SECONDS: usize = 3;

/// `s` brought to exactly `n` samples: cut, or filled up with `fill`.
pub open spec fn padded<S>(s: Seq<S>, n: nat, fill: S) -> Seq<S> {
    Seq::new(
        n,
        |i: int|
            if i < s.len() {
                s[i]
            } else {
                fill
            },
    )
}

/// The last `n` samples of `s`, or all of them where there are fewer.
pub open spec fn newest<S>(s: Seq<S>, n: nat) -> Seq<S> {
    if s.len() <= n {
        s
    } else {
        s.skip(s.len() - n)
    }
}

/// Appends `samples` at the back of the queue.
pub fn queue_samples<S: Copy>(queue: &mut VecDeque<S>, samples: &[S])
    ensures
        final(queue)@ == old(queue)@ + samples@,
{
    let ghost start = queue@;
    let n: usize = samples.len();
    for i in 0..n
        invariant
            n == samples@.len(),
            queue@ == start + samples@.take(i as int),
    {
        queue.push_back(samples[i]);
        assert(samples@.take(i + 1) =~= samples@.take(i as int).push(samples@[i as int]));
        assert(queue@ =~= start + samples@.take(i + 1));
    }
    assert(samples@.take(n as int) =~= samples@);
}

/// Takes one block off the front of the queue, where a whole one is there.
pub fn take_block<S>(queue: &mut VecDeque<S>) -> (r: Option<Vec<S>>)
    ensures
        match r {
            Some(block) => {
                &&& old(queue)@.len() >= AEC_FRAME_SIZE
                &&& block@ == old(queue)@.take(AEC_FRAME_SIZE as int)
                &&& final(queue)@ == old(queue)@.skip(AEC_FRAME_SIZE as int)
            },
            None => {
                &&& old(queue)@.len() < AEC_FRAME_SIZE
                &&& final(queue)@ == old(queue)@
            },
        },
{
    if queue.len() < AEC_FRAME_SIZE {
        return None;
    }
    let ghost start = queue@;
    let mut block: Vec<S> = Vec::with_capacity(AEC_FRAME_SIZE);
    for i in 0..AEC_FRAME_SIZE
        invariant
            start.len() >= AEC_FRAME_SIZE,
            block@ == start.take(i as int),
            queue@ == start.skip(i as int),
    {
        match queue.pop_front() {
            Some(s) => {
                block.push(s);
            },
            None => {},
        }
        assert(block@ =~= start.take(i + 1));
        assert(queue@ =~= start.skip(i + 1));
    }
    Some(block)
}

/// Pulls one block off the front of the queue; what the queue lacks is `fill`.
pub fn pull_block<S: Copy>(queue: &mut VecDeque<S>, fill: S) -> (r: Vec<S>)
    ensures
        r@ == padded(old(queue)@, AEC_FRAME_SIZE as nat, fill),
        final(queue)@ == (if old(queue)@.len() <= AEC_FRAME_SIZE {
            Seq::empty()
        } else {
            old(queue)@.skip(AEC_FRAME_SIZE as int)
        }),
{
    let ghost start = queue@;
    let mut block: Vec<S> = Vec::with_capacity(AEC_FRAME_SIZE);
    for i in 0..AEC_FRAME_SIZE
        invariant
            block@ == padded(start, i as nat, fill),
            queue@ == (if start.len() <= i {
                Seq::empty()
            } else {
                start.skip(i as int)
            }),
    {
        match queue.pop_front() {
            Some(s) => {
                block.push(s);
            },
            None => {
                block.push(fill);
            },
        }
        assert(block@ =~= padded(start, (i + 1) as nat, fill));
        assert(queue@ =~= (if start.len() <= i + 1 {
            Seq::empty()
        } else {
            start.skip(i + 1)
        }));
    }
    block
}

/// Brings a block to the block size: cut, or filled up with `fill`.
pub fn settle_block<S: Copy>(block: Vec<S>, fill: S) -> (r: Vec<S>)
    ensures
        r@ == padded(block@, AEC_FRAME_SIZE as nat, fill),
{
    let mut out: Vec<S> = Vec::with_capacity(AEC_FRAME_SIZE);
    for i in 0..AEC_FRAME_SIZE
        invariant
            out@ == padded(block@, i as nat, fill),
    {
        if i < block.len() {
            out.push(block[i]);
        } else {
            out.push(fill);
        }
        assert(out@ =~= padded(block@, (i + 1) as nat, fill));
    }
    assert(out@ =~= padded(block@, AEC_FRAME_SIZE as nat, fill));
    out
}

/// How many samples of system audio are kept at a given sample rate.
pub fn max_buffered(sample_rate: u32) -> (r: usize)
    requires
        sample_rate * SYSTEM_BUFFER_SECONDS <= usize::MAX,
    ensures
        r == sample_rate * SYSTEM_BUFFER_SECONDS,
{
    sample_rate as usize * SYSTEM_BUFFER_SECONDS
}

/// Appends captured system audio and drops the oldest samples beyond `cap`.
pub fn store_system_samples<S: Copy>(queue: &mut VecDeque<S>, samples: &[S], cap: usize)
    ensures
        final(queue)@ == newest(old(queue)@ + samples@, cap as nat),
{
    let ghost all = queue@ + samples@;
    queue_samples(queue, samples);
    while queue.len() > cap
        invariant
            queue@.len() <= all.len(),
            queue@ == all.skip(all.len() - queue@.len()),
            all.len() <= cap ==> queue@.len() == all.len(),
            all.len() > cap ==> queue@.len() >= cap,
        decreases queue@.len(),
    {
        let ghost before = queue@;
        let _ = queue.pop_front();
        assert(queue@ =~= all.skip(all.len() - queue@.len()));
    }
    assert(all.skip(0) =~= all);
}

/// `s` cut from the front into pieces of `n`; the last may be shorter.
pub open spec fn chunks<S>(s: Seq<S>, n: nat) -> Seq<Seq<S>>
    decreases s.len(),
{
    if s.len() == 0 || n == 0 {
        Seq::empty()
    } else if s.len() <= n {
        seq![s]
    } else {
        seq![s.take(n as int)] + chunks(s.skip(n as int), n)
    }
}

/// Whether `out` is what `mean` may return of the given frame.
pub open spec fn mean_gives<S, T, F: Fn(&[S]) -> T>(mean: F, frame: Seq<S>, out: T) -> bool {
    exists|f: &[S]| f@ == frame && #[trigger] call_ensures(mean, (f,), out)
}

/// One output for each frame, in order.
pub open spec fn means_of<S, T, F: Fn(&[S]) -> T>(mean: F, frames: Seq<Seq<S>>, out: Seq<T>) -> bool {
    &&& out.len() == frames.len()
    &&& forall|k: int| 0 <= k < out.len() ==> mean_gives(mean, frames[k], #[trigger] out[k])
}

/// Interleaved samples mixed down, one output per frame of `max(channels, 1)`.
pub fn downmix<S, T, F: Fn(&[S]) -> T>(data: &[S], channels: usize, mean: F) -> (r: Vec<T>)
    requires
        forall|f: &[S]| f@.len() > 0 ==> #[trigger] call_requires(mean, (f,)),
    ensures
        means_of(mean, chunks(data@, if channels == 0 { 1 } else { channels as nat }), r@),
{
    let width: usize = if channels == 0 {
        1
    } else {
        channels
    };
    let n: usize = data.len();
    let mut out: Vec<T> = Vec::new();
    let mut i: usize = 0;
    let ghost all = chunks(data@, width as nat);
    let ghost mut done: Seq<Seq<S>> = Seq::empty();
    assert(data@.skip(0) =~= data@);
    assert(all =~= done + chunks(data@.skip(0), width as nat));
    while i < n
        invariant
            n == data@.len(),
            width > 0,
            i <= n,
            all == done + chunks(data@.skip(i as int), width as nat),
            means_of(mean, done, out@),
            forall|f: &[S]| f@.len() > 0 ==> #[trigger] call_requires(mean, (f,)),
        decreases n - i,
    {
        let end: usize = if n - i <= width {
            n
        } else {
            i + width
        };
        let frame = slice_subrange(data, i, end);
        let m = mean(frame);
        let ghost rest = data@.skip(i as int);
        proof {
            assert(rest.len() == n - i);
            if rest.len() <= width {
                assert(frame@ =~= rest);
                assert(data@.skip(end as int) =~= Seq::<S>::empty());
                assert(chunks(data@.skip(end as int), width as nat) =~= Seq::<Seq<S>>::empty());
                assert(chunks(rest, width as nat) =~= seq![frame@]);
            } else {
                assert(frame@ =~= rest.take(width as int));
                assert(rest.skip(width as int) =~= data@.skip(end as int));
            }
            assert(all =~= done.push(frame@) + chunks(data@.skip(end as int), width as nat));
            assert(mean_gives(mean, frame@, m));
            done = done.push(frame@);
        }
        out.push(m);
        i = end;
    }
    assert(data@.skip(n as int) =~= Seq::<S>::empty());
    assert(all =~= done);
    out
}

/// Captured samples of one buffer, with the channels interleaved in it.
pub struct CapturedBuffer<S> {
    pub channels: u32,
    pub samples: Vec<S>,
}

/// The length of the shortest buffer.
pub open spec fn shortest<S>(buffers: Seq<CapturedBuffer<S>>) -> nat
    decreases buffers.len(),
{
    if buffers.len() == 0 {
        0
    } else if buffers.len() == 1 {
        buffers[0].samples@.len()
    } else {
        let before = shortest(buffers.drop_last());
        let last = buffers.last().samples@.len();
        if last < before {
            last
        } else {
            before
        }
    }
}

/// The `i`th sample of every buffer.
pub open spec fn planar_frame<S>(buffers: Seq<CapturedBuffer<S>>, i: int) -> Seq<S> {
    Seq::new(buffers.len(), |b: int| buffers[b].samples@[i])
}

/// The frames of a capture: one buffer holds interleaved channels, several
/// hold one channel each and are read in step up to the shortest.
pub open spec fn capture_frames<S>(buffers: Seq<CapturedBuffer<S>>) -> Seq<Seq<S>> {
    if buffers.len() == 1 {
        let width = if buffers[0].channels == 0 {
            1
        } else {
            buffers[0].channels as nat
        };
        chunks(buffers[0].samples@, width)
    } else {
        Seq::new(shortest(buffers), |i: int| planar_frame(buffers, i))
    }
}

/// The shortest buffer bounds every index into a planar frame.
proof fn lemma_shortest<S>(buffers: Seq<CapturedBuffer<S>>, b: int)
    requires
        0 <= b < buffers.len(),
    ensures
        shortest(buffers) <= buffers[b].samples@.len(),
    decreases buffers.len(),
{
    if buffers.len() > 1 && b < buffers.len() - 1 {
        lemma_shortest(buffers.drop_last(), b);
    }
}

fn shortest_len<S>(buffers: &Vec<CapturedBuffer<S>>) -> (r: usize)
    ensures
        r == shortest(buffers@),
{
    if buffers.len() == 0 {
        return 0;
    }
    let mut best: usize = buffers[0].samples.len();
    assert(buffers@.take(1).len() == 1);
    for i in 1..buffers.len()
        invariant
            1 <= i <= buffers@.len(),
            best == shortest(buffers@.take(i as int)),
    {
        let n: usize = buffers[i].samples.len();
        assert(buffers@.take(i + 1).drop_last() =~= buffers@.take(i as int));
        if n < best {
            best = n;
        }
    }
    assert(buffers@.take(buffers@.len() as int) =~= buffers@);
    best
}

fn frame_at<S: Copy>(buffers: &Vec<CapturedBuffer<S>>, i: usize) -> (r: Vec<S>)
    requires
        i < shortest(buffers@),
    ensures
        r@ == planar_frame(buffers@, i as int),
{
    let mut frame: Vec<S> = Vec::with_capacity(buffers.len());
    for b in 0..buffers.len()
        invariant
            i < shortest(buffers@),
            frame@ == planar_frame(buffers@, i as int).take(b as int),
    {
        proof {
            lemma_shortest(buffers@, b as int);
        }
        frame.push(buffers[b].samples[i]);
        assert(frame@ =~= planar_frame(buffers@, i as int).take(b + 1));
    }
    assert(frame@ =~= planar_frame(buffers@, i as int));
    frame
}

/// A capture mixed down to one channel, one output per frame.
pub fn downmix_capture<S: Copy, T, F: Fn(&[S]) -> T>(buffers: &Vec<CapturedBuffer<S>>, mean: F) -> (r:
    Vec<T>)
    requires
        forall|f: &[S]| f@.len() > 0 ==> #[trigger] call_requires(mean, (f,)),
    ensures
        means_of(mean, capture_frames(buffers@), r@),
{
    if buffers.len() == 1 {
        return downmix(buffers[0].samples.as_slice(), buffers[0].channels as usize, mean);
    }
    let n: usize = shortest_len(buffers);
    let ghost frames = capture_frames(buffers@);
    let mut out: Vec<T> = Vec::with_capacity(n);
    for i in 0..n
        invariant
            n == shortest(buffers@),
            buffers@.len() != 1,
            frames == capture_frames(buffers@),
            means_of(mean, frames.take(i as int), out@),
            forall|f: &[S]| f@.len() > 0 ==> #[trigger] call_requires(mean, (f,)),
    {
        let frame = frame_at(buffers, i);
        let view = frame.as_slice();
        let m = mean(view);
        assert(frames[i as int] == view@);
        assert(mean_gives(mean, view@, m));
        assert(frames.take(i + 1) =~= frames.take(i as int).push(frames[i as int]));
        out.push(m);
    }
    assert(frames.take(n as int) =~= frames);
    out
}

/// Cutting a sequence into chunks loses nothing: laid end to end they are the
/// sequence again, and each but the last is full.
pub proof fn law_chunks_cover<S>(s: Seq<S>, n: nat)
    requires
        n > 0,
    ensures
        chunks(s, n).flatten() == s,
        forall|k: int|
            0 <= k < chunks(s, n).len() ==> 0 < (#[trigger] chunks(s, n)[k]).len() <= n,
        forall|k: int|
            0 <= k < chunks(s, n).len() - 1 ==> (#[trigger] chunks(s, n)[k]).len() == n,
    decreases s.len(),
{
    if s.len() == 0 {
        assert(chunks(s, n).flatten() =~= s);
    } else if s.len() <= n {
        assert(seq![s].drop_first().flatten() =~= Seq::<S>::empty());
        assert(chunks(s, n).flatten() =~= s);
    } else {
        let rest = chunks(s.skip(n as int), n);
        law_chunks_cover(s.skip(n as int), n);
        assert(chunks(s, n).drop_first() =~= rest);
        assert(chunks(s, n).flatten() =~= s.take(n as int) + rest.flatten());
        assert(s =~= s.take(n as int) + s.skip(n as int));
        assert forall|k: int| 0 <= k < chunks(s, n).len() implies 0 < (#[trigger] chunks(
            s,
            n,
        )[k]).len() <= n by {
            if k > 0 {
                assert(chunks(s, n)[k] == rest[k - 1]);
            }
        }
        assert forall|k: int| 0 <= k < chunks(s, n).len() - 1 implies (#[trigger] chunks(
            s,
            n,
        )[k]).len() == n by {
            if k > 0 {
                assert(chunks(s, n)[k] == rest[k - 1]);
            }
        }
    }
}

/// The little-endian 32-bit word at the `k`th place of a row of bytes.
pub open spec fn word_at(bytes: Seq<u8>, k: int) -> int {
    bytes[4 * k] + 0x100 * bytes[4 * k + 1] + 0x1_0000 * bytes[4 * k + 2] + 0x100_0000 * bytes[4 * k
        + 3]
}

/// The bits of the 32-bit floats that a captured buffer holds, as many as are
/// whole. A buffer that is not aligned for them is not read.
pub fn bytes_to_f32_bits(bytes: &[u8], aligned: bool) -> (r: Vec<u32>)
    ensures
        !aligned ==> r@.len() == 0,
        aligned ==> r@.len() == bytes@.len() / 4 && forall|k: int|
            0 <= k < r@.len() ==> #[trigger] r@[k] == word_at(bytes@, k),
{
    let mut out: Vec<u32> = Vec::new();
    if !aligned {
        return out;
    }
    let len: usize = bytes.len();
    let n: usize = len / 4;
    for k in 0..n
        invariant
            len == bytes@.len(),
            n == len / 4,
            out@.len() == k,
            forall|j: int| 0 <= j < k ==> #[trigger] out@[j] == word_at(bytes@, j),
    {
        let i: usize = 4 * k;
        let word: u32 = bytes[i] as u32 + 0x100 * bytes[i + 1] as u32 + 0x1_0000 * bytes[i
            + 2] as u32 + 0x100_0000 * bytes[i + 3] as u32;
        out.push(word);
    }
    out
}

/// The system buffer never outgrows its cap, and what it drops is the oldest:
/// the newest samples are there, in order.
pub proof fn law_system_buffer_keeps_the_newest<S>(queue: Seq<S>, samples: Seq<S>, cap: nat)
    ensures
        newest(queue + samples, cap).len() <= cap,
        samples.len() <= cap ==> newest(newest(queue + samples, cap), samples.len()) == samples,
        newest(newest(queue, cap) + samples, cap) == newest(queue + samples, cap),
{
    let all = queue + samples;
    if samples.len() <= cap {
        assert(newest(newest(all, cap), samples.len()) =~= samples);
    }
    assert(newest(newest(queue, cap) + samples, cap) =~= newest(all, cap));
}

/// Cutting goes on where whole chunks end: what follows them is cut as if it
/// stood alone.
pub proof fn law_chunks_join<S>(a: Seq<S>, b: Seq<S>, n: nat)
    requires
        n > 0,
        a.len() % n == 0,
    ensures
        chunks(a + b, n) == chunks(a, n) + chunks(b, n),
    decreases a.len(),
{
    if a.len() == 0 {
        assert(a + b =~= b);
        assert(chunks(a, n) + chunks(b, n) =~= chunks(b, n));
    } else {
        assert(a.len() >= n) by (nonlinear_arith)
            requires
                a.len() % n == 0,
                a.len() > 0,
                n > 0,
        ;
        let rest = a.skip(n as int);
        assert(rest.len() % n == 0) by (nonlinear_arith)
            requires
                rest.len() == a.len() - n,
                a.len() % n == 0,
                n > 0,
        ;
        law_chunks_join(rest, b, n);
        assert((a + b).take(n as int) =~= a.take(n as int));
        assert((a + b).skip(n as int) =~= rest + b);
        if a.len() == n {
            assert(rest =~= Seq::<S>::empty());
            assert(a.take(n as int) =~= a);
            assert(rest + b =~= b);
            if b.len() == 0 {
                assert(a + b =~= a);
            }
        }
        assert(chunks(a + b, n) =~= chunks(a, n) + chunks(b, n));
    }
}

/// How the driver cuts its input between whole frames does not matter: the
/// outputs of two parts, one after the other, are outputs of the whole.
pub proof fn law_downmix_ignores_the_cut<S, T, F: Fn(&[S]) -> T>(
    mean: F,
    a: Seq<S>,
    b: Seq<S>,
    n: nat,
    out_a: Seq<T>,
    out_b: Seq<T>,
)
    requires
        n > 0,
        a.len() % n == 0,
        means_of(mean, chunks(a, n), out_a),
        means_of(mean, chunks(b, n), out_b),
    ensures
        means_of(mean, chunks(a + b, n), out_a + out_b),
{
    law_chunks_join(a, b, n);
    let frames = chunks(a + b, n);
    let out = out_a + out_b;
    assert forall|k: int| 0 <= k < out.len() implies mean_gives(
        mean,
        frames[k],
        #[trigger] out[k],
    ) by {
        if k < out_a.len() {
            assert(out[k] == out_a[k]);
        } else {
            assert(out[k] == out_b[k - out_a.len()]);
        }
    }
}

/// A sequence brought to a length keeps its samples in their places, and only what
/// it lacks is filled.
pub proof fn law_padding_keeps_the_samples<S>(s: Seq<S>, n: nat, fill: S)
    ensures
        padded(s, n, fill).len() == n,
        forall|i: int| 0 <= i < n && i < s.len() ==> #[trigger] padded(s, n, fill)[i] == s[i],
        forall|i: int| s.len() <= i < n ==> #[trigger] padded(s, n, fill)[i] == fill,
{
}

/// The newest samples are the end of the sequence: as many as are asked for, or
/// all of them.
pub proof fn law_newest_is_the_end<S>(s: Seq<S>, n: nat)
    ensures
        newest(s, n).len() == (if s.len() < n {
            s.len()
        } else {
            n
        }),
        forall|i: int|
            0 <= i < newest(s, n).len() ==> #[trigger] newest(s, n)[i] == s[s.len() - newest(
                s,
                n,
            ).len() + i],
{
}

/// A chunk is a stretch of the sequence: the `k`th starts after `k` full ones, and
/// there are as many as it takes.
pub proof fn law_chunks_are_stretches<S>(s: Seq<S>, n: nat)
    requires
        n > 0,
    ensures
        (chunks(s, n).len() - 1) * n < s.len() <= chunks(s, n).len() * n || (s.len() == 0 && chunks(
            s,
            n,
        ).len() == 0),
        forall|k: int|
            0 <= k < chunks(s, n).len() ==> #[trigger] chunks(s, n)[k] == s.subrange(
                k * n,
                if (k + 1) * n <= s.len() {
                    (k + 1) * n
                } else {
                    s.len() as int
                },
            ),
    decreases s.len(),
{
    if s.len() > n {
        let rest = s.skip(n as int);
        law_chunks_are_stretches(rest, n);
        let c = chunks(rest, n);
        let all = chunks(s, n);
        assert(all.len() == c.len() + 1);
        assert((c.len() - 1) * n + n == c.len() * n) by (nonlinear_arith);
        assert((c.len() + 1) * n == c.len() * n + n) by (nonlinear_arith);
        assert forall|k: int| 0 <= k < all.len() implies #[trigger] all[k] == s.subrange(
            k * n,
            if (k + 1) * n <= s.len() {
                (k + 1) * n
            } else {
                s.len() as int
            },
        ) by {
            if k > 0 {
                assert(all[k] == c[k - 1]);
                assert((k - 1) * n + n == k * n) by (nonlinear_arith);
                assert(k * n + n == (k + 1) * n) by (nonlinear_arith);
                assert(k * n >= n) by (nonlinear_arith)
                    requires
                        k >= 1,
                        n >= 0,
                ;
                assert(k * n <= c.len() * n) by (nonlinear_arith)
                    requires
                        k <= c.len(),
                        n >= 0,
                ;
                let end = if k * n <= rest.len() {
                    k * n
                } else {
                    rest.len() as int
                };
                assert((k - 1) * n <= end) by {
                    assert((k - 1) * n <= (c.len() - 1) * n) by (nonlinear_arith)
                        requires
                            k <= c.len(),
                            n >= 0,
                    ;
                }
                assert(rest.subrange((k - 1) * n, end) =~= s.subrange(k * n, end + n));
            } else {
                assert(all[0] =~= s.take(n as int));
                assert(0 * n == 0 && 1 * n == n) by (nonlinear_arith);
                assert(s.subrange(0, n as int) =~= s.take(n as int));
            }
        }
    } else if s.len() > 0 {
        assert(0 * n == 0 && 1 * n == n) by (nonlinear_arith);
        assert(chunks(s, n)[0] =~= s.subrange(0, s.len() as int));
    }
}

/// What is mixed down is each frame of the data, once and in order: output `k`
/// comes of the samples from `k * n` on.
pub proof fn law_downmix_takes_every_frame<S, T, F: Fn(&[S]) -> T>(
    mean: F,
    data: Seq<S>,
    n: nat,
    out: Seq<T>,
    k: int,
)
    requires
        n > 0,
        means_of(mean, chunks(data, n), out),
        0 <= k < out.len(),
    ensures
        (out.len() - 1) * n < data.len() <= out.len() * n,
        exists|f: &[S]|
            {
                &&& #[trigger] call_ensures(mean, (f,), out[k])
                &&& f@ == data.subrange(
                    k * n,
                    if (k + 1) * n <= data.len() {
                        (k + 1) * n
                    } else {
                        data.len() as int
                    },
                )
            },
{
    law_chunks_are_stretches(data, n);
    assert(mean_gives(mean, chunks(data, n)[k], out[k]));
}

/// Without data nothing comes out, and of data something does.
pub proof fn law_downmix_of_nothing<S, T, F: Fn(&[S]) -> T>(
    mean: F,
    data: Seq<S>,
    n: nat,
    out: Seq<T>,
)
    requires
        n > 0,
        means_of(mean, chunks(data, n), out),
    ensures
        out.len() == 0 <==> data.len() == 0,
{
    law_chunks_are_stretches(data, n);
}

/// The shortest buffer is one of the buffers, and none is shorter.
pub proof fn law_shortest_is_least<S>(buffers: Seq<CapturedBuffer<S>>)
    requires
        buffers.len() > 0,
    ensures
        forall|b: int|
            0 <= b < buffers.len() ==> shortest(buffers) <= (#[trigger] buffers[b]).samples@.len(),
        exists|b: int|
            0 <= b < buffers.len() && shortest(buffers) == (#[trigger] buffers[b]).samples@.len(),
    decreases buffers.len(),
{
    assert forall|b: int| 0 <= b < buffers.len() implies shortest(buffers) <= (
    #[trigger] buffers[b]).samples@.len() by {
        lemma_shortest(buffers, b);
    }
    if buffers.len() == 1 {
        assert(shortest(buffers) == buffers[0].samples@.len());
    } else {
        let before = buffers.drop_last();
        law_shortest_is_least(before);
        let b = choose|b: int|
            0 <= b < before.len() && shortest(before) == (#[trigger] before[b]).samples@.len();
        assert(before[b] == buffers[b]);
        let last = buffers.len() - 1;
        if shortest(buffers) != buffers[b].samples@.len() {
            assert(shortest(buffers) == buffers[last].samples@.len());
        }
    }
}

/// A capture in one buffer is cut into frames of its channels; one in several
/// buffers has a frame for each sample that all of them have, which holds that
/// sample of each.
pub proof fn law_capture_frames<S>(buffers: Seq<CapturedBuffer<S>>)
    ensures
        buffers.len() == 0 ==> capture_frames(buffers).len() == 0,
        buffers.len() == 1 ==> capture_frames(buffers).flatten() == buffers[0].samples@,
        buffers.len() == 1 ==> forall|k: int|
            0 <= k < capture_frames(buffers).len() - 1 ==> (#[trigger] capture_frames(
                buffers,
            )[k]).len() == (if buffers[0].channels == 0 {
                1
            } else {
                buffers[0].channels as nat
            }),
        buffers.len() == 1 && capture_frames(buffers).len() > 0 ==> 0 < capture_frames(
            buffers,
        ).last().len() <= (if buffers[0].channels == 0 {
            1
        } else {
            buffers[0].channels as nat
        }),
        buffers.len() > 1 ==> forall|b: int|
            0 <= b < buffers.len() ==> capture_frames(buffers).len() <= (
            #[trigger] buffers[b]).samples@.len(),
        buffers.len() > 1 ==> exists|b: int|
            0 <= b < buffers.len() && capture_frames(buffers).len() == (
            #[trigger] buffers[b]).samples@.len(),
        buffers.len() > 1 ==> forall|k: int, b: int|
            0 <= k < capture_frames(buffers).len() && 0 <= b < buffers.len() ==> {
                &&& capture_frames(buffers)[k].len() == buffers.len()
                &&& #[trigger] capture_frames(buffers)[k][b] == buffers[b].samples@[k]
            },
{
    if buffers.len() == 1 {
        let n = if buffers[0].channels == 0 {
            1
        } else {
            buffers[0].channels as nat
        };
        law_chunks_cover(buffers[0].samples@, n);
    } else if buffers.len() > 1 {
        law_shortest_is_least(buffers);
    }
}

/// A word holds its four bytes, the least first.
pub proof fn law_words_hold_their_bytes(bytes: Seq<u8>, k: int)
    requires
        0 <= k,
        4 * k + 3 < bytes.len(),
    ensures
        0 <= word_at(bytes, k) < 0x1_0000_0000,
        word_at(bytes, k) % 0x100 == bytes[4 * k],
        word_at(bytes, k) / 0x100 % 0x100 == bytes[4 * k + 1],
        word_at(bytes, k) / 0x1_0000 % 0x100 == bytes[4 * k + 2],
        word_at(bytes, k) / 0x100_0000 == bytes[4 * k + 3],
{
}

/// Of an aligned buffer every whole word is read, each once and in order: at most
/// three bytes are left over.
pub proof fn law_every_whole_word_is_read(bytes: &[u8], words: Vec<u32>)
    requires
        call_ensures(bytes_to_f32_bits, (bytes, true), words),
    ensures
        4 * words@.len() <= bytes@.len() <= 4 * words@.len() + 3,
        forall|k: int|
            0 <= k < words@.len() ==> {
                &&& (#[trigger] words@[k]) % 0x100 == bytes@[4 * k]
                &&& words@[k] / 0x100 % 0x100 == bytes@[4 * k + 1]
                &&& words@[k] / 0x1_0000 % 0x100 == bytes@[4 * k + 2]
                &&& words@[k] / 0x100_0000 == bytes@[4 * k + 3]
            },
{
    assert forall|k: int| 0 <= k < words@.len() implies {
        &&& (#[trigger] words@[k]) % 0x100 == bytes@[4 * k]
        &&& words@[k] / 0x100 % 0x100 == bytes@[4 * k + 1]
        &&& words@[k] / 0x1_0000 % 0x100 == bytes@[4 * k + 2]
        &&& words@[k] / 0x100_0000 == bytes@[4 * k + 3]
    } by {
        law_words_hold_their_bytes(bytes@, k);
    }
}

/// The buffer of system audio takes in everything and drops the oldest samples,
/// only as many as it must.
pub proof fn law_buffer_drops_only_the_oldest<S: Copy>(samples: &[S], cap: usize)
    ensures
        forall|queue: &mut VecDeque<S>, r: ()| #[trigger]
            call_ensures(store_system_samples::<S>, (queue, samples, cap), r) ==> {
                let all = queue@ + samples@;
                &&& all.len() <= cap ==> final(queue)@ == all
                &&& all.len() > cap ==> final(queue)@.len() == cap && all.skip(all.len() - cap)
                    == final(queue)@
            },
{
}

} // verus!
