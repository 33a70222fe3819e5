//! Bringing decoded audio to the one-channel 16 kHz stream that speech
//! recognition takes.
//!
//! Positions in the source are exact: output sample `n` lies `n * rate /
//! 16000` samples in, a whole part and a remainder out of 16000. The
//! arithmetic on the samples themselves is the caller's.
use crate::blocks::{chunks, downmix, means_of};
use vstd::prelude::*;

verus! {

/// Samples per second of the resampled stream.
pub const SPEECH_SAMPLE_RATE: u32 = 16_000;

/// Whether a rate is three times the speech rate, to within a thousandth.
pub open spec fn is_triple(rate: int) -> bool {
    47_984 <= rate <= 48_016
}

/// How many output samples `len` source samples give.
pub open spec fn resampled_len(len: int, rate: int) -> int {
    len * SPEECH_SAMPLE_RATE / rate
}

/// The source sample at or before output sample `n`.
pub open spec fn source_index(n: int, rate: int) -> int {
    n * rate / SPEECH_SAMPLE_RATE as int
}

/// How far output sample `n` lies behind its source sample, in 16000ths.
pub open spec fn source_fraction(n: int, rate: int) -> int {
    n * rate % SPEECH_SAMPLE_RATE as int
}

/// The source sample to interpolate towards; the last one stands for those
/// beyond the end.
pub open spec fn next_index(i: int, len: int) -> int {
    if i + 1 < len {
        i + 1
    } else {
        len - 1
    }
}

/// Whether `out` is `mono` with every three samples brought down to one.
pub open spec fn decimated<S, G: Fn(S, S, S) -> S>(mono: Seq<S>, mean3: G, out: Seq<S>) -> bool {
    &&& out.len() == mono.len() / 3
    &&& forall|k: int|
        0 <= k < out.len() ==> call_ensures(
            mean3,
            (mono[3 * k], mono[3 * k + 1], mono[3 * k + 2]),
            #[trigger] out[k],
        )
}

/// Whether `out` is `mono` interpolated at the positions of the speech rate.
pub open spec fn interpolated<S, H: Fn(S, S, u32) -> S>(
    mono: Seq<S>,
    rate: int,
    lerp: H,
    out: Seq<S>,
) -> bool {
    &&& out.len() == (if mono.len() == 0 {
        0
    } else {
        resampled_len(mono.len() as int, rate)
    })
    &&& forall|n: int|
        0 <= n < out.len() ==> call_ensures(
            lerp,
            (
                mono[source_index(n, rate)],
                mono[next_index(source_index(n, rate), mono.len() as int)],
                source_fraction(n, rate) as u32,
            ),
            #[trigger] out[n],
        )
}

/// Whether `out` is the speech-rate rendering of `mono`: itself at the speech
/// rate, decimated at three times that, interpolated otherwise.
pub open spec fn resampled<S, G: Fn(S, S, S) -> S, H: Fn(S, S, u32) -> S>(
    mono: Seq<S>,
    rate: int,
    mean3: G,
    lerp: H,
    out: Seq<S>,
) -> bool {
    if rate == SPEECH_SAMPLE_RATE {
        out == mono
    } else if is_triple(rate) && mono.len() >= 3 {
        decimated(mono, mean3, out)
    } else {
        interpolated(mono, rate, lerp, out)
    }
}

/// Interleaved samples brought to one channel: one channel, or none declared,
/// passes through.
pub fn to_mono<S, F: Fn(&[S]) -> S>(raw: Vec<S>, channels: u16, mean: F) -> (r: Vec<S>)
    requires
        forall|f: &[S]| f@.len() > 0 ==> #[trigger] call_requires(mean, (f,)),
    ensures
        channels <= 1 ==> r@ == raw@,
        channels > 1 ==> means_of(mean, chunks(raw@, channels as nat), r@),
{
    if channels <= 1 {
        raw
    } else {
        downmix(raw.as_slice(), channels as usize, mean)
    }
}

/// Every output position lies inside the source.
pub proof fn law_source_index_in_range(n: int, len: int, rate: int)
    requires
        0 <= n < resampled_len(len, rate),
        0 < rate,
        0 <= len,
    ensures
        0 <= source_index(n, rate) < len,
        0 <= source_fraction(n, rate) < SPEECH_SAMPLE_RATE,
        source_index(n, rate) <= next_index(source_index(n, rate), len) < len,
{
    let total = len * SPEECH_SAMPLE_RATE;
    assert(n * rate + rate <= total) by (nonlinear_arith)
        requires
            0 <= n < total / rate,
            0 < rate,
            0 <= total,
    ;
    assert(0 <= n * rate) by (nonlinear_arith)
        requires
            0 <= n,
            0 < rate,
    ;
}

/// Output positions move forward through the source.
pub proof fn law_source_positions_advance(n: int, m: int, rate: int)
    requires
        0 <= n <= m,
        0 <= rate,
    ensures
        source_index(n, rate) <= source_index(m, rate),
{
    assert(n * rate <= m * rate) by (nonlinear_arith)
        requires
            0 <= n <= m,
            0 <= rate,
    ;
}

/// A second of audio at any rate gives a second of speech-rate audio.
pub proof fn law_seconds_are_kept(seconds: int, rate: int)
    requires
        0 <= seconds,
        0 < rate,
    ensures
        resampled_len(seconds * rate, rate) == seconds * SPEECH_SAMPLE_RATE,
{
    assert(seconds * rate * SPEECH_SAMPLE_RATE == (seconds * SPEECH_SAMPLE_RATE) * rate)
        by (nonlinear_arith);
    let x = seconds * SPEECH_SAMPLE_RATE;
    assert(x * rate / rate == x) by (nonlinear_arith)
        requires
            0 < rate,
    ;
}

/// Decimation of the recorder's own rate keeps to the same length rule.
pub proof fn law_decimation_length(len: int)
    requires
        0 <= len,
    ensures
        resampled_len(len, 48_000) == len / 3,
{
}

fn decimate<S: Copy, G: Fn(S, S, S) -> S>(mono: &Vec<S>, mean3: G) -> (r: Vec<S>)
    requires
        forall|a: S, b: S, c: S| #[trigger] call_requires(mean3, (a, b, c)),
    ensures
        decimated(mono@, mean3, r@),
{
    let len: usize = mono.len();
    let n: usize = len / 3;
    let mut out: Vec<S> = Vec::with_capacity(n);
    for k in 0..n
        invariant
            len == mono@.len(),
            n == len / 3,
            out@.len() == k,
            forall|a: S, b: S, c: S| #[trigger] call_requires(mean3, (a, b, c)),
            forall|j: int|
                0 <= j < k ==> call_ensures(
                    mean3,
                    (mono@[3 * j], mono@[3 * j + 1], mono@[3 * j + 2]),
                    #[trigger] out@[j],
                ),
    {
        let i: usize = 3 * k;
        let v = mean3(mono[i], mono[i + 1], mono[i + 2]);
        out.push(v);
    }
    out
}

fn interpolate<S: Copy, H: Fn(S, S, u32) -> S>(mono: &Vec<S>, rate: u32, lerp: H) -> (r: Vec<S>)
    requires
        mono@.len() > 0 ==> rate > 0,
        mono@.len() > 0 ==> resampled_len(mono@.len() as int, rate as int) <= usize::MAX,
        forall|a: S, b: S, f: u32| f < SPEECH_SAMPLE_RATE ==> #[trigger] call_requires(lerp, (a, b, f)),
    ensures
        interpolated(mono@, rate as int, lerp, r@),
{
    let mut out: Vec<S> = Vec::new();
    let len: usize = mono.len();
    if len == 0 {
        return out;
    }
    let count: usize = (len as u128 * SPEECH_SAMPLE_RATE as u128 / rate as u128) as usize;
    for n in 0..count
        invariant
            len == mono@.len(),
            len > 0,
            rate > 0,
            count == resampled_len(len as int, rate as int),
            out@.len() == n,
            forall|a: S, b: S, f: u32|
                f < SPEECH_SAMPLE_RATE ==> #[trigger] call_requires(lerp, (a, b, f)),
            forall|j: int|
                0 <= j < n ==> call_ensures(
                    lerp,
                    (
                        mono@[source_index(j, rate as int)],
                        mono@[next_index(source_index(j, rate as int), len as int)],
                        source_fraction(j, rate as int) as u32,
                    ),
                    #[trigger] out@[j],
                ),
    {
        proof {
            law_source_index_in_range(n as int, len as int, rate as int);
            assert(0 <= n * rate <= u128::MAX) by (nonlinear_arith)
                requires
                    0 <= n <= 0xffff_ffff_ffff_ffff,
                    0 <= rate <= 0xffff_ffff,
            ;
        }
        let position: u128 = n as u128 * rate as u128;
        let i0: usize = (position / SPEECH_SAMPLE_RATE as u128) as usize;
        let fraction: u32 = (position % SPEECH_SAMPLE_RATE as u128) as u32;
        let i1: usize = if i0 < len - 1 {
            i0 + 1
        } else {
            len - 1
        };
        let v = lerp(mono[i0], mono[i1], fraction);
        out.push(v);
    }
    out
}

/// The speech-rate rendering of `mono`, which was sampled at `rate`. `mean3`
/// averages three samples; `lerp` moves from one sample towards the next by a
/// fraction given in 16000ths.
pub fn resample_16k<S: Copy, G: Fn(S, S, S) -> S, H: Fn(S, S, u32) -> S>(
    mono: Vec<S>,
    rate: u32,
    mean3: G,
    lerp: H,
) -> (r: Vec<S>)
    requires
        mono@.len() > 0 ==> rate > 0,
        mono@.len() > 0 ==> resampled_len(mono@.len() as int, rate as int) <= usize::MAX,
        forall|a: S, b: S, c: S| #[trigger] call_requires(mean3, (a, b, c)),
        forall|a: S, b: S, f: u32| f < SPEECH_SAMPLE_RATE ==> #[trigger] call_requires(lerp, (a, b, f)),
    ensures
        resampled(mono@, rate as int, mean3, lerp, r@),
{
    if rate == SPEECH_SAMPLE_RATE {
        mono
    } else if 47_984 <= rate && rate <= 48_016 && mono.len() >= 3 {
        decimate(&mono, mean3)
    } else {
        interpolate(&mono, rate, lerp)
    }
}

/// A sequence has at most as many chunks as samples, and none only if empty.
proof fn lemma_chunk_count<S>(s: Seq<S>, n: nat)
    requires
        n > 0,
    ensures
        chunks(s, n).len() <= s.len(),
        s.len() == 0 <==> chunks(s, n).len() == 0,
    decreases s.len(),
{
    if s.len() > n {
        lemma_chunk_count(s.skip(n as int), n);
    }
}

/// Decoded samples, interleaved over `channels` and sampled at `rate`, brought
/// to one channel at the speech rate.
pub fn mono_16k<
    S: Copy,
    F: Fn(&[S]) -> S,
    G: Fn(S, S, S) -> S,
    H: Fn(S, S, u32) -> S,
>(raw: Vec<S>, channels: u16, rate: u32, mean: F, mean3: G, lerp: H) -> (r: Vec<S>)
    requires
        raw@.len() > 0 ==> rate > 0,
        raw@.len() > 0 ==> resampled_len(raw@.len() as int, rate as int) <= usize::MAX,
        forall|f: &[S]| f@.len() > 0 ==> #[trigger] call_requires(mean, (f,)),
        forall|a: S, b: S, c: S| #[trigger] call_requires(mean3, (a, b, c)),
        forall|a: S, b: S, f: u32| f < SPEECH_SAMPLE_RATE ==> #[trigger] call_requires(lerp, (a, b, f)),
    ensures
        channels <= 1 ==> resampled(raw@, rate as int, mean3, lerp, r@),
        channels > 1 ==> exists|mono: Seq<S>|
            means_of(mean, chunks(raw@, channels as nat), mono) && #[trigger] resampled(
                mono,
                rate as int,
                mean3,
                lerp,
                r@,
            ),
{
    let ghost all = raw@;
    let mono = to_mono(raw, channels, mean);
    proof {
        if channels > 1 {
            lemma_chunk_count(all, channels as nat);
        }
        let a = mono@.len() as int;
        let b = all.len() as int;
        if rate > 0 {
            assert(a * SPEECH_SAMPLE_RATE / rate as int <= b * SPEECH_SAMPLE_RATE / rate as int)
                by (nonlinear_arith)
                requires
                    0 <= a <= b,
                    rate > 0,
            ;
        }
    }
    resample_16k(mono, rate, mean3, lerp)
}

/// Decimation takes each three samples once and in order: output `k` comes of the
/// three samples from `3 * k` on, and at most two samples are left over.
pub proof fn law_decimation_takes_every_three<S, G: Fn(S, S, S) -> S>(
    mono: Seq<S>,
    mean3: G,
    out: Seq<S>,
)
    requires
        decimated(mono, mean3, out),
    ensures
        3 * out.len() <= mono.len() <= 3 * out.len() + 2,
        forall|k: int|
            0 <= k < out.len() ==> call_ensures(
                mean3,
                (mono[3 * k], mono[3 * k + 1], mono[3 * k + 2]),
                #[trigger] out[k],
            ),
{
}

/// Decimation goes on where it left off: the outputs of two parts, the first of
/// whole threes, are together outputs of the whole.
pub proof fn law_decimation_goes_on<S, G: Fn(S, S, S) -> S>(
    a: Seq<S>,
    b: Seq<S>,
    mean3: G,
    out_a: Seq<S>,
    out_b: Seq<S>,
)
    requires
        a.len() % 3 == 0,
        decimated(a, mean3, out_a),
        decimated(b, mean3, out_b),
    ensures
        decimated(a + b, mean3, out_a + out_b),
{
    let all = a + b;
    let out = out_a + out_b;
    let n = out_a.len() as int;
    assert forall|k: int| 0 <= k < out.len() implies call_ensures(
        mean3,
        (all[3 * k], all[3 * k + 1], all[3 * k + 2]),
        #[trigger] out[k],
    ) by {
        if k < n {
            assert(out[k] == out_a[k]);
        } else {
            let j = k - n;
            assert(out[k] == out_b[j]);
            assert(all[3 * k] == b[3 * j]);
            assert(all[3 * k + 1] == b[3 * j + 1]);
            assert(all[3 * k + 2] == b[3 * j + 2]);
        }
    }
}

/// Interpolation places output `n` exactly: with `i` whole source samples and a
/// fraction of `f` 16000ths, `16000 * i + f` is `n` times the source rate. It
/// lies between source sample `i` and the next, and the outputs fill the length
/// of the source.
pub proof fn law_interpolation_is_in_place<S, H: Fn(S, S, u32) -> S>(
    mono: Seq<S>,
    rate: int,
    lerp: H,
    out: Seq<S>,
    n: int,
) -> (at: (int, u32))
    requires
        interpolated(mono, rate, lerp, out),
        0 < rate,
        0 <= n < out.len(),
    ensures
        16_000 * at.0 + at.1 == n * rate,
        at.1 < 16_000,
        0 <= at.0 < mono.len(),
        call_ensures(
            lerp,
            (
                mono[at.0],
                if at.0 + 1 < mono.len() {
                    mono[at.0 + 1]
                } else {
                    mono.last()
                },
                at.1,
            ),
            out[n],
        ),
{
    law_source_index_in_range(n, mono.len() as int, rate);
    let i = source_index(n, rate);
    let f = source_fraction(n, rate);
    assert(call_ensures(
        lerp,
        (mono[i], mono[next_index(i, mono.len() as int)], f as u32),
        out[n],
    ));
    (i, f as u32)
}

/// As many outputs come of interpolation as fit into the length of the source.
pub proof fn law_interpolation_fills_the_length<S, H: Fn(S, S, u32) -> S>(
    mono: Seq<S>,
    rate: int,
    lerp: H,
    out: Seq<S>,
)
    requires
        interpolated(mono, rate, lerp, out),
        0 < rate,
    ensures
        out.len() * rate <= mono.len() * 16_000 < (out.len() + 1) * rate,
{
    let total = mono.len() as int * 16_000;
    let q = total / rate;
    assert(q * rate <= total < (q + 1) * rate) by (nonlinear_arith)
        requires
            0 < rate,
            q == total / rate,
    ;
    if mono.len() == 0 {
        assert(out.len() == 0);
    }
}

/// Audio at the speech rate passes through; at 48 kHz, give or take 16, three
/// samples or more are decimated; anything else is interpolated.
pub proof fn law_rate_decides<S, G: Fn(S, S, S) -> S, H: Fn(S, S, u32) -> S>(
    mono: Seq<S>,
    rate: int,
    mean3: G,
    lerp: H,
    out: Seq<S>,
)
    requires
        resampled(mono, rate, mean3, lerp, out),
    ensures
        rate == 16_000 ==> out == mono,
        rate != 16_000 && -16 <= rate - 48_000 <= 16 && mono.len() >= 3 ==> decimated(
            mono,
            mean3,
            out,
        ),
        rate != 16_000 && (rate < 47_984 || rate > 48_016 || mono.len() < 3) ==> interpolated(
            mono,
            rate,
            lerp,
            out,
        ),
{
}

/// Whether a row of samples is a signal of which each sample stands three times.
pub open spec fn triples<S>(tripled: Seq<S>, signal: Seq<S>) -> bool {
    &&& tripled.len() == 3 * signal.len()
    &&& forall|k: int|
        0 <= k < signal.len() ==> tripled[3 * k] == #[trigger] signal[k] && tripled[3 * k + 1]
            == signal[k] && tripled[3 * k + 2] == signal[k]
}

/// Decimation undoes tripling: where three equal samples average to themselves, a
/// signal of which each sample stands three times comes back as it was, however
/// long it is.
pub proof fn law_decimation_undoes_tripling<S, G: Fn(S, S, S) -> S>(
    signal: Seq<S>,
    tripled: Seq<S>,
    mean3: G,
    out: Seq<S>,
)
    requires
        triples(tripled, signal),
        decimated(tripled, mean3, out),
        forall|s: S, t: S| #[trigger] call_ensures(mean3, (s, s, s), t) ==> t == s,
    ensures
        out == signal,
{
    assert(out.len() == signal.len());
    assert forall|k: int| 0 <= k < out.len() implies out[k] == signal[k] by {
        let s = signal[k];
        assert(call_ensures(mean3, (s, s, s), out[k]));
    }
    assert(out =~= signal);
}

/// The length after resampling is that of the source in 16000ths of its rate,
/// rounded down.
pub proof fn law_length_is_kept_in_time(len: int, rate: int)
    requires
        0 <= len,
        0 < rate,
    ensures
        resampled_len(len, rate) * rate <= len * 16_000 < (resampled_len(len, rate) + 1) * rate,
{
    let total = len * 16_000;
    let q = total / rate;
    assert(q * rate <= total < (q + 1) * rate) by (nonlinear_arith)
        requires
            0 < rate,
            q == total / rate,
    ;
}

/// A signal of which each sample stands three times, at 48 kHz, is the signal itself
/// at the speech rate, however long it is.
pub proof fn law_tripled_signal_comes_back<S: Copy, G: Fn(S, S, S) -> S, H: Fn(S, S, u32) -> S>(
    signal: Seq<S>,
    mono: Vec<S>,
    mean3: G,
    lerp: H,
    out: Vec<S>,
)
    requires
        signal.len() > 0,
        triples(mono@, signal),
        forall|s: S, t: S| #[trigger] call_ensures(mean3, (s, s, s), t) ==> t == s,
        call_ensures(resample_16k::<S, G, H>, (mono, 48_000, mean3, lerp), out),
    ensures
        out@ == signal,
{
    law_decimation_undoes_tripling(signal, mono@, mean3, out@);
}

} // verus!
