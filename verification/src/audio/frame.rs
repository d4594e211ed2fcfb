//! Fixed-length mono frames: silence, truncation and padding, elementwise
//! arithmetic, and the layout of interleaved buffers.
//!
//! The sample type `S` and its arithmetic are the caller's: every operation
//! on sample values is a function handed in, and the contracts below speak
//! of it through what that function promises of its own results.

use vstd::prelude::*;

verus! {

/// The frame of `frame_size` samples that are all `silence`.
pub open spec fn silent_frame<S>(frame_size: nat, silence: S) -> Seq<S> {
    Seq::new(frame_size, |i: int| silence)
}

/// The first `frame_size` of `samples`, followed by `silence` where
/// `samples` is too short.
pub open spec fn fitted<S>(samples: Seq<S>, frame_size: nat, silence: S) -> Seq<S> {
    Seq::new(
        frame_size,
        |i: int|
            if i < samples.len() {
                samples[i]
            } else {
                silence
            },
    )
}

/// The samples of one channel of the interleaved buffer `data`: those at
/// `channel`, `channel + channels`, `channel + 2 * channels`, and so on. A
/// negative channel, or one past the end of `data`, holds nothing.
pub open spec fn channel_samples<S>(data: Seq<S>, channel: int, channels: int) -> Seq<S>
    recommends
        channels > 0,
{
    if 0 <= channel < data.len() {
        Seq::new(
            ((data.len() - channel + channels - 1) / channels) as nat,
            |i: int| data[channel + i * channels],
        )
    } else {
        Seq::empty()
    }
}

/// `totals` are the running totals of mixing `terms` into `start`, one
/// after the other: it begins with `start`, and each further total is what
/// `mix` can give for the total before it and the next term.
pub open spec fn is_running_mix<S, M: Fn(S, S) -> S>(
    mix: M,
    start: S,
    terms: Seq<S>,
    totals: Seq<S>,
) -> bool {
    &&& totals.len() == terms.len() + 1
    &&& totals[0] == start
    &&& forall|k: int|
        0 <= k < terms.len() ==> call_ensures(mix, (totals[k], #[trigger] terms[k]), totals[k + 1])
}

/// `total` is a value that mixing `terms` into `start`, from left to right,
/// can give.
pub open spec fn mixes_to<S, M: Fn(S, S) -> S>(mix: M, start: S, terms: Seq<S>, total: S) -> bool {
    exists|totals: Seq<S>|
        #![trigger is_running_mix(mix, start, terms, totals)]
        is_running_mix(mix, start, terms, totals) && totals.last() == total
}

/// The samples at position `i` of each of `frames`, in the order of the frames.
pub open spec fn column<S>(frames: Seq<Vec<S>>, i: int) -> Seq<S> {
    Seq::new(frames.len(), |k: int| frames[k]@[i])
}

/// `out` is what limiting `mixed`, scaling the result by `volume` and
/// limiting again can give.
pub open spec fn levels_to<S, L: Fn(S) -> S, K: Fn(S, S) -> S>(
    limit: L,
    scale: K,
    mixed: S,
    volume: S,
    out: S,
) -> bool {
    exists|limited: S, scaled: S|
        call_ensures(limit, (mixed,), limited) && call_ensures(scale, (limited, volume), scaled)
            && call_ensures(limit, (scaled,), out)
}

/// A frame of `frame_size` samples of silence.
pub fn make_silent_frame<S: Copy>(frame_size: usize, silence: S) -> (frame: Vec<S>)
    ensures
        frame@ == silent_frame(frame_size as nat, silence),
{
    let mut frame: Vec<S> = Vec::with_capacity(frame_size);
    let mut i: usize = 0;
    while i < frame_size
        invariant
            i <= frame_size,
            frame.len() == i,
            forall|k: int| 0 <= k < i ==> frame[k] == silence,
        decreases frame_size - i,
    {
        frame.push(silence);
        i += 1;
    }
    assert(frame@ =~= silent_frame(frame_size as nat, silence));
    frame
}

/// Coerces `samples` to exactly `frame_size` samples: a longer buffer is
/// truncated, a shorter one padded with `silence`.
pub fn fit_to_frame<S: Copy>(samples: &Vec<S>, frame_size: usize, silence: S) -> (frame: Vec<S>)
    ensures
        frame@ == fitted(samples@, frame_size as nat, silence),
{
    let mut frame: Vec<S> = Vec::with_capacity(frame_size);
    let mut i: usize = 0;
    while i < frame_size
        invariant
            i <= frame_size,
            frame.len() == i,
            forall|k: int|
                0 <= k < i ==> frame[k] == (if k < samples.len() {
                    samples[k]
                } else {
                    silence
                }),
        decreases frame_size - i,
    {
        if i < samples.len() {
            frame.push(samples[i]);
        } else {
            frame.push(silence);
        }
        i += 1;
    }
    assert(frame@ =~= fitted(samples@, frame_size as nat, silence));
    frame
}

/// Splits one channel off an interleaved buffer: the samples at `channel`,
/// `channel + channels`, and so on to the end of `data`.
pub fn deinterleave<S: Copy>(data: &[S], channel: i32, channels: usize) -> (mono: Vec<S>)
    requires
        channels > 0,
    ensures
        mono@ == channel_samples(data@, channel as int, channels as int),
{
    let mut mono: Vec<S> = Vec::new();
    if channel < 0 {
        return mono;
    }
    let start: usize = channel as usize;
    if start >= data.len() {
        return mono;
    }
    let mut at: usize = start;
    let ghost count = (data.len() - start + channels - 1) / (channels as int);
    proof {
        assert(count * channels >= data.len() - start && (count - 1) * channels < data.len()
            - start && count >= 1) by (nonlinear_arith)
            requires
                count == (data.len() - start + channels - 1) / (channels as int),
                channels > 0,
                data.len() - start > 0,
        ;
        assert(0 * channels == 0) by (nonlinear_arith);
    }
    loop
        invariant_except_break
            at == start + mono.len() * channels,
            at < data.len(),
            mono.len() < count,
        invariant
            channels > 0,
            start < data.len(),
            count * channels >= data.len() - start,
            (count - 1) * channels < data.len() - start,
            forall|k: int| 0 <= k < mono.len() ==> mono[k] == data[start + k * channels],
        ensures
            mono.len() == count,
        decreases data.len() - at,
    {
        mono.push(data[at]);
        proof {
            assert((mono.len() - 1) * channels + channels == mono.len() * channels)
                by (nonlinear_arith);
        }
        if data.len() - at <= channels {
            proof {
                assert(mono.len() >= count) by (nonlinear_arith)
                    requires
                        (count - 1) * channels < data.len() - start,
                        data.len() - start <= mono.len() * channels,
                        channels > 0,
                ;
                assert(mono.len() <= count) by (nonlinear_arith)
                    requires
                        count * channels >= data.len() - start,
                        (mono.len() - 1) * channels < data.len() - start,
                        channels > 0,
                ;
            }
            break;
        }
        at = at + channels;
        proof {
            assert(mono.len() < count) by (nonlinear_arith)
                requires
                    count * channels >= data.len() - start,
                    mono.len() * channels < data.len() - start,
                    channels > 0,
            ;
        }
    }
    assert(mono@ =~= channel_samples(data@, channel as int, channels as int));
    mono
}

/// `out` is what scaling `sample` by `gain` and limiting the result can
/// give.
pub open spec fn gains_to<S, L: Fn(S) -> S, K: Fn(S, S) -> S>(
    limit: L,
    scale: K,
    sample: S,
    gain: S,
    out: S,
) -> bool {
    exists|scaled: S|
        #![trigger call_ensures(scale, (sample, gain), scaled)]
        call_ensures(scale, (sample, gain), scaled) && call_ensures(limit, (scaled,), out)
}

/// `gained` is `buffer` with every sample scaled by `gain` and limited.
pub open spec fn is_gained<S, L: Fn(S) -> S, K: Fn(S, S) -> S>(
    gained: Seq<S>,
    buffer: Seq<S>,
    gain: S,
    limit: L,
    scale: K,
) -> bool {
    &&& gained.len() == buffer.len()
    &&& forall|i: int|
        0 <= i < buffer.len() ==> gains_to(limit, scale, buffer[i], gain, #[trigger] gained[i])
}

/// Applies a microphone's gain: every sample of `buffer` is scaled by `gain`
/// and then limited.
pub fn gain_frame<S: Copy, L: Fn(S) -> S, K: Fn(S, S) -> S>(
    buffer: &Vec<S>,
    gain: S,
    limit: &L,
    scale: &K,
) -> (gained: Vec<S>)
    requires
        forall|s: S| call_requires(*limit, (s,)),
        forall|s: S, f: S| call_requires(*scale, (s, f)),
    ensures
        is_gained(gained@, buffer@, gain, *limit, *scale),
{
    let mut gained: Vec<S> = Vec::with_capacity(buffer.len());
    let mut i: usize = 0;
    while i < buffer.len()
        invariant
            forall|s: S| call_requires(*limit, (s,)),
            forall|s: S, f: S| call_requires(*scale, (s, f)),
            i <= buffer.len(),
            gained.len() == i,
            forall|k: int|
                0 <= k < i ==> gains_to(*limit, *scale, buffer[k], gain, #[trigger] gained[k]),
        decreases buffer.len() - i,
    {
        let scaled = scale(buffer[i], gain);
        let out = limit(scaled);
        assert(call_ensures(*scale, (buffer[i as int], gain), scaled));
        gained.push(out);
        i += 1;
    }
    gained
}

/// `out` is what mixing `terms` into `silence`, limiting the total, scaling
/// it by `volume` and limiting again can give.
pub open spec fn is_levelled_sample<S, M: Fn(S, S) -> S, L: Fn(S) -> S, K: Fn(S, S) -> S>(
    out: S,
    terms: Seq<S>,
    volume: S,
    silence: S,
    mix: M,
    limit: L,
    scale: K,
) -> bool {
    exists|mixed: S|
        #![trigger mixes_to(mix, silence, terms, mixed)]
        mixes_to(mix, silence, terms, mixed) && levels_to(limit, scale, mixed, volume, out)
}

/// Every sample of `mono` is the levelled mix of the samples that `frames`
/// hold at its position.
pub open spec fn is_levelled_mix<S, M: Fn(S, S) -> S, L: Fn(S) -> S, K: Fn(S, S) -> S>(
    mono: Seq<S>,
    frames: Seq<Vec<S>>,
    volume: S,
    silence: S,
    mix: M,
    limit: L,
    scale: K,
) -> bool {
    forall|i: int|
        0 <= i < mono.len() ==> is_levelled_sample(
            #[trigger] mono[i],
            column(frames, i),
            volume,
            silence,
            mix,
            limit,
            scale,
        )
}

/// The interleaved buffer `before` after every slot of frame `i` has been
/// set to `mono[i]`; slots of frames that `mono` does not reach keep what
/// they held.
pub open spec fn spread_of<S>(mono: Seq<S>, before: Seq<S>, channels: int) -> Seq<S>
    recommends
        channels > 0,
{
    Seq::new(
        before.len(),
        |j: int|
            if j / channels < mono.len() {
                mono[j / channels]
            } else {
                before[j]
            },
    )
}

/// Mixes `frame` into `mixed`, sample by sample, as far as both reach.
pub fn mix_into<S: Copy, M: Fn(S, S) -> S>(mixed: &mut Vec<S>, frame: &Vec<S>, mix: &M)
    requires
        forall|a: S, b: S| call_requires(*mix, (a, b)),
    ensures
        final(mixed).len() == old(mixed).len(),
        forall|i: int|
            0 <= i < old(mixed).len() && i < frame.len() ==> call_ensures(
                *mix,
                (old(mixed)[i], frame[i]),
                #[trigger] final(mixed)[i],
            ),
        forall|i: int|
            frame.len() <= i < old(mixed).len() ==> (#[trigger] final(mixed)[i]) == old(mixed)[i],
{
    let mut i: usize = 0;
    while i < mixed.len() && i < frame.len()
        invariant
            forall|a: S, b: S| call_requires(*mix, (a, b)),
            mixed.len() == old(mixed).len(),
            i <= mixed.len(),
            i <= frame.len(),
            forall|k: int|
                0 <= k < i ==> call_ensures(*mix, (old(mixed)[k], frame[k]), #[trigger] mixed[k]),
            forall|k: int| i <= k < mixed.len() ==> (#[trigger] mixed[k]) == old(mixed)[k],
        decreases mixed.len() - i,
    {
        let sum = mix(mixed[i], frame[i]);
        mixed.set(i, sum);
        i += 1;
    }
}

/// Mixes whole frames: sample `i` of the result is `silence` with sample
/// `i` of each frame mixed in, in the order of the frames.
pub fn mix_frames<S: Copy, M: Fn(S, S) -> S>(
    frames: &Vec<Vec<S>>,
    frame_size: usize,
    silence: S,
    mix: &M,
) -> (mixed: Vec<S>)
    requires
        forall|k: int| 0 <= k < frames.len() ==> (#[trigger] frames[k]).len() == frame_size,
        forall|a: S, b: S| call_requires(*mix, (a, b)),
    ensures
        mixed.len() == frame_size,
        forall|i: int|
            0 <= i < frame_size ==> mixes_to(
                *mix,
                silence,
                column(frames@, i),
                #[trigger] mixed[i],
            ),
{
    let mut mixed = make_silent_frame(frame_size, silence);
    let ghost mut totals: Seq<Seq<S>> = Seq::new(frame_size as nat, |i: int| seq![silence]);
    let mut k: usize = 0;
    while k < frames.len()
        invariant
            forall|j: int| 0 <= j < frames.len() ==> (#[trigger] frames[j]).len() == frame_size,
            forall|a: S, b: S| call_requires(*mix, (a, b)),
            k <= frames.len(),
            mixed.len() == frame_size,
            totals.len() == frame_size,
            forall|i: int|
                0 <= i < frame_size ==> is_running_mix(
                    *mix,
                    silence,
                    column(frames@.take(k as int), i),
                    #[trigger] totals[i],
                ) && totals[i].last() == mixed[i],
        decreases frames.len() - k,
    {
        let ghost before = mixed@;
        let ghost earlier = totals;
        mix_into(&mut mixed, &frames[k], mix);
        proof {
            totals = Seq::new(frame_size as nat, |i: int| earlier[i].push(mixed@[i]));
            assert forall|i: int| 0 <= i < frame_size implies is_running_mix(
                *mix,
                silence,
                column(frames@.take(k + 1), i),
                #[trigger] totals[i],
            ) && totals[i].last() == mixed[i] by {
                let terms = column(frames@.take(k + 1), i);
                let shorter = column(frames@.take(k as int), i);
                assert(is_running_mix(*mix, silence, shorter, earlier[i]));
                assert(earlier[i].last() == before[i]);
                assert forall|j: int| 0 <= j < terms.len() implies call_ensures(
                    *mix,
                    (totals[i][j], #[trigger] terms[j]),
                    totals[i][j + 1],
                ) by {
                    if j < k {
                        assert(terms[j] == shorter[j]);
                    } else {
                        assert(terms[j] == frames[k as int]@[i]);
                        assert(totals[i][j] == before[i]);
                    }
                }
            }
        }
        k += 1;
    }
    assert(frames@.take(frames.len() as int) =~= frames@);
    assert forall|i: int| 0 <= i < frame_size implies mixes_to(
        *mix,
        silence,
        column(frames@, i),
        #[trigger] mixed[i],
    ) by {
        assert(is_running_mix(*mix, silence, column(frames@, i), totals[i]));
    }
    mixed
}

/// Brings a mixed frame to its output level: each sample is limited, scaled
/// by `volume`, and limited again.
pub fn level_frame<S: Copy, L: Fn(S) -> S, K: Fn(S, S) -> S>(
    mixed: &Vec<S>,
    volume: S,
    limit: &L,
    scale: &K,
) -> (levelled: Vec<S>)
    requires
        forall|s: S| call_requires(*limit, (s,)),
        forall|s: S, f: S| call_requires(*scale, (s, f)),
    ensures
        levelled.len() == mixed.len(),
        forall|i: int|
            0 <= i < mixed.len() ==> levels_to(
                *limit,
                *scale,
                mixed[i],
                volume,
                #[trigger] levelled[i],
            ),
{
    let mut levelled: Vec<S> = Vec::with_capacity(mixed.len());
    let mut i: usize = 0;
    while i < mixed.len()
        invariant
            forall|s: S| call_requires(*limit, (s,)),
            forall|s: S, f: S| call_requires(*scale, (s, f)),
            i <= mixed.len(),
            levelled.len() == i,
            forall|k: int|
                0 <= k < i ==> levels_to(*limit, *scale, mixed[k], volume, #[trigger] levelled[k]),
        decreases mixed.len() - i,
    {
        let limited = limit(mixed[i]);
        let scaled = scale(limited, volume);
        let out = limit(scaled);
        assert(call_ensures(*limit, (mixed[i as int],), limited) && call_ensures(
            *scale,
            (limited, volume),
            scaled,
        ) && call_ensures(*limit, (scaled,), out));
        levelled.push(out);
        i += 1;
    }
    levelled
}

/// Writes the mono frame into an interleaved buffer: sample `i` goes,
/// unchanged, into every channel slot of frame `i`. Slots past the last
/// whole frame are left as they were.
pub fn spread<S: Copy>(mono: &Vec<S>, data: &mut [S], channels: usize)
    requires
        channels > 0,
    ensures
        final(data)@ == spread_of(mono@, old(data)@, channels as int),
{
    let mut j: usize = 0;
    while j < data.len()
        invariant
            channels > 0,
            data.len() == old(data).len(),
            j <= data.len(),
            forall|k: int|
                0 <= k < j ==> (#[trigger] data[k]) == (if k / (channels as int) < mono.len() {
                    mono[k / (channels as int)]
                } else {
                    old(data)[k]
                }),
            forall|k: int| j <= k < data.len() ==> (#[trigger] data[k]) == old(data)[k],
        decreases data.len() - j,
    {
        let frame = j / channels;
        if frame < mono.len() {
            data[j] = mono[frame];
        }
        j += 1;
    }
    assert(data@ =~= spread_of(mono@, old(data)@, channels as int));
}

} // verus!
