//! The monitoring mixdown: one queue per microphone, drained, converted,
//! mixed and levelled on every callback of the output device.

use crate::audio::frame::column;
use crate::audio::frame::is_levelled_mix;
use crate::audio::frame::is_levelled_sample;
use crate::audio::frame::level_frame;
use crate::audio::frame::mix_frames;
use crate::audio::frame::mixes_to;
use crate::audio::frame::spread;
use crate::audio::frame::spread_of;
use crate::audio::resampler::create_resamplers;
use crate::audio::resampler::is_creation_error;
use crate::audio::resampler::is_resampled_frame;
use crate::audio::resampler::never_fails;
use crate::audio::resampler::is_resampler_list;
use crate::audio::resampler::AudioResampler;
use crate::audio::resampler::Conversion;
use crate::audio::ring::sample_ring;
use crate::audio::ring::SampleConsumer;
use crate::audio::ring::SampleProducer;
use crate::audio::types::StreamFormat;
use crate::audio::types::DEFAULT_BUFFER_SIZE;
use crate::error::AppError;
use vstd::prelude::*;

verus! {

/// Owns one bounded queue per microphone and, for each microphone whose rate
/// differs from the output rate, its converter.
#[verifier::reject_recursive_types(S)]
pub struct OutputMixer<S, E> {
    mic_producers: Vec<SampleProducer<S>>,
    mic_consumers: Vec<SampleConsumer<S>>,
    resamplers: Vec<Option<AudioResampler<E>>>,
}

/// The playing side of a mixer: what the callback of the output device works
/// on.
#[verifier::reject_recursive_types(S)]
pub struct OutputStream<S, E> {
    channels: usize,
    volume: S,
    mic_consumers: Vec<SampleConsumer<S>>,
    resamplers: Vec<Option<AudioResampler<E>>>,
}

/// Microphone `mic` has a converter.
pub open spec fn has_converter<E>(resamplers: Seq<Option<AudioResampler<E>>>, mic: int) -> bool {
    0 <= mic < resamplers.len() && resamplers[mic] is Some
}

/// `frames` are the frames of the microphones `sources`, which are among
/// the first `upto` microphones and stand in increasing order. Every frame
/// holds `frame_size` samples. Every microphone with a converter is among
/// the sources, and its frame is what its converter can contribute. A
/// microphone that is left out has no converter.
pub open spec fn are_frames_of<S, E, C: Fn(&E, &Vec<S>) -> Conversion<S>>(
    frames: Seq<Vec<S>>,
    sources: Seq<int>,
    resamplers: Seq<Option<AudioResampler<E>>>,
    frame_size: nat,
    silence: S,
    convert: C,
    upto: int,
) -> bool {
    &&& sources.len() == frames.len()
    &&& forall|k: int| 0 <= k < sources.len() ==> 0 <= #[trigger] sources[k] < upto
    &&& forall|j: int, k: int| 0 <= j < k < sources.len() ==> sources[j] < sources[k]
    &&& forall|k: int| 0 <= k < frames.len() ==> (#[trigger] frames[k]).len() == frame_size
    &&& forall|k: int|
        0 <= k < frames.len() && has_converter(resamplers, #[trigger] sources[k])
            ==> is_resampled_frame(
            frames[k]@,
            resamplers[sources[k]]->0.engine(),
            frame_size,
            silence,
            convert,
        )
    &&& forall|mic: int|
        0 <= mic < upto && #[trigger] has_converter(resamplers, mic) ==> sources.contains(mic)
}

/// A list of frames that covers the first `upto` microphones still does
/// so for one microphone more: with that microphone's frame added at the
/// end, where the frame is what its converter can contribute if it has one;
/// and as it stands, where the microphone has no converter.
pub proof fn lemma_frames_one_more<S, E, C: Fn(&E, &Vec<S>) -> Conversion<S>>(
    frames: Seq<Vec<S>>,
    sources: Seq<int>,
    resamplers: Seq<Option<AudioResampler<E>>>,
    frame_size: nat,
    silence: S,
    convert: C,
    upto: int,
    added: Option<Vec<S>>,
)
    requires
        0 <= upto,
        are_frames_of(frames, sources, resamplers, frame_size, silence, convert, upto),
        match added {
            Some(frame) => frame.len() == frame_size && (has_converter(resamplers, upto)
                ==> is_resampled_frame(
                frame@,
                resamplers[upto]->0.engine(),
                frame_size,
                silence,
                convert,
            )),
            None => !has_converter(resamplers, upto),
        },
    ensures
        match added {
            Some(frame) => are_frames_of(
                frames.push(frame),
                sources.push(upto),
                resamplers,
                frame_size,
                silence,
                convert,
                upto + 1,
            ),
            None => are_frames_of(
                frames,
                sources,
                resamplers,
                frame_size,
                silence,
                convert,
                upto + 1,
            ),
        },
{
    match added {
        Some(frame) => {
            let longer = frames.push(frame);
            let origins = sources.push(upto);
            assert(origins[sources.len() as int] == upto);
            assert forall|k: int|
                0 <= k < longer.len() && has_converter(
                    resamplers,
                    #[trigger] origins[k],
                ) implies is_resampled_frame(
                longer[k]@,
                resamplers[origins[k]]->0.engine(),
                frame_size,
                silence,
                convert,
            ) by {
                if k < sources.len() {
                    assert(origins[k] == sources[k]);
                    assert(longer[k] == frames[k]);
                }
            }
            assert forall|mic: int|
                0 <= mic < upto + 1 && #[trigger] has_converter(
                    resamplers,
                    mic,
                ) implies origins.contains(mic) by {
                if mic < upto {
                    let k = choose|k: int| 0 <= k < sources.len() && sources[k] == mic;
                    assert(origins[k] == mic);
                }
            }
        },
        None => {},
    }
}

/// Takes one frame of each microphone, in the order of the microphones: by
/// conversion where the microphone has a converter, else straight from its
/// queue. A microphone whose queue cannot be reached gives no frame; one
/// with a converter always gives one, which is silent if its queue cannot
/// be reached.
pub fn collect_frames<S: Copy, E, C: Fn(&E, &Vec<S>) -> Conversion<S>>(
    consumers: &Vec<SampleConsumer<S>>,
    resamplers: &Vec<Option<AudioResampler<E>>>,
    frame_size: usize,
    silence: S,
    convert: &C,
) -> (frames: Vec<Vec<S>>)
    requires
        forall|engine: E, window: Vec<S>| call_requires(*convert, (&engine, &window)),
    ensures
        frames.len() <= consumers.len(),
        forall|k: int| 0 <= k < frames.len() ==> (#[trigger] frames[k]).len() == frame_size,
        exists|sources: Seq<int>|
            #[trigger] are_frames_of(
                frames@,
                sources,
                resamplers@,
                frame_size as nat,
                silence,
                *convert,
                consumers.len() as int,
            ),
{
    let mut frames: Vec<Vec<S>> = Vec::with_capacity(consumers.len());
    let ghost mut sources: Seq<int> = Seq::empty();
    let mut idx: usize = 0;
    while idx < consumers.len()
        invariant
            forall|engine: E, window: Vec<S>| call_requires(*convert, (&engine, &window)),
            idx <= consumers.len(),
            frames.len() <= idx,
            are_frames_of(
                frames@,
                sources,
                resamplers@,
                frame_size as nat,
                silence,
                *convert,
                idx as int,
            ),
        decreases consumers.len() - idx,
    {
        let ghost earlier = frames@;
        let taken: Option<Vec<S>> = if idx < resamplers.len() && resamplers[idx].is_some() {
            match &resamplers[idx] {
                Some(resampler) => Some(
                    resampler.resample(&consumers[idx], frame_size, silence, convert),
                ),
                None => None,
            }
        } else {
            match consumers[idx].read_frame(frame_size, silence) {
                Some((frame, _)) => Some(frame),
                None => None,
            }
        };
        proof {
            lemma_frames_one_more(
                earlier,
                sources,
                resamplers@,
                frame_size as nat,
                silence,
                *convert,
                idx as int,
                taken,
            );
        }
        match taken {
            Some(frame) => {
                frames.push(frame);
                proof {
                    sources = sources.push(idx as int);
                }
            },
            None => {},
        }
        idx += 1;
    }
    frames
}

impl<S, E> OutputMixer<S, E> {
    #[verifier::type_invariant]
    spec fn queues_pair_up(self) -> bool {
        self.mic_producers.len() == self.mic_consumers.len()
    }
}

impl<S: Copy, E> OutputMixer<S, E> {
    /// The number of microphones, each with a queue of its own.
    pub closed spec fn mic_count(self) -> nat {
        self.mic_producers.len() as nat
    }

    /// The producer end of the queue of microphone `mic_index`.
    pub closed spec fn producer(self, mic_index: int) -> SampleProducer<S> {
        self.mic_producers[mic_index]
    }

    /// The consumer ends of the queues, by microphone.
    pub closed spec fn consumers(self) -> Seq<SampleConsumer<S>> {
        self.mic_consumers@
    }

    /// The converters, by microphone; `None` where a microphone has none.
    pub closed spec fn resamplers(self) -> Seq<Option<AudioResampler<E>>> {
        self.resamplers@
    }

    /// A mixer for `num_mics` microphones: one empty queue of
    /// `DEFAULT_BUFFER_SIZE` samples each, and one converter for each of
    /// `input_sample_rates` that differs from `output_sample_rate` (a rate of
    /// 0 stands for a microphone that no device carries).
    ///
    /// Fails if `make` cannot create the engine of a converter, and only
    /// then: with a maker that never fails the mixer is made whatever the
    /// rates are, so that a microphone that no device carries has its
    /// queue like any other.
    pub fn new<F: Fn(u32, u32) -> Result<E, String>>(
        num_mics: usize,
        input_sample_rates: &Vec<u32>,
        output_sample_rate: u32,
        make: &F,
    ) -> (made: Result<Self, AppError>)
        requires
            forall|rate: u32| call_requires(*make, (rate, output_sample_rate)),
        ensures
            match made {
                Ok(mixer) => {
                    &&& mixer.mic_count() == num_mics
                    &&& mixer.consumers().len() == num_mics
                    &&& is_resampler_list(
                        mixer.resamplers(),
                        input_sample_rates@,
                        output_sample_rate,
                        *make,
                    )
                },
                Err(error) => is_creation_error(
                    error,
                    input_sample_rates@,
                    output_sample_rate,
                    *make,
                ),
            },
            never_fails(*make) ==> made is Ok,
    {
        let mut mic_producers: Vec<SampleProducer<S>> = Vec::with_capacity(num_mics);
        let mut mic_consumers: Vec<SampleConsumer<S>> = Vec::with_capacity(num_mics);
        let mut i: usize = 0;
        while i < num_mics
            invariant
                i <= num_mics,
                mic_producers.len() == i,
                mic_consumers.len() == i,
            decreases num_mics - i,
        {
            let (producer, consumer) = sample_ring::<S>(DEFAULT_BUFFER_SIZE);
            mic_producers.push(producer);
            mic_consumers.push(consumer);
            i += 1;
        }
        match create_resamplers(input_sample_rates, output_sample_rate, make) {
            Ok(resamplers) => Ok(OutputMixer { mic_producers, mic_consumers, resamplers }),
            Err(error) => Err(error),
        }
    }

    /// The producer end of the queue of microphone `mic_index`, for the
    /// capture side. An index that names no microphone gives none, which
    /// mutes that microphone in the mix.
    pub fn get_producer(&self, mic_index: usize) -> (producer: Option<SampleProducer<S>>)
        ensures
            mic_index < self.mic_count() ==> producer == Some(self.producer(mic_index as int)),
            mic_index >= self.mic_count() ==> producer is None,
    {
        if mic_index < self.mic_producers.len() {
            Some(self.mic_producers[mic_index].share())
        } else {
            None
        }
    }

    /// One frame of the mix of all microphones: `silence` with the frame of
    /// each microphone mixed in, sample by sample, in the order of the
    /// microphones.
    ///
    /// Each microphone gives `frame_size` samples: by conversion where it has
    /// a converter, else straight from its queue, padded with silence on
    /// underrun. A microphone whose queue cannot be reached is left out.
    pub fn mix_audio<C: Fn(&E, &Vec<S>) -> Conversion<S>, M: Fn(S, S) -> S>(
        consumers: &Vec<SampleConsumer<S>>,
        resamplers: &Vec<Option<AudioResampler<E>>>,
        frame_size: usize,
        silence: S,
        convert: &C,
        mix: &M,
    ) -> (mixed: Vec<S>)
        requires
            forall|engine: E, window: Vec<S>| call_requires(*convert, (&engine, &window)),
            forall|a: S, b: S| call_requires(*mix, (a, b)),
        ensures
            mixed.len() == frame_size,
            exists|frames: Seq<Vec<S>>, sources: Seq<int>|
                {
                    &&& frames.len() <= consumers.len()
                    &&& #[trigger] are_frames_of(
                        frames,
                        sources,
                        resamplers@,
                        frame_size as nat,
                        silence,
                        *convert,
                        consumers.len() as int,
                    )
                    &&& forall|i: int|
                        0 <= i < frame_size ==> mixes_to(
                            *mix,
                            silence,
                            column(frames, i),
                            #[trigger] mixed[i],
                        )
                },
    {
        let frames = collect_frames(consumers, resamplers, frame_size, silence, convert);
        let mixed = mix_frames(&frames, frame_size, silence, mix);
        proof {
            let sources = choose|sources: Seq<int>|
                #[trigger] are_frames_of(
                    frames@,
                    sources,
                    resamplers@,
                    frame_size as nat,
                    silence,
                    *convert,
                    consumers.len() as int,
                );
            assert(are_frames_of(
                frames@,
                sources,
                resamplers@,
                frame_size as nat,
                silence,
                *convert,
                consumers.len() as int,
            ));
        }
        mixed
    }

    /// Turns the mixer into the playing side of a stream of the given format.
    ///
    /// The master volume is bounded once, here, by `bound`, which brings it
    /// into the range from mute to full level.
    pub fn create_output_stream<B: FnOnce(S) -> S>(
        self,
        config: StreamFormat,
        playback_volume: S,
        bound: B,
    ) -> (stream: OutputStream<S, E>)
        requires
            config.channels > 0,
            call_requires(bound, (playback_volume,)),
        ensures
            stream.channels() == config.channels,
            call_ensures(bound, (playback_volume,), stream.volume()),
            stream.consumers() == self.consumers(),
            stream.resamplers() == self.resamplers(),
    {
        let volume = bound(playback_volume);
        OutputStream {
            channels: config.channels as usize,
            volume,
            mic_consumers: self.mic_consumers,
            resamplers: self.resamplers,
        }
    }
}

/// Fills an interleaved output buffer from the frames of the microphones.
///
/// The frames are mixed sample by sample; each mixed sample is limited,
/// scaled by `volume` and limited again; the one resulting sample is written
/// into every channel slot of its frame. Slots past the last whole frame
/// keep what they held.
pub fn render<S: Copy, M: Fn(S, S) -> S, L: Fn(S) -> S, K: Fn(S, S) -> S>(
    frames: &Vec<Vec<S>>,
    data: &mut [S],
    channels: usize,
    volume: S,
    silence: S,
    mix: &M,
    limit: &L,
    scale: &K,
)
    requires
        channels > 0,
        forall|k: int|
            0 <= k < frames.len() ==> (#[trigger] frames[k]).len() == (old(data)@.len() as int) / (
            channels as int),
        forall|a: S, b: S| call_requires(*mix, (a, b)),
        forall|s: S| call_requires(*limit, (s,)),
        forall|s: S, f: S| call_requires(*scale, (s, f)),
    ensures
        exists|mono: Seq<S>|
            {
                &&& mono.len() == (old(data)@.len() as int) / (channels as int)
                &&& is_levelled_mix(mono, frames@, volume, silence, *mix, *limit, *scale)
                &&& final(data)@ == spread_of(mono, old(data)@, channels as int)
            },
{
    let frame_size = data.len() / channels;
    let mixed = mix_frames(frames, frame_size, silence, mix);
    let levelled = level_frame(&mixed, volume, limit, scale);
    spread(&levelled, data, channels);
    proof {
        let mono = levelled@;
        assert forall|i: int| 0 <= i < mono.len() implies is_levelled_sample(
            #[trigger] mono[i],
            column(frames@, i),
            volume,
            silence,
            *mix,
            *limit,
            *scale,
        ) by {
            assert(mixes_to(*mix, silence, column(frames@, i), mixed[i]));
        }
        assert(is_levelled_mix(mono, frames@, volume, silence, *mix, *limit, *scale));
    }
}

impl<S, E> OutputStream<S, E> {
    #[verifier::type_invariant]
    spec fn has_channels(self) -> bool {
        self.channels > 0
    }
}

impl<S: Copy, E> OutputStream<S, E> {
    /// The number of channels of the output device.
    pub closed spec fn channels(self) -> usize {
        self.channels
    }

    /// The bounded master volume.
    pub closed spec fn volume(self) -> S {
        self.volume
    }

    /// The consumer ends of the queues, by microphone.
    pub closed spec fn consumers(self) -> Seq<SampleConsumer<S>> {
        self.mic_consumers@
    }

    /// The converters, by microphone; `None` where a microphone has none.
    pub closed spec fn resamplers(self) -> Seq<Option<AudioResampler<E>>> {
        self.resamplers@
    }

    /// Serves one callback of the output device: fills `data`, an
    /// interleaved buffer, with the levelled mix of one frame of every
    /// microphone.
    ///
    /// The frame size is the length of `data` divided by the channel count.
    /// The call never waits: a microphone with too little queued gives
    /// silence for the rest of its frame.
    pub fn fill<C: Fn(&E, &Vec<S>) -> Conversion<S>, M: Fn(S, S) -> S, L: Fn(S) -> S, K: Fn(
        S,
        S,
    ) -> S>(&self, data: &mut [S], silence: S, convert: &C, mix: &M, limit: &L, scale: &K)
        requires
            forall|engine: E, window: Vec<S>| call_requires(*convert, (&engine, &window)),
            forall|a: S, b: S| call_requires(*mix, (a, b)),
            forall|s: S| call_requires(*limit, (s,)),
            forall|s: S, f: S| call_requires(*scale, (s, f)),
        ensures
            exists|frames: Seq<Vec<S>>, sources: Seq<int>, mono: Seq<S>|
                {
                    &&& frames.len() <= self.consumers().len()
                    &&& mono.len() == (old(data)@.len() as int) / (self.channels() as int)
                    &&& #[trigger] are_frames_of(
                        frames,
                        sources,
                        self.resamplers(),
                        mono.len(),
                        silence,
                        *convert,
                        self.consumers().len() as int,
                    )
                    &&& #[trigger] is_levelled_mix(
                        mono,
                        frames,
                        self.volume(),
                        silence,
                        *mix,
                        *limit,
                        *scale,
                    )
                    &&& final(data)@ == spread_of(mono, old(data)@, self.channels() as int)
                },
    {
        proof {
            use_type_invariant(self);
        }
        let frame_size = data.len() / self.channels;
        let frames = collect_frames(
            &self.mic_consumers,
            &self.resamplers,
            frame_size,
            silence,
            convert,
        );
        render(&frames, data, self.channels, self.volume, silence, mix, limit, scale);
        proof {
            let mono = choose|mono: Seq<S>|
                {
                    &&& mono.len() == (old(data)@.len() as int) / (self.channels as int)
                    &&& is_levelled_mix(
                        mono,
                        frames@,
                        self.volume,
                        silence,
                        *mix,
                        *limit,
                        *scale,
                    )
                    &&& data@ == spread_of(mono, old(data)@, self.channels as int)
                };
            let sources = choose|sources: Seq<int>|
                #[trigger] are_frames_of(
                    frames@,
                    sources,
                    self.resamplers@,
                    frame_size as nat,
                    silence,
                    *convert,
                    self.mic_consumers.len() as int,
                );
            assert(are_frames_of(
                frames@,
                sources,
                self.resamplers(),
                mono.len(),
                silence,
                *convert,
                self.consumers().len() as int,
            ));
            assert(is_levelled_mix(mono, frames@, self.volume(), silence, *mix, *limit, *scale));
        }
    }
}

} // verus!
