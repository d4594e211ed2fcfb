//! The capture side: which microphones each input stream serves, and what
//! one callback of a stream hands to analysis and to monitoring.

use crate::audio::device::DeviceBinding;
use crate::audio::frame::channel_samples;
use crate::audio::frame::deinterleave;
use crate::audio::frame::gain_frame;
use crate::audio::frame::is_gained;
use crate::audio::output::OutputMixer;
use crate::audio::ring::SampleProducer;
use crate::audio::types::MicrophoneOptions;
use crate::audio::types::StreamFormat;
use vstd::prelude::*;

verus! {

/// One microphone as its capture stream hears it.
#[verifier::reject_recursive_types(S)]
pub struct InputRoute<S> {
    /// The microphone's index.
    pub index: usize,
    /// The channel of the device that carries the microphone.
    pub channel: i32,
    /// The microphone's linear gain.
    pub gain: S,
    /// The producer end of the microphone's monitoring queue, if it has one.
    pub producer: Option<SampleProducer<S>>,
}

/// One capture stream: a device, its format, and the microphones it serves.
#[verifier::reject_recursive_types(S)]
pub struct InputStream<S> {
    /// Position of the device in the host's enumeration.
    pub device: usize,
    /// Format of the stream: the device's own channel count and sample rate.
    pub config: StreamFormat,
    /// The beat-timing unit handed through to the analysis handles.
    pub samples_per_beat: usize,
    /// The microphones heard on this device, in increasing order of index.
    pub routes: Vec<InputRoute<S>>,
}

/// What one callback captured for one microphone.
pub struct Captured<S> {
    /// The microphone's index: the key of its analysis handle.
    pub index: usize,
    /// The microphone's mono samples, for its analysis handle.
    pub samples: Vec<S>,
    /// The gained, limited samples that were offered to the monitoring
    /// queue, if the microphone is monitored.
    pub offered: Option<Vec<S>>,
    /// How many of the offered samples the queue took; the rest was dropped.
    pub accepted: usize,
}

/// The producer that the mixer, if there is one, holds for a microphone.
pub open spec fn producer_of<S: Copy, E>(mixer: Option<OutputMixer<S, E>>, index: int) -> Option<
    SampleProducer<S>,
> {
    match mixer {
        Some(mixer) => if 0 <= index < mixer.mic_count() {
            Some(mixer.producer(index))
        } else {
            None
        },
        None => None,
    }
}

/// The mixer behind the reference, if there is one.
pub open spec fn mixer_behind<S: Copy, E>(mixer: Option<&OutputMixer<S, E>>) -> Option<
    OutputMixer<S, E>,
> {
    match mixer {
        Some(mixer) => Some(*mixer),
        None => None,
    }
}

/// `route` carries microphone `index` as `options` configure it.
pub open spec fn is_route_of<S: Copy, E>(
    route: InputRoute<S>,
    index: usize,
    options: Seq<MicrophoneOptions<S>>,
    mixer: Option<OutputMixer<S, E>>,
) -> bool {
    &&& route.index == index
    &&& route.channel == options[index as int].channel
    &&& route.gain == options[index as int].gain
    &&& route.producer == producer_of(mixer, index as int)
}

/// `stream` is the capture stream of `binding`: same device and format, and
/// one route per microphone of the binding, in the same order.
pub open spec fn is_stream_of<S: Copy, E>(
    stream: InputStream<S>,
    binding: DeviceBinding,
    options: Seq<MicrophoneOptions<S>>,
    samples_per_beat: usize,
    mixer: Option<OutputMixer<S, E>>,
) -> bool {
    &&& stream.device == binding.device
    &&& stream.config == binding.config
    &&& stream.samples_per_beat == samples_per_beat
    &&& stream.routes.len() == binding.mic_indices.len()
    &&& forall|k: int|
        0 <= k < stream.routes.len() ==> is_route_of(
            #[trigger] stream.routes[k],
            binding.mic_indices[k],
            options,
            mixer,
        )
}

/// `streams` are the capture streams of `bindings`, one each, in order.
pub open spec fn are_streams_of<S: Copy, E>(
    streams: Seq<InputStream<S>>,
    bindings: Seq<DeviceBinding>,
    options: Seq<MicrophoneOptions<S>>,
    samples_per_beat: usize,
    mixer: Option<OutputMixer<S, E>>,
) -> bool {
    &&& streams.len() == bindings.len()
    &&& forall|d: int|
        0 <= d < bindings.len() ==> is_stream_of(
            #[trigger] streams[d],
            bindings[d],
            options,
            samples_per_beat,
            mixer,
        )
}

/// `captured` is what a callback that delivered `data` owes to the
/// microphone of `route`.
pub open spec fn is_capture_of<S, L: Fn(S) -> S, K: Fn(S, S) -> S>(
    captured: Captured<S>,
    route: InputRoute<S>,
    data: Seq<S>,
    channels: int,
    playback_enabled: bool,
    limit: L,
    scale: K,
) -> bool {
    &&& captured.index == route.index
    &&& captured.samples@ == channel_samples(data, route.channel as int, channels)
    &&& if playback_enabled && route.producer is Some {
        &&& captured.offered is Some
        &&& is_gained(captured.offered->0@, captured.samples@, route.gain, limit, scale)
        &&& captured.accepted <= captured.samples.len()
    } else {
        &&& captured.offered is None
        &&& captured.accepted == 0
    }
}

/// Builds the capture streams of a session.
pub struct InputStreamManager;

impl InputStreamManager {
    /// One capture stream per device binding, at the device's own channel
    /// count and sample rate, with one route for each microphone of the
    /// binding. A route gets the producer end of its microphone's queue
    /// where `mixer` holds one: that is, where monitoring is enabled.
    pub fn setup_input_streams<S: Copy, E>(
        devices: &Vec<DeviceBinding>,
        options: &Vec<MicrophoneOptions<S>>,
        samples_per_beat: usize,
        mixer: Option<&OutputMixer<S, E>>,
    ) -> (streams: Vec<InputStream<S>>)
        requires
            forall|d: int, k: int|
                0 <= d < devices.len() && 0 <= k < devices[d].mic_indices.len()
                    ==> #[trigger] devices[d].mic_indices[k] < options.len(),
        ensures
            are_streams_of(
                streams@,
                devices@,
                options@,
                samples_per_beat,
                mixer_behind(mixer),
            ),
    {
        let mut streams: Vec<InputStream<S>> = Vec::with_capacity(devices.len());
        let mut d: usize = 0;
        while d < devices.len()
            invariant
                forall|e: int, k: int|
                    0 <= e < devices.len() && 0 <= k < devices[e].mic_indices.len()
                        ==> #[trigger] devices[e].mic_indices[k] < options.len(),
                d <= devices.len(),
                streams.len() == d,
                forall|e: int|
                    0 <= e < d ==> is_stream_of(
                        #[trigger] streams[e],
                        devices[e],
                        options@,
                        samples_per_beat,
                        mixer_behind(mixer),
                    ),
            decreases devices.len() - d,
        {
            let binding = &devices[d];
            let mut routes: Vec<InputRoute<S>> = Vec::with_capacity(binding.mic_indices.len());
            let mut k: usize = 0;
            while k < binding.mic_indices.len()
                invariant
                    forall|j: int|
                        0 <= j < binding.mic_indices.len() ==> #[trigger] binding.mic_indices[j]
                            < options.len(),
                    k <= binding.mic_indices.len(),
                    routes.len() == k,
                    forall|j: int|
                        0 <= j < k ==> is_route_of(
                            #[trigger] routes[j],
                            binding.mic_indices[j],
                            options@,
                            mixer_behind(mixer),
                        ),
                decreases binding.mic_indices.len() - k,
            {
                let index = binding.mic_indices[k];
                let option = &options[index];
                let producer = match mixer {
                    Some(mixer) => mixer.get_producer(index),
                    None => None,
                };
                routes.push(
                    InputRoute { index, channel: option.channel, gain: option.gain, producer },
                );
                k += 1;
            }
            streams.push(
                InputStream { device: binding.device, config: binding.config, samples_per_beat, routes },
            );
            d += 1;
        }
        streams
    }
}

/// `handles` holds one analysis handle for every microphone of `stream`, in
/// the order of its routes, each under the microphone's index and made by
/// `make` from the microphone's options, the sample rate of the stream and
/// its beat-timing unit.
pub open spec fn are_handles_of<S, H, N: Fn(&MicrophoneOptions<S>, u32, usize) -> H>(
    handles: Seq<(usize, H)>,
    stream: InputStream<S>,
    options: Seq<MicrophoneOptions<S>>,
    make: N,
) -> bool {
    &&& handles.len() == stream.routes.len()
    &&& forall|k: int|
        0 <= k < handles.len() ==> (#[trigger] handles[k]).0 == stream.routes[k].index
            && call_ensures(
            make,
            (
                &options[stream.routes[k].index as int],
                stream.config.sample_rate,
                stream.samples_per_beat,
            ),
            handles[k].1,
        )
}

impl<S: Copy> InputStream<S> {
    /// Makes the analysis handles of the stream: one for every microphone
    /// that the stream serves, to be registered under the microphone's
    /// index before the stream starts.
    pub fn analysis_handles<H, N: Fn(&MicrophoneOptions<S>, u32, usize) -> H>(
        &self,
        options: &Vec<MicrophoneOptions<S>>,
        make: &N,
    ) -> (handles: Vec<(usize, H)>)
        requires
            forall|k: int|
                0 <= k < self.routes.len() ==> (#[trigger] self.routes[k]).index < options.len(),
            forall|option: &MicrophoneOptions<S>, rate: u32, unit: usize|
                call_requires(*make, (option, rate, unit)),
        ensures
            are_handles_of(handles@, *self, options@, *make),
    {
        let mut handles: Vec<(usize, H)> = Vec::with_capacity(self.routes.len());
        let mut k: usize = 0;
        while k < self.routes.len()
            invariant
                forall|j: int|
                    0 <= j < self.routes.len() ==> (#[trigger] self.routes[j]).index
                        < options.len(),
                forall|option: &MicrophoneOptions<S>, rate: u32, unit: usize|
                    call_requires(*make, (option, rate, unit)),
                k <= self.routes.len(),
                handles.len() == k,
                forall|j: int|
                    0 <= j < k ==> (#[trigger] handles[j]).0 == self.routes[j].index
                        && call_ensures(
                        *make,
                        (
                            &options[self.routes[j].index as int],
                            self.config.sample_rate,
                            self.samples_per_beat,
                        ),
                        handles[j].1,
                    ),
            decreases self.routes.len() - k,
        {
            let index = self.routes[k].index;
            let handle = make(&options[index], self.config.sample_rate, self.samples_per_beat);
            handles.push((index, handle));
            k += 1;
        }
        handles
    }

    /// Serves one callback of the capture stream, which delivered the
    /// interleaved buffer `data`.
    ///
    /// For every microphone of the stream, in order: its channel is split
    /// off `data`; and, if monitoring is enabled and the microphone has a
    /// queue, the samples are scaled by the microphone's gain, limited, and
    /// offered to the queue without waiting. What the queue cannot take is
    /// dropped.
    pub fn capture<L: Fn(S) -> S, K: Fn(S, S) -> S>(
        &self,
        data: &[S],
        playback_enabled: bool,
        limit: &L,
        scale: &K,
    ) -> (captured: Vec<Captured<S>>)
        requires
            self.config.channels > 0,
            forall|s: S| call_requires(*limit, (s,)),
            forall|s: S, f: S| call_requires(*scale, (s, f)),
        ensures
            captured.len() == self.routes.len(),
            forall|k: int|
                0 <= k < captured.len() ==> is_capture_of(
                    #[trigger] captured[k],
                    self.routes[k],
                    data@,
                    self.config.channels as int,
                    playback_enabled,
                    *limit,
                    *scale,
                ),
    {
        let channels = self.config.channels as usize;
        let mut captured: Vec<Captured<S>> = Vec::with_capacity(self.routes.len());
        let mut k: usize = 0;
        while k < self.routes.len()
            invariant
                channels == self.config.channels,
                channels > 0,
                forall|s: S| call_requires(*limit, (s,)),
                forall|s: S, f: S| call_requires(*scale, (s, f)),
                k <= self.routes.len(),
                captured.len() == k,
                forall|j: int|
                    0 <= j < k ==> is_capture_of(
                        #[trigger] captured[j],
                        self.routes[j],
                        data@,
                        channels as int,
                        playback_enabled,
                        *limit,
                        *scale,
                    ),
            decreases self.routes.len() - k,
        {
            let route = &self.routes[k];
            let samples = deinterleave(data, route.channel, channels);
            let mut offered: Option<Vec<S>> = None;
            let mut accepted: usize = 0;
            if playback_enabled {
                match &route.producer {
                    Some(producer) => {
                        let gained = gain_frame(&samples, route.gain, limit, scale);
                        accepted = producer.offer(&gained);
                        offered = Some(gained);
                    },
                    None => {},
                }
            }
            captured.push(Captured { index: route.index, samples, offered, accepted });
            k += 1;
        }
        captured
    }
}

} // verus!
