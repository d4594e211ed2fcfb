//! The session: everything that is decided between the start of a recording
//! and the moment its streams run.

use crate::audio::device::all_named;
use crate::audio::device::binds;
use crate::audio::device::is_retained;
use crate::audio::device::InputDevice;
use crate::audio::device::is_binding_list;
use crate::audio::device::is_discovery_error;
use crate::audio::device::is_output_error;
use crate::audio::device::DeviceBinding;
use crate::audio::device::DeviceManager;
use crate::audio::frame::make_silent_frame;
use crate::audio::input::are_handles_of;
use crate::audio::input::are_streams_of;
use crate::audio::input::is_route_of;
use crate::audio::input::is_stream_of;
use crate::audio::input::InputStream;
use crate::audio::input::InputStreamManager;
use crate::audio::output::OutputMixer;
use crate::audio::output::OutputStream;
use crate::audio::registry::lemma_registered_indices;
use crate::audio::registry::register;
use crate::audio::registry::with_handles;
use crate::audio::resampler::is_creation_error;
use crate::audio::resampler::is_resampler_list;
use crate::audio::types::MicrophoneOptions;
use crate::error::AppError;
use std::collections::HashMap;
use vstd::prelude::*;

verus! {

/// The input rate discovered for a microphone: the sample rate of the last
/// binding, in enumeration order, that serves it, and 0 if none does.
pub open spec fn discovered_rate(bindings: Seq<DeviceBinding>, mic: usize) -> u32
    decreases bindings.len(),
{
    if bindings.len() == 0 {
        0
    } else if bindings.last().mic_indices@.contains(mic) {
        bindings.last().config.sample_rate
    } else {
        discovered_rate(bindings.drop_last(), mic)
    }
}

/// The discovered input rates of microphones `0` to `mic_count - 1`.
pub open spec fn discovered_rates(bindings: Seq<DeviceBinding>, mic_count: nat) -> Seq<u32> {
    Seq::new(mic_count, |i: int| discovered_rate(bindings, i as usize))
}

/// The names of the configured microphones, by index.
pub open spec fn names_of<S>(options: Seq<MicrophoneOptions<S>>) -> Seq<String> {
    Seq::new(options.len(), |i: int| options[i].name)
}

/// The input rate of each of `mic_count` microphones as the bindings tell
/// it. A microphone that no device carries has rate 0.
pub fn input_sample_rates(bindings: &Vec<DeviceBinding>, mic_count: usize) -> (rates: Vec<u32>)
    ensures
        rates@ == discovered_rates(bindings@, mic_count as nat),
{
    let mut rates: Vec<u32> = make_silent_frame(mic_count, 0u32);
    let mut b: usize = 0;
    assert(bindings@.take(0).len() == 0);
    while b < bindings.len()
        invariant
            b <= bindings.len(),
            rates.len() == mic_count,
            forall|i: int|
                0 <= i < mic_count ==> #[trigger] rates[i] == discovered_rate(
                    bindings@.take(b as int),
                    i as usize,
                ),
        decreases bindings.len() - b,
    {
        let binding = &bindings[b];
        let sample_rate = binding.config.sample_rate;
        let ghost earlier = bindings@.take(b as int);
        let mut j: usize = 0;
        while j < binding.mic_indices.len()
            invariant
                j <= binding.mic_indices.len(),
                rates.len() == mic_count,
                sample_rate == binding.config.sample_rate,
                forall|i: int|
                    0 <= i < mic_count ==> #[trigger] rates[i] == (if binding.mic_indices@.take(
                        j as int,
                    ).contains(i as usize) {
                        sample_rate
                    } else {
                        discovered_rate(earlier, i as usize)
                    }),
            decreases binding.mic_indices.len() - j,
        {
            let index = binding.mic_indices[j];
            let ghost before = rates@;
            if index < rates.len() {
                rates.set(index, sample_rate);
            }
            proof {
                let shorter = binding.mic_indices@.take(j as int);
                let longer = binding.mic_indices@.take(j + 1);
                assert(longer =~= shorter.push(index));
                assert forall|i: int| 0 <= i < mic_count implies #[trigger] rates[i] == (
                if longer.contains(i as usize) {
                    sample_rate
                } else {
                    discovered_rate(earlier, i as usize)
                }) by {
                    if i == index {
                        assert(longer[j as int] == i as usize);
                    } else if shorter.contains(i as usize) {
                        let k = choose|k: int| 0 <= k < shorter.len() && shorter[k] == i as usize;
                        assert(longer[k] == i as usize);
                    } else {
                        if longer.contains(i as usize) {
                            let k = choose|k: int| 0 <= k < longer.len() && longer[k] == i as usize;
                            if k < j {
                                assert(shorter[k] == i as usize);
                            }
                        }
                        assert(rates[i] == before[i]);
                    }
                }
            }
            j += 1;
        }
        proof {
            assert(binding.mic_indices@.take(binding.mic_indices.len() as int)
                =~= binding.mic_indices@);
            let longer = bindings@.take(b + 1);
            assert(longer.last() == bindings@[b as int]);
            assert(longer.drop_last() =~= earlier);
        }
        b += 1;
    }
    assert(bindings@.take(bindings.len() as int) =~= bindings@);
    assert(rates@ =~= discovered_rates(bindings@, mic_count as nat));
    rates
}

/// The names of the configured microphones, by index.
pub fn microphone_names<S>(options: &Vec<MicrophoneOptions<S>>) -> (names: Vec<String>)
    ensures
        names@ == names_of(options@),
{
    let mut names: Vec<String> = Vec::with_capacity(options.len());
    let mut i: usize = 0;
    while i < options.len()
        invariant
            i <= options.len(),
            names.len() == i,
            forall|k: int| 0 <= k < i ==> #[trigger] names[k] == options[k].name,
        decreases options.len() - i,
    {
        names.push(options[i].name.clone());
        i += 1;
    }
    assert(names@ =~= names_of(options@));
    names
}

/// Some retained device carries microphone `mic`: it has the microphone's
/// name, and a default input format.
pub open spec fn is_carried(devices: Seq<InputDevice>, mic_names: Seq<String>, mic: int) -> bool {
    &&& 0 <= mic < mic_names.len()
    &&& exists|d: int|
        0 <= d < devices.len() && is_retained(#[trigger] devices[d], mic_names)
            && devices[d].name->Ok_0@ == mic_names[mic]@
}

/// The indices under which the analysis handles of a session are
/// registered: one handle for every microphone of every capture stream.
pub open spec fn registered_indices<S>(streams: Seq<InputStream<S>>) -> Set<usize> {
    Set::new(
        |index: usize|
            exists|d: int, k: int|
                0 <= d < streams.len() && 0 <= k < streams[d].routes.len() && (
                #[trigger] streams[d].routes[k]).index == index,
    )
}

/// A session registers an analysis handle for exactly the microphones that
/// some retained device carries, each under its own index. So where every
/// one of `n` configured microphones is carried, the handles are registered
/// under the indices `0` to `n - 1`, no more and no less.
pub proof fn lemma_registered_microphones<S: Copy, E>(
    streams: Seq<InputStream<S>>,
    bindings: Seq<DeviceBinding>,
    devices: Seq<InputDevice>,
    options: Seq<MicrophoneOptions<S>>,
    samples_per_beat: usize,
    mixer: Option<OutputMixer<S, E>>,
)
    requires
        is_binding_list(bindings, devices, names_of(options), devices.len() as int),
        are_streams_of(streams, bindings, options, samples_per_beat, mixer),
    ensures
        forall|index: usize|
            registered_indices(streams).contains(index) <==> is_carried(
                devices,
                names_of(options),
                index as int,
            ),
        (forall|mic: int| 0 <= mic < options.len() ==> is_carried(devices, names_of(options), mic))
            ==> registered_indices(streams) =~= Set::new(|index: usize| index < options.len()),
{
    let names = names_of(options);
    assert forall|index: usize| registered_indices(streams).contains(index) implies is_carried(
        devices,
        names,
        index as int,
    ) by {
        let (d, k) = choose|d: int, k: int|
            0 <= d < streams.len() && 0 <= k < streams[d].routes.len() && (
            #[trigger] streams[d].routes[k]).index == index;
        assert(is_stream_of(streams[d], bindings[d], options, samples_per_beat, mixer));
        assert(is_route_of(streams[d].routes[k], bindings[d].mic_indices[k], options, mixer));
        assert(binds(bindings[d], devices, names));
        assert(bindings[d].mic_indices@[k] == index);
        assert(is_retained(devices[bindings[d].device as int], names));
    }
    assert forall|index: usize| is_carried(devices, names, index as int) implies registered_indices(
        streams,
    ).contains(index) by {
        let dev = choose|d: int|
            0 <= d < devices.len() && is_retained(#[trigger] devices[d], names)
                && devices[d].name->Ok_0@ == names[index as int]@;
        let b = choose|b: int| 0 <= b < bindings.len() && (#[trigger] bindings[b]).device == dev;
        assert(binds(bindings[b], devices, names));
        assert(names[index as int]@ == devices[dev].name->Ok_0@);
        assert(bindings[b].mic_indices@.contains(index));
        let k = choose|k: int|
            0 <= k < bindings[b].mic_indices@.len() && bindings[b].mic_indices@[k] == index;
        assert(is_stream_of(streams[b], bindings[b], options, samples_per_beat, mixer));
        assert(is_route_of(streams[b].routes[k], bindings[b].mic_indices[k], options, mixer));
        assert(streams[b].routes[k].index == index);
    }
    if forall|mic: int| 0 <= mic < options.len() ==> is_carried(devices, names, mic) {
        let all = Set::new(|index: usize| index < options.len());
        assert forall|index: usize| registered_indices(streams).contains(index) <==> all.contains(
            index,
        ) by {
            if index < options.len() {
                assert(is_carried(devices, names, index as int));
            }
        }
    }
}

/// The registry after the handles of the first `upto` streams were
/// registered, stream by stream.
pub open spec fn registry_after<H>(
    before: Map<usize, H>,
    handles: Seq<Seq<(usize, H)>>,
    upto: int,
) -> Map<usize, H>
    decreases upto,
{
    if upto <= 0 {
        before
    } else {
        with_handles(
            registry_after(before, handles, upto - 1),
            handles[upto - 1],
            handles[upto - 1].len() as int,
        )
    }
}

/// Registering the handles of streams adds the indices of their routes to
/// the indices that are registered, and takes none away.
pub proof fn lemma_registry_after<S, H, N: Fn(&MicrophoneOptions<S>, u32, usize) -> H>(
    before: Map<usize, H>,
    handles: Seq<Seq<(usize, H)>>,
    streams: Seq<InputStream<S>>,
    options: Seq<MicrophoneOptions<S>>,
    make: N,
    upto: int,
)
    requires
        0 <= upto <= streams.len(),
        handles.len() == streams.len(),
        forall|d: int|
            0 <= d < streams.len() ==> are_handles_of(#[trigger] handles[d], streams[d], options, make),
    ensures
        forall|index: usize|
            #![trigger registry_after(before, handles, upto).contains_key(index)]
            registry_after(before, handles, upto).contains_key(index) <==> (before.contains_key(
                index,
            ) || registered_indices(streams.take(upto)).contains(index)),
    decreases upto,
{
    if upto > 0 {
        lemma_registry_after(before, handles, streams, options, make, upto - 1);
        let earlier = registry_after(before, handles, upto - 1);
        let last = handles[upto - 1];
        lemma_registered_indices(earlier, last, last.len() as int);
        assert(are_handles_of(last, streams[upto - 1], options, make));
        assert(registry_after(before, handles, upto) == with_handles(
            earlier,
            last,
            last.len() as int,
        ));
        assert forall|index: usize|
            #![trigger registry_after(before, handles, upto).contains_key(index)]
            registry_after(before, handles, upto).contains_key(index) <==> (before.contains_key(
                index,
            ) || registered_indices(streams.take(upto)).contains(index)) by {
            let shorter = streams.take(upto - 1);
            let longer = streams.take(upto);
            let in_longer = registered_indices(longer).contains(index);
            let in_shorter = registered_indices(shorter).contains(index);
            let in_last = exists|k: int| 0 <= k < last.len() && (#[trigger] last[k]).0 == index;
            assert(longer[upto - 1] == streams[upto - 1]);
            assert(last.len() == streams[upto - 1].routes.len());
            assert(in_longer ==> in_shorter || in_last) by {
                if in_longer {
                    let (d, k) = choose|d: int, k: int|
                        0 <= d < longer.len() && 0 <= k < longer[d].routes.len() && (
                        #[trigger] longer[d].routes[k]).index == index;
                    if d < upto - 1 {
                        assert(shorter[d] == longer[d]);
                        assert(shorter[d].routes[k].index == index);
                    } else {
                        assert(last[k].0 == streams[upto - 1].routes[k].index);
                    }
                }
            }
            assert(in_shorter ==> in_longer) by {
                if in_shorter {
                    let (d, k) = choose|d: int, k: int|
                        0 <= d < shorter.len() && 0 <= k < shorter[d].routes.len() && (
                        #[trigger] shorter[d].routes[k]).index == index;
                    assert(shorter[d] == longer[d]);
                    assert(longer[d].routes[k].index == index);
                }
            }
            assert(in_last ==> in_longer) by {
                if in_last {
                    let k = choose|k: int| 0 <= k < last.len() && (#[trigger] last[k]).0 == index;
                    assert(last[k].0 == streams[upto - 1].routes[k].index);
                    assert(longer[upto - 1].routes[k].index == index);
                }
            }
            assert(with_handles(earlier, last, last.len() as int).contains_key(index) <==> (
            earlier.contains_key(index) || in_last));
        }
    } else {
        assert(streams.take(0).len() == 0);
    }
}

/// What is registered after the first `upto` streams does not depend on
/// the streams that follow.
pub proof fn lemma_registry_after_prefix<H>(
    before: Map<usize, H>,
    handles: Seq<Seq<(usize, H)>>,
    longer: Seq<Seq<(usize, H)>>,
    upto: int,
)
    requires
        0 <= upto <= handles.len() <= longer.len(),
        forall|d: int| 0 <= d < handles.len() ==> #[trigger] longer[d] == handles[d],
    ensures
        registry_after(before, longer, upto) == registry_after(before, handles, upto),
    decreases upto,
{
    if upto > 0 {
        lemma_registry_after_prefix(before, handles, longer, upto - 1);
        assert(longer[upto - 1] == handles[upto - 1]);
    }
}

/// `copies` are copies of `handles`: as many, under the same indices, each
/// a clone of the handle it stands for.
pub open spec fn are_copies<H: Clone>(copies: Seq<(usize, H)>, handles: Seq<(usize, H)>) -> bool {
    &&& copies.len() == handles.len()
    &&& forall|k: int|
        0 <= k < copies.len() ==> (#[trigger] copies[k]).0 == handles[k].0 && cloned(
            handles[k].1,
            copies[k].1,
        )
}

/// `handles` are the analysis handles of `streams`, stream by stream.
pub open spec fn are_all_handles_of<S, H, N: Fn(&MicrophoneOptions<S>, u32, usize) -> H>(
    handles: Seq<Seq<(usize, H)>>,
    streams: Seq<InputStream<S>>,
    options: Seq<MicrophoneOptions<S>>,
    make: N,
) -> bool {
    &&& handles.len() == streams.len()
    &&& forall|d: int|
        0 <= d < streams.len() ==> are_handles_of(#[trigger] handles[d], streams[d], options, make)
}

/// Makes the analysis handles of all capture streams and registers them,
/// stream by stream and route by route, each under its microphone's index.
/// This is to be done before any stream starts, so that every handle is
/// registered before the first callback.
///
/// Returns, for each stream, a copy of each of its handles, for the
/// stream's callback to feed.
pub fn register_streams<S: Copy, H: Clone, N: Fn(&MicrophoneOptions<S>, u32, usize) -> H>(
    streams: &Vec<InputStream<S>>,
    options: &Vec<MicrophoneOptions<S>>,
    registry: &mut HashMap<usize, H>,
    make: &N,
) -> (shared: Vec<Vec<(usize, H)>>)
    requires
        forall|d: int, k: int|
            0 <= d < streams.len() && 0 <= k < streams[d].routes.len() ==> (
            #[trigger] streams[d].routes[k]).index < options.len(),
        forall|option: &MicrophoneOptions<S>, rate: u32, unit: usize|
            call_requires(*make, (option, rate, unit)),
    ensures
        shared.len() == streams.len(),
        exists|handles: Seq<Seq<(usize, H)>>|
            {
                &&& #[trigger] are_all_handles_of(handles, streams@, options@, *make)
                &&& final(registry)@ == registry_after(
                    old(registry)@,
                    handles,
                    streams.len() as int,
                )
                &&& forall|d: int|
                    0 <= d < shared.len() ==> are_copies((#[trigger] shared[d])@, handles[d])
            },
{
    let mut shared: Vec<Vec<(usize, H)>> = Vec::with_capacity(streams.len());
    let ghost mut handles: Seq<Seq<(usize, H)>> = Seq::empty();
    let mut d: usize = 0;
    while d < streams.len()
        invariant
            forall|e: int, k: int|
                0 <= e < streams.len() && 0 <= k < streams[e].routes.len() ==> (
                #[trigger] streams[e].routes[k]).index < options.len(),
            forall|option: &MicrophoneOptions<S>, rate: u32, unit: usize|
                call_requires(*make, (option, rate, unit)),
            d <= streams.len(),
            shared.len() == d,
            handles.len() == d,
            forall|e: int|
                0 <= e < d ==> are_handles_of(#[trigger] handles[e], streams[e], options@, *make),
            forall|e: int| 0 <= e < d ==> are_copies((#[trigger] shared[e])@, handles[e]),
            registry@ == registry_after(old(registry)@, handles, d as int),
        decreases streams.len() - d,
    {
        let stream = &streams[d];
        assert forall|k: int| 0 <= k < stream.routes.len() implies (
        #[trigger] stream.routes[k]).index < options.len() by {
            assert(streams[d as int].routes[k].index < options.len());
        }
        let made = stream.analysis_handles(options, make);
        let mut copies: Vec<(usize, H)> = Vec::with_capacity(made.len());
        let mut k: usize = 0;
        while k < made.len()
            invariant
                k <= made.len(),
                copies.len() == k,
                forall|j: int|
                    0 <= j < k ==> (#[trigger] copies[j]).0 == made[j].0 && cloned(
                        made[j].1,
                        copies[j].1,
                    ),
            decreases made.len() - k,
        {
            let copy = made[k].1.clone();
            copies.push((made[k].0, copy));
            k += 1;
        }
        let ghost earlier = handles;
        let ghost earlier_shared = shared@;
        let ghost these = made@;
        register(registry, made);
        shared.push(copies);
        proof {
            handles = earlier.push(these);
            lemma_registry_after_prefix(old(registry)@, earlier, handles, d as int);
            assert(handles[d as int] == these);
            assert forall|e: int| 0 <= e < d + 1 implies are_handles_of(
                #[trigger] handles[e],
                streams[e],
                options@,
                *make,
            ) by {
                if e < d {
                    assert(handles[e] == earlier[e]);
                }
            }
            assert forall|e: int| 0 <= e < d + 1 implies are_copies(
                (#[trigger] shared[e])@,
                handles[e],
            ) by {
                if e < d {
                    assert(shared[e] == earlier_shared[e]);
                    assert(handles[e] == earlier[e]);
                }
            }
        }
        d += 1;
    }
    assert(are_all_handles_of(handles, streams@, options@, *make));
    shared
}

/// Starting a session with an empty registry, for `n` configured
/// microphones that are all carried by some retained device, registers
/// exactly `n` analysis handles, under the indices `0` to `n - 1`.
pub proof fn lemma_session_registers_all<S: Copy, E, H, N: Fn(&MicrophoneOptions<S>, u32, usize) -> H>(
    handles: Seq<Seq<(usize, H)>>,
    streams: Seq<InputStream<S>>,
    bindings: Seq<DeviceBinding>,
    devices: Seq<InputDevice>,
    options: Seq<MicrophoneOptions<S>>,
    samples_per_beat: usize,
    mixer: Option<OutputMixer<S, E>>,
    make: N,
)
    requires
        is_binding_list(bindings, devices, names_of(options), devices.len() as int),
        are_streams_of(streams, bindings, options, samples_per_beat, mixer),
        handles.len() == streams.len(),
        forall|d: int|
            0 <= d < streams.len() ==> are_handles_of(#[trigger] handles[d], streams[d], options, make),
        forall|mic: int| 0 <= mic < options.len() ==> is_carried(devices, names_of(options), mic),
        options.len() <= usize::MAX,
    ensures
        registry_after(Map::<usize, H>::empty(), handles, streams.len() as int).dom()
            =~= Set::new(|index: usize| index < options.len()),
        registry_after(Map::<usize, H>::empty(), handles, streams.len() as int).dom().len()
            == options.len(),
{
    let registry = registry_after(Map::<usize, H>::empty(), handles, streams.len() as int);
    lemma_registry_after(
        Map::<usize, H>::empty(),
        handles,
        streams,
        options,
        make,
        streams.len() as int,
    );
    assert(streams.take(streams.len() as int) =~= streams);
    lemma_registered_microphones(streams, bindings, devices, options, samples_per_beat, mixer);
    let all = Set::new(|index: usize| index < options.len());
    assert forall|index: usize| registry.dom().contains(index) <==> all.contains(index) by {
        assert(registry.contains_key(index) <==> registered_indices(streams).contains(index));
        assert(registered_indices(streams).contains(index) <==> is_carried(
            devices,
            names_of(options),
            index as int,
        ));
        if index < options.len() {
            assert(is_carried(devices, names_of(options), index as int));
        }
    }
    assert(registry.dom() =~= all);
    lemma_indices_below(options.len());
}

/// There are `n` indices below `n`.
pub proof fn lemma_indices_below(n: nat)
    requires
        n <= usize::MAX,
    ensures
        Set::new(|index: usize| index < n).finite(),
        Set::new(|index: usize| index < n).len() == n,
    decreases n,
{
    let all = Set::new(|index: usize| index < n);
    if n == 0 {
        assert(all =~= Set::<usize>::empty());
    } else {
        let fewer = Set::new(|index: usize| index < n - 1);
        lemma_indices_below((n - 1) as nat);
        assert(all =~= fewer.insert((n - 1) as usize));
    }
}

/// No binding that does not list a microphone tells its rate.
pub proof fn lemma_rate_of_unlisted(bindings: Seq<DeviceBinding>, mic: usize)
    requires
        forall|b: int| 0 <= b < bindings.len() ==> !(#[trigger] bindings[b]).mic_indices@.contains(mic),
    ensures
        discovered_rate(bindings, mic) == 0,
    decreases bindings.len(),
{
    if bindings.len() > 0 {
        assert(!bindings[bindings.len() - 1].mic_indices@.contains(mic));
        let shorter = bindings.drop_last();
        assert forall|b: int| 0 <= b < shorter.len() implies !(
        #[trigger] shorter[b]).mic_indices@.contains(mic) by {
            assert(shorter[b] == bindings[b]);
        }
        lemma_rate_of_unlisted(shorter, mic);
    }
}

/// A configured microphone that no retained device carries keeps its index
/// and is silent: its discovered input rate is 0, and no capture stream has
/// a route for it, so that nothing is ever offered to its queue.
pub proof fn lemma_unmatched_microphone<S: Copy, E>(
    streams: Seq<InputStream<S>>,
    bindings: Seq<DeviceBinding>,
    devices: Seq<InputDevice>,
    options: Seq<MicrophoneOptions<S>>,
    samples_per_beat: usize,
    mixer: Option<OutputMixer<S, E>>,
    mic: usize,
)
    requires
        is_binding_list(bindings, devices, names_of(options), devices.len() as int),
        are_streams_of(streams, bindings, options, samples_per_beat, mixer),
        mic < options.len(),
        !is_carried(devices, names_of(options), mic as int),
    ensures
        discovered_rates(bindings, options.len())[mic as int] == 0,
        !registered_indices(streams).contains(mic),
{
    let names = names_of(options);
    lemma_registered_microphones(streams, bindings, devices, options, samples_per_beat, mixer);
    assert forall|b: int| 0 <= b < bindings.len() implies !(
    #[trigger] bindings[b]).mic_indices@.contains(mic) by {
        if bindings[b].mic_indices@.contains(mic) {
            let k = choose|k: int|
                0 <= k < bindings[b].mic_indices@.len() && bindings[b].mic_indices@[k] == mic;
            assert(binds(bindings[b], devices, names));
            assert(is_retained(devices[bindings[b].device as int], names));
            assert(names[mic as int]@ == devices[bindings[b].device as int].name->Ok_0@);
            assert(is_carried(devices, names, mic as int));
        }
    }
    lemma_rate_of_unlisted(bindings, mic);
}

/// One recording session, set up and ready to run: the capture streams of
/// all devices that carry a configured microphone and, if monitoring is
/// enabled, the playing side of the mixdown.
#[verifier::reject_recursive_types(S)]
pub struct Recorder<S, E> {
    /// The devices that carry a configured microphone.
    pub bindings: Vec<DeviceBinding>,
    /// One capture stream per binding, in the same order.
    pub input_streams: Vec<InputStream<S>>,
    /// The discovered input rate of every microphone, if monitoring is
    /// enabled; empty otherwise.
    pub input_sample_rates: Vec<u32>,
    /// The playing side of the mixdown, if monitoring is enabled.
    pub output_stream: Option<OutputStream<S, E>>,
}

impl<S: Copy, E> Recorder<S, E> {
    /// The playing side of the session is that of `mixer`: it drains the
    /// consumer ends of the queues whose producer ends the mixer hands to
    /// the capture side, and holds the mixer's converters.
    pub open spec fn plays(self, mixer: OutputMixer<S, E>) -> bool {
        &&& self.output_stream is Some
        &&& self.output_stream->0.consumers() == mixer.consumers()
        &&& self.output_stream->0.resamplers() == mixer.resamplers()
    }

    /// The session is the one that the host's devices, the microphone
    /// options and the monitoring settings call for: its capture streams
    /// and its playing side are the two sides of one mixer.
    pub open spec fn is_session_of<F: Fn(u32, u32) -> Result<E, String>, B: FnOnce(S) -> S>(
        self,
        manager: DeviceManager,
        options: Seq<MicrophoneOptions<S>>,
        samples_per_beat: usize,
        playback_enabled: bool,
        playback_volume: S,
        make: F,
        bound: B,
    ) -> bool {
        &&& manager.inputs is Ok
        &&& all_named(manager.inputs->Ok_0@)
        &&& is_binding_list(
            self.bindings@,
            manager.inputs->Ok_0@,
            names_of(options),
            manager.inputs->Ok_0.len() as int,
        )
        &&& exists|mixer: Option<OutputMixer<S, E>>|
            {
                &&& mixer is Some <==> playback_enabled
                &&& mixer is Some ==> mixer->0.mic_count() == options.len()
                &&& #[trigger] are_streams_of(
                    self.input_streams@,
                    self.bindings@,
                    options,
                    samples_per_beat,
                    mixer,
                )
                &&& mixer is Some ==> self.plays(mixer->0)
            }
        &&& if playback_enabled {
            &&& self.input_sample_rates@ == discovered_rates(self.bindings@, options.len())
            &&& manager.output is Ready
            &&& self.output_stream is Some
            &&& self.output_stream->0.channels() == manager.output->Ready_0.channels
            &&& call_ensures(bound, (playback_volume,), self.output_stream->0.volume())
            &&& self.output_stream->0.consumers().len() == options.len()
            &&& is_resampler_list(
                self.output_stream->0.resamplers(),
                self.input_sample_rates@,
                manager.output->Ready_0.sample_rate,
                make,
            )
        } else {
            &&& self.input_sample_rates.len() == 0
            &&& self.output_stream is None
        }
    }

    /// Sets a session up: finds the devices that carry the configured
    /// microphones; if monitoring is enabled, works out each microphone's
    /// input rate, asks for the output format and builds the mixer; binds
    /// the capture streams; and, if monitoring is enabled, turns the mixer
    /// into the playing side of the output stream.
    ///
    /// Fails, with nothing set up, if discovery fails; or, with monitoring
    /// enabled, if there is no output format or a converter's engine cannot
    /// be created.
    pub fn new<F: Fn(u32, u32) -> Result<E, String>, B: FnOnce(S) -> S>(
        manager: &DeviceManager,
        options: &Vec<MicrophoneOptions<S>>,
        samples_per_beat: usize,
        playback_enabled: bool,
        playback_volume: S,
        make: &F,
        bound: B,
    ) -> (session: Result<Self, AppError>)
        requires
            playback_enabled && manager.output is Ready ==> manager.output->Ready_0.channels > 0,
            forall|input_rate: u32, output_rate: u32|
                call_requires(*make, (input_rate, output_rate)),
            call_requires(bound, (playback_volume,)),
        ensures
            match session {
                Ok(recorder) => recorder.is_session_of(
                    *manager,
                    options@,
                    samples_per_beat,
                    playback_enabled,
                    playback_volume,
                    *make,
                    bound,
                ),
                Err(error) => {
                    ||| {
                        &&& !(manager.inputs is Ok && all_named(manager.inputs->Ok_0@))
                        &&& is_discovery_error(manager.inputs, error)
                    }
                    ||| {
                        &&& manager.inputs is Ok && all_named(manager.inputs->Ok_0@)
                        &&& playback_enabled
                        &&& is_output_error(manager.output, error)
                    }
                    ||| {
                        &&& manager.inputs is Ok && all_named(manager.inputs->Ok_0@)
                        &&& playback_enabled
                        &&& manager.output is Ready
                        &&& exists|bindings: Seq<DeviceBinding>|
                            {
                                &&& #[trigger] is_binding_list(
                                    bindings,
                                    manager.inputs->Ok_0@,
                                    names_of(options@),
                                    manager.inputs->Ok_0.len() as int,
                                )
                                &&& is_creation_error(
                                    error,
                                    discovered_rates(bindings, options.len() as nat),
                                    manager.output->Ready_0.sample_rate,
                                    *make,
                                )
                            }
                    }
                },
            },
    {
        let mic_names = microphone_names(options);
        let bindings = match manager.find_input_devices(&mic_names) {
            Ok(bindings) => bindings,
            Err(error) => {
                return Err(error);
            },
        };
        proof {
            let devices = manager.inputs->Ok_0@;
            assert forall|d: int, k: int|
                0 <= d < bindings.len() && 0 <= k < bindings[d].mic_indices.len()
                    implies #[trigger] bindings[d].mic_indices[k] < options.len() by {
                assert(binds(bindings@[d], devices, mic_names@));
            }
        }
        if playback_enabled {
            let rates = input_sample_rates(&bindings, options.len());
            let format = match manager.get_output_config() {
                Ok(format) => format,
                Err(error) => {
                    return Err(error);
                },
            };
            let mixer = match OutputMixer::new(options.len(), &rates, format.sample_rate, make) {
                Ok(mixer) => mixer,
                Err(error) => {
                    return Err(error);
                },
            };
            let input_streams = InputStreamManager::setup_input_streams(
                &bindings,
                options,
                samples_per_beat,
                Some(&mixer),
            );
            let ghost seen = Some(mixer);
            let output_stream = mixer.create_output_stream(format, playback_volume, bound);
            let recorder = Recorder {
                bindings,
                input_streams,
                input_sample_rates: rates,
                output_stream: Some(output_stream),
            };
            proof {
                assert(are_streams_of(
                    recorder.input_streams@,
                    recorder.bindings@,
                    options@,
                    samples_per_beat,
                    seen,
                ));
                assert(recorder.plays(seen->0));
            }
            Ok(recorder)
        } else {
            let input_streams = InputStreamManager::setup_input_streams(
                &bindings,
                options,
                samples_per_beat,
                None::<&OutputMixer<S, E>>,
            );
            let recorder = Recorder {
                bindings,
                input_streams,
                input_sample_rates: Vec::new(),
                output_stream: None,
            };
            proof {
                let absent = None::<OutputMixer<S, E>>;
                assert(are_streams_of(
                    recorder.input_streams@,
                    recorder.bindings@,
                    options@,
                    samples_per_beat,
                    absent,
                ));
            }
            Ok(recorder)
        }
    }

    /// How the worker of a session ends once its wait for the stop signal
    /// is over: well if the signal came, and with an error if the channel
    /// broke before it did.
    pub fn finish(stop_received: bool) -> (end: Result<(), AppError>)
        ensures
            stop_received ==> end is Ok,
            !stop_received ==> end is Err && end->Err_0 is RecorderError
                && end->Err_0.message()@ == "Stop channel closed"@,
    {
        if stop_received {
            Ok(())
        } else {
            Err(AppError::RecorderError("Stop channel closed".to_string()))
        }
    }
}

} // verus!
