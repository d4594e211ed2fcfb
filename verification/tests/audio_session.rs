use karaoke_core::audio::device::DeviceBinding;
use karaoke_core::audio::device::DeviceManager;
use karaoke_core::audio::device::InputDevice;
use karaoke_core::audio::device::OutputDevice;
use karaoke_core::audio::input::InputStreamManager;
use karaoke_core::audio::output::collect_frames;
use karaoke_core::audio::output::render;
use karaoke_core::audio::output::OutputMixer;
use karaoke_core::audio::recorder::register_streams;
use karaoke_core::audio::recorder::Recorder;
use karaoke_core::audio::registry::get_handle;
use karaoke_core::audio::registry::register;
use karaoke_core::audio::resampler::create_resamplers;
use karaoke_core::audio::resampler::AudioResampler;
use karaoke_core::audio::resampler::Conversion;
use karaoke_core::audio::types::MicrophoneOptions;
use karaoke_core::audio::types::StreamFormat;
use karaoke_core::audio::types::DEFAULT_BUFFER_SIZE;
use karaoke_core::error::AppError;
use rubato::Resampler;
use rubato::SincFixedIn;
use rubato::SincInterpolationParameters;
use rubato::SincInterpolationType;
use rubato::WindowFunction;
use std::sync::Mutex;

type Engine = Mutex<SincFixedIn<f32>>;

fn limit(s: f32) -> f32 {
    s.clamp(-1.0, 1.0)
}

fn scale(s: f32, f: f32) -> f32 {
    s * f
}

fn mix(a: f32, b: f32) -> f32 {
    a + b
}

fn bound(v: f32) -> f32 {
    v.clamp(0.0, 1.0)
}

fn make_sinc(input_rate: u32, output_rate: u32) -> Result<Engine, String> {
    let params = SincInterpolationParameters {
        sinc_len: 256,
        f_cutoff: 0.95,
        window: WindowFunction::BlackmanHarris2,
        oversampling_factor: 256,
        interpolation: SincInterpolationType::Linear,
    };
    SincFixedIn::<f32>::new(output_rate as f64 / input_rate as f64, 2.0, params, 1024, 1)
        .map(Mutex::new)
        .map_err(|e| e.to_string())
}

fn run_sinc(engine: &Engine, window: &Vec<f32>) -> Conversion<f32> {
    match engine.lock() {
        Ok(mut resampler) => match resampler.process(&[window.as_slice()], None) {
            Ok(output) => match output.first() {
                Some(channel) => Conversion::Converted(channel.clone()),
                None => Conversion::NoChannel,
            },
            Err(_) => Conversion::Failed,
        },
        Err(_) => Conversion::Failed,
    }
}

fn no_engine(_input_rate: u32, _output_rate: u32) -> Result<(), String> {
    Ok(())
}

fn broken_engine(_input_rate: u32, _output_rate: u32) -> Result<(), String> {
    Err("no such ratio".to_string())
}

fn halve(_engine: &(), window: &Vec<f32>) -> Conversion<f32> {
    Conversion::Converted(window.iter().step_by(2).copied().collect())
}

fn option(name: &str, channel: i32, gain: f32) -> MicrophoneOptions<f32> {
    MicrophoneOptions { name: name.to_string(), channel, gain, threshold: 2.0 }
}

fn device(name: &str, channels: u16, sample_rate: u32) -> InputDevice {
    InputDevice { name: Ok(name.to_string()), config: Some(StreamFormat { channels, sample_rate }) }
}

fn stereo(sample_rate: u32) -> StreamFormat {
    StreamFormat { channels: 2, sample_rate }
}

#[test]
fn equal_rates_need_no_converter() {
    let made = AudioResampler::new(48000, 48000, &broken_engine).unwrap();
    assert!(made.is_none());
}

#[test]
fn different_rates_get_a_converter() {
    let made = AudioResampler::new(44100, 48000, &no_engine).unwrap().unwrap();
    assert_eq!(made.get_input_rate(), 44100);
    assert_eq!(made.get_output_rate(), 48000);
}

#[test]
fn failing_engine_fails_the_converter() {
    let error = AudioResampler::new(44100, 48000, &broken_engine).err().unwrap();
    assert_eq!(
        error,
        AppError::CpalError("Failed to create resampler: no such ratio".to_string())
    );
}

#[test]
fn converters_exist_exactly_where_rates_differ() {
    let made = create_resamplers(&vec![44100, 48000, 0, 48000], 48000, &no_engine).unwrap();
    let present: Vec<bool> = made.iter().map(|slot| slot.is_some()).collect();
    assert_eq!(present, vec![true, false, true, false]);
    assert!(create_resamplers(&Vec::new(), 48000, &no_engine).unwrap().is_empty());
}

#[test]
fn all_rates_equal_create_no_converter_state() {
    let made = create_resamplers(&vec![48000, 48000], 48000, &broken_engine).unwrap();
    assert!(made.iter().all(|slot| slot.is_none()));
}

#[test]
fn one_failing_engine_fails_all_converters() {
    let error = create_resamplers(&vec![48000, 44100], 48000, &broken_engine).err().unwrap();
    assert_eq!(
        error,
        AppError::CpalError("Failed to create resampler: no such ratio".to_string())
    );
}

#[test]
fn finish_handles_every_outcome() {
    let window = vec![1.0f32, 2.0, 3.0];
    let converted = Conversion::Converted(vec![4.0f32, 5.0]);
    assert_eq!(AudioResampler::<()>::finish(&window, converted, 3, 0.0), vec![4.0, 5.0, 0.0]);
    let long = Conversion::Converted(vec![4.0f32, 5.0, 6.0, 7.0]);
    assert_eq!(AudioResampler::<()>::finish(&window, long, 3, 0.0), vec![4.0, 5.0, 6.0]);
    assert_eq!(
        AudioResampler::<()>::finish(&window, Conversion::NoChannel, 2, 0.0),
        vec![0.0, 0.0]
    );
    assert_eq!(
        AudioResampler::<()>::finish(&window, Conversion::Failed, 4, 0.0),
        vec![1.0, 2.0, 3.0, 0.0]
    );
    assert_eq!(AudioResampler::<()>::finish(&window, Conversion::Failed, 2, 0.0), vec![1.0, 2.0]);
}

#[test]
fn finish_of_an_empty_window_is_silence() {
    let empty = Vec::<f32>::new();
    let converted = Conversion::Converted(vec![4.0f32, 5.0]);
    assert_eq!(AudioResampler::<()>::finish(&empty, converted, 2, 0.0), vec![0.0, 0.0]);
    assert_eq!(AudioResampler::<()>::finish(&empty, Conversion::Failed, 1, 0.0), vec![0.0]);
}

#[test]
fn producer_exists_for_each_microphone_only() {
    let mixer = OutputMixer::<f32, ()>::new(2, &vec![48000, 48000], 48000, &no_engine).unwrap();
    assert!(mixer.get_producer(0).is_some());
    assert!(mixer.get_producer(1).is_some());
    assert!(mixer.get_producer(2).is_none());
    assert!(mixer.get_producer(usize::MAX).is_none());
}

#[test]
fn mixer_fails_when_an_engine_cannot_be_created() {
    let error = OutputMixer::<f32, ()>::new(1, &vec![44100], 48000, &broken_engine).err().unwrap();
    assert_eq!(
        error,
        AppError::CpalError("Failed to create resampler: no such ratio".to_string())
    );
}

#[test]
fn overflow_drops_the_excess_without_error() {
    let mixer = OutputMixer::<f32, ()>::new(1, &vec![48000], 48000, &no_engine).unwrap();
    let producer = mixer.get_producer(0).unwrap();
    let samples: Vec<f32> = (0..5000).map(|i| i as f32).collect();
    assert_eq!(producer.offer(&samples), DEFAULT_BUFFER_SIZE);
    assert_eq!(producer.offer(&samples), 0);
    let stream = mixer.create_output_stream(
        StreamFormat { channels: 1, sample_rate: 48000 },
        1.0,
        bound,
    );
    let mut data = vec![0.0f32; 5000];
    let keep = |s: f32| s;
    stream.fill(&mut data, 0.0, &halve, &mix, &keep, &scale);
    assert_eq!(&data[..DEFAULT_BUFFER_SIZE], &samples[..DEFAULT_BUFFER_SIZE]);
    assert!(data[DEFAULT_BUFFER_SIZE..].iter().all(|s| *s == 0.0));
    assert_eq!(producer.offer(&samples[..10].to_vec()), 10);
}

#[test]
fn queued_samples_come_out_in_order_and_underrun_is_silence() {
    let mixer = OutputMixer::<f32, ()>::new(1, &vec![48000], 48000, &no_engine).unwrap();
    let producer = mixer.get_producer(0).unwrap();
    assert_eq!(producer.offer(&vec![0.1, 0.2, 0.3]), 3);
    let stream = mixer.create_output_stream(stereo(48000), 1.0, bound);
    let mut first = [9.0f32; 4];
    stream.fill(&mut first, 0.0, &halve, &mix, &limit, &scale);
    assert_eq!(first, [0.1, 0.1, 0.2, 0.2]);
    let mut second = [9.0f32; 4];
    stream.fill(&mut second, 0.0, &halve, &mix, &limit, &scale);
    assert_eq!(second, [0.3, 0.3, 0.0, 0.0]);
    let mut third = [9.0f32; 4];
    stream.fill(&mut third, 0.0, &halve, &mix, &limit, &scale);
    assert_eq!(third, [0.0, 0.0, 0.0, 0.0]);
}

#[test]
fn converted_microphone_goes_through_its_engine() {
    let mixer = OutputMixer::<f32, ()>::new(1, &vec![96000], 48000, &no_engine).unwrap();
    let producer = mixer.get_producer(0).unwrap();
    assert_eq!(producer.offer(&vec![0.1, 0.9, 0.2, 0.9, 0.3, 0.9]), 6);
    let stream = mixer.create_output_stream(
        StreamFormat { channels: 1, sample_rate: 48000 },
        1.0,
        bound,
    );
    let mut data = [9.0f32; 4];
    stream.fill(&mut data, 0.0, &halve, &mix, &limit, &scale);
    assert_eq!(data, [0.1, 0.2, 0.3, 0.0]);
    let mut next = [9.0f32; 4];
    stream.fill(&mut next, 0.0, &halve, &mix, &limit, &scale);
    assert_eq!(next, [0.0, 0.0, 0.0, 0.0]);
}

#[test]
fn collect_takes_one_frame_per_microphone() {
    let frames = collect_frames(&Vec::new(), &Vec::<Option<AudioResampler<()>>>::new(), 4, 0.0f32, &halve);
    assert!(frames.is_empty());
}

#[test]
fn render_mixes_levels_and_spreads() {
    let frames = vec![vec![0.5f32, 0.9], vec![0.25, 0.9]];
    let mut data = [9.0f32; 5];
    render(&frames, &mut data, 2, 0.5, 0.0, &mix, &limit, &scale);
    assert_eq!(data, [0.375, 0.375, 0.5, 0.5, 9.0]);
}

#[test]
fn volume_is_bounded_once_at_stream_creation() {
    let mixer = OutputMixer::<f32, ()>::new(1, &vec![48000], 48000, &no_engine).unwrap();
    let producer = mixer.get_producer(0).unwrap();
    producer.offer(&vec![0.5, -0.5]);
    let stream = mixer.create_output_stream(
        StreamFormat { channels: 1, sample_rate: 48000 },
        7.0,
        bound,
    );
    let mut data = [9.0f32; 2];
    stream.fill(&mut data, 0.0, &halve, &mix, &limit, &scale);
    assert_eq!(data, [0.5, -0.5]);
}

#[test]
fn capture_feeds_analysis_and_monitoring() {
    let mixer = OutputMixer::<f32, ()>::new(2, &vec![48000, 48000], 48000, &no_engine).unwrap();
    let bindings = vec![DeviceBinding { device: 0, config: stereo(48000), mic_indices: vec![0, 1] }];
    let options = vec![option("A", 0, 2.0), option("A", 1, 0.5)];
    let streams = InputStreamManager::setup_input_streams(&bindings, &options, 100, Some(&mixer));
    assert_eq!(streams.len(), 1);
    assert_eq!(streams[0].device, 0);
    assert_eq!(streams[0].config, stereo(48000));
    assert_eq!(streams[0].samples_per_beat, 100);
    assert_eq!(streams[0].routes.len(), 2);
    assert_eq!(streams[0].routes[1].index, 1);
    assert_eq!(streams[0].routes[1].channel, 1);
    assert_eq!(streams[0].routes[1].gain, 0.5);
    let data = [0.25f32, 0.5, 0.75, -1.0];
    let captured = streams[0].capture(&data, true, &limit, &scale);
    assert_eq!(captured.len(), 2);
    assert_eq!(captured[0].index, 0);
    assert_eq!(captured[0].samples, vec![0.25, 0.75]);
    assert_eq!(captured[0].offered, Some(vec![0.5, 1.0]));
    assert_eq!(captured[0].accepted, 2);
    assert_eq!(captured[1].index, 1);
    assert_eq!(captured[1].samples, vec![0.5, -1.0]);
    assert_eq!(captured[1].offered, Some(vec![0.25, -0.5]));
    assert_eq!(captured[1].accepted, 2);
    let stream = mixer.create_output_stream(stereo(48000), 0.8, bound);
    let mut out = [9.0f32; 4];
    stream.fill(&mut out, 0.0, &halve, &mix, &limit, &scale);
    let left = ((0.5f32 + 0.25).clamp(-1.0, 1.0) * 0.8).clamp(-1.0, 1.0);
    let right = ((1.0f32 + -0.5).clamp(-1.0, 1.0) * 0.8).clamp(-1.0, 1.0);
    assert_eq!(out, [left, left, right, right]);
}

#[test]
fn capture_without_monitoring_offers_nothing() {
    let mixer = OutputMixer::<f32, ()>::new(1, &vec![48000], 48000, &no_engine).unwrap();
    let bindings = vec![DeviceBinding { device: 3, config: stereo(48000), mic_indices: vec![0] }];
    let options = vec![option("A", 1, 2.0)];
    let monitored = InputStreamManager::setup_input_streams(&bindings, &options, 1, Some(&mixer));
    let disabled = monitored[0].capture(&[0.1f32, 0.2, 0.3, 0.4], false, &limit, &scale);
    assert_eq!(disabled[0].samples, vec![0.2, 0.4]);
    assert_eq!(disabled[0].offered, None);
    assert_eq!(disabled[0].accepted, 0);
    let unmonitored = InputStreamManager::setup_input_streams(
        &bindings,
        &options,
        1,
        None::<&OutputMixer<f32, ()>>,
    );
    assert!(unmonitored[0].routes[0].producer.is_none());
    let captured = unmonitored[0].capture(&[0.1f32, 0.2, 0.3, 0.4], true, &limit, &scale);
    assert_eq!(captured[0].samples, vec![0.2, 0.4]);
    assert_eq!(captured[0].offered, None);
    assert_eq!(captured[0].accepted, 0);
}

#[test]
fn session_registers_every_carried_microphone_in_order() {
    let manager = DeviceManager::new(
        Ok(vec![device("B", 2, 48000), device("A", 1, 44100)]),
        OutputDevice::Ready(stereo(48000)),
    );
    let options = vec![option("A", 0, 1.0), option("B", 0, 1.0), option("B", 1, 1.0)];
    let session = Recorder::<f32, ()>::new(&manager, &options, 64, true, 0.8, &no_engine, bound)
        .ok()
        .unwrap();
    let mut registered: Vec<usize> = session
        .input_streams
        .iter()
        .flat_map(|stream| stream.routes.iter().map(|route| route.index))
        .collect();
    registered.sort();
    assert_eq!(registered, vec![0, 1, 2]);
    assert_eq!(session.input_sample_rates, vec![44100, 48000, 48000]);
    assert_eq!(session.bindings.len(), 2);
    assert_eq!(session.input_streams[0].device, 0);
    assert_eq!(session.input_streams[0].routes.len(), 2);
    assert_eq!(session.input_streams[1].device, 1);
    assert!(session.output_stream.is_some());
    assert!(session.input_streams.iter().all(|s| s.routes.iter().all(|r| r.producer.is_some())));
}

#[test]
fn unmatched_microphone_keeps_its_index_and_is_silent() {
    let manager =
        DeviceManager::new(Ok(vec![device("A", 1, 48000)]), OutputDevice::Ready(stereo(48000)));
    let options = vec![option("nowhere", 0, 1.0), option("A", 0, 1.0)];
    let session = Recorder::<f32, ()>::new(&manager, &options, 64, true, 1.0, &no_engine, bound)
        .ok()
        .unwrap();
    assert_eq!(session.input_sample_rates, vec![0, 48000]);
    assert_eq!(session.input_streams.len(), 1);
    assert_eq!(session.input_streams[0].routes.len(), 1);
    assert_eq!(session.input_streams[0].routes[0].index, 1);
    let captured = session.input_streams[0].capture(&[0.5f32, 0.25], true, &limit, &scale);
    assert_eq!(captured[0].accepted, 2);
    let stream = session.output_stream.unwrap();
    let mut out = [9.0f32; 4];
    stream.fill(&mut out, 0.0, &halve, &mix, &limit, &scale);
    assert_eq!(out, [0.5, 0.5, 0.25, 0.25]);
}

#[test]
fn session_without_monitoring_has_no_output_side() {
    let manager = DeviceManager::new(Ok(vec![device("A", 1, 48000)]), OutputDevice::Missing);
    let options = vec![option("A", 0, 1.0)];
    let session = Recorder::<f32, ()>::new(&manager, &options, 64, false, 1.0, &broken_engine, bound)
        .ok()
        .unwrap();
    assert!(session.output_stream.is_none());
    assert!(session.input_sample_rates.is_empty());
    assert_eq!(session.input_streams.len(), 1);
    assert!(session.input_streams[0].routes[0].producer.is_none());
}

#[test]
fn session_start_fails_as_a_whole() {
    let options = vec![option("A", 0, 1.0)];
    let unnamed = DeviceManager::new(
        Ok(vec![InputDevice { name: Err("who".to_string()), config: None }]),
        OutputDevice::Ready(stereo(48000)),
    );
    assert_eq!(
        Recorder::<f32, ()>::new(&unnamed, &options, 64, false, 1.0, &no_engine, bound).err(),
        Some(AppError::CpalError("who".to_string()))
    );
    let mute = DeviceManager::new(Ok(vec![device("A", 1, 48000)]), OutputDevice::Missing);
    assert_eq!(
        Recorder::<f32, ()>::new(&mute, &options, 64, true, 1.0, &no_engine, bound).err(),
        Some(AppError::CpalError("No output device available".to_string()))
    );
    let odd =
        DeviceManager::new(Ok(vec![device("A", 1, 44100)]), OutputDevice::Ready(stereo(48000)));
    assert_eq!(
        Recorder::<f32, ()>::new(&odd, &options, 64, true, 1.0, &broken_engine, bound).err(),
        Some(AppError::CpalError("Failed to create resampler: no such ratio".to_string()))
    );
}

#[test]
fn session_of_no_microphones_plays_silence() {
    let manager = DeviceManager::new(Ok(Vec::new()), OutputDevice::Ready(stereo(48000)));
    let session =
        Recorder::<f32, ()>::new(&manager, &Vec::new(), 64, true, 1.0, &no_engine, bound)
            .ok()
            .unwrap();
    assert!(session.input_streams.is_empty());
    let stream = session.output_stream.unwrap();
    let mut out = [9.0f32; 6];
    stream.fill(&mut out, 0.0, &halve, &mix, &limit, &scale);
    assert_eq!(out, [0.0; 6]);
}

#[test]
fn worker_ends_well_on_stop_and_badly_on_a_broken_channel() {
    assert_eq!(Recorder::<f32, ()>::finish(true), Ok(()));
    assert_eq!(
        Recorder::<f32, ()>::finish(false),
        Err(AppError::RecorderError("Stop channel closed".to_string()))
    );
}

#[test]
fn two_microphones_of_two_rates_mix_into_stereo() {
    let manager = DeviceManager::new(
        Ok(vec![device("mic0", 1, 44100), device("mic1", 1, 48000)]),
        OutputDevice::Ready(stereo(48000)),
    );
    let options = vec![option("mic0", 0, 1.0), option("mic1", 0, 0.5)];
    let session = Recorder::<f32, Engine>::new(&manager, &options, 64, true, 0.8, &make_sinc, bound)
        .ok()
        .unwrap();
    assert_eq!(session.input_sample_rates, vec![44100, 48000]);
    let slow: Vec<f32> = (0..2048).map(|i| ((i as f32) * 0.05).sin() * 1.5).collect();
    let fast: Vec<f32> = (0..512).map(|i| ((i as f32) * 0.03).cos() * 1.8).collect();
    let heard0 = session.input_streams[0].capture(&slow, true, &limit, &scale);
    let heard1 = session.input_streams[1].capture(&fast, true, &limit, &scale);
    assert_eq!(heard0[0].accepted, 2048);
    assert_eq!(heard1[0].accepted, 512);
    assert!(heard1[0].offered.as_ref().unwrap().iter().all(|s| s.abs() <= 0.9));
    let stream = session.output_stream.unwrap();
    let mut out = vec![9.0f32; 1024];
    stream.fill(&mut out, 0.0, &run_sinc, &mix, &limit, &scale);
    for frame in 0..512 {
        assert_eq!(out[2 * frame], out[2 * frame + 1]);
        assert!(out[2 * frame].abs() <= 0.8);
    }
    assert!(out.iter().any(|s| *s != 0.0));
}

#[test]
fn handles_are_made_for_every_route_and_registered_by_index() {
    let bindings = vec![
        DeviceBinding { device: 0, config: stereo(44100), mic_indices: vec![0, 2] },
        DeviceBinding { device: 1, config: stereo(48000), mic_indices: vec![1, 2] },
    ];
    let options = vec![option("A", 0, 1.0), option("B", 0, 1.0), option("A", 1, 3.0)];
    let streams = InputStreamManager::setup_input_streams(
        &bindings,
        &options,
        77,
        None::<&OutputMixer<f32, ()>>,
    );
    let make = |option: &MicrophoneOptions<f32>, rate: u32, unit: usize| {
        format!("{}@{}/{} gain {}", option.name, rate, unit, option.gain)
    };
    let mut registry = std::collections::HashMap::new();
    registry.insert(9usize, "stale".to_string());
    for stream in &streams {
        let handles = stream.analysis_handles(&options, &make);
        assert_eq!(handles.len(), stream.routes.len());
        register(&mut registry, handles);
    }
    let mut keys: Vec<usize> = registry.keys().copied().collect();
    keys.sort();
    assert_eq!(keys, vec![0, 1, 2, 9]);
    assert_eq!(get_handle(&registry, 0), Ok(&"A@44100/77 gain 1".to_string()));
    assert_eq!(get_handle(&registry, 1), Ok(&"B@48000/77 gain 1".to_string()));
    assert_eq!(get_handle(&registry, 2), Ok(&"A@48000/77 gain 3".to_string()));
    assert_eq!(
        get_handle(&registry, 3),
        Err(AppError::ProcessorError("processor not found".to_string()))
    );
    assert_eq!(
        get_handle(&registry, -1),
        Err(AppError::ProcessorError("processor not found".to_string()))
    );
}

#[test]
fn later_handle_of_an_index_replaces_the_earlier() {
    let mut registry = std::collections::HashMap::new();
    register(&mut registry, vec![(1usize, 'a'), (2, 'b'), (1, 'c')]);
    assert_eq!(registry.len(), 2);
    assert_eq!(get_handle(&registry, 1), Ok(&'c'));
    assert_eq!(get_handle(&registry, 2), Ok(&'b'));
    register(&mut registry, Vec::new());
    assert_eq!(registry.len(), 2);
}

#[test]
fn every_error_carries_its_message() {
    assert_eq!(AppError::CpalError("a".to_string()).to_message(), "a");
    assert_eq!(AppError::RecorderError("b".to_string()).to_message(), "b");
    assert_eq!(AppError::ProcessorError("c".to_string()).to_message(), "c");
    assert_eq!(AppError::IoError("d".to_string()).to_message(), "d");
    assert_eq!(AppError::UltrastarError("e".to_string()).to_message(), "e");
}

#[test]
fn undetected_microphone_does_not_fail_the_mixer() {
    let mixer = OutputMixer::<f32, ()>::new(2, &vec![0, 48000], 48000, &no_engine).ok().unwrap();
    assert!(mixer.get_producer(0).is_some());
    assert!(mixer.get_producer(1).is_some());
    let stream = mixer.create_output_stream(stereo(48000), 1.0, bound);
    let mut out = [9.0f32; 4];
    stream.fill(&mut out, 0.0, &halve, &mix, &limit, &scale);
    assert_eq!(out, [0.0; 4]);
}

#[test]
fn handles_of_all_streams_are_registered_at_once() {
    let bindings = vec![
        DeviceBinding { device: 0, config: stereo(44100), mic_indices: vec![0, 2] },
        DeviceBinding { device: 1, config: stereo(48000), mic_indices: vec![1, 2] },
    ];
    let options = vec![option("A", 0, 1.0), option("B", 0, 1.0), option("A", 1, 3.0)];
    let streams = InputStreamManager::setup_input_streams(
        &bindings,
        &options,
        5,
        None::<&OutputMixer<f32, ()>>,
    );
    let make = |option: &MicrophoneOptions<f32>, rate: u32, unit: usize| {
        format!("{}@{}/{}", option.name, rate, unit)
    };
    let mut registry = std::collections::HashMap::new();
    registry.insert(7usize, "stale".to_string());
    let shared = register_streams(&streams, &options, &mut registry, &make);
    assert_eq!(
        shared,
        vec![
            vec![(0usize, "A@44100/5".to_string()), (2, "A@44100/5".to_string())],
            vec![(1usize, "B@48000/5".to_string()), (2, "A@48000/5".to_string())],
        ]
    );
    let mut keys: Vec<usize> = registry.keys().copied().collect();
    keys.sort();
    assert_eq!(keys, vec![0, 1, 2, 7]);
    assert_eq!(get_handle(&registry, 2), Ok(&"A@48000/5".to_string()));
    let none = register_streams(&Vec::new(), &options, &mut registry, &make);
    assert!(none.is_empty());
    assert_eq!(registry.len(), 4);
}
