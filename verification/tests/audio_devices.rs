use karaoke_core::audio::device::DeviceManager;
use karaoke_core::audio::device::InputDevice;
use karaoke_core::audio::device::OutputDevice;
use karaoke_core::audio::device::matching_microphones;
use karaoke_core::audio::recorder::input_sample_rates;
use karaoke_core::audio::recorder::microphone_names;
use karaoke_core::audio::types::MicrophoneOptions;
use karaoke_core::audio::types::StreamFormat;
use karaoke_core::commands::microphones::get_microphones;
use karaoke_core::error::AppError;

fn device(name: &str, channels: u16, sample_rate: u32) -> InputDevice {
    InputDevice { name: Ok(name.to_string()), config: Some(StreamFormat { channels, sample_rate }) }
}

fn names(list: &[&str]) -> Vec<String> {
    list.iter().map(|n| n.to_string()).collect()
}

#[test]
fn matching_is_exact_and_case_sensitive() {
    let mics = names(&["USB Mic", "usb mic", "USB Mic ", "USB Mic"]);
    assert_eq!(matching_microphones(&mics, &"USB Mic".to_string()), vec![0, 3]);
    assert_eq!(matching_microphones(&mics, &"usb mic".to_string()), vec![1]);
    assert_eq!(matching_microphones(&mics, &"Other".to_string()), Vec::<usize>::new());
    assert_eq!(matching_microphones(&Vec::new(), &"USB Mic".to_string()), Vec::<usize>::new());
}

#[test]
fn devices_that_serve_a_microphone_are_bound_in_order() {
    let manager = DeviceManager::new(
        Ok(vec![device("A", 2, 44100), device("unused", 1, 8000), device("B", 1, 48000)]),
        OutputDevice::Missing,
    );
    let found = manager.find_input_devices(&names(&["B", "A", "B"])).unwrap();
    assert_eq!(found.len(), 2);
    assert_eq!(found[0].device, 0);
    assert_eq!(found[0].config, StreamFormat { channels: 2, sample_rate: 44100 });
    assert_eq!(found[0].mic_indices, vec![1]);
    assert_eq!(found[1].device, 2);
    assert_eq!(found[1].config, StreamFormat { channels: 1, sample_rate: 48000 });
    assert_eq!(found[1].mic_indices, vec![0, 2]);
}

#[test]
fn device_without_input_format_is_skipped_silently() {
    let manager = DeviceManager::new(
        Ok(vec![InputDevice { name: Ok("A".to_string()), config: None }, device("B", 1, 48000)]),
        OutputDevice::Missing,
    );
    let found = manager.find_input_devices(&names(&["A", "B"])).unwrap();
    assert_eq!(found.len(), 1);
    assert_eq!(found[0].device, 1);
    assert_eq!(found[0].mic_indices, vec![1]);
}

#[test]
fn two_devices_of_one_name_both_bind_the_microphone() {
    let manager = DeviceManager::new(
        Ok(vec![device("A", 1, 44100), device("A", 2, 48000)]),
        OutputDevice::Missing,
    );
    let found = manager.find_input_devices(&names(&["A"])).unwrap();
    assert_eq!(found.len(), 2);
    assert_eq!(found[0].mic_indices, vec![0]);
    assert_eq!(found[1].mic_indices, vec![0]);
    assert_eq!(input_sample_rates(&found, 1), vec![48000]);
}

#[test]
fn no_microphones_bind_nothing() {
    let manager = DeviceManager::new(Ok(vec![device("A", 1, 44100)]), OutputDevice::Missing);
    assert!(manager.find_input_devices(&Vec::new()).unwrap().is_empty());
}

#[test]
fn failed_enumeration_is_reported() {
    let manager = DeviceManager::new(Err("host is gone".to_string()), OutputDevice::Missing);
    let error = manager.find_input_devices(&names(&["A"])).unwrap_err();
    assert_eq!(error, AppError::CpalError("host is gone".to_string()));
}

#[test]
fn first_unnamed_device_is_reported() {
    let manager = DeviceManager::new(
        Ok(vec![
            device("A", 1, 44100),
            InputDevice { name: Err("first".to_string()), config: None },
            InputDevice { name: Err("second".to_string()), config: None },
        ]),
        OutputDevice::Missing,
    );
    let error = manager.find_input_devices(&names(&["A"])).unwrap_err();
    assert_eq!(error, AppError::CpalError("first".to_string()));
    assert_eq!(error.to_message(), "first");
}

#[test]
fn output_format_of_ready_device() {
    let format = StreamFormat { channels: 2, sample_rate: 48000 };
    let manager = DeviceManager::new(Ok(Vec::new()), OutputDevice::Ready(format));
    assert_eq!(manager.get_output_config(), Ok(format));
}

#[test]
fn missing_output_device_is_an_error() {
    let manager = DeviceManager::new(Ok(Vec::new()), OutputDevice::Missing);
    assert_eq!(
        manager.get_output_config(),
        Err(AppError::CpalError("No output device available".to_string()))
    );
}

#[test]
fn unconfigured_output_device_is_an_error() {
    let manager =
        DeviceManager::new(Ok(Vec::new()), OutputDevice::Unconfigured("no format".to_string()));
    assert_eq!(manager.get_output_config(), Err(AppError::CpalError("no format".to_string())));
}

#[test]
fn unmatched_microphone_has_rate_zero() {
    let manager = DeviceManager::new(
        Ok(vec![device("A", 2, 44100), device("B", 1, 48000)]),
        OutputDevice::Missing,
    );
    let found = manager.find_input_devices(&names(&["A", "nowhere", "B"])).unwrap();
    assert_eq!(input_sample_rates(&found, 3), vec![44100, 0, 48000]);
}

#[test]
fn rates_of_no_microphones_and_of_no_bindings() {
    assert_eq!(input_sample_rates(&Vec::new(), 0), Vec::<u32>::new());
    assert_eq!(input_sample_rates(&Vec::new(), 2), vec![0, 0]);
}

#[test]
fn microphone_names_keep_their_order() {
    let options = vec![
        MicrophoneOptions { name: "B".to_string(), channel: 0, gain: 1.0f32, threshold: 2.0f32 },
        MicrophoneOptions { name: "A".to_string(), channel: 1, gain: 0.5f32, threshold: 2.0f32 },
    ];
    assert_eq!(microphone_names(&options), names(&["B", "A"]));
}

#[test]
fn only_named_and_configured_devices_are_microphones() {
    let devices = vec![
        device("A", 2, 44100),
        InputDevice { name: Ok("no format".to_string()), config: None },
        InputDevice {
            name: Err("unnamed".to_string()),
            config: Some(StreamFormat { channels: 1, sample_rate: 8000 }),
        },
        device("B", 1, 48000),
    ];
    let microphones = get_microphones(&devices);
    assert_eq!(microphones.len(), 2);
    assert_eq!(microphones[0].name, "A");
    assert_eq!(microphones[0].channels, 2);
    assert_eq!(microphones[1].name, "B");
    assert_eq!(microphones[1].channels, 1);
}
