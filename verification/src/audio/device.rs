//! Matching configured microphones against the devices the audio host reports.

use crate::audio::types::StreamFormat;
use crate::error::AppError;
use vstd::prelude::*;

verus! {

/// What the audio host reports of one input device.
#[derive(Debug)]
pub struct InputDevice {
    /// The device's name, or the host's message where it could not tell it.
    pub name: Result<String, String>,
    /// The device's default input format, if one can be obtained.
    pub config: Option<StreamFormat>,
}

/// What the audio host reports of its default output device.
#[derive(Debug)]
pub enum OutputDevice {
    /// The host has no default output device.
    Missing,
    /// The device exists but the host could not tell its default format; the
    /// host's message is kept.
    Unconfigured(String),
    /// The device and its default output format.
    Ready(StreamFormat),
}

/// One physical input device, the stream format chosen for it, and the
/// logical microphones it serves.
#[derive(Debug, Clone)]
pub struct DeviceBinding {
    /// Position of the device in the host's enumeration.
    pub device: usize,
    /// Format of the capture stream.
    pub config: StreamFormat,
    /// Indices of the microphones heard on this device, in increasing order.
    pub mic_indices: Vec<usize>,
}

/// `indices` lists, in increasing order, exactly the positions of
/// `mic_names` that hold `device_name`.
pub open spec fn is_match_list(
    indices: Seq<usize>,
    mic_names: Seq<String>,
    device_name: Seq<char>,
) -> bool {
    &&& forall|k: int|
        0 <= k < indices.len() ==> (#[trigger] indices[k]) < mic_names.len()
            && mic_names[indices[k] as int]@ == device_name
    &&& forall|j: int, k: int| 0 <= j < k < indices.len() ==> indices[j] < indices[k]
    &&& forall|i: int|
        0 <= i < mic_names.len() && (#[trigger] mic_names[i])@ == device_name
            ==> indices.contains(i as usize)
}

/// Some configured microphone carries the name `device_name`.
pub open spec fn serves_a_microphone(mic_names: Seq<String>, device_name: Seq<char>) -> bool {
    exists|i: int| 0 <= i < mic_names.len() && (#[trigger] mic_names[i])@ == device_name
}

/// A device is retained when it is named, serves at least one microphone and
/// has a default input format.
pub open spec fn is_retained(device: InputDevice, mic_names: Seq<String>) -> bool {
    &&& device.name is Ok
    &&& device.config is Some
    &&& serves_a_microphone(mic_names, device.name->Ok_0@)
}

/// `binding` describes the retained device at its position in `devices`.
pub open spec fn binds(
    binding: DeviceBinding,
    devices: Seq<InputDevice>,
    mic_names: Seq<String>,
) -> bool {
    &&& binding.device < devices.len()
    &&& is_retained(devices[binding.device as int], mic_names)
    &&& binding.config == devices[binding.device as int].config->0
    &&& is_match_list(
        binding.mic_indices@,
        mic_names,
        devices[binding.device as int].name->Ok_0@,
    )
}

/// `bindings` holds one binding for each retained device among the first
/// `upto` of `devices`, in enumeration order, and nothing else.
pub open spec fn is_binding_list(
    bindings: Seq<DeviceBinding>,
    devices: Seq<InputDevice>,
    mic_names: Seq<String>,
    upto: int,
) -> bool {
    &&& forall|k: int|
        0 <= k < bindings.len() ==> binds(#[trigger] bindings[k], devices, mic_names)
            && bindings[k].device < upto
    &&& forall|j: int, k: int|
        0 <= j < k < bindings.len() ==> bindings[j].device < bindings[k].device
    &&& forall|d: int|
        0 <= d < upto && is_retained(#[trigger] devices[d], mic_names) ==> exists|k: int|
            0 <= k < bindings.len() && (#[trigger] bindings[k]).device == d
}

/// The first device among `devices` whose name the host could not tell is at
/// position `d`.
pub open spec fn first_unnamed(devices: Seq<InputDevice>, d: int) -> bool {
    &&& 0 <= d < devices.len()
    &&& devices[d].name is Err
    &&& forall|e: int| 0 <= e < d ==> (#[trigger] devices[e]).name is Ok
}

/// The host told the name of every one of `devices`.
pub open spec fn all_named(devices: Seq<InputDevice>) -> bool {
    forall|d: int| 0 <= d < devices.len() ==> (#[trigger] devices[d]).name is Ok
}

/// `error` is how discovery fails on `inputs`: with the host's message where
/// enumeration failed, else with the message of the first device that the
/// host could not name.
pub open spec fn is_discovery_error(inputs: Result<Vec<InputDevice>, String>, error: AppError) -> bool {
    match inputs {
        Err(message) => error == AppError::CpalError(message),
        Ok(devices) => exists|d: int|
            first_unnamed(devices@, d) && error == AppError::CpalError(
                (#[trigger] devices@[d]).name->Err_0,
            ),
    }
}

/// `error` is how asking for the output format fails on `output`.
pub open spec fn is_output_error(output: OutputDevice, error: AppError) -> bool {
    match output {
        OutputDevice::Ready(_) => false,
        OutputDevice::Unconfigured(message) => error == AppError::CpalError(message),
        OutputDevice::Missing => error is CpalError && error.message()@
            == "No output device available"@,
    }
}

/// The positions of `mic_names` that hold `device_name`, in increasing order.
/// Names are compared character by character: the match is case-sensitive.
pub fn matching_microphones(mic_names: &Vec<String>, device_name: &String) -> (indices: Vec<usize>)
    ensures
        is_match_list(indices@, mic_names@, device_name@),
{
    let mut indices: Vec<usize> = Vec::new();
    let mut i: usize = 0;
    while i < mic_names.len()
        invariant
            i <= mic_names.len(),
            forall|k: int|
                0 <= k < indices.len() ==> (#[trigger] indices[k]) < i
                    && mic_names[indices[k] as int]@ == device_name@,
            forall|j: int, k: int| 0 <= j < k < indices.len() ==> indices[j] < indices[k],
            forall|m: int|
                0 <= m < i && (#[trigger] mic_names[m])@ == device_name@
                    ==> indices@.contains(m as usize),
        decreases mic_names.len() - i,
    {
        if mic_names[i] == *device_name {
            let ghost before = indices@;
            indices.push(i);
            assert(indices@[before.len() as int] == i);
            assert forall|m: int|
                0 <= m < i + 1 && (#[trigger] mic_names[m])@ == device_name@ implies indices@.contains(
                m as usize,
            ) by {
                if m < i {
                    let k = choose|k: int| 0 <= k < before.len() && before[k] == m as usize;
                    assert(indices@[k] == m as usize);
                }
            }
        }
        i += 1;
    }
    indices
}

/// A snapshot of the audio host: its input devices in enumeration order,
/// and its default output device.
pub struct DeviceManager {
    /// The input devices, or the host's message where enumeration failed.
    pub inputs: Result<Vec<InputDevice>, String>,
    /// The default output device.
    pub output: OutputDevice,
}

impl DeviceManager {
    /// A device manager over what the host reported.
    pub fn new(inputs: Result<Vec<InputDevice>, String>, output: OutputDevice) -> (manager: Self)
        ensures
            manager.inputs == inputs,
            manager.output == output,
    {
        DeviceManager { inputs, output }
    }

    /// Binds every input device that serves a configured microphone.
    ///
    /// A device is retained iff its name equals at least one of `mic_names`
    /// and its default input format is known; a device without a format is
    /// skipped silently. The bindings come in enumeration order, each with
    /// the indices of all microphones of that name. Fails if the host could
    /// not enumerate its devices or could not name one of them.
    pub fn find_input_devices(&self, mic_names: &Vec<String>) -> (found: Result<
        Vec<DeviceBinding>,
        AppError,
    >)
        ensures
            match found {
                Ok(bindings) => {
                    &&& self.inputs is Ok
                    &&& all_named(self.inputs->Ok_0@)
                    &&& is_binding_list(
                        bindings@,
                        self.inputs->Ok_0@,
                        mic_names@,
                        self.inputs->Ok_0.len() as int,
                    )
                },
                Err(error) => {
                    &&& !(self.inputs is Ok && all_named(self.inputs->Ok_0@))
                    &&& is_discovery_error(self.inputs, error)
                },
            },
    {
        match &self.inputs {
            Err(message) => Err(AppError::CpalError(message.clone())),
            Ok(devices) => {
                let mut bindings: Vec<DeviceBinding> = Vec::new();
                let mut d: usize = 0;
                while d < devices.len()
                    invariant
                        self.inputs is Ok,
                        self.inputs->Ok_0 == *devices,
                        d <= devices.len(),
                        forall|e: int| 0 <= e < d ==> (#[trigger] devices[e]).name is Ok,
                        is_binding_list(bindings@, devices@, mic_names@, d as int),
                    decreases devices.len() - d,
                {
                    match &devices[d].name {
                        Err(message) => {
                            assert(first_unnamed(devices@, d as int));
                            return Err(AppError::CpalError(message.clone()));
                        },
                        Ok(name) => {
                            let mic_indices = matching_microphones(mic_names, name);
                            let ghost before = bindings@;
                            if mic_indices.len() > 0 {
                                proof {
                                    let first = mic_indices@[0];
                                    assert(mic_names@[first as int]@ == name@);
                                }
                                if let Some(config) = devices[d].config {
                                    bindings.push(DeviceBinding { device: d, config, mic_indices });
                                    proof {
                                        assert(bindings@[before.len() as int].device == d);
                                        assert forall|e: int|
                                            0 <= e < d + 1 && is_retained(
                                                #[trigger] devices@[e],
                                                mic_names@,
                                            ) implies exists|k: int|
                                            0 <= k < bindings@.len() && (
                                            #[trigger] bindings@[k]).device == e by {
                                            if e < d {
                                                let k = choose|k: int|
                                                    0 <= k < before.len() && (
                                                    #[trigger] before[k]).device == e;
                                                assert(bindings@[k].device == e);
                                            }
                                        }
                                    }
                                }
                            } else {
                                proof {
                                    if serves_a_microphone(mic_names@, name@) {
                                        let i = choose|i: int|
                                            0 <= i < mic_names@.len() && (
                                            #[trigger] mic_names@[i])@ == name@;
                                        assert(mic_indices@.contains(i as usize));
                                    }
                                }
                            }
                        },
                    }
                    d += 1;
                }
                Ok(bindings)
            },
        }
    }

    /// The format of the default output device.
    ///
    /// Fails if the host has no default output device, or could not tell the
    /// device's default format.
    pub fn get_output_config(&self) -> (config: Result<StreamFormat, AppError>)
        ensures
            match config {
                Ok(format) => self.output == OutputDevice::Ready(format),
                Err(error) => is_output_error(self.output, error),
            },
    {
        match &self.output {
            OutputDevice::Ready(format) => Ok(*format),
            OutputDevice::Unconfigured(message) => Err(AppError::CpalError(message.clone())),
            OutputDevice::Missing => Err(
                AppError::CpalError("No output device available".to_string()),
            ),
        }
    }
}

} // verus!
