//! Listing the microphones a user can choose from.

use crate::audio::device::InputDevice;
use vstd::prelude::*;

verus! {

/// An input device that can serve as a microphone.
#[derive(Debug)]
pub struct Microphone {
    pub name: String,
    pub channels: u16,
}

/// The device can serve as a microphone: the host knows its default input
/// format and its name.
pub open spec fn is_usable(device: InputDevice) -> bool {
    device.config is Some && device.name is Ok
}

/// `chosen` are the positions of the usable devices among the first `upto`
/// of `devices`, in increasing order.
pub open spec fn are_usable_positions(chosen: Seq<int>, devices: Seq<InputDevice>, upto: int) -> bool {
    &&& forall|k: int|
        0 <= k < chosen.len() ==> 0 <= #[trigger] chosen[k] < upto && is_usable(devices[chosen[k]])
    &&& forall|j: int, k: int| 0 <= j < k < chosen.len() ==> chosen[j] < chosen[k]
    &&& forall|d: int|
        0 <= d < upto && is_usable(#[trigger] devices[d]) ==> chosen.contains(d)
}

/// `microphones` lists the usable devices of `devices`, in enumeration
/// order, each with its name and the channel count of its default format.
pub open spec fn is_microphone_list(microphones: Seq<Microphone>, devices: Seq<InputDevice>) -> bool {
    exists|chosen: Seq<int>|
        {
            &&& #[trigger] are_usable_positions(chosen, devices, devices.len() as int)
            &&& chosen.len() == microphones.len()
            &&& forall|k: int|
                0 <= k < microphones.len() ==> (#[trigger] microphones[k]).name
                    == devices[chosen[k]].name->Ok_0 && microphones[k].channels
                    == devices[chosen[k]].config->0.channels
        }
}

/// The microphones among the input devices that the host reports: every
/// device whose default input format and name are known, in enumeration
/// order. The others are left out silently.
pub fn get_microphones(devices: &Vec<InputDevice>) -> (microphones: Vec<Microphone>)
    ensures
        is_microphone_list(microphones@, devices@),
{
    let mut microphones: Vec<Microphone> = Vec::new();
    let ghost mut chosen: Seq<int> = Seq::empty();
    let mut d: usize = 0;
    while d < devices.len()
        invariant
            d <= devices.len(),
            are_usable_positions(chosen, devices@, d as int),
            chosen.len() == microphones.len(),
            forall|k: int|
                0 <= k < microphones.len() ==> (#[trigger] microphones[k]).name
                    == devices[chosen[k]].name->Ok_0 && microphones[k].channels
                    == devices[chosen[k]].config->0.channels,
        decreases devices.len() - d,
    {
        let ghost before = chosen;
        match (&devices[d].config, &devices[d].name) {
            (Some(config), Ok(name)) => {
                microphones.push(Microphone { name: name.clone(), channels: config.channels });
                proof {
                    chosen = before.push(d as int);
                    assert(chosen[before.len() as int] == d);
                    assert forall|e: int|
                        0 <= e < d + 1 && is_usable(#[trigger] devices@[e]) implies chosen.contains(
                        e,
                    ) by {
                        if e < d {
                            let k = choose|k: int| 0 <= k < before.len() && before[k] == e;
                            assert(chosen[k] == e);
                        }
                    }
                }
            },
            _ => {},
        }
        d += 1;
    }
    microphones
}

} // verus!
