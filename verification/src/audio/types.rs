//! Plain data shared by the audio components.

use vstd::prelude::*;

verus! {

/// Capacity of each microphone's ring buffer, in samples (about 85 ms at 48 kHz).
pub const DEFAULT_BUFFER_SIZE: usize = 4096;

/// Configuration of one logical microphone. Its position in the list handed
/// to a session is the microphone's index everywhere else.
///
/// `S` is the sample type; gain and threshold are values of it.
#[derive(Debug, Clone)]
pub struct MicrophoneOptions<S> {
    /// Name of the physical device that carries this microphone.
    pub name: String,
    /// Channel of that device on which the microphone is heard.
    pub channel: i32,
    /// Linear gain applied before monitoring.
    pub gain: S,
    /// Level below which the analysis engine ignores the signal.
    pub threshold: S,
}

/// Channel count and sample rate of a stream.
#[derive(Debug, Clone, Copy, PartialEq, Eq, Structural)]
pub struct StreamFormat {
    pub channels: u16,
    pub sample_rate: u32,
}

} // verus!
