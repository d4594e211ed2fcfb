//! Real-time capture routing and monitoring mixdown for several microphones.

pub mod device;
pub mod frame;
pub mod input;
pub mod output;
pub mod recorder;
pub mod registry;
pub mod resampler;
pub mod ring;
pub mod types;
