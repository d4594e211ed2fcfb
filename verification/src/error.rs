//! The error type shared by every part of the library.

use vstd::prelude::*;

verus! {

/// Why an operation of the library could not be carried out. Each variant
/// carries a message for the user.
#[derive(Debug, Clone, PartialEq, Eq)]
pub enum AppError {
    /// No audio host or device is available, or the host could not enumerate
    /// or configure one.
    CpalError(String),
    /// The recording session could not be controlled: it was never started,
    /// or its stop channel broke.
    RecorderError(String),
    /// No analysis handle is registered under the requested index.
    ProcessorError(String),
    /// The file system refused an operation.
    IoError(String),
    /// A song file is malformed or incomplete.
    UltrastarError(String),
}

impl AppError {
    /// The message carried by the error, whatever its kind.
    pub open spec fn message(self) -> String {
        match self {
            AppError::CpalError(m) => m,
            AppError::RecorderError(m) => m,
            AppError::ProcessorError(m) => m,
            AppError::IoError(m) => m,
            AppError::UltrastarError(m) => m,
        }
    }

    /// The message carried by the error, for display.
    pub fn to_message(&self) -> (text: String)
        ensures
            text == self.message(),
    {
        match self {
            AppError::CpalError(m) => m.clone(),
            AppError::RecorderError(m) => m.clone(),
            AppError::ProcessorError(m) => m.clone(),
            AppError::IoError(m) => m.clone(),
            AppError::UltrastarError(m) => m.clone(),
        }
    }
}

} // verus!
