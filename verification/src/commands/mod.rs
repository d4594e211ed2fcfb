//! What the host application asks of the library.

pub mod microphones;
pub mod songs;
