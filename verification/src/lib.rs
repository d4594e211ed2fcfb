//! Core logic of a karaoke game: multi-microphone audio routing and mixdown,
//! song-file handling and the local media server's request handling.

pub mod audio;
pub mod chars;
pub mod commands;
pub mod error;
pub mod media_server;
pub mod text;
pub mod ultrastar;
