//! Song files in the UltraStar text format.

pub mod filesystem;
pub mod format;
pub mod local;
pub mod meta;
pub mod parser;
pub mod song;
