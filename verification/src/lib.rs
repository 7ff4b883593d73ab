//! Verified core of a screen "blink" reminder: configuration handling,
//! command-line parsing, colour parsing and the geometry and timing of the
//! eyelid animation. Talking to a display server happens outside this crate.

pub mod text;
pub mod config;
pub mod cli;
pub mod backend;
pub mod animation;
