//! The core of a local-library audio player: the track index, the views
//! derived from it, the playback queue and controller, the decisions of the
//! audio engine, and what each key of the terminal interface does.
//! Everything here is checked by Verus. Reading files, walking directories,
//! drawing the screen and driving the output device are left to the caller,
//! who hands in what was read and carries out what is asked for.

pub mod command;
pub mod engine;
pub mod error;
pub mod laws;
pub mod library;
pub mod paths;
pub mod player;
pub mod query;
pub mod queue;
pub mod random;
pub mod session;
pub mod song;
pub mod text;
