//! The core of a MIDI sequencer that plays songs written in a small song
//! language: the model of notes and messages, the times that a track waits
//! for, the instructions of a track, the parser and the compiler of the
//! language, the cursors that play a track, and what the realtime side does
//! in each cycle of its host.

pub mod control;
pub mod driver;
pub mod midi;
pub mod model;
pub mod songlang;
pub mod track;
pub mod utils;
