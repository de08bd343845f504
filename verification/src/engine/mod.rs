//! The messages exchanged between the playback controller and the audio
//! engine.

pub mod decoder;
pub mod driver;
pub mod output;

use vstd::prelude::*;

verus! {

/// What the engine reports back.
#[derive(Debug, PartialEq, Eq)]
pub enum EngineEvent {
    LoadStarted(String),
    LoadFailed { path: String, error: String },
    Started { duration_ms: u64 },
    Position { current_ms: u64, duration_ms: u64 },
    Paused,
    Resumed,
    EndOfTrack,
}

/// What the controller asks of the engine. `Seek` is given as a position and
/// a duration; the engine seeks to the fraction `position / duration`,
/// clamped to `[0, 1]`. `SeekToStart` seeks to the fraction 0.
#[derive(Debug, PartialEq, Eq)]
pub enum EngineRequest {
    Load { path: String, autoplay: bool },
    Play,
    Pause,
    Stop,
    SeekToStart,
    Seek { position_ms: u64, duration_ms: u64 },
    Shutdown,
}

} // verus!
