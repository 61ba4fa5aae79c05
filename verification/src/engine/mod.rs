//! The playback engine: a state machine driven by commands, reporting what it does as events.
//!
//! It finds tracks through a supplier and plays them through sinks. It knows nothing about
//! queues, TIDAL or IPC, which sit on top of it.

pub mod answers;
pub mod audio_thread;
pub mod laws;
pub mod model;
pub mod outcomes;
pub mod source;
pub mod supplier;
pub mod types;

use crate::time::Duration;
use vstd::prelude::*;

verus! {

/// How long a pause lasts before the audio device is handed back to the desktop, in nanoseconds.
pub const RELEASE_AFTER_PAUSE: u128 = 10_000_000_000;

/// `Previous` restarts the current track instead of going back once it has played this long, in
/// nanoseconds.
pub const PREVIOUS_RESTART_AFTER: u128 = 3_000_000_000;

/// How often a playing track reports its position, in nanoseconds.
pub const POSITION_INTERVAL: u128 = 250_000_000;

/// Tunables of an engine.
#[derive(Debug, Clone, Copy, PartialEq, Eq, Structural)]
pub struct Options {
    /// How often a playing track reports its position; zero reports after every write.
    pub position_interval: Duration,
    /// How long a pause lasts before the audio device is handed back to the desktop. `None`
    /// keeps it for as long as the engine has a track; zero hands it back on every pause.
    pub release_after_pause: Option<Duration>,
}

impl Default for Options {
    fn default() -> (r: Self)
        ensures
            r.position_interval == (Duration { nanos: POSITION_INTERVAL }),
            r.release_after_pause == Some(Duration { nanos: RELEASE_AFTER_PAUSE }),
    {
        Options {
            position_interval: Duration { nanos: POSITION_INTERVAL },
            release_after_pause: Some(Duration { nanos: RELEASE_AFTER_PAUSE }),
        }
    }
}

} // verus!
