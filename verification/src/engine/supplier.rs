//! How the engine finds and opens tracks. The engine never grows a queue or knows about TIDAL:
//! it asks a supplier, which the queue and the TIDAL client stand behind.

use super::types::{TrackMeta, TrackRef};
use crate::decode::SourceSpec;
use crate::time::Duration;
use vstd::prelude::*;

verus! {

/// Which track to move to, relative to the one that just played or is playing.
#[derive(Debug, Clone, Copy, PartialEq, Eq, Structural)]
pub enum Advance {
    /// A track ended by itself; the supplier applies repeat/shuffle rules.
    Auto,
    /// The user asked to skip ahead.
    Next,
    /// The user asked to go back one track.
    Previous,
    /// The user asked to go back, but far enough into the track that it starts over: the supplier
    /// answers with the current track again.
    Restart,
}

/// What a supplier knows about the track that would come next, without moving to it.
#[derive(Debug, PartialEq, Eq)]
pub enum Peek {
    /// That track.
    Next(TrackRef),
    /// Nothing would.
    End,
    /// It can't say yet.
    Unknown,
}

/// How a loaded track can be moved around in, which depends on where its audio comes from.
#[derive(Debug, Clone, Copy, PartialEq, Eq, Structural)]
pub enum SeekMode {
    /// Not at all.
    Unseekable,
    /// The source can be repositioned: a local file.
    InPlace,
    /// One continuous stream that can't rewind (a single-URL download): moving ahead means
    /// reading and discarding, and going back is impossible.
    ForwardOnly,
    /// The stream can't rewind, but the supplier can open the track at a given position (a DASH
    /// stream reopened at the right segment). Seeking asks it to.
    Reopen,
}

/// A track whose audio is open, as the engine sees it: the audio itself stays with whoever reads
/// it.
#[derive(Debug, PartialEq, Eq)]
pub struct LoadedTrack {
    /// What is known about the track.
    pub meta: TrackMeta,
    /// The format of its audio.
    pub spec: SourceSpec,
    /// The length that the audio itself reports, if it does.
    pub source_duration: Option<Duration>,
    /// How it can be moved around in.
    pub seek: SeekMode,
    /// Where in the track the audio begins. Zero unless the supplier was asked to open it further
    /// in and could only start at a boundary at or before that (the start of a DASH segment).
    /// The engine skips the difference itself, so a supplier that ignores the request is merely
    /// slow, never wrong.
    pub start: Duration,
}

impl LoadedTrack {
    /// A track that can't be seeked and starts at the beginning.
    pub fn new(meta: TrackMeta, spec: SourceSpec, source_duration: Option<Duration>) -> (r: Self)
        ensures
            r == (LoadedTrack {
                meta,
                spec,
                source_duration,
                seek: SeekMode::Unseekable,
                start: Duration { nanos: 0 },
            }),
    {
        LoadedTrack { meta, spec, source_duration, seek: SeekMode::Unseekable, start: Duration::zero() }
    }

    /// The same track, repositioned directly when it is moved around in.
    pub fn seekable_in_place(self) -> (r: Self)
        ensures
            r == (LoadedTrack { seek: SeekMode::InPlace, ..self }),
    {
        LoadedTrack { seek: SeekMode::InPlace, ..self }
    }

    /// The same track, read forward only.
    pub fn forward_only(self) -> (r: Self)
        ensures
            r == (LoadedTrack { seek: SeekMode::ForwardOnly, ..self }),
    {
        LoadedTrack { seek: SeekMode::ForwardOnly, ..self }
    }

    /// The same track, opened again when it is moved around in.
    pub fn reopenable(self) -> (r: Self)
        ensures
            r == (LoadedTrack { seek: SeekMode::Reopen, ..self }),
    {
        LoadedTrack { seek: SeekMode::Reopen, ..self }
    }

    /// The same track, with audio that begins at `start`.
    pub fn starting_at(self, start: Duration) -> (r: Self)
        ensures
            r == (LoadedTrack { start, ..self }),
    {
        LoadedTrack { start, ..self }
    }
}

} // verus!
