//! The engine's public vocabulary: what it is told to do, and what it reports back.

use crate::decode::SourceSpec;
use crate::time::Duration;
use vstd::prelude::*;

verus! {

/// An opaque reference to a track, meaningful only to the supplier that hands it out (a TIDAL
/// track id, a file path, ...).
#[derive(Debug, PartialEq, Eq)]
pub struct TrackRef(pub String);

impl Clone for TrackRef {
    fn clone(&self) -> (r: Self)
        ensures
            r == *self,
    {
        TrackRef(self.0.clone())
    }
}

/// A copy of an optional text.
pub fn copied_text(text: &Option<String>) -> (r: Option<String>)
    ensures
        r == *text,
{
    match text {
        Some(text) => Some(text.clone()),
        None => None,
    }
}

/// What is known about a track.
#[derive(Debug, PartialEq, Eq)]
pub struct TrackMeta {
    /// Which track it is.
    pub track: TrackRef,
    /// Its title, if known.
    pub title: Option<String>,
    /// Its length, if known.
    pub duration: Option<Duration>,
}

impl Clone for TrackMeta {
    fn clone(&self) -> (r: Self)
        ensures
            r == *self,
    {
        TrackMeta {
            track: self.track.clone(),
            title: copied_text(&self.title),
            duration: self.duration,
        }
    }
}

/// Where to move within the current track.
#[derive(Debug, Clone, Copy, PartialEq, Eq, Structural)]
pub enum SeekTarget {
    /// Counted from the start of the track.
    Absolute(Duration),
    /// Ahead of what has been heard so far.
    Forward(Duration),
    /// Behind what has been heard so far, stopping at the start of the track.
    Backward(Duration),
}

/// What the engine can be told to do.
#[derive(Debug, Clone, PartialEq, Eq)]
pub enum Command {
    /// Plays the given track, replacing whatever is playing. `None` starts from whatever the
    /// supplier considers next, and does nothing unless the engine is stopped.
    Play(Option<TrackRef>),
    /// Stops playback and releases the audio device.
    Stop,
    /// Skips to the supplier's next track.
    Next,
    /// Goes back to the previous track, or starts the current one over if it has been playing
    /// for [`super::PREVIOUS_RESTART_AFTER`] or more.
    Previous,
    /// Silences playback without losing the position. Pausing while a track is still loading
    /// makes it start paused.
    Pause,
    /// Continues after a [`Command::Pause`].
    Resume,
    /// `Pause` if playing (or loading), `Resume` if paused.
    TogglePause,
    /// Moves within the current track. Reported with [`Event::Seeked`], or
    /// [`Event::SeekRejected`] if the track can't do it. Pausing is unaffected: a seek while
    /// paused stays paused.
    Seek(SeekTarget),
    /// Pauses (if playing) and gives the audio device back to the desktop, so another program can
    /// use it. The track and the exact position are kept; [`Command::Resume`] takes the device
    /// again and carries on. Does nothing while stopped.
    Release,
}

/// What the engine is doing.
#[derive(Debug, Clone, Copy, PartialEq, Eq, Structural)]
pub enum State {
    /// Nothing is loaded.
    Stopped,
    /// Waiting for the supplier to resolve a track. Nothing is audible.
    Loading,
    /// A track is being played.
    Playing,
    /// A track is loaded and its position is kept, but the audio is silent.
    Paused,
    /// The current track is being reopened at a new position (a stream that can't rewind is
    /// opened again where the seek points). Silent, like [`State::Loading`], but the track and
    /// the position it will resume from are known.
    Seeking,
}

/// A snapshot of the engine.
#[derive(Debug, Clone, PartialEq, Eq)]
pub struct Status {
    /// What it is doing.
    pub state: State,
    /// The current track; `None` unless `state` is [`State::Playing`], [`State::Paused`] or
    /// [`State::Seeking`].
    pub track: Option<TrackMeta>,
    /// The format of the current track.
    pub spec: Option<SourceSpec>,
    /// What the listener has heard of the current track, as of the last [`Event::Position`].
    pub position: Duration,
    /// The length of the current track, if known.
    pub duration: Option<Duration>,
    /// What it is doing with the audio device.
    pub output: OutputState,
}

/// What the engine is doing with the audio device.
#[derive(Debug, Clone, PartialEq, Eq)]
pub enum OutputState {
    /// Not holding the device: nothing has been played yet, or playback stopped.
    Closed,
    /// Holding the device.
    Open,
    /// A track is loaded but the device was handed back (see [`Command::Release`]); `by` is the
    /// program that asked for it, if one did. Resuming takes the device again.
    Released {
        /// Who asked for it.
        by: Option<String>,
    },
}

/// Why the engine gave the audio device back.
#[derive(Debug, Clone, Copy, PartialEq, Eq, Structural)]
pub enum ReleaseReason {
    /// It had been paused for longer than the configured time.
    Idle,
    /// [`Command::Release`].
    Command,
    /// Another program asked for the device.
    Requested,
    /// The output went away underneath the engine (a Bluetooth speaker switched off, the sound
    /// server stopped). An [`Event::Error`] says which.
    Lost,
}

/// Why a track ended.
#[derive(Debug, Clone, Copy, PartialEq, Eq, Structural)]
pub enum EndReason {
    /// The track played to its end.
    Completed,
    /// It was cut short by a `Play`, `Next`, `Stop` or shutdown.
    Interrupted,
    /// Decoding or the audio device failed; an [`Event::Error`] precedes this.
    Failed,
}

/// What the engine reports.
#[derive(Debug, Clone, PartialEq, Eq)]
#[allow(inconsistent_fields)]
pub enum Event {
    /// The engine is now doing something else.
    StateChanged(State),
    /// Sent just before `StateChanged(Playing)`.
    TrackStarted {
        /// The track.
        meta: TrackMeta,
        /// Its format.
        spec: SourceSpec,
    },
    /// A track is over.
    TrackEnded {
        /// The track.
        meta: TrackMeta,
        /// Why it ended.
        reason: EndReason,
    },
    /// How much of the current track has actually been heard (not merely handed to the device),
    /// sent about four times a second while playing, and also when a track starts, pauses or
    /// ends. The last one of a completed track equals its length.
    Position {
        /// What has been heard.
        position: Duration,
        /// The length of the track, if known.
        duration: Option<Duration>,
    },
    /// A seek was applied: the position playback will continue from. Sent as soon as the seek is
    /// accepted, so for a track that has to be reopened it precedes the audio actually resuming
    /// (see [`State::Seeking`]).
    Seeked {
        /// Where playback will continue.
        position: Duration,
    },
    /// A seek could not be done, with why. Playback carries on as if it had not been requested.
    SeekRejected {
        /// Why.
        reason: String,
    },
    /// The supplier has no further track to offer.
    QueueExhausted,
    /// The engine paused and gave the audio device back; the track and position are kept.
    OutputReleased {
        /// Who asked for it, if anyone did.
        by: Option<String>,
        /// Why it was given back.
        reason: ReleaseReason,
    },
    /// It took the device again, on resume or for a new track.
    OutputAcquired,
    /// Something went wrong; the engine stays usable.
    Error {
        /// What went wrong.
        message: String,
    },
}

/// An [`Event`] with its made-up texts as sequences of characters.
pub enum EventView {
    /// See [`Event::StateChanged`].
    StateChanged(State),
    /// See [`Event::TrackStarted`].
    TrackStarted(TrackMeta, SourceSpec),
    /// See [`Event::TrackEnded`].
    TrackEnded(TrackMeta, EndReason),
    /// See [`Event::Position`].
    Position(Duration, Option<Duration>),
    /// See [`Event::Seeked`].
    Seeked(Duration),
    /// See [`Event::SeekRejected`].
    SeekRejected(Seq<char>),
    /// See [`Event::QueueExhausted`].
    QueueExhausted,
    /// See [`Event::OutputReleased`].
    OutputReleased(Option<String>, ReleaseReason),
    /// See [`Event::OutputAcquired`].
    OutputAcquired,
    /// See [`Event::Error`].
    Error(Seq<char>),
}

impl View for Event {
    type V = EventView;

    open spec fn view(&self) -> EventView {
        match *self {
            Event::StateChanged(state) => EventView::StateChanged(state),
            Event::TrackStarted { meta, spec } => EventView::TrackStarted(meta, spec),
            Event::TrackEnded { meta, reason } => EventView::TrackEnded(meta, reason),
            Event::Position { position, duration } => EventView::Position(position, duration),
            Event::Seeked { position } => EventView::Seeked(position),
            Event::SeekRejected { reason } => EventView::SeekRejected(reason@),
            Event::QueueExhausted => EventView::QueueExhausted,
            Event::OutputReleased { by, reason } => EventView::OutputReleased(by, reason),
            Event::OutputAcquired => EventView::OutputAcquired,
            Event::Error { message } => EventView::Error(message@),
        }
    }
}

} // verus!
