//! What the engine does, as a function from one state to the next: the state, what it asks of the
//! outside, and the rules for each thing that can happen.

use super::supplier::{Advance, LoadedTrack, SeekMode};
use super::types::{
    Command, EndReason, Event, EventView, OutputState, ReleaseReason, SeekTarget, State, Status, TrackMeta,
    TrackRef,
};
use super::{Options, PREVIOUS_RESTART_AFTER};
use crate::decode::{frames_nanos, nearest_frames, SourceSpec};
use crate::time::{at_most, Duration, MAX_NANOS};
use vstd::prelude::*;

verus! {

/// What to load.
#[derive(Debug, PartialEq, Eq)]
pub enum LoadTarget {
    /// This track.
    Track(TrackRef),
    /// Whatever the supplier answers.
    Advance(Advance),
}

/// A wish to have the audio device back.
#[derive(Debug, PartialEq, Eq)]
pub struct Release {
    /// Who asked, if anyone did.
    pub by: Option<String>,
    /// Why.
    pub reason: ReleaseReason,
}

/// An open audio output.
#[derive(Debug, Clone, Copy, PartialEq, Eq, Structural)]
pub struct SinkInfo {
    /// The format it was opened with.
    pub spec: SourceSpec,
    /// How many frames it can hold queued at most.
    pub capacity: u64,
}

/// What is known of the outside at the moment something happens.
#[derive(Debug, Clone, Copy, PartialEq, Eq, Structural)]
pub struct Seen {
    /// Frames that the open output holds and has not played; zero if none is open or it can't
    /// say.
    pub queued: u64,
    /// The time since some fixed moment.
    pub now: Duration,
}

/// How an audio output failed.
#[derive(Debug, PartialEq, Eq)]
pub enum SinkFailure {
    /// It went away: a Bluetooth speaker switched off, the sound server stopped.
    Gone(String),
    /// Anything else.
    Other(String),
}

/// The question that the engine waits to have answered before anything else happens.
#[derive(Debug, PartialEq, Eq)]
pub enum Asked {
    /// None.
    Nothing,
    /// Could an output be opened for this track?
    OpenForTrack(LoadedTrack),
    /// Could an output be opened again, to carry on?
    OpenForResume,
    /// Could the new output be opened, to carry on without a pause?
    OpenForSwitch,
    /// Could an output be opened for a track that was reopened at another position?
    OpenAfterSeek,
    /// Did the output pause? With what is to follow.
    Pause(Option<Release>),
    /// Did the output resume?
    Resume,
    /// Did the output play everything it held?
    Drain,
    /// Where did the source land?
    Seek,
}

/// One thing that the engine asks of the outside.
#[derive(Debug, PartialEq, Eq)]
pub enum Effect {
    /// Report this event.
    Emit(Event),
    /// Make this the status that everybody sees.
    Publish(Status),
    /// Open an audio output with this format, and answer with [`Asked::OpenForTrack`] and its
    /// like in mind.
    OpenSink(SourceSpec),
    /// Close the audio output.
    CloseSink,
    /// Give the sound card back to the desktop.
    ReleaseDevice,
    /// Pause the audio output, and answer.
    PauseSink,
    /// Resume the audio output, and answer.
    ResumeSink,
    /// Throw away everything queued in the audio output; a failure is only reported.
    FlushSink,
    /// Wait until everything queued in the audio output has been played, and answer.
    DrainSink,
    /// The audio of the track that was just loaded is the one to read from now on.
    UseSource,
    /// Drop the audio that was being read.
    DropSource,
    /// Reposition the audio, and answer where it landed.
    SeekSource(Duration),
    /// Drop this many frames of the audio, on top of any drop already pending.
    SkipFrames(u64),
    /// Give up the load that is under way, if one is.
    AbortLoad,
    /// Load a track, from `at` if the supplier can.
    Load {
        /// The number that the answer carries.
        generation: u64,
        /// What to load.
        target: LoadTarget,
        /// Where in the track to begin.
        at: Duration,
    },
    /// Tell every program that waits for the device whether it was given up.
    AnswerReleases(bool),
    /// Take outputs from the new place from now on.
    UseOutput,
    /// Tell whoever switched the output how it went.
    AnswerSwitch(Result<(), String>),
}

/// An [`Effect`] with its made-up texts as sequences of characters.
pub enum EffectView {
    /// See [`Effect::Emit`].
    Emit(EventView),
    /// See [`Effect::Publish`].
    Publish(Status),
    /// See [`Effect::OpenSink`].
    OpenSink(SourceSpec),
    /// See [`Effect::CloseSink`].
    CloseSink,
    /// See [`Effect::ReleaseDevice`].
    ReleaseDevice,
    /// See [`Effect::PauseSink`].
    PauseSink,
    /// See [`Effect::ResumeSink`].
    ResumeSink,
    /// See [`Effect::FlushSink`].
    FlushSink,
    /// See [`Effect::DrainSink`].
    DrainSink,
    /// See [`Effect::UseSource`].
    UseSource,
    /// See [`Effect::DropSource`].
    DropSource,
    /// See [`Effect::SeekSource`].
    SeekSource(Duration),
    /// See [`Effect::SkipFrames`].
    SkipFrames(u64),
    /// See [`Effect::AbortLoad`].
    AbortLoad,
    /// See [`Effect::Load`].
    Load(u64, LoadTarget, Duration),
    /// See [`Effect::AnswerReleases`].
    AnswerReleases(bool),
    /// See [`Effect::UseOutput`].
    UseOutput,
    /// See [`Effect::AnswerSwitch`]; with what went wrong, if something did.
    AnswerSwitch(Option<Seq<char>>),
}

impl View for Effect {
    type V = EffectView;

    open spec fn view(&self) -> EffectView {
        match *self {
            Effect::Emit(event) => EffectView::Emit(event@),
            Effect::Publish(status) => EffectView::Publish(status),
            Effect::OpenSink(spec) => EffectView::OpenSink(spec),
            Effect::CloseSink => EffectView::CloseSink,
            Effect::ReleaseDevice => EffectView::ReleaseDevice,
            Effect::PauseSink => EffectView::PauseSink,
            Effect::ResumeSink => EffectView::ResumeSink,
            Effect::FlushSink => EffectView::FlushSink,
            Effect::DrainSink => EffectView::DrainSink,
            Effect::UseSource => EffectView::UseSource,
            Effect::DropSource => EffectView::DropSource,
            Effect::SeekSource(at) => EffectView::SeekSource(at),
            Effect::SkipFrames(frames) => EffectView::SkipFrames(frames),
            Effect::AbortLoad => EffectView::AbortLoad,
            Effect::Load { generation, target, at } => EffectView::Load(generation, target, at),
            Effect::AnswerReleases(given) => EffectView::AnswerReleases(given),
            Effect::UseOutput => EffectView::UseOutput,
            Effect::AnswerSwitch(Ok(_)) => EffectView::AnswerSwitch(None),
            Effect::AnswerSwitch(Err(why)) => EffectView::AnswerSwitch(Some(why@)),
        }
    }
}

/// Effects in order, as their views.
pub open spec fn effects_view(effects: Seq<Effect>) -> Seq<EffectView> {
    effects.map_values(|effect: Effect| effect@)
}

/// A span of time of `nanos` nanoseconds, at most the longest one.
pub open spec fn span(nanos: nat) -> Duration {
    Duration { nanos: at_most(nanos, MAX_NANOS as nat) as u128 }
}

/// `a - b`, or nothing if `b` is longer.
pub open spec fn span_less(a: Duration, b: Duration) -> Duration {
    Duration {
        nanos: if a@ >= b@ {
            (a@ - b@) as u128
        } else {
            0
        },
    }
}

/// `count`, at most what 64 bits hold.
pub open spec fn capped(count: nat) -> u64 {
    if count <= u64::MAX {
        count as u64
    } else {
        u64::MAX
    }
}

/// What is said when something fails while the engine is busy with `doing`.
pub open spec fn in_context(doing: Seq<char>, cause: Seq<char>) -> Seq<char> {
    doing + ": "@ + cause
}

/// What is said when the output went away.
pub open spec fn gone_text(why: Seq<char>) -> Seq<char> {
    "the audio output is gone: "@ + why
}

/// The last `count` elements of `s`, or all of them if there are fewer.
pub open spec fn last_of<A>(s: Seq<A>, count: nat) -> Seq<A> {
    if count < s.len() {
        s.skip(s.len() - count)
    } else {
        s
    }
}

/// The track being played and how far into it the engine is.
#[verifier::ext_equal]
pub struct PlayingModel {
    /// What is known about it.
    pub meta: TrackMeta,
    /// Its format.
    pub spec: SourceSpec,
    /// Whether there is audio to read; there is none while the track is being reopened for a
    /// seek.
    pub has_source: bool,
    /// How it can be moved around in.
    pub seek: SeekMode,
    /// Samples that were read and are still to be handed to the output.
    pub pending: Seq<i32>,
    /// The samples that were handed to the output last, as many as it can hold.
    pub kept: Seq<i32>,
    /// Whether the output itself was paused.
    pub sink_paused: bool,
    /// Frames handed to the output since the track started or was last repositioned.
    pub frames_written: u64,
    /// Where in the track the first of those frames sits.
    pub base: Duration,
    /// The length of the track, if known.
    pub duration: Option<Duration>,
    /// What the listener had heard when the position was last reported.
    pub position: Duration,
    /// When that was.
    pub last_position_at: Duration,
}

impl PlayingModel {
    /// What the listener has heard, when the output holds `queued` frames unplayed: everything
    /// handed to it except those.
    pub open spec fn heard(self, queued: u64) -> Duration {
        let heard = if self.frames_written >= queued {
            self.frames_written - queued
        } else {
            0
        };
        span(self.base@ + frames_nanos(heard as nat, self.spec.sample_rate))
    }

    /// The samples that an output holding `queued` frames has not played.
    pub open spec fn unheard(self, queued: u64) -> Seq<i32> {
        last_of(self.kept, queued as nat * self.spec.channels as nat)
    }

    /// The track once an output holding `queued` frames was closed: what it had not played goes
    /// back to the samples that are still to be played.
    pub open spec fn taken_back(self, queued: u64) -> PlayingModel {
        let unheard = self.unheard(queued);
        let frames = unheard.len() / self.spec.channels as nat;
        PlayingModel {
            pending: unheard + self.pending,
            kept: Seq::empty(),
            frames_written: if self.frames_written >= frames {
                (self.frames_written - frames) as u64
            } else {
                0
            },
            sink_paused: false,
            ..self
        }
    }

    /// Where in the track the next sample to be read sits.
    pub open spec fn read_until(self) -> Duration {
        let frames = capped(
            self.frames_written as nat + self.pending.len() / self.spec.channels as nat,
        );
        span(self.base@ + frames_nanos(frames as nat, self.spec.sample_rate))
    }

    /// The listener's position is now `position`, with nothing queued anywhere.
    pub open spec fn rebased(self, position: Duration) -> PlayingModel {
        PlayingModel {
            base: position,
            frames_written: 0,
            pending: Seq::empty(),
            kept: Seq::empty(),
            position,
            sink_paused: false,
            ..self
        }
    }
}

/// The whole engine.
#[verifier::ext_equal]
pub struct Model {
    /// Its tunables.
    pub options: Options,
    /// What it is doing.
    pub state: State,
    /// The number of the load that is awaited. A result carrying another number answers a
    /// question nobody is asking any more.
    pub generation: u64,
    /// A pause arrived while the track was still loading: start it paused.
    pub pause_when_ready: bool,
    /// So did a wish for the device: hand it back then.
    pub release_when_ready: Option<Release>,
    /// The open output. It is kept between tracks of the same format.
    pub sink: Option<SinkInfo>,
    /// Whether the device was handed back while a track was loaded.
    pub released: bool,
    /// Who had asked for it.
    pub released_by: Option<String>,
    /// The current track.
    pub current: Option<PlayingModel>,
    /// When the current pause began.
    pub paused_at: Option<Duration>,
    /// The question that is to be answered first.
    pub asked: Asked,
    /// What the outside was asked to do so far, in order.
    pub out: Seq<EffectView>,
}

impl Model {
    /// A fresh engine.
    pub open spec fn fresh(options: Options) -> Model {
        Model {
            options,
            state: State::Stopped,
            generation: 0,
            pause_when_ready: false,
            release_when_ready: None,
            sink: None,
            released: false,
            released_by: None,
            current: None,
            paused_at: None,
            asked: Asked::Nothing,
            out: Seq::empty(),
        }
    }

    /// What holds of the engine at every moment.
    pub open spec fn wf(self) -> bool {
        let ready = self.asked is Nothing;
        &&& self.current is None <==> (self.state is Stopped || self.state is Loading)
        &&& self.state is Stopped ==> self.sink is None && !self.released
        &&& self.pause_when_ready ==> self.state is Loading || self.state is Seeking
        &&& self.release_when_ready is Some ==> self.pause_when_ready
        &&& self.released ==> self.sink is None
        &&& self.paused_at is Some <==> self.state is Paused
        &&& self.current matches Some(p) ==> {
            &&& p.spec.channels > 0
            &&& self.sink matches Some(sink) ==> sink.spec == p.spec
            &&& self.sink is None && !(self.asked is OpenForSwitch) ==> self.released
            &&& self.state is Playing ==> p.has_source && (self.sink is Some
                || self.asked is OpenForSwitch)
            &&& self.state is Paused ==> p.has_source
            &&& self.state is Seeking ==> p.seek is Reopen || self.asked is OpenAfterSeek
            &&& self.state is Seeking ==> (p.has_source <==> self.asked is OpenAfterSeek)
            &&& p.sink_paused ==> self.state is Paused && self.sink is Some
        }
        &&& match self.asked {
            Asked::Nothing => true,
            Asked::OpenForTrack(track) => self.state is Loading && self.sink is None
                && track.spec.channels > 0,
            Asked::OpenForResume => self.state is Paused && self.sink is None,
            Asked::OpenForSwitch => self.state is Playing && self.sink is None,
            Asked::OpenAfterSeek => self.state is Seeking && self.sink is None
                && !self.pause_when_ready,
            Asked::Pause(_) => self.state is Playing && self.sink is Some,
            Asked::Resume => self.state is Paused && self.sink is Some,
            Asked::Drain => self.state is Playing && self.sink is Some,
            Asked::Seek => self.state is Playing || self.state is Paused,
        }
    }

    /// Whether something new can happen.
    pub open spec fn ready(self) -> bool {
        self.wf() && self.asked is Nothing
    }

    // ---- the small steps -------------------------------------------------------------------

    /// One more thing is asked of the outside.
    pub open spec fn does(self, effect: EffectView) -> Model {
        Model { out: self.out.push(effect), ..self }
    }

    /// One more event is reported.
    pub open spec fn emit(self, event: EventView) -> Model {
        self.does(EffectView::Emit(event))
    }

    /// What the engine is doing with the audio device.
    pub open spec fn output(self) -> OutputState {
        if self.sink is Some {
            OutputState::Open
        } else if self.released {
            OutputState::Released { by: self.released_by }
        } else {
            OutputState::Closed
        }
    }

    /// The snapshot that everybody sees.
    pub open spec fn status(self) -> Status {
        match self.current {
            Some(p) => Status {
                state: self.state,
                track: Some(p.meta),
                spec: Some(p.spec),
                position: p.position,
                duration: p.duration,
                output: self.output(),
            },
            None => Status {
                state: self.state,
                track: None,
                spec: None,
                position: Duration { nanos: 0 },
                duration: None,
                output: self.output(),
            },
        }
    }

    /// The status is published.
    pub open spec fn publish(self) -> Model {
        self.does(EffectView::Publish(self.status()))
    }

    /// The engine is now in `state`, which is reported if it was not before.
    pub open spec fn enter(self, state: State, now: Duration) -> Model {
        let next = Model {
            state,
            paused_at: if state is Paused {
                Some(now)
            } else {
                None
            },
            ..self
        }.publish();
        if self.state == state {
            next
        } else {
            next.emit(EventView::StateChanged(state))
        }
    }

    /// The position is what has been heard, and is reported.
    pub open spec fn report_position(self, seen: Seen) -> Model {
        match self.current {
            Some(p) => {
                let position = p.heard(seen.queued);
                Model {
                    current: Some(
                        PlayingModel { position, last_position_at: seen.now, ..p },
                    ),
                    ..self
                }.publish().emit(EventView::Position(position, p.duration))
            },
            None => self,
        }
    }

    /// What the open output holds is thrown away.
    pub open spec fn flush(self) -> Model {
        if self.sink is Some {
            self.does(EffectView::FlushSink)
        } else {
            self
        }
    }

    /// The current track is over.
    pub open spec fn end_track(self, reason: EndReason) -> Model {
        match self.current {
            Some(p) => Model { current: None, ..self }.does(EffectView::DropSource).emit(
                EventView::TrackEnded(p.meta, reason),
            ),
            None => self,
        }
    }

    /// The current track is cut short; what is queued of it is never heard.
    pub open spec fn interrupt(self) -> Model {
        if self.current is Some {
            self.flush().end_track(EndReason::Interrupted)
        } else {
            self
        }
    }

    /// No load is awaited any more.
    pub open spec fn cancel_load(self) -> Model {
        Model { generation: self.generation.wrapping_add(1), ..self }.does(EffectView::AbortLoad)
    }

    /// Everything ends: no load, no output, no wish for the device left open.
    pub open spec fn shut(self, now: Duration) -> Model {
        let quiet = self.cancel_load();
        let closed = if quiet.sink is Some {
            quiet.does(EffectView::CloseSink)
        } else {
            quiet
        };
        Model {
            pause_when_ready: false,
            release_when_ready: None,
            sink: None,
            released: false,
            released_by: None,
            asked: Asked::Nothing,
            ..closed
        }.does(EffectView::ReleaseDevice).does(EffectView::AnswerReleases(true)).enter(
            State::Stopped,
            now,
        )
    }

    /// Playback stops and the audio device is released.
    pub open spec fn stop(self, now: Duration) -> Model {
        self.interrupt().shut(now)
    }

    /// Something went wrong: it is reported, and everything stops.
    pub open spec fn fail(self, message: Seq<char>, now: Duration) -> Model {
        self.emit(EventView::Error(message)).end_track(EndReason::Failed).shut(now)
    }

    /// A wish for the device that waited for a track no longer applies.
    pub open spec fn forget_release(self) -> Model {
        if self.release_when_ready is Some {
            Model { release_when_ready: None, ..self }.does(EffectView::AnswerReleases(false))
        } else {
            self
        }
    }

    /// A track is asked for, from `at`, and awaited in `state`.
    pub open spec fn begin_load(
        self,
        target: LoadTarget,
        at: Duration,
        state: State,
        pause: bool,
        now: Duration,
    ) -> Model {
        let quiet = self.cancel_load();
        let settled = if pause {
            quiet
        } else {
            quiet.forget_release()
        };
        let next = Model { pause_when_ready: pause, ..settled }.enter(state, now);
        next.does(EffectView::Load(next.generation, target, at))
    }

    /// A track is asked for. A pause applies to the track being loaded, not to whichever one
    /// replaces it.
    pub open spec fn request_load(self, target: LoadTarget, now: Duration) -> Model {
        self.begin_load(target, Duration { nanos: 0 }, State::Loading, false, now)
    }

    // ---- the device ------------------------------------------------------------------------

    /// The device is handed back. What it had not played goes back to the samples that are still
    /// to be played, so nothing is lost.
    pub open spec fn let_go(self, release: Release, seen: Seen) -> Model {
        let closed = if self.sink is Some {
            self.does(EffectView::CloseSink)
        } else {
            self
        };
        let current = match self.current {
            Some(p) if self.sink is Some => Some(p.taken_back(seen.queued)),
            other => other,
        };
        Model { current, sink: None, released: true, released_by: release.by, ..closed }.does(
            EffectView::ReleaseDevice,
        ).publish().emit(EventView::OutputReleased(release.by, release.reason)).does(
            EffectView::AnswerReleases(true),
        )
    }

    /// An output was opened.
    pub open spec fn take_device(self, sink: SinkInfo) -> Model {
        let next = Model { sink: Some(sink), released: false, released_by: None, ..self };
        if self.released {
            next.emit(EventView::OutputAcquired)
        } else {
            next
        }
    }

    /// The output went away underneath the engine: it pauses on the track.
    pub open spec fn lose_output(self, why: Seq<char>, seen: Seen) -> Model {
        Model { asked: Asked::Nothing, ..self }.emit(EventView::Error(gone_text(why))).enter(
            State::Paused,
            seen.now,
        ).let_go(Release { by: None, reason: ReleaseReason::Lost }, seen)
    }

    // ---- commands --------------------------------------------------------------------------

    /// A pause.
    pub open spec fn pause(self) -> Model {
        match self.state {
            State::Loading | State::Seeking => Model { pause_when_ready: true, ..self },
            State::Playing => Model { asked: Asked::Pause(None), ..self }.does(
                EffectView::PauseSink,
            ),
            State::Paused | State::Stopped => self,
        }
    }

    /// The end of a pause.
    pub open spec fn resume(self, now: Duration) -> Model {
        match self.state {
            State::Loading | State::Seeking => Model {
                pause_when_ready: false,
                ..self.forget_release()
            },
            State::Paused => match self.current {
                Some(p) => if self.sink is None {
                    Model { asked: Asked::OpenForResume, ..self }.does(EffectView::OpenSink(p.spec))
                } else if p.sink_paused {
                    Model { asked: Asked::Resume, ..self }.does(EffectView::ResumeSink)
                } else {
                    self.enter(State::Playing, now)
                },
                None => self,
            },
            State::Playing | State::Stopped => self,
        }
    }

    /// A wish for the device.
    pub open spec fn release(self, release: Release, seen: Seen) -> Model {
        match self.state {
            State::Stopped => self.does(EffectView::AnswerReleases(true)),
            State::Loading | State::Seeking => Model {
                pause_when_ready: true,
                release_when_ready: Some(release),
                ..self
            },
            State::Playing => Model { asked: Asked::Pause(Some(release)), ..self }.does(
                EffectView::PauseSink,
            ),
            State::Paused => if self.sink is Some {
                self.let_go(release, seen)
            } else {
                self.does(EffectView::AnswerReleases(true))
            },
        }
    }

    /// Where a seek points, from what has been heard.
    pub open spec fn seek_at(self, target: SeekTarget, seen: Seen) -> Duration {
        let from = match self.current {
            Some(p) => p.heard(seen.queued),
            None => Duration { nanos: 0 },
        };
        match target {
            SeekTarget::Absolute(at) => at,
            SeekTarget::Forward(by) => span(from@ + by@),
            SeekTarget::Backward(by) => span_less(from, by),
        }
    }

    /// A seek that can't be done.
    pub open spec fn reject_seek(self, reason: Seq<char>) -> Model {
        self.emit(EventView::SeekRejected(reason))
    }

    /// The listener's position is now `position`, and is reported.
    pub open spec fn reposition(self, position: Duration, seen: Seen) -> Model {
        match self.current {
            Some(p) => Model { current: Some(p.rebased(position)), ..self },
            None => self,
        }.emit(EventView::Seeked(position)).report_position(seen)
    }

    /// A seek.
    pub open spec fn seek(self, target: SeekTarget, seen: Seen) -> Model {
        match self.current {
            None => self.reject_seek("nothing is playing"@),
            Some(p) => {
                let at = self.seek_at(target, seen);
                if p.seek is Unseekable {
                    self.reject_seek("this track can't be seeked"@)
                } else if p.duration is Some && at@ >= p.duration->0@ {
                    self.flush().end_track(EndReason::Completed).request_load(
                        LoadTarget::Advance(Advance::Auto),
                        seen.now,
                    )
                } else {
                    match p.seek {
                        SeekMode::InPlace => Model { asked: Asked::Seek, ..self.flush() }.does(
                            EffectView::SeekSource(at),
                        ),
                        SeekMode::ForwardOnly => self.seek_forward(p, at, seen),
                        _ => self.seek_reopen(p, at, seen),
                    }
                }
            },
        }
    }

    /// A seek in one continuous stream: it can skip ahead of what it has already decoded, and
    /// nothing else.
    pub open spec fn seek_forward(self, p: PlayingModel, at: Duration, seen: Seen) -> Model {
        if at@ < p.read_until()@ {
            self.reject_seek("this stream can only seek forward, past what is already buffered"@)
        } else {
            let skip = capped(
                nearest_frames((at@ - p.read_until()@) as nat, p.spec.sample_rate),
            );
            self.flush().does(EffectView::SkipFrames(skip)).reposition(at, seen)
        }
    }

    /// A seek in a stream that can't rewind: it is dropped, and the track opened at the target.
    pub open spec fn seek_reopen(self, p: PlayingModel, at: Duration, seen: Seen) -> Model {
        let paused = self.state is Paused || (self.state is Seeking && self.pause_when_ready);
        Model {
            current: Some(PlayingModel { has_source: false, ..p }.rebased(at)),
            ..self.flush().does(EffectView::DropSource)
        }.begin_load(LoadTarget::Track(p.meta.track), at, State::Seeking, paused, seen.now).emit(
            EventView::Seeked(at),
        ).report_position(seen)
    }

    // ---- answers ---------------------------------------------------------------------------

    /// The track is loaded and its output open: it starts.
    pub open spec fn begin_track(self, track: LoadedTrack, seen: Seen) -> Model {
        let started = Model {
            current: Some(
                PlayingModel {
                    meta: track.meta,
                    spec: track.spec,
                    has_source: true,
                    seek: track.seek,
                    pending: Seq::empty(),
                    kept: Seq::empty(),
                    sink_paused: false,
                    frames_written: 0,
                    base: track.start,
                    duration: if track.meta.duration is Some {
                        track.meta.duration
                    } else {
                        track.source_duration
                    },
                    position: track.start,
                    last_position_at: seen.now,
                },
            ),
            asked: Asked::Nothing,
            ..self
        }.does(EffectView::UseSource).emit(EventView::TrackStarted(track.meta, track.spec));
        started.carry_on(seen)
    }

    /// A track that was waited for is there: it plays, or pauses if that was asked meanwhile.
    pub open spec fn carry_on(self, seen: Seen) -> Model {
        let next = Model { pause_when_ready: false, release_when_ready: None, ..self }.enter(
            if self.pause_when_ready {
                State::Paused
            } else {
                State::Playing
            },
            seen.now,
        ).report_position(seen);
        match self.release_when_ready {
            Some(release) => next.let_go(release, seen),
            None => next,
        }
    }

    /// A track was loaded: it starts once an output of its format is open.
    pub open spec fn start_track(self, track: LoadedTrack, seen: Seen) -> Model {
        match self.sink {
            Some(sink) if sink.spec == track.spec => self.begin_track(track, seen),
            Some(_) => Model {
                sink: None,
                asked: Asked::OpenForTrack(track),
                ..self.does(EffectView::CloseSink)
            }.does(EffectView::OpenSink(track.spec)),
            None => Model { asked: Asked::OpenForTrack(track), ..self }.does(
                EffectView::OpenSink(track.spec),
            ),
        }
    }

    /// The reopened track arrived: the rest up to the exact target is skipped.
    pub open spec fn finish_seek(self, track: LoadedTrack, seen: Seen) -> Model {
        match self.current {
            None => self,
            Some(p) => if track.spec != p.spec {
                self.fail(
                    "the reopened track has a different format than the one that was playing"@,
                    seen.now,
                )
            } else {
                let short = track.start@ <= p.base@;
                let landed = if short {
                    p.base
                } else {
                    track.start
                };
                let next = Model {
                    current: Some(
                        PlayingModel {
                            has_source: true,
                            seek: track.seek,
                            base: landed,
                            position: landed,
                            ..p
                        },
                    ),
                    ..self.does(EffectView::UseSource)
                };
                let placed = if short {
                    next.does(
                        EffectView::SkipFrames(
                            capped(
                                nearest_frames(
                                    (p.base@ - track.start@) as nat,
                                    p.spec.sample_rate,
                                ),
                            ),
                        ),
                    )
                } else {
                    next
                };
                if placed.sink is None && !placed.pause_when_ready {
                    Model { asked: Asked::OpenAfterSeek, ..placed }.does(
                        EffectView::OpenSink(p.spec),
                    )
                } else {
                    placed.carry_on(seen)
                }
            },
        }
    }

    /// Whether a load result carrying `generation` is the one that is awaited.
    pub open spec fn is_awaited(self, generation: u64) -> bool {
        (self.state is Loading || self.state is Seeking) && generation == self.generation
    }

    /// A load came to its end.
    pub open spec fn loaded(self, generation: u64, track: LoadedTrack, seen: Seen) -> Model {
        if !self.is_awaited(generation) {
            self
        } else if self.state is Seeking {
            self.finish_seek(track, seen)
        } else {
            self.start_track(track, seen)
        }
    }

    /// A load failed.
    pub open spec fn load_failed(self, generation: u64, error: Seq<char>, now: Duration) -> Model {
        if self.is_awaited(generation) {
            self.fail(error, now)
        } else {
            self
        }
    }

    /// There was nothing to load.
    pub open spec fn exhausted(self, generation: u64, now: Duration) -> Model {
        if self.is_awaited(generation) {
            self.emit(EventView::QueueExhausted).stop(now)
        } else {
            self
        }
    }

    /// The output paused, or failed to.
    pub open spec fn paused(self, failure: Option<Seq<char>>, seen: Seen) -> Model {
        match failure {
            Some(cause) => self.fail(in_context("pausing the audio output"@, cause), seen.now),
            None => {
                let then = self.asked->Pause_0;
                let next = Model {
                    asked: Asked::Nothing,
                    current: match self.current {
                        Some(p) => Some(PlayingModel { sink_paused: true, ..p }),
                        None => None,
                    },
                    ..self
                }.enter(State::Paused, seen.now).report_position(seen);
                match then {
                    Some(release) => next.let_go(release, seen),
                    None => next,
                }
            },
        }
    }

    /// The output resumed, or failed to.
    pub open spec fn resumed(self, failure: Option<Seq<char>>, now: Duration) -> Model {
        match failure {
            Some(cause) => self.fail(in_context("resuming the audio output"@, cause), now),
            None => Model {
                asked: Asked::Nothing,
                current: match self.current {
                    Some(p) => Some(PlayingModel { sink_paused: false, ..p }),
                    None => None,
                },
                ..self
            }.enter(State::Playing, now),
        }
    }

    /// The source landed somewhere, or failed to.
    pub open spec fn sought(
        self,
        landed: Option<Duration>,
        cause: Seq<char>,
        seen: Seen,
    ) -> Model {
        match landed {
            Some(position) => Model { asked: Asked::Nothing, ..self }.reposition(position, seen),
            None => self.fail(in_context("seeking in the track"@, cause), seen.now),
        }
    }

    /// The output played everything it held: the track is over, and the next one is asked for.
    pub open spec fn drained(self, seen: Seen) -> Model {
        Model { asked: Asked::Nothing, ..self }.report_position(seen).end_track(
            EndReason::Completed,
        ).request_load(LoadTarget::Advance(Advance::Auto), seen.now)
    }

    /// An output could not be opened.
    pub open spec fn not_opened(self, cause: Seq<char>, now: Duration) -> Model {
        let message = in_context("opening the audio output"@, cause);
        let next = Model { asked: Asked::Nothing, ..self };
        match self.asked {
            Asked::OpenForResume => next.emit(EventView::Error(message)),
            Asked::OpenAfterSeek => next.emit(EventView::Error(message)).enter(
                State::Paused,
                now,
            ),
            Asked::OpenForSwitch => Model { released: true, released_by: None, ..next }.enter(
                State::Paused,
                now,
            ).emit(EventView::OutputReleased(None, ReleaseReason::Command)).does(
                EffectView::AnswerSwitch(Some(message)),
            ),
            _ => self.fail(message, now),
        }
    }

    /// An output was opened.
    pub open spec fn opened(self, capacity: u64, seen: Seen) -> Model {
        let next = Model { asked: Asked::Nothing, ..self };
        match self.asked {
            Asked::OpenForTrack(track) => next.take_device(
                SinkInfo { spec: track.spec, capacity },
            ).begin_track(track, seen),
            Asked::OpenForResume => next.take_device(
                SinkInfo { spec: self.current->0.spec, capacity },
            ).enter(State::Playing, seen.now),
            Asked::OpenForSwitch => next.take_device(
                SinkInfo { spec: self.current->0.spec, capacity },
            ).publish().does(EffectView::AnswerSwitch(None)),
            Asked::OpenAfterSeek => next.take_device(
                SinkInfo { spec: self.current->0.spec, capacity },
            ).carry_on(seen),
            _ => self,
        }
    }

    // ---- playing ---------------------------------------------------------------------------

    /// The next samples were read; `None` at the end of the track.
    pub open spec fn chunk(self, samples: Option<Seq<i32>>) -> Model {
        match (self.current, samples) {
            (Some(p), Some(samples)) => Model {
                current: Some(PlayingModel { pending: samples, ..p }),
                ..self
            },
            (Some(_), None) => Model { asked: Asked::Drain, ..self }.does(EffectView::DrainSink),
            (None, _) => self,
        }
    }

    /// The output took `frames` frames of what is pending. One that takes nothing from a partial
    /// frame would otherwise be offered it forever, so the rest is dropped then.
    pub open spec fn written(self, frames: usize, seen: Seen) -> Model {
        match self.current {
            None => self,
            Some(p) => {
                let taken = frames as int * p.spec.channels as int;
                let limit = self.sink->0.capacity as nat * p.spec.channels as nat;
                let next = Model {
                    current: Some(
                        PlayingModel {
                            pending: if frames == 0 {
                                Seq::empty()
                            } else {
                                p.pending.skip(taken)
                            },
                            kept: last_of(p.kept + p.pending.take(taken), limit),
                            frames_written: capped(p.frames_written as nat + frames as nat),
                            ..p
                        },
                    ),
                    ..self
                };
                if span_less(seen.now, p.last_position_at)@ >= self.options.position_interval@ {
                    next.report_position(seen)
                } else {
                    next
                }
            },
        }
    }

    /// Whether the pause has lasted long enough for the device to be handed back.
    pub open spec fn idle_at(self, now: Duration) -> bool {
        &&& self.state is Paused
        &&& self.sink is Some
        &&& self.paused_at is Some
        &&& self.options.release_after_pause is Some
        &&& span_less(now, self.paused_at->0)@ >= self.options.release_after_pause->0@
    }

    /// Time passed.
    pub open spec fn tick(self, seen: Seen) -> Model {
        if self.idle_at(seen.now) {
            self.let_go(Release { by: None, reason: ReleaseReason::Idle }, seen)
        } else {
            self
        }
    }

    // ---- everything that can be told -------------------------------------------------------

    /// What a command does.
    pub open spec fn command(self, command: Command, seen: Seen) -> Model {
        match command {
            Command::Play(Some(track)) => self.interrupt().request_load(
                LoadTarget::Track(track),
                seen.now,
            ),
            Command::Play(None) => if self.state is Stopped {
                self.request_load(LoadTarget::Advance(Advance::Auto), seen.now)
            } else {
                self
            },
            Command::Next => self.interrupt().request_load(
                LoadTarget::Advance(Advance::Next),
                seen.now,
            ),
            Command::Previous => {
                let restart = self.current is Some && self.current->0.heard(seen.queued)@
                    >= PREVIOUS_RESTART_AFTER;
                self.interrupt().request_load(
                    LoadTarget::Advance(
                        if restart {
                            Advance::Restart
                        } else {
                            Advance::Previous
                        },
                    ),
                    seen.now,
                )
            },
            Command::Stop => self.stop(seen.now),
            Command::Pause => self.pause(),
            Command::Resume => self.resume(seen.now),
            Command::TogglePause => if (self.state is Playing || self.state is Loading
                || self.state is Seeking) && !self.pause_when_ready {
                self.pause()
            } else {
                self.resume(seen.now)
            },
            Command::Seek(target) => self.seek(target, seen),
            Command::Release => if self.state is Stopped {
                self
            } else {
                self.release(Release { by: None, reason: ReleaseReason::Command }, seen)
            },
        }
    }

    // ---- switching the output --------------------------------------------------------------

    /// Outputs are taken from another place from now on. The old output is closed and its device
    /// given back; what it had not played goes to the new one.
    pub open spec fn set_output(self, seen: Seen) -> Model {
        let closed = if self.sink is Some {
            self.does(EffectView::CloseSink)
        } else {
            self
        };
        let moved = match self.current {
            Some(p) if self.sink is Some => Some(p.taken_back(seen.queued)),
            other => other,
        };
        let next = Model { current: moved, sink: None, ..closed }.does(
            EffectView::ReleaseDevice,
        ).does(EffectView::UseOutput);
        match self.state {
            State::Playing => Model { asked: Asked::OpenForSwitch, ..next }.does(
                EffectView::OpenSink(self.current->0.spec),
            ),
            State::Paused | State::Seeking => Model {
                released: true,
                released_by: if self.released {
                    self.released_by
                } else {
                    None
                },
                ..next
            }.publish().does(EffectView::AnswerSwitch(None)),
            State::Loading | State::Stopped => next.publish().does(EffectView::AnswerSwitch(None)),
        }
    }
}

} // verus!
