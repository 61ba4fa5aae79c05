//! The audio thread's decisions: the engine's state machine, without the device, the decoder and
//! the clock that it runs on.
//!
//! Whoever runs it hands in what happened ([`AudioThread::handle`] and the answers to what the
//! engine asked) and does, in order, what [`AudioThread::take_effects`] gives back.

use super::laws;
use super::model::{
    capped, effects_view, gone_text, in_context, last_of, span, span_less, Asked, Effect,
    EffectView, LoadTarget, Model, PlayingModel, Release, Seen, SinkFailure, SinkInfo,
};
use super::supplier::{Advance, LoadedTrack, SeekMode};
use super::types::{
    copied_text, Command, EndReason, Event, EventView, OutputState, ReleaseReason, SeekTarget,
    State, Status, TrackMeta, TrackRef,
};
use super::{Options, PREVIOUS_RESTART_AFTER};
use crate::decode::{
    duration_to_frames, frames_nanos, frames_to_duration, nearest_frames, SourceSpec,
};
use crate::time::Duration;
use vstd::prelude::*;

verus! {

/// The track being played and how far into it the engine is.
struct Playing {
    meta: TrackMeta,
    spec: SourceSpec,
    has_source: bool,
    seek: SeekMode,
    pending: Vec<i32>,
    kept: Vec<i32>,
    sink_paused: bool,
    frames_written: u64,
    base: Duration,
    duration: Option<Duration>,
    position: Duration,
    last_position_at: Duration,
}

impl Playing {
    spec fn view(self) -> PlayingModel {
        PlayingModel {
            meta: self.meta,
            spec: self.spec,
            has_source: self.has_source,
            seek: self.seek,
            pending: self.pending@,
            kept: self.kept@,
            sink_paused: self.sink_paused,
            frames_written: self.frames_written,
            base: self.base,
            duration: self.duration,
            position: self.position,
            last_position_at: self.last_position_at,
        }
    }

    fn heard(&self, queued: u64) -> (r: Duration)
        ensures
            r == self@.heard(queued),
    {
        let heard: u64 = self.frames_written.saturating_sub(queued);
        self.base.saturating_add(frames_to_duration(heard, self.spec.sample_rate))
    }

    fn rebase(&mut self, position: Duration)
        ensures
            final(self)@ == old(self)@.rebased(position),
    {
        self.base = position;
        self.frames_written = 0;
        self.pending = Vec::new();
        self.kept = Vec::new();
        self.position = position;
        self.sink_paused = false;
        assert(self@ =~= old(self)@.rebased(position));
    }

    fn take_back(&mut self, queued: u64)
        requires
            old(self).spec.channels > 0,
        ensures
            final(self)@ == old(self)@.taken_back(queued),
    {
        assert(0 <= queued as int * self.spec.channels as int <= 0xffff_ffff_ffff_ffff
            * 0xffff_ffff) by (nonlinear_arith)
            requires
                0 <= queued as int <= 0xffff_ffff_ffff_ffff,
                0 <= self.spec.channels as int <= 0xffff_ffff,
        ;
        let count: u128 = queued as u128 * self.spec.channels as u128;
        let mut kept: Vec<i32> = Vec::new();
        std::mem::swap(&mut kept, &mut self.kept);
        let mut unheard: Vec<i32> = last_part(kept, count);
        let frames: u64 = (unheard.len() / self.spec.channels as usize) as u64;
        unheard.append(&mut self.pending);
        self.pending = unheard;
        self.frames_written = self.frames_written.saturating_sub(frames);
        self.sink_paused = false;
        assert(self@ =~= old(self)@.taken_back(queued));
    }
}

/// The last `count` samples, or all of them if there are fewer.
fn last_part(samples: Vec<i32>, count: u128) -> (r: Vec<i32>)
    ensures
        r@ == last_of(samples@, count as nat),
{
    let mut samples = samples;
    if count < samples.len() as u128 {
        let at: usize = samples.len() - count as usize;
        samples.split_off(at)
    } else {
        samples
    }
}

/// Everything the audio thread can be told.
#[derive(Debug, PartialEq, Eq)]
pub enum Msg {
    /// A command from a caller.
    Command(Command),
    /// A load came to its end.
    Loaded {
        /// The number that the load was asked for with.
        generation: u64,
        /// What was loaded.
        track: LoadedTrack,
    },
    /// A load failed.
    LoadFailed {
        /// The number that the load was asked for with.
        generation: u64,
        /// What went wrong.
        error: String,
    },
    /// There was nothing to load.
    QueueExhausted {
        /// The number that the load was asked for with.
        generation: u64,
    },
    /// Another program asks for the device.
    ReleaseRequested {
        /// Who asks, if known.
        by: Option<String>,
    },
    /// Outputs are to be taken from another place.
    SetOutput,
    /// Everything ends.
    Shutdown,
}

/// What each thing that the engine can be told does.
pub open spec fn told(engine: Model, msg: Msg, seen: Seen) -> Model {
    match msg {
        Msg::Command(command) => engine.command(command, seen),
        Msg::Loaded { generation, track } => engine.loaded(generation, track, seen),
        Msg::LoadFailed { generation, error } => engine.load_failed(generation, error@, seen.now),
        Msg::QueueExhausted { generation } => engine.exhausted(generation, seen.now),
        Msg::ReleaseRequested { by } => engine.release(
            Release { by, reason: ReleaseReason::Requested },
            seen,
        ),
        Msg::SetOutput => engine.set_output(seen),
        Msg::Shutdown => engine.stop(seen.now),
    }
}

/// What the engine wants to do next while it plays.
#[derive(Debug, Clone, Copy, PartialEq, Eq, Structural)]
pub enum Next {
    /// Wait for something to happen.
    Wait,
    /// Read the next samples of the track.
    Read,
    /// Hand the pending samples to the output.
    Write,
}

/// The engine's state machine.
pub struct AudioThread {
    options: Options,
    state: State,
    generation: u64,
    pause_when_ready: bool,
    release_when_ready: Option<Release>,
    sink: Option<SinkInfo>,
    released: bool,
    released_by: Option<String>,
    current: Option<Playing>,
    paused_at: Option<Duration>,
    asked: Asked,
    out: Vec<Effect>,
}

/// `cause`, with what the engine was busy with in front of it.
fn context(doing: &str, cause: &str) -> (r: String)
    ensures
        r@ == in_context(doing@, cause@),
{
    let mut text = String::new();
    text.push_str(doing);
    text.push_str(": ");
    text.push_str(cause);
    assert(text@ =~= in_context(doing@, cause@));
    text
}

impl View for AudioThread {
    type V = Model;

    closed spec fn view(&self) -> Model {
        Model {
            options: self.options,
            state: self.state,
            generation: self.generation,
            pause_when_ready: self.pause_when_ready,
            release_when_ready: self.release_when_ready,
            sink: self.sink,
            released: self.released,
            released_by: self.released_by,
            current: match self.current {
                Some(p) => Some(p@),
                None => None,
            },
            paused_at: self.paused_at,
            asked: self.asked,
            out: effects_view(self.out@),
        }
    }
}

impl AudioThread {
    /// A fresh engine: stopped, holding nothing.
    pub fn new(options: Options) -> (r: Self)
        ensures
            r@ == Model::fresh(options),
            r@.ready(),
    {
        let r = AudioThread {
            options,
            state: State::Stopped,
            generation: 0,
            pause_when_ready: false,
            release_when_ready: None,
            sink: None,
            released: false,
            released_by: None,
            current: None,
            paused_at: None,
            asked: Asked::Nothing,
            out: Vec::new(),
        };
        assert(r@ =~= Model::fresh(options));
        r
    }

    /// What the outside is to do, in order. The engine forgets it.
    pub fn take_effects(&mut self) -> (r: Vec<Effect>)
        ensures
            effects_view(r@) == old(self)@.out,
            final(self)@ == (Model { out: Seq::empty(), ..old(self)@ }),
    {
        let mut out: Vec<Effect> = Vec::new();
        std::mem::swap(&mut out, &mut self.out);
        assert(self@ =~= Model { out: Seq::empty(), ..old(self)@ });
        out
    }

    fn does(&mut self, effect: Effect)
        ensures
            final(self)@ == old(self)@.does(effect@),
    {
        self.out.push(effect);
        assert(self@ =~= old(self)@.does(effect@));
    }

    fn emit(&mut self, event: Event)
        ensures
            final(self)@ == old(self)@.emit(event@),
    {
        self.does(Effect::Emit(event));
    }

    /// A snapshot of the engine.
    pub fn status(&self) -> (r: Status)
        ensures
            r == self@.status(),
    {
        let output = if self.sink.is_some() {
            OutputState::Open
        } else if self.released {
            OutputState::Released { by: copied_text(&self.released_by) }
        } else {
            OutputState::Closed
        };
        match &self.current {
            Some(p) => Status {
                state: self.state,
                track: Some(p.meta.clone()),
                spec: Some(p.spec),
                position: p.position,
                duration: p.duration,
                output,
            },
            None => Status {
                state: self.state,
                track: None,
                spec: None,
                position: Duration::zero(),
                duration: None,
                output,
            },
        }
    }

    fn publish_status(&mut self)
        ensures
            final(self)@ == old(self)@.publish(),
    {
        let status = self.status();
        self.does(Effect::Publish(status));
    }

    fn set_state(&mut self, state: State, now: Duration)
        ensures
            final(self)@ == old(self)@.enter(state, now),
    {
        let changed = self.state != state;
        self.state = state;
        self.paused_at = match state {
            State::Paused => Some(now),
            _ => None,
        };
        self.publish_status();
        if changed {
            self.emit(Event::StateChanged(state));
        }
    }

    fn emit_position(&mut self, seen: Seen)
        ensures
            final(self)@ == old(self)@.report_position(seen),
    {
        match self.current.take() {
            Some(p) => {
                let mut p = p;
                let position = p.heard(seen.queued);
                p.position = position;
                p.last_position_at = seen.now;
                let duration = p.duration;
                self.current = Some(p);
                self.publish_status();
                self.emit(Event::Position { position, duration });
            },
            None => {},
        }
    }

    fn flush_sink(&mut self)
        ensures
            final(self)@ == old(self)@.flush(),
    {
        if self.sink.is_some() {
            self.does(Effect::FlushSink);
        }
    }

    fn end_track(&mut self, reason: EndReason)
        ensures
            final(self)@ == old(self)@.end_track(reason),
    {
        match self.current.take() {
            Some(p) => {
                self.does(Effect::DropSource);
                self.emit(Event::TrackEnded { meta: p.meta, reason });
            },
            None => {},
        }
    }

    fn interrupt_current(&mut self)
        ensures
            final(self)@ == old(self)@.interrupt(),
    {
        if self.current.is_some() {
            self.flush_sink();
            self.end_track(EndReason::Interrupted);
        }
    }

    fn cancel_load(&mut self)
        ensures
            final(self)@ == old(self)@.cancel_load(),
    {
        self.generation = self.generation.wrapping_add(1);
        self.does(Effect::AbortLoad);
    }

    fn shut(&mut self, now: Duration)
        ensures
            final(self)@ == old(self)@.shut(now),
    {
        self.cancel_load();
        if self.sink.is_some() {
            self.does(Effect::CloseSink);
        }
        self.pause_when_ready = false;
        self.release_when_ready = None;
        self.sink = None;
        self.released = false;
        self.released_by = None;
        self.asked = Asked::Nothing;
        self.does(Effect::ReleaseDevice);
        self.does(Effect::AnswerReleases(true));
        self.set_state(State::Stopped, now);
    }

    fn stop(&mut self, now: Duration)
        ensures
            final(self)@ == old(self)@.stop(now),
    {
        self.interrupt_current();
        self.shut(now);
    }

    fn fail(&mut self, message: String, now: Duration)
        ensures
            final(self)@ == old(self)@.fail(message@, now),
    {
        self.emit(Event::Error { message });
        self.end_track(EndReason::Failed);
        self.shut(now);
    }

    fn forget_release(&mut self)
        ensures
            final(self)@ == old(self)@.forget_release(),
    {
        if self.release_when_ready.is_some() {
            self.release_when_ready = None;
            self.does(Effect::AnswerReleases(false));
        }
    }

    fn begin_load(
        &mut self,
        target: LoadTarget,
        at: Duration,
        state: State,
        pause: bool,
        now: Duration,
    )
        ensures
            final(self)@ == old(self)@.begin_load(target, at, state, pause, now),
    {
        self.cancel_load();
        if !pause {
            self.forget_release();
        }
        self.pause_when_ready = pause;
        self.set_state(state, now);
        let generation: u64 = self.generation;
        self.does(Effect::Load { generation, target, at });
    }

    fn request_load(&mut self, target: LoadTarget, now: Duration)
        ensures
            final(self)@ == old(self)@.request_load(target, now),
    {
        self.begin_load(target, Duration { nanos: 0 }, State::Loading, false, now);
    }

    // ---- the device ------------------------------------------------------------------------

    fn take_back(&mut self, queued: u64)
        requires
            old(self)@.current matches Some(p) ==> p.spec.channels > 0,
        ensures
            final(self)@ == (Model {
                current: match old(self)@.current {
                    Some(p) if old(self)@.sink is Some => Some(p.taken_back(queued)),
                    other => other,
                },
                sink: None,
                ..old(self)@
            }),
    {
        if self.sink.is_some() {
            match self.current.take() {
                Some(p) => {
                    let mut p = p;
                    p.take_back(queued);
                    self.current = Some(p);
                },
                None => {},
            }
        }
        self.sink = None;
    }

    fn let_go(&mut self, release: Release, seen: Seen)
        requires
            old(self)@.current matches Some(p) ==> p.spec.channels > 0,
        ensures
            final(self)@ == old(self)@.let_go(release, seen),
    {
        if self.sink.is_some() {
            self.does(Effect::CloseSink);
        }
        self.take_back(seen.queued);
        self.released = true;
        self.released_by = copied_text(&release.by);
        self.does(Effect::ReleaseDevice);
        self.publish_status();
        self.emit(Event::OutputReleased { by: release.by, reason: release.reason });
        self.does(Effect::AnswerReleases(true));
    }

    fn take_device(&mut self, sink: SinkInfo)
        ensures
            final(self)@ == old(self)@.take_device(sink),
    {
        let acquired = self.released;
        self.sink = Some(sink);
        self.released = false;
        self.released_by = None;
        if acquired {
            self.emit(Event::OutputAcquired);
        }
    }

    fn lose_output(&mut self, why: &str, seen: Seen)
        requires
            old(self)@.current matches Some(p) ==> p.spec.channels > 0,
        ensures
            final(self)@ == old(self)@.lose_output(why@, seen),
    {
        self.asked = Asked::Nothing;
        let message = crate::text::joined("the audio output is gone: ", why);
        self.emit(Event::Error { message });
        self.set_state(State::Paused, seen.now);
        self.let_go(Release { by: None, reason: ReleaseReason::Lost }, seen);
    }

    // ---- commands --------------------------------------------------------------------------

    fn pause(&mut self)
        ensures
            final(self)@ == old(self)@.pause(),
    {
        match self.state {
            State::Loading | State::Seeking => {
                self.pause_when_ready = true;
            },
            State::Playing => {
                self.asked = Asked::Pause(None);
                self.does(Effect::PauseSink);
            },
            State::Paused | State::Stopped => {},
        }
    }

    fn resume(&mut self, now: Duration)
        ensures
            final(self)@ == old(self)@.resume(now),
    {
        match self.state {
            State::Loading | State::Seeking => {
                self.forget_release();
                self.pause_when_ready = false;
            },
            State::Paused => {
                let (spec, sink_paused): (SourceSpec, bool) = match &self.current {
                    Some(p) => (p.spec, p.sink_paused),
                    None => {
                        return ;
                    },
                };
                if self.sink.is_none() {
                    self.asked = Asked::OpenForResume;
                    self.does(Effect::OpenSink(spec));
                } else if sink_paused {
                    self.asked = Asked::Resume;
                    self.does(Effect::ResumeSink);
                } else {
                    self.set_state(State::Playing, now);
                }
            },
            State::Playing | State::Stopped => {},
        }
    }

    fn release(&mut self, release: Release, seen: Seen)
        requires
            old(self)@.current matches Some(p) ==> p.spec.channels > 0,
        ensures
            final(self)@ == old(self)@.release(release, seen),
    {
        match self.state {
            State::Stopped => {
                self.does(Effect::AnswerReleases(true));
            },
            State::Loading | State::Seeking => {
                self.pause_when_ready = true;
                self.release_when_ready = Some(release);
            },
            State::Playing => {
                self.asked = Asked::Pause(Some(release));
                self.does(Effect::PauseSink);
            },
            State::Paused => {
                if self.sink.is_some() {
                    self.let_go(release, seen);
                } else {
                    self.does(Effect::AnswerReleases(true));
                }
            },
        }
    }

    fn reject_seek(&mut self, reason: &str)
        ensures
            final(self)@ == old(self)@.reject_seek(reason@),
    {
        self.emit(Event::SeekRejected { reason: reason.to_owned() });
    }

    fn reposition(&mut self, position: Duration, seen: Seen)
        ensures
            final(self)@ == old(self)@.reposition(position, seen),
    {
        match self.current.take() {
            Some(p) => {
                let mut p = p;
                p.rebase(position);
                self.current = Some(p);
            },
            None => {},
        }
        self.emit(Event::Seeked { position });
        self.emit_position(seen);
    }

    /// What the listener has actually heard of the current track.
    fn heard_position(&self, queued: u64) -> (r: Duration)
        ensures
            r == match self@.current {
                Some(p) => p.heard(queued),
                None => Duration { nanos: 0 },
            },
    {
        match &self.current {
            Some(p) => p.heard(queued),
            None => Duration::zero(),
        }
    }

    fn seek(&mut self, target: SeekTarget, seen: Seen)
        requires
            old(self)@.current matches Some(p) ==> p.spec.channels > 0,
        ensures
            final(self)@ == old(self)@.seek(target, seen),
    {
        let from = self.heard_position(seen.queued);
        let at = match target {
            SeekTarget::Absolute(at) => at,
            SeekTarget::Forward(by) => from.saturating_add(by),
            SeekTarget::Backward(by) => from.saturating_sub(by),
        };
        let (mode, duration): (SeekMode, Option<Duration>) = match &self.current {
            Some(p) => (p.seek, p.duration),
            None => {
                self.reject_seek("nothing is playing");
                return ;
            },
        };
        let past_the_end = match duration {
            Some(duration) => at.reaches(duration),
            None => false,
        };
        match mode {
            SeekMode::Unseekable => {
                self.reject_seek("this track can't be seeked");
                return ;
            },
            _ => {},
        }
        if past_the_end {
            self.flush_sink();
            self.end_track(EndReason::Completed);
            self.request_load(LoadTarget::Advance(Advance::Auto), seen.now);
            return ;
        }
        match mode {
            SeekMode::InPlace => {
                self.flush_sink();
                self.asked = Asked::Seek;
                self.does(Effect::SeekSource(at));
            },
            SeekMode::ForwardOnly => {
                self.seek_forward_only(at, seen);
            },
            _ => {
                self.seek_reopen(at, seen);
            },
        }
    }

    fn seek_forward_only(&mut self, at: Duration, seen: Seen)
        requires
            old(self)@.current matches Some(p) && p.spec.channels > 0,
        ensures
            final(self)@ == old(self)@.seek_forward(old(self)@.current->0, at, seen),
    {
        let (until, rate): (Duration, u32) = match &self.current {
            Some(p) => {
                let in_chunk: u64 = (p.pending.len() / p.spec.channels as usize) as u64;
                let decoded: u64 = p.frames_written.saturating_add(in_chunk);
                (
                    p.base.saturating_add(frames_to_duration(decoded, p.spec.sample_rate)),
                    p.spec.sample_rate,
                )
            },
            None => {
                return ;
            },
        };
        assert(until == old(self)@.current->0.read_until());
        if !at.reaches(until) {
            self.reject_seek("this stream can only seek forward, past what is already buffered");
            return ;
        }
        let skip: u64 = duration_to_frames(at.saturating_sub(until), rate);
        self.flush_sink();
        self.does(Effect::SkipFrames(skip));
        self.reposition(at, seen);
    }

    fn seek_reopen(&mut self, at: Duration, seen: Seen)
        requires
            old(self)@.current is Some,
        ensures
            final(self)@ == old(self)@.seek_reopen(old(self)@.current->0, at, seen),
    {
        let paused = match self.state {
            State::Paused => true,
            State::Seeking => self.pause_when_ready,
            _ => false,
        };
        self.flush_sink();
        self.does(Effect::DropSource);
        match self.current.take() {
            Some(p) => {
                let mut p = p;
                p.has_source = false;
                p.rebase(at);
                let track = p.meta.track.clone();
                self.current = Some(p);
                self.begin_load(LoadTarget::Track(track), at, State::Seeking, paused, seen.now);
                self.emit(Event::Seeked { position: at });
                self.emit_position(seen);
            },
            None => {},
        }
    }

    // ---- a track that was waited for -------------------------------------------------------

    fn carry_on(&mut self, seen: Seen)
        requires
            old(self)@.current matches Some(p) ==> p.spec.channels > 0,
        ensures
            final(self)@ == old(self)@.carry_on(seen),
    {
        let state = if self.pause_when_ready {
            State::Paused
        } else {
            State::Playing
        };
        let release = self.release_when_ready.take();
        self.pause_when_ready = false;
        self.set_state(state, seen.now);
        self.emit_position(seen);
        match release {
            Some(release) => {
                self.let_go(release, seen);
            },
            None => {},
        }
    }

    fn begin_track(&mut self, track: LoadedTrack, seen: Seen)
        requires
            track.spec.channels > 0,
        ensures
            final(self)@ == old(self)@.begin_track(track, seen),
    {
        let duration = match track.meta.duration {
            Some(duration) => Some(duration),
            None => track.source_duration,
        };
        let spec = track.spec;
        let playing = Playing {
            meta: track.meta.clone(),
            spec,
            has_source: true,
            seek: track.seek,
            pending: Vec::new(),
            kept: Vec::new(),
            sink_paused: false,
            frames_written: 0,
            base: track.start,
            duration,
            position: track.start,
            last_position_at: seen.now,
        };
        self.current = Some(playing);
        self.asked = Asked::Nothing;
        self.does(Effect::UseSource);
        self.emit(Event::TrackStarted { meta: track.meta, spec });
        self.carry_on(seen);
    }

    fn start_track(&mut self, track: LoadedTrack, seen: Seen)
        requires
            track.spec.channels > 0,
        ensures
            final(self)@ == old(self)@.start_track(track, seen),
    {
        let spec = track.spec;
        match self.sink {
            Some(sink) => {
                if sink.spec == spec {
                    self.begin_track(track, seen);
                    return ;
                }
                // The device can only be opened once, so the old configuration has to go first.
                self.does(Effect::CloseSink);
                self.sink = None;
            },
            None => {},
        }
        self.asked = Asked::OpenForTrack(track);
        self.does(Effect::OpenSink(spec));
    }

    fn finish_seek(&mut self, track: LoadedTrack, seen: Seen)
        requires
            old(self)@.current matches Some(p) ==> p.spec.channels > 0,
        ensures
            final(self)@ == old(self)@.finish_seek(track, seen),
    {
        let (spec, base): (SourceSpec, Duration) = match &self.current {
            Some(p) => (p.spec, p.base),
            None => {
                return ;
            },
        };
        if track.spec != spec {
            self.fail(
                "the reopened track has a different format than the one that was playing".to_owned(),
                seen.now,
            );
            return ;
        }
        let short = base.reaches(track.start);
        let landed = if short {
            base
        } else {
            track.start
        };
        self.does(Effect::UseSource);
        match self.current.take() {
            Some(p) => {
                let mut p = p;
                p.has_source = true;
                p.seek = track.seek;
                p.base = landed;
                p.position = landed;
                self.current = Some(p);
            },
            None => {},
        }
        if short {
            let skip: u64 = duration_to_frames(base.saturating_sub(track.start), spec.sample_rate);
            self.does(Effect::SkipFrames(skip));
        }
        if self.sink.is_none() && !self.pause_when_ready {
            self.asked = Asked::OpenAfterSeek;
            self.does(Effect::OpenSink(spec));
        } else {
            self.carry_on(seen);
        }
    }

    /// Whether a load result carrying `generation` is the one that is awaited.
    pub fn is_awaited(&self, generation: u64) -> (r: bool)
        ensures
            r == self@.is_awaited(generation),
    {
        match self.state {
            State::Loading | State::Seeking => generation == self.generation,
            _ => false,
        }
    }

    // ---- what happened ---------------------------------------------------------------------

    fn command(&mut self, command: Command, seen: Seen)
        requires
            old(self)@.current matches Some(p) ==> p.spec.channels > 0,
        ensures
            final(self)@ == old(self)@.command(command, seen),
    {
        match command {
            Command::Play(Some(track)) => {
                self.interrupt_current();
                self.request_load(LoadTarget::Track(track), seen.now);
            },
            Command::Play(None) => {
                if self.state == State::Stopped {
                    self.request_load(LoadTarget::Advance(Advance::Auto), seen.now);
                }
            },
            Command::Next => {
                self.interrupt_current();
                self.request_load(LoadTarget::Advance(Advance::Next), seen.now);
            },
            Command::Previous => {
                let heard = self.heard_position(seen.queued);
                let restart = self.current.is_some() && heard.reaches(
                    Duration { nanos: PREVIOUS_RESTART_AFTER },
                );
                let how = if restart {
                    Advance::Restart
                } else {
                    Advance::Previous
                };
                self.interrupt_current();
                self.request_load(LoadTarget::Advance(how), seen.now);
            },
            Command::Stop => {
                self.stop(seen.now);
            },
            Command::Pause => {
                self.pause();
            },
            Command::Resume => {
                self.resume(seen.now);
            },
            Command::TogglePause => {
                let audible = match self.state {
                    State::Playing | State::Loading | State::Seeking => true,
                    _ => false,
                };
                if audible && !self.pause_when_ready {
                    self.pause();
                } else {
                    self.resume(seen.now);
                }
            },
            Command::Seek(target) => {
                self.seek(target, seen);
            },
            Command::Release => {
                if self.state != State::Stopped {
                    self.release(Release { by: None, reason: ReleaseReason::Command }, seen);
                }
            },
        }
    }

    fn set_output(&mut self, seen: Seen)
        requires
            old(self)@.wf(),
        ensures
            final(self)@ == old(self)@.set_output(seen),
    {
        if self.sink.is_some() {
            self.does(Effect::CloseSink);
        }
        self.take_back(seen.queued);
        self.does(Effect::ReleaseDevice);
        self.does(Effect::UseOutput);
        match self.state {
            State::Playing => {
                match &self.current {
                    Some(p) => {
                        let spec = p.spec;
                        self.asked = Asked::OpenForSwitch;
                        self.does(Effect::OpenSink(spec));
                    },
                    None => {},
                }
            },
            State::Paused | State::Seeking => {
                if !self.released {
                    self.released = true;
                    self.released_by = None;
                }
                self.publish_status();
                self.does(Effect::AnswerSwitch(Ok(())));
            },
            State::Loading | State::Stopped => {
                self.publish_status();
                self.does(Effect::AnswerSwitch(Ok(())));
            },
        }
    }

    /// Something happened. Returns `false` when the thread should exit.
    pub fn handle(&mut self, msg: Msg, seen: Seen) -> (r: bool)
        requires
            old(self)@.ready(),
            msg matches Msg::Loaded { generation, track } ==> track.spec.channels > 0,
        ensures
            r == !(msg is Shutdown),
            final(self)@.wf(),
            final(self)@ == told(old(self)@, msg, seen),
    {
        proof {
            laws::every_message_keeps_the_invariant(self@, msg, seen);
        }
        match msg {
            Msg::Command(command) => {
                self.command(command, seen);
            },
            Msg::Loaded { generation, track } => {
                if self.is_awaited(generation) {
                    if self.state == State::Seeking {
                        self.finish_seek(track, seen);
                    } else {
                        self.start_track(track, seen);
                    }
                }
            },
            Msg::LoadFailed { generation, error } => {
                if self.is_awaited(generation) {
                    self.fail(error, seen.now);
                }
            },
            Msg::QueueExhausted { generation } => {
                if self.is_awaited(generation) {
                    self.emit(Event::QueueExhausted);
                    self.stop(seen.now);
                }
            },
            Msg::ReleaseRequested { by } => {
                self.release(Release { by, reason: ReleaseReason::Requested }, seen);
            },
            Msg::SetOutput => {
                self.set_output(seen);
            },
            Msg::Shutdown => {
                self.stop(seen.now);
                return false;
            },
        }
        true
    }

    /// The question that the engine waits to have answered.
    pub fn asked(&self) -> (r: &Asked)
        ensures
            *r == self@.asked,
    {
        &self.asked
    }

    /// The output paused, or failed to.
    pub fn paused(&mut self, result: Result<(), String>, seen: Seen)
        requires
            old(self)@.wf(),
            old(self)@.asked is Pause,
        ensures
            final(self)@.ready(),
            final(self)@ == old(self)@.paused(
                match result {
                    Ok(_) => None,
                    Err(error) => Some(error@),
                },
                seen,
            ),
    {
        match result {
            Err(error) => {
                self.fail(context("pausing the audio output", error.as_str()), seen.now);
            },
            Ok(_) => {
                let mut then: Asked = Asked::Nothing;
                std::mem::swap(&mut then, &mut self.asked);
                match self.current.take() {
                    Some(p) => {
                        let mut p = p;
                        p.sink_paused = true;
                        self.current = Some(p);
                    },
                    None => {},
                }
                self.set_state(State::Paused, seen.now);
                self.emit_position(seen);
                match then {
                    Asked::Pause(Some(release)) => {
                        self.let_go(release, seen);
                    },
                    _ => {},
                }
            },
        }
    }

    /// The output resumed, or failed to.
    pub fn resumed(&mut self, result: Result<(), String>, seen: Seen)
        requires
            old(self)@.wf(),
            old(self)@.asked is Resume,
        ensures
            final(self)@.ready(),
            final(self)@ == old(self)@.resumed(
                match result {
                    Ok(_) => None,
                    Err(error) => Some(error@),
                },
                seen.now,
            ),
    {
        match result {
            Err(error) => {
                self.fail(context("resuming the audio output", error.as_str()), seen.now);
            },
            Ok(_) => {
                self.asked = Asked::Nothing;
                match self.current.take() {
                    Some(p) => {
                        let mut p = p;
                        p.sink_paused = false;
                        self.current = Some(p);
                    },
                    None => {},
                }
                self.set_state(State::Playing, seen.now);
            },
        }
    }

    /// The output played everything it held, or failed to.
    pub fn drained(&mut self, result: Result<(), SinkFailure>, seen: Seen)
        requires
            old(self)@.wf(),
            old(self)@.asked is Drain,
        ensures
            final(self)@.ready(),
            final(self)@ == match result {
                Ok(_) => old(self)@.drained(seen),
                Err(SinkFailure::Gone(why)) => old(self)@.lose_output(why@, seen),
                Err(SinkFailure::Other(error)) => old(self)@.fail(
                    in_context("draining the audio output"@, error@),
                    seen.now,
                ),
            },
    {
        match result {
            Ok(_) => {
                self.asked = Asked::Nothing;
                self.emit_position(seen);
                self.end_track(EndReason::Completed);
                self.request_load(LoadTarget::Advance(Advance::Auto), seen.now);
            },
            Err(SinkFailure::Gone(why)) => {
                self.lose_output(why.as_str(), seen);
            },
            Err(SinkFailure::Other(error)) => {
                self.fail(context("draining the audio output", error.as_str()), seen.now);
            },
        }
    }

    /// The source landed somewhere, or failed to.
    pub fn sought(&mut self, result: Result<Duration, String>, seen: Seen)
        requires
            old(self)@.wf(),
            old(self)@.asked is Seek,
        ensures
            final(self)@.ready(),
            final(self)@ == match result {
                Ok(landed) => old(self)@.sought(Some(landed), Seq::empty(), seen),
                Err(error) => old(self)@.sought(None, error@, seen),
            },
    {
        match result {
            Ok(landed) => {
                self.asked = Asked::Nothing;
                self.reposition(landed, seen);
            },
            Err(error) => {
                self.fail(context("seeking in the track", error.as_str()), seen.now);
            },
        }
    }

    /// An output that can hold `result` frames was opened, or could not be.
    pub fn opened(&mut self, result: Result<u64, String>, seen: Seen)
        requires
            old(self)@.wf(),
            old(self)@.asked is OpenForTrack || old(self)@.asked is OpenForResume || old(
                self,
            )@.asked is OpenForSwitch || old(self)@.asked is OpenAfterSeek,
        ensures
            final(self)@.ready(),
            final(self)@ == match result {
                Ok(capacity) => old(self)@.opened(capacity, seen),
                Err(error) => old(self)@.not_opened(error@, seen.now),
            },
    {
        match result {
            Ok(capacity) => {
                self.open_succeeded(capacity, seen);
            },
            Err(error) => {
                self.open_failed(error, seen.now);
            },
        }
    }

    fn open_succeeded(&mut self, capacity: u64, seen: Seen)
        requires
            old(self)@.wf(),
            old(self)@.asked is OpenForTrack || old(self)@.asked is OpenForResume || old(
                self,
            )@.asked is OpenForSwitch || old(self)@.asked is OpenAfterSeek,
        ensures
            final(self)@ == old(self)@.opened(capacity, seen),
    {
        let mut asked: Asked = Asked::Nothing;
        std::mem::swap(&mut asked, &mut self.asked);
        match asked {
            Asked::OpenForTrack(track) => {
                self.take_device(SinkInfo { spec: track.spec, capacity });
                self.begin_track(track, seen);
            },
            other => {
                let spec = match &self.current {
                    Some(p) => p.spec,
                    None => {
                        return ;
                    },
                };
                self.take_device(SinkInfo { spec, capacity });
                match other {
                    Asked::OpenForResume => {
                        self.set_state(State::Playing, seen.now);
                    },
                    Asked::OpenForSwitch => {
                        self.publish_status();
                        self.does(Effect::AnswerSwitch(Ok(())));
                    },
                    _ => {
                        self.carry_on(seen);
                    },
                }
            },
        }
    }

    fn open_failed(&mut self, error: String, now: Duration)
        requires
            old(self)@.wf(),
            old(self)@.asked is OpenForTrack || old(self)@.asked is OpenForResume || old(
                self,
            )@.asked is OpenForSwitch || old(self)@.asked is OpenAfterSeek,
        ensures
            final(self)@ == old(self)@.not_opened(error@, now),
    {
        let message = context("opening the audio output", error.as_str());
        match &self.asked {
            Asked::OpenForResume => {
                self.asked = Asked::Nothing;
                self.emit(Event::Error { message });
            },
            Asked::OpenAfterSeek => {
                self.asked = Asked::Nothing;
                self.emit(Event::Error { message });
                self.set_state(State::Paused, now);
            },
            Asked::OpenForSwitch => {
                self.asked = Asked::Nothing;
                self.released = true;
                self.released_by = None;
                self.set_state(State::Paused, now);
                self.emit(
                    Event::OutputReleased { by: None, reason: ReleaseReason::Command },
                );
                self.does(Effect::AnswerSwitch(Err(message)));
            },
            _ => {
                self.fail(message, now);
            },
        }
    }

    // ---- playing ---------------------------------------------------------------------------

    /// What to do next when nothing happened.
    pub fn play_step(&self) -> (r: Next)
        requires
            self@.ready(),
        ensures
            r == if !(self@.state is Playing) {
                Next::Wait
            } else if self@.current->0.pending.len() == 0 {
                Next::Read
            } else {
                Next::Write
            },
    {
        match (self.state, &self.current) {
            (State::Playing, Some(p)) => if p.pending.len() == 0 {
                Next::Read
            } else {
                Next::Write
            },
            _ => Next::Wait,
        }
    }

    /// The samples that are to be handed to the output.
    pub fn pending(&self) -> (r: &[i32])
        ensures
            r@ == match self@.current {
                Some(p) => p.pending,
                None => Seq::<i32>::empty(),
            },
    {
        match &self.current {
            Some(p) => p.pending.as_slice(),
            None => &[],
        }
    }

    /// The next samples were read, or could not be; `None` at the end of the track.
    pub fn chunk(&mut self, result: Result<Option<Vec<i32>>, String>, seen: Seen)
        requires
            old(self)@.ready(),
            old(self)@.state is Playing,
        ensures
            final(self)@.wf(),
            final(self)@ == match result {
                Ok(Some(samples)) => old(self)@.chunk(Some(samples@)),
                Ok(None) => old(self)@.chunk(None),
                Err(error) => old(self)@.fail(error@, seen.now),
            },
    {
        match result {
            Ok(Some(samples)) => {
                match self.current.take() {
                    Some(p) => {
                        let mut p = p;
                        p.pending = samples;
                        self.current = Some(p);
                    },
                    None => {},
                }
            },
            Ok(None) => {
                self.asked = Asked::Drain;
                self.does(Effect::DrainSink);
            },
            Err(error) => {
                self.fail(error, seen.now);
            },
        }
    }

    /// The output took this many frames of what is pending, or failed.
    pub fn written(&mut self, result: Result<usize, SinkFailure>, seen: Seen)
        requires
            old(self)@.ready(),
            old(self)@.state is Playing,
            result matches Ok(frames) ==> frames * old(self)@.current->0.spec.channels <= old(
                self,
            )@.current->0.pending.len(),
        ensures
            final(self)@.ready(),
            final(self)@ == match result {
                Ok(frames) => old(self)@.written(frames, seen),
                Err(SinkFailure::Gone(why)) => old(self)@.lose_output(why@, seen),
                Err(SinkFailure::Other(error)) => old(self)@.fail(error@, seen.now),
            },
    {
        match result {
            Ok(frames) => {
                self.took(frames, seen);
            },
            Err(SinkFailure::Gone(why)) => {
                self.lose_output(why.as_str(), seen);
            },
            Err(SinkFailure::Other(error)) => {
                self.fail(error, seen.now);
            },
        }
    }

    fn took(&mut self, frames: usize, seen: Seen)
        requires
            old(self)@.ready(),
            old(self)@.state is Playing,
            frames * old(self)@.current->0.spec.channels <= old(self)@.current->0.pending.len(),
        ensures
            final(self)@ == old(self)@.written(frames, seen),
    {
        let capacity: u64 = match self.sink {
            Some(sink) => sink.capacity,
            None => 0,
        };
        let due = match self.current.take() {
            Some(p) => {
                let ghost before = p@;
                assert(old(self)@.current == Some(before));
                let mut p = p;
                let channels: usize = p.spec.channels as usize;
                let length: usize = p.pending.len();
                assert(frames * channels <= length) by (nonlinear_arith)
                    requires
                        frames * before.spec.channels <= length,
                        channels == before.spec.channels,
                ;
                let taken: usize = frames * channels;
                assert(0 <= capacity as int * channels as int <= 0xffff_ffff_ffff_ffff
                    * 0xffff_ffff) by (nonlinear_arith)
                    requires
                        0 <= capacity as int <= 0xffff_ffff_ffff_ffff,
                        0 <= channels as int <= 0xffff_ffff,
                ;
                let limit: u128 = capacity as u128 * channels as u128;
                let rest: Vec<i32> = p.pending.split_off(taken);
                let mut kept: Vec<i32> = Vec::new();
                std::mem::swap(&mut kept, &mut p.kept);
                kept.append(&mut p.pending);
                p.kept = last_part(kept, limit);
                p.pending = if frames == 0 {
                    Vec::new()
                } else {
                    rest
                };
                p.frames_written = p.frames_written.saturating_add(frames as u64);
                let due = seen.now.saturating_sub(p.last_position_at).reaches(
                    self.options.position_interval,
                );
                proof {
                    assert(p.kept@ =~= last_of(
                        before.kept + before.pending.take(taken as int),
                        limit as nat,
                    ));
                    assert(frames != 0 ==> p.pending@ =~= before.pending.skip(taken as int));
                    assert(frames == 0 ==> p.pending@ =~= Seq::<i32>::empty());
                }
                self.current = Some(p);
                due
            },
            None => false,
        };
        if due {
            self.emit_position(seen);
        }
    }

    /// How long until the pause has lasted long enough for the device to be handed back; `None`
    /// if it stays.
    pub fn idle_in(&self, now: Duration) -> (r: Option<Duration>)
        requires
            self@.wf(),
        ensures
            r matches Some(left) ==> (left@ == 0 <==> self@.idle_at(now)),
            r is None <==> !(self@.state is Paused && self@.sink is Some
                && self@.options.release_after_pause is Some),
            r matches Some(left) ==> left == span_less(
                self@.options.release_after_pause->0,
                span_less(now, self@.paused_at->0),
            ),
    {
        match (self.paused_at, self.options.release_after_pause) {
            (Some(at), Some(delay)) => if self.sink.is_some() {
                Some(delay.saturating_sub(now.saturating_sub(at)))
            } else {
                None
            },
            _ => None,
        }
    }

    /// Time passed.
    pub fn tick(&mut self, seen: Seen)
        requires
            old(self)@.ready(),
        ensures
            final(self)@.ready(),
            final(self)@ == old(self)@.tick(seen),
    {
        let idle = match self.idle_in(seen.now) {
            Some(left) => left.nanos == 0,
            None => false,
        };
        if idle {
            self.let_go(Release { by: None, reason: ReleaseReason::Idle }, seen);
        }
    }
}

/// What is reported when throwing away what the output held failed.
pub fn flush_failed(error: &str) -> (r: Event)
    ensures
        r@ == EventView::Error(in_context("flushing the audio output"@, error@)),
{
    Event::Error { message: context("flushing the audio output", error) }
}

} // verus!
