//! What the engine makes of what it is told while it waits, and of what it can't do.

use super::audio_thread::{told, AudioThread, Msg, Next};
use super::model::{Asked, EffectView, LoadTarget, Model, Release, Seen, SinkInfo};
use super::outcomes::has_asked_for;
use super::supplier::{Advance, LoadedTrack};
use super::types::{Command, EndReason, EventView, ReleaseReason, SeekTarget, State, TrackMeta, TrackRef};
use super::{Options, POSITION_INTERVAL, PREVIOUS_RESTART_AFTER, RELEASE_AFTER_PAUSE};
use crate::decode::SourceSpec;
use crate::time::{Duration, MAX_NANOS, NANOS_PER_SEC};
use vstd::prelude::*;

verus! {

/// A fresh engine is stopped: it has no track and no output, waits for nothing and has asked for
/// nothing.
pub proof fn a_fresh_engine_is_stopped(options: Options)
    ensures
        ({
            let engine = Model::fresh(options);
            &&& engine.ready()
            &&& engine.options == options
            &&& engine.state is Stopped
            &&& engine.current is None
            &&& engine.sink is None
            &&& !engine.released
            &&& !engine.pause_when_ready
            &&& engine.release_when_ready is None
            &&& engine.paused_at is None
            &&& engine.out.len() == 0
        }),
{
}

/// A device is handed back after ten seconds of pause and the position reported four times a second,
/// unless the options say otherwise; a track is started over once three seconds of it were heard.
pub proof fn the_engine_has_its_habits()
    ensures
        RELEASE_AFTER_PAUSE == 10_000_000_000,
        POSITION_INTERVAL == 250_000_000,
        PREVIOUS_RESTART_AFTER == 3_000_000_000,
        NANOS_PER_SEC == 1_000_000_000,
        MAX_NANOS == 18_446_744_073_709_551_615_999_999_999,
{
}

/// A seek ahead of the longest time there is leads to that time.
pub proof fn a_seek_beyond_all_time_leads_to_its_end(engine: Model, by: Duration, seen: Seen)
    requires
        engine.current is Some,
        engine.current->0.heard(seen.queued)@ + by@
            > 18_446_744_073_709_551_615_999_999_999,
    ensures
        engine.seek_at(SeekTarget::Forward(by), seen)@
            == 18_446_744_073_709_551_615_999_999_999,
{
}

/// Without a track a seek is refused, and so is one in a track that can't be sought: that is said,
/// and nothing else happens.
pub proof fn a_seek_that_cannot_be_done_is_refused(engine: Model, target: SeekTarget, seen: Seen)
    ensures
        engine.current is None ==> engine.command(Command::Seek(target), seen) == (Model {
            out: engine.out.push(
                EffectView::Emit(EventView::SeekRejected("nothing is playing"@)),
            ),
            ..engine
        }),
        engine.current is Some && engine.current->0.seek is Unseekable ==> engine.command(
            Command::Seek(target),
            seen,
        ) == (Model {
            out: engine.out.push(
                EffectView::Emit(EventView::SeekRejected("this track can't be seeked"@)),
            ),
            ..engine
        }),
{
}

/// While a track is waited for, a pause is remembered and a resume forgets it, along with a wish for
/// the device that came with it, which is refused; a toggle does whichever of the two applies. Nothing
/// else changes, and the track is still waited for.
pub proof fn a_pause_while_waiting_is_remembered(engine: Model, seen: Seen)
    requires
        engine.ready(),
        engine.state is Loading || engine.state is Seeking,
    ensures
        ({
            let paused = engine.command(Command::Pause, seen);
            let resumed = engine.command(Command::Resume, seen);
            let toggled = engine.command(Command::TogglePause, seen);
            &&& paused == (Model { pause_when_ready: true, ..engine })
            &&& resumed.out == if engine.release_when_ready is Some {
                engine.out.push(EffectView::AnswerReleases(false))
            } else {
                engine.out
            }
            &&& resumed == (Model {
                pause_when_ready: false,
                release_when_ready: None,
                out: resumed.out,
                ..engine
            })
            &&& engine.pause_when_ready ==> toggled == resumed
            &&& !engine.pause_when_ready ==> toggled == paused
        }),
{
}

/// A stopped engine has nothing to pause, to resume or to hand back.
pub proof fn a_stopped_engine_has_nothing_to_pause(engine: Model, seen: Seen)
    requires
        engine.state is Stopped,
    ensures
        engine.command(Command::Pause, seen) == engine,
        engine.command(Command::Resume, seen) == engine,
        engine.command(Command::TogglePause, seen) == engine,
        engine.command(Command::Release, seen) == engine,
{
}

/// A playing engine that is told to hand the device back pauses first; a paused one that has handed
/// it back already says that it is free.
pub proof fn a_playing_engine_pauses_before_it_lets_go(engine: Model, seen: Seen)
    requires
        engine.ready(),
    ensures
        engine.state is Playing ==> engine.command(Command::Release, seen) == (Model {
            asked: Asked::Pause(Some(Release { by: None, reason: ReleaseReason::Command })),
            out: engine.out.push(EffectView::PauseSink),
            ..engine
        }),
        engine.state is Paused && engine.sink is None ==> engine.command(Command::Release, seen)
            == (Model { out: engine.out.push(EffectView::AnswerReleases(true)), ..engine }),
{
}

/// An output that takes nothing is not offered the same again: what was pending is dropped, and
/// nothing is counted or kept for it.
pub proof fn what_is_not_taken_is_not_offered_again(engine: Model, seen: Seen)
    requires
        engine.ready(),
        engine.state is Playing,
        engine.current->0.kept.len() <= engine.sink->0.capacity
            * engine.current->0.spec.channels,
    ensures
        ({
            let p = engine.current->0;
            let q = engine.written(0, seen).current->0;
            &&& q.pending.len() == 0
            &&& q.frames_written == p.frames_written
            &&& q.kept == p.kept
            &&& q.base == p.base
        }),
{
    let p = engine.current->0;
    assert(p.kept + p.pending.take(0) =~= p.kept);
}

/// A track that was reopened carries on as soon as an output for it is open: it plays where it was to
/// play, on that output, and if the device had been handed back, that it is back is reported.
pub proof fn a_reopened_track_plays_once_its_output_is_open(
    engine: Model,
    capacity: u64,
    seen: Seen,
)
    requires
        engine.wf(),
        engine.asked is OpenAfterSeek,
    ensures
        ({
            let p = engine.current->0;
            let after = engine.opened(capacity, seen);
            let n = engine.out.len() as int;
            &&& after.asked is Nothing
            &&& after.state is Playing
            &&& after.sink == Some(SinkInfo { spec: p.spec, capacity })
            &&& !after.released
            &&& after.released_by is None
            &&& after.current->0.base == p.base
            &&& after.current->0.pending == p.pending
            &&& after.current->0.has_source
            &&& after.current->0.position == p.heard(seen.queued)
            &&& after.out[n] == EffectView::Emit(EventView::OutputAcquired)
            &&& after.out[n + 2] == EffectView::Emit(EventView::StateChanged(State::Playing))
            &&& after.out[n + 4] == EffectView::Emit(
                EventView::Position(p.heard(seen.queued), p.duration),
            )
            &&& after.out.len() == n + 5
        }),
{
}

/// A track that is to start paused still gets its output first; it then waits, paused, and keeps the
/// output unless someone wants the device.
pub proof fn a_track_that_starts_paused_has_its_output(
    engine: Model,
    track: LoadedTrack,
    capacity: u64,
    seen: Seen,
)
    requires
        engine.ready(),
        engine.state is Loading,
        engine.pause_when_ready,
        engine.sink is None,
        track.spec.channels > 0,
    ensures
        ({
            let asked = engine.loaded(engine.generation, track, seen);
            let after = asked.opened(capacity, seen);
            &&& asked.asked == Asked::OpenForTrack(track)
            &&& asked.out == engine.out.push(EffectView::OpenSink(track.spec))
            &&& after.state is Paused
            &&& after.paused_at == Some(seen.now)
            &&& !after.pause_when_ready
            &&& after.release_when_ready is None
            &&& after.current->0.meta == track.meta
            &&& after.current->0.base == track.start
            &&& engine.release_when_ready is None ==> after.sink == Some(
                SinkInfo { spec: track.spec, capacity },
            ) && !after.released
            &&& engine.release_when_ready matches Some(release) ==> after.sink is None
                && after.released && after.released_by == release.by && after.out.last()
                == EffectView::AnswerReleases(true)
        }),
{
}

/// A pause begins when it is entered: when the output is lost, or when an output can't be opened
/// after a switch or a seek; a resume that fails leaves the pause as long as it was. A switch that
/// fails is reported as the device handed back on command.
pub proof fn a_pause_begins_when_it_is_entered(
    engine: Model,
    cause: Seq<char>,
    seen: Seen,
)
    requires
        engine.wf(),
    ensures
        engine.asked is OpenForSwitch || engine.asked is OpenAfterSeek ==> engine.not_opened(
            cause,
            seen.now,
        ).paused_at == Some(seen.now),
        engine.asked is OpenForResume ==> engine.not_opened(cause, seen.now).paused_at
            == engine.paused_at && engine.not_opened(cause, seen.now).out == engine.out.push(
            EffectView::Emit(EventView::Error("opening the audio output"@ + ": "@ + cause)),
        ),
        engine.state is Playing && engine.sink is Some ==> engine.lose_output(cause, seen).paused_at
            == Some(seen.now),
        engine.asked is OpenForSwitch ==> {
            let after = engine.not_opened(cause, seen.now);
            after.out.len() == engine.out.len() + 4 && after.out[engine.out.len() as int + 1]
                == EffectView::Emit(EventView::StateChanged(State::Paused))
                && after.out[engine.out.len() as int + 2] == EffectView::Emit(
                EventView::OutputReleased(None, ReleaseReason::Command),
            ) && after.released_by is None
        },
{
}

/// When there is nothing more to load, that is reported first, and everything stops: a track that
/// was being reopened is cut short.
pub proof fn the_end_of_the_queue_ends_everything(engine: Model, seen: Seen)
    requires
        engine.ready(),
        engine.state is Loading || engine.state is Seeking,
    ensures
        ({
            let over = told(
                engine,
                Msg::QueueExhausted { generation: engine.generation },
                seen,
            );
            &&& over.state is Stopped
            &&& over.current is None
            &&& over.sink is None
            &&& over.out[engine.out.len() as int] == EffectView::Emit(EventView::QueueExhausted)
            &&& engine.current matches Some(p) ==> exists|i: int|
                0 <= i < over.out.len() && #[trigger] over.out[i] == EffectView::Emit(
                    EventView::TrackEnded(p.meta, EndReason::Interrupted),
                )
        }),
{
    let over = engine.exhausted(engine.generation, seen.now);
    if engine.current is Some {
        let p = engine.current->0;
        let cut = engine.emit(EventView::QueueExhausted).interrupt();
        let i = cut.out.len() - 1;
        assert(cut.out[i] == EffectView::Emit(
            EventView::TrackEnded(p.meta, EndReason::Interrupted),
        ));
        assert(over.out[i] == cut.out[i]);
    }
}

/// A command that the engine is told is carried out.
pub proof fn a_command_is_carried_out(engine: Model, wanted: TrackRef, seen: Seen)
    requires
        engine.ready(),
    ensures
        has_asked_for(
            engine,
            told(engine, Msg::Command(Command::Next), seen),
            LoadTarget::Advance(Advance::Next),
        ),
        has_asked_for(
            engine,
            told(engine, Msg::Command(Command::Play(Some(wanted))), seen),
            LoadTarget::Track(wanted),
        ),
        told(engine, Msg::Command(Command::Stop), seen) == told(engine, Msg::Shutdown, seen),
{
    super::outcomes::each_command_asks_for_its_track(engine, wanted, seen);
}

/// What answers no question is passed over: a result of a load that is not awaited changes nothing.
pub proof fn what_answers_no_question_is_passed_over(
    engine: Model,
    track: LoadedTrack,
    error: String,
    generation: u64,
    seen: Seen,
)
    requires
        generation != engine.generation || !(engine.state is Loading || engine.state is Seeking),
    ensures
        told(engine, Msg::Loaded { generation, track }, seen) == engine,
        told(engine, Msg::LoadFailed { generation, error }, seen) == engine,
        told(engine, Msg::QueueExhausted { generation }, seen) == engine,
{
}

/// A load that failed ends in the failure that is said of it.
pub proof fn a_load_that_failed_is_reported(engine: Model, error: String, seen: Seen)
    requires
        engine.state is Loading || engine.state is Seeking,
    ensures
        ({
            let failed = told(
                engine,
                Msg::LoadFailed { generation: engine.generation, error },
                seen,
            );
            &&& failed.state is Stopped
            &&& failed.out[engine.out.len() as int] == EffectView::Emit(EventView::Error(error@))
        }),
{
}

/// A track that was waited for is taken, and starts at once on an output of its format.
pub proof fn a_track_that_was_waited_for_is_taken(engine: Model, track: LoadedTrack, seen: Seen)
    requires
        engine.ready(),
        engine.state is Loading,
        engine.release_when_ready is None,
        engine.sink matches Some(sink) && sink.spec == track.spec,
        track.spec.channels > 0,
    ensures
        ({
            let started = told(
                engine,
                Msg::Loaded { generation: engine.generation, track },
                seen,
            );
            &&& started.current matches Some(p) && p.meta == track.meta
            &&& started.out[engine.out.len() as int] == EffectView::UseSource
        }),
{
}

/// Each question that is open is about one thing, and a ready engine has none open: whatever it is
/// told, it either does at once or asks one question.
pub proof fn one_question_is_open_at_a_time(engine: Model, seen: Seen, target: SeekTarget)
    requires
        engine.ready(),
        engine.state is Playing,
    ensures
        engine.command(Command::Pause, seen).asked == Asked::Pause(None),
        engine.chunk(None).asked is Drain,
        engine.current->0.seek is InPlace && engine.current->0.duration is None ==> engine.command(
            Command::Seek(target),
            seen,
        ).asked is Seek,
        told(engine, Msg::SetOutput, seen).asked is OpenForSwitch,
{
}

// ---- what the functions give -------------------------------------------------------------------

/// A playing engine writes what is pending and reads more when nothing is; any other waits.
pub proof fn a_playing_engine_reads_and_writes(engine: AudioThread, r: Next)
    requires
        engine@.ready(),
        call_ensures(AudioThread::play_step, (&engine,), r),
    ensures
        r == Next::Wait <==> !(engine@.state is Playing),
        r == Next::Write <==> engine@.state is Playing && engine@.current->0.pending.len() > 0,
        r == Next::Read <==> engine@.state is Playing && engine@.current->0.pending.len() == 0,
{
}

/// The device of a paused engine is handed back as long after the pause began as the options say.
pub proof fn the_device_is_handed_back_when_its_time_is_up(
    engine: AudioThread,
    now: Duration,
    r: Option<Duration>,
)
    requires
        engine@.wf(),
        call_ensures(AudioThread::idle_in, (&engine, now), r),
    ensures
        r is Some <==> engine@.state is Paused && engine@.sink is Some
            && engine@.options.release_after_pause is Some,
        r matches Some(left) ==> {
            let wait = engine@.options.release_after_pause->0@;
            let since = engine@.paused_at->0@;
            &&& since <= now@ <= since + wait ==> now@ + left@ == since + wait
            &&& now@ >= since + wait ==> left@ == 0
        },
{
}

/// A track is what it was loaded as, moved around in as is said, and begins where is said.
pub proof fn a_loaded_track_is_what_it_was_loaded_as(
    meta: TrackMeta,
    spec: SourceSpec,
    length: Option<Duration>,
    start: Duration,
    track: LoadedTrack,
    in_place: LoadedTrack,
    forward: LoadedTrack,
    reopened: LoadedTrack,
    started: LoadedTrack,
)
    requires
        call_ensures(LoadedTrack::new, (meta, spec, length), track),
        call_ensures(LoadedTrack::seekable_in_place, (track,), in_place),
        call_ensures(LoadedTrack::forward_only, (track,), forward),
        call_ensures(LoadedTrack::reopenable, (track,), reopened),
        call_ensures(LoadedTrack::starting_at, (reopened, start), started),
    ensures
        track.meta == meta && track.spec == spec && track.source_duration == length,
        track.seek is Unseekable && track.start@ == 0,
        in_place.seek is InPlace && in_place.meta == meta && in_place.start@ == 0,
        forward.seek is ForwardOnly && forward.meta == meta,
        reopened.seek is Reopen && reopened.spec == spec,
        started.start == start && started.seek is Reopen && started.meta == meta,
{
}

} // verus!
