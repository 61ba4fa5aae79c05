//! What holds of the engine whatever happens to it.

use super::audio_thread::{told, Msg};
use super::model::{
    last_of, Asked, EffectView, LoadTarget, Model, PlayingModel, Release, Seen,
};
use super::supplier::{Advance, LoadedTrack, SeekMode};
use super::types::{Command, EndReason, EventView, OutputState, ReleaseReason, SeekTarget, State};
use crate::time::Duration;
use vstd::prelude::*;

verus! {

// ---- the invariant ---------------------------------------------------------------------------

/// Whatever state a stop finds the engine in, it leaves it stopped, with no track, no output and
/// no question open.
pub proof fn stopping_leaves_nothing_behind(engine: Model, now: Duration)
    ensures
        engine.stop(now).ready(),
        engine.stop(now).state is Stopped,
        engine.stop(now).current is None,
        engine.stop(now).status().output is Closed,
{
}

/// So does a failure.
pub proof fn failing_leaves_nothing_behind(engine: Model, message: Seq<char>, now: Duration)
    ensures
        engine.fail(message, now).ready(),
        engine.fail(message, now).state is Stopped,
        engine.fail(message, now).current is None,
        engine.fail(message, now).status().output is Closed,
{
}

proof fn lemma_request_load_keeps_wf(engine: Model, target: LoadTarget, now: Duration)
    requires
        engine.current is None,
        engine.released ==> engine.sink is None,
    ensures
        engine.request_load(target, now).wf() || !(engine.asked is Nothing),
        engine.asked is Nothing ==> engine.request_load(target, now).ready(),
{
}

proof fn lemma_let_go_keeps_wf(engine: Model, release: Release, seen: Seen)
    requires
        engine.ready(),
        engine.state is Paused,
    ensures
        engine.let_go(release, seen).ready(),
{
}

proof fn lemma_carry_on_keeps_wf(engine: Model, seen: Seen)
    requires
        engine.asked is Nothing,
        engine.state is Loading || engine.state is Seeking,
        engine.current matches Some(p) && p.has_source && p.spec.channels > 0 && !p.sink_paused,
        engine.sink matches Some(sink) ==> sink.spec == engine.current->0.spec,
        engine.sink is Some || engine.pause_when_ready,
        engine.sink is None <==> engine.released,
        engine.release_when_ready is Some ==> engine.pause_when_ready,
    ensures
        engine.carry_on(seen).ready(),
{
    let next = Model { pause_when_ready: false, release_when_ready: None, ..engine }.enter(
        if engine.pause_when_ready {
            State::Paused
        } else {
            State::Playing
        },
        seen.now,
    ).report_position(seen);
    assert(next.ready());
    if engine.release_when_ready is Some {
        lemma_let_go_keeps_wf(next, engine.release_when_ready->0, seen);
    }
}

proof fn lemma_seek_keeps_wf(engine: Model, target: SeekTarget, seen: Seen)
    requires
        engine.ready(),
    ensures
        engine.seek(target, seen).wf(),
{
    if engine.current is Some {
        let p = engine.current->0;
        let at = engine.seek_at(target, seen);
        if p.seek is Unseekable {
        } else if p.duration is Some && at@ >= p.duration->0@ {
            lemma_request_load_keeps_wf(
                engine.flush().end_track(EndReason::Completed),
                LoadTarget::Advance(Advance::Auto),
                seen.now,
            );
        } else {
            match p.seek {
                SeekMode::InPlace => {},
                SeekMode::ForwardOnly => {},
                _ => {},
            }
        }
    }
}

proof fn lemma_loaded_keeps_wf(engine: Model, generation: u64, track: LoadedTrack, seen: Seen)
    requires
        engine.ready(),
        track.spec.channels > 0,
    ensures
        engine.loaded(generation, track, seen).wf(),
{
    if engine.is_awaited(generation) {
        if engine.state is Seeking {
            lemma_finish_seek_keeps_wf(engine, track, seen);
        } else {
            match engine.sink {
                Some(sink) if sink.spec == track.spec => {
                    lemma_begin_track_keeps_wf(engine, track, seen);
                },
                _ => {},
            }
        }
    }
}

proof fn lemma_begin_track_keeps_wf(engine: Model, track: LoadedTrack, seen: Seen)
    requires
        engine.wf(),
        engine.state is Loading,
        engine.sink matches Some(sink) && sink.spec == track.spec,
        track.spec.channels > 0,
    ensures
        engine.begin_track(track, seen).ready(),
{
    let started = Model {
        current: engine.begin_track(track, seen).current,
        asked: Asked::Nothing,
        ..engine
    };
    let p = PlayingModel {
        meta: track.meta,
        spec: track.spec,
        has_source: true,
        seek: track.seek,
        pending: Seq::empty(),
        kept: Seq::empty(),
        sink_paused: false,
        frames_written: 0,
        base: track.start,
        duration: if track.meta.duration is Some {
            track.meta.duration
        } else {
            track.source_duration
        },
        position: track.start,
        last_position_at: seen.now,
    };
    lemma_carry_on_keeps_wf(
        Model { current: Some(p), asked: Asked::Nothing, ..engine }.does(
            EffectView::UseSource,
        ).emit(EventView::TrackStarted(track.meta, track.spec)),
        seen,
    );
}

proof fn lemma_finish_seek_keeps_wf(engine: Model, track: LoadedTrack, seen: Seen)
    requires
        engine.ready(),
        engine.state is Seeking,
    ensures
        engine.finish_seek(track, seen).wf(),
{
    let p = engine.current->0;
    if track.spec != p.spec {
        failing_leaves_nothing_behind(
            engine,
            "the reopened track has a different format than the one that was playing"@,
            seen.now,
        );
    } else {
        let done = engine.finish_seek(track, seen);
        if !(engine.sink is None && !engine.pause_when_ready) {
            let short = track.start@ <= p.base@;
            let landed = if short {
                p.base
            } else {
                track.start
            };
            let next = Model {
                current: Some(
                    PlayingModel {
                        has_source: true,
                        seek: track.seek,
                        base: landed,
                        position: landed,
                        ..p
                    },
                ),
                ..engine.does(EffectView::UseSource)
            };
            let placed = if short {
                next.does(
                    EffectView::SkipFrames(
                        super::model::capped(
                            crate::decode::nearest_frames(
                                (p.base@ - track.start@) as nat,
                                p.spec.sample_rate,
                            ),
                        ),
                    ),
                )
            } else {
                next
            };
            lemma_carry_on_keeps_wf(placed, seen);
            assert(done == placed.carry_on(seen));
        }
    }
}

proof fn lemma_command_keeps_wf(engine: Model, command: Command, seen: Seen)
    requires
        engine.ready(),
    ensures
        engine.command(command, seen).wf(),
{
    match command {
        Command::Play(Some(track)) => {
            lemma_request_load_keeps_wf(engine.interrupt(), LoadTarget::Track(track), seen.now);
        },
        Command::Play(None) => {
            if engine.state is Stopped {
                lemma_request_load_keeps_wf(
                    engine,
                    LoadTarget::Advance(Advance::Auto),
                    seen.now,
                );
            }
        },
        Command::Next => {
            lemma_request_load_keeps_wf(
                engine.interrupt(),
                LoadTarget::Advance(Advance::Next),
                seen.now,
            );
        },
        Command::Previous => {
            lemma_request_load_keeps_wf(
                engine.interrupt(),
                LoadTarget::Advance(Advance::Restart),
                seen.now,
            );
            lemma_request_load_keeps_wf(
                engine.interrupt(),
                LoadTarget::Advance(Advance::Previous),
                seen.now,
            );
        },
        Command::Stop => {
            stopping_leaves_nothing_behind(engine, seen.now);
        },
        Command::Seek(target) => {
            lemma_seek_keeps_wf(engine, target, seen);
        },
        Command::Release => {
            lemma_release_keeps_wf(
                engine,
                Release { by: None, reason: ReleaseReason::Command },
                seen,
            );
        },
        Command::Pause | Command::Resume | Command::TogglePause => {},
    }
}

proof fn lemma_release_keeps_wf(engine: Model, release: Release, seen: Seen)
    requires
        engine.ready(),
    ensures
        engine.release(release, seen).wf(),
{
    if engine.state is Paused && engine.sink is Some {
        lemma_let_go_keeps_wf(engine, release, seen);
    }
}

/// Whatever the engine is told, its invariant holds afterwards: among other things, a track is
/// known exactly while playing, paused or seeking, and a playing engine holds an output of the
/// track's format.
pub proof fn every_message_keeps_the_invariant(engine: Model, msg: Msg, seen: Seen)
    requires
        engine.ready(),
        msg matches Msg::Loaded { generation, track } ==> track.spec.channels > 0,
    ensures
        told(engine, msg, seen).wf(),
{
    match msg {
        Msg::Command(command) => {
            lemma_command_keeps_wf(engine, command, seen);
        },
        Msg::Loaded { generation, track } => {
            lemma_loaded_keeps_wf(engine, generation, track, seen);
        },
        Msg::LoadFailed { generation, error } => {
            failing_leaves_nothing_behind(engine, error@, seen.now);
        },
        Msg::QueueExhausted { generation } => {
            stopping_leaves_nothing_behind(engine.emit(EventView::QueueExhausted), seen.now);
        },
        Msg::ReleaseRequested { by } => {
            lemma_release_keeps_wf(
                engine,
                Release { by, reason: ReleaseReason::Requested },
                seen,
            );
        },
        Msg::SetOutput => {},
        Msg::Shutdown => {
            stopping_leaves_nothing_behind(engine, seen.now);
        },
    }
}

// ---- loads -----------------------------------------------------------------------------------

/// The answer to a load that nobody awaits changes nothing at all.
pub proof fn answers_nobody_awaits_are_ignored(
    engine: Model,
    generation: u64,
    track: LoadedTrack,
    error: String,
    seen: Seen,
)
    requires
        !engine.is_awaited(generation),
    ensures
        told(engine, Msg::Loaded { generation, track }, seen) == engine,
        told(engine, Msg::LoadFailed { generation, error }, seen) == engine,
        told(engine, Msg::QueueExhausted { generation }, seen) == engine,
{
}

/// A newer request for a track, or a stop, supersedes the load that was under way: its answer is
/// not awaited any more.
pub proof fn a_newer_request_supersedes_a_load(engine: Model, command: Command, seen: Seen)
    requires
        engine.ready(),
        match command {
            Command::Play(Some(_)) | Command::Next | Command::Previous | Command::Stop => true,
            _ => false,
        },
    ensures
        !engine.command(command, seen).is_awaited(engine.generation),
{
    assert(engine.generation.wrapping_add(1) != engine.generation);
}

/// A failed load, or one that finds nothing, stops the engine, which then takes new requests: it
/// waits for the track that is asked for next.
pub proof fn after_a_failed_load_the_engine_stays_usable(
    engine: Model,
    generation: u64,
    error: String,
    track: crate::engine::types::TrackRef,
    seen: Seen,
)
    requires
        engine.ready(),
        engine.is_awaited(generation),
    ensures
        ({
            let failed = told(engine, Msg::LoadFailed { generation, error }, seen);
            let again = failed.command(Command::Play(Some(track)), seen);
            &&& failed.state is Stopped
            &&& again.state is Loading
            &&& again.is_awaited(again.generation)
            &&& again.out.last() == EffectView::Load(
                again.generation,
                LoadTarget::Track(track),
                Duration { nanos: 0 },
            )
        }),
{
}

// ---- pausing ---------------------------------------------------------------------------------

/// Pausing a paused engine, and resuming a playing one, change nothing.
pub proof fn pausing_twice_or_resuming_while_playing_changes_nothing(engine: Model, seen: Seen)
    requires
        engine.ready(),
    ensures
        engine.state is Paused ==> engine.command(Command::Pause, seen) == engine,
        engine.state is Playing ==> engine.command(Command::Resume, seen) == engine,
        engine.state is Stopped ==> engine.command(Command::Pause, seen) == engine,
        engine.state is Stopped ==> engine.command(Command::Resume, seen) == engine,
        engine.state is Stopped ==> engine.command(Command::Release, seen) == engine,
{
}

/// A pause while a track loads makes it start paused, without asking anything of the output that
/// was opened for it; a resume before it is ready takes the pause back.
pub proof fn a_pause_while_loading_is_kept_until_the_track_is_ready(
    engine: Model,
    track: LoadedTrack,
    seen: Seen,
)
    requires
        engine.ready(),
        engine.state is Loading,
        engine.release_when_ready is None,
        engine.sink matches Some(sink) && sink.spec == track.spec,
        track.spec.channels > 0,
    ensures
        ({
            let paused = engine.command(Command::Pause, seen).loaded(
                engine.generation,
                track,
                seen,
            );
            let asked = paused.out.skip(engine.out.len() as int);
            &&& paused.state is Paused
            &&& !paused.current->0.sink_paused
            &&& forall|i: int|
                0 <= i < asked.len() ==> #[trigger] asked[i] != EffectView::PauseSink
        }),
        engine.command(Command::Pause, seen).command(Command::Resume, seen).loaded(
            engine.generation,
            track,
            seen,
        ).state is Playing,
{
    let paused = engine.command(Command::Pause, seen).loaded(engine.generation, track, seen);
    assert(paused.out.len() == engine.out.len() + 6);
}

/// Time alone never makes a silent engine play: a tick leaves the state as it is, and a device
/// that was handed back is not taken again by itself.
pub proof fn nothing_resumes_by_itself(engine: Model, seen: Seen)
    requires
        engine.ready(),
    ensures
        engine.tick(seen).state == engine.state,
        engine.released ==> engine.tick(seen) == engine,
        engine.options.release_after_pause is None ==> engine.tick(seen) == engine,
{
}

// ---- seeking ---------------------------------------------------------------------------------

/// A seek with nothing to seek in, or in a track that can't be seeked, is refused, and touches
/// nothing else.
pub proof fn a_refused_seek_touches_nothing(engine: Model, target: SeekTarget, seen: Seen)
    requires
        engine.current is None || engine.current->0.seek is Unseekable,
    ensures
        engine.seek(target, seen) == engine.emit(
            EventView::SeekRejected(
                if engine.current is None {
                    "nothing is playing"@
                } else {
                    "this track can't be seeked"@
                },
            ),
        ),
{
}

/// Going back further than the start of the track stops at the start.
pub proof fn a_backward_seek_stops_at_the_start(engine: Model, by: Duration, seen: Seen)
    requires
        engine.current matches Some(p) && p.heard(seen.queued)@ <= by@,
    ensures
        engine.seek_at(SeekTarget::Backward(by), seen)@ == 0,
{
}

/// Once a track is repositioned, the position is the target at once, whatever the output says it
/// still holds, and a seek relative to it is measured from there: seeks in a row compose.
pub proof fn after_a_seek_the_position_is_the_target(
    engine: Model,
    position: Duration,
    by: Duration,
    seen: Seen,
    later: Seen,
)
    requires
        engine.current is Some,
        position@ <= crate::time::MAX_NANOS,
    ensures
        engine.reposition(position, seen).status().position == position,
        engine.reposition(position, seen).seek_at(SeekTarget::Forward(by), later)
            == super::model::span(position@ + by@),
{
    let p = engine.reposition(position, seen).current->0;
    assert(crate::decode::frames_nanos(0, p.spec.sample_rate) == 0) by {
        vstd::arithmetic::div_mod::lemma_div_basics(crate::decode::rate_of(p.spec.sample_rate) as int);
        assert(0nat * crate::time::NANOS_PER_SEC as nat == 0);
    }
}

/// Seeking while paused stays paused: the track waits, and starts paused once it is reopened.
pub proof fn a_seek_while_paused_stays_paused(engine: Model, at: Duration, seen: Seen)
    requires
        engine.ready(),
        engine.state is Paused,
        engine.current->0.seek is Reopen,
    ensures
        engine.seek_reopen(engine.current->0, at, seen).state is Seeking,
        engine.seek_reopen(engine.current->0, at, seen).pause_when_ready,
{
}

// ---- no sample lost, none repeated -------------------------------------------------------------

/// Keeping the last samples of what was kept and what follows is keeping the last samples of
/// everything: what the engine keeps is always the end of all that was handed to the output.
pub proof fn what_is_kept_is_the_end_of_what_was_written(
    all: Seq<i32>,
    more: Seq<i32>,
    limit: nat,
)
    ensures
        last_of(last_of(all, limit) + more, limit) == last_of(all + more, limit),
{
    assert(last_of(last_of(all, limit) + more, limit) =~= last_of(all + more, limit));
}

/// Closing an output loses and repeats nothing. If `all` is everything that was handed to it, and
/// it holds `queued` frames of that, then what was heard, followed by what is pending afterwards,
/// is what was handed over, followed by what was pending before.
pub proof fn nothing_is_lost_or_repeated_when_an_output_is_closed(
    playing: PlayingModel,
    all: Seq<i32>,
    queued: u64,
    limit: nat,
)
    requires
        playing.spec.channels > 0,
        playing.kept == last_of(all, limit),
        queued * playing.spec.channels <= playing.kept.len(),
    ensures
        all.take(all.len() - queued * playing.spec.channels) + playing.taken_back(queued).pending
            == all + playing.pending,
{
    let count = queued as nat * playing.spec.channels as nat;
    assert(count == queued * playing.spec.channels);
    assert(playing.unheard(queued) =~= all.skip(all.len() - count));
    assert(all.take(all.len() - count) + (playing.unheard(queued) + playing.pending) =~= all
        + playing.pending);
}

/// Nor does it move the listener: what had been heard is the position afterwards.
pub proof fn closing_an_output_keeps_the_position(playing: PlayingModel, queued: u64)
    requires
        playing.spec.channels > 0,
        queued * playing.spec.channels <= playing.kept.len(),
        queued <= playing.frames_written,
    ensures
        playing.taken_back(queued).heard(0) == playing.heard(queued),
{
    let channels = playing.spec.channels as nat;
    let count = queued as nat * channels;
    assert(playing.unheard(queued).len() == count);
    assert(count / channels == queued as nat) by {
        vstd::arithmetic::div_mod::lemma_div_multiples_vanish(queued as int, channels as int);
        assert(channels as int * queued as int == count) by (nonlinear_arith)
            requires
                count == queued as nat * channels,
        ;
    }
}

/// What the output takes and what stays pending are together what was pending.
pub proof fn what_is_written_leaves_the_rest_pending(engine: Model, frames: usize, seen: Seen)
    requires
        engine.ready(),
        engine.state is Playing,
        frames > 0,
        frames * engine.current->0.spec.channels <= engine.current->0.pending.len(),
    ensures
        engine.current->0.pending.take(frames * engine.current->0.spec.channels as int)
            + engine.written(frames, seen).current->0.pending == engine.current->0.pending,
{
    let pending = engine.current->0.pending;
    let taken = frames * engine.current->0.spec.channels as int;
    assert(0 <= taken) by (nonlinear_arith)
        requires
            taken == frames * engine.current->0.spec.channels as int,
            frames > 0,
            engine.current->0.spec.channels >= 0,
    ;
    assert(pending.take(taken) + pending.skip(taken) =~= pending);
}

/// A device that is handed back, for whatever reason, leaves the engine paused on its track.
pub proof fn handing_the_device_back_keeps_the_track(engine: Model, release: Release, seen: Seen)
    requires
        engine.ready(),
        engine.state is Paused,
    ensures
        ({
            let after = engine.let_go(release, seen);
            &&& after.state is Paused
            &&& after.current is Some
            &&& after.current->0.meta == engine.current->0.meta
            &&& after.status().output == (OutputState::Released { by: release.by })
        }),
{
}

/// An output that cannot be taken again leaves everything as it was, so that another resume can
/// try: only the refusal is reported.
pub proof fn a_refused_resume_can_be_retried(engine: Model, cause: Seq<char>, seen: Seen)
    requires
        engine.ready(),
        engine.state is Paused,
        engine.sink is None,
    ensures
        ({
            let refused = engine.command(Command::Resume, seen).not_opened(cause, seen.now);
            &&& refused == (Model { out: refused.out, ..engine })
            &&& refused.out == engine.out + seq![
                EffectView::OpenSink(engine.current->0.spec),
                EffectView::Emit(
                    EventView::Error(
                        super::model::in_context("opening the audio output"@, cause),
                    ),
                ),
            ]
        }),
{
    let refused = engine.command(Command::Resume, seen).not_opened(cause, seen.now);
    assert(refused.out =~= engine.out + seq![
        EffectView::OpenSink(engine.current->0.spec),
        EffectView::Emit(
            EventView::Error(super::model::in_context("opening the audio output"@, cause)),
        ),
    ]);
    assert(refused =~= Model { out: refused.out, ..engine });
}

/// Between two tracks the device is never handed back: the output stays open if the format stays
/// the same, and otherwise is closed and opened again at once.
pub proof fn between_tracks_the_device_is_kept(engine: Model, track: LoadedTrack, seen: Seen)
    requires
        engine.ready(),
        engine.state is Loading,
        !engine.pause_when_ready,
        engine.sink is Some,
        track.spec.channels > 0,
    ensures
        ({
            let after = engine.start_track(track, seen);
            let asked = after.out.skip(engine.out.len() as int);
            &&& engine.sink->0.spec == track.spec ==> after.sink == engine.sink
            &&& engine.sink->0.spec != track.spec ==> asked == seq![
                EffectView::CloseSink,
                EffectView::OpenSink(track.spec),
            ]
            &&& forall|i: int|
                0 <= i < asked.len() ==> #[trigger] asked[i] != EffectView::ReleaseDevice
        }),
{
    let after = engine.start_track(track, seen);
    let asked = after.out.skip(engine.out.len() as int);
    if engine.sink->0.spec == track.spec {
        assert(after.out.len() == engine.out.len() + 6);
    } else {
        assert(asked =~= seq![EffectView::CloseSink, EffectView::OpenSink(track.spec)]);
    }
}

} // verus!
