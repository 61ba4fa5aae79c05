//! What the engine's rules come to: for each thing that it is told, what it asks of the outside, in
//! order, and where that leaves the listener.

use super::audio_thread::{told, Msg};
use super::model::{Asked, EffectView, LoadTarget, Model, PlayingModel, Release, Seen, SinkInfo};
use super::supplier::{Advance, LoadedTrack, SeekMode};
use super::types::{
    Command, EndReason, EventView, OutputState, ReleaseReason, SeekTarget, State, Status, TrackRef,
};
use crate::time::Duration;
use vstd::prelude::*;

verus! {

// ---- positions -------------------------------------------------------------------------------

/// Whether `nanos` is how long `frames` frames last, to the nanosecond below.
pub open spec fn lasts(frames: int, sample_rate: u32, nanos: int) -> bool {
    nanos * sample_rate <= frames * 1_000_000_000 < (nanos + 1) * sample_rate
}

proof fn lemma_lasts(frames: nat, sample_rate: u32)
    requires
        sample_rate > 0,
    ensures
        lasts(
            frames as int,
            sample_rate,
            crate::decode::frames_nanos(frames, sample_rate) as int,
        ),
{
    let total = frames as int * 1_000_000_000;
    let rate = sample_rate as int;
    vstd::arithmetic::div_mod::lemma_fundamental_div_mod(total, rate);
    vstd::arithmetic::div_mod::lemma_mod_bound(total, rate);
    let n = total / rate;
    assert(n * rate <= total < (n + 1) * rate) by (nonlinear_arith)
        requires
            total == rate * n + total % rate,
            0 <= total % rate < rate,
    ;
}

/// What has been heard is what was handed to the output without what it still holds, counted from
/// where the first of it sits in the track.
pub proof fn what_was_heard_was_written_and_is_not_queued(playing: PlayingModel, queued: u64)
    requires
        playing.spec.sample_rate > 0,
        playing.heard(queued)@ < 18_446_744_073_709_551_615_999_999_999,
    ensures
        playing.heard(queued)@ >= playing.base@,
        queued <= playing.frames_written ==> lasts(
            playing.frames_written - queued,
            playing.spec.sample_rate,
            playing.heard(queued)@ - playing.base@,
        ),
        queued > playing.frames_written ==> playing.heard(queued)@ == playing.base@,
{
    if queued <= playing.frames_written {
        lemma_lasts((playing.frames_written - queued) as nat, playing.spec.sample_rate);
    } else {
        lemma_lasts(0, playing.spec.sample_rate);
        let n = crate::decode::frames_nanos(0, playing.spec.sample_rate) as int;
        assert(n == 0) by (nonlinear_arith)
            requires
                n * playing.spec.sample_rate <= 0,
                playing.spec.sample_rate > 0,
                n >= 0,
        ;
    }
}

/// The next sample to be read sits behind everything that was handed to the output and everything
/// that is still to be.
pub proof fn what_is_read_next_follows_what_was_read(playing: PlayingModel)
    requires
        playing.spec.sample_rate > 0,
        playing.spec.channels > 0,
        playing.read_until()@ < 18_446_744_073_709_551_615_999_999_999,
        playing.frames_written + playing.pending.len() <= u64::MAX,
    ensures
        playing.read_until()@ >= playing.base@,
        lasts(
            playing.frames_written + playing.pending.len() as int / playing.spec.channels as int,
            playing.spec.sample_rate,
            playing.read_until()@ - playing.base@,
        ),
{
    let channels = playing.spec.channels as int;
    let whole = playing.pending.len() as int / channels;
    assert(0 <= whole <= playing.pending.len()) by (nonlinear_arith)
        requires
            whole == playing.pending.len() as int / channels,
            channels > 0,
            playing.pending.len() >= 0,
    ;
    lemma_lasts((playing.frames_written + whole) as nat, playing.spec.sample_rate);
}

// ---- seeking ---------------------------------------------------------------------------------

/// A backward seek lands as far behind what has been heard as was asked for, or at the start if that
/// is nearer; a forward seek as far ahead of it; and an absolute one where it says, whatever has been
/// heard.
pub proof fn a_seek_lands_where_it_was_asked_to(
    engine: Model,
    by: Duration,
    at: Duration,
    seen: Seen,
)
    requires
        engine.current is Some,
    ensures
        ({
            let heard = engine.current->0.heard(seen.queued)@;
            let back = engine.seek_at(SeekTarget::Backward(by), seen)@;
            let ahead = engine.seek_at(SeekTarget::Forward(by), seen)@;
            &&& by@ <= heard ==> back + by@ == heard
            &&& by@ >= heard ==> back == 0
            &&& heard + by@ <= 18_446_744_073_709_551_615_999_999_999 ==> ahead - by@ == heard
            &&& engine.seek_at(SeekTarget::Absolute(at), seen) == at
        }),
{
}

/// What is asked of an output that is open before anything else is done: to throw away what it holds.
pub open spec fn flushing(engine: Model) -> Seq<EffectView> {
    if engine.sink is Some {
        seq![EffectView::FlushSink]
    } else {
        Seq::empty()
    }
}

/// A seek in a track that can be sought in place throws away what is queued and repositions the
/// audio to the target; nothing else changes until it landed.
pub proof fn a_seek_in_place_repositions_the_audio(engine: Model, target: SeekTarget, seen: Seen)
    requires
        engine.ready(),
        engine.current matches Some(p) && p.seek is InPlace && (p.duration matches Some(length)
            ==> engine.seek_at(target, seen)@ < length@),
    ensures
        ({
            let after = engine.command(Command::Seek(target), seen);
            let at = engine.seek_at(target, seen);
            &&& after.out == engine.out + flushing(engine) + seq![EffectView::SeekSource(at)]
            &&& after == (Model { asked: Asked::Seek, out: after.out, ..engine })
        }),
{
    let after = engine.command(Command::Seek(target), seen);
    assert(after.out =~= engine.out + flushing(engine) + seq![
        EffectView::SeekSource(engine.seek_at(target, seen)),
    ]);
}

/// Where the audio landed is the position from then on: it is reported, nothing is pending or queued
/// any more, and what is heard counts from there.
pub proof fn the_position_is_where_the_audio_landed(
    engine: Model,
    landed: Duration,
    cause: Seq<char>,
    seen: Seen,
)
    requires
        engine.wf(),
        engine.asked is Seek,
        landed@ <= 18_446_744_073_709_551_615_999_999_999,
    ensures
        ({
            let after = engine.sought(Some(landed), cause, seen);
            let p = after.current->0;
            &&& after.state == engine.state
            &&& after.asked is Nothing
            &&& p.base == landed
            &&& p.position == landed
            &&& p.frames_written == 0
            &&& p.pending.len() == 0
            &&& p.kept.len() == 0
            &&& p.has_source == engine.current->0.has_source
            &&& p.meta == engine.current->0.meta
            &&& after.out == engine.out + seq![
                EffectView::Emit(EventView::Seeked(landed)),
                EffectView::Publish(after.status()),
                EffectView::Emit(EventView::Position(landed, engine.current->0.duration)),
            ]
        }),
        ({
            let failed = engine.sought(None, cause, seen);
            &&& failed.state is Stopped
            &&& failed.current is None
            &&& failed.out[engine.out.len() as int] == EffectView::Emit(
                EventView::Error("seeking in the track"@ + ": "@ + cause),
            )
        }),
{
    let after = engine.sought(Some(landed), cause, seen);
    let p = engine.current->0;
    lemma_nothing_lasts_nothing(p.spec.sample_rate);
    assert(after.out =~= engine.out + seq![
        EffectView::Emit(EventView::Seeked(landed)),
        EffectView::Publish(after.status()),
        EffectView::Emit(EventView::Position(landed, p.duration)),
    ]);
}

proof fn lemma_nothing_lasts_nothing(sample_rate: u32)
    ensures
        crate::decode::frames_nanos(0, sample_rate) == 0,
{
    vstd::arithmetic::div_mod::lemma_div_basics(crate::decode::rate_of(sample_rate) as int);
    assert(0nat * crate::time::NANOS_PER_SEC as nat == 0);
}

/// A seek to the end of the track or past it, if its length is known, is the end of the track: it is
/// over, as if it had been played, and the next one is asked for. A seek to before its end is not.
pub proof fn a_seek_past_the_end_is_the_end(engine: Model, target: SeekTarget, seen: Seen)
    requires
        engine.ready(),
        engine.current matches Some(p) && !(p.seek is Unseekable),
    ensures
        ({
            let p = engine.current->0;
            let after = engine.command(Command::Seek(target), seen);
            let past = p.duration matches Some(length) && engine.seek_at(target, seen)@ >= length@;
            &&& past ==> {
                &&& after.state is Loading
                &&& after.current is None
                &&& after.generation != engine.generation
                &&& after.sink == engine.sink
                &&& exists|i: int|
                    0 <= i < after.out.len() && #[trigger] after.out[i] == EffectView::Emit(
                        EventView::TrackEnded(p.meta, EndReason::Completed),
                    )
                &&& after.out.last() == EffectView::Load(
                    after.generation,
                    LoadTarget::Advance(Advance::Auto),
                    Duration { nanos: 0 },
                )
            }
            &&& !past ==> after.current is Some && after.current->0.meta == p.meta
        }),
{
    let p = engine.current->0;
    let after = engine.command(Command::Seek(target), seen);
    let past = p.duration is Some && engine.seek_at(target, seen)@ >= p.duration->0@;
    assert(engine.generation.wrapping_add(1) != engine.generation);
    if past {
        let ended = engine.flush().end_track(EndReason::Completed);
        let i = ended.out.len() - 1;
        assert(ended.out[i] == EffectView::Emit(
            EventView::TrackEnded(p.meta, EndReason::Completed),
        ));
        assert(after.out[i] == ended.out[i]);
    }
}

/// A stream that can only be read forward is sought only past what was read of it: it then skips as
/// many frames as lie between, to the nearest one, and the position is the target at once. Anything
/// nearer is refused, and changes nothing.
pub proof fn a_forward_only_stream_skips_ahead(engine: Model, target: SeekTarget, seen: Seen)
    requires
        engine.ready(),
        engine.current matches Some(p) && p.seek is ForwardOnly && p.spec.sample_rate > 0
            && (p.duration matches Some(length) ==> engine.seek_at(target, seen)@ < length@),
        engine.seek_at(target, seen)@ <= 18_446_744_073_709_551_615_999_999_999,
    ensures
        ({
            let p = engine.current->0;
            let at = engine.seek_at(target, seen);
            let after = engine.command(Command::Seek(target), seen);
            let start = engine.out.len() + flushing(engine).len();
            &&& at@ < p.read_until()@ ==> after == (Model { out: after.out, ..engine })
                && after.out == engine.out.push(
                EffectView::Emit(
                    EventView::SeekRejected(
                        "this stream can only seek forward, past what is already buffered"@,
                    ),
                ),
            )
            &&& at@ >= p.read_until()@ ==> {
                &&& after.state == engine.state
                &&& after.current->0.base == at
                &&& after.current->0.position == at
                &&& after.current->0.pending.len() == 0
                &&& after.out[start as int] matches EffectView::SkipFrames(frames) && (frames
                    < u64::MAX ==> {
                    let exact = (at@ - p.read_until()@) * p.spec.sample_rate;
                    exact - 500_000_000 < frames * 1_000_000_000 <= exact + 500_000_000
                })
                &&& after.out[start as int + 1] == EffectView::Emit(EventView::Seeked(at))
            }
        }),
{
    let p = engine.current->0;
    let at = engine.seek_at(target, seen);
    let after = engine.command(Command::Seek(target), seen);
    lemma_nothing_lasts_nothing(p.spec.sample_rate);
    if at@ >= p.read_until()@ {
        let gap = (at@ - p.read_until()@) as nat;
        let exact = gap as int * p.spec.sample_rate as int;
        vstd::arithmetic::div_mod::lemma_fundamental_div_mod(exact + 500_000_000, 1_000_000_000);
        let skipped = engine.flush().does(
            EffectView::SkipFrames(
                super::model::capped(crate::decode::nearest_frames(gap, p.spec.sample_rate)),
            ),
        );
        let start = engine.out.len() + flushing(engine).len();
        assert(after.out[start as int] == skipped.out.last());
    } else {
        assert(after.out =~= engine.out.push(
            EffectView::Emit(
                EventView::SeekRejected(
                    "this stream can only seek forward, past what is already buffered"@,
                ),
            ),
        ));
        assert(after =~= Model { out: after.out, ..engine });
    }
}

/// A track that has to be reopened is dropped and asked for again from the target; meanwhile the
/// position is the target, and whether it was paused, or was to be, is kept.
pub proof fn a_reopening_seek_asks_for_the_track_from_the_target(
    engine: Model,
    target: SeekTarget,
    seen: Seen,
)
    requires
        engine.ready(),
        engine.current matches Some(p) && p.seek is Reopen && (p.duration matches Some(length)
            ==> engine.seek_at(target, seen)@ < length@),
        engine.seek_at(target, seen)@ <= 18_446_744_073_709_551_615_999_999_999,
    ensures
        ({
            let p = engine.current->0;
            let at = engine.seek_at(target, seen);
            let after = engine.command(Command::Seek(target), seen);
            &&& after.state is Seeking
            &&& after.pause_when_ready == (engine.state is Paused || engine.pause_when_ready)
            &&& !after.current->0.has_source
            &&& after.current->0.base == at
            &&& after.current->0.position == at
            &&& after.current->0.meta == p.meta
            &&& after.current->0.duration == p.duration
            &&& after.sink == engine.sink
            &&& after.generation != engine.generation
            &&& exists|i: int|
                0 <= i < after.out.len() && #[trigger] after.out[i] == EffectView::Load(
                    after.generation,
                    LoadTarget::Track(p.meta.track),
                    at,
                )
            &&& exists|i: int|
                0 <= i < after.out.len() && #[trigger] after.out[i] == EffectView::Emit(
                    EventView::Seeked(at),
                )
            &&& after.out.last() == EffectView::Emit(EventView::Position(at, p.duration))
        }),
{
    let p = engine.current->0;
    let at = engine.seek_at(target, seen);
    let after = engine.command(Command::Seek(target), seen);
    lemma_nothing_lasts_nothing(p.spec.sample_rate);
    assert(engine.generation.wrapping_add(1) != engine.generation);
    let n = after.out.len();
    assert(after.out[n - 3] == EffectView::Emit(EventView::Seeked(at)));
    assert(after.out[n - 4] == EffectView::Load(
        after.generation,
        LoadTarget::Track(p.meta.track),
        at,
    ));
}

/// When a reopened track arrives, playback carries on at the target: what the audio has before it is
/// skipped, to the nearest frame; audio that begins behind it is played from where it begins. A track
/// in another format is an error.
pub proof fn a_reopened_track_carries_on_at_the_target(
    engine: Model,
    track: LoadedTrack,
    seen: Seen,
)
    requires
        engine.ready(),
        engine.state is Seeking,
        engine.current->0.spec.sample_rate > 0,
    ensures
        ({
            let p = engine.current->0;
            let after = engine.loaded(engine.generation, track, seen);
            let n = engine.out.len() as int;
            &&& track.spec != p.spec ==> after.state is Stopped && after.out[n] == EffectView::Emit(
                EventView::Error(
                    "the reopened track has a different format than the one that was playing"@,
                ),
            )
            &&& track.spec == p.spec ==> {
                &&& after.current->0.base == if track.start@ <= p.base@ {
                    p.base
                } else {
                    track.start
                }
                &&& after.current->0.has_source
                &&& after.current->0.meta == p.meta
                &&& after.current->0.seek == track.seek
                &&& after.out[n] == EffectView::UseSource
                &&& track.start@ <= p.base@ ==> (after.out[n + 1] matches EffectView::SkipFrames(
                    frames,
                ) && (frames < u64::MAX ==> {
                    let exact = (p.base@ - track.start@) * p.spec.sample_rate;
                    exact - 500_000_000 < frames * 1_000_000_000 <= exact + 500_000_000
                }))
                &&& engine.sink is None && !engine.pause_when_ready ==> after.asked
                    is OpenAfterSeek && after.out.last() == EffectView::OpenSink(p.spec)
                &&& engine.sink is Some && !engine.pause_when_ready ==> after.state is Playing
                &&& engine.pause_when_ready ==> after.state is Paused
            }
        }),
{
    let p = engine.current->0;
    let gap = (p.base@ - track.start@) as nat;
    if track.spec == p.spec && track.start@ <= p.base@ {
        let exact = gap as int * p.spec.sample_rate as int;
        vstd::arithmetic::div_mod::lemma_fundamental_div_mod(exact + 500_000_000, 1_000_000_000);
    }
}

// ---- starting and ending ---------------------------------------------------------------------

/// What cutting a track short asks of the outside: what is queued of it is thrown away, and its end
/// is reported.
pub open spec fn cutting_short(engine: Model) -> Seq<EffectView> {
    match engine.current {
        Some(p) => flushing(engine) + seq![
            EffectView::DropSource,
            EffectView::Emit(EventView::TrackEnded(p.meta, EndReason::Interrupted)),
        ],
        None => Seq::empty(),
    }
}

/// Whether `after` is `engine` with a load of `target` from the start begun, and a track that was
/// playing cut short: the load that was under way is given up, and a wish for the device that waited
/// for it is refused.
pub open spec fn has_asked_for(engine: Model, after: Model, target: LoadTarget) -> bool {
    let quiet = cutting_short(engine) + seq![EffectView::AbortLoad];
    let answered = if engine.release_when_ready is Some {
        quiet + seq![EffectView::AnswerReleases(false)]
    } else {
        quiet
    };
    let published = EffectView::Publish(
        Status {
            state: State::Loading,
            track: None,
            spec: None,
            position: Duration { nanos: 0 },
            duration: None,
            output: if engine.sink is Some {
                OutputState::Open
            } else if engine.released {
                OutputState::Released { by: engine.released_by }
            } else {
                OutputState::Closed
            },
        },
    );
    let load = EffectView::Load(after.generation, target, Duration { nanos: 0 });
    &&& after.state is Loading
    &&& after.current is None
    &&& !after.pause_when_ready
    &&& after.release_when_ready is None
    &&& after.sink == engine.sink
    &&& after.released == engine.released
    &&& after.paused_at is None
    &&& after.asked is Nothing
    &&& after.generation != engine.generation
    &&& after.out == engine.out + answered + if engine.state is Loading {
        seq![published, load]
    } else {
        seq![published, EffectView::Emit(EventView::StateChanged(State::Loading)), load]
    }
}

proof fn lemma_asks_for(engine: Model, target: LoadTarget, now: Duration)
    requires
        engine.ready(),
    ensures
        has_asked_for(engine, engine.interrupt().request_load(target, now), target),
{
    let after = engine.interrupt().request_load(target, now);
    assert(engine.generation.wrapping_add(1) != engine.generation);
    let quiet = cutting_short(engine) + seq![EffectView::AbortLoad];
    let answered = if engine.release_when_ready is Some {
        quiet + seq![EffectView::AnswerReleases(false)]
    } else {
        quiet
    };
    let last = if engine.state is Loading {
        2int
    } else {
        3
    };
    let n = after.out.len() - last;
    assert(after.out =~= engine.out + answered + after.out.skip(n));
    if engine.state is Loading {
        assert(after.out.skip(n) =~= seq![after.out[n], after.out[n + 1]]);
    } else {
        assert(after.out.skip(n) =~= seq![after.out[n], after.out[n + 1], after.out[n + 2]]);
    }
}

/// Asking for a track cuts short what is playing and asks for that track; skipping asks for the next
/// one; and going back asks for the same one again once three seconds of it have been heard, and for
/// the one before it until then.
pub proof fn each_command_asks_for_its_track(engine: Model, track: TrackRef, seen: Seen)
    requires
        engine.ready(),
    ensures
        has_asked_for(
            engine,
            engine.command(Command::Play(Some(track)), seen),
            LoadTarget::Track(track),
        ),
        has_asked_for(
            engine,
            engine.command(Command::Next, seen),
            LoadTarget::Advance(Advance::Next),
        ),
        engine.current matches Some(p) && p.heard(seen.queued)@ >= 3_000_000_000
            ==> has_asked_for(
            engine,
            engine.command(Command::Previous, seen),
            LoadTarget::Advance(Advance::Restart),
        ),
        !(engine.current matches Some(p) && p.heard(seen.queued)@ >= 3_000_000_000)
            ==> has_asked_for(
            engine,
            engine.command(Command::Previous, seen),
            LoadTarget::Advance(Advance::Previous),
        ),
        engine.state is Stopped ==> has_asked_for(
            engine,
            engine.command(Command::Play(None), seen),
            LoadTarget::Advance(Advance::Auto),
        ),
        !(engine.state is Stopped) ==> engine.command(Command::Play(None), seen) == engine,
{
    lemma_asks_for(engine, LoadTarget::Track(track), seen.now);
    lemma_asks_for(engine, LoadTarget::Advance(Advance::Next), seen.now);
    lemma_asks_for(engine, LoadTarget::Advance(Advance::Restart), seen.now);
    lemma_asks_for(engine, LoadTarget::Advance(Advance::Previous), seen.now);
    lemma_asks_for(engine, LoadTarget::Advance(Advance::Auto), seen.now);
}

/// The status that everybody sees says what is playing, how far it has been heard, and what the
/// device is used for.
pub proof fn the_status_says_what_is_playing(engine: Model)
    ensures
        engine.status().state == engine.state,
        engine.current matches Some(p) ==> {
            &&& engine.status().track == Some(p.meta)
            &&& engine.status().spec == Some(p.spec)
            &&& engine.status().position == p.position
            &&& engine.status().duration == p.duration
        },
        engine.current is None ==> {
            &&& engine.status().track is None
            &&& engine.status().spec is None
            &&& engine.status().position@ == 0
            &&& engine.status().duration is None
        },
        engine.sink is Some ==> engine.status().output is Open,
        engine.sink is None && engine.released ==> engine.status().output == (
        OutputState::Released { by: engine.released_by }),
        engine.sink is None && !engine.released ==> engine.status().output is Closed,
{
}

/// What stopping asks of the outside once nothing is playing any more.
pub open spec fn shutting(engine: Model, stopped: Model) -> Seq<EffectView> {
    let closing = if engine.sink is Some {
        seq![EffectView::AbortLoad, EffectView::CloseSink]
    } else {
        seq![EffectView::AbortLoad]
    };
    let published = seq![
        EffectView::ReleaseDevice,
        EffectView::AnswerReleases(true),
        EffectView::Publish(stopped.status()),
    ];
    if engine.state is Stopped {
        closing + published
    } else {
        closing + published + seq![EffectView::Emit(EventView::StateChanged(State::Stopped))]
    }
}

/// Stopping cuts the track short, gives up the load, closes the output, gives the card back and tells
/// whoever waits for it that it is free.
pub proof fn stopping_gives_everything_back(engine: Model, seen: Seen)
    ensures
        ({
            let stopped = engine.command(Command::Stop, seen);
            stopped.out == engine.out + cutting_short(engine) + shutting(engine, stopped)
        }),
        told(engine, Msg::Shutdown, seen) == engine.command(Command::Stop, seen),
{
    let stopped = engine.command(Command::Stop, seen);
    assert(stopped.out =~= engine.out + cutting_short(engine) + shutting(engine, stopped));
}

/// A failure does the same, once it was reported, with the track ended by it.
pub proof fn a_failure_gives_everything_back(engine: Model, message: Seq<char>, seen: Seen)
    ensures
        ({
            let failed = engine.fail(message, seen.now);
            let ending = match engine.current {
                Some(p) => seq![
                    EffectView::DropSource,
                    EffectView::Emit(EventView::TrackEnded(p.meta, EndReason::Failed)),
                ],
                None => Seq::empty(),
            };
            failed.out == engine.out + seq![EffectView::Emit(EventView::Error(message))] + ending
                + shutting(engine, failed)
        }),
{
    let failed = engine.fail(message, seen.now);
    let ending = match engine.current {
        Some(p) => seq![
            EffectView::DropSource,
            EffectView::Emit(EventView::TrackEnded(p.meta, EndReason::Failed)),
        ],
        None => Seq::empty(),
    };
    assert(failed.out =~= engine.out + seq![EffectView::Emit(EventView::Error(message))] + ending
        + shutting(engine, failed));
}

/// So does the end of the queue, once it was reported.
pub proof fn the_end_of_the_queue_gives_everything_back(engine: Model, seen: Seen)
    requires
        engine.state is Loading,
        engine.current is None,
    ensures
        ({
            let over = engine.exhausted(engine.generation, seen.now);
            &&& over.state is Stopped
            &&& over.out == engine.out + seq![EffectView::Emit(EventView::QueueExhausted)]
                + shutting(engine, over)
        }),
{
    let over = engine.exhausted(engine.generation, seen.now);
    assert(over.out =~= engine.out + seq![EffectView::Emit(EventView::QueueExhausted)] + shutting(
        engine,
        over,
    ));
}

/// A track that was loaded starts where its audio begins, with the length that is known of it, or
/// else the one that its audio says; nothing of it was read or written yet. It is reported before
/// the state, and the position after it.
pub proof fn a_track_starts_where_its_audio_begins(engine: Model, track: LoadedTrack, seen: Seen)
    requires
        engine.ready(),
        engine.state is Loading,
        engine.release_when_ready is None,
        engine.sink matches Some(sink) && sink.spec == track.spec,
        track.spec.channels > 0,
        track.start@ <= 18_446_744_073_709_551_615_999_999_999,
    ensures
        ({
            let after = engine.loaded(engine.generation, track, seen);
            let p = after.current->0;
            let state = if engine.pause_when_ready {
                State::Paused
            } else {
                State::Playing
            };
            &&& after.state == state
            &&& after.sink == engine.sink
            &&& !after.pause_when_ready
            &&& p.meta == track.meta
            &&& p.spec == track.spec
            &&& p.seek == track.seek
            &&& p.has_source
            &&& p.base == track.start
            &&& p.position == track.start
            &&& p.frames_written == 0
            &&& p.pending.len() == 0
            &&& p.kept.len() == 0
            &&& !p.sink_paused
            &&& p.last_position_at == seen.now
            &&& track.meta.duration is Some ==> p.duration == track.meta.duration
            &&& track.meta.duration is None ==> p.duration == track.source_duration
            &&& after.out.len() == engine.out.len() + 6
            &&& after.out[engine.out.len() as int] == EffectView::UseSource
            &&& after.out[engine.out.len() as int + 1] == EffectView::Emit(
                EventView::TrackStarted(track.meta, track.spec),
            )
            &&& after.out[engine.out.len() as int + 3] == EffectView::Emit(EventView::StateChanged(state))
            &&& after.out[engine.out.len() as int + 5] == EffectView::Emit(
                EventView::Position(track.start, p.duration),
            )
        }),
{
    lemma_nothing_lasts_nothing(track.spec.sample_rate);
}

/// A track whose format is not that of the open output waits for an output of its own format, and
/// starts once that is open.
pub proof fn a_track_waits_for_an_output_of_its_format(
    engine: Model,
    track: LoadedTrack,
    capacity: u64,
    seen: Seen,
)
    requires
        engine.ready(),
        engine.state is Loading,
        !engine.pause_when_ready,
        engine.sink matches Some(sink) ==> sink.spec != track.spec,
        track.spec.channels > 0,
    ensures
        ({
            let asked = engine.loaded(engine.generation, track, seen);
            let after = asked.opened(capacity, seen);
            &&& asked.asked == Asked::OpenForTrack(track)
            &&& asked.sink is None
            &&& asked.out == engine.out + if engine.sink is Some {
                seq![EffectView::CloseSink, EffectView::OpenSink(track.spec)]
            } else {
                seq![EffectView::OpenSink(track.spec)]
            }
            &&& after.state is Playing
            &&& after.sink == Some(SinkInfo { spec: track.spec, capacity })
            &&& !after.released
            &&& after.current->0.meta == track.meta
            &&& engine.released ==> after.out[asked.out.len() as int] == EffectView::Emit(
                EventView::OutputAcquired,
            )
            &&& !engine.released ==> after.out[asked.out.len() as int] == EffectView::UseSource
        }),
{
    let asked = engine.loaded(engine.generation, track, seen);
    assert(asked.out =~= engine.out + if engine.sink is Some {
        seq![EffectView::CloseSink, EffectView::OpenSink(track.spec)]
    } else {
        seq![EffectView::OpenSink(track.spec)]
    });
}

/// When the audio of a track is read to its end, the output plays what it holds, the last position is
/// reported, the track is over, and the next one is asked for.
pub proof fn a_track_that_was_played_is_followed_by_the_next(engine: Model, seen: Seen)
    requires
        engine.ready(),
        engine.state is Playing,
    ensures
        ({
            let ending = engine.chunk(None);
            let after = ending.drained(seen);
            let p = engine.current->0;
            let n = engine.out.len() as int;
            &&& ending == (Model {
                asked: Asked::Drain,
                out: engine.out.push(EffectView::DrainSink),
                ..engine
            })
            &&& after.state is Loading
            &&& after.current is None
            &&& after.sink == engine.sink
            &&& after.out[n + 2] == EffectView::Emit(
                EventView::Position(p.heard(seen.queued), p.duration),
            )
            &&& after.out[n + 3] == EffectView::DropSource
            &&& after.out[n + 4] == EffectView::Emit(
                EventView::TrackEnded(p.meta, EndReason::Completed),
            )
            &&& after.out.last() == EffectView::Load(
                after.generation,
                LoadTarget::Advance(Advance::Auto),
                Duration { nanos: 0 },
            )
        }),
{
    assert(engine.chunk(None) =~= Model {
        asked: Asked::Drain,
        out: engine.out.push(EffectView::DrainSink),
        ..engine
    });
}

// ---- pausing and the device ------------------------------------------------------------------

/// A pause of a playing track pauses the output, and once that did, the position is what has been
/// heard, and both are reported; a resume resumes the output; a toggle is whichever of the two applies.
pub proof fn a_pause_holds_the_output_and_a_resume_lets_it_go(engine: Model, seen: Seen)
    requires
        engine.ready(),
        engine.state is Playing,
    ensures
        ({
            let asked = engine.command(Command::Pause, seen);
            let paused = asked.paused(None, seen);
            let p = engine.current->0;
            let n = asked.out.len() as int;
            &&& asked == (Model {
                asked: Asked::Pause(None),
                out: engine.out.push(EffectView::PauseSink),
                ..engine
            })
            &&& engine.command(Command::TogglePause, seen) == asked
            &&& paused.state is Paused
            &&& paused.paused_at == Some(seen.now)
            &&& paused.sink == engine.sink
            &&& paused.current->0.sink_paused
            &&& paused.current->0.position == p.heard(seen.queued)
            &&& paused.current->0.pending == p.pending
            &&& paused.current->0.frames_written == p.frames_written
            &&& paused.out.len() == n + 4
            &&& paused.out[n + 1] == EffectView::Emit(EventView::StateChanged(State::Paused))
            &&& paused.out[n + 3] == EffectView::Emit(
                EventView::Position(p.heard(seen.queued), p.duration),
            )
        }),
{
    assert(engine.command(Command::Pause, seen) =~= Model {
        asked: Asked::Pause(None),
        out: engine.out.push(EffectView::PauseSink),
        ..engine
    });
}

/// A resume of a paused track resumes an output that was paused, opens one if there is none, and
/// otherwise just carries on; the track, and what is still to be played of it, are as they were.
pub proof fn a_resume_carries_on_with_the_track(engine: Model, capacity: u64, seen: Seen)
    requires
        engine.ready(),
        engine.state is Paused,
    ensures
        ({
            let p = engine.current->0;
            let asked = engine.command(Command::Resume, seen);
            &&& engine.command(Command::TogglePause, seen) == asked
            &&& engine.sink is None ==> {
                let after = asked.opened(capacity, seen);
                &&& asked.asked is OpenForResume
                &&& asked.out == engine.out.push(EffectView::OpenSink(p.spec))
                &&& after.state is Playing
                &&& after.sink == Some(SinkInfo { spec: p.spec, capacity })
                &&& !after.released
                &&& after.current == engine.current
                &&& after.out[asked.out.len() as int] == EffectView::Emit(EventView::OutputAcquired)
                &&& after.out.last() == EffectView::Emit(EventView::StateChanged(State::Playing))
            }
            &&& engine.sink is Some && p.sink_paused ==> {
                let after = asked.resumed(None, seen.now);
                &&& asked.asked is Resume
                &&& asked.out == engine.out.push(EffectView::ResumeSink)
                &&& after.state is Playing
                &&& after.sink == engine.sink
                &&& after.current == Some(PlayingModel { sink_paused: false, ..p })
                &&& after.out.last() == EffectView::Emit(EventView::StateChanged(State::Playing))
            }
            &&& engine.sink is Some && !p.sink_paused ==> {
                &&& asked.state is Playing
                &&& asked.asked is Nothing
                &&& asked.current == engine.current
                &&& asked.sink == engine.sink
            }
        }),
{
}

/// Whether `after` is `engine` with its device handed back: the output is closed and the card given
/// back, that is reported with who asked and why, and who waits for it is told that it is free. What
/// the output had not played is still to be played.
pub open spec fn has_let_go(engine: Model, after: Model, release: Release, seen: Seen) -> bool {
    let asked = after.out.skip(engine.out.len() as int);
    let closing = if engine.sink is Some {
        seq![EffectView::CloseSink]
    } else {
        Seq::empty()
    };
    &&& after.state == engine.state
    &&& after.sink is None
    &&& after.released
    &&& after.released_by == release.by
    &&& after.out.take(engine.out.len() as int) == engine.out
    &&& asked == closing + seq![
        EffectView::ReleaseDevice,
        EffectView::Publish(after.status()),
        EffectView::Emit(EventView::OutputReleased(release.by, release.reason)),
        EffectView::AnswerReleases(true),
    ]
    &&& engine.current is Some ==> after.current is Some
    &&& engine.current matches Some(p) ==> {
        let q = after.current->0;
        &&& q.meta == p.meta
        &&& q.base == p.base
        &&& q.position == p.position
        &&& engine.sink is None ==> q == p
        &&& engine.sink is Some ==> {
            let count = q.pending.len() - p.pending.len();
            &&& 0 <= count <= p.kept.len()
            &&& q.pending == p.kept.skip(p.kept.len() - count) + p.pending
            &&& seen.queued * p.spec.channels <= p.kept.len() ==> count == seen.queued
                * p.spec.channels
            &&& seen.queued * p.spec.channels > p.kept.len() ==> count == p.kept.len()
            &&& q.kept.len() == 0
            &&& !q.sink_paused
        }
    }
}

proof fn lemma_lets_go(engine: Model, release: Release, seen: Seen)
    requires
        engine.current matches Some(p) ==> p.spec.channels > 0,
    ensures
        has_let_go(engine, engine.let_go(release, seen), release, seen),
{
    let after = engine.let_go(release, seen);
    let closing = if engine.sink is Some {
        seq![EffectView::CloseSink]
    } else {
        Seq::empty()
    };
    assert(after.out.take(engine.out.len() as int) =~= engine.out);
    assert(after.out.skip(engine.out.len() as int) =~= closing + seq![
        EffectView::ReleaseDevice,
        EffectView::Publish(after.status()),
        EffectView::Emit(EventView::OutputReleased(release.by, release.reason)),
        EffectView::AnswerReleases(true),
    ]);
    if engine.current is Some && engine.sink is Some {
        let p = engine.current->0;
        let q = after.current->0;
        let count = q.pending.len() - p.pending.len();
        assert(seen.queued as nat * p.spec.channels as nat == seen.queued * p.spec.channels);
        assert(q.pending =~= p.kept.skip(p.kept.len() - count) + p.pending);
    }
}

/// A paused engine that is asked for the device hands it back, whoever asks; one that has none says
/// that it is free; and one that waits for a track hands it back then, and starts the track paused.
pub proof fn a_request_for_the_device_is_granted(engine: Model, by: Option<String>, seen: Seen)
    requires
        engine.ready(),
    ensures
        ({
            let requested = Release { by, reason: ReleaseReason::Requested };
            let commanded = Release { by: None, reason: ReleaseReason::Command };
            let after = told(engine, Msg::ReleaseRequested { by }, seen);
            let command = engine.command(Command::Release, seen);
            &&& engine.state is Paused && engine.sink is Some ==> {
                &&& has_let_go(engine, after, requested, seen)
                &&& has_let_go(engine, command, commanded, seen)
            }
            &&& (engine.state is Paused && engine.sink is None) || engine.state is Stopped
                ==> after == (Model {
                out: engine.out.push(EffectView::AnswerReleases(true)),
                ..engine
            })
            &&& engine.state is Playing ==> {
                let paused = after.paused(None, seen);
                &&& after == (Model {
                    asked: Asked::Pause(Some(requested)),
                    out: engine.out.push(EffectView::PauseSink),
                    ..engine
                })
                &&& paused.state is Paused
                &&& paused.sink is None
                &&& paused.released
                &&& paused.released_by == by
                &&& paused.out.last() == EffectView::AnswerReleases(true)
            }
            &&& engine.state is Loading || engine.state is Seeking ==> {
                &&& after == (Model {
                    pause_when_ready: true,
                    release_when_ready: Some(requested),
                    ..engine
                })
                &&& command == (Model {
                    pause_when_ready: true,
                    release_when_ready: Some(commanded),
                    ..engine
                })
            }
        }),
{
    let after = told(engine, Msg::ReleaseRequested { by }, seen);
    lemma_lets_go(engine, Release { by, reason: ReleaseReason::Requested }, seen);
    lemma_lets_go(engine, Release { by: None, reason: ReleaseReason::Command }, seen);
    if (engine.state is Paused && engine.sink is None) || engine.state is Stopped {
        assert(after =~= Model { out: engine.out.push(EffectView::AnswerReleases(true)), ..engine });
    }
}

/// A wish for the device that waited for a track is granted as soon as it is there, and the track
/// waits, paused.
pub proof fn a_device_that_was_wanted_while_loading_is_handed_back_then(
    engine: Model,
    track: LoadedTrack,
    seen: Seen,
)
    requires
        engine.ready(),
        engine.state is Loading,
        engine.release_when_ready is Some,
        engine.sink matches Some(sink) && sink.spec == track.spec,
        track.spec.channels > 0,
    ensures
        ({
            let after = engine.loaded(engine.generation, track, seen);
            &&& after.state is Paused
            &&& after.sink is None
            &&& after.released
            &&& after.released_by == engine.release_when_ready->0.by
            &&& after.release_when_ready is None
            &&& after.current->0.meta == track.meta
            &&& after.out.last() == EffectView::AnswerReleases(true)
        }),
{
}

/// The device is handed back once a pause has lasted as long as the options say, and not before; for
/// that reason, and to nobody in particular.
pub proof fn a_long_pause_hands_the_device_back(engine: Model, seen: Seen)
    requires
        engine.ready(),
    ensures
        ({
            let after = engine.tick(seen);
            let wait = engine.options.release_after_pause;
            let long = engine.state is Paused && engine.sink is Some && wait is Some && (
            engine.paused_at->0@ + wait->0@ <= seen.now@ || wait->0@ == 0);
            &&& long ==> has_let_go(
                engine,
                after,
                Release { by: None, reason: ReleaseReason::Idle },
                seen,
            )
            &&& !long ==> after == engine
        }),
{
    lemma_lets_go(engine, Release { by: None, reason: ReleaseReason::Idle }, seen);
}

/// An output that went away is reported, with why; the engine pauses on the track and keeps what was
/// not played of it.
pub proof fn a_lost_output_pauses_the_track(engine: Model, why: Seq<char>, seen: Seen)
    requires
        engine.wf(),
        engine.state is Playing,
        engine.sink is Some,
    ensures
        ({
            let after = engine.lose_output(why, seen);
            &&& after.state is Paused
            &&& after.asked is Nothing
            &&& after.sink is None
            &&& after.released
            &&& after.released_by is None
            &&& after.current->0.meta == engine.current->0.meta
            &&& after.current->0.base == engine.current->0.base
            &&& after.out[engine.out.len() as int] == EffectView::Emit(
                EventView::Error("the audio output is gone: "@ + why),
            )
            &&& exists|i: int|
                0 <= i < after.out.len() && #[trigger] after.out[i] == EffectView::Emit(
                    EventView::OutputReleased(None, ReleaseReason::Lost),
                )
        }),
{
    let after = engine.lose_output(why, seen);
    let n = after.out.len() as int;
    assert(after.out[n - 2] == EffectView::Emit(
        EventView::OutputReleased(None, ReleaseReason::Lost),
    ));
}

/// Switching the output closes the old one and gives its card back before anything is taken from the
/// new place. What plays goes on there once it is open; what is paused, or being reopened, takes it
/// when it resumes; and whoever switched is told.
pub proof fn switching_the_output_moves_what_plays(engine: Model, capacity: u64, seen: Seen)
    requires
        engine.ready(),
    ensures
        ({
            let after = told(engine, Msg::SetOutput, seen);
            let closing = if engine.sink is Some {
                seq![EffectView::CloseSink]
            } else {
                Seq::empty()
            };
            let moved = engine.out + closing + seq![EffectView::ReleaseDevice, EffectView::UseOutput];
            let n = moved.len() as int;
            &&& after.sink is None
            &&& after.state == engine.state
            &&& after.out.take(n) == moved
            &&& engine.state is Playing ==> {
                let opened = after.opened(capacity, seen);
                &&& after.asked is OpenForSwitch
                &&& after.out == moved.push(EffectView::OpenSink(engine.current->0.spec))
                &&& opened.state is Playing
                &&& opened.sink == Some(SinkInfo { spec: engine.current->0.spec, capacity })
                &&& opened.current == after.current
                &&& opened.out.last() == EffectView::AnswerSwitch(None)
            }
            &&& !(engine.state is Playing) ==> {
                &&& after.asked is Nothing
                &&& after.out == moved + seq![
                    EffectView::Publish(after.status()),
                    EffectView::AnswerSwitch(None),
                ]
                &&& after.released == (engine.state is Paused || engine.state is Seeking
                    || engine.released)
            }
            &&& engine.current matches Some(p) ==> {
                let q = after.current->0;
                let count = q.pending.len() - p.pending.len();
                &&& q.meta == p.meta
                &&& q.base == p.base
                &&& engine.sink is None ==> q == p
                &&& engine.sink is Some ==> {
                    &&& 0 <= count <= p.kept.len()
                    &&& q.pending == p.kept.skip(p.kept.len() - count) + p.pending
                    &&& seen.queued * p.spec.channels <= p.kept.len() ==> count == seen.queued
                        * p.spec.channels
                }
            }
        }),
{
    let after = told(engine, Msg::SetOutput, seen);
    let closing = if engine.sink is Some {
        seq![EffectView::CloseSink]
    } else {
        Seq::empty()
    };
    let moved = engine.out + closing + seq![EffectView::ReleaseDevice, EffectView::UseOutput];
    assert(after.out.take(moved.len() as int) =~= moved);
    if engine.state is Playing {
        assert(after.out =~= moved.push(EffectView::OpenSink(engine.current->0.spec)));
    } else {
        assert(after.out =~= moved + seq![
            EffectView::Publish(after.status()),
            EffectView::AnswerSwitch(None),
        ]);
    }
    if engine.current is Some && engine.sink is Some {
        let p = engine.current->0;
        let q = after.current->0;
        let count = q.pending.len() - p.pending.len();
        assert(seen.queued as nat * p.spec.channels as nat == seen.queued * p.spec.channels);
        assert(q.pending =~= p.kept.skip(p.kept.len() - count) + p.pending);
    }
}

/// What an output that can't be opened leads to: a resume stays paused and can be tried again; so
/// does a track that was reopened; a switch pauses and is told why; and a track that was to start
/// fails.
pub proof fn an_output_that_cannot_be_opened_is_reported(
    engine: Model,
    cause: Seq<char>,
    now: Duration,
)
    requires
        engine.wf(),
        engine.asked is OpenForTrack || engine.asked is OpenForResume || engine.asked
            is OpenForSwitch || engine.asked is OpenAfterSeek,
    ensures
        ({
            let after = engine.not_opened(cause, now);
            let message = "opening the audio output"@ + ": "@ + cause;
            let n = engine.out.len() as int;
            &&& after.asked is Nothing
            &&& engine.asked is OpenForTrack ==> after.state is Stopped && after.current is None
            &&& !(engine.asked is OpenForTrack) ==> after.state is Paused && after.current
                == engine.current && after.released
            &&& !(engine.asked is OpenForSwitch) ==> after.out[n] == EffectView::Emit(
                EventView::Error(message),
            )
            &&& engine.asked is OpenForSwitch ==> after.out.last() == EffectView::AnswerSwitch(
                Some(message),
            )
        }),
{
}

// ---- playing ---------------------------------------------------------------------------------

/// What the output takes of what is pending is counted, and kept, as much as it can hold, in case it
/// has to be taken back; the rest stays pending. The position is reported when it is due, and not
/// otherwise.
pub proof fn what_the_output_takes_is_counted_and_kept(engine: Model, frames: usize, seen: Seen)
    requires
        engine.ready(),
        engine.state is Playing,
        frames > 0,
        frames * engine.current->0.spec.channels <= engine.current->0.pending.len(),
        engine.current->0.frames_written + frames <= u64::MAX,
    ensures
        ({
            let p = engine.current->0;
            let after = engine.written(frames, seen);
            let q = after.current->0;
            let taken = frames * p.spec.channels as int;
            let all = p.kept + p.pending.take(taken);
            let room = engine.sink->0.capacity * p.spec.channels;
            let due = p.last_position_at@ + engine.options.position_interval@ <= seen.now@
                || engine.options.position_interval@ == 0;
            &&& q.frames_written == p.frames_written + frames
            &&& p.pending == p.pending.take(taken) + q.pending
            &&& q.pending.len() + taken == p.pending.len()
            &&& q.kept.len() == if all.len() <= room {
                all.len() as int
            } else {
                room
            }
            &&& q.kept == all.skip(all.len() - q.kept.len())
            &&& q.base == p.base
            &&& after.state == engine.state
            &&& !due ==> after.out == engine.out && q.position == p.position && q.last_position_at
                == p.last_position_at
            &&& due ==> {
                &&& q.last_position_at == seen.now
                &&& q.position == q.heard(seen.queued)
                &&& after.out == engine.out + seq![
                    EffectView::Publish(after.status()),
                    EffectView::Emit(EventView::Position(q.position, p.duration)),
                ]
            }
        }),
{
    let p = engine.current->0;
    let after = engine.written(frames, seen);
    let q = after.current->0;
    let taken = frames * p.spec.channels as int;
    assert(0 <= taken) by (nonlinear_arith)
        requires
            taken == frames * p.spec.channels as int,
            frames > 0,
            p.spec.channels >= 0,
    ;
    let all = p.kept + p.pending.take(taken);
    assert(p.pending =~= p.pending.take(taken) + p.pending.skip(taken));
    assert(engine.sink->0.capacity as nat * p.spec.channels as nat == engine.sink->0.capacity
        * p.spec.channels);
    assert(q.kept =~= all.skip(all.len() - q.kept.len()));
    let due = p.last_position_at@ + engine.options.position_interval@ <= seen.now@
        || engine.options.position_interval@ == 0;
    if due {
        assert(after.out =~= engine.out + seq![
            EffectView::Publish(after.status()),
            EffectView::Emit(EventView::Position(q.position, p.duration)),
        ]);
    }
}

/// What was read is what is pending next, whole.
pub proof fn what_was_read_is_pending(engine: Model, samples: Seq<i32>)
    requires
        engine.ready(),
        engine.state is Playing,
    ensures
        ({
            let after = engine.chunk(Some(samples));
            &&& after.current->0.pending == samples
            &&& after == (Model {
                current: Some(PlayingModel { pending: samples, ..engine.current->0 }),
                ..engine
            })
        }),
{
}

/// A failure to pause, to resume or to load ends the track and says what failed.
pub proof fn what_fails_is_said(engine: Model, cause: String, generation: u64, seen: Seen)
    requires
        engine.wf(),
    ensures
        ({
            let n = engine.out.len() as int;
            let paused = engine.paused(Some(cause@), seen);
            let resumed = engine.resumed(Some(cause@), seen.now);
            let loaded = engine.load_failed(generation, cause@, seen.now);
            &&& paused.state is Stopped
            &&& paused.out[n] == EffectView::Emit(
                EventView::Error("pausing the audio output"@ + ": "@ + cause@),
            )
            &&& resumed.state is Stopped
            &&& resumed.out[n] == EffectView::Emit(
                EventView::Error("resuming the audio output"@ + ": "@ + cause@),
            )
            &&& (engine.state is Loading || engine.state is Seeking) && generation
                == engine.generation ==> loaded.state is Stopped && loaded.out[n]
                == EffectView::Emit(EventView::Error(cause@))
        }),
{
}

} // verus!
