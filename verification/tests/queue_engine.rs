//! A queue, and a controller of it, driving the engine's state machine against the in-memory device.

use phonia_core::control::Controller;
use phonia_core::decode::{duration_to_frames, frames_to_duration, SourceSpec};
use phonia_core::engine::audio_thread::{AudioThread, Msg, Next};
use phonia_core::engine::model::{Asked, Effect, LoadTarget, Seen, SinkFailure};
use phonia_core::engine::source::RawSource;
use phonia_core::engine::supplier::{Advance, LoadedTrack, Peek};
use phonia_core::engine::types::{
    Command, EndReason, Event, SeekTarget, State, Status, TrackMeta, TrackRef,
};
use phonia_core::engine::Options;
use phonia_core::output::fake::{Accepted, FakeSink, FakeSinkFactory, FakeSinkHandle};
use phonia_core::queue::{entry_meta, ItemId, Queue, QueueTrack, Repeat};
use phonia_core::testutil::{expected, RATE};
use phonia_core::time::Duration;
use std::collections::{HashMap, VecDeque};

const SPEC: SourceSpec = SourceSpec { sample_rate: 48_000, channels: 2, bits_per_sample: 24 };
const SPEC_WAV: SourceSpec = SourceSpec { sample_rate: 44_100, channels: 2, bits_per_sample: 16 };
const PERIOD: usize = 1024;
const CAPACITY: usize = 4096;

fn ramp(frames: usize) -> Vec<i32> {
    (0..frames * 2).map(|i| i as i32).collect()
}

#[derive(Clone)]
enum Media {
    Pcm(usize),
    /// Audio that can only be opened in whole segments, like a DASH stream.
    Segmented { frames: usize, segment_frames: usize },
}

/// A controller's queue, whose entries are opened from `media` and nothing else. A track whose name
/// starts with `x` comes with a title of its own, so the queue's handling of what opening reveals
/// can be checked; the others have none, and show the title the queue holds.
struct TestSupplier {
    controller: Controller,
    media: HashMap<String, Media>,
}

type Opened = Result<(LoadedTrack, RawSource), String>;

impl TestSupplier {
    fn new(media: &[(&str, Media)], seed: u64) -> Self {
        Self {
            controller: Controller::new(Queue::with_seed(seed)),
            media: media.iter().map(|(name, media)| (name.to_string(), media.clone())).collect(),
        }
    }

    fn queue(&mut self) -> &mut Queue {
        self.controller.queue_mut()
    }

    /// What opening a track reveals, and its audio.
    fn media(&self, track: &TrackRef, at: Duration) -> Opened {
        let media = self
            .media
            .get(&track.0)
            .cloned()
            .ok_or_else(|| format!("the opener has no track {:?}", track.0))?;
        let title = if track.0.starts_with('x') { Some(format!("opened {}", track.0)) } else { None };
        let meta = TrackMeta { track: track.clone(), title, duration: None };
        Ok(match media {
            Media::Pcm(frames) => {
                let source = RawSource::new(ramp(frames), SPEC);
                (LoadedTrack::new(meta, SPEC, Some(source.duration())), source)
            }
            Media::Segmented { frames, segment_frames } => {
                let boundary = duration_to_frames(at, RATE) as usize / segment_frames * segment_frames;
                let source = RawSource::new(expected(boundary * 2, frames * 2), SPEC_WAV);
                let length = frames_to_duration(frames as u64, RATE);
                let loaded = LoadedTrack::new(meta, SPEC_WAV, Some(length))
                    .starting_at(frames_to_duration(boundary as u64, RATE))
                    .reopenable();
                (loaded, source)
            }
        })
    }

    fn open_entry(&mut self, track: &TrackRef, at: Duration, commit: bool) -> Opened {
        let item = if commit { self.queue().open(track) } else { self.queue().open_ahead(track) };
        let item = item.map_err(|error| error.message())?;
        let (mut loaded, source) = self.media(&item.track.source, at)?;
        loaded.meta = entry_meta(&item, loaded.meta);
        self.queue().record_meta(item.id, &loaded.meta);
        Ok((loaded, source))
    }

    /// The outcome of opening an entry, and how long that takes.
    fn open(&mut self, track: TrackRef, at: Duration) -> (Duration, Opened) {
        (Duration::zero(), self.open_entry(&track, at, true))
    }
}

fn entry(name: &str) -> QueueTrack {
    QueueTrack { source: TrackRef(name.to_string()), title: Some(name.to_string()), duration: None }
}

/// A load that is under way.
struct Loading {
    due: u128,
    generation: u64,
    outcome: Option<Opened>,
}

/// An engine wired to fakes, with everything that it reported.
struct Harness {
    thread: AudioThread,
    supplier: TestSupplier,
    outputs: Vec<FakeSinkFactory>,
    /// The output in use, and the one to use next.
    output: usize,
    next_output: Option<usize>,
    /// The open sink, and which of its output's it is.
    sink: Option<(FakeSink, usize)>,
    /// Why the open sink went away.
    lost: Option<String>,
    source: Option<RawSource>,
    fresh: Option<RawSource>,
    loading: Option<Loading>,
    inbox: VecDeque<Msg>,
    /// A write waits for the device.
    blocked: bool,
    now: u128,
    status: Status,
    events: Vec<Event>,
    seen_events: usize,
    answers: Vec<bool>,
    switches: Vec<Result<(), String>>,
    /// How many more tracks may start; the others wait.
    tracks: Option<usize>,
}

impl Harness {

    fn new(media: &[(&str, Media)], sinks: FakeSinkFactory) -> Self {
        Self::with_seed(media, sinks, 1)
    }

    fn with_seed(media: &[(&str, Media)], mut sinks: FakeSinkFactory, seed: u64) -> Self {
        sinks.on_release_request();
        let thread = AudioThread::new(Options::default());
        let status = thread.status();
        Self {
            thread,
            supplier: TestSupplier::new(media, seed),
            outputs: vec![sinks],
            output: 0,
            next_output: None,
            sink: None,
            lost: None,
            source: None,
            fresh: None,
            loading: None,
            inbox: VecDeque::new(),
            blocked: false,
            now: 0,
            status,
            events: Vec::new(),
            seen_events: 0,
            answers: Vec::new(),
            switches: Vec::new(),
            tracks: None,
        }
    }

    fn send(&mut self, command: Command) {
        self.inbox.push_back(Msg::Command(command));
    }

    fn seen(&self) -> Seen {
        let queued = match &self.sink {
            Some((sink, index)) => sink.delay_frames(&self.outputs[self.output].handles()[*index]),
            None => 0,
        };
        Seen { queued, now: Duration { nanos: self.now } }
    }

    /// Does what the engine asks for, and answers it, until it asks for nothing.
    fn settle(&mut self) {
        loop {
            let effects = self.thread.take_effects();
            if effects.is_empty() {
                return;
            }
            let mut opened: Option<Result<u64, String>> = None;
            let mut landed: Option<Duration> = None;
            for effect in effects {
                match effect {
                    Effect::Emit(event) => self.events.push(event),
                    Effect::Publish(status) => self.status = status,
                    Effect::OpenSink(spec) => {
                        opened = Some(match self.outputs[self.output].open(spec) {
                            Ok(sink) => {
                                let index = self.outputs[self.output].handles().len() - 1;
                                self.sink = Some((sink, index));
                                self.lost = None;
                                Ok(sink.capacity_frames())
                            }
                            Err(why) => Err(why),
                        });
                    }
                    Effect::CloseSink => self.sink = None,
                    Effect::ReleaseDevice => self.outputs[self.output].release(),
                    Effect::PauseSink => {
                        let (sink, index) = self.sink.as_mut().unwrap();
                        sink.pause(self.outputs[self.output].handle_mut(*index));
                    }
                    Effect::ResumeSink => {
                        let (sink, index) = self.sink.as_mut().unwrap();
                        sink.resume(self.outputs[self.output].handle_mut(*index));
                    }
                    Effect::FlushSink => {
                        let (sink, index) = self.sink.as_mut().unwrap();
                        sink.flush(self.outputs[self.output].handle_mut(*index));
                    }
                    Effect::DrainSink => {
                        let (sink, index) = self.sink.as_mut().unwrap();
                        sink.drain(self.outputs[self.output].handle_mut(*index));
                    }
                    Effect::UseSource => self.source = self.fresh.take(),
                    Effect::DropSource => self.source = None,
                    Effect::SeekSource(at) => {
                        landed = Some(self.source.as_mut().unwrap().seek(at));
                    }
                    Effect::SkipFrames(frames) => {
                        self.source.as_mut().unwrap().skip_frames(frames);
                    }
                    Effect::AbortLoad => self.loading = None,
                    Effect::Load { generation, target, at } => {
                        let track = match target {
                            LoadTarget::Track(track) => Some(track),
                            LoadTarget::Advance(how) => self.supplier.queue().advance(how),
                        };
                        let (delay, outcome) = match track {
                            Some(track) => {
                                let (delay, outcome) = self.supplier.open(track, at);
                                (delay, Some(outcome))
                            }
                            None => (Duration::zero(), None),
                        };
                        self.loading =
                            Some(Loading { due: self.now + delay.as_nanos(), generation, outcome });
                    }
                    Effect::AnswerReleases(given) => self.answers.push(given),
                    Effect::UseOutput => {
                        self.output = self.next_output.take().unwrap();
                        self.outputs[self.output].on_release_request();
                    }
                    Effect::AnswerSwitch(outcome) => self.switches.push(outcome),
                }
            }
            let seen = self.seen();
            match self.thread.asked() {
                Asked::Nothing => {}
                Asked::OpenForTrack(_)
                | Asked::OpenForResume
                | Asked::OpenForSwitch
                | Asked::OpenAfterSeek => self.thread.opened(opened.unwrap(), seen),
                Asked::Pause(_) => self.thread.paused(Ok(()), seen),
                Asked::Resume => self.thread.resumed(Ok(()), seen),
                Asked::Drain => self.thread.drained(Ok(()), seen),
                Asked::Seek => self.thread.sought(Ok(landed.unwrap()), seen),
            }
        }
    }

    /// Tries to hand what is pending to the device. `false` if that has to wait.
    fn write(&mut self) -> bool {
        if let Some(why) = self.lost.take() {
            self.blocked = false;
            let seen = self.seen();
            self.thread.written(Err(SinkFailure::Gone(why)), seen);
            return true;
        }
        let (sink, index) = self.sink.as_mut().unwrap();
        let handle = self.outputs[self.output].handle_mut(*index);
        let outcome = match sink.write(handle, self.thread.pending()) {
            Ok(Accepted::Frames(frames)) => Ok(frames),
            Ok(Accepted::Full) => {
                self.blocked = true;
                return false;
            }
            Err(why) => Err(SinkFailure::Other(why)),
        };
        self.blocked = false;
        let seen = self.seen();
        self.thread.written(outcome, seen);
        true
    }

    /// Whether a load is done, and may be told.
    fn may_load(&self) -> bool {
        self.tracks != Some(0)
            && self.loading.as_ref().is_some_and(|loading| loading.due <= self.now)
    }

    /// Runs the engine until it waits for something.
    fn pump(&mut self) {
        loop {
            if self.blocked {
                if !self.write() {
                    return;
                }
                self.settle();
                continue;
            }
            if self.may_load() {
                let Loading { generation, outcome, .. } = self.loading.take().unwrap();
                if let Some(tracks) = &mut self.tracks {
                    *tracks -= 1;
                }
                self.inbox.push_back(match outcome {
                    Some(Ok((track, source))) => {
                        self.fresh = Some(source);
                        Msg::Loaded { generation, track }
                    }
                    Some(Err(error)) => Msg::LoadFailed { generation, error },
                    None => Msg::QueueExhausted { generation },
                });
            }
            if let Some(msg) = self.inbox.pop_front() {
                let seen = self.seen();
                self.thread.handle(msg, seen);
                self.settle();
                continue;
            }
            let seen = self.seen();
            self.thread.tick(seen);
            self.settle();
            match self.thread.play_step() {
                Next::Wait => {
                    if self.inbox.is_empty() && !self.may_load() {
                        return;
                    }
                }
                Next::Read => {
                    let chunk = self.source.as_mut().unwrap().next_chunk();
                    let seen = self.seen();
                    self.thread.chunk(Ok(chunk), seen);
                }
                Next::Write => {
                    if !self.write() {
                        return;
                    }
                }
            }
            self.settle();
        }
    }

    /// Lets the clock run to whatever happens next by itself. `false` if nothing will.
    fn wait(&mut self) -> bool {
        if self.blocked {
            return false;
        }
        let load = self.loading.as_ref().map(|loading| loading.due);
        let idle = self
            .thread
            .idle_in(Duration { nanos: self.now })
            .map(|left| self.now + left.as_nanos());
        match (load, idle) {
            (Some(a), Some(b)) => self.now = a.min(b),
            (Some(a), None) | (None, Some(a)) => self.now = a,
            (None, None) => return false,
        }
        true
    }

    /// The place of the next event that `wanted` accepts, from `from` on.
    fn find(&mut self, from: usize, wanted: impl Fn(&Event) -> bool) -> usize {
        for _ in 0..1000 {
            self.pump();
            if let Some(at) = (from..self.events.len()).find(|at| wanted(&self.events[*at])) {
                return at;
            }
            assert!(self.wait(), "nothing more will happen: {:?}", self.events.last());
        }
        panic!("it never happened");
    }

    /// The next event other than `Position`, which has its own helpers so it doesn't clutter the
    /// lifecycle sequences the other tests assert on.
    fn next_event(&mut self) -> &Event {
        let at = self.find(self.seen_events, |event| !matches!(event, Event::Position { .. }));
        self.seen_events = at + 1;
        &self.events[at]
    }

    /// Every event up to and including the first one `stop` accepts.
    fn events_until(&mut self, stop: impl Fn(&Event) -> bool) -> Vec<&Event> {
        let from = self.seen_events;
        let at = self.find(from, stop);
        self.seen_events = at + 1;
        self.events[from..=at]
            .iter()
            .filter(|event| !matches!(event, Event::Position { .. }))
            .collect()
    }

    /// The `index`-th sink of the first output.
    fn sink(&mut self, index: usize) -> &mut FakeSinkHandle {
        self.outputs[0].handle_mut(index)
    }

    /// The titles of the tracks that start, until the engine stops.
    fn titles_until_stopped(&mut self) -> Vec<String> {
        self.events_until(is_stopped).into_iter().filter_map(started_title).collect()
    }

    /// The first `count` titles that start.
    fn first_titles(&mut self, count: usize) -> Vec<String> {
        let mut titles = Vec::new();
        while titles.len() < count {
            if let Some(title) = started_title(self.next_event()) {
                titles.push(title);
            }
        }
        titles
    }

    fn queue(&mut self) -> &mut Queue {
        self.supplier.queue()
    }

    fn state(&mut self) -> State {
        self.pump();
        self.status.state
    }

    /// Waits until the engine is stuck writing to a full queue, mid-track.
    fn wait_until_blocked(&mut self) {
        self.pump();
        assert!(self.blocked, "the writer is blocked on a full queue");
        assert!(self.sink(0).queued_frames() > CAPACITY - PERIOD);
    }

    /// Removes entries as a controller does, and tells the engine what that asks of it.
    fn remove(&mut self, ids: &[ItemId]) -> usize {
        let state = self.state();
        let (removed, command) = self.supplier.controller.remove(ids, state);
        if let Some(command) = command {
            self.send(command);
        }
        removed
    }
}

fn started_title(event: &Event) -> Option<String> {
    match event {
        Event::TrackStarted { meta, .. } => meta.title.clone(),
        _ => None,
    }
}

fn is_stopped(event: &Event) -> bool {
    matches!(event, Event::StateChanged(State::Stopped))
}

fn three_tracks() -> [(&'static str, Media); 3] {
    [("a", Media::Pcm(1_000)), ("b", Media::Pcm(1_000)), ("c", Media::Pcm(1_000))]
}

fn opener(media: &[(&str, Media)]) -> TestSupplier {
    TestSupplier::new(media, 1)
}

#[test]
fn opening_an_entry_rewrites_the_reference_and_fills_in_what_the_queue_did_not_know() {
    let mut s = opener(&[("x", Media::Pcm(10))]);
    let ids = s.queue().add(vec![QueueTrack {
        source: TrackRef("x".into()),
        title: None,
        duration: None,
    }]);

    let (loaded, _) = s.open_entry(&ids[0].track_ref(), Duration::zero(), true).unwrap();
    assert_eq!(
        loaded.meta.track,
        ids[0].track_ref(),
        "the engine must see the queue's reference, not the opener's"
    );
    assert_eq!(loaded.meta.title.as_deref(), Some("opened x"));

    let snapshot = s.queue().snapshot();
    assert_eq!(
        snapshot.current,
        Some(ids[0]),
        "opening it made it the current entry"
    );
    assert_eq!(
        snapshot.items[0].track.title.as_deref(),
        Some("opened x"),
        "and the queue learned its title"
    );
}

#[test]
fn the_queues_own_title_wins_over_the_openers() {
    let mut s = opener(&[("x", Media::Pcm(10))]);
    let ids = s.queue().add(vec![entry("x")]);
    let (loaded, _) = s.open_entry(&ids[0].track_ref(), Duration::zero(), true).unwrap();
    assert_eq!(
        loaded.meta.title.as_deref(),
        Some("opened x"),
        "the opener's own title is kept when it has one"
    );
    assert_eq!(
        s.queue().snapshot().items[0].track.title.as_deref(),
        Some("x"),
        "and the queue's is not overwritten"
    );
}

#[test]
fn opening_something_that_is_not_an_entry_or_no_longer_is_an_error() {
    let mut s = opener(&[("x", Media::Pcm(10))]);
    let error = s.open_entry(&TrackRef("x".into()), Duration::zero(), true)
        .err()
        .unwrap();
    assert!(error.contains("not a queue entry"), "{error}");

    let ids = s.queue().add(vec![entry("x")]);
    s.queue().remove(&ids);
    let error = s.open_entry(&ids[0].track_ref(), Duration::zero(), true)
        .err()
        .unwrap();
    assert!(error.contains("no longer exists"), "{error}");
}

#[test]
fn an_opener_failure_reaches_the_engine_as_an_error() {
    let mut s = opener(&[]);
    let ids = s.queue().add(vec![entry("missing")]);
    let error = s.open_entry(&ids[0].track_ref(), Duration::zero(), true)
        .err()
        .unwrap();
    assert!(error.contains("has no track"), "{error}");
}

#[test]
fn subscribers_see_every_change() {
    let mut queue = Queue::with_seed(1);
    let seen = queue.snapshot().version;

    let ids = queue.add(vec![entry("a"), entry("b")]);
    assert_ne!(queue.snapshot().version, seen);
    assert_eq!(queue.snapshot().items.len(), 2);

    queue.move_to(ids[0], 1);
    queue.set_repeat(Repeat::All);
    queue.set_shuffle(true);
    let latest = queue.snapshot();
    assert_eq!((latest.repeat, latest.shuffle), (Repeat::All, true));

    // Doing nothing publishes nothing.
    queue.set_repeat(Repeat::All);
    assert_eq!(queue.snapshot().version, latest.version);
}

// ---- the queue driving the engine ----------------------------------------------------------

#[test]
fn entries_play_in_order_and_then_the_queue_is_exhausted() {
    let mut h = Harness::new(&three_tracks(), FakeSinkFactory::autoplay());
    h.queue().add(vec![entry("a"), entry("b"), entry("c")]);
    h.send(Command::Play(None));

    let events = h.events_until(is_stopped);
    let titles: Vec<String> = events.iter().filter_map(|event| started_title(event)).collect();
    assert_eq!(titles, ["a", "b", "c"]);
    assert!(events.contains(&&Event::QueueExhausted));

    let mut all = ramp(1_000);
    all.extend(ramp(1_000));
    all.extend(ramp(1_000));
    assert_eq!(h.sink(0).played(), all);
    assert_eq!(
        h.queue().snapshot().current.map(|id| id.0),
        Some(3),
        "the cursor ended on the last entry"
    );
}

#[test]
fn repeat_all_goes_round_until_stopped() {
    let mut h = Harness::new(&three_tracks(), FakeSinkFactory::autoplay());
    h.queue().add(vec![entry("a"), entry("b"), entry("c")]);
    h.queue().set_repeat(Repeat::All);
    h.send(Command::Play(None));

    h.tracks = Some(7);
    assert_eq!(h.first_titles(7), ["a", "b", "c", "a", "b", "c", "a"]);
    h.send(Command::Stop);
    h.tracks = None;
    h.events_until(is_stopped);
}

#[test]
fn repeat_one_repeats_the_track_until_the_user_skips() {
    let mut h = Harness::new(&three_tracks(), FakeSinkFactory::autoplay());
    h.queue().add(vec![entry("a"), entry("b")]);
    h.queue().set_repeat(Repeat::One);
    h.send(Command::Play(None));

    h.tracks = Some(3);
    assert_eq!(h.first_titles(3), ["a", "a", "a"]);
    h.send(Command::Next);
    h.tracks = Some(2);
    assert_eq!(h.first_titles(1), ["b"]);
    h.send(Command::Stop);
    h.tracks = None;
    h.events_until(is_stopped);
}

#[test]
fn a_seeded_shuffle_plays_the_planned_order_and_every_entry_once() {
    let media: Vec<(String, Media)> = (0..6).map(|i| (format!("t{i}"), Media::Pcm(200))).collect();
    let media_refs: Vec<(&str, Media)> = media
        .iter()
        .map(|(name, m)| (name.as_str(), m.clone()))
        .collect();

    let order_for = |seed| {
        let mut h = Harness::with_seed(&media_refs, FakeSinkFactory::autoplay(), seed);
        h.queue().add(media.iter().map(|(name, _)| entry(name)).collect());
        h.queue().set_shuffle(true);
        let snapshot = h.queue().snapshot();
        let planned: Vec<String> = snapshot
            .order
            .iter()
            .map(|id| {
                snapshot
                    .items
                    .iter()
                    .find(|item| item.id == *id)
                    .unwrap()
                    .track
                    .title
                    .clone()
                    .unwrap()
            })
            .collect();
        h.send(Command::Play(None));
        (planned, h.titles_until_stopped())
    };

    let (planned, played) = order_for(11);
    assert_eq!(played, planned, "the queue plays the order it announced");
    let mut sorted = played.clone();
    sorted.sort();
    assert_eq!(
        sorted,
        ["t0", "t1", "t2", "t3", "t4", "t5"],
        "each entry exactly once"
    );

    assert_eq!(
        order_for(11).1,
        played,
        "the same seed shuffles the same way"
    );
    assert_ne!(order_for(12).1, played);
}

#[test]
fn the_same_track_queued_twice_plays_twice() {
    let mut h = Harness::new(&three_tracks(), FakeSinkFactory::autoplay());
    let ids = h.queue().add(vec![entry("a"), entry("a")]);
    assert_ne!(ids[0], ids[1]);
    h.send(Command::Play(None));
    assert_eq!(h.titles_until_stopped(), ["a", "a"]);
}

#[test]
fn playing_a_specific_entry_jumps_to_it_and_previous_goes_back_by_order() {
    // Long enough that the engine ends up blocked on the device mid-track.
    let long = [
        ("a", Media::Pcm(200_000)),
        ("b", Media::Pcm(200_000)),
        ("c", Media::Pcm(200_000)),
    ];
    let mut h = Harness::new(&long, FakeSinkFactory::blocking());
    let ids = h.queue().add(vec![entry("a"), entry("b"), entry("c")]);

    h.send(Command::Play(Some(ids[2].track_ref())));
    assert_eq!(h.first_titles(1), ["c"]);
    h.wait_until_blocked();

    h.send(Command::Previous);
    h.sink(0).advance(PERIOD);
    assert_eq!(
        h.first_titles(1),
        ["b"],
        "nothing was played before c, so back means the entry above it"
    );
    h.sink(0).set_blocking(false);
}

#[test]
fn removing_the_playing_entry_then_skipping_lands_on_the_one_that_took_its_place() {
    let mut h = Harness::new(
        &[
            ("a", Media::Pcm(200_000)),
            ("b", Media::Pcm(300)),
            ("c", Media::Pcm(300)),
        ],
        FakeSinkFactory::blocking(),
    );
    let ids = h.queue().add(vec![entry("a"), entry("b"), entry("c")]);
    h.send(Command::Play(None));
    assert_eq!(h.first_titles(1), ["a"]);
    h.wait_until_blocked();

    // What a controller does: take the entry out of the queue, then skip.
    h.queue().remove(&[ids[0]]);
    h.send(Command::Next);
    h.sink(0).advance(PERIOD);

    let events = h.events_until(is_stopped);
    let ended = events.iter().find_map(|e| match e {
        Event::TrackEnded { meta, reason } => Some((meta.title.clone(), *reason)),
        _ => None,
    });
    assert_eq!(ended, Some((Some("a".into()), EndReason::Interrupted)));
    let titles: Vec<String> = events.into_iter().filter_map(started_title).collect();
    assert_eq!(titles, ["b", "c"]);
}

#[test]
fn a_seek_that_reopens_the_stream_still_finds_its_entry() {
    // If the queue's reference were not what the engine holds, reopening for the seek would ask
    // the queue for a track it has never heard of and the engine would stop with an error.
    let frames = 100_000;
    let mut h = Harness::new(
        &[(
            "s",
            Media::Segmented {
                frames,
                segment_frames: 22_050,
            },
        )],
        FakeSinkFactory::blocking(),
    );
    h.queue().add(vec![entry("s")]);
    h.send(Command::Play(None));
    assert_eq!(h.first_titles(1), ["s"]);
    h.wait_until_blocked();

    h.send(Command::Seek(SeekTarget::Absolute(Duration::from_millis(
        1_200,
    ))));
    h.sink(0).advance(PERIOD);
    let events = h.events_until(|e| matches!(e, Event::Seeked { .. }));
    assert!(
        events.iter().all(|e| !matches!(e, Event::Error { .. })),
        "{events:?}"
    );
    assert_eq!(
        *h.next_event(),
        Event::StateChanged(State::Playing),
        "audio resumed"
    );

    h.sink(0).set_blocking(false);
    let rest = h.events_until(is_stopped);
    assert!(
        rest.iter().all(|e| !matches!(e, Event::Error { .. })),
        "{rest:?}"
    );
    let played = h.sink(0).played();
    let tail = expected(52_920 * 2, frames * 2);
    assert!(
        played.len() >= tail.len() && played[played.len() - tail.len()..] == tail[..],
        "landed exactly at 1.2 s"
    );
}

// ---- opening ahead -------------------------------------------------------------------------

#[test]
fn opening_ahead_does_not_make_the_entry_current_and_starting_it_does() {
    let mut s = opener(&[("a", Media::Pcm(10)), ("b", Media::Pcm(10))]);
    let ids = s.queue().add(vec![entry("a"), entry("b")]);
    s.open_entry(&ids[0].track_ref(), Duration::zero(), true).unwrap();
    let version = s.queue().snapshot().version;

    assert_eq!(s.queue().peek(Advance::Auto), Peek::Next(ids[1].track_ref()));
    let (ahead, _) = s.open_entry(&ids[1].track_ref(), Duration::zero(), false).unwrap();
    assert_eq!(
        ahead.meta.track,
        ids[1].track_ref(),
        "with the queue's reference"
    );
    let snapshot = s.queue().snapshot();
    assert_eq!(
        (snapshot.current, snapshot.version),
        (Some(ids[0]), version),
        "the queue did not notice: b is not playing yet"
    );

    assert!(s.queue().started(&ids[1].track_ref()));
    let snapshot = s.queue().snapshot();
    assert_eq!(snapshot.current, Some(ids[1]), "now b is the current entry");
    assert_eq!(
        s.queue().advance(Advance::Previous),
        Some(ids[0].track_ref()),
        "and the history is as if it had been opened the ordinary way"
    );
}

#[test]
fn an_entry_removed_before_it_starts_says_so() {
    let mut s = opener(&[("a", Media::Pcm(10)), ("b", Media::Pcm(10))]);
    let ids = s.queue().add(vec![entry("a"), entry("b")]);
    s.open_entry(&ids[0].track_ref(), Duration::zero(), true).unwrap();
    s.open_entry(&ids[1].track_ref(), Duration::zero(), false).unwrap();

    s.queue().remove(&[ids[1]]);
    assert!(
        !s.queue().started(&ids[1].track_ref()),
        "the caller has to move on"
    );
    assert_eq!(s.queue().snapshot().current, Some(ids[0]));
    assert!(!s.queue().started(&TrackRef("not an entry".into())));
}

#[test]
fn opening_ahead_something_that_is_gone_is_an_error() {
    let mut s = opener(&[("a", Media::Pcm(10))]);
    let ids = s.queue().add(vec![entry("a")]);
    s.queue().remove(&ids);
    assert!(s.open_entry(&ids[0].track_ref(), Duration::zero(), false).is_err());
}

// ---- a controller ------------------------------------------------------------------------------

/// An engine and a queue of tracks of the given lengths.
fn harness(entries: &[(usize, &str)]) -> (Harness, Vec<ItemId>) {
    let media: Vec<(&str, Media)> =
        entries.iter().map(|(frames, title)| (*title, Media::Pcm(*frames))).collect();
    let mut h = Harness::new(&media, FakeSinkFactory::blocking());
    let ids = h.queue().add(entries.iter().map(|(_, title)| entry(title)).collect());
    (h, ids)
}

impl Harness {
    /// The title of the next track that starts, or `None` if the queue ends first.
    fn started(&mut self) -> Option<String> {
        loop {
            match self.next_event() {
                Event::TrackStarted { meta, .. } => return meta.title.clone(),
                Event::QueueExhausted => return None,
                _ => {}
            }
        }
    }
}

#[test]
fn removing_the_playing_entry_skips_to_the_next_one() {
    let (mut h, ids) = harness(&[(200_000, "a"), (300, "b"), (300, "c")]);
    h.send(Command::Play(None));
    assert_eq!(h.started().as_deref(), Some("a"));
    h.wait_until_blocked();

    assert_eq!(h.remove(&[ids[0]]), 1);
    h.sink(0).advance(PERIOD); // let the blocked write return
    assert_eq!(h.started().as_deref(), Some("b"), "b took a's place");
}

#[test]
fn removing_an_entry_that_is_not_playing_leaves_playback_alone() {
    let (mut h, ids) = harness(&[(200_000, "a"), (300, "b"), (300, "c")]);
    h.send(Command::Play(None));
    assert_eq!(h.started().as_deref(), Some("a"));
    h.wait_until_blocked();

    assert_eq!(h.remove(&[ids[2]]), 1);
    let snapshot = h.supplier.controller.snapshot();
    assert_eq!(snapshot.items.len(), 2);
    assert_eq!(snapshot.current, Some(ids[0]), "still on a");
    assert_eq!(h.state(), State::Playing);
    assert!(h.inbox.is_empty(), "nothing was asked of the engine");
}

#[test]
fn removing_the_playing_last_entry_ends_the_queue() {
    let (mut h, ids) = harness(&[(200_000, "a")]);
    h.send(Command::Play(None));
    assert_eq!(h.started().as_deref(), Some("a"));
    h.wait_until_blocked();

    h.remove(&[ids[0]]);
    h.sink(0).advance(PERIOD);
    assert_eq!(h.started(), None, "nothing is left to play: the queue is exhausted");
}

#[test]
fn removing_the_last_played_entry_after_the_engine_stopped_does_not_restart_playback() {
    let (mut h, ids) = harness(&[(300, "a"), (300, "b")]);
    h.send(Command::Play(None));
    h.events_until(|e| matches!(e, Event::QueueExhausted));
    h.events_until(is_stopped);
    assert_eq!(
        h.supplier.controller.snapshot().current,
        Some(ids[1]),
        "the queue remembers the last entry"
    );

    h.remove(&[ids[1]]);
    assert_eq!(h.state(), State::Stopped, "removing it must not start anything");
}

#[test]
fn clearing_empties_the_queue_and_stops_playback() {
    let (mut h, _) = harness(&[(200_000, "a"), (300, "b")]);
    h.send(Command::Play(None));
    assert_eq!(h.started().as_deref(), Some("a"));
    h.wait_until_blocked();

    let command = h.supplier.controller.clear();
    h.send(command);
    h.sink(0).advance(PERIOD);
    h.events_until(is_stopped);
    assert!(h.supplier.controller.snapshot().items.is_empty());
}

#[test]
fn playing_an_entry_jumps_to_it_and_an_unknown_one_is_an_error() {
    let (mut h, ids) = harness(&[(300, "a"), (300, "b"), (300, "c")]);
    let command = h.supplier.controller.play_item(ids[2]).unwrap();
    h.send(command);
    assert_eq!(h.started().as_deref(), Some("c"));

    let error = h.supplier.controller.play_item(ItemId(9999)).unwrap_err();
    assert!(error.contains("no queue entry 9999"), "{error}");
}

#[test]
fn a_queue_of_its_own_seed_starts_out_empty() {
    let mut queue = Queue::new();
    assert!(queue.snapshot().items.is_empty());
    queue.add(vec![entry("a"), entry("b"), entry("c")]);
    queue.set_shuffle(true);
    let mut order = queue.snapshot().order;
    order.sort();
    assert_eq!(order, [ItemId(1), ItemId(2), ItemId(3)]);
    queue.set_shuffle(false);
    queue.set_repeat(Repeat::All);
    queue.set_shuffle(true);
    assert!(queue.started(&ItemId(3).track_ref()));
    assert!(matches!(queue.peek(Advance::Auto), Peek::Next(_) | Peek::Unknown));
}
