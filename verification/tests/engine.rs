//! The engine's state machine, run against the in-memory device and a list of tracks, with a clock
//! that only moves when a test lets it.

use phonia_core::decode::{
    duration_to_frames, frames_to_duration, ChunkAction, Decoded, DecodeStep, Decoder, PacketRead,
    PacketStep, Probed, SourceSpec, TickUnit, TrackFacts,
};
use phonia_core::engine::audio_thread::{flush_failed, AudioThread, Msg, Next};
use phonia_core::engine::model::{Asked, Effect, LoadTarget, Seen, SinkFailure};
use phonia_core::engine::source::RawSource;
use phonia_core::engine::supplier::{Advance, LoadedTrack, SeekMode};
use phonia_core::engine::types::{
    Command, Event, OutputState, SeekTarget, State, Status, TrackMeta, TrackRef,
};
use phonia_core::engine::Options;
use phonia_core::output::fake::{Accepted, FakeSink, FakeSinkFactory, FakeSinkHandle};
use phonia_core::output::reserve::PRIORITY;
use phonia_core::testutil::{expected, sample_at, wav, wav_slice, RATE};
use phonia_core::time::Duration;
use std::collections::VecDeque;

const SPEC_48K: SourceSpec = SourceSpec { sample_rate: 48_000, channels: 2, bits_per_sample: 24 };
/// A tiny rate, so "three seconds in" is only a few thousand frames.
const SPEC_1K: SourceSpec = SourceSpec { sample_rate: 1_000, channels: 2, bits_per_sample: 24 };
const SPEC_96K: SourceSpec = SourceSpec { sample_rate: 96_000, channels: 2, bits_per_sample: 24 };
/// Matches what [`wav`] makes.
const SPEC_WAV: SourceSpec = SourceSpec { sample_rate: 44_100, channels: 2, bits_per_sample: 16 };

/// Frames per period and queue capacity of the in-memory device (its defaults).
const PERIOD: usize = 1024;
const CAPACITY: usize = 4096;

/// `frames` stereo frames of unique, increasing samples, so any loss, repeat or reordering shows.
fn ramp(frames: usize) -> Vec<i32> {
    (0..frames * 2).map(|i| i as i32).collect()
}

// ---- decoding with symphonia under the library's rules ---------------------------------------

/// A symphonia reader and decoder, driven by what [`Decoder`] says.
struct Session {
    format: Box<dyn symphonia::core::formats::FormatReader>,
    codec: Box<dyn symphonia::core::codecs::audio::AudioDecoder>,
    rules: Decoder,
}

impl Session {
    fn open(bytes: Vec<u8>, extension: Option<&str>) -> Result<Self, String> {
        let stream = symphonia::core::io::MediaSourceStream::new(Box::new(std::io::Cursor::new(bytes)), Default::default());
        let mut hint = symphonia::core::formats::probe::Hint::new();
        if let Some(extension) = extension {
            hint.with_extension(extension);
        }
        let format = match symphonia::default::get_probe().probe(
            &hint,
            stream,
            Default::default(),
            Default::default(),
        ) {
            Ok(format) => format,
            Err(_) => return Err(Decoder::open(Probed::Unrecognized).unwrap_err().text()),
        };
        let track = match format.default_track(symphonia::core::formats::TrackType::Audio) {
            Some(track) => track.clone(),
            None => return Err(Decoder::open(Probed::NoAudioTrack).unwrap_err().text()),
        };
        let audio = match track.codec_params.as_ref().and_then(|params| params.audio()) {
            Some(audio) => audio.clone(),
            None => return Err(Decoder::open(Probed::NotAudio).unwrap_err().text()),
        };
        let rules = Decoder::open(Probed::Track(TrackFacts {
            id: track.id,
            sample_rate: audio.sample_rate,
            channels: audio.channels.as_ref().map(|c| c.count() as u32),
            bits_per_sample: audio.bits_per_sample,
            frames: track.num_frames,
            ticks: track.duration.map(|d| d.get()),
            unit: track
                .time_base
                .map(|tb| TickUnit { numer: tb.numer.get(), denom: tb.denom.get() }),
        }))
        .map_err(|error| error.text())?;
        let codec = symphonia::default::get_codecs()
            .make_audio_decoder(&audio, &Default::default())
            .map_err(|error| error.to_string())?;
        Ok(Session { format, codec, rules })
    }

    fn seek(&mut self, to: Duration) -> Result<Duration, String> {
        let seeked = self
            .format
            .seek(
                symphonia::core::formats::SeekMode::Accurate,
                symphonia::core::formats::SeekTo::Time {
                    time: symphonia::core::units::Time::from_nanos_u64(Decoder::seek_nanos(to)),
                    track_id: Some(self.rules.track_id()),
                },
            )
            .map_err(|error| error.to_string())?;
        self.codec.reset();
        Ok(self.rules.sought(seeked.required_ts.get(), seeked.actual_ts.get()))
    }

    fn next_chunk_into(&mut self, out: &mut Vec<i32>) -> Result<bool, String> {
        loop {
            let (packet, read) = match self.format.next_packet() {
                Ok(Some(packet)) => {
                    let track = packet.track_id;
                    (Some(packet), PacketRead::Packet(track))
                }
                Ok(None) => (None, PacketRead::End),
                Err(symphonia::core::errors::Error::ResetRequired) => (None, PacketRead::ResetRequired),
                Err(error) => (None, PacketRead::Failed(error.to_string())),
            };
            match self.rules.packet_read(read) {
                PacketStep::Decode => {}
                PacketStep::Skip => continue,
                PacketStep::End => return Ok(false),
                PacketStep::Fail(why) => return Err(why),
            }
            let decoded = match self.codec.decode(&packet.unwrap()) {
                Ok(buffer) => {
                    out.clear();
                    buffer.copy_to_vec_interleaved::<i32>(out);
                    Decoded::Samples
                }
                Err(symphonia::core::errors::Error::IoError(error)) => Decoded::Io(error.to_string()),
                Err(symphonia::core::errors::Error::DecodeError(error)) => Decoded::Malformed(error.to_string()),
                Err(error) => Decoded::Failed(error.to_string()),
            };
            match self.rules.decoded(decoded) {
                DecodeStep::Deliver => {}
                DecodeStep::Skip(_) => continue,
                DecodeStep::Fail(why) => return Err(why),
            }
            if self.rules.deliver(out) {
                return Ok(true);
            }
        }
    }

    fn run(mut self, mut on_chunk: impl FnMut(&[i32]) -> ChunkAction) -> Result<(), String> {
        let mut chunk = Vec::new();
        while self.next_chunk_into(&mut chunk)? {
            if on_chunk(&chunk) == ChunkAction::Stop {
                break;
            }
        }
        Ok(())
    }
}

fn decoder(frames: usize) -> Session {
    Session::open(wav(frames), Some("wav")).unwrap()
}

fn read_all(decoder: &mut Session) -> Vec<i32> {
    let (mut all, mut chunk) = (Vec::new(), Vec::new());
    while decoder.next_chunk_into(&mut chunk).unwrap() {
        all.extend_from_slice(&chunk);
    }
    all
}

#[test]
fn the_signal_is_what_a_wav_of_it_decodes_to() {
    assert_eq!((sample_at(0), sample_at(3_000), sample_at(2)), (-10_000, 999, -9_986));
    let bytes = wav(2);
    assert_eq!(bytes.len(), 44 + 8);
    assert_eq!(&bytes[..8], b"RIFF\x2c\0\0\0");
    assert_eq!(&bytes[44..46], &(-10_000i16).to_le_bytes());
    let mut part = Session::open(wav_slice(100, 50), Some("wav")).unwrap();
    assert_eq!(read_all(&mut part), expected(200, 300));
    assert!(expected(5, 3).is_empty());
}

#[test]
fn source_spec_is_plain_comparable_data() {
    let a = SourceSpec { sample_rate: 96_000, channels: 2, bits_per_sample: 24 };
    let b = a;
    assert_eq!(a, b);
}

#[test]
fn opening_garbage_bytes_fails_cleanly() {
    assert!(Session::open(vec![0u8; 64], None).is_err());
}

#[test]
fn reports_spec_and_duration() {
    let d = decoder(RATE as usize * 2);
    assert_eq!(
        d.rules.spec(),
        SourceSpec { sample_rate: RATE, channels: 2, bits_per_sample: 16 }
    );
    assert_eq!(d.rules.duration(), Some(Duration::from_secs(2)));
}

#[test]
fn next_chunk_into_yields_every_sample_left_justified_then_reports_the_end() {
    let frames = 30_000;
    let mut d = decoder(frames);
    assert_eq!(read_all(&mut d), expected(0, frames * 2));
    let mut chunk = Vec::new();
    assert!(!d.next_chunk_into(&mut chunk).unwrap(), "must keep reporting the end");
}

#[test]
fn run_delivers_the_same_samples_as_next_chunk_into() {
    let frames = 30_000;
    let mut got = Vec::new();
    decoder(frames)
        .run(|samples| {
            got.extend_from_slice(samples);
            ChunkAction::Continue
        })
        .unwrap();
    assert_eq!(got, expected(0, frames * 2));
}

#[test]
fn run_stops_when_asked() {
    let mut calls = 0;
    decoder(30_000)
        .run(|_| {
            calls += 1;
            ChunkAction::Stop
        })
        .unwrap();
    assert_eq!(calls, 1);
}

#[test]
fn seek_lands_on_the_exact_frame() {
    let frames = RATE as usize * 2;
    let mut d = decoder(frames);
    let target = RATE as usize / 2; // 0.5 s
    let position = d.seek(Duration::from_millis(500)).unwrap();
    assert_eq!(position, Duration::from_millis(500));
    assert_eq!(read_all(&mut d), expected(target * 2, frames * 2));
}

#[test]
fn seek_to_a_time_between_frames_rounds_down_and_reports_where_it_landed() {
    let frames = RATE as usize * 2;
    let mut d = decoder(frames);
    let position = d.seek(Duration::from_micros(123_456)).unwrap();

    let seconds = position.as_nanos() as f64 / 1e9;
    let landed_frame = (seconds * f64::from(RATE)).round() as usize;
    assert!(position.as_nanos() <= Duration::from_micros(123_456).as_nanos());
    assert!(landed_frame.abs_diff(5444) <= 1, "landed on frame {landed_frame}");
    assert_eq!(read_all(&mut d), expected(landed_frame * 2, frames * 2));
}

#[test]
fn seeking_backwards_after_reading_works() {
    let frames = RATE as usize;
    let mut d = decoder(frames);
    let mut chunk = Vec::new();
    for _ in 0..3 {
        assert!(d.next_chunk_into(&mut chunk).unwrap());
    }
    d.seek(Duration::zero()).unwrap();
    assert_eq!(read_all(&mut d), expected(0, frames * 2));
}

#[test]
fn seeking_past_the_end_is_an_error() {
    let mut d = decoder(RATE as usize);
    assert!(d.seek(Duration::from_secs(60)).is_err());
}

#[test]
fn skipped_frames_add_up_with_what_a_seek_drops() {
    let frames = RATE as usize * 2;
    let mut d = decoder(frames);
    d.seek(Duration::from_millis(500)).unwrap();
    d.rules.skip_frames(100);
    d.rules.skip_frames(23);
    let from = RATE as usize / 2 + 123;
    assert_eq!(read_all(&mut d), expected(from * 2, frames * 2));
}

#[test]
fn a_track_that_does_not_say_enough_is_refused_with_what_is_missing() {
    let facts = TrackFacts {
        id: 1,
        sample_rate: Some(44_100),
        channels: Some(2),
        bits_per_sample: Some(16),
        frames: None,
        ticks: Some(90_000),
        unit: Some(TickUnit { numer: 1, denom: 45_000 }),
    };
    assert_eq!(
        Decoder::open(Probed::Track(facts)).unwrap().duration(),
        Some(Duration::from_secs(2)),
        "from its ticks"
    );
    let text = |facts: TrackFacts| Decoder::open(Probed::Track(facts)).unwrap_err().text();
    assert_eq!(
        text(TrackFacts { sample_rate: None, ..facts }),
        "could not determine the source's sample rate"
    );
    assert_eq!(
        text(TrackFacts { channels: None, ..facts }),
        "could not determine the source's channel count"
    );
    assert!(text(TrackFacts { bits_per_sample: None, ..facts }).contains("bits_per_sample"));
    assert_eq!(
        Decoder::open(Probed::NoParameters).unwrap_err().text(),
        "the audio track has no codec parameters"
    );
    assert_eq!(Decoder::open(Probed::NotAudio).unwrap_err().text(), "the track is not audio");
}

#[test]
fn packets_of_other_tracks_and_broken_ones_are_skipped_and_the_rest_is_an_error() {
    let rules = decoder(10).rules;
    let track = rules.track_id();
    assert_eq!(rules.packet_read(PacketRead::Packet(track)), PacketStep::Decode);
    assert_eq!(rules.packet_read(PacketRead::Packet(track + 1)), PacketStep::Skip);
    assert_eq!(rules.packet_read(PacketRead::End), PacketStep::End);
    assert!(matches!(
        rules.packet_read(PacketRead::ResetRequired),
        PacketStep::Fail(why) if why.contains("resetting the decoder")
    ));
    assert_eq!(
        rules.decoded(Decoded::Malformed("bad".to_string())),
        DecodeStep::Skip("Warning: packet dropped due to a decode error: bad".to_string())
    );
    assert_eq!(
        rules.decoded(Decoded::Failed("bad".to_string())),
        DecodeStep::Fail("unrecoverable decoder error: bad".to_string())
    );
}

// ---- the engine --------------------------------------------------------------------------------

#[derive(Clone)]
enum Media {
    Pcm { samples: Vec<i32>, spec: SourceSpec },
    /// Audio that has to be decoded first.
    Wav(Vec<u8>),
    /// Audio that can only be opened in whole segments of `segment_frames`, like a DASH stream:
    /// opening it at a time gives the segment containing it, as a stream that can't rewind.
    Segmented { frames: usize, segment_frames: usize },
    Broken,
}

#[derive(Clone)]
struct TestTrack {
    id: &'static str,
    media: Media,
    open_delay: Duration,
    seek: SeekMode,
    /// Opening this track anywhere but the start fails, to exercise a failed seek.
    fail_reopen: bool,
}

impl TestTrack {
    fn new(id: &'static str, media: Media) -> Self {
        Self {
            id,
            media,
            open_delay: Duration::zero(),
            seek: SeekMode::Unseekable,
            fail_reopen: false,
        }
    }

    fn pcm(id: &'static str, frames: usize) -> Self {
        Self::pcm_with(id, frames, SPEC_48K)
    }

    fn pcm_with(id: &'static str, frames: usize, spec: SourceSpec) -> Self {
        Self::new(id, Media::Pcm { samples: ramp(frames), spec })
    }

    /// A WAV of `frames` frames at 44.1 kHz.
    fn wav(id: &'static str, frames: usize) -> Self {
        Self::new(id, Media::Wav(wav(frames)))
    }

    fn segmented(id: &'static str, frames: usize, segment_frames: usize) -> Self {
        Self {
            seek: SeekMode::Reopen,
            ..Self::new(id, Media::Segmented { frames, segment_frames })
        }
    }

    fn slow(mut self, delay: Duration) -> Self {
        self.open_delay = delay;
        self
    }

    fn seekable(mut self, mode: SeekMode) -> Self {
        self.seek = mode;
        self
    }

    fn failing_reopen(mut self) -> Self {
        self.fail_reopen = true;
        self
    }
}

/// A fixed list of tracks played in order; `open` moves the cursor to the track it opens.
struct TestSupplier {
    tracks: Vec<TestTrack>,
    cursor: Option<usize>,
}

impl TestSupplier {
    fn advance(&self, how: Advance) -> Option<TrackRef> {
        let target = match how {
            Advance::Auto | Advance::Next => Some(self.cursor.map_or(0, |index| index + 1)),
            Advance::Previous => self.cursor.and_then(|index| index.checked_sub(1)),
            Advance::Restart => self.cursor,
        };
        target
            .and_then(|index| self.tracks.get(index))
            .map(|track| TrackRef(track.id.to_string()))
    }

    /// The outcome of opening a track, and how long that takes.
    fn open(&mut self, track: TrackRef, at: Duration) -> (Duration, Opened) {
        let Some(index) = self.tracks.iter().position(|t| t.id == track.0) else {
            return (Duration::zero(), Err(format!("no such track: {}", track.0)));
        };
        self.cursor = Some(index);
        let test_track = self.tracks[index].clone();
        (test_track.open_delay, Self::opened(test_track, track, at))
    }

    fn opened(test_track: TestTrack, track: TrackRef, at: Duration) -> Opened {
        if test_track.fail_reopen && at.as_nanos() > 0 {
            return Err("the connection dropped while reopening the track".to_string());
        }
        let meta = TrackMeta { track, title: None, duration: None };
        let (samples, spec, start) = match test_track.media {
            Media::Pcm { samples, spec } => (samples, spec, Duration::zero()),
            Media::Wav(bytes) => {
                let mut session = Session::open(bytes, Some("wav"))
                    .map_err(|why| format!("opening the decoder: {why}"))?;
                let spec = session.rules.spec();
                (read_all(&mut session), spec, Duration::zero())
            }
            Media::Segmented { frames, segment_frames } => {
                let wanted = duration_to_frames(at, RATE) as usize;
                let boundary = wanted / segment_frames * segment_frames;
                let start = frames_to_duration(boundary as u64, RATE);
                (expected(boundary * 2, frames * 2), SPEC_WAV, start)
            }
            Media::Broken => return Err("the track's media is broken".to_string()),
        };
        let source = RawSource::new(samples, spec);
        let mut loaded =
            LoadedTrack::new(meta, spec, Some(source.duration())).starting_at(start);
        loaded.seek = test_track.seek;
        Ok((loaded, source))
    }
}

type Opened = Result<(LoadedTrack, RawSource), String>;

/// A load that is under way.
struct Loading {
    due: u128,
    generation: u64,
    outcome: Option<Opened>,
}

/// An engine wired to fakes, with everything that it reported.
struct Harness {
    thread: AudioThread,
    supplier: TestSupplier,
    outputs: Vec<FakeSinkFactory>,
    /// The output in use, and the one to use next.
    output: usize,
    next_output: Option<usize>,
    /// The open sink, and which of its output's it is.
    sink: Option<(FakeSink, usize)>,
    /// Why the open sink went away.
    lost: Option<String>,
    source: Option<RawSource>,
    fresh: Option<RawSource>,
    loading: Option<Loading>,
    inbox: VecDeque<Msg>,
    /// A write waits for the device.
    blocked: bool,
    now: u128,
    status: Status,
    events: Vec<Event>,
    seen_events: usize,
    seen_positions: usize,
    answers: Vec<bool>,
    switches: Vec<Result<(), String>>,
}

impl Harness {
    fn new(tracks: Vec<TestTrack>, sinks: FakeSinkFactory) -> Self {
        Self::with_position_interval(tracks, sinks, Duration::from_millis(250))
    }

    fn with_position_interval(
        tracks: Vec<TestTrack>,
        sinks: FakeSinkFactory,
        interval: Duration,
    ) -> Self {
        Self::with_options(
            tracks,
            sinks,
            Options { position_interval: interval, ..Options::default() },
        )
    }

    fn with_options(tracks: Vec<TestTrack>, mut sinks: FakeSinkFactory, options: Options) -> Self {
        sinks.on_release_request();
        let thread = AudioThread::new(options);
        let status = thread.status();
        Self {
            thread,
            supplier: TestSupplier { tracks, cursor: None },
            outputs: vec![sinks],
            output: 0,
            next_output: None,
            sink: None,
            lost: None,
            source: None,
            fresh: None,
            loading: None,
            inbox: VecDeque::new(),
            blocked: false,
            now: 0,
            status,
            events: Vec::new(),
            seen_events: 0,
            seen_positions: 0,
            answers: Vec::new(),
            switches: Vec::new(),
        }
    }

    fn send(&mut self, command: Command) {
        self.inbox.push_back(Msg::Command(command));
    }

    fn play(&mut self, id: &str) {
        self.send(Command::Play(Some(TrackRef(id.to_string()))));
    }

    fn seen(&self) -> Seen {
        let queued = match &self.sink {
            Some((sink, index)) => sink.delay_frames(&self.outputs[self.output].handles()[*index]),
            None => 0,
        };
        Seen { queued, now: Duration { nanos: self.now } }
    }

    /// Does what the engine asks for, and answers it, until it asks for nothing.
    fn settle(&mut self) {
        loop {
            let effects = self.thread.take_effects();
            if effects.is_empty() {
                return;
            }
            let mut opened: Option<Result<u64, String>> = None;
            let mut landed: Option<Duration> = None;
            for effect in effects {
                match effect {
                    Effect::Emit(event) => self.events.push(event),
                    Effect::Publish(status) => self.status = status,
                    Effect::OpenSink(spec) => {
                        opened = Some(match self.outputs[self.output].open(spec) {
                            Ok(sink) => {
                                let index = self.outputs[self.output].handles().len() - 1;
                                self.sink = Some((sink, index));
                                self.lost = None;
                                Ok(sink.capacity_frames())
                            }
                            Err(why) => Err(why),
                        });
                    }
                    Effect::CloseSink => self.sink = None,
                    Effect::ReleaseDevice => self.outputs[self.output].release(),
                    Effect::PauseSink => {
                        let (sink, index) = self.sink.as_mut().unwrap();
                        sink.pause(self.outputs[self.output].handle_mut(*index));
                    }
                    Effect::ResumeSink => {
                        let (sink, index) = self.sink.as_mut().unwrap();
                        sink.resume(self.outputs[self.output].handle_mut(*index));
                    }
                    Effect::FlushSink => {
                        let (sink, index) = self.sink.as_mut().unwrap();
                        sink.flush(self.outputs[self.output].handle_mut(*index));
                    }
                    Effect::DrainSink => {
                        let (sink, index) = self.sink.as_mut().unwrap();
                        sink.drain(self.outputs[self.output].handle_mut(*index));
                    }
                    Effect::UseSource => self.source = self.fresh.take(),
                    Effect::DropSource => self.source = None,
                    Effect::SeekSource(at) => {
                        landed = Some(self.source.as_mut().unwrap().seek(at));
                    }
                    Effect::SkipFrames(frames) => {
                        self.source.as_mut().unwrap().skip_frames(frames);
                    }
                    Effect::AbortLoad => self.loading = None,
                    Effect::Load { generation, target, at } => {
                        let track = match target {
                            LoadTarget::Track(track) => Some(track),
                            LoadTarget::Advance(how) => self.supplier.advance(how),
                        };
                        let (delay, outcome) = match track {
                            Some(track) => {
                                let (delay, outcome) = self.supplier.open(track, at);
                                (delay, Some(outcome))
                            }
                            None => (Duration::zero(), None),
                        };
                        self.loading =
                            Some(Loading { due: self.now + delay.as_nanos(), generation, outcome });
                    }
                    Effect::AnswerReleases(given) => self.answers.push(given),
                    Effect::UseOutput => {
                        self.output = self.next_output.take().unwrap();
                        self.outputs[self.output].on_release_request();
                    }
                    Effect::AnswerSwitch(outcome) => self.switches.push(outcome),
                }
            }
            let seen = self.seen();
            match self.thread.asked() {
                Asked::Nothing => {}
                Asked::OpenForTrack(_)
                | Asked::OpenForResume
                | Asked::OpenForSwitch
                | Asked::OpenAfterSeek => self.thread.opened(opened.unwrap(), seen),
                Asked::Pause(_) => self.thread.paused(Ok(()), seen),
                Asked::Resume => self.thread.resumed(Ok(()), seen),
                Asked::Drain => self.thread.drained(Ok(()), seen),
                Asked::Seek => self.thread.sought(Ok(landed.unwrap()), seen),
            }
        }
    }

    /// Tries to hand what is pending to the device. `false` if that has to wait.
    fn write(&mut self) -> bool {
        if let Some(why) = self.lost.take() {
            self.blocked = false;
            let seen = self.seen();
            self.thread.written(Err(SinkFailure::Gone(why)), seen);
            return true;
        }
        let (sink, index) = self.sink.as_mut().unwrap();
        let handle = self.outputs[self.output].handle_mut(*index);
        let outcome = match sink.write(handle, self.thread.pending()) {
            Ok(Accepted::Frames(frames)) => Ok(frames),
            Ok(Accepted::Full) => {
                self.blocked = true;
                return false;
            }
            Err(why) => Err(SinkFailure::Other(why)),
        };
        self.blocked = false;
        let seen = self.seen();
        self.thread.written(outcome, seen);
        true
    }

    /// Runs the engine until it waits for something.
    fn pump(&mut self) {
        loop {
            if self.blocked {
                if !self.write() {
                    return;
                }
                self.settle();
                continue;
            }
            if self.loading.as_ref().is_some_and(|loading| loading.due <= self.now) {
                let Loading { generation, outcome, .. } = self.loading.take().unwrap();
                self.inbox.push_back(match outcome {
                    Some(Ok((track, source))) => {
                        self.fresh = Some(source);
                        Msg::Loaded { generation, track }
                    }
                    Some(Err(error)) => Msg::LoadFailed { generation, error },
                    None => Msg::QueueExhausted { generation },
                });
            }
            if let Some(msg) = self.inbox.pop_front() {
                let seen = self.seen();
                self.thread.handle(msg, seen);
                self.settle();
                continue;
            }
            let seen = self.seen();
            self.thread.tick(seen);
            self.settle();
            match self.thread.play_step() {
                Next::Wait => {
                    if self.inbox.is_empty() && self.loading.as_ref().map_or(true, |l| l.due > self.now)
                    {
                        return;
                    }
                }
                Next::Read => {
                    let chunk = self.source.as_mut().unwrap().next_chunk();
                    let seen = self.seen();
                    self.thread.chunk(Ok(chunk), seen);
                }
                Next::Write => {
                    if !self.write() {
                        return;
                    }
                }
            }
            self.settle();
        }
    }

    /// Lets the clock run to whatever happens next by itself. `false` if nothing will.
    fn wait(&mut self) -> bool {
        if self.blocked {
            return false;
        }
        let load = self.loading.as_ref().map(|loading| loading.due);
        let idle = self
            .thread
            .idle_in(Duration { nanos: self.now })
            .map(|left| self.now + left.as_nanos());
        match (load, idle) {
            (Some(a), Some(b)) => self.now = a.min(b),
            (Some(a), None) | (None, Some(a)) => self.now = a,
            (None, None) => return false,
        }
        true
    }

    /// Lets time pass.
    fn sleep(&mut self, duration: Duration) {
        let end = self.now + duration.as_nanos();
        loop {
            self.pump();
            let before = self.now;
            if !self.wait() || self.now > end {
                self.now = before;
                break;
            }
            if self.now == before {
                break;
            }
        }
        self.now = end;
        self.pump();
    }

    /// The status that everybody sees.
    fn status(&mut self) -> Status {
        self.pump();
        Status {
            state: self.status.state,
            track: self.status.track.clone(),
            spec: self.status.spec,
            position: self.status.position,
            duration: self.status.duration,
            output: match &self.status.output {
                OutputState::Closed => OutputState::Closed,
                OutputState::Open => OutputState::Open,
                OutputState::Released { by } => OutputState::Released { by: by.clone() },
            },
        }
    }

    fn shutdown(&mut self) {
        self.pump();
        let seen = self.seen();
        assert!(!self.thread.handle(Msg::Shutdown, seen), "the engine is over");
        self.settle();
    }

    /// The place of the next event that `wanted` accepts, from `from` on.
    fn find(&mut self, from: usize, wanted: impl Fn(&Event) -> bool) -> usize {
        for _ in 0..1000 {
            self.pump();
            if let Some(at) = (from..self.events.len()).find(|at| wanted(&self.events[*at])) {
                return at;
            }
            assert!(self.wait(), "nothing more will happen: {:?}", self.events.last());
        }
        panic!("it never happened");
    }

    /// The next event other than `Position`, which has its own helpers so it doesn't clutter the
    /// lifecycle sequences the other tests assert on.
    fn next_event(&mut self) -> &Event {
        let at = self.find(self.seen_events, |event| !matches!(event, Event::Position { .. }));
        self.seen_events = at + 1;
        &self.events[at]
    }

    /// Every event up to and including the first one `stop` accepts.
    fn events_until(&mut self, stop: impl Fn(&Event) -> bool) -> Vec<&Event> {
        let from = self.seen_events;
        let at = self.find(from, stop);
        self.seen_events = at + 1;
        self.events[from..=at]
            .iter()
            .filter(|event| !matches!(event, Event::Position { .. }))
            .collect()
    }

    fn labels_until(&mut self, stop: impl Fn(&Event) -> bool) -> Vec<String> {
        self.events_until(stop).into_iter().map(label).collect()
    }

    /// Asserts nothing else is reported for `duration` (position reports aside).
    fn assert_quiet_for(&mut self, duration: Duration) {
        self.sleep(duration);
        for event in &self.events[self.seen_events..] {
            assert!(matches!(event, Event::Position { .. }), "expected no more events, got {event:?}");
        }
    }

    /// The next reported position (and the track length), skipping every other event.
    fn next_position(&mut self) -> (Duration, Option<Duration>) {
        let at = self.find(self.seen_positions, |event| matches!(event, Event::Position { .. }));
        self.seen_positions = at + 1;
        match &self.events[at] {
            Event::Position { position, duration } => (*position, *duration),
            _ => unreachable!(),
        }
    }

    /// Positions until one satisfies `stop`, which is included.
    fn positions_until(&mut self, stop: impl Fn(Duration) -> bool) -> Vec<Duration> {
        let mut positions = Vec::new();
        loop {
            let (position, _) = self.next_position();
            positions.push(position);
            if stop(position) {
                return positions;
            }
        }
    }

    /// The `index`-th sink of the first output.
    fn sink(&mut self, index: usize) -> &mut FakeSinkHandle {
        self.outputs[0].handle_mut(index)
    }

    fn lose_output(&mut self, why: &str) {
        self.lost = Some(why.to_string());
    }

    /// Another program asks the output in use for the card. `None` while the answer is open.
    fn request_release(&mut self, by: &str, priority: i32) -> Option<bool> {
        let request = self.outputs[self.output].request_release(Some(by.to_string()), priority);
        match request {
            Some(request) if request.matters_more() => {
                self.inbox.push_back(Msg::ReleaseRequested { by: request.by });
                None
            }
            _ => Some(false),
        }
    }

    /// How the requests were answered.
    fn answer(&mut self) -> bool {
        for _ in 0..1000 {
            self.pump();
            if let Some(answer) = self.answers.pop() {
                return answer;
            }
            assert!(self.wait(), "no answer");
        }
        panic!("no answer");
    }

    /// Switches to another output.
    fn set_output(&mut self, to: FakeSinkFactory) {
        self.outputs.push(to);
        self.next_output = Some(self.outputs.len() - 1);
        self.inbox.push_back(Msg::SetOutput);
    }

    /// How the switch went.
    fn switched(&mut self) -> Result<(), String> {
        self.pump();
        self.switches.pop().expect("the switch is done")
    }

    /// Waits until `condition` holds.
    fn wait_until(&mut self, what: &str, condition: impl Fn(&mut Harness) -> bool) {
        for _ in 0..1000 {
            self.pump();
            if condition(self) {
                return;
            }
            assert!(self.wait(), "it never came to it that {what}");
        }
        panic!("it never came to it that {what}");
    }
}

fn stopped_status() -> Status {
    Status {
        state: State::Stopped,
        track: None,
        spec: None,
        position: Duration::zero(),
        duration: None,
        output: OutputState::Closed,
    }
}

fn shown(duration: &Duration) -> std::time::Duration {
    std::time::Duration::from_nanos(duration.as_nanos() as u64)
}

fn label(event: &Event) -> String {
    match event {
        Event::StateChanged(state) => format!("state:{state:?}"),
        Event::TrackStarted { meta, .. } => format!("started:{}", meta.track.0),
        Event::TrackEnded { meta, reason } => format!("ended:{}:{reason:?}", meta.track.0),
        Event::Seeked { position } => format!("seeked:{:?}", shown(position)),
        Event::SeekRejected { reason } => format!("seek-rejected:{reason}"),
        Event::QueueExhausted => "exhausted".to_string(),
        Event::OutputReleased { by, reason } => {
            format!("released:{}:{reason:?}", by.as_deref().unwrap_or("-"))
        }
        Event::OutputAcquired => "acquired".to_string(),
        Event::Error { message } => format!("error:{message}"),
        Event::Position { .. } => unreachable!("positions are filtered out before labelling"),
    }
}

fn is_stopped(event: &Event) -> bool {
    matches!(event, Event::StateChanged(State::Stopped))
}

fn is_started(event: &Event) -> bool {
    matches!(event, Event::TrackStarted { .. })
}

fn is_playing(event: &Event) -> bool {
    matches!(event, Event::StateChanged(State::Playing))
}

/// Starts `id` on a blocking sink and waits until the engine is stuck writing to a full queue,
/// mid-track.
fn play_until_queue_is_full(h: &mut Harness, id: &str) {
    h.play(id);
    h.events_until(is_started);
    wait_until_the_writer_is_blocked(h, 0);
}

/// Waits until the queue of the `index`-th sink is (nearly) full and the engine is stuck writing.
/// Chunks aren't a whole number of periods, so the queue can stall a little short of its capacity.
fn wait_until_the_writer_is_blocked(h: &mut Harness, index: usize) {
    h.pump();
    assert!(h.blocked, "the writer is blocked on a full queue");
    assert!(h.sink(index).queued_frames() > CAPACITY - PERIOD);
}


/// Sends `command`, then lets the device play one period so an engine blocked writing to the full
/// queue can return and see it.
fn send_and_unblock(h: &mut Harness, command: Command) {
    h.send(command);
    h.sink(0).advance(PERIOD);
}

fn seek_to(h: &mut Harness, at: Duration) {
    send_and_unblock(h, Command::Seek(SeekTarget::Absolute(at)));
}

/// Everything that was played on every sink so far, in order.
fn played_on_all(h: &Harness) -> Vec<i32> {
    h.outputs[0].handles().iter().flat_map(FakeSinkHandle::played).collect()
}

/// Plays `id` until the writer is stuck, then releases the device and waits for the report.
fn release_mid_track(h: &mut Harness, id: &str) {
    play_until_queue_is_full(h, id);
    send_and_unblock(h, Command::Release);
    h.events_until(is_released);
}

/// Switches to another output while the engine is stuck writing, and lets the device play a period.
fn switch_output(h: &mut Harness, to: FakeSinkFactory) {
    h.set_output(to);
    h.sink(0).advance(PERIOD);
    h.switched().unwrap();
}

#[test]
fn a_fresh_engine_is_stopped() {
    let mut h = Harness::new(vec![], FakeSinkFactory::autoplay());
    assert_eq!(h.status(), stopped_status());
}

#[test]
fn plays_a_track_to_the_end_and_reports_the_whole_lifecycle() {
    let mut h = Harness::new(
        vec![TestTrack::pcm("a", 10_000)],
        FakeSinkFactory::autoplay(),
    );
    h.play("a");

    let labels = h.labels_until(is_stopped);
    assert_eq!(
        labels,
        [
            "state:Loading",
            "started:a",
            "state:Playing",
            "ended:a:Completed",
            "state:Loading",
            "exhausted",
            "state:Stopped"
        ]
    );
    assert_eq!(
        h.sink(0).played(),
        ramp(10_000),
        "every sample, in order, exactly once"
    );
}

#[test]
fn started_event_and_status_carry_the_track_and_its_format() {
    let mut h = Harness::new(
        vec![TestTrack::pcm_with("a", 10_000, SPEC_96K)],
        FakeSinkFactory::blocking(),
    );
    h.play("a");

    let events = h.events_until(is_started);
    let Some(Event::TrackStarted { meta, spec }) = events.last() else {
        unreachable!()
    };
    assert_eq!(meta.track, TrackRef("a".into()));
    assert_eq!(*spec, SPEC_96K);

    assert_eq!(*h.next_event(), Event::StateChanged(State::Playing));
    let status = h.status();
    assert_eq!(status.state, State::Playing);
    assert_eq!(status.track.map(|t| t.track), Some(TrackRef("a".into())));
    assert_eq!(status.spec, Some(SPEC_96K));

    // The engine is blocked writing to the full queue; release it so shutting down is instant.
    h.sink(0).set_blocking(false);
}

#[test]
fn auto_advances_and_keeps_the_sink_open_while_the_format_stays_the_same() {
    let mut h = Harness::new(
        vec![TestTrack::pcm("a", 5_000), TestTrack::pcm("b", 3_000)],
        FakeSinkFactory::autoplay(),
    );
    h.play("a");

    let labels = h.labels_until(is_stopped);
    assert_eq!(
        labels,
        [
            "state:Loading",
            "started:a",
            "state:Playing",
            "ended:a:Completed",
            "state:Loading",
            "started:b",
            "state:Playing",
            "ended:b:Completed",
            "state:Loading",
            "exhausted",
            "state:Stopped"
        ]
    );
    assert_eq!(h.outputs[0].handles().len(), 1, "one sink for both tracks");
    let mut both = ramp(5_000);
    both.extend(ramp(3_000));
    assert_eq!(h.sink(0).played(), both);
}

#[test]
fn a_different_format_reopens_the_sink() {
    let mut h = Harness::new(
        vec![
            TestTrack::pcm_with("a", 2_000, SPEC_48K),
            TestTrack::pcm_with("b", 2_000, SPEC_96K),
        ],
        FakeSinkFactory::autoplay(),
    );
    h.play("a");
    h.labels_until(is_stopped);

    assert_eq!(h.outputs[0].handles().len(), 2);
    assert_eq!(h.sink(0).played(), ramp(2_000));
    assert_eq!(h.sink(1).played(), ramp(2_000));
}

#[test]
fn play_with_no_track_asks_the_supplier_and_reports_an_empty_queue() {
    let mut h = Harness::new(vec![], FakeSinkFactory::autoplay());
    h.send(Command::Play(None));
    assert_eq!(
        h.labels_until(is_stopped),
        ["state:Loading", "exhausted", "state:Stopped"]
    );
}

#[test]
fn play_with_no_track_starts_the_suppliers_first_track() {
    let mut h = Harness::new(vec![TestTrack::pcm("a", 100)], FakeSinkFactory::autoplay());
    h.send(Command::Play(None));
    let labels = h.labels_until(is_stopped);
    assert_eq!(labels[..3], ["state:Loading", "started:a", "state:Playing"]);
}

#[test]
fn stop_mid_track_discards_queued_audio_and_releases_the_sink() {
    let mut h = Harness::new(
        vec![TestTrack::pcm("long", 200_000)],
        FakeSinkFactory::blocking(),
    );
    h.play("long");
    h.events_until(is_started);

    // The engine fills the device queue and then blocks in `write`, mid-track.
    h.wait_until("the device queue is full", |h| {
        h.sink(0).queued_frames() == CAPACITY
    });
    h.send(Command::Stop);
    h.sink(0).advance(PERIOD); // lets the blocked write return, so the engine can see the Stop

    let labels = h.labels_until(is_stopped);
    assert_eq!(
        labels,
        ["state:Playing", "ended:long:Interrupted", "state:Stopped"]
    );
    assert_eq!(h.sink(0).flush_count(), 1);

    let played = h.sink(0).played();
    assert!(
        played.len() <= PERIOD * 2,
        "audio queued before the Stop must not be heard: {} samples",
        played.len()
    );
    assert_eq!(
        played,
        ramp(200_000)[..played.len()],
        "what was heard is still an exact prefix"
    );
    assert_eq!(h.status().state, State::Stopped);
    assert_eq!(h.status().track, None);
}

#[test]
fn next_mid_track_skips_ahead_and_never_plays_the_flushed_audio() {
    let b_frames = 3_000;
    let mut h = Harness::new(
        vec![TestTrack::pcm("a", 200_000), TestTrack::pcm("b", b_frames)],
        FakeSinkFactory::blocking(),
    );
    h.play("a");
    h.events_until(is_started);

    h.wait_until("the device queue is full", |h| {
        h.sink(0).queued_frames() == CAPACITY
    });
    h.send(Command::Next);
    h.sink(0).advance(PERIOD);

    let labels = h.labels_until(is_stopped);
    assert_eq!(
        labels,
        [
            "state:Playing",
            "ended:a:Interrupted",
            "state:Loading",
            "started:b",
            "state:Playing",
            "ended:b:Completed",
            "state:Loading",
            "exhausted",
            "state:Stopped"
        ]
    );

    let played = h.sink(0).played();
    let a_part = played.len() - b_frames * 2;
    assert!(
        a_part <= PERIOD * 2,
        "only audio that reached the DAC before Next may be heard"
    );
    assert_eq!(played[..a_part], ramp(200_000)[..a_part]);
    assert_eq!(played[a_part..], ramp(b_frames), "then all of b, in order");
    assert_eq!(
        h.outputs[0].handles().len(),
        1,
        "the sink is reused across the skip"
    );
}

#[test]
fn a_newer_request_supersedes_a_slow_load() {
    let mut h = Harness::new(
        vec![
            TestTrack::pcm("slow", 1_000).slow(Duration::from_millis(400)),
            TestTrack::pcm("fast", 1_000),
        ],
        FakeSinkFactory::autoplay(),
    );
    h.play("slow");
    h.play("fast");

    let labels = h.labels_until(is_stopped);
    assert_eq!(
        labels[..3],
        ["state:Loading", "started:fast", "state:Playing"]
    );
    assert!(!labels.iter().any(|l| l == "started:slow"));

    // Long enough for the slow load to have finished, had it not been superseded.
    h.assert_quiet_for(Duration::from_millis(700));
    assert_eq!(h.sink(0).played(), ramp(1_000));
}

#[test]
fn load_results_nobody_asked_for_are_ignored() {
    let mut h = Harness::new(vec![], FakeSinkFactory::autoplay());
    let meta = TrackMeta { track: TrackRef("ghost".into()), title: None, duration: None };
    let unsolicited = LoadedTrack::new(meta, SPEC_48K, None);
    h.inbox.push_back(Msg::Loaded { generation: 0, track: unsolicited });
    h.inbox.push_back(Msg::LoadFailed { generation: 7, error: "stale".into() });
    h.inbox.push_back(Msg::QueueExhausted { generation: 7 });

    h.assert_quiet_for(Duration::from_millis(150));
    assert_eq!(h.status().state, State::Stopped);
    assert!(h.outputs[0].handles().is_empty());
}

#[test]
fn a_track_that_fails_to_load_reports_the_error_and_the_engine_stays_usable() {
    let mut h = Harness::new(vec![TestTrack::pcm("a", 500)], FakeSinkFactory::autoplay());
    h.play("nope");
    assert_eq!(
        h.labels_until(is_stopped),
        [
            "state:Loading",
            "error:no such track: nope",
            "state:Stopped"
        ]
    );

    h.play("a");
    let labels = h.labels_until(is_stopped);
    assert_eq!(labels[..3], ["state:Loading", "started:a", "state:Playing"]);
    assert_eq!(h.sink(0).played(), ramp(500));
}

#[test]
fn media_that_cannot_be_opened_is_an_error_not_a_crash() {
    let broken = TestTrack::new("bad", Media::Broken);
    let mut h = Harness::new(vec![broken], FakeSinkFactory::autoplay());
    h.play("bad");
    let labels = h.labels_until(is_stopped);
    assert_eq!(
        labels,
        [
            "state:Loading",
            "error:the track's media is broken",
            "state:Stopped"
        ]
    );
}

#[test]
fn encoded_media_goes_through_the_decoder_and_plays_bit_for_bit() {
    let frames = 30_000;
    let track = TestTrack::wav("wav", frames);
    let mut h = Harness::new(vec![track], FakeSinkFactory::autoplay());
    h.play("wav");
    h.labels_until(is_stopped);

    assert_eq!(
        h.sink(0).spec(),
        SPEC_WAV,
        "the sink is opened with the decoder's format"
    );
    assert_eq!(h.sink(0).played(), expected(0, frames * 2));
}

#[test]
fn undecodable_encoded_media_is_reported_as_an_error() {
    let garbage = TestTrack::new("junk", Media::Wav(vec![0u8; 64]));
    let mut h = Harness::new(vec![garbage], FakeSinkFactory::autoplay());
    h.play("junk");
    let labels = h.labels_until(is_stopped);
    assert_eq!(labels[0], "state:Loading");
    assert!(
        labels[1].starts_with("error:opening the decoder"),
        "{labels:?}"
    );
    assert_eq!(labels[2], "state:Stopped");
}

#[test]
fn pause_silences_the_device_and_resume_continues_bit_for_bit() {
    let frames = 30_000;
    let mut h = Harness::new(
        vec![TestTrack::pcm("a", frames)],
        FakeSinkFactory::blocking(),
    );
    play_until_queue_is_full(&mut h, "a");

    h.send(Command::Pause);
    h.sink(0).advance(PERIOD); // lets the blocked write return, so the engine can see the Pause
    assert_eq!(
        h.labels_until(|e| matches!(e, Event::StateChanged(State::Paused))),
        ["state:Playing", "state:Paused"]
    );
    assert!(h.sink(0).is_paused());
    assert_eq!(h.status().state, State::Paused);
    assert!(
        h.status().track.is_some(),
        "the track is kept while paused"
    );

    // Time passes while paused: nothing may move, and the engine must not keep writing (the
    // fake rejects writes on a paused sink, which would surface as an error).
    let (played, queued) = (h.sink(0).played(), h.sink(0).queued_frames());
    h.sink(0).advance(10_000);
    h.assert_quiet_for(Duration::from_millis(150));
    assert_eq!((h.sink(0).played(), h.sink(0).queued_frames()), (played, queued));

    h.send(Command::Resume);
    assert_eq!(*h.next_event(), Event::StateChanged(State::Playing));
    assert!(!h.sink(0).is_paused());

    h.sink(0).set_blocking(false);
    h.labels_until(is_stopped);
    assert_eq!(
        h.sink(0).played(),
        ramp(frames),
        "no sample lost or repeated across the pause"
    );
}

#[test]
fn pausing_twice_or_resuming_while_playing_changes_nothing() {
    let mut h = Harness::new(
        vec![TestTrack::pcm("a", 30_000)],
        FakeSinkFactory::blocking(),
    );
    play_until_queue_is_full(&mut h, "a");

    h.send(Command::Resume); // not paused: ignored
    h.send(Command::Pause);
    h.send(Command::Pause); // already paused: ignored
    h.sink(0).advance(PERIOD);
    assert_eq!(
        h.labels_until(|e| matches!(e, Event::StateChanged(State::Paused))),
        ["state:Playing", "state:Paused"]
    );
    h.assert_quiet_for(Duration::from_millis(100));

    h.sink(0).set_blocking(false);
    h.send(Command::Resume);
    h.send(Command::Resume);
    assert_eq!(*h.next_event(), Event::StateChanged(State::Playing));
}

#[test]
fn toggle_pause_alternates_between_playing_and_paused() {
    let mut h = Harness::new(
        vec![TestTrack::pcm("a", 30_000)],
        FakeSinkFactory::blocking(),
    );
    play_until_queue_is_full(&mut h, "a");

    h.send(Command::TogglePause);
    h.sink(0).advance(PERIOD);
    h.events_until(|e| matches!(e, Event::StateChanged(State::Paused)));

    h.sink(0).set_blocking(false);
    h.send(Command::TogglePause);
    assert_eq!(*h.next_event(), Event::StateChanged(State::Playing));
}

#[test]
fn pausing_while_a_track_loads_starts_it_paused_without_touching_the_device() {
    let frames = 20_000;
    let track = TestTrack::pcm("a", frames).slow(Duration::from_millis(150));
    let mut h = Harness::new(vec![track], FakeSinkFactory::autoplay());
    h.play("a");
    h.send(Command::Pause);

    assert_eq!(
        h.labels_until(|e| matches!(e, Event::StateChanged(State::Paused))),
        ["state:Loading", "started:a", "state:Paused"]
    );
    h.assert_quiet_for(Duration::from_millis(100));
    assert!(h.sink(0).played().is_empty(), "nothing is written while paused");
    assert!(!h.sink(0).is_paused(), "the sink was never asked to pause");

    h.send(Command::Resume);
    assert_eq!(*h.next_event(), Event::StateChanged(State::Playing));
    h.labels_until(is_stopped);
    assert_eq!(h.sink(0).played(), ramp(frames));
}

#[test]
fn resuming_while_a_track_loads_cancels_the_pending_pause() {
    let track = TestTrack::pcm("a", 1_000).slow(Duration::from_millis(150));
    let mut h = Harness::new(vec![track], FakeSinkFactory::autoplay());
    h.play("a");
    h.send(Command::Pause);
    h.send(Command::Resume);

    let labels = h.labels_until(is_stopped);
    assert!(!labels.iter().any(|l| l == "state:Paused"), "{labels:?}");
    assert_eq!(labels[..3], ["state:Loading", "started:a", "state:Playing"]);
}

#[test]
fn stop_while_paused_discards_the_queue_and_releases_the_device() {
    let mut h = Harness::new(
        vec![TestTrack::pcm("a", 30_000)],
        FakeSinkFactory::blocking(),
    );
    play_until_queue_is_full(&mut h, "a");
    h.send(Command::Pause);
    h.sink(0).advance(PERIOD);
    h.events_until(|e| matches!(e, Event::StateChanged(State::Paused)));

    h.send(Command::Stop);
    assert_eq!(
        h.labels_until(is_stopped),
        ["ended:a:Interrupted", "state:Stopped"]
    );
    assert_eq!(h.sink(0).flush_count(), 1);
    assert!(!h.sink(0).is_paused());
    assert_eq!(h.status(), stopped_status());
}

#[test]
fn next_while_paused_starts_the_next_track_playing() {
    let b_frames = 2_000;
    let mut h = Harness::new(
        vec![TestTrack::pcm("a", 30_000), TestTrack::pcm("b", b_frames)],
        FakeSinkFactory::blocking(),
    );
    play_until_queue_is_full(&mut h, "a");
    h.send(Command::Pause);
    h.sink(0).advance(PERIOD);
    h.events_until(|e| matches!(e, Event::StateChanged(State::Paused)));

    h.send(Command::Next);
    let labels = h.labels_until(is_stopped);
    assert_eq!(
        labels[..5],
        [
            "ended:a:Interrupted",
            "state:Loading",
            "started:b",
            "state:Playing",
            "ended:b:Completed"
        ]
    );
    let played = h.sink(0).played();
    assert_eq!(
        played[played.len() - b_frames * 2..],
        ramp(b_frames),
        "b plays in full"
    );
}

#[test]
fn shutdown_while_paused_does_not_hang() {
    let mut h = Harness::new(
        vec![TestTrack::pcm("a", 30_000)],
        FakeSinkFactory::blocking(),
    );
    play_until_queue_is_full(&mut h, "a");
    h.send(Command::Pause);
    h.sink(0).advance(PERIOD);
    h.events_until(|e| matches!(e, Event::StateChanged(State::Paused)));
    h.shutdown();
    assert_eq!(h.sink(0).flush_count(), 1);
}

#[test]
fn position_is_what_was_heard_not_what_was_written() {
    let frames = 20_000;
    let mut h = Harness::with_position_interval(
        vec![TestTrack::pcm("a", frames)],
        FakeSinkFactory::blocking(),
        Duration::zero(),
    );
    play_until_queue_is_full(&mut h, "a");

    // Four periods are written but none played yet: nothing has been heard.
    assert_eq!(h.status().position, Duration::zero());

    // The DAC plays 1500 frames, freeing room for the engine's blocked write to complete.
    h.sink(0).advance(1500);
    let heard = frames_to_duration(1500, 48_000);
    let positions = h.positions_until(|p| p.as_nanos() > 0);
    assert_eq!(positions.last(), Some(&heard), "written minus still queued");

    let status = h.status();
    assert_eq!(status.position, heard);
    assert_eq!(
        status.duration,
        Some(frames_to_duration(frames as u64, 48_000))
    );
    h.sink(0).set_blocking(false);
}

#[test]
fn a_completed_track_ends_with_its_full_length_as_the_last_position() {
    let frames = 10_000;
    let mut h = Harness::with_position_interval(
        vec![TestTrack::pcm("a", frames)],
        FakeSinkFactory::autoplay(),
        Duration::zero(),
    );
    h.play("a");
    let length = frames_to_duration(frames as u64, 48_000);

    let positions = h.positions_until(|p| p == length);
    assert_eq!(positions[0], Duration::zero(), "a track starts at zero");
    assert!(
        positions.windows(2).all(|w| w[0].as_nanos() <= w[1].as_nanos()),
        "position never goes backwards: {positions:?}"
    );

    // Completion reports the position once more, after the device has played everything.
    assert_eq!(h.next_position(), (length, Some(length)));
}

#[test]
fn position_holds_still_while_paused() {
    let mut h = Harness::with_position_interval(
        vec![TestTrack::pcm("a", 30_000)],
        FakeSinkFactory::blocking(),
        Duration::zero(),
    );
    play_until_queue_is_full(&mut h, "a");
    h.sink(0).advance(2000);
    h.wait_until("the writer is blocked again", |h| {
        h.sink(0).queued_frames() > CAPACITY - PERIOD
    });

    h.send(Command::Pause);
    h.sink(0).advance(PERIOD);
    h.events_until(|e| matches!(e, Event::StateChanged(State::Paused)));

    let heard_at_pause = frames_to_duration((h.sink(0).played().len() / 2) as u64, 48_000);
    let paused = h.status();
    assert_eq!(paused.position, heard_at_pause);

    h.sink(0).advance(10_000); // ignored: the device is paused
    h.assert_quiet_for(Duration::from_millis(100));
    assert_eq!(h.status().position, heard_at_pause);
}

#[test]
fn previous_early_in_a_track_goes_back_one_track() {
    let mut h = Harness::new(
        vec![TestTrack::pcm("a", 30_000), TestTrack::pcm("b", 30_000)],
        FakeSinkFactory::blocking(),
    );
    play_until_queue_is_full(&mut h, "b");

    h.send(Command::Previous);
    h.sink(0).advance(PERIOD);
    let labels = h.labels_until(is_started_label("started:a"));
    assert_eq!(
        labels,
        [
            "state:Playing",
            "ended:b:Interrupted",
            "state:Loading",
            "started:a"
        ]
    );
    h.sink(0).set_blocking(false);
}

fn is_started_label(wanted: &'static str) -> impl Fn(&Event) -> bool {
    move |event| !matches!(event, Event::Position { .. }) && label(event) == wanted
}

#[test]
fn previous_after_three_seconds_restarts_the_current_track() {
    let frames = 10_000;
    let mut h = Harness::new(
        vec![
            TestTrack::pcm("prev", 100),
            TestTrack::pcm_with("long", frames, SPEC_1K),
        ],
        FakeSinkFactory::blocking(),
    );
    play_until_queue_is_full(&mut h, "long");

    // Let the device play 3.5 s (at 1 kHz) and wait for the engine to be blocked again.
    h.sink(0).advance(3_500);
    h.wait_until("the writer is blocked again", |h| {
        h.sink(0).queued_frames() > CAPACITY - PERIOD
    });

    h.send(Command::Previous);
    h.sink(0).advance(PERIOD);
    let labels = h.labels_until(is_started_label("started:long"));
    assert_eq!(
        labels,
        [
            "state:Playing",
            "ended:long:Interrupted",
            "state:Loading",
            "started:long"
        ]
    );

    h.sink(0).set_blocking(false);
    h.labels_until(is_stopped);
    let played = h.sink(0).played();
    assert_eq!(
        played[played.len() - frames * 2..],
        ramp(frames),
        "the restarted track plays from its first frame"
    );
}

#[test]
fn previous_on_the_first_track_reports_an_empty_queue() {
    let mut h = Harness::new(
        vec![TestTrack::pcm("a", 30_000)],
        FakeSinkFactory::blocking(),
    );
    play_until_queue_is_full(&mut h, "a");

    h.send(Command::Previous);
    h.sink(0).advance(PERIOD);
    assert_eq!(
        h.labels_until(is_stopped),
        [
            "state:Playing",
            "ended:a:Interrupted",
            "state:Loading",
            "exhausted",
            "state:Stopped"
        ]
    );
}

fn secs(seconds: u64) -> Duration {
    Duration::from_secs(seconds)
}

/// Whether the audio the DAC played ends with exactly `expected`.
fn ends_with(played: &[i32], expected: &[i32]) -> bool {
    played.len() >= expected.len() && played[played.len() - expected.len()..] == *expected
}

/// What a 44.1 kHz WAV of `frames` frames sounds like from frame `from` on.
fn wav_from(from: usize, frames: usize) -> Vec<i32> {
    expected(from * 2, frames * 2)
}

#[test]
fn seeking_in_place_jumps_and_never_plays_the_flushed_audio() {
    let frames = 100_000;
    let mut h = Harness::new(
        vec![TestTrack::wav("a", frames).seekable(SeekMode::InPlace)],
        FakeSinkFactory::blocking(),
    );
    play_until_queue_is_full(&mut h, "a");

    seek_to(&mut h, secs(1));
    assert_eq!(
        h.labels_until(|e| matches!(e, Event::Seeked { .. })),
        ["state:Playing", "seeked:1s"]
    );
    assert_eq!(
        h.positions_until(|p| p == secs(1)).last(),
        Some(&secs(1)),
        "the position is the target at once"
    );
    assert_eq!(h.sink(0).flush_count(), 1);

    h.sink(0).set_blocking(false);
    h.labels_until(is_stopped);
    let played = h.sink(0).played();
    let after_seek = wav_from(44_100, frames);
    assert!(
        ends_with(&played, &after_seek),
        "after the seek, exactly the audio from 1 s on"
    );
    let before_seek = played.len() - after_seek.len();
    assert!(
        before_seek <= PERIOD * 2,
        "only audio the DAC had already taken before the seek may be heard"
    );
    assert_eq!(played[..before_seek], wav_from(0, before_seek / 2)[..]);
}

#[test]
fn seeking_raw_pcm_in_place_also_lands_on_the_exact_frame() {
    let frames = 100_000;
    let mut h = Harness::new(
        vec![TestTrack::pcm("a", frames).seekable(SeekMode::InPlace)],
        FakeSinkFactory::blocking(),
    );
    play_until_queue_is_full(&mut h, "a");

    seek_to(&mut h, secs(1));
    h.labels_until(|e| matches!(e, Event::Seeked { .. }));
    h.sink(0).set_blocking(false);
    h.labels_until(is_stopped);
    assert!(ends_with(&h.sink(0).played(), &ramp(frames)[48_000 * 2..]));
}

#[test]
fn relative_seeks_are_measured_from_what_has_been_heard() {
    let mut h = Harness::new(
        vec![TestTrack::wav("a", 500_000).seekable(SeekMode::InPlace)],
        FakeSinkFactory::blocking(),
    );
    play_until_queue_is_full(&mut h, "a");

    send_and_unblock(&mut h, Command::Seek(SeekTarget::Forward(secs(2))));
    let labels = h.events_until(|e| matches!(e, Event::Seeked { .. }));
    let Some(Event::Seeked { position }) = labels.last() else {
        unreachable!()
    };
    // The DAC had played one period when the seek was handled; +2 s from there (give or take the
    // frame the container rounds to).
    let expected_position = frames_to_duration(PERIOD as u64, RATE).as_nanos() + secs(2).as_nanos();
    let one_frame = frames_to_duration(1, RATE).as_nanos() + 10;
    assert!(
        position.as_nanos().abs_diff(expected_position) <= one_frame,
        "{position:?} vs {expected_position:?}"
    );

    // Going back further than the start stops at the start.
    send_and_unblock(&mut h, Command::Seek(SeekTarget::Backward(secs(60))));
    assert_eq!(
        *h.next_event(),
        Event::Seeked {
            position: Duration::zero()
        }
    );
    h.sink(0).set_blocking(false);
}

#[test]
fn seeking_past_the_end_ends_the_track_and_moves_on() {
    let mut h = Harness::new(
        vec![
            TestTrack::wav("a", 30_000).seekable(SeekMode::InPlace),
            TestTrack::pcm("b", 3_000),
        ],
        FakeSinkFactory::blocking(),
    );
    play_until_queue_is_full(&mut h, "a");

    seek_to(&mut h, secs(60));
    assert_eq!(
        h.labels_until(is_stopped),
        [
            "state:Playing",
            "ended:a:Completed",
            "state:Loading",
            "started:b",
            "state:Playing",
            "ended:b:Completed",
            "state:Loading",
            "exhausted",
            "state:Stopped"
        ]
    );
}

#[test]
fn a_track_that_cannot_seek_rejects_the_request_and_keeps_playing() {
    let frames = 30_000;
    let mut h = Harness::new(
        vec![TestTrack::pcm("a", frames)],
        FakeSinkFactory::blocking(),
    );
    play_until_queue_is_full(&mut h, "a");

    seek_to(&mut h, secs(1));
    assert_eq!(
        h.labels_until(|e| matches!(e, Event::SeekRejected { .. })),
        ["state:Playing", "seek-rejected:this track can't be seeked"]
    );
    assert_eq!(h.sink(0).flush_count(), 0, "a rejected seek touches nothing");

    h.sink(0).set_blocking(false);
    h.labels_until(is_stopped);
    assert_eq!(
        h.sink(0).played(),
        ramp(frames),
        "the track played on undisturbed"
    );
}

#[test]
fn seeking_with_nothing_to_seek_in_is_rejected() {
    let mut h = Harness::new(
        vec![TestTrack::pcm("slow", 1_000).slow(Duration::from_millis(300))],
        FakeSinkFactory::autoplay(),
    );
    h.send(Command::Seek(SeekTarget::Absolute(secs(1))));
    assert_eq!(
        *h.next_event(),
        Event::SeekRejected {
            reason: "nothing is playing".into()
        }
    );

    h.play("slow"); // still loading: no position to seek from either
    assert_eq!(*h.next_event(), Event::StateChanged(State::Loading));
    h.send(Command::Seek(SeekTarget::Absolute(secs(1))));
    assert_eq!(
        *h.next_event(),
        Event::SeekRejected {
            reason: "nothing is playing".into()
        }
    );
}

#[test]
fn a_forward_only_stream_skips_ahead_but_refuses_to_go_back() {
    let frames = 200_000;
    let mut h = Harness::new(
        vec![TestTrack::wav("a", frames).seekable(SeekMode::ForwardOnly)],
        FakeSinkFactory::blocking(),
    );
    play_until_queue_is_full(&mut h, "a");

    seek_to(&mut h, secs(1));
    assert_eq!(
        h.labels_until(|e| matches!(e, Event::Seeked { .. })),
        ["state:Playing", "seeked:1s"]
    );

    // Back to before the point it has already decoded up to: impossible on this stream.
    seek_to(&mut h, Duration::from_millis(500));
    let rejected = h.next_event();
    assert!(
        matches!(&rejected, Event::SeekRejected { reason } if reason.contains("only seek forward")),
        "{rejected:?}"
    );

    seek_to(&mut h, secs(2));
    assert_eq!(*h.next_event(), Event::Seeked { position: secs(2) });

    h.sink(0).set_blocking(false);
    h.labels_until(is_stopped);
    assert!(
        ends_with(&h.sink(0).played(), &wav_from(88_200, frames)),
        "lands on exactly 2 s"
    );
}

#[test]
fn forward_seeks_in_a_row_compose() {
    let frames = 200_000;
    let mut h = Harness::new(
        vec![TestTrack::wav("a", frames).seekable(SeekMode::ForwardOnly)],
        FakeSinkFactory::blocking(),
    );
    play_until_queue_is_full(&mut h, "a");

    // Sent together, so the second arrives before the decoder has dropped what the first asked.
    h.send(Command::Seek(SeekTarget::Absolute(secs(1))));
    h.send(Command::Seek(SeekTarget::Absolute(secs(2))));
    h.sink(0).advance(PERIOD);
    let seeks: Vec<&Event> =
        h.events_until(|e| matches!(e, Event::Seeked { position } if *position == secs(2)));
    assert!(
        seeks
            .iter()
            .any(|e| **e == Event::Seeked { position: secs(1) })
    );

    h.sink(0).set_blocking(false);
    h.labels_until(is_stopped);
    assert!(ends_with(&h.sink(0).played(), &wav_from(88_200, frames)));
}

#[test]
fn a_stream_that_cannot_rewind_is_reopened_at_the_target_and_lands_on_the_exact_frame() {
    let frames = 100_000;
    // 0.5 s segments, and a target of 1.2 s that falls inside the third one.
    let mut h = Harness::new(
        vec![TestTrack::segmented("a", frames, 22_050)],
        FakeSinkFactory::blocking(),
    );
    play_until_queue_is_full(&mut h, "a");

    seek_to(&mut h, Duration::from_millis(1_200));
    assert_eq!(
        h.labels_until(|e| matches!(e, Event::Seeked { .. })),
        ["state:Playing", "state:Seeking", "seeked:1.2s"]
    );
    assert_eq!(
        *h.next_event(),
        Event::StateChanged(State::Playing),
        "audio resumes without a new track starting"
    );

    h.sink(0).set_blocking(false);
    let labels = h.labels_until(is_stopped);
    assert_eq!(
        labels,
        [
            "ended:a:Completed",
            "state:Loading",
            "exhausted",
            "state:Stopped"
        ]
    );
    assert!(
        ends_with(&h.sink(0).played(), &wav_from(52_920, frames)),
        "starts exactly at 1.2 s, not at the segment boundary"
    );
}

#[test]
fn while_a_seek_reopens_the_track_the_position_is_already_the_target() {
    let track = TestTrack::segmented("a", 100_000, 22_050).slow(Duration::from_millis(300));
    let mut h = Harness::new(vec![track], FakeSinkFactory::blocking());
    play_until_queue_is_full(&mut h, "a");

    seek_to(&mut h, Duration::from_millis(1_200));
    h.wait_until("the engine is reopening the track", |h| {
        h.status().state == State::Seeking
    });
    let status = h.status();
    assert_eq!(status.position, Duration::from_millis(1_200));
    assert!(
        status.track.is_some(),
        "the track is known while it is reopened"
    );

    h.wait_until("playing again", |h| {
        h.status().state == State::Playing
    });
    h.sink(0).set_blocking(false);
}

#[test]
fn a_seek_while_paused_stays_paused_and_resumes_at_the_target() {
    let frames = 100_000;
    let mut h = Harness::new(
        vec![TestTrack::segmented("a", frames, 22_050)],
        FakeSinkFactory::blocking(),
    );
    play_until_queue_is_full(&mut h, "a");
    send_and_unblock(&mut h, Command::Pause);
    h.events_until(|e| matches!(e, Event::StateChanged(State::Paused)));

    h.send(Command::Seek(SeekTarget::Absolute(Duration::from_millis(
        1_200,
    ))));
    assert_eq!(
        h.labels_until(|e| matches!(e, Event::StateChanged(State::Paused))),
        ["state:Seeking", "seeked:1.2s", "state:Paused"]
    );
    h.assert_quiet_for(Duration::from_millis(100));
    assert_eq!(h.sink(0).queued_frames(), 0, "nothing is written while paused");

    h.send(Command::Resume);
    assert_eq!(*h.next_event(), Event::StateChanged(State::Playing));
    h.sink(0).set_blocking(false);
    h.labels_until(is_stopped);
    assert!(ends_with(&h.sink(0).played(), &wav_from(52_920, frames)));
}

#[test]
fn a_new_track_request_during_a_reopening_seek_wins() {
    let slow = TestTrack::segmented("a", 100_000, 22_050).slow(Duration::from_millis(300));
    let mut h = Harness::new(
        vec![slow, TestTrack::pcm("b", 2_000)],
        FakeSinkFactory::blocking(),
    );
    play_until_queue_is_full(&mut h, "a");

    seek_to(&mut h, Duration::from_millis(1_200));
    h.wait_until("the engine is reopening the track", |h| {
        h.status().state == State::Seeking
    });
    h.play("b");

    let labels = h.labels_until(is_stopped);
    let tail = &labels[labels
        .iter()
        .position(|l| l == "ended:a:Interrupted")
        .unwrap()..];
    assert_eq!(
        tail,
        [
            "ended:a:Interrupted",
            "state:Loading",
            "started:b",
            "state:Playing",
            "ended:b:Completed",
            "state:Loading",
            "exhausted",
            "state:Stopped"
        ]
    );
    // Long enough for the abandoned reopening to have arrived, had it not been superseded.
    h.assert_quiet_for(Duration::from_millis(400));
}

#[test]
fn a_seek_whose_reopening_fails_stops_the_engine_with_an_error() {
    let track = TestTrack::segmented("a", 100_000, 22_050).failing_reopen();
    let mut h = Harness::new(vec![track], FakeSinkFactory::blocking());
    play_until_queue_is_full(&mut h, "a");

    seek_to(&mut h, Duration::from_millis(1_200));
    assert_eq!(
        h.labels_until(is_stopped),
        [
            "state:Playing",
            "state:Seeking",
            "seeked:1.2s",
            "error:the connection dropped while reopening the track",
            "ended:a:Failed",
            "state:Stopped"
        ]
    );
    assert_eq!(h.status().state, State::Stopped);
}

// ---- handing the audio device back ---------------------------------------------------------

fn is_released(event: &Event) -> bool {
    matches!(event, Event::OutputReleased { .. })
}

fn is_paused(event: &Event) -> bool {
    matches!(event, Event::StateChanged(State::Paused))
}

#[test]
fn releasing_pauses_closes_the_device_and_gives_the_card_back() {
    let mut h = Harness::new(
        vec![TestTrack::pcm("a", 30_000)],
        FakeSinkFactory::blocking(),
    );
    play_until_queue_is_full(&mut h, "a");
    assert_eq!(h.status().output, OutputState::Open);

    send_and_unblock(&mut h, Command::Release);
    assert_eq!(
        h.labels_until(is_released),
        ["state:Playing", "state:Paused", "released:-:Command"],
        "paused first, then the device is handed back"
    );
    assert_eq!(h.outputs[0].release_count(), 1);
    let status = h.status();
    assert_eq!(
        (status.state, status.output),
        (State::Paused, OutputState::Released { by: None })
    );
    assert!(status.track.is_some(), "the track is kept");
    assert_eq!(h.outputs[0].handles().len(), 1, "nothing was reopened");
}

#[test]
fn what_was_heard_is_the_position_after_releasing_and_nothing_is_lost_on_resuming() {
    let frames = 30_000;
    let mut h = Harness::new(
        vec![TestTrack::pcm("a", frames)],
        FakeSinkFactory::blocking(),
    );
    release_mid_track(&mut h, "a");

    let heard_frames = h.sink(0).played().len() / 2;
    assert!(
        h.sink(0).queued_frames() > 0,
        "the test needs audio in the device that was not heard"
    );
    assert_eq!(
        h.status().position,
        frames_to_duration(heard_frames as u64, 48_000)
    );

    h.send(Command::Resume);
    assert_eq!(
        h.labels_until(is_playing),
        ["acquired", "state:Playing"]
    );
    assert_eq!(h.outputs[0].handles().len(), 2, "the device was opened again");
    assert_eq!(h.status().output, OutputState::Open);

    h.sink(1).set_blocking(false);
    h.labels_until(is_stopped);
    assert_eq!(
        played_on_all(&h),
        ramp(frames),
        "no sample lost or repeated across the release"
    );
}

#[test]
fn a_pause_that_was_already_in_place_can_be_released_too() {
    let frames = 30_000;
    let mut h = Harness::new(
        vec![TestTrack::pcm("a", frames)],
        FakeSinkFactory::blocking(),
    );
    play_until_queue_is_full(&mut h, "a");
    send_and_unblock(&mut h, Command::Pause);
    h.events_until(is_paused);

    h.send(Command::Release);
    h.events_until(is_released);
    h.send(Command::Resume);
    h.events_until(is_playing);

    h.sink(1).set_blocking(false);
    h.labels_until(is_stopped);
    assert_eq!(played_on_all(&h), ramp(frames));
}

#[test]
fn a_stream_that_cannot_rewind_continues_exactly_too() {
    let frames = 60_000;
    let mut h = Harness::new(
        vec![TestTrack::wav("a", frames).seekable(SeekMode::ForwardOnly)],
        FakeSinkFactory::blocking(),
    );
    release_mid_track(&mut h, "a");

    h.send(Command::Resume);
    h.events_until(is_playing);
    h.sink(1).set_blocking(false);
    h.labels_until(is_stopped);
    assert_eq!(
        played_on_all(&h),
        wav_from(0, frames),
        "the unheard audio came from memory, not from the stream"
    );
}

#[test]
fn a_release_before_the_track_is_ready_starts_it_paused_and_lets_go() {
    let mut h = Harness::new(
        vec![TestTrack::pcm("a", 10_000).slow(Duration::from_millis(150))],
        FakeSinkFactory::blocking(),
    );
    h.play("a");
    h.send(Command::Release);

    assert_eq!(
        h.labels_until(is_released),
        [
            "state:Loading",
            "started:a",
            "state:Paused",
            "released:-:Command"
        ]
    );
    assert_eq!(h.outputs[0].release_count(), 1);
    assert_eq!(h.status().position, Duration::zero());
}

#[test]
fn releasing_with_nothing_loaded_does_nothing() {
    let mut h = Harness::new(
        vec![TestTrack::pcm("a", 1_000)],
        FakeSinkFactory::autoplay(),
    );
    h.send(Command::Release);
    h.assert_quiet_for(Duration::from_millis(100));
    assert_eq!(h.status(), stopped_status());
}

#[test]
fn stopping_while_released_clears_the_output_state() {
    let mut h = Harness::new(
        vec![TestTrack::pcm("a", 30_000)],
        FakeSinkFactory::blocking(),
    );
    release_mid_track(&mut h, "a");

    h.send(Command::Stop);
    h.events_until(is_stopped);
    assert_eq!(h.status().output, OutputState::Closed);
}

#[test]
fn a_new_track_while_released_takes_the_device_again() {
    let mut h = Harness::new(
        vec![TestTrack::pcm("a", 30_000), TestTrack::pcm("b", 30_000)],
        FakeSinkFactory::blocking(),
    );
    release_mid_track(&mut h, "a");

    h.send(Command::Next);
    assert_eq!(
        h.labels_until(is_playing),
        [
            "ended:a:Interrupted",
            "state:Loading",
            "acquired",
            "started:b",
            "state:Playing"
        ]
    );
    assert_eq!(h.status().output, OutputState::Open);
    h.sink(1).set_blocking(false);
}

#[test]
fn shutting_down_while_released_does_not_hang() {
    let mut h = Harness::new(
        vec![TestTrack::pcm("a", 30_000)],
        FakeSinkFactory::blocking(),
    );
    release_mid_track(&mut h, "a");
    h.shutdown();
}

#[test]
fn a_seek_while_released_moves_the_position_and_resumes_from_there() {
    let frames = 100_000;
    let mut h = Harness::new(
        vec![TestTrack::pcm("a", frames).seekable(SeekMode::InPlace)],
        FakeSinkFactory::blocking(),
    );
    release_mid_track(&mut h, "a");

    h.send(Command::Seek(SeekTarget::Absolute(secs(1))));
    h.events_until(|e| matches!(e, Event::Seeked { .. }));
    let status = h.status();
    assert_eq!(
        (status.state, status.output, status.position),
        (State::Paused, OutputState::Released { by: None }, secs(1))
    );

    h.send(Command::Resume);
    h.events_until(is_playing);
    h.sink(1).set_blocking(false);
    h.labels_until(is_stopped);
    assert_eq!(
        h.sink(1).played(),
        ramp(frames)[48_000 * 2..],
        "playback resumes exactly at the target"
    );
}

#[test]
fn a_resume_the_holder_refuses_stays_paused_and_can_be_retried() {
    let frames = 30_000;
    let mut h = Harness::new(
        vec![TestTrack::pcm("a", frames)],
        FakeSinkFactory::blocking(),
    );
    release_mid_track(&mut h, "a");

    h.outputs[0]
        .fail_next_open("the DAC hw:2,0 is held by jackd, which refused to release it".to_string());
    h.send(Command::Resume);
    let Event::Error { message } = h.next_event() else {
        panic!("expected the refusal to be reported")
    };
    assert!(message.contains("jackd"), "{message}");
    h.assert_quiet_for(Duration::from_millis(100));
    let status = h.status();
    assert_eq!(
        (status.state, status.output),
        (State::Paused, OutputState::Released { by: None })
    );
    assert!(
        status.track.is_some(),
        "the track and position survive a refusal"
    );

    h.send(Command::Resume);
    h.events_until(is_playing);
    h.sink(1).set_blocking(false);
    h.labels_until(is_stopped);
    assert_eq!(
        played_on_all(&h),
        ramp(frames),
        "the retry continues exactly where the listener was"
    );
}

// ---- when the pause lasts -----------------------------------------------------------------

fn with_release_after(delay: Option<Duration>) -> Options {
    Options {
        release_after_pause: delay,
        ..Options::default()
    }
}

#[test]
fn a_long_enough_pause_gives_the_device_back() {
    let mut h = Harness::with_options(
        vec![TestTrack::pcm("a", 30_000)],
        FakeSinkFactory::blocking(),
        with_release_after(Some(Duration::from_millis(80))),
    );
    play_until_queue_is_full(&mut h, "a");
    send_and_unblock(&mut h, Command::Pause);
    assert_eq!(
        h.labels_until(is_released),
        ["state:Playing", "state:Paused", "released:-:Idle"]
    );
    assert_eq!(h.outputs[0].release_count(), 1);
    assert_eq!(h.status().output, OutputState::Released { by: None });
}

#[test]
fn resuming_before_the_time_is_up_keeps_the_device() {
    let mut h = Harness::with_options(
        vec![TestTrack::pcm("a", 30_000)],
        FakeSinkFactory::blocking(),
        with_release_after(Some(Duration::from_millis(400))),
    );
    play_until_queue_is_full(&mut h, "a");
    send_and_unblock(&mut h, Command::Pause);
    h.events_until(is_paused);
    h.sleep(Duration::from_millis(100));
    h.send(Command::Resume);
    h.events_until(is_playing);

    h.sleep(Duration::from_millis(500));
    assert_eq!(h.outputs[0].release_count(), 0);
    assert_eq!(h.status().output, OutputState::Open);
    h.sink(0).set_blocking(false);
}

#[test]
fn zero_gives_the_device_back_on_every_pause() {
    let mut h = Harness::with_options(
        vec![TestTrack::pcm("a", 30_000)],
        FakeSinkFactory::blocking(),
        with_release_after(Some(Duration::zero())),
    );
    play_until_queue_is_full(&mut h, "a");
    send_and_unblock(&mut h, Command::Pause);
    h.events_until(is_released);
}

#[test]
fn without_a_time_a_pause_keeps_the_device() {
    let mut h = Harness::with_options(
        vec![TestTrack::pcm("a", 30_000)],
        FakeSinkFactory::blocking(),
        with_release_after(None),
    );
    play_until_queue_is_full(&mut h, "a");
    send_and_unblock(&mut h, Command::Pause);
    h.events_until(is_paused);
    h.assert_quiet_for(Duration::from_millis(300));
    assert_eq!(h.outputs[0].release_count(), 0);
    h.sink(0).set_blocking(false);
}

// ---- another program asks for the card ----------------------------------------------------

#[test]
fn a_program_that_matters_more_gets_the_device_and_playback_pauses() {
    let frames = 30_000;
    let mut h = Harness::new(
        vec![TestTrack::pcm("a", frames)],
        FakeSinkFactory::blocking(),
    );
    play_until_queue_is_full(&mut h, "a");

    assert_eq!(h.request_release("jackd", 99), None);
    h.sink(0).advance(PERIOD);
    assert!(h.answer(), "the request is granted");

    assert_eq!(
        h.labels_until(is_released),
        ["state:Playing", "state:Paused", "released:jackd:Requested"]
    );
    assert_eq!(h.outputs[0].release_count(), 1);
    assert_eq!(
        h.status().output,
        OutputState::Released {
            by: Some("jackd".into())
        }
    );

    h.assert_quiet_for(Duration::from_millis(100)); // and it does not start again by itself
    h.send(Command::Resume);
    h.events_until(is_playing);
    h.sink(1).set_blocking(false);
    h.labels_until(is_stopped);
    assert_eq!(played_on_all(&h), ramp(frames));
}

#[test]
fn a_program_that_matters_no_more_than_phonia_is_refused_and_playback_carries_on() {
    let mut h = Harness::new(
        vec![TestTrack::pcm("a", 30_000)],
        FakeSinkFactory::blocking(),
    );
    play_until_queue_is_full(&mut h, "a");

    for priority in [-20, 0, PRIORITY] {
        assert_eq!(h.request_release("pulseaudio", priority), Some(false), "priority {priority}");
    }
    assert_eq!(h.status().state, State::Playing);
    assert_eq!(h.outputs[0].release_count(), 0);
    h.sink(0).set_blocking(false);
}

#[test]
fn a_request_while_the_track_loads_is_answered_once_the_device_was_given_up() {
    let mut h = Harness::new(
        vec![TestTrack::pcm("a", 10_000).slow(Duration::from_millis(150))],
        FakeSinkFactory::blocking(),
    );
    h.play("a");
    assert_eq!(h.request_release("jackd", 99), None);
    assert!(h.answer());
    assert_eq!(
        h.outputs[0].release_count(),
        1,
        "the card had been given back by the time the answer came"
    );
    assert_eq!(
        h.status().output,
        OutputState::Released {
            by: Some("jackd".into())
        }
    );
}

#[test]
fn a_request_while_stopped_is_granted_at_once() {
    let mut h = Harness::new(vec![], FakeSinkFactory::autoplay());
    assert_eq!(h.request_release("jackd", 99), None);
    assert!(h.answer());
}

#[test]
fn keeping_the_same_format_or_changing_it_never_hands_the_card_back_between_tracks() {
    let mut h = Harness::new(
        vec![
            TestTrack::pcm_with("a", 2_000, SPEC_48K),
            TestTrack::pcm_with("b", 30_000, SPEC_96K),
        ],
        FakeSinkFactory::blocking(),
    );
    h.play("a");
    h.events_until(is_started_label("started:b"));
    wait_until_the_writer_is_blocked(&mut h, 1);
    assert_eq!(h.outputs[0].handles().len(), 2);
    assert_eq!(
        h.outputs[0].release_count(),
        0,
        "a new sink for a new format keeps the reservation"
    );

    h.sink(1).set_blocking(false);
    h.labels_until(is_stopped);
    assert_eq!(
        h.outputs[0].release_count(),
        1,
        "the card goes back once, when playback ends"
    );
}

// ---- switching the output ------------------------------------------------------------------

#[test]
fn switching_the_output_mid_track_carries_on_exactly_on_the_new_one() {
    let frames = 30_000;
    let mut h = Harness::new(
        vec![TestTrack::pcm("a", frames)],
        FakeSinkFactory::blocking(),
    );
    play_until_queue_is_full(&mut h, "a");
    switch_output(&mut h, FakeSinkFactory::blocking());
    h.wait_until("the new output is open and playing", |h| {
        h.outputs[1].handles().len() == 1 && h.status().state == State::Playing
    });
    assert_eq!(h.outputs[0].release_count(), 1, "the old output was given back");
    assert_eq!(h.outputs[0].handles().len(), 1, "and never reopened");

    h.outputs[1].handle_mut(0).set_blocking(false);
    h.labels_until(is_stopped);
    let mut played = h.sink(0).played();
    played.extend(h.outputs[1].handles()[0].played());
    assert_eq!(
        played,
        ramp(frames),
        "no sample lost or repeated across the switch"
    );
}

#[test]
fn switching_while_paused_opens_the_new_output_only_on_resume() {
    let frames = 30_000;
    let mut h = Harness::new(
        vec![TestTrack::pcm("a", frames)],
        FakeSinkFactory::blocking(),
    );
    play_until_queue_is_full(&mut h, "a");
    send_and_unblock(&mut h, Command::Pause);
    h.events_until(is_paused);
    h.set_output(FakeSinkFactory::blocking());
    h.switched().unwrap();
    assert!(
        h.outputs[1].handles().is_empty(),
        "nothing is opened while paused"
    );
    assert_eq!(h.status().state, State::Paused);

    h.send(Command::Resume);
    h.events_until(is_playing);
    h.outputs[1].handle_mut(0).set_blocking(false);
    h.labels_until(is_stopped);
    let mut played = h.sink(0).played();
    played.extend(h.outputs[1].handles()[0].played());
    assert_eq!(played, ramp(frames));
}

#[test]
fn a_new_output_that_cannot_be_opened_leaves_the_engine_paused_and_a_resume_retries() {
    let frames = 30_000;
    let mut h = Harness::new(
        vec![TestTrack::pcm("a", frames)],
        FakeSinkFactory::blocking(),
    );
    play_until_queue_is_full(&mut h, "a");
    let mut second = FakeSinkFactory::blocking();
    second.fail_next_open("the speaker is not connected".to_string());

    h.set_output(second);
    h.sink(0).advance(PERIOD);
    let error = h.switched().unwrap_err();
    assert!(error.contains("not connected"), "{error}");

    let status = h.status();
    assert_eq!(status.state, State::Paused, "still on the track, paused");
    assert!(status.track.is_some());

    h.send(Command::Resume);
    h.wait_until("playing on the new output", |h| {
        h.outputs[1].handles().len() == 1 && h.status().state == State::Playing
    });
    h.outputs[1].handle_mut(0).set_blocking(false);
    h.labels_until(is_stopped);
    let mut played = h.sink(0).played();
    played.extend(h.outputs[1].handles()[0].played());
    assert_eq!(
        played,
        ramp(frames),
        "the retry continues exactly where the listener was"
    );
}

#[test]
fn switching_while_stopped_uses_the_new_output_for_the_next_track() {
    let mut h = Harness::new(
        vec![TestTrack::pcm("a", 2_000)],
        FakeSinkFactory::autoplay(),
    );
    h.set_output(FakeSinkFactory::autoplay());
    h.switched().unwrap();
    assert_eq!(h.outputs[0].release_count(), 1);

    h.play("a");
    h.labels_until(is_stopped);
    assert!(
        h.outputs[0].handles().is_empty(),
        "the first output was never used"
    );
    assert_eq!(h.outputs[1].handles()[0].played(), ramp(2_000));
}

#[test]
fn the_new_output_answers_other_programs_that_ask_for_the_device() {
    let mut h = Harness::new(
        vec![TestTrack::pcm("a", 30_000)],
        FakeSinkFactory::blocking(),
    );
    play_until_queue_is_full(&mut h, "a");
    switch_output(&mut h, FakeSinkFactory::blocking());
    h.wait_until("playing on the new output", |h| h.outputs[1].handles().len() == 1);

    assert_eq!(h.request_release("jackd", 99), None);
    h.outputs[1].handle_mut(0).advance(PERIOD);
    assert!(
        h.answer(),
        "the handler was installed on the new factory"
    );
}

#[test]
fn a_lost_output_pauses_on_the_track_and_a_resume_carries_on_exactly() {
    let frames = 30_000;
    let mut h = Harness::new(
        vec![TestTrack::pcm("a", frames)],
        FakeSinkFactory::blocking(),
    );
    play_until_queue_is_full(&mut h, "a");

    h.lose_output("the speaker switched off");
    let events = h.events_until(is_released);
    let labels: Vec<String> = events.iter().map(|event| label(event)).collect();
    assert!(
        labels
            .iter()
            .any(|l| l.starts_with("error:") && l.contains("speaker switched off")),
        "{labels:?}"
    );
    assert_eq!(labels.last().unwrap(), "released:-:Lost");
    let status = h.status();
    assert_eq!(
        (status.state, status.output),
        (State::Paused, OutputState::Released { by: None })
    );
    assert!(status.track.is_some(), "the track is kept, not failed");

    h.assert_quiet_for(Duration::from_millis(100)); // and it does not resume by itself
    h.send(Command::Resume);
    h.events_until(is_playing);
    h.sink(1).set_blocking(false);
    h.labels_until(is_stopped);
    assert_eq!(
        played_on_all(&h),
        ramp(frames),
        "what the dead output never played is played again"
    );
}

#[test]
fn a_lost_output_that_is_still_gone_when_resuming_stays_paused_with_the_reason() {
    let mut h = Harness::new(
        vec![TestTrack::pcm("a", 30_000)],
        FakeSinkFactory::blocking(),
    );
    play_until_queue_is_full(&mut h, "a");
    h.lose_output("the speaker switched off");
    h.events_until(is_released);

    h.outputs[0].fail_next_open("the output 'speaker' is not there".to_string());
    h.send(Command::Resume);
    let Event::Error { message } = h.next_event() else {
        panic!("expected the reason")
    };
    assert!(message.contains("not there"), "{message}");
    assert_eq!(h.status().state, State::Paused);
}

#[test]
fn a_failed_flush_is_only_reported() {
    assert_eq!(
        flush_failed("EIO"),
        Event::Error { message: "flushing the audio output: EIO".to_string() }
    );
}

#[test]
fn a_sink_that_takes_nothing_drops_the_rest_of_the_chunk_instead_of_spinning() {
    let mut h = Harness::new(vec![TestTrack::pcm("a", 30_000)], FakeSinkFactory::blocking());
    play_until_queue_is_full(&mut h, "a");
    let seen = h.seen();
    h.blocked = false;
    h.thread.written(Ok(0), seen);
    assert_eq!(h.thread.play_step(), Next::Read);
}

#[test]
fn a_device_that_fails_ends_the_track_with_the_error() {
    let mut h = Harness::new(vec![TestTrack::pcm("a", 30_000)], FakeSinkFactory::blocking());
    play_until_queue_is_full(&mut h, "a");
    let seen = h.seen();
    h.blocked = false;
    h.thread.written(Err(SinkFailure::Other("EIO".to_string())), seen);
    h.settle();
    assert_eq!(
        h.labels_until(is_stopped),
        ["state:Playing", "error:EIO", "ended:a:Failed", "state:Stopped"]
    );
}
