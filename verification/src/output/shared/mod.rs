//! Shared mode: playing through the desktop's sound server (PipeWire, or PulseAudio) instead of
//! taking a sound card for phonia alone.
//!
//! Nothing here is bit-perfect: the server mixes phonia with everything else, converts and, unless
//! the sink runs at the source's rate, resamples. What it buys is that phonia can use outputs that
//! are not `hw:` cards (Bluetooth, HDMI, the laptop's speakers), share a card with other programs,
//! and be moved between them.
//!
//! [`SharedSink`] is the bookkeeping of a stream on the server. The few calls that reach the server
//! (pause, flush, how much it holds) are made by whoever holds the connection.

pub mod pulse;
pub mod ring;
pub mod sharing;

use self::ring::{Ring, RingModel, RingWrite};
use super::OutputGone;
use crate::decode::SourceSpec;
use crate::time::Duration;
use vstd::prelude::*;

verus! {

/// How long a drain waits for the server to play what it was given, in nanoseconds.
pub const DRAIN_SLACK: u128 = 10_000_000_000;

/// How often it looks, in nanoseconds.
pub const DRAIN_POLL: u128 = 20_000_000;

/// What the server says about a stream.
#[derive(Debug, Clone, Copy, PartialEq, Eq, Structural)]
pub struct Timing {
    /// Bytes the server holds that have not reached the sink yet.
    pub queued_bytes: u64,
    /// Bytes the stream has been given since it began.
    pub write_bytes: u64,
    /// Bytes the sink has taken from the stream since it began.
    pub read_bytes: u64,
    /// How long audio takes from the sink's input to the speaker.
    pub sink_latency: Duration,
}

impl Default for Timing {
    fn default() -> (r: Self)
        ensures
            r == (Timing {
                queued_bytes: 0,
                write_bytes: 0,
                read_bytes: 0,
                sink_latency: Duration { nanos: 0 },
            }),
    {
        Timing { queued_bytes: 0, write_bytes: 0, read_bytes: 0, sink_latency: Duration::zero() }
    }
}

/// A call that reaches the sound server.
#[derive(Debug, Clone, Copy, PartialEq, Eq, Structural)]
pub enum Call {
    /// Stops (or restarts) the server taking audio from the stream. What it holds is kept.
    Cork(bool),
    /// Throws away what the server holds.
    Flush,
}

/// What a drain does next.
#[derive(Debug, Clone, Copy, PartialEq, Eq, Structural)]
pub enum DrainStep {
    /// Look again in a moment.
    Wait,
    /// Everything left the server: wait this long until it is heard.
    Done(Duration),
}

/// Why a drain ended early.
#[derive(Debug, PartialEq, Eq)]
pub enum DrainError {
    /// The output is gone.
    Gone(OutputGone),
    /// The server did not say how the stream is, with why.
    Failed(String),
    /// It took too long.
    Late(String),
}

/// A stream on the sound server.
pub struct SharedSink {
    spec: SourceSpec,
    silence_frames: u64,
    silence_end: u64,
    needs_silence: bool,
    server_target_frames: u64,
    reported: bool,
}

/// A stream on the sound server at one moment.
#[verifier::ext_equal]
pub struct StreamModel {
    /// The format of the audio.
    pub spec: SourceSpec,
    /// How much silence goes in front of audio that follows a stop.
    pub silence_frames: nat,
    /// Where, counted in frames from the start of the stream, the latest silence ends: up to there
    /// what the server plays is not audio the engine wrote, and does not count as yet to be heard.
    pub silence_end: nat,
    /// The server drops the first stretch of audio after the stream starts, restarts after running
    /// dry, or is flushed. Silence goes in first so that it is what gets dropped.
    pub needs_silence: bool,
    /// What the server is asked to hold.
    pub target: nat,
    /// Whether what the sink is doing was reported.
    pub reported: bool,
}

impl View for SharedSink {
    type V = StreamModel;

    closed spec fn view(&self) -> StreamModel {
        StreamModel {
            spec: self.spec,
            silence_frames: self.silence_frames as nat,
            silence_end: self.silence_end as nat,
            needs_silence: self.needs_silence,
            target: self.server_target_frames as nat,
            reported: self.reported,
        }
    }
}

impl StreamModel {
    /// How many bytes a frame has.
    pub open spec fn frame(self) -> nat {
        self.spec.channels as nat * 4
    }

    /// What holds of a stream at every moment.
    pub open spec fn wf(self) -> bool {
        &&& self.spec.channels > 0
        &&& self.silence_frames <= u32::MAX
        &&& self.target <= u32::MAX
        &&& self.silence_frames * self.frame() <= usize::MAX
    }

    /// Silence was put in front of what is about to be written after a stop, while `waiting` frames
    /// were in the ring. A server that does not say what it was given leaves the end of the silence
    /// as it was.
    pub open spec fn silenced(self, waiting: nat, timing: Option<Timing>) -> StreamModel {
        StreamModel {
            silence_end: match timing {
                Some(timing) => timing.write_bytes as nat / self.frame() + waiting
                    + self.silence_frames,
                None => self.silence_end,
            },
            needs_silence: false,
            ..self
        }
    }

    /// Frames that have not been heard, while `waiting` frames are in the ring, and `latency` frames
    /// are on their way from the sink to the speaker. Silence that is still to play does not count.
    pub open spec fn delay(self, waiting: nat, timing: Option<Timing>, latency: nat) -> nat {
        match timing {
            None => waiting,
            Some(timing) => {
                let unplayed = waiting + timing.queued_bytes as nat / self.frame();
                let played = timing.read_bytes as nat / self.frame();
                let silence = if self.silence_end > played {
                    (self.silence_end - played) as nat
                } else {
                    0
                };
                (if unplayed > silence {
                    (unplayed - silence) as nat
                } else {
                    0
                }) + latency
            },
        }
    }
}

impl SharedSink {
    /// What holds of a stream at every moment.
    pub open spec fn wf(self) -> bool {
        self@.wf()
    }

    /// Whether `ring` is one for this stream.
    pub open spec fn feeds_from(self, ring: Ring) -> bool {
        ring.wf() && ring.frame() == self@.frame()
    }

    /// A stream whose ring already has the silence for its start (`silence_frames` of it) in it.
    pub fn new(spec: SourceSpec, silence_frames: u64, server_target_frames: u64) -> (r: Self)
        requires
            spec.channels > 0,
            silence_frames <= u32::MAX,
            server_target_frames <= u32::MAX,
            silence_frames * (spec.channels * 4) <= usize::MAX,
        ensures
            r.wf(),
            r@ == (StreamModel {
                spec,
                silence_frames: silence_frames as nat,
                silence_end: silence_frames as nat,
                needs_silence: false,
                target: server_target_frames as nat,
                reported: false,
            }),
    {
        SharedSink {
            spec,
            silence_frames,
            silence_end: silence_frames,
            needs_silence: false,
            server_target_frames,
            reported: false,
        }
    }

    /// The format of the audio.
    pub fn spec(&self) -> (r: SourceSpec)
        ensures
            r == self@.spec,
    {
        self.spec
    }

    /// What can be in flight at most (the ring and what the server holds), plus a second for the
    /// latency of the sink, so that the engine keeps enough to replay all of it.
    pub fn capacity_frames(&self, ring: &Ring) -> (r: u64)
        requires
            self.wf(),
            self.feeds_from(*ring),
        ensures
            r == ring.capacity() + self@.target + self@.spec.sample_rate,
    {
        proof {
            assert(ring.room() / ring.frame() <= ring.room() / 4) by (nonlinear_arith)
                requires
                    ring.frame() >= 4,
            ;
        }
        ring.capacity_frames() as u64 + self.server_target_frames + self.spec.sample_rate as u64
    }

    /// Whether what the server says of the stream is needed for the next write.
    pub fn asks_timing(&self) -> (r: bool)
        ensures
            r == self@.needs_silence,
    {
        self.needs_silence
    }

    fn frame_bytes(&self) -> (r: u64)
        ensures
            r == self@.frame(),
    {
        self.spec.channels as u64 * 4
    }

    /// Puts silence in front of what is about to be written after a stop, if any is needed. Returns
    /// whether the server's side has to be told.
    pub fn begin_write(&mut self, ring: &mut Ring, timing: Option<Timing>) -> (r: bool)
        requires
            old(self).wf(),
            old(self).feeds_from(*old(ring)),
        ensures
            final(self).wf(),
            final(self).feeds_from(*final(ring)),
            final(ring).sized_like(*old(ring)),
            if old(self)@.needs_silence {
                &&& r == old(ring)@.waiting
                &&& final(self)@ == old(self)@.silenced(
                    old(ring)@.bytes.len() / old(ring).frame(),
                    timing,
                )
                &&& final(ring)@ == (RingModel {
                    bytes: old(ring)@.bytes + Seq::new(
                        (old(self)@.silence_frames * old(ring).frame()) as nat,
                        |i: int| 0u8,
                    ),
                    waiting: false,
                    ..old(ring)@
                })
            } else {
                !r && final(self)@ == old(self)@ && *final(ring) == *old(ring)
            },
    {
        if !self.needs_silence {
            return false;
        }
        let waiting: u64 = ring.queued_frames() as u64;
        if let Some(timing) = timing {
            let frame: u64 = self.frame_bytes();
            proof {
                let w = timing.write_bytes as nat;
                assert(w / self@.frame() <= w / 4) by (nonlinear_arith)
                    requires
                        self@.frame() >= 4,
                ;
            }
            self.silence_end = timing.write_bytes / frame + waiting + self.silence_frames;
        }
        let wake = ring.push_silence(self.silence_frames as usize);
        self.needs_silence = false;
        wake
    }

    /// Hands a write to the ring. The second result says whether this is the moment to report what
    /// the sink is doing: when the first audio goes in.
    pub fn write(&mut self, ring: &mut Ring, samples: &[i32]) -> (r: Result<
        (RingWrite, bool),
        OutputGone,
    >)
        requires
            old(self).wf(),
            old(self).feeds_from(*old(ring)),
            !old(self)@.needs_silence,
        ensures
            final(self).wf(),
            final(self).feeds_from(*final(ring)),
            final(ring).sized_like(*old(ring)),
            ({
                let frames = old(ring).taken(samples@.len());
                let needed = frames * old(ring).frame();
                if frames == 0 {
                    &&& r matches Ok((RingWrite::Frames { frames: 0, wake: false }, false))
                    &&& final(self)@ == old(self)@
                    &&& final(ring)@ == old(ring)@
                } else if let Some(why) = old(ring)@.gone {
                    &&& r matches Err(OutputGone(w)) && w@ == why
                    &&& final(self)@ == old(self)@
                    &&& final(ring)@ == old(ring)@
                } else if old(ring)@.bytes.len() + needed > old(ring).room() {
                    &&& r matches Ok((RingWrite::Full, false))
                    &&& final(self)@ == old(self)@
                    &&& final(ring)@ == old(ring)@
                } else {
                    &&& r matches Ok((RingWrite::Frames { frames: n, wake }, report)) && n == frames
                        && wake == old(ring)@.waiting && report == !old(self)@.reported
                    &&& final(self)@ == (StreamModel { reported: true, ..old(self)@ })
                    &&& final(ring)@ == (RingModel {
                        bytes: old(ring)@.bytes + crate::output::alsa::packed_row(
                            crate::output::alsa::Format::S32LE,
                            samples@.take((frames * old(ring).per_frame()) as int),
                        ),
                        waiting: false,
                        ..old(ring)@
                    })
                }
            }),
    {
        match ring.write(samples) {
            Ok(RingWrite::Frames { frames, wake }) => {
                if frames == 0 {
                    return Ok((RingWrite::Frames { frames, wake }, false));
                }
                let report = !self.reported;
                self.reported = true;
                Ok((RingWrite::Frames { frames, wake }, report))
            },
            Ok(RingWrite::Full) => Ok((RingWrite::Full, false)),
            Err(why) => Err(why),
        }
    }

    /// Frames that have not been heard yet, given what the server says of the stream, if it does,
    /// and how many frames its latency lasts.
    pub fn delay_frames(&self, ring: &Ring, timing: Option<Timing>, latency_frames: u64) -> (r: u64)
        requires
            self.wf(),
            self.feeds_from(*ring),
            latency_frames <= u64::MAX / 2,
        ensures
            r == self@.delay(ring@.bytes.len() / ring.frame(), timing, latency_frames as nat),
    {
        let waiting: u64 = ring.queued_frames() as u64;
        let timing = match timing {
            Some(timing) => timing,
            None => {
                return waiting;
            },
        };
        let frame: u64 = self.frame_bytes();
        proof {
            let q = timing.queued_bytes as nat;
            assert(q / self@.frame() <= q / 4) by (nonlinear_arith)
                requires
                    self@.frame() >= 4,
            ;
        }
        let unplayed: u64 = waiting + timing.queued_bytes / frame;
        let silence_left: u64 = self.silence_end.saturating_sub(timing.read_bytes / frame);
        unplayed.saturating_sub(silence_left) + latency_frames
    }

    /// What to call to pause.
    pub fn pause(&self) -> (r: Vec<Call>)
        ensures
            r@ == seq![Call::Cork(true)],
    {
        let mut calls: Vec<Call> = Vec::new();
        calls.push(Call::Cork(true));
        calls
    }

    /// What to call to resume.
    pub fn resume(&self) -> (r: Vec<Call>)
        ensures
            r@ == seq![Call::Cork(false)],
    {
        let mut calls: Vec<Call> = Vec::new();
        calls.push(Call::Cork(false));
        calls
    }

    /// Throws away what waits in the ring, and says what to call to throw away what the server
    /// holds. The stream may have been corked by a pause: flushing leaves it ready for new audio.
    pub fn flush(&mut self, ring: &mut Ring) -> (r: Vec<Call>)
        requires
            old(self).wf(),
            old(self).feeds_from(*old(ring)),
        ensures
            final(self).wf(),
            final(self).feeds_from(*final(ring)),
            final(ring).sized_like(*old(ring)),
            r@ == seq![Call::Flush, Call::Cork(false)],
            final(self)@ == (StreamModel { silence_end: 0, needs_silence: true, ..old(self)@ }),
            final(ring)@ == (RingModel { bytes: Seq::empty(), ..old(ring)@ }),
    {
        ring.clear();
        // Whatever silence was left went with the flush, and the stream restarts from empty.
        self.silence_end = 0;
        self.needs_silence = true;
        let mut calls: Vec<Call> = Vec::new();
        calls.push(Call::Flush);
        calls.push(Call::Cork(false));
        calls
    }

    /// What to call before a drain: a stream that is corked would never finish.
    pub fn drain(&self) -> (r: Vec<Call>)
        ensures
            r@ == seq![Call::Cork(false)],
    {
        self.resume()
    }

    /// What a drain does next, given what the server says of the stream, or why it does not, and
    /// whether the time is up. The stream does not end: the engine writes the next track to the
    /// same sink.
    pub fn drain_step(&self, ring: &Ring, timing: Result<Timing, String>, late: bool) -> (r: Result<
        DrainStep,
        DrainError,
    >)
        requires
            self.wf(),
            self.feeds_from(*ring),
        ensures
            match (ring@.gone, timing) {
                (Some(why), _) => r matches Err(DrainError::Gone(OutputGone(w))) && w@ == why,
                (None, Err(why)) => r == Err::<DrainStep, DrainError>(DrainError::Failed(why)),
                (None, Ok(timing)) => if ring@.bytes.len() < ring.frame() && timing.queued_bytes
                    < self@.frame() {
                    r == Ok::<DrainStep, DrainError>(DrainStep::Done(timing.sink_latency))
                } else if late {
                    r matches Err(DrainError::Late(why)) && why@
                        == "the sound server did not finish playing within 10 s"@
                } else {
                    r == Ok::<DrainStep, DrainError>(DrainStep::Wait)
                },
            },
    {
        match ring.gone() {
            Some(why) => {
                return Err(DrainError::Gone(OutputGone(why)));
            },
            None => {},
        }
        let timing = match timing {
            Ok(timing) => timing,
            Err(why) => {
                return Err(DrainError::Failed(why));
            },
        };
        proof {
            let n = ring@.bytes.len();
            let frame = ring.frame();
            if n < frame {
                vstd::arithmetic::div_mod::lemma_basic_div(n as int, frame as int);
            } else {
                assert(n / frame >= 1) by (nonlinear_arith)
                    requires
                        n >= frame,
                        frame > 0,
                ;
            }
        }
        if ring.queued_frames() == 0 && timing.queued_bytes < self.frame_bytes() {
            return Ok(DrainStep::Done(timing.sink_latency));
        }
        if late {
            return Err(
                DrainError::Late("the sound server did not finish playing within 10 s".to_owned()),
            );
        }
        Ok(DrainStep::Wait)
    }

    /// Everything was heard: the stream is dry, and will restart from empty.
    pub fn drained(&mut self)
        ensures
            old(self).wf() ==> final(self).wf(),
            final(self)@ == (StreamModel { needs_silence: true, ..old(self)@ }),
    {
        self.needs_silence = true;
    }

    /// The stream ends: whatever watches the output can stop.
    pub fn close(self, ring: &mut Ring)
        requires
            old(ring).wf(),
        ensures
            final(ring).wf(),
            final(ring)@ == (RingModel { closed: true, ..old(ring)@ }),
    {
        ring.close();
    }
}

/// Silence is not audio waiting to be heard: once it went in, exactly the audio that follows it
/// counts, while the server plays up to the silence.
pub proof fn silence_is_not_waiting_to_be_heard(
    sink: StreamModel,
    waiting: nat,
    timing: Timing,
    later: Timing,
    audio: nat,
)
    requires
        sink.wf(),
        timing.write_bytes as nat / sink.frame() >= later.read_bytes as nat / sink.frame(),
        later.queued_bytes as nat / sink.frame() == timing.write_bytes as nat / sink.frame()
            - later.read_bytes as nat / sink.frame(),
    ensures
        sink.silenced(waiting, Some(timing)).delay(
            waiting + sink.silence_frames + audio,
            Some(later),
            0,
        ) == audio,
{
}

} // verus!
