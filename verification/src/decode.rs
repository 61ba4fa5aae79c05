//! What a decoder says about its source, and the arithmetic between frames and time.

use crate::text::joined;
use crate::time::{Duration, NANOS_PER_SEC};
use vstd::prelude::*;

verus! {

/// Sample format info about the decoded source (as reported by the codec), independent of
/// whatever the audio output negotiates with the hardware.
#[derive(Debug, Clone, Copy, PartialEq, Eq, Structural)]
pub struct SourceSpec {
    /// Frames per second.
    pub sample_rate: u32,
    /// Samples per frame.
    pub channels: u32,
    /// Bit depth as reported by the source codec (16 or 24 for FLAC). Decoded samples are
    /// always left-justified 32-bit integers regardless of this value.
    pub bits_per_sample: u32,
}

/// Tells a decode loop whether to keep decoding after a chunk was handed on.
#[derive(Debug, Clone, Copy, PartialEq, Eq, Structural)]
pub enum ChunkAction {
    /// Decode the next chunk.
    Continue,
    /// Stop here.
    Stop,
}

/// A sample rate to divide by: a rate of zero counts as one.
pub open spec fn rate_of(sample_rate: u32) -> nat {
    if sample_rate == 0 {
        1
    } else {
        sample_rate as nat
    }
}

/// How long `frames` frames last, in whole nanoseconds.
pub open spec fn frames_nanos(frames: nat, sample_rate: u32) -> nat {
    frames * NANOS_PER_SEC as nat / rate_of(sample_rate)
}

/// How many frames are nearest to `nanos` nanoseconds.
pub open spec fn nearest_frames(nanos: nat, sample_rate: u32) -> nat {
    (nanos * sample_rate as nat + 500_000_000) / (NANOS_PER_SEC as nat)
}

/// How long `frames` frames last at `sample_rate`, rounded down to a whole nanosecond.
pub fn frames_to_duration(frames: u64, sample_rate: u32) -> (r: Duration)
    ensures
        r@ == frames_nanos(frames as nat, sample_rate),
{
    let rate: u128 = if sample_rate == 0 {
        1
    } else {
        sample_rate as u128
    };
    let scaled: u128 = frames as u128 * NANOS_PER_SEC;
    Duration { nanos: scaled / rate }
}

/// How many frames fit `duration` at `sample_rate`, to the nearest frame. Rounding down would
/// lose a frame, since [`frames_to_duration`] already rounds down.
pub fn duration_to_frames(duration: Duration, sample_rate: u32) -> (r: u64)
    ensures
        r == if nearest_frames(duration@, sample_rate) <= u64::MAX {
            nearest_frames(duration@, sample_rate)
        } else {
            u64::MAX as nat
        },
{
    // No count of frames that fits is reached beyond this length.
    let longest: u128 = 0x1_0000_0000_0000_0000 * NANOS_PER_SEC;
    if sample_rate > 0 && duration.nanos > longest {
        proof {
            let n = duration@ as int;
            let rate = sample_rate as int;
            assert(n * rate >= n) by (nonlinear_arith)
                requires
                    n >= 0,
                    rate >= 1,
            ;
        }
        return u64::MAX;
    }
    if sample_rate == 0 {
        assert(duration@ * 0nat == 0) by (nonlinear_arith);
        return 0;
    }
    proof {
        let n = duration@ as int;
        let rate = sample_rate as int;
        assert(0 <= n * rate <= longest as int * 0xffff_ffff) by (nonlinear_arith)
            requires
                0 <= n <= longest as int,
                0 <= rate <= 0xffff_ffff,
        ;
    }
    let frames: u128 = (duration.nanos * sample_rate as u128 + 500_000_000) / NANOS_PER_SEC;
    if frames <= u64::MAX as u128 {
        frames as u64
    } else {
        u64::MAX
    }
}

/// A time that came from a count of frames gives that count back, for every rate up to one frame
/// in two nanoseconds.
pub proof fn frames_survive_the_round_trip(frames: u64, sample_rate: u32)
    requires
        0 < sample_rate <= 500_000_000,
    ensures
        nearest_frames(frames_nanos(frames as nat, sample_rate), sample_rate) == frames,
{
    let f = frames as int;
    let rate = sample_rate as int;
    let nanos = frames_nanos(frames as nat, sample_rate) as int;
    let second = NANOS_PER_SEC as int;
    vstd::arithmetic::div_mod::lemma_fundamental_div_mod(f * second, rate);
    vstd::arithmetic::div_mod::lemma_mod_bound(f * second, rate);
    assert(rate * nanos == nanos * rate) by (nonlinear_arith);
    // nanos * rate is less than one rate short of f * second.
    assert(f * second - rate < nanos * rate <= f * second);
    assert((nanos * rate + 500_000_000) / second == f) by {
        let rest = nanos * rate + 500_000_000 - f * second;
        vstd::arithmetic::div_mod::lemma_fundamental_div_mod_converse(
            nanos * rate + 500_000_000,
            second,
            f,
            rest,
        );
    }
}

// ---- what a container says -------------------------------------------------------------------

/// Trusts `TimeBase::calc_time` of symphonia-core (with `TimeBase::try_new`, `Timestamp::new` and
/// `Time::as_nanos` around it): a count of ticks that is not negative, each `numer / denom`
/// seconds long, lasts that many whole nanoseconds, rounded down; `None` where the seconds of
/// that do not fit a signed 64-bit number.
#[verifier::external_body]
fn calc_time_nanos(numer: u32, denom: u32, ticks: i64) -> (r: Option<i128>)
    requires
        numer > 0,
        denom > 0,
        ticks >= 0,
    ensures
        ({
            let nanos = ticks as nat * numer as nat * NANOS_PER_SEC as nat / denom as nat;
            match r {
                Some(n) => n == nanos && nanos < 0x8000_0000_0000_0000 * NANOS_PER_SEC,
                None => nanos >= 0x8000_0000_0000_0000 * NANOS_PER_SEC,
            }
        }),
{
    let base = symphonia::core::units::TimeBase::try_new(numer, denom)?;
    let time = base.calc_time(symphonia::core::units::Timestamp::new(ticks))?;
    Some(time.as_nanos())
}

/// The units in which a container counts time: `numer / denom` seconds.
#[derive(Debug, Clone, Copy, PartialEq, Eq, Structural)]
pub struct TickUnit {
    /// The numerator; not zero.
    pub numer: u32,
    /// The denominator; not zero.
    pub denom: u32,
}

/// How long a track is, from what its container says: from its frames if it counts them, else
/// from its ticks if it says how long one is, as far as 64 bits of nanoseconds hold that.
pub open spec fn stated_length(
    frames: Option<u64>,
    ticks: Option<u64>,
    unit: Option<TickUnit>,
    sample_rate: u32,
) -> Option<nat> {
    match (frames, ticks, unit) {
        (Some(frames), _, _) => Some(frames_nanos(frames as nat, sample_rate)),
        (None, Some(ticks), Some(unit)) => {
            let counted = if ticks <= i64::MAX {
                ticks as nat
            } else {
                i64::MAX as nat
            };
            let nanos = counted * unit.numer as nat * NANOS_PER_SEC as nat / unit.denom as nat;
            if nanos <= u64::MAX {
                Some(nanos)
            } else {
                None
            }
        },
        _ => None,
    }
}

/// How long a track is, from what its container says.
pub fn stated_duration(
    frames: Option<u64>,
    ticks: Option<u64>,
    unit: Option<TickUnit>,
    sample_rate: u32,
) -> (r: Option<Duration>)
    requires
        unit matches Some(unit) ==> unit.numer > 0 && unit.denom > 0,
    ensures
        match stated_length(frames, ticks, unit, sample_rate) {
            Some(nanos) => r matches Some(length) && length@ == nanos,
            None => r is None,
        },
{
    match (frames, ticks, unit) {
        (Some(frames), _, _) => Some(frames_to_duration(frames, sample_rate)),
        (None, Some(ticks), Some(unit)) => {
            let counted: i64 = if ticks <= i64::MAX as u64 {
                ticks as i64
            } else {
                i64::MAX
            };
            match calc_time_nanos(unit.numer, unit.denom, counted) {
                Some(nanos) => if nanos <= u64::MAX as i128 {
                    Some(Duration::from_nanos(nanos as u64))
                } else {
                    None
                },
                None => None,
            }
        },
        _ => None,
    }
}

/// What is missing from the description of a source.
#[derive(Debug, Clone, Copy, PartialEq, Eq, Structural)]
pub enum Undetermined {
    /// Its frames per second.
    SampleRate,
    /// Its samples per frame.
    Channels,
    /// Its bit depth.
    BitsPerSample,
}

impl Undetermined {
    /// What is said of it.
    pub open spec fn spec_text(self) -> Seq<char> {
        match self {
            Undetermined::SampleRate => "could not determine the source's sample rate"@,
            Undetermined::Channels => "could not determine the source's channel count"@,
            Undetermined::BitsPerSample =>
                "could not determine the source's bits_per_sample (a FLAC should report 16 or 24)"@,
        }
    }

    /// What is said of it.
    pub fn text(self) -> (r: String)
        ensures
            r@ == self.spec_text(),
    {
        match self {
            Undetermined::SampleRate => "could not determine the source's sample rate".to_owned(),
            Undetermined::Channels => "could not determine the source's channel count".to_owned(),
            Undetermined::BitsPerSample =>
                "could not determine the source's bits_per_sample (a FLAC should report 16 or 24)".to_owned(),
        }
    }
}

/// The format of a source, if its codec said everything there is to know; else the first thing
/// that is missing.
pub fn source_spec(
    sample_rate: Option<u32>,
    channels: Option<u32>,
    bits_per_sample: Option<u32>,
) -> (r: Result<SourceSpec, Undetermined>)
    ensures
        r == match (sample_rate, channels, bits_per_sample) {
            (None, _, _) => Err::<SourceSpec, Undetermined>(Undetermined::SampleRate),
            (_, None, _) => Err(Undetermined::Channels),
            (_, _, None) => Err(Undetermined::BitsPerSample),
            (Some(sample_rate), Some(channels), Some(bits_per_sample)) => Ok(
                SourceSpec { sample_rate, channels, bits_per_sample },
            ),
        },
{
    match (sample_rate, channels, bits_per_sample) {
        (None, _, _) => Err(Undetermined::SampleRate),
        (_, None, _) => Err(Undetermined::Channels),
        (_, _, None) => Err(Undetermined::BitsPerSample),
        (Some(sample_rate), Some(channels), Some(bits_per_sample)) => Ok(
            SourceSpec { sample_rate, channels, bits_per_sample },
        ),
    }
}

/// How many frames a span of `ticks` ticks holds; none if it is negative. Without a unit, a tick
/// is a frame.
pub fn ticks_to_frames(ticks: i64, unit: Option<TickUnit>, sample_rate: u32) -> (r: u64)
    requires
        unit matches Some(unit) ==> unit.denom > 0,
    ensures
        r == tick_frames(ticks as int, unit, sample_rate),
{
    if ticks < 0 {
        return 0;
    }
    match unit {
        Some(unit) => {
            let span: u128 = ticks as u128;
            let numer: u128 = unit.numer as u128;
            let rate: u128 = sample_rate as u128;
            assert(0 <= span * numer <= 0x7fff_ffff_ffff_ffff * 0xffff_ffff) by (nonlinear_arith)
                requires
                    0 <= span <= 0x7fff_ffff_ffff_ffff,
                    0 <= numer <= 0xffff_ffff,
            ;
            let product: u128 = span * numer;
            assert(0 <= product * rate <= 0x7fff_ffff_ffff_ffff * 0xffff_ffff * 0xffff_ffff)
                by (nonlinear_arith)
                requires
                    0 <= product <= 0x7fff_ffff_ffff_ffff * 0xffff_ffff,
                    0 <= rate <= 0xffff_ffff,
            ;
            let frames: u128 = product * rate / unit.denom as u128;
            if ticks == 0 {
                proof {
                    assert(product == 0) by (nonlinear_arith)
                        requires
                            product == span * numer,
                            span == 0,
                    ;
                    assert(product * rate == 0) by (nonlinear_arith)
                        requires
                            product == 0,
                    ;
                }
            }
            #[verifier::truncate]
            (frames as u64)
        },
        None => ticks as u64,
    }
}

/// Containers can only be repositioned to a packet at or before the wanted time. Drops the
/// samples in between from the front of a decoded chunk, and returns how many are still to be
/// dropped.
pub fn drop_skipped(skip_samples: usize, out: &mut Vec<i32>) -> (r: usize)
    ensures
        ({
            let dropped = if skip_samples <= old(out)@.len() {
                skip_samples as int
            } else {
                old(out)@.len() as int
            };
            &&& final(out)@ == old(out)@.skip(dropped)
            &&& r == skip_samples - dropped
        }),
{
    let dropped: usize = if skip_samples <= out.len() {
        skip_samples
    } else {
        out.len()
    };
    let rest: Vec<i32> = out.split_off(dropped);
    *out = rest;
    skip_samples - dropped
}

// ---- a decode session ------------------------------------------------------------------------

/// What a container says of its default audio track.
#[derive(Debug, Clone, Copy, PartialEq, Eq, Structural)]
pub struct TrackFacts {
    /// The track's number in the container.
    pub id: u32,
    /// Frames per second.
    pub sample_rate: Option<u32>,
    /// Samples per frame.
    pub channels: Option<u32>,
    /// The bit depth.
    pub bits_per_sample: Option<u32>,
    /// How many frames there are.
    pub frames: Option<u64>,
    /// How many ticks it lasts.
    pub ticks: Option<u64>,
    /// How long a tick is; without it, a tick is a frame.
    pub unit: Option<TickUnit>,
}

/// What was found in a source.
#[derive(Debug, Clone, Copy, PartialEq, Eq, Structural)]
pub enum Probed {
    /// Nothing that is known.
    Unrecognized,
    /// No audio track.
    NoAudioTrack,
    /// An audio track that does not say how it is coded.
    NoParameters,
    /// A track that turned out not to be audio.
    NotAudio,
    /// This audio track.
    Track(TrackFacts),
}

/// Why a source can't be decoded.
#[derive(Debug, Clone, Copy, PartialEq, Eq, Structural)]
pub enum OpenError {
    /// Its format is not known.
    Unrecognized,
    /// It has no audio track.
    NoAudioTrack,
    /// Its audio track does not say how it is coded.
    NoParameters,
    /// Its track is not audio.
    NotAudio,
    /// Its audio track does not say enough.
    Undetermined(Undetermined),
}

impl OpenError {
    /// What is said of it.
    pub open spec fn spec_text(self) -> Seq<char> {
        match self {
            OpenError::Unrecognized => "could not recognize the audio stream's format"@,
            OpenError::NoAudioTrack => "no decodable audio track found"@,
            OpenError::NoParameters => "the audio track has no codec parameters"@,
            OpenError::NotAudio => "the track is not audio"@,
            OpenError::Undetermined(what) => what.spec_text(),
        }
    }

    /// What is said of it.
    pub fn text(self) -> (r: String)
        ensures
            r@ == self.spec_text(),
    {
        match self {
            OpenError::Unrecognized => "could not recognize the audio stream's format".to_owned(),
            OpenError::NoAudioTrack => "no decodable audio track found".to_owned(),
            OpenError::NoParameters => "the audio track has no codec parameters".to_owned(),
            OpenError::NotAudio => "the track is not audio".to_owned(),
            OpenError::Undetermined(what) => what.text(),
        }
    }
}

/// What came from the container when it was asked for a packet.
#[derive(Debug, PartialEq, Eq)]
pub enum PacketRead {
    /// A packet of the track with this number.
    Packet(u32),
    /// Nothing more.
    End,
    /// The decoder would have to be set up anew.
    ResetRequired,
    /// It failed, with why.
    Failed(String),
}

/// What to do with what came from the container.
#[derive(Debug, PartialEq, Eq)]
pub enum PacketStep {
    /// Decode the packet.
    Decode,
    /// Read the next one.
    Skip,
    /// The stream is over.
    End,
    /// Give up, with this error.
    Fail(String),
}

/// What came of decoding a packet.
#[derive(Debug, PartialEq, Eq)]
pub enum Decoded {
    /// Samples.
    Samples,
    /// The source could not be read, with why.
    Io(String),
    /// The packet made no sense, with why.
    Malformed(String),
    /// The decoder can't go on, with why.
    Failed(String),
}

/// What to do with what came of decoding a packet.
#[derive(Debug, PartialEq, Eq)]
pub enum DecodeStep {
    /// Hand the samples to [`Decoder::deliver`].
    Deliver,
    /// Say this, and read the next packet.
    Skip(String),
    /// Give up, with this error.
    Fail(String),
}

/// A decode session: what is known of the source, and what is left to drop after a seek. Reading
/// packets and decoding them is up to whoever holds the source.
#[derive(Debug, Clone, Copy, PartialEq, Eq, Structural)]
pub struct Decoder {
    track_id: u32,
    spec: SourceSpec,
    duration: Option<Duration>,
    unit: Option<TickUnit>,
    skip_samples: usize,
}

/// How many frames a span of `ticks` ticks holds.
pub open spec fn tick_frames(ticks: int, unit: Option<TickUnit>, sample_rate: u32) -> u64 {
    if ticks < 0 {
        0
    } else {
        match unit {
            Some(unit) => (ticks * unit.numer as int * sample_rate as int / unit.denom as int)
                as u64,
            None => ticks as u64,
        }
    }
}

impl Decoder {
    /// The number of the track that is decoded.
    pub closed spec fn track(self) -> u32 {
        self.track_id
    }

    /// The format of the source.
    pub closed spec fn format(self) -> SourceSpec {
        self.spec
    }

    /// The length of the track, if the container says so.
    pub closed spec fn length(self) -> Option<Duration> {
        self.duration
    }

    /// How long a tick of the track is.
    pub closed spec fn tick(self) -> Option<TickUnit> {
        self.unit
    }

    /// How many samples are still to be dropped after a seek, because containers can only seek to a
    /// packet boundary at or before the requested time.
    pub closed spec fn to_drop(self) -> nat {
        self.skip_samples as nat
    }

    /// What holds of a session at every moment.
    pub open spec fn wf(self) -> bool {
        self.tick() matches Some(unit) ==> unit.denom > 0
    }

    /// A session for what was found in a source.
    pub fn open(probed: Probed) -> (r: Result<Self, OpenError>)
        requires
            probed matches Probed::Track(facts) ==> (facts.unit matches Some(unit) ==> unit.numer > 0
                && unit.denom > 0),
        ensures
            match probed {
                Probed::Unrecognized => r == Err::<Self, OpenError>(OpenError::Unrecognized),
                Probed::NoAudioTrack => r == Err::<Self, OpenError>(OpenError::NoAudioTrack),
                Probed::NoParameters => r == Err::<Self, OpenError>(OpenError::NoParameters),
                Probed::NotAudio => r == Err::<Self, OpenError>(OpenError::NotAudio),
                Probed::Track(facts) => match (
                    facts.sample_rate,
                    facts.channels,
                    facts.bits_per_sample,
                ) {
                    (None, _, _) => r == Err::<Self, OpenError>(
                        OpenError::Undetermined(Undetermined::SampleRate),
                    ),
                    (_, None, _) => r == Err::<Self, OpenError>(
                        OpenError::Undetermined(Undetermined::Channels),
                    ),
                    (_, _, None) => r == Err::<Self, OpenError>(
                        OpenError::Undetermined(Undetermined::BitsPerSample),
                    ),
                    (Some(sample_rate), Some(channels), Some(bits_per_sample)) => {
                        &&& r matches Ok(session)
                        &&& session.wf()
                        &&& session.track() == facts.id
                        &&& session.format() == (SourceSpec {
                            sample_rate,
                            channels,
                            bits_per_sample,
                        })
                        &&& match stated_length(
                            facts.frames,
                            facts.ticks,
                            facts.unit,
                            sample_rate,
                        ) {
                            Some(nanos) => session.length() matches Some(length) && length@
                                == nanos,
                            None => session.length() is None,
                        }
                        &&& session.tick() == facts.unit
                        &&& session.to_drop() == 0
                    },
                },
            },
    {
        let facts = match probed {
            Probed::Unrecognized => {
                return Err(OpenError::Unrecognized);
            },
            Probed::NoAudioTrack => {
                return Err(OpenError::NoAudioTrack);
            },
            Probed::NoParameters => {
                return Err(OpenError::NoParameters);
            },
            Probed::NotAudio => {
                return Err(OpenError::NotAudio);
            },
            Probed::Track(facts) => facts,
        };
        match source_spec(facts.sample_rate, facts.channels, facts.bits_per_sample) {
            Ok(spec) => Ok(
                Decoder {
                    track_id: facts.id,
                    spec,
                    duration: stated_duration(
                        facts.frames,
                        facts.ticks,
                        facts.unit,
                        spec.sample_rate,
                    ),
                    unit: facts.unit,
                    skip_samples: 0,
                },
            ),
            Err(what) => Err(OpenError::Undetermined(what)),
        }
    }

    /// The format of the source.
    pub fn spec(&self) -> (r: SourceSpec)
        ensures
            r == self.format(),
    {
        self.spec
    }

    /// The track's total length, if the container says so.
    pub fn duration(&self) -> (r: Option<Duration>)
        ensures
            r == self.length(),
    {
        self.duration
    }

    /// The number of the track that is decoded.
    pub fn track_id(&self) -> (r: u32)
        ensures
            r == self.track(),
    {
        self.track_id
    }

    /// The time to ask the container for when seeking to `to`, in nanoseconds: as much of it as 64
    /// bits hold.
    pub fn seek_nanos(to: Duration) -> (r: u64)
        ensures
            r == if to@ <= u64::MAX {
                to@
            } else {
                u64::MAX as nat
            },
    {
        if to.nanos <= u64::MAX as u128 {
            to.nanos as u64
        } else {
            u64::MAX
        }
    }

    /// The container moved to the packet at tick `actual`, at or before the wanted tick `required`:
    /// the frames in between are dropped as they are decoded, which makes the seek exact to the
    /// frame. Returns the position playback will resume from.
    pub fn sought(&mut self, required: i64, actual: i64) -> (r: Duration)
        requires
            old(self).wf(),
            i64::MIN <= required - actual <= i64::MAX,
            tick_frames(
                required - actual,
                old(self).tick(),
                old(self).format().sample_rate,
            ) * old(self).format().channels <= usize::MAX,
            tick_frames(required - actual, old(self).tick(), old(self).format().sample_rate)
                <= usize::MAX,
        ensures
            r@ == frames_nanos(
                tick_frames(
                    required as int,
                    old(self).tick(),
                    old(self).format().sample_rate,
                ) as nat,
                old(self).format().sample_rate,
            ),
            final(self).to_drop() == tick_frames(
                required - actual,
                old(self).tick(),
                old(self).format().sample_rate,
            ) * old(self).format().channels,
            final(self).track() == old(self).track(),
            final(self).format() == old(self).format(),
            final(self).length() == old(self).length(),
            final(self).tick() == old(self).tick(),
    {
        let rate: u32 = self.spec.sample_rate;
        let skip_frames: u64 = ticks_to_frames(required - actual, self.unit, rate);
        self.skip_samples = skip_frames as usize * self.spec.channels as usize;
        frames_to_duration(ticks_to_frames(required, self.unit, rate), rate)
    }

    /// Drops the next `frames` frames, on top of any drop already pending; at most as much as can be
    /// counted.
    pub fn skip_frames(&mut self, frames: u64)
        ensures
            ({
                let wanted = old(self).to_drop() + frames as nat * old(
                    self).format().channels as nat;
                final(self).to_drop() == if wanted <= usize::MAX {
                    wanted
                } else {
                    usize::MAX as nat
                }
            }),
            final(self).track() == old(self).track(),
            final(self).format() == old(self).format(),
            final(self).length() == old(self).length(),
            final(self).tick() == old(self).tick(),
    {
        assert(0 <= frames as int * self.spec.channels as int <= 0xffff_ffff_ffff_ffff
            * 0xffff_ffff) by (nonlinear_arith)
            requires
                0 <= frames as int <= 0xffff_ffff_ffff_ffff,
                0 <= self.spec.channels as int <= 0xffff_ffff,
        ;
        let wanted: u128 = self.skip_samples as u128 + frames as u128 * self.spec.channels as u128;
        self.skip_samples = if wanted <= usize::MAX as u128 {
            wanted as usize
        } else {
            usize::MAX
        };
    }

    /// What to do with what came from the container: packets of any track other than the selected
    /// one are skipped.
    pub fn packet_read(&self, read: PacketRead) -> (r: PacketStep)
        ensures
            match read {
                PacketRead::Packet(track) => if track == self.track() {
                    r is Decode
                } else {
                    r is Skip
                },
                PacketRead::End => r is End,
                PacketRead::ResetRequired => r matches PacketStep::Fail(why) && why@
                    == "the stream requires resetting the decoder mid-playback; not supported yet"@,
                PacketRead::Failed(why) => r matches PacketStep::Fail(text) && text@
                    == "error reading the next packet from the container: "@ + why@,
            },
    {
        match read {
            PacketRead::Packet(track) => if track == self.track_id {
                PacketStep::Decode
            } else {
                PacketStep::Skip
            },
            PacketRead::End => PacketStep::End,
            PacketRead::ResetRequired => PacketStep::Fail(
                "the stream requires resetting the decoder mid-playback; not supported yet".to_owned(),
            ),
            PacketRead::Failed(why) => PacketStep::Fail(
                joined("error reading the next packet from the container: ", why.as_str()),
            ),
        }
    }

    /// What to do with what came of decoding a packet: one that can't be read or makes no sense is
    /// reported and skipped.
    pub fn decoded(&self, decoded: Decoded) -> (r: DecodeStep)
        ensures
            match decoded {
                Decoded::Samples => r is Deliver,
                Decoded::Io(why) => r matches DecodeStep::Skip(text) && text@
                    == "Warning: packet dropped due to an I/O error: "@ + why@,
                Decoded::Malformed(why) => r matches DecodeStep::Skip(text) && text@
                    == "Warning: packet dropped due to a decode error: "@ + why@,
                Decoded::Failed(why) => r matches DecodeStep::Fail(text) && text@
                    == "unrecoverable decoder error: "@ + why@,
            },
    {
        match decoded {
            Decoded::Samples => DecodeStep::Deliver,
            Decoded::Io(why) => DecodeStep::Skip(
                joined("Warning: packet dropped due to an I/O error: ", why.as_str()),
            ),
            Decoded::Malformed(why) => DecodeStep::Skip(
                joined("Warning: packet dropped due to a decode error: ", why.as_str()),
            ),
            Decoded::Failed(why) => DecodeStep::Fail(
                joined("unrecoverable decoder error: ", why.as_str()),
            ),
        }
    }

    /// Takes off a decoded chunk what a seek has to drop. Returns whether the chunk is to be handed
    /// on; it is not if nothing is left of it, and the next packet is to be read.
    pub fn deliver(&mut self, out: &mut Vec<i32>) -> (r: bool)
        ensures
            ({
                let dropped = if old(self).to_drop() <= old(out)@.len() {
                    old(self).to_drop() as int
                } else {
                    old(out)@.len() as int
                };
                &&& final(out)@ == old(out)@.skip(dropped)
                &&& final(self).to_drop() == old(self).to_drop() - dropped
                &&& r == (old(self).to_drop() == 0 || final(out)@.len() > 0)
            }),
            final(self).track() == old(self).track(),
            final(self).format() == old(self).format(),
            final(self).length() == old(self).length(),
            final(self).tick() == old(self).tick(),
    {
        if self.skip_samples == 0 {
            assert(out@.skip(0) =~= out@);
            return true;
        }
        self.skip_samples = drop_skipped(self.skip_samples, out);
        out.len() > 0
    }
}

/// What comes out of a row of decoded chunks when so many samples are to be dropped.
pub open spec fn delivered(chunks: Seq<Seq<i32>>, to_drop: nat) -> Seq<i32>
    decreases chunks.len(),
{
    if chunks.len() == 0 {
        Seq::empty()
    } else {
        let dropped = if to_drop <= chunks[0].len() {
            to_drop
        } else {
            chunks[0].len()
        };
        chunks[0].skip(dropped as int) + delivered(chunks.skip(1), (to_drop - dropped) as nat)
    }
}

/// A row of chunks, one after the other.
pub open spec fn all_samples(chunks: Seq<Seq<i32>>) -> Seq<i32>
    decreases chunks.len(),
{
    if chunks.len() == 0 {
        Seq::empty()
    } else {
        chunks[0] + all_samples(chunks.skip(1))
    }
}

/// A seek is exact to the frame: whatever packets the samples come in, what is handed on is all of
/// them but those to drop, in order.
pub proof fn a_seek_drops_exactly_what_precedes_its_target(chunks: Seq<Seq<i32>>, to_drop: nat)
    requires
        to_drop <= all_samples(chunks).len(),
    ensures
        delivered(chunks, to_drop) == all_samples(chunks).skip(to_drop as int),
    decreases chunks.len(),
{
    if chunks.len() > 0 {
        let rest = chunks.skip(1);
        let dropped = if to_drop <= chunks[0].len() {
            to_drop
        } else {
            chunks[0].len()
        };
        a_seek_drops_exactly_what_precedes_its_target(rest, (to_drop - dropped) as nat);
        assert(delivered(chunks, to_drop) =~= all_samples(chunks).skip(to_drop as int));
    } else {
        assert(delivered(chunks, to_drop) =~= all_samples(chunks).skip(to_drop as int));
    }
}

} // verus!
