//! Bit-perfect output on a sound card.
//!
//! The device is opened exactly as given, in a lossless integer hardware format, and left-justified
//! `i32` samples are packed into that format with pure bit shifts -- no rounding, no dithering, no
//! resampling. This is the bookkeeping of such a sink and the verdict on what the card really does;
//! the calls that reach the card are made by whoever holds it.

use super::reserve::DeviceBusy;
use crate::decode::SourceSpec;
use crate::pieces::{
    cut, first_word, first_word_of, lines, lines_of, split_once, strip_prefix, texts_of,
};
use crate::text::{decimal, decimal_text, parse_u32, parsed, same, trim, trimmed};
use vstd::prelude::*;

verus! {

/// The length of a period that a device is asked for, in microseconds: short enough for responsive
/// pause and seek.
pub const PERIOD_TIME_US: u32 = 100_000;

/// The length of the queue that a device is asked for, in microseconds: long enough not to run dry
/// on a loaded system.
pub const BUFFER_TIME_US: u32 = 500_000;

/// After this many writes in a row that took nothing (each followed by a wait), a write gives up
/// instead of silently discarding the rest.
pub const MAX_CONSECUTIVE_ZERO_WRITES: u32 = 50;

// ---- formats -----------------------------------------------------------------------------------

/// The sample formats that hold 16 or 24 bits without loss.
#[derive(Debug, Clone, Copy, PartialEq, Eq, Structural)]
pub enum Format {
    /// 16 bits.
    S16LE,
    /// 24 bits in three bytes.
    S243LE,
    /// 24 bits in the low three of four bytes.
    S24LE,
    /// 32 bits.
    S32LE,
}

impl Format {
    /// The name ALSA gives the format.
    pub open spec fn name_of(self) -> Seq<char> {
        match self {
            Format::S16LE => "S16_LE"@,
            Format::S243LE => "S24_3LE"@,
            Format::S24LE => "S24_LE"@,
            Format::S32LE => "S32_LE"@,
        }
    }

    /// The name ALSA gives the format.
    pub fn name(self) -> (r: String)
        ensures
            r@ == self.name_of(),
    {
        match self {
            Format::S16LE => "S16_LE".to_owned(),
            Format::S243LE => "S24_3LE".to_owned(),
            Format::S24LE => "S24_LE".to_owned(),
            Format::S32LE => "S32_LE".to_owned(),
        }
    }
}

/// The formats that hold audio of so many bits without loss, the most wanted first.
pub open spec fn candidates(bits_per_sample: u32) -> Seq<Format> {
    if bits_per_sample == 24 {
        seq![Format::S243LE, Format::S32LE, Format::S24LE]
    } else if bits_per_sample == 16 {
        seq![Format::S16LE, Format::S32LE]
    } else {
        seq![]
    }
}

/// What is said of audio that no format is picked for.
pub open spec fn no_format_text(bits_per_sample: u32) -> Seq<char> {
    if bits_per_sample == 24 {
        "the device does not accept any lossless integer format for a 24-bit source (tried: [S243LE, S32LE, S24LE])"@
    } else if bits_per_sample == 16 {
        "the device does not accept any lossless integer format for a 16-bit source (tried: [S16LE, S32LE])"@
    } else {
        "unsupported bit depth in phase 0: "@ + decimal_text(bits_per_sample as nat)
            + " bits (only 16/24)"@
    }
}

/// The first format that the device accepts, of those that hold so many bits without loss.
pub fn pick_format(bits_per_sample: u32, test_format: impl Fn(Format) -> bool) -> (r: Result<
    Format,
    String,
>)
    requires
        forall|format: Format| call_requires(test_format, (format,)),
    ensures
        match r {
            Ok(format) => exists|i: int|
                0 <= i < candidates(bits_per_sample).len() && #[trigger] candidates(
                    bits_per_sample,
                )[i] == format && call_ensures(test_format, (format,), true) && (forall|j: int|
                    0 <= j < i ==> call_ensures(
                        test_format,
                        (#[trigger] candidates(bits_per_sample)[j],),
                        false,
                    )),
            Err(why) => why@ == no_format_text(bits_per_sample) && (forall|j: int|
                0 <= j < candidates(bits_per_sample).len() ==> call_ensures(
                    test_format,
                    (#[trigger] candidates(bits_per_sample)[j],),
                    false,
                )),
        },
{
    let mut row: Vec<Format> = Vec::new();
    if bits_per_sample == 24 {
        row.push(Format::S243LE);
        row.push(Format::S32LE);
        row.push(Format::S24LE);
    } else if bits_per_sample == 16 {
        row.push(Format::S16LE);
        row.push(Format::S32LE);
    }
    assert(row@ =~= candidates(bits_per_sample));
    let mut i: usize = 0;
    while i < row.len()
        invariant
            i <= row.len(),
            row@ == candidates(bits_per_sample),
            forall|format: Format| call_requires(test_format, (format,)),
            forall|j: int|
                0 <= j < i ==> call_ensures(
                    test_format,
                    (#[trigger] candidates(bits_per_sample)[j],),
                    false,
                ),
        decreases row.len() - i,
    {
        let format = row[i];
        if test_format(format) {
            assert(candidates(bits_per_sample)[i as int] == format);
            return Ok(format);
        }
        i += 1;
    }
    if bits_per_sample == 24 {
        return Err(
            "the device does not accept any lossless integer format for a 24-bit source (tried: [S243LE, S32LE, S24LE])".to_owned(),
        );
    }
    if bits_per_sample == 16 {
        return Err(
            "the device does not accept any lossless integer format for a 16-bit source (tried: [S16LE, S32LE])".to_owned(),
        );
    }
    let mut why = String::new();
    why.push_str("unsupported bit depth in phase 0: ");
    why.push_str(decimal(bits_per_sample as u64).as_str());
    why.push_str(" bits (only 16/24)");
    assert(why@ =~= no_format_text(bits_per_sample));
    Err(why)
}

/// How many bytes a sample takes.
pub open spec fn sample_bytes(format: Format) -> nat {
    match format {
        Format::S16LE => 2,
        Format::S243LE => 3,
        Format::S24LE => 4,
        Format::S32LE => 4,
    }
}

/// How many bytes a sample takes.
pub fn bytes_per_sample(format: Format) -> (r: usize)
    ensures
        r == sample_bytes(format),
{
    match format {
        Format::S16LE => 2,
        Format::S243LE => 3,
        Format::S24LE => 4,
        Format::S32LE => 4,
    }
}

/// The bits of a sample from bit `shift` on, eight of them.
pub open spec fn byte_at(sample: i32, shift: u32) -> u8 {
    #[verifier::truncate]
    ((sample >> shift) as u8)
}

/// A left-justified sample in a format: its top bits, the lowest byte first. In four bytes, the
/// fourth of a 24-bit sample holds its sign.
pub open spec fn packed(format: Format, sample: i32) -> Seq<u8> {
    match format {
        Format::S16LE => seq![byte_at(sample, 16), byte_at(sample, 24)],
        Format::S243LE => seq![byte_at(sample, 8), byte_at(sample, 16), byte_at(sample, 24)],
        Format::S24LE => seq![
            byte_at(sample, 8),
            byte_at(sample, 16),
            byte_at(sample, 24),
            byte_at(sample, 31),
        ],
        Format::S32LE => seq![
            byte_at(sample, 0),
            byte_at(sample, 8),
            byte_at(sample, 16),
            byte_at(sample, 24),
        ],
    }
}

fn byte_from(sample: i32, shift: u32) -> (r: u8)
    requires
        shift <= 31,
    ensures
        r == byte_at(sample, shift),
{
    #[verifier::truncate]
    ((sample >> shift) as u8)
}

/// Left-justified to 16 bits: the top 16.
pub fn pack_s16le(sample: i32) -> (r: [u8; 2])
    ensures
        r@ == packed(Format::S16LE, sample),
{
    let r = [byte_from(sample, 16), byte_from(sample, 24)];
    assert(r@ =~= packed(Format::S16LE, sample));
    r
}

/// Left-justified to 24 bits in three bytes: the top 24.
pub fn pack_s24_3le(sample: i32) -> (r: [u8; 3])
    ensures
        r@ == packed(Format::S243LE, sample),
{
    let r = [byte_from(sample, 8), byte_from(sample, 16), byte_from(sample, 24)];
    assert(r@ =~= packed(Format::S243LE, sample));
    r
}

/// Left-justified to 24 bits in four bytes: the top 24, in a 32-bit slot.
pub fn pack_s24le(sample: i32) -> (r: [u8; 4])
    ensures
        r@ == packed(Format::S24LE, sample),
{
    let r = [
        byte_from(sample, 8),
        byte_from(sample, 16),
        byte_from(sample, 24),
        byte_from(sample, 31),
    ];
    assert(r@ =~= packed(Format::S24LE, sample));
    r
}

/// Left-justified to 32 bits: as it is.
pub fn pack_s32le(sample: i32) -> (r: [u8; 4])
    ensures
        r@ == packed(Format::S32LE, sample),
{
    let r = [
        byte_from(sample, 0),
        byte_from(sample, 8),
        byte_from(sample, 16),
        byte_from(sample, 24),
    ];
    assert(r@ =~= packed(Format::S32LE, sample));
    r
}

/// What the bytes of a sample spell, left-justified again.
pub open spec fn unpacked(format: Format, bytes: Seq<u8>) -> i32 {
    match format {
        Format::S16LE => joined(0, 0, bytes[0], bytes[1]),
        Format::S243LE => joined(0, bytes[0], bytes[1], bytes[2]),
        Format::S24LE => joined(0, bytes[0], bytes[1], bytes[2]),
        Format::S32LE => joined(bytes[0], bytes[1], bytes[2], bytes[3]),
    }
}

/// Four bytes as one number, the lowest byte first.
pub open spec fn joined(b0: u8, b1: u8, b2: u8, b3: u8) -> i32 {
    #[verifier::truncate]
    ((b0 as u32 | (b1 as u32) << 8 | (b2 as u32) << 16 | (b3 as u32) << 24) as i32)
}

/// Whether a left-justified sample has no more than so many bits.
pub open spec fn fits(sample: i32, bits: u32) -> bool {
    if bits == 16 {
        sample & 0xffff == 0
    } else {
        sample & 0xff == 0
    }
}

/// Packing loses nothing: what is packed for a device reads back as the sample that it was, for
/// audio of 16 bits in every format that is picked for it, of 24 bits likewise, and for any sample
/// at all in 32 bits.
pub proof fn packing_loses_nothing(sample: i32)
    ensures
        unpacked(Format::S32LE, packed(Format::S32LE, sample)) == sample,
        fits(sample, 24) ==> unpacked(Format::S243LE, packed(Format::S243LE, sample)) == sample,
        fits(sample, 24) ==> unpacked(Format::S24LE, packed(Format::S24LE, sample)) == sample,
        fits(sample, 16) ==> unpacked(Format::S16LE, packed(Format::S16LE, sample)) == sample,
{
    assert(joined(byte_at(sample, 0), byte_at(sample, 8), byte_at(sample, 16), byte_at(sample, 24))
        == sample) by (bit_vector);
    assert(sample & 0xff == 0 ==> joined(
        0,
        byte_at(sample, 8),
        byte_at(sample, 16),
        byte_at(sample, 24),
    ) == sample) by (bit_vector);
    assert(sample & 0xffff == 0 ==> joined(0, 0, byte_at(sample, 16), byte_at(sample, 24))
        == sample) by (bit_vector);
}

/// A row of samples in a format.
pub open spec fn packed_row(format: Format, samples: Seq<i32>) -> Seq<u8>
    decreases samples.len(),
{
    if samples.len() == 0 {
        Seq::empty()
    } else {
        packed_row(format, samples.drop_last()) + packed(format, samples.last())
    }
}

/// A row of samples takes as many bytes as its samples do together.
pub proof fn a_packed_row_has_whole_samples(format: Format, samples: Seq<i32>)
    ensures
        packed_row(format, samples).len() == samples.len() * sample_bytes(format),
    decreases samples.len(),
{
    if samples.len() > 0 {
        a_packed_row_has_whole_samples(format, samples.drop_last());
        assert(samples.len() * sample_bytes(format) == (samples.len() - 1) * sample_bytes(format)
            + sample_bytes(format)) by (nonlinear_arith);
    }
}

fn push_all(out: &mut Vec<u8>, bytes: &[u8])
    ensures
        final(out)@ == old(out)@ + bytes@,
{
    let mut i: usize = 0;
    assert(out@ =~= old(out)@ + bytes@.take(0));
    while i < bytes.len()
        invariant
            i <= bytes.len(),
            out@ == old(out)@ + bytes@.take(i as int),
        decreases bytes.len() - i,
    {
        out.push(bytes[i]);
        assert(old(out)@ + bytes@.take(i + 1) =~= (old(out)@ + bytes@.take(i as int)).push(
            bytes@[i as int],
        ));
        i += 1;
    }
    assert(bytes@.take(bytes@.len() as int) =~= bytes@);
}

/// Packs one left-justified sample into a format.
pub fn pack_sample(format: Format, sample: i32, out: &mut Vec<u8>)
    ensures
        final(out)@ == old(out)@ + packed(format, sample),
{
    match format {
        Format::S16LE => push_all(out, &pack_s16le(sample)),
        Format::S243LE => push_all(out, &pack_s24_3le(sample)),
        Format::S24LE => push_all(out, &pack_s24le(sample)),
        Format::S32LE => push_all(out, &pack_s32le(sample)),
    }
}

/// Packs the first `count` left-justified samples into a format.
pub fn pack_frames(format: Format, samples: &[i32], count: usize) -> (r: Vec<u8>)
    requires
        count <= samples@.len(),
    ensures
        r@ == packed_row(format, samples@.take(count as int)),
{
    let mut out: Vec<u8> = Vec::new();
    let mut i: usize = 0;
    assert(samples@.take(0) =~= Seq::<i32>::empty());
    while i < count
        invariant
            i <= count <= samples@.len(),
            out@ == packed_row(format, samples@.take(i as int)),
        decreases count - i,
    {
        pack_sample(format, samples[i], &mut out);
        assert(samples@.take(i + 1).drop_last() =~= samples@.take(i as int));
        assert(samples@.take(i + 1).last() == samples@[i as int]);
        i += 1;
    }
    out
}

// ---- what was written last ---------------------------------------------------------------------

/// The last `n` of a row, or all of it if it is shorter.
pub open spec fn last_bytes(row: Seq<u8>, n: nat) -> Seq<u8> {
    if row.len() <= n {
        row
    } else {
        row.skip(row.len() - n)
    }
}

/// The last bytes of a row do not depend on what came long before.
pub proof fn the_last_bytes_of_the_last_bytes(row: Seq<u8>, more: Seq<u8>, n: nat)
    ensures
        last_bytes(last_bytes(row, n) + more, n) == last_bytes(row + more, n),
{
    assert(last_bytes(last_bytes(row, n) + more, n) =~= last_bytes(row + more, n));
}

/// The last bytes written to the device, up to a capacity, kept so that audio thrown away by a
/// drop-based pause can be replayed.
pub struct TailBuffer {
    capacity: usize,
    bytes: Vec<u8>,
}

impl View for TailBuffer {
    type V = Seq<u8>;

    closed spec fn view(&self) -> Seq<u8> {
        last_bytes(self.bytes@, self.capacity as nat)
    }
}

impl TailBuffer {
    /// How many bytes are kept.
    pub closed spec fn keeps(self) -> nat {
        self.capacity as nat
    }

    /// A buffer that keeps the last `capacity` bytes.
    pub fn new(capacity: usize) -> (r: Self)
        ensures
            r@ == Seq::<u8>::empty(),
            r.keeps() == capacity,
    {
        TailBuffer { capacity, bytes: Vec::new() }
    }

    /// How many bytes are held.
    pub fn len(&self) -> (r: usize)
        ensures
            r == self@.len(),
            r <= self.keeps(),
    {
        if self.bytes.len() <= self.capacity {
            self.bytes.len()
        } else {
            self.capacity
        }
    }

    /// More bytes were written.
    pub fn push(&mut self, data: &[u8])
        ensures
            final(self)@ == last_bytes(old(self)@ + data@, old(self).keeps()),
            final(self).keeps() == old(self).keeps(),
    {
        proof {
            the_last_bytes_of_the_last_bytes(self.bytes@, data@, self.capacity as nat);
        }
        push_all(&mut self.bytes, data);
        // Trimmed in batches rather than on every push.
        if self.bytes.len() / 2 > self.capacity {
            let from: usize = self.bytes.len() - self.capacity;
            let rest = self.bytes.split_off(from);
            assert(rest@ =~= last_bytes(self.bytes@ + rest@, self.capacity as nat));
            self.bytes = rest;
        }
    }

    /// The last `n` bytes (fewer if less is held).
    pub fn take_last(&self, n: usize) -> (r: Vec<u8>)
        ensures
            r@ == last_bytes(self@, n as nat),
    {
        let held: usize = self.len();
        let count: usize = if n <= held {
            n
        } else {
            held
        };
        let from: usize = self.bytes.len() - count;
        let mut out: Vec<u8> = Vec::new();
        let mut i: usize = from;
        while i < self.bytes.len()
            invariant
                from <= i <= self.bytes.len(),
                out@ == self.bytes@.subrange(from as int, i as int),
            decreases self.bytes.len() - i,
        {
            out.push(self.bytes[i]);
            assert(self.bytes@.subrange(from as int, i + 1) =~= self.bytes@.subrange(
                from as int,
                i as int,
            ).push(self.bytes@[i as int]));
            i += 1;
        }
        assert(out@ =~= last_bytes(self@, n as nat));
        out
    }

    /// Forgets everything.
    pub fn clear(&mut self)
        ensures
            final(self)@ == Seq::<u8>::empty(),
            final(self).keeps() == old(self).keeps(),
    {
        self.bytes = Vec::new();
    }
}

// ---- the sink ----------------------------------------------------------------------------------

/// Whether playback is running, and if not, how it was paused.
#[derive(Debug, PartialEq, Eq)]
pub enum PauseState {
    /// It is.
    Running,
    /// Paused by the device, which keeps its queued audio.
    Hardware,
    /// Paused by throwing the queue away, because the device can't pause. `replay` holds the audio
    /// that had been queued but not yet played, to be written again on resume.
    Dropped {
        /// That audio.
        replay: Vec<u8>,
    },
}

/// What a device said it runs with once it was set up.
#[derive(Debug, Clone, Copy, PartialEq, Eq, Structural)]
pub struct Committed {
    /// Frames per second.
    pub rate: u32,
    /// The length of a period in frames.
    pub period_frames: usize,
    /// The length of the queue in frames.
    pub buffer_frames: usize,
    /// Whether it can pause.
    pub can_pause: bool,
}

/// Why a device could not be opened.
#[derive(Debug, PartialEq, Eq)]
pub enum OpenError {
    /// It is open elsewhere.
    Busy(DeviceBusy),
    /// Something else.
    Failed(String),
}

/// What is said of a device that could not be opened.
pub open spec fn open_text(device: Seq<char>, detail: Seq<char>) -> Seq<char> {
    "could not open ALSA device '"@ + device + "': "@ + detail
}

/// What is said of a device that does not run at the rate of the audio.
pub open spec fn rate_text(device: Seq<char>, wanted: u32, got: u32) -> Seq<char> {
    "device '"@ + device + "' does not support "@ + decimal_text(wanted as nat)
        + " Hz natively (ALSA applied "@ + decimal_text(got as nat)
        + " Hz instead); aborting to avoid losing the bit-perfect guarantee"@
}

/// What is said of a device that stopped taking audio.
pub open spec fn stuck_text(device: Seq<char>, zero_writes: nat) -> Seq<char> {
    "device '"@ + device + "' stopped accepting audio ("@ + decimal_text(zero_writes)
        + " consecutive 0-frame writes); aborting instead of silently dropping the rest of the chunk"@
}

/// Why `device` could not be opened, given whether ALSA says that it is busy, and what it says.
pub fn open_error(device: &str, busy: bool, detail: &str) -> (r: OpenError)
    ensures
        if busy {
            r matches OpenError::Busy(why) && why.device@ == device@ && why.detail@ == detail@
        } else {
            r matches OpenError::Failed(why) && why@ == open_text(device@, detail@)
        },
{
    if busy {
        return OpenError::Busy(
            DeviceBusy { device: device.to_owned(), detail: detail.to_owned() },
        );
    }
    let mut why = String::new();
    why.push_str("could not open ALSA device '");
    why.push_str(device);
    why.push_str("': ");
    why.push_str(detail);
    assert(why@ =~= open_text(device@, detail@));
    OpenError::Failed(why)
}

/// The state of the running stream, as ALSA has it.
#[derive(Debug, Clone, Copy, PartialEq, Eq, Structural)]
pub enum StreamState {
    /// Playing, paused or draining: audio may be in flight.
    InFlight,
    /// Anything else.
    Idle,
}

/// How to pause.
#[derive(Debug, Clone, Copy, PartialEq, Eq, Structural)]
pub enum ToPause {
    /// Nothing: it is paused already.
    Nothing,
    /// Ask the device to pause, and throw its queue away if it won't.
    Hardware,
    /// Throw the device's queue away.
    Drop,
}

/// How to resume.
#[derive(Debug, PartialEq, Eq)]
pub enum ToResume {
    /// Nothing: it is not paused.
    Nothing,
    /// Ask the device to go on.
    Hardware,
    /// Prepare the device, and write this to it again.
    Replay(Vec<u8>),
}

/// A sound card that is open for playback.
pub struct AlsaSink {
    device: String,
    format: Format,
    source: SourceSpec,
    period_frames: usize,
    buffer_frames: usize,
    can_pause: bool,
    tail: TailBuffer,
    pause: PauseState,
    reported: bool,
}

/// A sink at one moment.
#[verifier::ext_equal]
pub struct SinkModel {
    /// The name of the device.
    pub device: Seq<char>,
    /// The format negotiated with it.
    pub format: Format,
    /// The format of the audio.
    pub source: SourceSpec,
    /// How much one write takes at most.
    pub period: nat,
    /// How much the device can hold.
    pub capacity: nat,
    /// Whether it pauses by itself.
    pub can_pause: bool,
    /// The last that was written to it.
    pub tail: Seq<u8>,
    /// Whether playback is paused in hardware.
    pub held: bool,
    /// What has to be written again on resume, if playback was paused by dropping.
    pub replay: Option<Seq<u8>>,
    /// Whether the verdict was given.
    pub reported: bool,
}

impl SinkModel {
    /// How many bytes a frame takes.
    pub open spec fn frame_bytes(self) -> int {
        sample_bytes(self.format) * self.source.channels
    }

    /// How many bytes of what was written last are kept.
    pub open spec fn keeps(self) -> nat {
        (self.capacity * self.frame_bytes()) as nat
    }

    /// Whether playback is running.
    pub open spec fn running(self) -> bool {
        !self.held && self.replay is None
    }

    /// What holds of a sink at every moment.
    pub open spec fn wf(self) -> bool {
        &&& self.source.channels > 0
        &&& self.period > 0
        &&& self.capacity > 0
        &&& self.keeps() <= usize::MAX
        &&& self.tail.len() <= self.keeps()
        &&& self.held ==> self.replay is None
    }

    /// How many frames a write of `count` samples takes.
    pub open spec fn taken(self, count: nat) -> nat {
        let frames = count / self.source.channels as nat;
        if frames <= self.period {
            frames
        } else {
            self.period
        }
    }

    /// Bytes were written to the device.
    pub open spec fn wrote(self, bytes: Seq<u8>) -> SinkModel {
        SinkModel { tail: last_bytes(self.tail + bytes, self.keeps()), ..self }
    }

    /// How many frames to replay if the device says that `delay` are still to be played.
    pub open spec fn pending(self, delay: Option<i64>) -> nat {
        let held = self.tail.len() / self.frame_bytes() as nat;
        match delay {
            Some(frames) if frames > 0 => if frames <= held {
                frames as nat
            } else {
                held
            },
            _ => 0,
        }
    }

    /// The device's queue was thrown away to pause.
    pub open spec fn dropped(self, delay: Option<i64>) -> SinkModel {
        SinkModel {
            tail: Seq::empty(),
            held: false,
            replay: Some(
                last_bytes(self.tail, (self.pending(delay) * self.frame_bytes()) as nat),
            ),
            ..self
        }
    }
}

impl View for AlsaSink {
    type V = SinkModel;

    closed spec fn view(&self) -> SinkModel {
        SinkModel {
            device: self.device@,
            format: self.format,
            source: self.source,
            period: self.period_frames as nat,
            capacity: self.buffer_frames as nat,
            can_pause: self.can_pause,
            tail: self.tail@,
            held: self.pause is Hardware,
            replay: match self.pause {
                PauseState::Dropped { replay } => Some(replay@),
                _ => None,
            },
            reported: self.reported,
        }
    }
}

impl AlsaSink {
    /// What holds of a sink at every moment.
    pub closed spec fn wf(self) -> bool {
        self@.wf() && self.tail.keeps() == self@.keeps()
    }

    /// A sink that holds together has a state that does.
    pub proof fn holds_together(self)
        requires
            self.wf(),
        ensures
            self@.wf(),
    {
    }

    /// A device was set up in `format` for audio like `source`, and runs with `committed`. Never
    /// let ALSA resample: bit-perfect means the hardware runs at exactly the source's rate, or the
    /// sink is not opened.
    pub fn open(device: &str, source: SourceSpec, format: Format, committed: Committed) -> (r: Result<
        Self,
        String,
    >)
        requires
            source.channels > 0,
            committed.buffer_frames * (sample_bytes(format) * source.channels) <= usize::MAX,
            sample_bytes(format) * source.channels <= usize::MAX,
        ensures
            if committed.rate == source.sample_rate {
                r matches Ok(sink) && sink.wf() && sink@ == (SinkModel {
                    device: device@,
                    format,
                    source,
                    period: if committed.period_frames == 0 {
                        1
                    } else {
                        committed.period_frames as nat
                    },
                    capacity: if committed.buffer_frames == 0 {
                        1
                    } else {
                        committed.buffer_frames as nat
                    },
                    can_pause: committed.can_pause,
                    tail: Seq::empty(),
                    held: false,
                    replay: None,
                    reported: false,
                })
            } else {
                r matches Err(why) && why@ == rate_text(
                    device@,
                    source.sample_rate,
                    committed.rate,
                )
            },
    {
        if committed.rate != source.sample_rate {
            let mut why = String::new();
            why.push_str("device '");
            why.push_str(device);
            why.push_str("' does not support ");
            why.push_str(decimal(source.sample_rate as u64).as_str());
            why.push_str(" Hz natively (ALSA applied ");
            why.push_str(decimal(committed.rate as u64).as_str());
            why.push_str(" Hz instead); aborting to avoid losing the bit-perfect guarantee");
            assert(why@ =~= rate_text(device@, source.sample_rate, committed.rate));
            return Err(why);
        }
        let period_frames: usize = if committed.period_frames == 0 {
            1
        } else {
            committed.period_frames
        };
        let buffer_frames: usize = if committed.buffer_frames == 0 {
            1
        } else {
            committed.buffer_frames
        };
        let bytes_per_frame: usize = bytes_per_sample(format) * source.channels as usize;
        assert(1 * bytes_per_frame == bytes_per_frame);
        let sink = AlsaSink {
            device: device.to_owned(),
            format,
            source,
            period_frames,
            buffer_frames,
            can_pause: committed.can_pause,
            tail: TailBuffer::new(buffer_frames * bytes_per_frame),
            pause: PauseState::Running,
            reported: false,
        };
        Ok(sink)
    }

    /// How many bytes a frame takes.
    pub fn bytes_per_frame(&self) -> (r: usize)
        requires
            self.wf(),
        ensures
            r == self@.frame_bytes(),
    {
        proof {
            let capacity = self@.capacity as int;
            let frame = self@.frame_bytes();
            assert(frame <= capacity * frame) by (nonlinear_arith)
                requires
                    capacity >= 1,
                    frame >= 0,
            ;
        }
        bytes_per_sample(self.format) * self.source.channels as usize
    }

    /// Whether the device pauses in hardware. When it doesn't (typical for USB DACs), pausing drops
    /// the queue and replays it on resume instead.
    pub fn supports_hw_pause(&self) -> (r: bool)
        ensures
            r == self@.can_pause,
    {
        self.can_pause
    }

    /// The format of the audio.
    pub fn spec(&self) -> (r: SourceSpec)
        ensures
            r == self@.source,
    {
        self.source
    }

    /// How many frames the device can hold queued at most.
    pub fn capacity_frames(&self) -> (r: u64)
        ensures
            r == self@.capacity,
    {
        self.buffer_frames as u64
    }

    /// How much of `samples` one write takes, and the bytes to write to the device for it.
    pub fn write(&self, samples: &[i32]) -> (r: Result<(usize, Vec<u8>), String>)
        requires
            self.wf(),
        ensures
            if self@.running() {
                let frames = self@.taken(samples@.len());
                r matches Ok((n, bytes)) && n == frames && bytes@ == packed_row(
                    self@.format,
                    samples@.take((frames * self@.source.channels) as int),
                )
            } else {
                r matches Err(why) && why@ == "write() called on a paused ALSA sink"@
            },
    {
        match &self.pause {
            PauseState::Running => {},
            _ => {
                return Err("write() called on a paused ALSA sink".to_owned());
            },
        }
        let channels: usize = self.source.channels as usize;
        let whole: usize = samples.len() / channels;
        let frames: usize = if whole <= self.period_frames {
            whole
        } else {
            self.period_frames
        };
        proof {
            vstd::arithmetic::div_mod::lemma_fundamental_div_mod(
                samples@.len() as int,
                channels as int,
            );
            assert(frames * channels <= samples@.len()) by (nonlinear_arith)
                requires
                    frames <= whole,
                    samples@.len() as int == channels as int * whole as int + samples@.len() as int
                        % channels as int,
                    0 <= samples@.len() as int % channels as int,
                    channels > 0,
            ;
        }
        Ok((frames, pack_frames(self.format, samples, frames * channels)))
    }

    /// Bytes were written to the device. Returns whether this is the moment to say whether playback
    /// is bit-perfect: once the first audio has been written, the device tells the parameters it
    /// actually runs with.
    pub fn wrote(&mut self, bytes: &[u8]) -> (r: bool)
        requires
            old(self).wf(),
            bytes@.len() > 0,
        ensures
            r == !old(self)@.reported,
            final(self)@ == (SinkModel { reported: true, ..old(self)@.wrote(bytes@) }),
            final(self).wf(),
    {
        let first = !self.reported;
        self.tail.push(bytes);
        self.reported = true;
        assert(self@ =~= (SinkModel { reported: true, ..old(self)@.wrote(bytes@) }));
        first
    }

    /// Frames accepted by the device that haven't been played yet, given the state of the stream
    /// and what ALSA says is in flight. Only a running (or hardware-paused) stream has audio in
    /// flight: in any other state that number can be stale.
    pub fn delay_frames(&self, state: StreamState, delay: Option<i64>) -> (r: u64)
        requires
            self.wf(),
        ensures
            r == match self@.replay {
                Some(replay) => replay.len() / self@.frame_bytes() as nat,
                None => match (state, delay) {
                    (StreamState::InFlight, Some(frames)) if frames > 0 => frames as nat,
                    _ => 0,
                },
            },
    {
        match &self.pause {
            PauseState::Dropped { replay } => {
                let frame: usize = self.bytes_per_frame();
                proof {
                    assert(self@.frame_bytes() > 0) by (nonlinear_arith)
                        requires
                            self@.frame_bytes() == sample_bytes(self@.format)
                                * self@.source.channels,
                            sample_bytes(self@.format) > 0,
                            self@.source.channels > 0,
                    ;
                }
                return (replay.len() / frame) as u64;
            },
            _ => {},
        }
        match (state, delay) {
            (StreamState::InFlight, Some(frames)) => if frames > 0 {
                frames as u64
            } else {
                0
            },
            _ => 0,
        }
    }

    /// How to pause without losing audio.
    pub fn pause(&self) -> (r: ToPause)
        ensures
            r == if !self@.running() {
                ToPause::Nothing
            } else if self@.can_pause {
                ToPause::Hardware
            } else {
                ToPause::Drop
            },
    {
        match &self.pause {
            PauseState::Running => if self.can_pause {
                ToPause::Hardware
            } else {
                ToPause::Drop
            },
            _ => ToPause::Nothing,
        }
    }

    /// The device paused by itself.
    pub fn held(&mut self)
        requires
            old(self).wf(),
            old(self)@.running(),
        ensures
            final(self)@ == (SinkModel { held: true, ..old(self)@ }),
            final(self).wf(),
    {
        self.pause = PauseState::Hardware;
    }

    /// The device's queue was thrown away to pause, while ALSA said that so much was in flight. The
    /// frames still queued have not been heard: they are kept, so that resuming can replay them
    /// instead of skipping that audio.
    pub fn dropped(&mut self, delay: Option<i64>)
        requires
            old(self).wf(),
            old(self)@.running(),
        ensures
            final(self)@ == old(self)@.dropped(delay),
            final(self).wf(),
    {
        let frame: usize = self.bytes_per_frame();
        proof {
            assert(self@.frame_bytes() > 0) by (nonlinear_arith)
                requires
                    self@.frame_bytes() == sample_bytes(self@.format) * self@.source.channels,
                    sample_bytes(self@.format) > 0,
                    self@.source.channels > 0,
            ;
        }
        let held: usize = self.tail.len() / frame;
        let pending: usize = match delay {
            Some(frames) => if frames > 0 {
                if frames as u64 <= held as u64 {
                    frames as usize
                } else {
                    held
                }
            } else {
                0
            },
            None => 0,
        };
        proof {
            let length = self.tail@.len() as int;
            vstd::arithmetic::div_mod::lemma_fundamental_div_mod(length, frame as int);
            assert(pending * frame <= length) by (nonlinear_arith)
                requires
                    pending <= held,
                    length == frame as int * held as int + length % frame as int,
                    0 <= length % frame as int,
                    frame > 0,
            ;
        }
        let replay = self.tail.take_last(pending * frame);
        self.tail.clear();
        self.pause = PauseState::Dropped { replay };
        assert(self@ =~= old(self)@.dropped(delay));
    }

    /// How to resume. Playback counts as running from here on.
    pub fn resume(&mut self) -> (r: ToResume)
        requires
            old(self).wf(),
        ensures
            final(self)@ == (SinkModel { held: false, replay: None, ..old(self)@ }),
            final(self).wf(),
            match old(self)@.replay {
                Some(replay) => r matches ToResume::Replay(bytes) && bytes@ == replay,
                None => if old(self)@.held {
                    r is Hardware
                } else {
                    r is Nothing
                },
            },
    {
        let mut before = PauseState::Running;
        std::mem::swap(&mut before, &mut self.pause);
        assert(self@ =~= (SinkModel { held: false, replay: None, ..old(self)@ }));
        match before {
            PauseState::Running => ToResume::Nothing,
            PauseState::Hardware => ToResume::Hardware,
            PauseState::Dropped { replay } => ToResume::Replay(replay),
        }
    }

    /// What a drop-based pause kept was written to the device again.
    pub fn replayed(&mut self, bytes: &[u8])
        requires
            old(self).wf(),
        ensures
            final(self)@ == old(self)@.wrote(bytes@),
            final(self).wf(),
    {
        self.tail.push(bytes);
        assert(self@ =~= old(self)@.wrote(bytes@));
    }

    /// The device's queue was thrown away, so that it is never heard, and the device is ready for
    /// new audio.
    pub fn flushed(&mut self)
        requires
            old(self).wf(),
        ensures
            final(self)@ == (SinkModel {
                tail: Seq::empty(),
                held: false,
                replay: None,
                ..old(self)@
            }),
            final(self).wf(),
    {
        self.tail.clear();
        self.pause = PauseState::Running;
        assert(self@ =~= (SinkModel { tail: Seq::empty(), held: false, replay: None, ..old(self)@ }));
    }

    /// Everything queued was played out (a paused sink is resumed first: it would never finish), and
    /// the device is ready for new audio.
    pub fn drained(&mut self)
        requires
            old(self).wf(),
            old(self)@.running(),
        ensures
            final(self)@ == (SinkModel { tail: Seq::empty(), ..old(self)@ }),
            final(self).wf(),
    {
        self.tail.clear();
        assert(self@ =~= (SinkModel { tail: Seq::empty(), ..old(self)@ }));
    }
}

/// A pause by dropping, followed by a resume, writes exactly what the listener had not heard: the
/// last `delay` frames of what was written, as long as the sink keeps that many.
pub proof fn a_dropped_pause_replays_what_was_not_heard(sink: SinkModel, delay: i64)
    requires
        sink.wf(),
        delay >= 0,
        delay * sink.frame_bytes() <= sink.tail.len(),
    ensures
        sink.dropped(Some(delay)).replay == Some(
            last_bytes(sink.tail, (delay * sink.frame_bytes()) as nat),
        ),
        last_bytes(sink.tail, (delay * sink.frame_bytes()) as nat).len() == delay
            * sink.frame_bytes(),
{
    let frame = sink.frame_bytes();
    let length = sink.tail.len() as int;
    assert(frame > 0) by (nonlinear_arith)
        requires
            frame == sample_bytes(sink.format) * sink.source.channels,
            sample_bytes(sink.format) > 0,
            sink.source.channels > 0,
    ;
    vstd::arithmetic::div_mod::lemma_fundamental_div_mod(length, frame);
    assert(delay <= length / frame) by (nonlinear_arith)
        requires
            delay * frame <= length,
            length == frame * (length / frame) + length % frame,
            length % frame < frame,
            frame > 0,
    ;
    assert(delay * frame >= 0) by (nonlinear_arith)
        requires
            delay >= 0,
            frame > 0,
    ;
    if delay == 0 {
        assert(0 * frame == 0);
    }
}

/// How one attempt to hand bytes to the device went.
#[derive(Debug, PartialEq, Eq)]
pub enum Wrote {
    /// So many frames were taken.
    Frames(usize),
    /// The device ran dry.
    Underrun,
    /// It failed, with why.
    Failed(String),
}

/// What to do next to hand all of some bytes to the device.
#[derive(Debug, PartialEq, Eq)]
pub enum WriteStep {
    /// Write what is left.
    Write,
    /// Wait until the device takes more, then write what is left.
    Wait,
    /// Recover the device, then write what is left.
    Recover,
    /// Everything was written.
    Done,
    /// Give up, with this error.
    Fail(String),
}

/// Handing all of some bytes, whole frames, to a device.
pub struct WriteAll {
    device: String,
    frame: usize,
    length: usize,
    offset: usize,
    zero_writes: u32,
}

impl WriteAll {
    /// The device.
    pub closed spec fn to(self) -> Seq<char> {
        self.device@
    }

    /// How many bytes a frame takes.
    pub closed spec fn frame_bytes(self) -> nat {
        self.frame as nat
    }

    /// How many bytes there are.
    pub closed spec fn length(self) -> nat {
        self.length as nat
    }

    /// How many of them were written.
    pub closed spec fn written(self) -> nat {
        self.offset as nat
    }

    /// How many attempts in a row the device took nothing.
    pub closed spec fn in_vain(self) -> nat {
        self.zero_writes as nat
    }

    /// What holds at every moment.
    pub open spec fn wf(self) -> bool {
        &&& self.written() <= self.length()
        &&& self.in_vain() <= MAX_CONSECUTIVE_ZERO_WRITES
    }

    /// `length` bytes, in frames of `frame` bytes, are to be written.
    pub fn new(device: &str, frame: usize, length: usize) -> (r: Self)
        ensures
            r.to() == device@,
            r.frame_bytes() == frame,
            r.length() == length,
            r.written() == 0,
            r.in_vain() == 0,
            r.wf(),
    {
        WriteAll { device: device.to_owned(), frame, length, offset: 0, zero_writes: 0 }
    }

    /// Where what is left begins.
    pub fn offset(&self) -> (r: usize)
        ensures
            r == self.written(),
    {
        self.offset
    }

    /// What to do first.
    pub fn begin(&self) -> (r: WriteStep)
        ensures
            if self.written() < self.length() {
                r is Write
            } else {
                r is Done
            },
    {
        if self.offset < self.length {
            WriteStep::Write
        } else {
            WriteStep::Done
        }
    }

    /// An attempt was made. A device that takes nothing is waited for, but not forever; one that
    /// ran dry is recovered. Nothing is ever silently dropped.
    pub fn wrote(&mut self, outcome: Wrote) -> (r: WriteStep)
        requires
            old(self).wf(),
            outcome matches Wrote::Frames(n) ==> old(self).written() + n * old(self).frame_bytes()
                <= old(self).length(),
        ensures
            final(self).to() == old(self).to(),
            final(self).frame_bytes() == old(self).frame_bytes(),
            final(self).length() == old(self).length(),
            match outcome {
                Wrote::Frames(n) => if n == 0 {
                    &&& final(self).written() == old(self).written()
                    &&& if old(self).in_vain() < MAX_CONSECUTIVE_ZERO_WRITES {
                        &&& r is Wait
                        &&& final(self).in_vain() == old(self).in_vain() + 1
                        &&& final(self).wf()
                    } else {
                        r matches WriteStep::Fail(why) && why@ == stuck_text(
                            old(self).to(),
                            old(self).in_vain() + 1,
                        )
                    }
                } else {
                    &&& final(self).wf()
                    &&& final(self).in_vain() == 0
                    &&& final(self).written() == old(self).written() + n * old(self).frame_bytes()
                    &&& if final(self).written() < final(self).length() {
                        r is Write
                    } else {
                        r is Done
                    }
                },
                Wrote::Underrun => r is Recover && *final(self) == *old(self),
                Wrote::Failed(why) => {
                    &&& *final(self) == *old(self)
                    &&& r matches WriteStep::Fail(text) && text@
                        == "error writing to the ALSA device: "@ + why@
                },
            },
    {
        match outcome {
            Wrote::Frames(n) => {
                if n == 0 {
                    if self.zero_writes < MAX_CONSECUTIVE_ZERO_WRITES {
                        self.zero_writes = self.zero_writes + 1;
                        return WriteStep::Wait;
                    }
                    let mut why = String::new();
                    why.push_str("device '");
                    why.push_str(self.device.as_str());
                    why.push_str("' stopped accepting audio (");
                    why.push_str(decimal(self.zero_writes as u64 + 1).as_str());
                    why.push_str(
                        " consecutive 0-frame writes); aborting instead of silently dropping the rest of the chunk",
                    );
                    assert(why@ =~= stuck_text(self.to(), self.in_vain() + 1));
                    return WriteStep::Fail(why);
                }
                self.zero_writes = 0;
                self.offset = self.offset + n * self.frame;
                self.begin()
            },
            Wrote::Underrun => WriteStep::Recover,
            Wrote::Failed(why) => WriteStep::Fail(
                crate::text::joined("error writing to the ALSA device: ", why.as_str()),
            ),
        }
    }
}

// ---- the verdict -------------------------------------------------------------------------------

/// What the kernel says about a running stream.
#[derive(Debug, Clone, PartialEq, Eq)]
#[allow(inconsistent_fields)]
pub enum ProcReading {
    /// The device is not a raw `hw:N,D` one, so there is nothing to check (and a plug layer such as
    /// dmix or PipeWire may be resampling).
    NotHw,
    /// It could not be read.
    Unreadable {
        /// Where it would be.
        path: String,
        /// Why not.
        error: String,
    },
    /// It was read.
    Read {
        /// Where it is.
        path: String,
        /// What it says.
        contents: String,
    },
}

/// Whether playback is bit-perfect, and the evidence: the device's own account of the format and
/// rate it runs at, compared with the source's.
#[derive(Debug, Clone, PartialEq, Eq)]
pub struct SinkReport {
    /// The name of the device.
    pub device: String,
    /// The format of the audio being played.
    pub source: SourceSpec,
    /// The ALSA sample format negotiated with the device, e.g. `S24_3LE`.
    pub negotiated_format: String,
    /// What the kernel says.
    pub proc: ProcReading,
}

/// The card and the device of a name like `hw:N,D`; nothing of any other name.
pub open spec fn hw_numbers(device: Seq<char>) -> Option<(nat, nat)> {
    if !"hw:"@.is_prefix_of(device) {
        None
    } else {
        match cut(device.skip("hw:"@.len() as int), ","@) {
            Some((card, pcm)) => match (
                parsed(card, u32::MAX as nat),
                parsed(pcm, u32::MAX as nat),
            ) {
                (Some(card), Some(pcm)) => Some((card, pcm)),
                _ => None,
            },
            None => None,
        }
    }
}

/// Reads a name like `hw:N,D`. `None` for anything else (`default`, `plughw:...`), since the check
/// against the kernel only makes sense for a raw device.
pub fn parse_hw_device(device: &str) -> (r: Option<(u32, u32)>)
    ensures
        match r {
            Some((card, pcm)) => hw_numbers(device@) == Some((card as nat, pcm as nat)),
            None => hw_numbers(device@) is None,
        },
{
    let rest = match strip_prefix(device, "hw:") {
        Some(rest) => rest,
        None => {
            return None;
        },
    };
    let (card, pcm): (String, String) = match split_once(rest.as_str(), ",") {
        Some(parts) => parts,
        None => {
            return None;
        },
    };
    match (parse_u32(card.as_str()), parse_u32(pcm.as_str())) {
        (Some(card), Some(pcm)) => Some((card, pcm)),
        _ => None,
    }
}

/// Where the kernel describes the running stream of a card's device.
pub fn proc_path(card: u32, device: u32) -> (r: String)
    ensures
        r@ == "/proc/asound/card"@ + decimal_text(card as nat) + "/pcm"@ + decimal_text(
            device as nat,
        ) + "p/sub0/hw_params"@,
{
    let mut path = String::new();
    path.push_str("/proc/asound/card");
    path.push_str(decimal(card as u64).as_str());
    path.push_str("/pcm");
    path.push_str(decimal(device as u64).as_str());
    path.push_str("p/sub0/hw_params");
    assert(path@ =~= "/proc/asound/card"@ + decimal_text(card as nat) + "/pcm"@ + decimal_text(
        device as nat,
    ) + "p/sub0/hw_params"@);
    path
}

/// The value on the first of `rows` that reads `key: value`.
pub open spec fn field_in(rows: Seq<Seq<char>>, key: Seq<char>) -> Option<Seq<char>>
    decreases rows.len(),
{
    if rows.len() == 0 {
        None
    } else {
        match cut(rows[0], ":"@) {
            Some((name, value)) if trimmed(name) == key => Some(trimmed(value)),
            _ => field_in(rows.skip(1), key),
        }
    }
}

/// The value on the first line that reads `key: value` in what the kernel says.
pub fn extract_proc_field(contents: &str, key: &str) -> (r: Option<String>)
    ensures
        match r {
            Some(value) => field_in(lines(contents@), key@) == Some(value@),
            None => field_in(lines(contents@), key@) is None,
        },
{
    let rows = lines_of(contents);
    let ghost all = lines(contents@);
    let mut i: usize = 0;
    assert(all.skip(0) =~= all);
    assert(texts_of(rows@).len() == rows@.len());
    while i < rows.len()
        invariant
            i <= rows.len(),
            texts_of(rows@) == all,
            rows@.len() == all.len(),
            field_in(all, key@) == field_in(all.skip(i as int), key@),
            all == lines(contents@),
        decreases rows.len() - i,
    {
        assert(all.skip(i as int)[0] == rows@[i as int]@);
        assert(all.skip(i as int).skip(1) =~= all.skip(i + 1));
        if let Some((name, value)) = split_once(rows[i].as_str(), ":") {
            if same(trim(name.as_str()).as_str(), key) {
                return Some(trim(value.as_str()));
            }
        }
        i += 1;
    }
    None
}

/// The number that the line `rate: ...` begins with.
pub open spec fn rate_in(contents: Seq<char>) -> Option<nat> {
    match field_in(lines(contents), "rate"@) {
        Some(value) => match first_word(value) {
            Some(word) => parsed(word, u32::MAX as nat),
            None => None,
        },
        None => None,
    }
}

/// The number that the line `rate: ...` begins with: it looks like `rate: 96000 (96000/1)`.
pub fn extract_proc_rate(contents: &str) -> (r: Option<u32>)
    ensures
        match r {
            Some(rate) => rate_in(contents@) == Some(rate as nat),
            None => rate_in(contents@) is None,
        },
{
    match extract_proc_field(contents, "rate") {
        Some(value) => match first_word_of(value.as_str()) {
            Some(word) => parse_u32(word.as_str()),
            None => None,
        },
        None => None,
    }
}

impl SinkReport {
    /// A report.
    pub fn new(
        device: String,
        source: SourceSpec,
        negotiated_format: String,
        proc: ProcReading,
    ) -> (r: Self)
        ensures
            r == (SinkReport { device, source, negotiated_format, proc }),
    {
        SinkReport { device, source, negotiated_format, proc }
    }

    /// The sample rate the kernel reports for the running stream.
    pub open spec fn rate(self) -> Option<nat> {
        match self.proc {
            ProcReading::Read { path, contents } => rate_in(contents@),
            _ => None,
        }
    }

    /// The sample format the kernel reports for the running stream.
    pub open spec fn format(self) -> Option<Seq<char>> {
        match self.proc {
            ProcReading::Read { path, contents } => field_in(lines(contents@), "format"@),
            _ => None,
        }
    }

    /// True only when the kernel confirms the device runs at exactly the source's rate and the
    /// format that was negotiated. Anything less (including not being able to check) is not.
    pub open spec fn confirmed(self) -> bool {
        &&& self.rate() == Some(self.source.sample_rate as nat)
        &&& self.format() == Some(self.negotiated_format@)
    }

    /// The sample rate the kernel reports for the running stream.
    pub fn device_rate(&self) -> (r: Option<u32>)
        ensures
            match r {
                Some(rate) => self.rate() == Some(rate as nat),
                None => self.rate() is None,
            },
    {
        match &self.proc {
            ProcReading::Read { path: _, contents } => extract_proc_rate(contents.as_str()),
            _ => None,
        }
    }

    /// The sample format the kernel reports for the running stream.
    pub fn device_format(&self) -> (r: Option<String>)
        ensures
            match r {
                Some(format) => self.format() == Some(format@),
                None => self.format() is None,
            },
    {
        match &self.proc {
            ProcReading::Read { path: _, contents } => extract_proc_field(
                contents.as_str(),
                "format",
            ),
            _ => None,
        }
    }

    /// Whether the kernel confirms that playback is bit-perfect.
    pub fn bit_perfect(&self) -> (r: bool)
        ensures
            r == self.confirmed(),
    {
        match (self.device_rate(), self.device_format()) {
            (Some(rate), Some(format)) => rate == self.source.sample_rate && same(
                format.as_str(),
                self.negotiated_format.as_str(),
            ),
            _ => false,
        }
    }

    /// Why playback is not known to be bit-perfect.
    pub open spec fn problem_text(self) -> Seq<char> {
        if self.proc is NotHw {
            "the device is not hw:N,D (possible resampling/mixing via dmix/PipeWire)"@
        } else {
            match (self.rate(), self.format()) {
                (Some(rate), Some(format)) => if rate != self.source.sample_rate {
                    "the card reports "@ + decimal_text(rate) + " Hz instead of "@ + decimal_text(
                        self.source.sample_rate as nat,
                    ) + " Hz"@
                } else {
                    "the card reports format "@ + format + " instead of "@ + self.negotiated_format@
                },
                _ => "could not read /proc/asound to confirm it"@,
            }
        }
    }

    /// Why playback is not known to be bit-perfect; `None` when it is.
    pub fn problem(&self) -> (r: Option<String>)
        ensures
            match r {
                Some(why) => !self.confirmed() && why@ == self.problem_text(),
                None => self.confirmed(),
            },
    {
        if self.bit_perfect() {
            return None;
        }
        match &self.proc {
            ProcReading::NotHw => {
                return Some(
                    "the device is not hw:N,D (possible resampling/mixing via dmix/PipeWire)".to_owned(),
                );
            },
            _ => {},
        }
        match (self.device_rate(), self.device_format()) {
            (Some(rate), Some(format)) => {
                let mut why = String::new();
                if rate != self.source.sample_rate {
                    why.push_str("the card reports ");
                    why.push_str(decimal(rate as u64).as_str());
                    why.push_str(" Hz instead of ");
                    why.push_str(decimal(self.source.sample_rate as u64).as_str());
                    why.push_str(" Hz");
                } else {
                    why.push_str("the card reports format ");
                    why.push_str(format.as_str());
                    why.push_str(" instead of ");
                    why.push_str(self.negotiated_format.as_str());
                }
                assert(why@ =~= self.problem_text());
                Some(why)
            },
            _ => Some("could not read /proc/asound to confirm it".to_owned()),
        }
    }

    /// The kernel's own account, as the terminal player shows it.
    pub open spec fn account_text(self) -> Seq<char> {
        match self.proc {
            ProcReading::NotHw => "Device '"@ + self.device@
                + "' is not in hw:N,D form; skipping the /proc/asound check.\n"@,
            ProcReading::Unreadable { path, error } => "Warning: could not read "@ + path@ + ": "@
                + error@ + "\n"@,
            ProcReading::Read { path, contents } => "--- "@ + path@ + " ---\n"@ + contents@,
        }
    }

    /// The verdict, as the terminal player shows it.
    pub open spec fn verdict_text(self) -> Seq<char> {
        "FLAC "@ + decimal_text(self.source.bits_per_sample as nat) + "-bit/"@ + decimal_text(
            self.source.sample_rate as nat,
        ) + " Hz "@ + decimal_text(self.source.channels as nat) + "ch → "@ + self.device@ + " "@
            + self.negotiated_format@ + if self.confirmed() {
            " "@ + decimal_text(self.source.sample_rate as nat) + " Hz  ✔ BIT-PERFECT"@
        } else {
            "  ✖ CONVERTED ("@ + self.problem_text() + ")"@
        }
    }

    /// The report as the terminal player shows it: the kernel's own account, then the verdict.
    pub fn to_text(&self) -> (r: String)
        ensures
            r@ == self.account_text() + self.verdict_text(),
    {
        let mut text = String::new();
        match &self.proc {
            ProcReading::NotHw => {
                text.push_str("Device '");
                text.push_str(self.device.as_str());
                text.push_str("' is not in hw:N,D form; skipping the /proc/asound check.\n");
            },
            ProcReading::Unreadable { path, error } => {
                text.push_str("Warning: could not read ");
                text.push_str(path.as_str());
                text.push_str(": ");
                text.push_str(error.as_str());
                text.push_str("\n");
            },
            ProcReading::Read { path, contents } => {
                text.push_str("--- ");
                text.push_str(path.as_str());
                text.push_str(" ---\n");
                text.push_str(contents.as_str());
            },
        }
        assert(text@ =~= self.account_text());
        let mut verdict = String::new();
        verdict.push_str("FLAC ");
        verdict.push_str(decimal(self.source.bits_per_sample as u64).as_str());
        verdict.push_str("-bit/");
        verdict.push_str(decimal(self.source.sample_rate as u64).as_str());
        verdict.push_str(" Hz ");
        verdict.push_str(decimal(self.source.channels as u64).as_str());
        verdict.push_str("ch → ");
        verdict.push_str(self.device.as_str());
        verdict.push_str(" ");
        verdict.push_str(self.negotiated_format.as_str());
        match self.problem() {
            None => {
                verdict.push_str(" ");
                verdict.push_str(decimal(self.source.sample_rate as u64).as_str());
                verdict.push_str(" Hz  ✔ BIT-PERFECT");
            },
            Some(reason) => {
                verdict.push_str("  ✖ CONVERTED (");
                verdict.push_str(reason.as_str());
                verdict.push_str(")");
            },
        }
        assert(verdict@ =~= self.verdict_text());
        text.push_str(verdict.as_str());
        text
    }
}

/// Playback is called bit-perfect only on the kernel's word: never for a device that is not raw
/// hardware, and never when nothing could be read.
pub proof fn nothing_is_assumed_bit_perfect(report: SinkReport)
    ensures
        report.confirmed() ==> report.proc is Read,
{
}

} // verus!
