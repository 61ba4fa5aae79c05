//! An in-memory device for tests: no hardware, no timing.
//!
//! It models a device with a bounded queue. Written audio sits in the queue until it is played,
//! either explicitly with [`FakeSinkHandle::advance`] or when the queue overflows (which is what a
//! blocking write does: it waits for the device to consume audio). Everything that is played is
//! recorded, so tests can tell the exact sample stream, including across pauses, flushes and seeks.
//!
//! In blocking mode ([`FakeSinkHandle::set_blocking`]) a write to a full queue reports that it has
//! to wait until the test calls [`FakeSinkHandle::advance`].

use super::reserve::ReserveError;
use super::ReleaseRequest;
use crate::decode::SourceSpec;
use crate::text::{decimal, decimal_text};
use vstd::prelude::*;

verus! {

const DEFAULT_PERIOD_FRAMES: usize = 1024;

const DEFAULT_CAPACITY_FRAMES: usize = 4096;

/// A device at one moment.
#[verifier::ext_equal]
pub struct Device {
    /// Audio accepted by the device but not yet played.
    pub queued: Seq<i32>,
    /// Everything that was played, in order.
    pub played: Seq<i32>,
    /// Nothing is played while paused.
    pub paused: bool,
    /// Writes are played at once.
    pub autoplay: bool,
    /// A write to a full queue waits.
    pub blocking: bool,
    /// How often the queue was thrown away.
    pub flushes: u32,
    /// How often the queue was played out.
    pub drains: u32,
}

impl Device {
    /// A device with nothing in it.
    pub open spec fn empty() -> Device {
        Device {
            queued: Seq::empty(),
            played: Seq::empty(),
            paused: false,
            autoplay: false,
            blocking: false,
            flushes: 0,
            drains: 0,
        }
    }

    /// Everything that was or will be played, unless it is thrown away.
    pub open spec fn stream(self) -> Seq<i32> {
        self.played + self.queued
    }

    /// The oldest `count` samples were played.
    pub open spec fn play(self, count: int) -> Device {
        Device {
            played: self.played + self.queued.take(count),
            queued: self.queued.skip(count),
            ..self
        }
    }

    /// Up to `count` of the oldest samples were played, if it is not paused.
    pub open spec fn advance(self, count: int) -> Device {
        if self.paused {
            self
        } else if count <= self.queued.len() {
            self.play(count)
        } else {
            self.play(self.queued.len() as int)
        }
    }

    /// `samples` were written to a queue of `capacity`. When it is full, the oldest audio is played
    /// to make room.
    pub open spec fn write(self, samples: Seq<i32>, capacity: int) -> Device {
        if self.autoplay {
            Device { played: self.played + samples, ..self }
        } else {
            let over = self.queued.len() + samples.len() - capacity;
            let roomy = if over > 0 {
                self.play(over)
            } else {
                self
            };
            Device { queued: roomy.queued + samples, ..roomy }
        }
    }

    /// Whether a write of `count` samples has to wait for room.
    pub open spec fn blocks(self, count: int, capacity: int) -> bool {
        !self.autoplay && self.blocking && self.queued.len() + count > capacity
    }

    /// The queue was thrown away.
    pub open spec fn flush(self) -> Device {
        Device {
            queued: Seq::empty(),
            paused: false,
            flushes: (self.flushes + 1) as u32,
            ..self
        }
    }

    /// The queue was played out.
    pub open spec fn drain(self) -> Device {
        Device {
            paused: false,
            drains: (self.drains + 1) as u32,
            ..self.play(self.queued.len() as int)
        }
    }
}

/// What can be done with a sink, and with what is inside it.
pub enum SinkCall {
    /// [`FakeSink::write`].
    Write(Seq<i32>),
    /// [`FakeSink::pause`].
    Pause,
    /// [`FakeSink::resume`].
    Resume,
    /// [`FakeSink::flush`].
    Flush,
    /// [`FakeSink::drain`].
    Drain,
    /// [`FakeSinkHandle::advance`].
    Advance(nat),
    /// [`FakeSinkHandle::set_blocking`].
    SetBlocking(bool),
    /// [`FakeSinkHandle::set_autoplay`].
    SetAutoplay(bool),
}

/// A device that is open for playback.
#[derive(Debug, Clone, Copy, PartialEq, Eq, Structural)]
pub struct FakeSink {
    spec: SourceSpec,
    period_frames: usize,
    capacity_frames: usize,
}

/// What is inside a [`FakeSink`].
#[derive(Debug)]
pub struct FakeSinkHandle {
    spec: SourceSpec,
    queued: Vec<i32>,
    played: Vec<i32>,
    paused: bool,
    autoplay: bool,
    blocking: bool,
    flushes: u32,
    drains: u32,
}

impl View for FakeSinkHandle {
    type V = Device;

    closed spec fn view(&self) -> Device {
        Device {
            queued: self.queued@,
            played: self.played@,
            paused: self.paused,
            autoplay: self.autoplay,
            blocking: self.blocking,
            flushes: self.flushes,
            drains: self.drains,
        }
    }
}

/// What became of a write.
#[derive(Debug, Clone, Copy, PartialEq, Eq, Structural)]
pub enum Accepted {
    /// So many frames were taken.
    Frames(usize),
    /// The queue is full: nothing was taken, and the write has to be tried again once the device
    /// played something.
    Full,
}

/// The samples of `row` between two places.
fn copied(row: &[i32], from: usize, to: usize) -> (r: Vec<i32>)
    requires
        from <= to <= row@.len(),
    ensures
        r@ == row@.subrange(from as int, to as int),
{
    let mut copy: Vec<i32> = Vec::new();
    let mut i: usize = from;
    while i < to
        invariant
            from <= i <= to <= row@.len(),
            copy@ == row@.subrange(from as int, i as int),
        decreases to - i,
    {
        copy.push(row[i]);
        assert(row@.subrange(from as int, i + 1) =~= row@.subrange(from as int, i as int).push(
            row@[i as int],
        ));
        i += 1;
    }
    copy
}

impl FakeSink {
    /// The format the sink was opened with.
    pub closed spec fn spec_of(self) -> SourceSpec {
        self.spec
    }

    /// How much one write takes at most.
    pub closed spec fn period(self) -> nat {
        self.period_frames as nat
    }

    /// How much can be queued at most.
    pub closed spec fn capacity(self) -> nat {
        self.capacity_frames as nat
    }

    /// How many samples can be queued at most.
    pub open spec fn capacity_samples(self) -> int {
        self.capacity() * self.spec_of().channels
    }

    /// What holds of every sink.
    pub open spec fn wf(self) -> bool {
        &&& self.spec_of().channels > 0
        &&& 0 < self.period() <= self.capacity()
        &&& self.capacity_samples() <= usize::MAX
    }

    /// Whether `device` is what is inside this sink.
    pub open spec fn drives(self, device: FakeSinkHandle) -> bool {
        &&& device.format() == self.spec_of()
        &&& device@.queued.len() <= self.capacity_samples()
    }

    /// A sink with a 1024-frame period and a 4096-frame queue, in manual mode: nothing is played
    /// until [`FakeSinkHandle::advance`] is called (or the queue overflows).
    pub fn new(spec: SourceSpec) -> (r: (Self, FakeSinkHandle))
        requires
            spec.channels > 0,
            4096 * spec.channels <= usize::MAX,
        ensures
            r.0.wf(),
            r.0.drives(r.1),
            r.0.spec_of() == spec,
            r.0.period() == 1024,
            r.0.capacity() == 4096,
            r.1@ == Device::empty(),
    {
        FakeSink::with_sizes(spec, DEFAULT_PERIOD_FRAMES, DEFAULT_CAPACITY_FRAMES)
    }

    /// A sink with a period and a queue of the given lengths, in manual mode.
    pub fn with_sizes(spec: SourceSpec, period_frames: usize, capacity_frames: usize) -> (r: (
        Self,
        FakeSinkHandle,
    ))
        requires
            spec.channels > 0,
            0 < period_frames <= capacity_frames,
            capacity_frames * spec.channels <= usize::MAX,
        ensures
            r.0.wf(),
            r.0.drives(r.1),
            r.0.spec_of() == spec,
            r.0.period() == period_frames,
            r.0.capacity() == capacity_frames,
            r.1@ == Device::empty(),
    {
        let sink = FakeSink { spec, period_frames, capacity_frames };
        let handle = FakeSinkHandle {
            spec,
            queued: Vec::new(),
            played: Vec::new(),
            paused: false,
            autoplay: false,
            blocking: false,
            flushes: 0,
            drains: 0,
        };
        assert(handle@ =~= Device::empty());
        (sink, handle)
    }

    /// The format the sink was opened with.
    pub fn spec(&self) -> (r: SourceSpec)
        ensures
            r == self.spec_of(),
    {
        self.spec
    }

    /// How many frames the device can hold queued at most.
    pub fn capacity_frames(&self) -> (r: u64)
        ensures
            r == self.capacity(),
    {
        self.capacity_frames as u64
    }

    /// How many frames a write of `count` samples takes.
    pub open spec fn taken(self, count: nat) -> nat {
        let frames = count / self.spec_of().channels as nat;
        if frames <= self.period() {
            frames
        } else {
            self.period()
        }
    }

    /// The part of `samples` that a write takes. `None` if it fails, because the sink is paused, or
    /// has to wait.
    pub open spec fn accepts(self, device: Device, samples: Seq<i32>) -> Option<Seq<i32>> {
        let count = self.taken(samples.len()) * self.spec_of().channels;
        if device.paused || device.blocks(count, self.capacity_samples()) {
            None
        } else {
            Some(samples.take(count))
        }
    }

    /// What is inside the sink after `call`.
    pub open spec fn after(self, device: Device, call: SinkCall) -> Device {
        match call {
            SinkCall::Write(samples) => match self.accepts(device, samples) {
                Some(taken) => device.write(taken, self.capacity_samples()),
                None => device,
            },
            SinkCall::Pause => Device { paused: true, ..device },
            SinkCall::Resume => Device { paused: false, ..device },
            SinkCall::Flush => device.flush(),
            SinkCall::Drain => device.drain(),
            SinkCall::Advance(frames) => device.advance(frames * self.spec_of().channels),
            SinkCall::SetBlocking(blocking) => Device { blocking, ..device },
            SinkCall::SetAutoplay(autoplay) => Device { autoplay, ..device },
        }
    }

    /// What is inside the sink after `calls`, one after the other.
    pub open spec fn after_all(self, device: Device, calls: Seq<SinkCall>) -> Device
        decreases calls.len(),
    {
        if calls.len() == 0 {
            device
        } else {
            self.after(self.after_all(device, calls.drop_last()), calls.last())
        }
    }

    /// Everything that the writes among `calls` took, in order.
    pub open spec fn accepted(self, device: Device, calls: Seq<SinkCall>) -> Seq<i32>
        decreases calls.len(),
    {
        if calls.len() == 0 {
            Seq::empty()
        } else {
            let before = self.after_all(device, calls.drop_last());
            let so_far = self.accepted(device, calls.drop_last());
            match calls.last() {
                SinkCall::Write(samples) => match self.accepts(before, samples) {
                    Some(taken) => so_far + taken,
                    None => so_far,
                },
                _ => so_far,
            }
        }
    }

    /// Accepts up to one period of frames from `samples`. Must not be called while paused.
    pub fn write(&mut self, device: &mut FakeSinkHandle, samples: &[i32]) -> (r: Result<
        Accepted,
        String,
    >)
        requires
            old(self).wf(),
            old(self).drives(*old(device)),
        ensures
            *final(self) == *old(self),
            final(self).drives(*final(device)),
            final(device)@ == old(self).after(old(device)@, SinkCall::Write(samples@)),
            if old(device)@.paused {
                r matches Err(why) && why@ == "write() called on a paused sink"@
            } else if old(self).accepts(old(device)@, samples@) is None {
                r == Ok::<Accepted, String>(Accepted::Full)
            } else {
                r matches Ok(Accepted::Frames(n)) && n == old(self).taken(samples@.len())
            },
    {
        let channels: usize = self.spec.channels as usize;
        let whole: usize = samples.len() / channels;
        let frames: usize = if whole <= self.period_frames {
            whole
        } else {
            self.period_frames
        };
        proof {
            vstd::arithmetic::div_mod::lemma_fundamental_div_mod(
                samples@.len() as int,
                channels as int,
            );
            assert(frames * channels <= samples@.len()) by (nonlinear_arith)
                requires
                    frames <= whole,
                    samples@.len() as int == channels as int * whole as int + samples@.len() as int
                        % channels as int,
                    0 <= samples@.len() as int % channels as int,
                    channels > 0,
            ;
            assert(frames * channels <= self.capacity_frames * channels) by (nonlinear_arith)
                requires
                    frames <= self.capacity_frames,
            ;
        }
        let count: usize = frames * channels;
        let capacity: usize = self.capacity_frames * channels;
        if device.paused {
            return Err("write() called on a paused sink".to_owned());
        }
        let mut taken = copied(samples, 0, count);
        assert(taken@ =~= samples@.take(count as int));
        if device.autoplay {
            device.played.append(&mut taken);
            return Ok(Accepted::Frames(frames));
        }
        if device.queued.len() > capacity - count {
            if device.blocking {
                return Ok(Accepted::Full);
            }
            let over: usize = device.queued.len() - (capacity - count);
            device.play(over);
        }
        device.queued.append(&mut taken);
        Ok(Accepted::Frames(frames))
    }

    /// Frames accepted by the device that haven't been played yet.
    pub fn delay_frames(&self, device: &FakeSinkHandle) -> (r: u64)
        requires
            self.wf(),
            self.drives(*device),
        ensures
            r == device@.queued.len() / self.spec_of().channels as nat,
    {
        (device.queued.len() / self.spec.channels as usize) as u64
    }

    /// Pauses playback without losing audio.
    pub fn pause(&mut self, device: &mut FakeSinkHandle)
        ensures
            *final(self) == *old(self),
            final(device).format() == old(device).format(),
            final(device)@ == (Device { paused: true, ..old(device)@ }),
    {
        device.paused = true;
    }

    /// Undoes [`FakeSink::pause`].
    pub fn resume(&mut self, device: &mut FakeSinkHandle)
        ensures
            *final(self) == *old(self),
            final(device).format() == old(device).format(),
            final(device)@ == (Device { paused: false, ..old(device)@ }),
    {
        device.paused = false;
    }

    /// Discards everything queued in the device, so it is never heard, and leaves the sink ready
    /// for new audio (also when paused).
    pub fn flush(&mut self, device: &mut FakeSinkHandle)
        requires
            old(device)@.flushes < u32::MAX,
        ensures
            *final(self) == *old(self),
            final(device).format() == old(device).format(),
            final(device)@ == old(device)@.flush(),
    {
        device.queued = Vec::new();
        device.paused = false;
        device.flushes = device.flushes + 1;
        assert(device@ =~= old(device)@.flush());
    }

    /// Plays everything queued. The sink can be written to again afterwards.
    pub fn drain(&mut self, device: &mut FakeSinkHandle)
        requires
            old(device)@.drains < u32::MAX,
        ensures
            *final(self) == *old(self),
            final(device).format() == old(device).format(),
            final(device)@ == old(device)@.drain(),
    {
        device.paused = false;
        let count: usize = device.queued.len();
        device.play(count);
        device.drains = device.drains + 1;
        assert(device@ =~= old(device)@.drain());
    }
}

impl FakeSinkHandle {
    /// The format the sink was opened with.
    pub closed spec fn format(self) -> SourceSpec {
        self.spec
    }

    /// The oldest `count` samples are played.
    fn play(&mut self, count: usize)
        requires
            count <= old(self)@.queued.len(),
        ensures
            final(self)@ == old(self)@.play(count as int),
            final(self).spec == old(self).spec,
    {
        let mut rest = self.queued.split_off(count);
        std::mem::swap(&mut rest, &mut self.queued);
        self.played.append(&mut rest);
        assert(self@ =~= old(self)@.play(count as int));
    }

    /// The format the sink was opened with.
    pub fn spec(&self) -> (r: SourceSpec)
        ensures
            r == self.format(),
    {
        self.spec
    }

    /// In blocking mode a write to a full queue has to wait for [`FakeSinkHandle::advance`] instead
    /// of playing the oldest audio to make room.
    pub fn set_blocking(&mut self, blocking: bool)
        ensures
            final(self).format() == old(self).format(),
            final(self)@ == (Device { blocking, ..old(self)@ }),
    {
        self.blocking = blocking;
    }

    /// In autoplay mode every write is played immediately (the queue is always empty), which suits
    /// tests that only care about what was written, not about timing.
    pub fn set_autoplay(&mut self, autoplay: bool)
        ensures
            final(self).format() == old(self).format(),
            final(self)@ == (Device { autoplay, ..old(self)@ }),
    {
        self.autoplay = autoplay;
    }

    /// Plays up to `frames` queued frames, as the device would over time. Does nothing while
    /// paused.
    pub fn advance(&mut self, frames: usize)
        requires
            frames * old(self).format().channels <= usize::MAX,
        ensures
            final(self).format() == old(self).format(),
            final(self)@ == old(self)@.advance(frames * old(self).format().channels),
    {
        if self.paused {
            return ;
        }
        let wanted: usize = frames * self.spec.channels as usize;
        let count: usize = if wanted <= self.queued.len() {
            wanted
        } else {
            self.queued.len()
        };
        self.play(count);
    }

    /// Everything that was played so far.
    pub fn played(&self) -> (r: Vec<i32>)
        ensures
            r@ == self@.played,
    {
        let all = copied(self.played.as_slice(), 0, self.played.len());
        assert(all@ =~= self.played@);
        all
    }

    /// How many frames are queued.
    pub fn queued_frames(&self) -> (r: usize)
        requires
            self.format().channels > 0,
        ensures
            r == self@.queued.len() / self.format().channels as nat,
    {
        self.queued.len() / self.spec.channels as usize
    }

    /// Whether the device is paused.
    pub fn is_paused(&self) -> (r: bool)
        ensures
            r == self@.paused,
    {
        self.paused
    }

    /// How often the queue was thrown away.
    pub fn flush_count(&self) -> (r: u32)
        ensures
            r == self@.flushes,
    {
        self.flushes
    }

    /// How often the queue was played out.
    pub fn drain_count(&self) -> (r: u32)
        ensures
            r == self@.drains,
    {
        self.drains
    }
}

/// Nothing that is written is lost, repeated or put out of order: whatever a device does with a
/// write, what it plays and still holds is what was there before, followed by what was written. So
/// too when it plays, pauses, resumes or drains.
pub proof fn no_sample_is_lost_or_moved(device: Device, samples: Seq<i32>, capacity: int, count: int)
    requires
        samples.len() <= capacity,
        device.autoplay ==> device.queued.len() == 0,
        0 <= count <= device.queued.len(),
    ensures
        device.write(samples, capacity).stream() == device.stream() + samples,
        device.play(count).stream() == device.stream(),
        device.drain().stream() == device.stream(),
        device.drain().queued.len() == 0,
        (Device { paused: true, ..device }).stream() == device.stream(),
        (Device { paused: false, ..device }).stream() == device.stream(),
{
    assert(device.write(samples, capacity).stream() =~= device.stream() + samples);
    assert(device.play(count).stream() =~= device.stream());
    assert(device.drain().stream() =~= device.stream());
}

/// Flushed audio is never heard: what was played stays what was played, and nothing is left to
/// play.
pub proof fn flushed_audio_is_never_heard(device: Device)
    ensures
        device.flush().stream() == device.played,
        !device.flush().paused,
{
    assert(device.flush().stream() =~= device.played);
}

/// A device never holds more than it has room for.
pub proof fn the_queue_stays_within_its_capacity(device: Device, samples: Seq<i32>, capacity: int)
    requires
        samples.len() <= capacity,
        device.queued.len() <= capacity,
    ensures
        device.write(samples, capacity).queued.len() <= capacity,
{
}

proof fn lemma_multiples(a: int, b: int, c: int)
    requires
        c > 0,
        a % c == 0,
        b % c == 0,
    ensures
        (a + b) % c == 0,
        (a - b) % c == 0,
{
    vstd::arithmetic::div_mod::lemma_fundamental_div_mod(a, c);
    vstd::arithmetic::div_mod::lemma_fundamental_div_mod(b, c);
    let x = a / c;
    let y = b / c;
    assert(a + b == (x + y) * c && a - b == (x - y) * c) by (nonlinear_arith)
        requires
            a == c * x,
            b == c * y,
    ;
    vstd::arithmetic::div_mod::lemma_mod_multiples_basic(x + y, c);
    vstd::arithmetic::div_mod::lemma_mod_multiples_basic(x - y, c);
}

/// What holds of what is inside a sink after every call: whole frames, no more than there is room
/// for.
spec fn whole(sink: FakeSink, device: Device) -> bool {
    &&& device.queued.len() <= sink.capacity_samples()
    &&& device.queued.len() as int % sink.spec_of().channels as int == 0
}

proof fn lemma_taken(sink: FakeSink, samples: Seq<i32>)
    requires
        sink.wf(),
    ensures
        ({
            let count = sink.taken(samples.len()) * sink.spec_of().channels;
            &&& 0 <= count <= samples.len()
            &&& count <= sink.capacity_samples()
            &&& count % sink.spec_of().channels as int == 0
        }),
{
    let channels = sink.spec_of().channels as int;
    let frames = samples.len() as int / channels;
    let taken = sink.taken(samples.len()) as int;
    vstd::arithmetic::div_mod::lemma_fundamental_div_mod(samples.len() as int, channels);
    assert(frames >= 0) by (nonlinear_arith)
        requires
            channels > 0,
            frames == samples.len() as int / channels,
    ;
    assert(0 <= taken * channels <= frames * channels) by (nonlinear_arith)
        requires
            0 <= taken <= frames,
            channels > 0,
    ;
    assert(frames * channels == channels * frames) by (nonlinear_arith);
    assert(taken * channels <= sink.capacity() * channels) by (nonlinear_arith)
        requires
            taken <= sink.capacity(),
            channels > 0,
    ;
    vstd::arithmetic::div_mod::lemma_mod_multiples_basic(taken, channels);
}

proof fn lemma_stays_whole(sink: FakeSink, device: Device, call: SinkCall)
    requires
        sink.wf(),
        whole(sink, device),
    ensures
        whole(sink, sink.after(device, call)),
{
    let channels = sink.spec_of().channels as int;
    let queued = device.queued.len() as int;
    let capacity = sink.capacity_samples();
    vstd::arithmetic::div_mod::lemma_mod_multiples_basic(sink.capacity() as int, channels);
    match call {
        SinkCall::Write(samples) => {
            lemma_taken(sink, samples);
            let count = sink.taken(samples.len()) * channels;
            lemma_multiples(queued, count, channels);
            lemma_multiples(queued + count, capacity, channels);
            if !device.autoplay && queued + count > capacity && sink.accepts(device, samples)
                is Some {
                assert(sink.after(device, call).queued.len() == capacity);
            }
        },
        SinkCall::Advance(frames) => {
            let count = frames * channels;
            assert(count >= 0) by (nonlinear_arith)
                requires
                    count == frames * channels,
                    channels > 0,
                    frames >= 0,
            ;
            vstd::arithmetic::div_mod::lemma_mod_multiples_basic(frames as int, channels);
            lemma_multiples(queued, count, channels);
            vstd::arithmetic::div_mod::lemma_small_mod(0, channels as nat);
        },
        SinkCall::Flush | SinkCall::Drain => {
            vstd::arithmetic::div_mod::lemma_small_mod(0, channels as nat);
        },
        _ => {},
    }
}

proof fn lemma_always_whole(sink: FakeSink, calls: Seq<SinkCall>)
    requires
        sink.wf(),
    ensures
        whole(sink, sink.after_all(Device::empty(), calls)),
    decreases calls.len(),
{
    if calls.len() == 0 {
        assert(sink.capacity_samples() >= 0) by (nonlinear_arith)
            requires
                sink.capacity_samples() == sink.capacity() * sink.spec_of().channels,
        ;
        vstd::arithmetic::div_mod::lemma_small_mod(0, sink.spec_of().channels as nat);
    } else {
        lemma_always_whole(sink, calls.drop_last());
        lemma_stays_whole(
            sink,
            sink.after_all(Device::empty(), calls.drop_last()),
            calls.last(),
        );
    }
}

/// Whatever is done with a sink, short of flushing it or of having it play at once, pauses included:
/// what was played is the beginning of what its writes took, and what is queued is the rest of it.
/// Nothing is lost, repeated or put out of order; and after a drain everything was played.
pub proof fn what_was_accepted_is_played_or_queued(sink: FakeSink, calls: Seq<SinkCall>)
    requires
        sink.wf(),
        forall|i: int|
            0 <= i < calls.len() ==> !(#[trigger] calls[i] is Flush) && !(calls[i] is SetAutoplay),
    ensures
        ({
            let device = sink.after_all(Device::empty(), calls);
            let all = sink.accepted(Device::empty(), calls);
            let channels = sink.spec_of().channels as nat;
            &&& !device.autoplay
            &&& device.stream() == all
            &&& device.played.is_prefix_of(all)
            &&& device.played.len() + device.queued.len() / channels * channels == all.len()
            &&& calls.len() > 0 && calls.last() is Drain ==> device.played == all
        }),
    decreases calls.len(),
{
    let device = sink.after_all(Device::empty(), calls);
    let all = sink.accepted(Device::empty(), calls);
    let channels = sink.spec_of().channels as int;
    if calls.len() > 0 {
        let earlier = calls.drop_last();
        assert forall|i: int| 0 <= i < earlier.len() implies !(#[trigger] earlier[i] is Flush) && !(
        earlier[i] is SetAutoplay) by {
            assert(earlier[i] == calls[i]);
        }
        what_was_accepted_is_played_or_queued(sink, earlier);
        lemma_always_whole(sink, earlier);
        assert(!(calls[calls.len() - 1] is Flush));
        let before = sink.after_all(Device::empty(), earlier);
        match calls.last() {
            SinkCall::Write(samples) => {
                lemma_taken(sink, samples);
                assert(device.stream() =~= all);
            },
            SinkCall::Advance(frames) => {
                assert(frames * channels >= 0) by (nonlinear_arith)
                    requires
                        channels > 0,
                        frames >= 0,
                ;
                assert(device.stream() =~= before.stream());
            },
            SinkCall::Drain => {
                assert(device.stream() =~= before.stream());
                assert(device.played =~= device.stream());
            },
            _ => {
                assert(device.stream() =~= before.stream());
            },
        }
    } else {
        assert(device.stream() =~= all);
    }
    assert(device.played =~= all.take(device.played.len() as int));
    lemma_always_whole(sink, calls);
    vstd::arithmetic::div_mod::lemma_fundamental_div_mod(device.queued.len() as int, channels);
    let frames = device.queued.len() as int / channels;
    assert(frames * channels == channels * frames) by (nonlinear_arith);
}

/// Whatever is done with a sink, it never holds more frames than it has room for.
pub proof fn no_call_overfills_the_queue(sink: FakeSink, calls: Seq<SinkCall>)
    requires
        sink.wf(),
    ensures
        ({
            let queued = sink.after_all(Device::empty(), calls).queued.len();
            &&& queued <= sink.capacity_samples()
            &&& queued / sink.spec_of().channels as nat <= sink.capacity()
        }),
{
    let queued = sink.after_all(Device::empty(), calls).queued.len() as int;
    let channels = sink.spec_of().channels as int;
    lemma_always_whole(sink, calls);
    vstd::arithmetic::div_mod::lemma_div_is_ordered(queued, sink.capacity_samples(), channels);
    vstd::arithmetic::div_mod::lemma_div_by_multiple(sink.capacity() as int, channels);
}

/// A write to a sink that neither waits nor plays at once takes as many whole frames as there are,
/// up to a period; and what no longer fits the queue is played, oldest first.
pub proof fn an_overflow_is_played_oldest_first(sink: FakeSink, device: Device, samples: Seq<i32>)
    requires
        sink.wf(),
        device.queued.len() <= sink.capacity_samples(),
        !device.paused,
        !device.blocking,
        !device.autoplay,
    ensures
        ({
            let after = sink.after(device, SinkCall::Write(samples));
            let count = sink.taken(samples.len()) * sink.spec_of().channels;
            let over = device.queued.len() + count - sink.capacity_samples();
            &&& sink.accepts(device, samples) == Some(samples.take(count))
            &&& after.queued.len() == if over > 0 {
                sink.capacity_samples()
            } else {
                device.queued.len() + count
            }
            &&& after.played == if over > 0 {
                device.played + device.queued.take(over)
            } else {
                device.played
            }
        }),
{
    lemma_taken(sink, samples);
}

/// Whether the last of `calls` that pauses or unpauses was a pause.
pub open spec fn ends_paused(calls: Seq<SinkCall>) -> bool
    decreases calls.len(),
{
    if calls.len() == 0 {
        false
    } else {
        match calls.last() {
            SinkCall::Pause => true,
            SinkCall::Resume | SinkCall::Flush | SinkCall::Drain => false,
            _ => ends_paused(calls.drop_last()),
        }
    }
}

/// A sink is paused if, and only if, the last call that pauses or unpauses was a pause (a flush and a
/// drain unpause too); and while it is paused a write takes nothing and changes nothing.
pub proof fn a_pause_lasts_until_it_is_undone(
    sink: FakeSink,
    calls: Seq<SinkCall>,
    samples: Seq<i32>,
)
    ensures
        ({
            let device = sink.after_all(Device::empty(), calls);
            &&& device.paused == ends_paused(calls)
            &&& device.paused ==> sink.accepts(device, samples) is None && sink.after(
                device,
                SinkCall::Write(samples),
            ) == device
        }),
    decreases calls.len(),
{
    if calls.len() > 0 {
        a_pause_lasts_until_it_is_undone(sink, calls.drop_last(), samples);
    }
}

/// How the sinks a [`FakeSinkFactory`] opens behave.
#[derive(Debug, Clone, Copy, PartialEq, Eq, Structural)]
enum Mode {
    Autoplay,
    Blocking,
}

/// What can be done with a [`FakeSinkFactory`].
pub enum FactoryCall {
    /// [`FakeSinkFactory::open`].
    Open(SourceSpec),
    /// [`FakeSinkFactory::release`].
    Release,
    /// [`FakeSinkFactory::fail_next_open`].
    FailNextOpen(String),
}

/// A factory at one moment.
#[verifier::ext_equal]
pub struct FactoryModel {
    /// The errors the next opens fail with, oldest first.
    pub failures: Seq<String>,
    /// The formats of the sinks opened so far, oldest first.
    pub formats: Seq<SourceSpec>,
}

impl FactoryModel {
    /// A factory that was not used yet.
    pub open spec fn empty() -> FactoryModel {
        FactoryModel { failures: Seq::empty(), formats: Seq::empty() }
    }

    /// Whether `call` is an open that gives a sink.
    pub open spec fn opens(self, call: FactoryCall) -> bool {
        call is Open && self.failures.len() == 0
    }

    /// The factory after `call`.
    pub open spec fn after(self, call: FactoryCall) -> FactoryModel {
        match call {
            FactoryCall::Open(spec) => if self.failures.len() > 0 {
                FactoryModel { failures: self.failures.skip(1), ..self }
            } else {
                FactoryModel { formats: self.formats.push(spec), ..self }
            },
            FactoryCall::Release => self,
            FactoryCall::FailNextOpen(message) => FactoryModel {
                failures: self.failures.push(message),
                ..self
            },
        }
    }

    /// The factory after `calls`, one after the other.
    pub open spec fn after_all(self, calls: Seq<FactoryCall>) -> FactoryModel
        decreases calls.len(),
    {
        if calls.len() == 0 {
            self
        } else {
            self.after_all(calls.drop_last()).after(calls.last())
        }
    }

    /// The formats of the opens among `calls` that gave a sink, in order.
    pub open spec fn opened_by(self, calls: Seq<FactoryCall>) -> Seq<SourceSpec>
        decreases calls.len(),
    {
        if calls.len() == 0 {
            Seq::empty()
        } else {
            let earlier = self.opened_by(calls.drop_last());
            if self.after_all(calls.drop_last()).opens(calls.last()) {
                earlier.push(calls.last()->Open_0)
            } else {
                earlier
            }
        }
    }
}

/// A factory keeps what is inside every sink that it opened, in order, each with the format that was
/// asked for; opens that fail and releases add nothing.
pub proof fn every_open_sink_is_kept(calls: Seq<FactoryCall>)
    ensures
        FactoryModel::empty().after_all(calls).formats == FactoryModel::empty().opened_by(calls),
    decreases calls.len(),
{
    if calls.len() > 0 {
        every_open_sink_is_kept(calls.drop_last());
    }
}

/// The factory after opens in these formats.
pub open spec fn after_opens(factory: FactoryModel, specs: Seq<SourceSpec>) -> FactoryModel {
    factory.after_all(specs.map_values(|spec: SourceSpec| FactoryCall::Open(spec)))
}

proof fn lemma_opens_use_failures(factory: FactoryModel, specs: Seq<SourceSpec>)
    requires
        specs.len() <= factory.failures.len(),
    ensures
        after_opens(factory, specs) == (FactoryModel {
            failures: factory.failures.skip(specs.len() as int),
            ..factory
        }),
    decreases specs.len(),
{
    let calls = specs.map_values(|spec: SourceSpec| FactoryCall::Open(spec));
    if specs.len() > 0 {
        lemma_opens_use_failures(factory, specs.drop_last());
        assert(specs.drop_last().map_values(|spec: SourceSpec| FactoryCall::Open(spec))
            =~= calls.drop_last());
        let n = specs.len() as int;
        assert(factory.failures.skip(n - 1).skip(1) =~= factory.failures.skip(n));
    } else {
        assert(factory.failures.skip(0) =~= factory.failures);
    }
}

/// Failures are used up one open at a time, oldest first: after one more was added, each of the next
/// opens, whatever its format, fails with the next of them and adds no sink, and the open after the
/// last of them gives a sink.
pub proof fn failures_come_in_the_order_they_were_set(
    factory: FactoryModel,
    message: String,
    specs: Seq<SourceSpec>,
    next: SourceSpec,
)
    requires
        specs.len() == factory.failures.len() + 1,
    ensures
        ({
            let failing = factory.after(FactoryCall::FailNextOpen(message));
            let after = after_opens(failing, specs);
            &&& forall|i: int|
                0 <= i < specs.len() ==> {
                    let now = #[trigger] after_opens(failing, specs.take(i));
                    &&& now.failures.len() > 0
                    &&& now.failures[0] == factory.failures.push(message)[i]
                    &&& now.formats == factory.formats
                }
            &&& after.formats == factory.formats
            &&& after.opens(FactoryCall::Open(next))
        }),
{
    let failing = factory.after(FactoryCall::FailNextOpen(message));
    assert forall|i: int| 0 <= i < specs.len() implies {
        let now = #[trigger] after_opens(failing, specs.take(i));
        &&& now.failures.len() > 0
        &&& now.failures[0] == factory.failures.push(message)[i]
        &&& now.formats == factory.formats
    } by {
        lemma_opens_use_failures(failing, specs.take(i));
    }
    lemma_opens_use_failures(failing, specs);
}

/// Opens [`FakeSink`]s and keeps what is inside each, so tests can inspect what the engine did (how
/// many sinks it opened, and what each one played).
pub struct FakeSinkFactory {
    mode: Mode,
    handles: Vec<FakeSinkHandle>,
    releases: u32,
    open_failures: Vec<String>,
    listening: bool,
}

impl FakeSinkFactory {
    /// Whether its sinks play every write at once; otherwise a write to a full queue waits.
    pub closed spec fn plays_at_once(self) -> bool {
        self.mode is Autoplay
    }

    /// What is inside each sink opened so far, oldest first.
    pub closed spec fn opened(self) -> Seq<FakeSinkHandle> {
        self.handles@
    }

    /// How many times the card was given back.
    pub closed spec fn releases(self) -> u32 {
        self.releases
    }

    /// The errors the next opens fail with, oldest first.
    pub closed spec fn failures(self) -> Seq<String> {
        self.open_failures@
    }

    /// Whether an engine answers requests for the card.
    pub closed spec fn listens(self) -> bool {
        self.listening
    }

    /// The factory at this moment.
    pub open spec fn model(self) -> FactoryModel {
        FactoryModel {
            failures: self.failures(),
            formats: self.opened().map_values(|handle: FakeSinkHandle| handle.format()),
        }
    }

    /// Sinks that play every write immediately.
    pub fn autoplay() -> (r: Self)
        ensures
            r.model() == FactoryModel::empty(),
            r.plays_at_once(),
            r.opened().len() == 0,
            r.releases() == 0,
            r.failures().len() == 0,
            !r.listens(),
    {
        FakeSinkFactory {
            mode: Mode::Autoplay,
            handles: Vec::new(),
            releases: 0,
            open_failures: Vec::new(),
            listening: false,
        }
    }

    /// Sinks that have to wait on a full queue until the test advances them.
    pub fn blocking() -> (r: Self)
        ensures
            r.model() == FactoryModel::empty(),
            !r.plays_at_once(),
            r.opened().len() == 0,
            r.releases() == 0,
            r.failures().len() == 0,
            !r.listens(),
    {
        FakeSinkFactory {
            mode: Mode::Blocking,
            handles: Vec::new(),
            releases: 0,
            open_failures: Vec::new(),
            listening: false,
        }
    }

    /// What is inside each sink opened so far, oldest first.
    pub fn handles(&self) -> (r: &Vec<FakeSinkHandle>)
        ensures
            r@ == self.opened(),
    {
        &self.handles
    }

    /// What is inside the `i`-th sink, to play or write to it.
    pub fn handle_mut(&mut self, i: usize) -> (r: &mut FakeSinkHandle)
        requires
            i < old(self).opened().len(),
        ensures
            *r == old(self).opened()[i as int],
            final(self).opened() == old(self).opened().update(i as int, *final(r)),
            final(self).plays_at_once() == old(self).plays_at_once(),
            final(self).releases() == old(self).releases(),
            final(self).failures() == old(self).failures(),
            final(self).listens() == old(self).listens(),
    {
        &mut self.handles[i]
    }

    /// How many times the engine gave the card back.
    pub fn release_count(&self) -> (r: u32)
        ensures
            r == self.releases(),
    {
        self.releases
    }

    /// Makes the next open fail with `message`, as a refused reservation would.
    pub fn fail_next_open(&mut self, message: String)
        ensures
            final(self).model() == old(self).model().after(FactoryCall::FailNextOpen(message)),
            final(self).failures() == old(self).failures().push(message),
            final(self).opened() == old(self).opened(),
            final(self).plays_at_once() == old(self).plays_at_once(),
            final(self).releases() == old(self).releases(),
            final(self).listens() == old(self).listens(),
    {
        self.open_failures.push(message);
    }

    /// Another program asking for the card, as the D-Bus side would relay it: the request that the
    /// engine has to answer. `None` if no engine is listening; the request is then refused.
    pub fn request_release(&self, by: Option<String>, priority: i32) -> (r: Option<ReleaseRequest>)
        ensures
            r == if self.listens() {
                Some(ReleaseRequest { by, priority })
            } else {
                None
            },
    {
        if self.listening {
            Some(ReleaseRequest { by, priority })
        } else {
            None
        }
    }

    /// An engine answers requests for the card from now on.
    pub fn on_release_request(&mut self)
        ensures
            final(self).listens(),
            final(self).opened() == old(self).opened(),
            final(self).failures() == old(self).failures(),
            final(self).plays_at_once() == old(self).plays_at_once(),
            final(self).releases() == old(self).releases(),
    {
        self.listening = true;
    }

    /// Opens a sink for audio of the given format, unless it was made to fail.
    pub fn open(&mut self, spec: SourceSpec) -> (r: Result<FakeSink, String>)
        requires
            spec.channels > 0,
            4096 * spec.channels <= usize::MAX,
        ensures
            final(self).model() == old(self).model().after(FactoryCall::Open(spec)),
            r is Ok <==> old(self).model().opens(FactoryCall::Open(spec)),
            final(self).plays_at_once() == old(self).plays_at_once(),
            final(self).releases() == old(self).releases(),
            final(self).listens() == old(self).listens(),
            if old(self).failures().len() > 0 {
                &&& r == Err::<FakeSink, String>(old(self).failures()[0])
                &&& final(self).failures() == old(self).failures().skip(1)
                &&& final(self).opened() == old(self).opened()
            } else {
                &&& final(self).failures() == old(self).failures()
                &&& final(self).opened().drop_last() == old(self).opened()
                &&& final(self).opened().len() == old(self).opened().len() + 1
                &&& r matches Ok(sink) && sink.wf() && sink.spec_of() == spec && sink.period()
                    == 1024 && sink.capacity() == 4096 && sink.drives(final(self).opened().last())
                &&& final(self).opened().last()@ == (Device {
                    autoplay: old(self).plays_at_once(),
                    blocking: !old(self).plays_at_once(),
                    ..Device::empty()
                })
            },
    {
        if self.open_failures.len() > 0 {
            let message = self.open_failures.remove(0);
            assert(self.open_failures@ =~= old(self).open_failures@.skip(1));
            return Err(message);
        }
        let (sink, mut handle): (FakeSink, FakeSinkHandle) = FakeSink::new(spec);
        match self.mode {
            Mode::Autoplay => handle.set_autoplay(true),
            Mode::Blocking => handle.set_blocking(true),
        }
        self.handles.push(handle);
        assert(self.handles@.drop_last() =~= old(self).handles@);
        Ok(sink)
    }

    /// The card is given back.
    pub fn release(&mut self)
        requires
            old(self).releases() < u32::MAX,
        ensures
            final(self).model() == old(self).model().after(FactoryCall::Release),
            final(self).releases() == old(self).releases() + 1,
            final(self).opened() == old(self).opened(),
            final(self).failures() == old(self).failures(),
            final(self).plays_at_once() == old(self).plays_at_once(),
            final(self).listens() == old(self).listens(),
    {
        self.releases = self.releases + 1;
    }
}

/// A card that a [`FakeReserver`] granted.
#[derive(Debug, Clone, Copy, PartialEq, Eq, Structural)]
pub struct FakeReservation {
    card: u32,
    took_over: bool,
}

impl FakeReservation {
    /// Which card it is.
    pub closed spec fn of(self) -> u32 {
        self.card
    }

    /// Whether the card was taken from another holder.
    pub closed spec fn from_another(self) -> bool {
        self.took_over
    }

    /// Whether the card was taken from another holder (as opposed to being free).
    pub fn took_over(&self) -> (r: bool)
        ensures
            r == self.from_another(),
    {
        self.took_over
    }
}

/// Records what was reserved and released, with scripted outcomes.
pub struct FakeReserver {
    log: Vec<String>,
    script: Vec<Result<bool, ReserveError>>,
}

impl FakeReserver {
    /// What was done so far: `acquire N` and `release N`, in order.
    pub closed spec fn done(self) -> Seq<Seq<char>> {
        crate::pieces::texts_of(self.log@)
    }

    /// The outcomes of the next acquires, oldest first.
    pub closed spec fn scripted(self) -> Seq<Result<bool, ReserveError>> {
        self.script@
    }

    /// Grants everything.
    pub fn new() -> (r: Self)
        ensures
            r.done() == Seq::<Seq<char>>::empty(),
            r.scripted().len() == 0,
    {
        let r = FakeReserver { log: Vec::new(), script: Vec::new() };
        assert(r.done() =~= Seq::<Seq<char>>::empty());
        r
    }

    /// Decides an acquire after those already decided. `Ok(took_over)` grants the card.
    pub fn script(&mut self, outcome: Result<bool, ReserveError>)
        ensures
            final(self).scripted() == old(self).scripted().push(outcome),
            final(self).done() == old(self).done(),
    {
        self.script.push(outcome);
    }

    /// `acquire N` / `release N`, in order.
    pub fn log(&self) -> (r: &Vec<String>)
        ensures
            crate::pieces::texts_of(r@) == self.done(),
    {
        &self.log
    }

    fn note(&mut self, what: &str, card: u32)
        ensures
            final(self).done() == old(self).done().push(what@ + decimal_text(card as nat)),
            final(self).scripted() == old(self).scripted(),
    {
        let mut line = String::new();
        line.push_str(what);
        line.push_str(decimal(card as u64).as_str());
        assert(line@ =~= what@ + decimal_text(card as nat));
        self.log.push(line);
        assert(self.done() =~= old(self).done().push(line@));
    }

    /// Reserves a card, as the script says; what the script does not decide is granted, as a card
    /// that was free.
    pub fn acquire(&mut self, card: u32) -> (r: Result<FakeReservation, ReserveError>)
        ensures
            ({
                let outcome = if old(self).scripted().len() > 0 {
                    old(self).scripted()[0]
                } else {
                    Ok::<bool, ReserveError>(false)
                };
                &&& final(self).scripted() == if old(self).scripted().len() > 0 {
                    old(self).scripted().skip(1)
                } else {
                    old(self).scripted()
                }
                &&& match outcome {
                    Ok(took_over) => {
                        &&& r matches Ok(held) && held.of() == card && held.from_another()
                            == took_over
                        &&& final(self).done() == old(self).done().push(
                            "acquire "@ + decimal_text(card as nat),
                        )
                    },
                    Err(why) => r == Err::<FakeReservation, ReserveError>(why) && final(self).done()
                        == old(self).done(),
                }
            }),
    {
        let outcome = if self.script.len() > 0 {
            let first = self.script.remove(0);
            assert(self.script@ =~= old(self).script@.skip(1));
            first
        } else {
            Ok(false)
        };
        match outcome {
            Ok(took_over) => {
                self.note("acquire ", card);
                Ok(FakeReservation { card, took_over })
            },
            Err(why) => Err(why),
        }
    }

    /// A card is given back.
    pub fn give_back(&mut self, reservation: FakeReservation)
        ensures
            final(self).done() == old(self).done().push(
                "release "@ + decimal_text(reservation.of() as nat),
            ),
            final(self).scripted() == old(self).scripted(),
    {
        self.note("release ", reservation.card);
    }
}

} // verus!
