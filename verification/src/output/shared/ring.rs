//! The buffer between the audio thread and the sound server.
//!
//! The engine writes to a sink, but a stream is pulled by the server: it asks for audio when it has
//! room. The ring joins the two. The writer copies whole frames in and waits while the ring is full;
//! the server's side takes whatever is there and, when there is nothing, is told "not yet" instead
//! of "end of stream", which would close the stream for good.

use crate::output::alsa::{a_packed_row_has_whole_samples, pack_frames, packed_row, Format};
use crate::output::OutputGone;
use crate::time::Duration;
use vstd::prelude::*;

verus! {

/// A full ring that the server does not draw from for this long means it has stopped listening, in
/// nanoseconds.
pub const STALL: u128 = 5_000_000_000;

/// How often a blocked writer looks at whether the output is gone, in nanoseconds.
pub const WAKE_EVERY: u128 = 100_000_000;

/// A ring at one moment.
#[verifier::ext_equal]
pub struct RingModel {
    /// What waits to be taken by the server.
    pub bytes: Seq<u8>,
    /// How many bytes the server took so far.
    pub pulled: nat,
    /// Why the output is gone, if it is.
    pub gone: Option<Seq<char>>,
    /// Whether nobody uses the ring any more.
    pub closed: bool,
    /// Whether the server's side waits to be told of more.
    pub waiting: bool,
}

/// The buffer between the audio thread and the sound server.
pub struct Ring {
    bytes: Vec<u8>,
    pulled: u64,
    gone: Option<String>,
    closed: bool,
    waiting: bool,
    channels: usize,
    frame_bytes: usize,
    capacity_bytes: usize,
    period_frames: usize,
}

/// What became of a write.
#[derive(Debug, Clone, Copy, PartialEq, Eq, Structural)]
pub enum RingWrite {
    /// So many frames were taken; `wake` says whether the server's side has to be told.
    Frames {
        /// How many.
        frames: usize,
        /// Whether it waits.
        wake: bool,
    },
    /// There is no room: the write has to be tried again once the server took something.
    Full,
}

impl View for Ring {
    type V = RingModel;

    closed spec fn view(&self) -> RingModel {
        RingModel {
            bytes: self.bytes@,
            pulled: self.pulled as nat,
            gone: match self.gone {
                Some(why) => Some(why@),
                None => None,
            },
            closed: self.closed,
            waiting: self.waiting,
        }
    }
}

/// How many of `count` things make whole frames of `frame`.
pub open spec fn whole(count: nat, frame: nat) -> nat {
    (count / frame * frame) as nat
}

proof fn lemma_whole(count: nat, frame: nat)
    requires
        frame > 0,
    ensures
        whole(count, frame) <= count,
        whole(count, frame) % frame == 0,
        whole(count, frame) == 0 <==> count < frame,
{
    vstd::arithmetic::div_mod::lemma_fundamental_div_mod(count as int, frame as int);
    vstd::arithmetic::div_mod::lemma_mod_multiples_basic((count / frame) as int, frame as int);
    assert(whole(count, frame) <= count) by (nonlinear_arith)
        requires
            count as int == frame as int * (count as int / frame as int) + count as int
                % frame as int,
            0 <= count as int % frame as int,
            whole(count, frame) == (count / frame) * frame,
    ;
    if count < frame {
        vstd::arithmetic::div_mod::lemma_basic_div(count as int, frame as int);
    } else {
        assert(count / frame >= 1) by (nonlinear_arith)
            requires
                count >= frame,
                frame > 0,
        ;
        assert(whole(count, frame) >= frame) by (nonlinear_arith)
            requires
                whole(count, frame) == (count / frame) * frame,
                count / frame >= 1,
        ;
    }
}

impl Ring {
    /// How many samples a frame has.
    pub closed spec fn per_frame(self) -> nat {
        self.channels as nat
    }

    /// How many frames can wait at most.
    pub open spec fn capacity(self) -> nat {
        self.room() / self.frame()
    }

    /// How many bytes a frame has.
    pub closed spec fn frame(self) -> nat {
        self.frame_bytes as nat
    }

    /// How many bytes can wait at most.
    pub closed spec fn room(self) -> nat {
        self.capacity_bytes as nat
    }

    /// How many frames one write takes at most.
    pub closed spec fn period(self) -> nat {
        self.period_frames as nat
    }

    /// Whether two rings are of the same size.
    pub open spec fn sized_like(self, other: Ring) -> bool {
        &&& self.per_frame() == other.per_frame()
        &&& self.frame() == other.frame()
        &&& self.room() == other.room()
        &&& self.period() == other.period()
    }

    /// What holds of a ring at every moment.
    pub open spec fn wf(self) -> bool {
        &&& self.per_frame() > 0
        &&& self.frame() == self.per_frame() * 4
        &&& self.room() <= usize::MAX
        &&& self.period() * self.frame() <= usize::MAX
    }

    /// `capacity_frames` is how much can wait in the ring; `period_frames` how much one write takes
    /// at most, so that a command sent meanwhile is noticed within a period.
    pub fn new(capacity_frames: usize, period_frames: usize, channels: usize) -> (r: Self)
        requires
            channels > 0,
            channels * 4 <= usize::MAX,
            capacity_frames * (channels * 4) <= usize::MAX,
            period_frames * (channels * 4) <= usize::MAX,
        ensures
            r.wf(),
            r.per_frame() == channels,
            r.room() == capacity_frames * (channels * 4),
            r.period() == period_frames,
            r@ == (RingModel {
                bytes: Seq::empty(),
                pulled: 0,
                gone: None,
                closed: false,
                waiting: false,
            }),
    {
        let frame_bytes: usize = channels * 4;
        Ring {
            bytes: Vec::new(),
            pulled: 0,
            gone: None,
            closed: false,
            waiting: false,
            channels,
            frame_bytes,
            capacity_bytes: capacity_frames * frame_bytes,
            period_frames,
        }
    }

    /// How many frames can wait at most.
    pub fn capacity_frames(&self) -> (r: usize)
        requires
            self.wf(),
        ensures
            r == self.capacity(),
    {
        self.capacity_bytes / self.frame_bytes
    }

    /// How many frames a write of `count` samples takes.
    pub open spec fn taken(self, count: nat) -> nat {
        let frames = count / self.per_frame();
        if frames <= self.period() {
            frames
        } else {
            self.period()
        }
    }

    /// Copies up to one period of `samples` (interleaved) in, if there is room. Fails once the
    /// output has gone away.
    pub fn write(&mut self, samples: &[i32]) -> (r: Result<RingWrite, OutputGone>)
        requires
            old(self).wf(),
        ensures
            final(self).wf(),
            final(self).sized_like(*old(self)),
            ({
                let frames = old(self).taken(samples@.len());
                let needed = frames * old(self).frame();
                if frames == 0 {
                    &&& r == Ok::<RingWrite, OutputGone>(
                        RingWrite::Frames { frames: 0, wake: false },
                    )
                    &&& final(self)@ == old(self)@
                } else if let Some(why) = old(self)@.gone {
                    r matches Err(OutputGone(w)) && w@ == why && final(self)@ == old(self)@
                } else if old(self)@.bytes.len() + needed > old(self).room() {
                    r == Ok::<RingWrite, OutputGone>(RingWrite::Full) && final(self)@ == old(self)@
                } else {
                    &&& r matches Ok(RingWrite::Frames { frames: n, wake }) && n == frames && wake
                        == old(self)@.waiting
                    &&& final(self)@ == (RingModel {
                        bytes: old(self)@.bytes + packed_row(
                            Format::S32LE,
                            samples@.take((frames * old(self).per_frame()) as int),
                        ),
                        waiting: false,
                        ..old(self)@
                    })
                    &&& final(self)@.bytes.len() == old(self)@.bytes.len() + needed
                }
            }),
    {
        let whole_frames: usize = samples.len() / self.channels;
        let frames: usize = if whole_frames <= self.period_frames {
            whole_frames
        } else {
            self.period_frames
        };
        if frames == 0 {
            return Ok(RingWrite::Frames { frames: 0, wake: false });
        }
        match &self.gone {
            Some(why) => {
                return Err(OutputGone(why.clone()));
            },
            None => {},
        }
        proof {
            let channels = self.channels as int;
            vstd::arithmetic::div_mod::lemma_fundamental_div_mod(samples@.len() as int, channels);
            assert(frames * channels <= samples@.len()) by (nonlinear_arith)
                requires
                    frames <= whole_frames,
                    samples@.len() as int == channels * whole_frames as int + samples@.len() as int
                        % channels,
                    0 <= samples@.len() as int % channels,
                    channels > 0,
            ;
            assert(frames * self.frame_bytes <= self.period_frames * self.frame_bytes)
                by (nonlinear_arith)
                requires
                    frames <= self.period_frames,
            ;
        }
        let needed: usize = frames * self.frame_bytes;
        if self.capacity_bytes < needed || self.bytes.len() > self.capacity_bytes - needed {
            return Ok(RingWrite::Full);
        }
        let count: usize = frames * self.channels;
        let mut packed = pack_frames(Format::S32LE, samples, count);
        proof {
            a_packed_row_has_whole_samples(Format::S32LE, samples@.take(count as int));
            assert(count * 4 == needed) by (nonlinear_arith)
                requires
                    count == frames * self.channels,
                    needed == frames * self.frame_bytes,
                    self.frame_bytes == self.channels * 4,
            ;
        }
        self.bytes.append(&mut packed);
        let wake = self.waiting;
        self.waiting = false;
        Ok(RingWrite::Frames { frames, wake })
    }

    /// Adds silence, ignoring the capacity: a stream loses the first frames it is given, and this is
    /// what it loses instead. Returns whether the server's side has to be told.
    pub fn push_silence(&mut self, frames: usize) -> (r: bool)
        requires
            old(self).wf(),
            frames * old(self).frame() <= usize::MAX,
        ensures
            final(self).wf(),
            final(self).sized_like(*old(self)),
            r == old(self)@.waiting,
            final(self)@ == (RingModel {
                bytes: old(self)@.bytes + Seq::new(
                    (frames * old(self).frame()) as nat,
                    |i: int| 0u8,
                ),
                waiting: false,
                ..old(self)@
            }),
    {
        let count: usize = frames * self.frame_bytes;
        let mut i: usize = 0;
        assert(self.bytes@ =~= old(self).bytes@ + Seq::new(0, |i: int| 0u8));
        while i < count
            invariant
                i <= count,
                self.bytes@ == old(self).bytes@ + Seq::new(i as nat, |i: int| 0u8),
                self.pulled == old(self).pulled,
                self.gone == old(self).gone,
                self.closed == old(self).closed,
                self.waiting == old(self).waiting,
                self.channels == old(self).channels,
                self.frame_bytes == old(self).frame_bytes,
                self.capacity_bytes == old(self).capacity_bytes,
                self.period_frames == old(self).period_frames,
            decreases count - i,
        {
            self.bytes.push(0);
            assert(self.bytes@ =~= old(self).bytes@ + Seq::new((i + 1) as nat, |i: int| 0u8));
            i += 1;
        }
        let wake = self.waiting;
        self.waiting = false;
        wake
    }

    /// Frames waiting to be taken by the server.
    pub fn queued_frames(&self) -> (r: usize)
        requires
            self.wf(),
        ensures
            r == self@.bytes.len() / self.frame(),
            r <= usize::MAX / 4,
    {
        proof {
            let n = self.bytes.len() as nat;
            assert(n / self.frame() <= n / 4) by (nonlinear_arith)
                requires
                    self.frame() >= 4,
            ;
        }
        self.bytes.len() / self.frame_bytes
    }

    /// Bytes the server has taken so far.
    pub fn pulled_bytes(&self) -> (r: u64)
        ensures
            r == self@.pulled,
    {
        self.pulled
    }

    /// Throws away what is waiting.
    pub fn clear(&mut self)
        requires
            old(self).wf(),
        ensures
            final(self).wf(),
            final(self).sized_like(*old(self)),
            final(self)@ == (RingModel { bytes: Seq::empty(), ..old(self)@ }),
    {
        self.bytes = Vec::new();
    }

    /// The output is gone: writes fail from now on. The first reason stays. Returns whether the
    /// server's side has to be told.
    pub fn mark_gone(&mut self, why: &str) -> (r: bool)
        requires
            old(self).wf(),
        ensures
            final(self).wf(),
            final(self).sized_like(*old(self)),
            r == old(self)@.waiting,
            final(self)@ == (RingModel {
                gone: match old(self)@.gone {
                    Some(first) => Some(first),
                    None => Some(why@),
                },
                waiting: false,
                ..old(self)@
            }),
    {
        if self.gone.is_none() {
            self.gone = Some(why.to_owned());
        }
        let wake = self.waiting;
        self.waiting = false;
        wake
    }

    /// Why the output is gone, if it is.
    pub fn gone(&self) -> (r: Option<String>)
        ensures
            match r {
                Some(why) => self@.gone == Some(why@),
                None => self@.gone is None,
            },
    {
        crate::engine::types::copied_text(&self.gone)
    }

    /// Nobody uses the ring any more: whatever watches the output can stop.
    pub fn close(&mut self)
        requires
            old(self).wf(),
        ensures
            final(self).wf(),
            final(self).sized_like(*old(self)),
            final(self)@ == (RingModel { closed: true, ..old(self)@ }),
    {
        self.closed = true;
    }

    /// Whether nobody uses the ring any more.
    pub fn is_closed(&self) -> (r: bool)
        ensures
            r == self@.closed,
    {
        self.closed
    }

    /// What the server draws when it has room for `wanted` bytes: whole frames only. When there are
    /// none it is told to wait, and waits; never that there are zero, which means the stream is
    /// over.
    pub fn poll_read(&mut self, wanted: usize) -> (r: Option<Vec<u8>>)
        requires
            old(self).wf(),
            wanted <= old(self)@.bytes.len() ==> old(self)@.pulled + wanted <= u64::MAX,
            wanted > old(self)@.bytes.len() ==> old(self)@.pulled + old(self)@.bytes.len()
                <= u64::MAX,
        ensures
            final(self).wf(),
            final(self).sized_like(*old(self)),
            ({
                let least = if wanted <= old(self)@.bytes.len() {
                    wanted as nat
                } else {
                    old(self)@.bytes.len()
                };
                let take = whole(least, old(self).frame());
                if take == 0 {
                    r is None && final(self)@ == (RingModel { waiting: true, ..old(self)@ })
                } else {
                    &&& r matches Some(bytes) && bytes@ == old(self)@.bytes.take(take as int)
                    &&& final(self)@ == (RingModel {
                        bytes: old(self)@.bytes.skip(take as int),
                        pulled: old(self)@.pulled + take,
                        ..old(self)@
                    })
                    &&& take <= wanted
                    &&& take % old(self).frame() == 0
                }
            }),
    {
        let least: usize = if wanted <= self.bytes.len() {
            wanted
        } else {
            self.bytes.len()
        };
        proof {
            lemma_whole(least as nat, self.frame_bytes as nat);
        }
        let take: usize = least / self.frame_bytes * self.frame_bytes;
        if take == 0 {
            self.waiting = true;
            return None;
        }
        let mut rest = self.bytes.split_off(take);
        std::mem::swap(&mut rest, &mut self.bytes);
        self.pulled = self.pulled + take as u64;
        Some(rest)
    }
}

/// What the server draws and what still waits are together what waited: nothing is lost, and nothing
/// comes twice or out of order.
pub proof fn the_server_reads_what_was_written(ring: RingModel, take: int)
    requires
        0 <= take <= ring.bytes.len(),
    ensures
        ring.bytes.take(take) + ring.bytes.skip(take) == ring.bytes,
{
    assert(ring.bytes.take(take) + ring.bytes.skip(take) =~= ring.bytes);
}

/// How long a writer has waited for a full ring.
#[derive(Debug, Clone, Copy, PartialEq, Eq, Structural)]
pub struct Patience {
    pulled: u64,
    since: Duration,
}

impl Patience {
    /// What the server had taken when it last took something.
    pub closed spec fn seen(self) -> u64 {
        self.pulled
    }

    /// When that was.
    pub closed spec fn last(self) -> Duration {
        self.since
    }

    /// A writer starts to wait.
    pub fn new(pulled: u64, now: Duration) -> (r: Self)
        ensures
            r.seen() == pulled,
            r.last() == now,
    {
        Patience { pulled, since: now }
    }

    /// The ring is still full. Fails once the server has not drawn from it for too long.
    pub fn still_full(&mut self, pulled: u64, now: Duration) -> (r: Result<(), OutputGone>)
        ensures
            if pulled != old(self).seen() {
                r is Ok && final(self).seen() == pulled && final(self).last() == now
            } else {
                &&& *final(self) == *old(self)
                &&& if now@ > old(self).last()@ + STALL {
                    r matches Err(OutputGone(why)) && why@
                        == "the sound server stopped taking audio"@
                } else {
                    r is Ok
                }
            },
    {
        if pulled != self.pulled {
            self.pulled = pulled;
            self.since = now;
            return Ok(());
        }
        if now.nanos > self.since.nanos && now.nanos - self.since.nanos > STALL {
            return Err(OutputGone("the sound server stopped taking audio".to_owned()));
        }
        Ok(())
    }
}

} // verus!
