//! Ready-made audio in memory, read like any other source.

use crate::decode::{
    duration_to_frames, frames_nanos, frames_to_duration, nearest_frames, SourceSpec,
};
use crate::time::Duration;
use vstd::prelude::*;

verus! {

/// Frames handed out per chunk.
pub const RAW_CHUNK_FRAMES: usize = 4096;

/// Left-justified interleaved PCM, and how far into it the reader is.
pub struct RawSource {
    samples: Vec<i32>,
    next: usize,
    spec: SourceSpec,
}

impl RawSource {
    /// All the samples.
    pub closed spec fn samples(self) -> Seq<i32> {
        self.samples@
    }

    /// How many of them were read or skipped.
    pub closed spec fn next(self) -> nat {
        self.next as nat
    }

    /// Their format.
    pub closed spec fn format(self) -> SourceSpec {
        self.spec
    }

    /// What holds of a source at every moment.
    pub open spec fn wf(self) -> bool {
        &&& self.format().channels > 0
        &&& self.next() <= self.samples().len()
    }

    /// How many whole frames there are.
    pub open spec fn frames(self) -> nat {
        self.samples().len() / self.format().channels as nat
    }

    /// What is still to be read.
    pub open spec fn rest(self) -> Seq<i32> {
        self.samples().skip(self.next() as int)
    }

    /// A source at its start.
    pub fn new(samples: Vec<i32>, spec: SourceSpec) -> (r: Self)
        requires
            spec.channels > 0,
        ensures
            r.wf(),
            r.samples() == samples@,
            r.next() == 0,
            r.format() == spec,
    {
        RawSource { samples, next: 0, spec }
    }

    /// The format of the samples.
    pub fn spec(&self) -> (r: SourceSpec)
        ensures
            r == self.format(),
    {
        self.spec
    }

    /// How long all of it lasts.
    pub fn duration(&self) -> (r: Duration)
        requires
            self.wf(),
        ensures
            r@ == frames_nanos(self.frames(), self.format().sample_rate),
    {
        let frames: usize = self.samples.len() / self.spec.channels as usize;
        frames_to_duration(frames as u64, self.spec.sample_rate)
    }

    /// Moves to `at`, to the nearest frame, and no further than the end. Returns where that is.
    pub fn seek(&mut self, at: Duration) -> (r: Duration)
        requires
            old(self).wf(),
        ensures
            ({
                let wanted = nearest_frames(at@, old(self).format().sample_rate);
                let frame = if wanted <= old(self).frames() {
                    wanted
                } else {
                    old(self).frames()
                };
                &&& final(self).next() == frame * old(self).format().channels as nat
                &&& r@ == frames_nanos(frame, old(self).format().sample_rate)
            }),
            final(self).wf(),
            final(self).samples() == old(self).samples(),
            final(self).format() == old(self).format(),
    {
        let channels: usize = self.spec.channels as usize;
        let total: usize = self.samples.len() / channels;
        let wanted: u64 = duration_to_frames(at, self.spec.sample_rate);
        let frame: usize = if wanted <= total as u64 {
            wanted as usize
        } else {
            total
        };
        assert(0 <= frame * channels <= self.samples@.len()) by (nonlinear_arith)
            requires
                0 <= frame <= total,
                channels > 0,
                total == self.samples@.len() / channels as nat,
        ;
        self.next = frame * channels;
        frames_to_duration(frame as u64, self.spec.sample_rate)
    }

    /// Drops the next `frames` frames, or all that are left if there are fewer.
    pub fn skip_frames(&mut self, frames: u64)
        requires
            old(self).wf(),
        ensures
            ({
                let skipped = frames as nat * old(self).format().channels as nat;
                final(self).next() == if old(self).next() + skipped <= old(self).samples().len() {
                    old(self).next() + skipped
                } else {
                    old(self).samples().len()
                }
            }),
            final(self).wf(),
            final(self).samples() == old(self).samples(),
            final(self).format() == old(self).format(),
    {
        let left: usize = self.samples.len() - self.next;
        assert(0 <= frames as int * self.spec.channels as int <= 0xffff_ffff_ffff_ffff
            * 0xffff_ffff) by (nonlinear_arith)
            requires
                0 <= frames as int <= 0xffff_ffff_ffff_ffff,
                0 <= self.spec.channels as int <= 0xffff_ffff,
        ;
        let skipped: u128 = frames as u128 * self.spec.channels as u128;
        if skipped <= left as u128 {
            self.next = self.next + skipped as usize;
        } else {
            self.next = self.samples.len();
        }
    }

    /// The next samples, at most [`RAW_CHUNK_FRAMES`] frames of them; `None` at the end.
    pub fn next_chunk(&mut self) -> (r: Option<Vec<i32>>)
        requires
            old(self).wf(),
        ensures
            ({
                let most = RAW_CHUNK_FRAMES as int * old(self).format().channels as int;
                let count = if most <= old(self).rest().len() {
                    most
                } else {
                    old(self).rest().len() as int
                };
                &&& r is None <==> old(self).rest().len() == 0
                &&& r matches Some(chunk) ==> chunk@ == old(self).rest().take(count)
                &&& final(self).next() == old(self).next() + count
            }),
            final(self).wf(),
            final(self).samples() == old(self).samples(),
            final(self).format() == old(self).format(),
    {
        let left: usize = self.samples.len() - self.next;
        if left == 0 {
            return None;
        }
        let most: u64 = RAW_CHUNK_FRAMES as u64 * self.spec.channels as u64;
        let count: usize = if most <= left as u64 {
            most as usize
        } else {
            left
        };
        let end: usize = self.next + count;
        let mut chunk: Vec<i32> = Vec::new();
        let mut i: usize = self.next;
        while i < end
            invariant
                self.next <= i <= end <= self.samples.len(),
                chunk@ == self.samples@.subrange(self.next as int, i as int),
            decreases end - i,
        {
            chunk.push(self.samples[i]);
            assert(self.samples@.subrange(self.next as int, i + 1) =~= self.samples@.subrange(
                self.next as int,
                i as int,
            ).push(self.samples@[i as int]));
            i += 1;
        }
        assert(chunk@ =~= old(self).rest().take(count as int));
        self.next = end;
        Some(chunk)
    }
}

/// Reading hands out the samples in order, none lost and none twice: a chunk and what is left
/// after it are together what was left before.
pub proof fn a_chunk_and_the_rest_are_everything(before: RawSource, after: RawSource, count: nat)
    requires
        before.wf(),
        after.samples() == before.samples(),
        after.next() == before.next() + count,
        count <= before.rest().len(),
    ensures
        before.rest().take(count as int) + after.rest() == before.rest(),
{
    assert(before.rest().take(count as int) + after.rest() =~= before.rest());
}

/// The frames of a source are the whole ones among its samples, and what is still to be read follows
/// what was read.
pub proof fn a_source_holds_whole_frames(source: RawSource, r: Duration)
    requires
        source.wf(),
        source.format().sample_rate > 0,
        call_ensures(RawSource::duration, (&source,), r),
    ensures
        ({
            let channels = source.format().channels as int;
            source.frames() * channels <= source.samples().len() < (source.frames() + 1) * channels
        }),
        source.samples().take(source.next() as int) + source.rest() == source.samples(),
        r@ * source.format().sample_rate <= source.frames() * 1_000_000_000 < (r@ + 1)
            * source.format().sample_rate,
        RAW_CHUNK_FRAMES == 4096,
{
    let channels = source.format().channels as int;
    let count = source.samples().len() as int;
    vstd::arithmetic::div_mod::lemma_fundamental_div_mod(count, channels);
    vstd::arithmetic::div_mod::lemma_mod_bound(count, channels);
    let frames = source.frames() as int;
    assert(frames * channels <= count < (frames + 1) * channels) by (nonlinear_arith)
        requires
            count == channels * frames + count % channels,
            0 <= count % channels < channels,
    ;
    assert(source.samples().take(source.next() as int) + source.rest() =~= source.samples());
    crate::timing::frames_last_their_share_of_a_second(
        source.frames(),
        source.format().sample_rate,
    );
}

} // verus!
