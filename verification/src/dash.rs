//! Reading a DASH manifest (MPD), and where in a track its segments are.

use crate::text::{
    decimal, decimal_text, ends_with, replace, replaced, starts_with, trim, trimmed,
};
use crate::time::{Duration, NANOS_PER_SEC};
use vstd::prelude::*;

verus! {

// ---- segments and time -----------------------------------------------------------------------

/// Everything needed to download the init segment and all media segments of a single
/// DASH (ISO/MP4) audio representation.
#[derive(Debug, Clone, PartialEq, Eq)]
pub struct DashSegments {
    /// Absolute URL of the initialization segment.
    pub init_url: String,
    /// Absolute URL template for media segments; still contains the literal `$Number$`
    /// placeholder, substitute it with [`DashSegments::segment_url`].
    pub media_url_template: String,
    /// First segment number (`startNumber`, 1 if the manifest does not say).
    pub start_number: u32,
    /// Total number of media segments, if it could be determined from the manifest.
    /// `None` means the caller must download sequentially until a request fails.
    pub segment_count: Option<u32>,
    /// The `codecs` attribute of the `<Representation>` element (e.g. `"flac"`), if present.
    pub codecs: Option<String>,
    /// Ticks per second of the segment timing below (`SegmentTemplate@timescale`).
    pub timescale: u64,
    /// When each segment starts, which is what seeking needs.
    pub timing: SegmentTiming,
    /// `mediaPresentationDuration`, when the manifest has one that could be read.
    pub presentation_duration: Option<Duration>,
}

/// When the segments of a representation start, in `timescale` ticks from the start of the track.
#[derive(Debug, Clone, PartialEq, Eq)]
pub enum SegmentTiming {
    /// The manifest says nothing usable about timing, so seeking is not possible.
    Unknown,
    /// Every segment lasts `ticks` (`SegmentTemplate@duration`); the last one may be shorter.
    Constant {
        /// How long.
        ticks: u64,
    },
    /// A `<SegmentTimeline>`, flattened: `starts[i]` is when segment `i` starts and `end` when the
    /// last one ends. Repeats (`r=`), gaps (`t=`) and `presentationTimeOffset` are already
    /// applied, so lookup is a binary search.
    Explicit {
        /// When each segment starts.
        starts: Vec<u64>,
        /// When the last one ends.
        end: u64,
    },
}

/// The segment containing a point in time.
#[derive(Debug, Clone, Copy, PartialEq, Eq, Structural)]
pub struct SegmentAt {
    /// The `$Number$` to request.
    pub number: u32,
    /// Position in the list, counting from zero regardless of `startNumber`.
    pub index: u32,
    /// Where the segment starts, at or before the requested time.
    pub start: Duration,
}

/// Ticks per second to divide by: a timescale of zero counts as one.
pub open spec fn scale_of(timescale: u64) -> nat {
    if timescale == 0 {
        1
    } else {
        timescale as nat
    }
}

/// How long `ticks` ticks last, in whole nanoseconds.
pub open spec fn ticks_nanos(ticks: nat, timescale: u64) -> nat {
    ticks * NANOS_PER_SEC as nat / scale_of(timescale)
}

/// How many ticks have begun by `nanos` nanoseconds: the most that last no longer than that (see
/// [`ticks_begin_in_time`]).
pub open spec fn ticks_by(nanos: nat, timescale: u64) -> nat {
    (((nanos + 1) * scale_of(timescale) - 1) / NANOS_PER_SEC as int) as nat
}

/// How many ticks are nearest to `nanos` nanoseconds.
pub open spec fn nearest_ticks(nanos: nat, timescale: u64) -> nat {
    (nanos * scale_of(timescale) + 500_000_000) / NANOS_PER_SEC as nat
}

/// The nearest number of ticks, at most what 64 bits hold.
pub open spec fn ticks_at(nanos: nat, timescale: u64) -> u64 {
    if nearest_ticks(nanos, timescale) <= u64::MAX {
        nearest_ticks(nanos, timescale) as u64
    } else {
        u64::MAX
    }
}

/// How long `ticks` ticks last, rounded down to a whole nanosecond.
pub fn ticks_to_duration(ticks: u64, timescale: u64) -> (r: Duration)
    ensures
        r@ == ticks_nanos(ticks as nat, timescale),
{
    long_ticks_to_duration(ticks as u128, timescale)
}

/// [`ticks_to_duration`], for counts of ticks that 64 bits may not hold.
fn long_ticks_to_duration(ticks: u128, timescale: u64) -> (r: Duration)
    requires
        ticks * NANOS_PER_SEC <= u128::MAX,
    ensures
        r@ == ticks_nanos(ticks as nat, timescale),
{
    let scale: u128 = if timescale == 0 {
        1
    } else {
        timescale as u128
    };
    Duration { nanos: ticks * NANOS_PER_SEC / scale }
}

/// How many ticks have begun by the time `at`. `None` where that is not to be had in 128 bits, and
/// is more than any 32-bit number of 64-bit lengths.
fn ticks_begun(at: Duration, timescale: u64) -> (r: Option<u128>)
    ensures
        match r {
            Some(ticks) => ticks == ticks_by(at@, timescale),
            None => ticks_by(at@, timescale) > u64::MAX * 0x1_0000_0000,
        },
{
    let scale: u128 = if timescale == 0 {
        1
    } else {
        timescale as u128
    };
    let ghost product = (at@ + 1) * scale_of(timescale);
    assert(product >= 1 && product >= at@ + 1) by (nonlinear_arith)
        requires
            product == (at@ + 1) * scale_of(timescale),
            scale_of(timescale) >= 1,
            at@ >= 0,
    ;
    match at.nanos.checked_add(1) {
        Some(after) => match after.checked_mul(scale) {
            Some(scaled) => Some((scaled - 1) / NANOS_PER_SEC),
            None => None,
        },
        None => None,
    }
}

/// Rounds to the nearest tick: [`ticks_to_duration`] truncates to whole nanoseconds, so truncating
/// here too would turn a segment's exact start time into one tick before it, i.e. the previous
/// segment.
pub fn duration_to_ticks(duration: Duration, timescale: u64) -> (r: u64)
    requires
        duration@ * scale_of(timescale) + 500_000_000 <= u128::MAX,
    ensures
        r == ticks_at(duration@, timescale),
{
    let scale: u128 = if timescale == 0 {
        1
    } else {
        timescale as u128
    };
    assert(duration@ * scale_of(timescale) == duration.nanos * scale);
    let ticks: u128 = (duration.nanos * scale + 500_000_000) / NANOS_PER_SEC;
    if ticks <= u64::MAX as u128 {
        ticks as u64
    } else {
        u64::MAX
    }
}

/// Whether every segment starts at or after the one before it.
pub open spec fn in_order(starts: Seq<u64>) -> bool {
    forall|i: int, j: int| 0 <= i <= j < starts.len() ==> starts[i] <= starts[j]
}

/// The last segment that starts at or before `nanos` nanoseconds, or the first one if none does.
pub open spec fn place_of(starts: Seq<u64>, nanos: nat, timescale: u64) -> nat
    decreases starts.len(),
{
    if starts.len() <= 1 {
        0
    } else if ticks_nanos(starts.last() as nat, timescale) <= nanos {
        (starts.len() - 1) as nat
    } else {
        place_of(starts.drop_last(), nanos, timescale)
    }
}

fn is_at_or_before(start: u64, ticks: u64) -> (r: bool)
    ensures
        r == (start <= ticks),
{
    start <= ticks
}

/// Trusts `slice::partition_point`: of a row in which those at or before `ticks` come first, it
/// gives how many they are. What it gives of any other row is left open.
#[verifier::external_body]
fn started_by(starts: &Vec<u64>, ticks: u64) -> (r: usize)
    ensures
        in_order(starts@) ==> r <= starts@.len(),
        in_order(starts@) ==> forall|i: int| 0 <= i < r ==> #[trigger] starts@[i] <= ticks,
        in_order(starts@) ==> forall|i: int|
            r <= i < starts@.len() ==> #[trigger] starts@[i] > ticks,
{
    starts.partition_point(|start| is_at_or_before(*start, ticks))
}

proof fn lemma_place_of(starts: Seq<u64>, nanos: nat, timescale: u64, count: int)
    requires
        0 <= count <= starts.len(),
        forall|i: int|
            0 <= i < count ==> ticks_nanos(#[trigger] starts[i] as nat, timescale) <= nanos,
        forall|i: int|
            count <= i < starts.len() ==> ticks_nanos(#[trigger] starts[i] as nat, timescale)
                > nanos,
    ensures
        place_of(starts, nanos, timescale) == if count == 0 {
            0
        } else {
            count - 1
        },
    decreases starts.len(),
{
    if starts.len() > 1 && ticks_nanos(starts.last() as nat, timescale) > nanos {
        let shorter = starts.drop_last();
        assert forall|i: int| 0 <= i < count implies ticks_nanos(
            #[trigger] shorter[i] as nat,
            timescale,
        ) <= nanos by {
            assert(shorter[i] == starts[i]);
        }
        assert forall|i: int| count <= i < shorter.len() implies ticks_nanos(
            #[trigger] shorter[i] as nat,
            timescale,
        ) > nanos by {
            assert(shorter[i] == starts[i]);
        }
        lemma_place_of(shorter, nanos, timescale, count);
    }
}

impl DashSegments {
    /// Builds the absolute URL for media segment `number` (as used by `SegmentTemplate`'s
    /// `$Number$` substitution).
    pub fn segment_url(&self, number: u32) -> (r: String)
        ensures
            r@ == replaced(self.media_url_template@, "$Number$"@, decimal_text(number as nat)),
    {
        proof {
            reveal_strlit("$Number$");
        }
        replace(self.media_url_template.as_str(), "$Number$", decimal(number as u64).as_str())
    }

    /// The inclusive range of segment numbers to download, when the count is known.
    pub fn segment_range(&self) -> (r: Option<std::ops::RangeInclusive<u32>>)
        requires
            self.last_number_fits(),
        ensures
            self.is_range(self.start_number, r),
    {
        self.segment_range_from(self.start_number)
    }

    /// Whether the number of the last segment, if it is known, fits 32 bits.
    pub open spec fn last_number_fits(&self) -> bool {
        self.segment_count matches Some(count) ==> self.start_number + count <= u32::MAX + 1
            || count == 0
    }

    /// Whether `range` is the numbers from `first` to the last segment's, or nothing where the
    /// count is not known.
    pub open spec fn is_range(&self, first: u32, range: Option<std::ops::RangeInclusive<u32>>) -> bool {
        match self.segment_count {
            None => range is None,
            Some(count) => range matches Some(r) && r@.start == first && r@.end
                == self.start_number + (if count == 0 {
                0
            } else {
                count - 1
            }) && !r@.exhausted,
        }
    }

    /// Like [`DashSegments::segment_range`], starting at segment `first`. Empty if `first` is
    /// past the last segment.
    pub fn segment_range_from(&self, first: u32) -> (r: Option<std::ops::RangeInclusive<u32>>)
        requires
            self.last_number_fits(),
        ensures
            self.is_range(first, r),
    {
        match self.segment_count {
            Some(count) => {
                let last: u32 = self.start_number + count.saturating_sub(1);
                Some(std::ops::RangeInclusive::new(first, last))
            },
            None => None,
        }
    }

    /// The track's length, as the manifest tells it.
    pub open spec fn length(&self) -> Option<nat> {
        match self.timing {
            SegmentTiming::Explicit { starts, end } => Some(
                ticks_nanos(end as nat, self.timescale),
            ),
            _ => match self.presentation_duration {
                Some(duration) => Some(duration@),
                None => None,
            },
        }
    }

    /// The track's length, when the manifest tells.
    pub fn total_duration(&self) -> (r: Option<Duration>)
        ensures
            match self.length() {
                Some(nanos) => r matches Some(length) && length@ == nanos,
                None => r is None,
            },
    {
        match &self.timing {
            SegmentTiming::Explicit { starts: _, end } => Some(
                ticks_to_duration(*end, self.timescale),
            ),
            _ => self.presentation_duration,
        }
    }

    /// Segment `index`, which starts at `start_ticks`; `None` if its number does not fit 32 bits.
    pub open spec fn segment_at(&self, index: nat, start_ticks: nat) -> Option<SegmentAt> {
        if self.start_number + index <= u32::MAX {
            Some(
                SegmentAt {
                    number: (self.start_number + index) as u32,
                    index: index as u32,
                    start: Duration { nanos: ticks_nanos(start_ticks, self.timescale) as u128 },
                },
            )
        } else {
            None
        }
    }

    /// The segment that contains the time `at`. A segment covers everything up to the start of
    /// the next one, so a time exactly on a boundary belongs to the segment that starts there,
    /// and a gap to the one before it.
    pub open spec fn segment_containing(&self, at: Duration) -> Option<SegmentAt> {
        match self.timing {
            SegmentTiming::Unknown => None,
            SegmentTiming::Explicit { starts, end } => if starts@.len() == 0 || at@ >= ticks_nanos(
                end as nat,
                self.timescale,
            ) {
                None
            } else {
                let place = place_of(starts@, at@, self.timescale);
                self.segment_at(place, starts@[place as int] as nat)
            },
            SegmentTiming::Constant { ticks: length } => if length == 0 || (self.length() is Some
                && at@ >= self.length()->0) {
                None
            } else {
                let place = ticks_by(at@, self.timescale) / length as nat;
                if self.segment_count matches Some(count) && place >= count {
                    None
                } else {
                    self.segment_at(place, place * length as nat)
                }
            },
        }
    }

    /// Whether the first segment starts at or before the time `at`.
    pub open spec fn has_begun(&self, at: Duration) -> bool {
        self.timing matches SegmentTiming::Explicit { starts, end } ==> (starts@.len() > 0
            ==> ticks_nanos(starts@[0] as nat, self.timescale) <= at@)
    }

    /// Whether the segments come one after the other.
    pub open spec fn is_in_order(&self) -> bool {
        self.timing matches SegmentTiming::Explicit { starts, end } ==> in_order(starts@)
    }

    /// The segment that contains `at` (a segment covers `[start, next start)`, so a time exactly
    /// on a boundary belongs to the segment that starts there). `None` when the timing is
    /// unknown or `at` is at or past the end of the track. Of a timeline that jumps back, any
    /// segment may be given for a time before its end, or none.
    pub fn segment_for_time(&self, at: Duration) -> (r: Option<SegmentAt>)
        ensures
            self.is_in_order() ==> r == self.segment_containing(at),
            self.is_in_order() && self.has_begun(at) ==> (r matches Some(segment)
                ==> segment.start@ <= at@),
            !self.is_in_order() ==> {
                let starts = self.timing->Explicit_starts@;
                r is None || (at@ < ticks_nanos(
                    self.timing->Explicit_end as nat,
                    self.timescale,
                ) && exists|i: int|
                    0 <= i < starts.len() && r == self.segment_at(
                        i as nat,
                        #[trigger] starts[i] as nat,
                    ))
            },
    {
        let begun = ticks_begun(at, self.timescale);
        let (index, start_ticks): (usize, u128) = match &self.timing {
            SegmentTiming::Unknown => {
                return None;
            },
            SegmentTiming::Explicit { starts, end } => {
                if starts.len() == 0 || at.reaches(ticks_to_duration(*end, self.timescale)) {
                    return None;
                }
                let ticks: u64 = match begun {
                    Some(ticks) if ticks <= u64::MAX as u128 => ticks as u64,
                    _ => u64::MAX,
                };
                let count: usize = started_by(starts, ticks);
                let index: usize = count.saturating_sub(1);
                proof {
                    if in_order(starts@) {
                        lemma_starts_by(starts@, at@, self.timescale, ticks);
                        lemma_place_of(starts@, at@, self.timescale, count as int);
                    }
                }
                if index >= starts.len() {
                    return None;
                }
                assert(starts@[index as int] == starts@[index as int]);
                (index, starts[index] as u128)
            },
            SegmentTiming::Constant { ticks: length } => {
                let over = match self.total_duration() {
                    Some(total) => at.reaches(total),
                    None => false,
                };
                if *length == 0 || over {
                    return None;
                }
                let ghost by = ticks_by(at@, self.timescale);
                let ticks: u128 = match begun {
                    Some(ticks) => ticks,
                    None => {
                        proof {
                            lemma_quotient_is_large(by, *length);
                        }
                        return None;
                    },
                };
                let place: u128 = ticks / *length as u128;
                if place > u32::MAX as u128 {
                    return None;
                }
                match self.segment_count {
                    Some(count) => {
                        if place >= count as u128 {
                            return None;
                        }
                    },
                    None => {},
                }
                proof {
                    lemma_starts_in_time(place as nat, *length, at@, self.timescale);
                    assert(place * *length <= u32::MAX * u64::MAX) by (nonlinear_arith)
                        requires
                            0 <= place <= u32::MAX,
                            0 <= *length <= u64::MAX,
                    ;
                }
                (place as usize, place * *length as u128)
            },
        };
        if index > u32::MAX as usize {
            return None;
        }
        proof {
            lemma_long_nanos_fit(start_ticks, self.timescale);
        }
        match self.start_number.checked_add(index as u32) {
            Some(number) => Some(
                SegmentAt {
                    number,
                    index: index as u32,
                    start: long_ticks_to_duration(start_ticks, self.timescale),
                },
            ),
            None => None,
        }
    }
}

// ---- what holds of segments and time ---------------------------------------------------------

/// A time that came from a count of ticks gives that count back, for every timescale up to one
/// tick in two nanoseconds.
pub proof fn ticks_survive_the_round_trip(ticks: u64, timescale: u64)
    requires
        0 < timescale <= 500_000_000,
    ensures
        nearest_ticks(ticks_nanos(ticks as nat, timescale), timescale) == ticks,
{
    let t = ticks as int;
    let scale = timescale as int;
    let nanos = ticks_nanos(ticks as nat, timescale) as int;
    let second = NANOS_PER_SEC as int;
    vstd::arithmetic::div_mod::lemma_fundamental_div_mod(t * second, scale);
    vstd::arithmetic::div_mod::lemma_mod_bound(t * second, scale);
    assert(scale * nanos == nanos * scale) by (nonlinear_arith);
    vstd::arithmetic::div_mod::lemma_fundamental_div_mod_converse(
        nanos * scale + 500_000_000,
        second,
        t,
        nanos * scale + 500_000_000 - t * second,
    );
}

/// As many ticks have begun by a time as last no longer than that.
pub proof fn ticks_begin_in_time(ticks: nat, nanos: nat, timescale: u64)
    ensures
        ticks_nanos(ticks, timescale) <= nanos <==> ticks <= ticks_by(nanos, timescale),
{
    let scale = scale_of(timescale) as int;
    let second = NANOS_PER_SEC as int;
    let t = ticks as int;
    let n = nanos as int;
    let lasts = t * second / scale;
    let begun = ((n + 1) * scale - 1) / second;
    vstd::arithmetic::div_mod::lemma_fundamental_div_mod(t * second, scale);
    vstd::arithmetic::div_mod::lemma_mod_bound(t * second, scale);
    vstd::arithmetic::div_mod::lemma_fundamental_div_mod((n + 1) * scale - 1, second);
    vstd::arithmetic::div_mod::lemma_mod_bound((n + 1) * scale - 1, second);
    assert((n + 1) * scale >= 1) by (nonlinear_arith)
        requires
            n >= 0,
            scale >= 1,
    ;
    assert(begun >= 0) by (nonlinear_arith)
        requires
            begun == ((n + 1) * scale - 1) / second,
            (n + 1) * scale >= 1,
            second > 0,
    ;
    assert(lasts <= n <==> t * second < (n + 1) * scale) by (nonlinear_arith)
        requires
            scale >= 1,
            scale * lasts <= t * second < scale * lasts + scale,
    ;
    assert(t <= begun <==> t * second <= (n + 1) * scale - 1) by (nonlinear_arith)
        requires
            second == 1_000_000_000,
            second * begun <= (n + 1) * scale - 1 < second * begun + second,
    ;
}

proof fn lemma_starts_by(starts: Seq<u64>, nanos: nat, timescale: u64, ticks: u64)
    requires
        ticks == if ticks_by(nanos, timescale) <= u64::MAX {
            ticks_by(nanos, timescale)
        } else {
            u64::MAX as nat
        },
    ensures
        forall|i: int|
            0 <= i < starts.len() ==> (ticks_nanos(#[trigger] starts[i] as nat, timescale) <= nanos
                <==> starts[i] <= ticks),
{
    assert forall|i: int| 0 <= i < starts.len() implies (ticks_nanos(
        #[trigger] starts[i] as nat,
        timescale,
    ) <= nanos <==> starts[i] <= ticks) by {
        ticks_begin_in_time(starts[i] as nat, nanos, timescale);
    }
}

proof fn lemma_quotient_is_large(ticks: nat, length: u64)
    requires
        ticks > u64::MAX * 0x1_0000_0000,
        length > 0,
    ensures
        ticks / length as nat > u32::MAX,
{
    vstd::arithmetic::div_mod::lemma_div_is_ordered(
        u64::MAX * 0x1_0000_0000,
        ticks as int,
        length as int,
    );
    vstd::arithmetic::div_mod::lemma_div_is_ordered_by_denominator(
        u64::MAX * 0x1_0000_0000,
        length as int,
        u64::MAX as int,
    );
}

proof fn lemma_starts_in_time(place: nat, length: u64, nanos: nat, timescale: u64)
    requires
        length > 0,
        place == ticks_by(nanos, timescale) / length as nat,
    ensures
        ticks_nanos(place * length as nat, timescale) <= nanos,
        nanos < ticks_nanos((place + 1) * length as nat, timescale),
{
    let by = ticks_by(nanos, timescale);
    vstd::arithmetic::div_mod::lemma_fundamental_div_mod(by as int, length as int);
    vstd::arithmetic::div_mod::lemma_mod_bound(by as int, length as int);
    assert(place * length as nat <= by < (place + 1) * length as nat) by (nonlinear_arith)
        requires
            by as int == length as int * place as int + (by as int % length as int),
            0 <= by as int % length as int,
            (by as int % length as int) < length as int,
    ;
    ticks_begin_in_time(place * length as nat, nanos, timescale);
    ticks_begin_in_time((place + 1) * length as nat, nanos, timescale);
}

proof fn lemma_long_nanos_fit(ticks: u128, timescale: u64)
    requires
        ticks <= u32::MAX * u64::MAX,
    ensures
        ticks_nanos(ticks as nat, timescale) <= u128::MAX,
{
    vstd::arithmetic::div_mod::lemma_div_is_ordered_by_denominator(
        ticks * NANOS_PER_SEC,
        1,
        scale_of(timescale) as int,
    );
}

/// The start of a segment is the time that its ticks last.
pub proof fn a_segment_starts_when_it_says(dash: DashSegments, index: nat, start_ticks: nat)
    requires
        start_ticks <= u32::MAX * u64::MAX,
    ensures
        dash.segment_at(index, start_ticks) matches Some(segment) ==> segment.start@
            == ticks_nanos(start_ticks, dash.timescale),
{
    lemma_long_nanos_fit(start_ticks as u128, dash.timescale);
}

/// A time exactly on a boundary belongs to the segment that starts there: the time at which a
/// segment of a timeline starts leads to that segment, if the next one starts later by a
/// nanosecond or more.
pub proof fn a_boundary_belongs_to_the_segment_that_starts_there(dash: DashSegments, index: int)
    requires
        dash.timing is Explicit,
        ({
            let starts = dash.timing->Explicit_starts@;
            let start = ticks_nanos(starts[index] as nat, dash.timescale);
            &&& 0 <= index < starts.len()
            &&& in_order(starts)
            &&& index + 1 < starts.len() ==> start < ticks_nanos(
                starts[index + 1] as nat,
                dash.timescale,
            )
            &&& start < ticks_nanos(dash.timing->Explicit_end as nat, dash.timescale)
        }),
    ensures
        ({
            let start = dash.timing->Explicit_starts@[index];
            dash.segment_containing(
                Duration { nanos: ticks_nanos(start as nat, dash.timescale) as u128 },
            ) == dash.segment_at(index as nat, start as nat)
        }),
{
    let starts = dash.timing->Explicit_starts@;
    let start = starts[index];
    let nanos = ticks_nanos(start as nat, dash.timescale);
    lemma_long_nanos_fit(start as u128, dash.timescale);
    assert forall|i: int| 0 <= i < index + 1 implies ticks_nanos(
        #[trigger] starts[i] as nat,
        dash.timescale,
    ) <= nanos by {
        lemma_later_ticks_last_longer(starts[i] as nat, start as nat, dash.timescale);
    }
    assert forall|i: int| index + 1 <= i < starts.len() implies ticks_nanos(
        #[trigger] starts[i] as nat,
        dash.timescale,
    ) > nanos by {
        lemma_later_ticks_last_longer(
            starts[index + 1] as nat,
            starts[i] as nat,
            dash.timescale,
        );
    }
    lemma_place_of(starts, nanos, dash.timescale, index + 1);
}

proof fn lemma_later_ticks_last_longer(a: nat, b: nat, timescale: u64)
    requires
        a <= b,
    ensures
        ticks_nanos(a, timescale) <= ticks_nanos(b, timescale),
{
    vstd::arithmetic::div_mod::lemma_div_is_ordered(
        a * NANOS_PER_SEC,
        b * NANOS_PER_SEC,
        scale_of(timescale) as int,
    );
}

/// So does the time at which a segment of constant length starts, as long as the track reaches
/// it.
pub proof fn a_constant_boundary_belongs_to_the_segment_that_starts_there(
    dash: DashSegments,
    index: nat,
)
    requires
        dash.timing matches SegmentTiming::Constant { ticks } && ticks > 0,
        index <= u32::MAX,
        dash.segment_count matches Some(count) ==> index < count,
        ({
            let length = dash.timing->Constant_ticks as nat;
            let start = ticks_nanos(index * length, dash.timescale);
            &&& start < ticks_nanos((index + 1) * length, dash.timescale)
            &&& dash.length() matches Some(nanos) ==> start < nanos
        }),
    ensures
        ({
            let start = index * dash.timing->Constant_ticks as nat;
            dash.segment_containing(
                Duration { nanos: ticks_nanos(start, dash.timescale) as u128 },
            ) == dash.segment_at(index, start)
        }),
{
    let length = dash.timing->Constant_ticks;
    let start = index * length as nat;
    let nanos = ticks_nanos(start, dash.timescale);
    assert(start <= u32::MAX * u64::MAX) by (nonlinear_arith)
        requires
            start == index * length as nat,
            index <= u32::MAX,
            length <= u64::MAX,
    ;
    lemma_long_nanos_fit(start as u128, dash.timescale);
    ticks_begin_in_time(start, nanos, dash.timescale);
    ticks_begin_in_time((index + 1) * length as nat, nanos, dash.timescale);
    let by = ticks_by(nanos, dash.timescale);
    assert((index + 1) * length as nat == index * length as nat + length) by (nonlinear_arith);
    assert(by as int == index * length as nat + (by - start));
    vstd::arithmetic::div_mod::lemma_fundamental_div_mod_converse(
        by as int,
        length as int,
        index as int,
        by - start,
    );
}

/// The segment that is found contains the time: it starts at or before it, unless the time is
/// before the first segment, and the next one starts after it.
pub proof fn the_found_segment_contains_the_time(starts: Seq<u64>, nanos: nat, timescale: u64)
    requires
        starts.len() > 0,
        in_order(starts),
    ensures
        ({
            let place = place_of(starts, nanos, timescale);
            &&& place < starts.len()
            &&& ticks_nanos(starts[0] as nat, timescale) <= nanos ==> ticks_nanos(
                starts[place as int] as nat,
                timescale,
            ) <= nanos
            &&& place + 1 < starts.len() ==> nanos < ticks_nanos(
                starts[place as int + 1] as nat,
                timescale,
            )
        }),
    decreases starts.len(),
{
    if starts.len() > 1 && ticks_nanos(starts.last() as nat, timescale) > nanos {
        the_found_segment_contains_the_time(starts.drop_last(), nanos, timescale);
    }
}

/// So does the one that is found among segments of constant length.
pub proof fn the_found_constant_segment_contains_the_time(dash: DashSegments, at: Duration)
    requires
        dash.timing is Constant,
        dash.segment_containing(at) is Some,
    ensures
        ({
            let segment = dash.segment_containing(at)->0;
            let length = dash.timing->Constant_ticks as nat;
            &&& segment.start@ == ticks_nanos(segment.index as nat * length, dash.timescale)
            &&& segment.start@ <= at@
            &&& at@ < ticks_nanos((segment.index + 1) as nat * length, dash.timescale)
        }),
{
    let length = dash.timing->Constant_ticks;
    let place = ticks_by(at@, dash.timescale) / length as nat;
    lemma_starts_in_time(place, length, at@, dash.timescale);
    assert(place * length as nat <= u32::MAX * u64::MAX) by (nonlinear_arith)
        requires
            place <= u32::MAX,
            length <= u64::MAX,
    ;
    lemma_long_nanos_fit((place * length as nat) as u128, dash.timescale);
}

// ---- the timeline ----------------------------------------------------------------------------

/// One `<S t= d= r=>` element of a `<SegmentTimeline>`.
#[derive(Debug, Clone, Copy, PartialEq, Eq, Structural)]
pub struct TimelineEntry {
    /// When the first of its segments starts; right after the one before if it does not say.
    pub t: Option<u64>,
    /// How long each lasts.
    pub d: u64,
    /// Extra repeats after the first; negative means "until the end of the period".
    pub r: i64,
}

/// `ticks`, at most what 64 bits hold.
pub open spec fn capped_ticks(ticks: nat) -> u64 {
    if ticks <= u64::MAX {
        ticks as u64
    } else {
        u64::MAX
    }
}

/// `ticks` counted from `offset`.
pub open spec fn ticks_from(ticks: u64, offset: u64) -> u64 {
    if ticks >= offset {
        (ticks - offset) as u64
    } else {
        0
    }
}

/// When segment `k` of an entry starts, whose first one starts at `begin`.
pub open spec fn repeat_start(begin: u64, d: u64, k: nat) -> u64 {
    capped_ticks(begin as nat + k * d as nat)
}

/// When the first segment of the last of `entries` starts.
pub open spec fn entry_begin(entries: Seq<TimelineEntry>) -> u64
    recommends
        entries.len() > 0,
{
    match entries.last().t {
        Some(t) => t,
        None => timeline_end(entries.drop_last()),
    }
}

/// When the last segment of `entries` ends.
pub open spec fn timeline_end(entries: Seq<TimelineEntry>) -> u64
    decreases entries.len(),
{
    if entries.len() == 0 {
        0
    } else {
        let entry = entries.last();
        let begin = match entry.t {
            Some(t) => t,
            None => timeline_end(entries.drop_last()),
        };
        repeat_start(begin, entry.d, (entry.r + 1) as nat)
    }
}

/// When each segment of `entries` starts, counted from `offset`.
pub open spec fn timeline_starts(entries: Seq<TimelineEntry>, offset: u64) -> Seq<u64>
    decreases entries.len(),
{
    if entries.len() == 0 {
        Seq::empty()
    } else {
        let entry = entries.last();
        timeline_starts(entries.drop_last(), offset) + Seq::new(
            (entry.r + 1) as nat,
            |k: int| ticks_from(repeat_start(entry_begin(entries), entry.d, k as nat), offset),
        )
    }
}

/// Whether every entry says how often it repeats.
pub open spec fn is_bounded(entries: Seq<TimelineEntry>) -> bool {
    forall|i: int| 0 <= i < entries.len() ==> (#[trigger] entries[i]).r >= 0
}

/// Turns a timeline into segment start times and the end time, minus `presentation_time_offset`.
/// `None` when an entry repeats without a bound, which needs the period length to expand.
pub fn flatten_timeline(entries: &Vec<TimelineEntry>, presentation_time_offset: u64) -> (r: Option<
    (Vec<u64>, u64),
>)
    ensures
        r is Some <==> is_bounded(entries@),
        r matches Some(flat) ==> {
            &&& flat.0@ == timeline_starts(entries@, presentation_time_offset)
            &&& flat.1 == ticks_from(timeline_end(entries@), presentation_time_offset)
        },
{
    let offset: u64 = presentation_time_offset;
    let mut starts: Vec<u64> = Vec::new();
    let mut cursor: u64 = 0;
    let mut i: usize = 0;
    while i < entries.len()
        invariant
            i <= entries.len(),
            is_bounded(entries@.take(i as int)),
            starts@ == timeline_starts(entries@.take(i as int), offset),
            cursor == timeline_end(entries@.take(i as int)),
        decreases entries.len() - i,
    {
        let entry: TimelineEntry = entries[i];
        if entry.r < 0 {
            assert(!is_bounded(entries@));
            return None;
        }
        let ghost upto = entries@.take(i + 1);
        proof {
            assert(upto.drop_last() =~= entries@.take(i as int));
            assert(upto.last() == entry);
        }
        match entry.t {
            Some(t) => {
                cursor = t;
            },
            None => {},
        }
        let ghost begin = cursor;
        let ghost before = starts@;
        assert(begin == entry_begin(upto));
        let count: u64 = entry.r as u64 + 1;
        let mut k: u64 = 0;
        proof {
            assert(0nat * entry.d as nat == 0);
        }
        while k < count
            invariant
                k <= count,
                cursor == repeat_start(begin, entry.d, k as nat),
                starts@ == before + Seq::new(
                    k as nat,
                    |j: int| ticks_from(repeat_start(begin, entry.d, j as nat), offset),
                ),
            decreases count - k,
        {
            let ghost so_far = starts@;
            starts.push(cursor.saturating_sub(offset));
            assert(starts@ =~= before + Seq::new(
                (k + 1) as nat,
                |j: int| ticks_from(repeat_start(begin, entry.d, j as nat), offset),
            ));
            assert((k + 1) as nat * entry.d as nat == k as nat * entry.d as nat + entry.d as nat)
                by (nonlinear_arith);
            cursor = cursor.saturating_add(entry.d);
            k += 1;
        }
        assert(starts@ =~= timeline_starts(upto, offset));
        i += 1;
    }
    assert(entries@.take(entries@.len() as int) =~= entries@);
    Some((starts, cursor.saturating_sub(offset)))
}

/// A timeline whose entries say no times of their own is in order.
pub proof fn a_timeline_without_jumps_is_in_order(entries: Seq<TimelineEntry>, offset: u64)
    requires
        is_bounded(entries),
        forall|i: int| 0 <= i < entries.len() ==> (#[trigger] entries[i]).t is None,
    ensures
        in_order(timeline_starts(entries, offset)),
        forall|i: int|
            0 <= i < timeline_starts(entries, offset).len() ==> #[trigger] timeline_starts(
                entries,
                offset,
            )[i] <= ticks_from(timeline_end(entries), offset),
    decreases entries.len(),
{
    if entries.len() > 0 {
        let shorter = entries.drop_last();
        let entry = entries.last();
        assert(entries[entries.len() - 1] == entry);
        assert forall|i: int| 0 <= i < shorter.len() implies (#[trigger] shorter[i]).t is None
            && shorter[i].r >= 0 by {
            assert(shorter[i] == entries[i]);
        }
        a_timeline_without_jumps_is_in_order(shorter, offset);
        let old = timeline_starts(shorter, offset);
        let all = timeline_starts(entries, offset);
        let begin = entry_begin(entries);
        let d = entry.d as nat;
        assert forall|a: int, b: int| 0 <= a <= b implies #[trigger] repeat_start(
            begin,
            entry.d,
            a as nat,
        ) <= #[trigger] repeat_start(begin, entry.d, b as nat) by {
            assert(a as nat * d <= b as nat * d) by (nonlinear_arith)
                requires
                    0 <= a <= b,
            ;
        }
        assert(repeat_start(begin, entry.d, 0) == begin) by {
            assert(0nat * d == 0);
        }
        let n = old.len();
        assert forall|i: int| n <= i < all.len() implies #[trigger] all[i] == ticks_from(
            repeat_start(begin, entry.d, (i - n) as nat),
            offset,
        ) by {}
        assert forall|i: int| 0 <= i < all.len() implies #[trigger] all[i] <= ticks_from(
            timeline_end(entries),
            offset,
        ) by {
            assert(repeat_start(begin, entry.d, 0) <= repeat_start(
                begin,
                entry.d,
                (entry.r + 1) as nat,
            ));
            if i < n {
                assert(all[i] == old[i]);
            } else {
                assert(repeat_start(begin, entry.d, (i - n) as nat) <= repeat_start(
                    begin,
                    entry.d,
                    (entry.r + 1) as nat,
                ));
            }
        }
        assert forall|i: int, j: int| 0 <= i <= j < all.len() implies all[i] <= all[j] by {
            if j < n {
                assert(all[i] == old[i] && all[j] == old[j]);
            } else if i < n {
                assert(all[i] == old[i]);
                assert(old[i] <= ticks_from(begin, offset));
                assert(repeat_start(begin, entry.d, 0) <= repeat_start(
                    begin,
                    entry.d,
                    (j - n) as nat,
                ));
            } else {
                assert(repeat_start(begin, entry.d, (i - n) as nat) <= repeat_start(
                    begin,
                    entry.d,
                    (j - n) as nat,
                ));
            }
        }
    }
}

// ---- URLs ------------------------------------------------------------------------------------

/// Whether `url` names a server by itself.
pub open spec fn is_absolute(url: Seq<char>) -> bool {
    "http://"@.is_prefix_of(url) || "https://"@.is_prefix_of(url)
}

/// `url`, resolved against `base` if it is relative.
pub open spec fn joined_url(base: Option<Seq<char>>, url: Seq<char>) -> Seq<char> {
    match base {
        Some(base) if !is_absolute(url) => if "/"@.is_suffix_of(base) {
            base + url
        } else {
            base + "/"@ + url
        },
        _ => url,
    }
}

/// Resolves a (possibly relative) URL against an optional `<BaseURL>`.
pub fn join_url(base: Option<&str>, url: &str) -> (r: String)
    ensures
        r@ == joined_url(
            match base {
                Some(base) => Some(base@),
                None => None,
            },
            url@,
        ),
{
    let absolute = starts_with(url, "http://") || starts_with(url, "https://");
    match base {
        Some(base) if !absolute => {
            let mut text = String::new();
            text.push_str(base);
            if !ends_with(base, "/") {
                text.push_str("/");
            }
            text.push_str(url);
            assert(text@ =~= joined_url(Some(base@), url@));
            text
        },
        _ => url.to_owned(),
    }
}

// ---- lengths in text ---------------------------------------------------------------------------

/// One number of an ISO 8601 duration, with what it counts.
#[derive(Debug, PartialEq, Eq)]
pub struct DurationPart {
    /// Digits, with a point in them or not, as they are written.
    pub number: String,
    /// How many seconds one is: an hour's, a minute's, or one.
    pub unit_secs: u32,
}

/// What is wrong with a duration.
#[derive(Debug, PartialEq, Eq)]
pub enum DurationError {
    /// It does not begin with `PT`.
    NoPrefix,
    /// A character that has no business there.
    Unexpected(char),
    /// Something that is not a number.
    BadNumber(String),
}

/// A [`DurationError`] as sequences of characters.
pub enum DurationErrorView {
    /// See [`DurationError::NoPrefix`].
    NoPrefix,
    /// See [`DurationError::Unexpected`].
    Unexpected(char),
    /// See [`DurationError::BadNumber`].
    BadNumber(Seq<char>),
}

impl View for DurationError {
    type V = DurationErrorView;

    open spec fn view(&self) -> DurationErrorView {
        match *self {
            DurationError::NoPrefix => DurationErrorView::NoPrefix,
            DurationError::Unexpected(c) => DurationErrorView::Unexpected(c),
            DurationError::BadNumber(text) => DurationErrorView::BadNumber(text@),
        }
    }
}

impl DurationErrorView {
    /// What is said of it, of the duration `whole`.
    pub open spec fn message(self, whole: Seq<char>) -> Seq<char> {
        match self {
            DurationErrorView::NoPrefix =>
                "invalid ISO8601 duration (missing the PT prefix): "@ + whole,
            DurationErrorView::Unexpected(c) => "unexpected character '"@ + seq![c]
                + "' in ISO8601 duration: "@ + whole,
            DurationErrorView::BadNumber(text) => "could not parse number '"@ + text
                + "' in ISO8601 duration: "@ + whole,
        }
    }
}

impl DurationError {
    /// What is said of it, of the duration `whole`.
    pub fn message(&self, whole: &str) -> (r: String)
        ensures
            r@ == self@.message(whole@),
    {
        let mut text = String::new();
        match self {
            DurationError::NoPrefix => {
                text.push_str("invalid ISO8601 duration (missing the PT prefix): ");
            },
            DurationError::Unexpected(c) => {
                text.push_str("unexpected character '");
                text.push(*c);
                text.push_str("' in ISO8601 duration: ");
            },
            DurationError::BadNumber(number) => {
                text.push_str("could not parse number '");
                text.push_str(number.as_str());
                text.push_str("' in ISO8601 duration: ");
            },
        }
        text.push_str(whole);
        assert(text@ =~= self@.message(whole@));
        text
    }
}

/// Whether a row of digits and points is a number: one point at most, one digit at least.
pub open spec fn is_number(s: Seq<char>) -> bool {
    &&& exists|i: int| 0 <= i < s.len() && #[trigger] s[i] != '.'
    &&& forall|i: int, j: int|
        0 <= i < j < s.len() ==> !(#[trigger] s[i] == '.' && #[trigger] s[j] == '.')
}

/// Parts as sequences of characters.
pub open spec fn parts_view(parts: Seq<DurationPart>) -> Seq<(Seq<char>, u32)> {
    parts.map_values(|part: DurationPart| (part.number@, part.unit_secs))
}

/// How many seconds the letter `c` counts.
pub open spec fn unit_of(c: char) -> Option<u32> {
    if c == 'H' {
        Some(3600)
    } else if c == 'M' {
        Some(60)
    } else if c == 'S' {
        Some(1)
    } else {
        None
    }
}

/// The parts that `rest` spells, after `parts` and the beginning `number` of another. A number
/// that nothing follows is left out.
pub open spec fn parts_of(
    rest: Seq<char>,
    number: Seq<char>,
    parts: Seq<(Seq<char>, u32)>,
) -> Result<Seq<(Seq<char>, u32)>, DurationErrorView>
    decreases rest.len(),
{
    if rest.len() == 0 {
        Ok(parts)
    } else {
        let c = rest[0];
        if crate::text::is_digit(c) || c == '.' {
            parts_of(rest.skip(1), number.push(c), parts)
        } else {
            match unit_of(c) {
                Some(unit) => if is_number(number) {
                    parts_of(rest.skip(1), Seq::empty(), parts.push((number, unit)))
                } else {
                    Err(DurationErrorView::BadNumber(number))
                },
                None => Err(DurationErrorView::Unexpected(c)),
            }
        }
    }
}

/// What an ISO 8601 duration of the form `PT#H#M#.###S` says; any of H/M/S may be omitted.
pub open spec fn duration_parts(text: Seq<char>) -> Result<
    Seq<(Seq<char>, u32)>,
    DurationErrorView,
> {
    let whole = trimmed(text);
    if "PT"@.is_prefix_of(whole) {
        parts_of(whole.skip(2), Seq::empty(), Seq::empty())
    } else {
        Err(DurationErrorView::NoPrefix)
    }
}

fn check_number(number: &Vec<char>) -> (r: bool)
    ensures
        r == is_number(number@),
{
    let mut digit = false;
    let mut point = false;
    let mut i: usize = 0;
    while i < number.len()
        invariant
            i <= number.len(),
            digit == exists|j: int| 0 <= j < i && #[trigger] number@[j] != '.',
            point == exists|j: int| 0 <= j < i && #[trigger] number@[j] == '.',
            forall|a: int, b: int|
                0 <= a < b < i ==> !(#[trigger] number@[a] == '.' && #[trigger] number@[b] == '.'),
        decreases number.len() - i,
    {
        if number[i] == '.' {
            if point {
                return false;
            }
            point = true;
        } else {
            digit = true;
        }
        assert(number@[i as int] == number@[i as int]);
        i += 1;
    }
    digit
}

/// What an ISO 8601 duration says, part by part; the sum of them is its length.
pub fn parse_iso8601_duration(text: &str) -> (r: Result<Vec<DurationPart>, DurationError>)
    ensures
        match r {
            Ok(parts) => duration_parts(text@) == Ok::<Seq<(Seq<char>, u32)>, DurationErrorView>(
                parts_view(parts@),
            ),
            Err(error) => duration_parts(text@) == Err::<
                Seq<(Seq<char>, u32)>,
                DurationErrorView,
            >(error@),
        },
{
    let whole = trim(text);
    proof {
        reveal_strlit("PT");
    }
    if !starts_with(whole.as_str(), "PT") {
        return Err(DurationError::NoPrefix);
    }
    let chars = crate::text::chars_of(whole.as_str());
    let mut parts: Vec<DurationPart> = Vec::new();
    let mut number: Vec<char> = Vec::new();
    let mut i: usize = 2;
    assert(parts_view(parts@) =~= Seq::<(Seq<char>, u32)>::empty());
    while i < chars.len()
        invariant
            2 <= i <= chars.len(),
            chars@ == trimmed(text@),
            "PT"@.is_prefix_of(chars@),
            duration_parts(text@) == parts_of(
                chars@.skip(i as int),
                number@,
                parts_view(parts@),
            ),
        decreases chars.len() - i,
    {
        let c = chars[i];
        let ghost rest = chars@.skip(i as int);
        proof {
            assert(rest[0] == c);
            assert(rest.skip(1) =~= chars@.skip(i + 1));
        }
        if ('0' <= c && c <= '9') || c == '.' {
            number.push(c);
        } else {
            let unit: u32 = if c == 'H' {
                3600
            } else if c == 'M' {
                60
            } else if c == 'S' {
                1
            } else {
                return Err(DurationError::Unexpected(c));
            };
            let text_of = crate::text::string_of(&number);
            if !check_number(&number) {
                return Err(DurationError::BadNumber(text_of));
            }
            let ghost before = parts@;
            parts.push(DurationPart { number: text_of, unit_secs: unit });
            assert(parts_view(parts@) =~= parts_view(before).push((number@, unit)));
            number = Vec::new();
            assert(number@ =~= Seq::<char>::empty());
        }
        i += 1;
    }
    Ok(parts)
}

} // verus!
