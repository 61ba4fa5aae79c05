//! What holds between ticks, frames and time.

use crate::decode::{
    delivered, duration_to_frames, frames_nanos, frames_to_duration, nearest_frames, source_spec,
    stated_length, tick_frames, ticks_to_frames, DecodeStep, Decoded, Decoder, PacketRead,
    PacketStep, SourceSpec, TickUnit, Undetermined,
};
use crate::time::{at_most, Duration};
use vstd::arithmetic::div_mod::{
    lemma_fundamental_div_mod, lemma_fundamental_div_mod_converse, lemma_mod_bound,
};
use vstd::prelude::*;

verus! {

proof fn lemma_quotient(x: int, d: int)
    requires
        d > 0,
        x >= 0,
    ensures
        x / d >= 0,
        (x / d) * d <= x < (x / d + 1) * d,
{
    lemma_fundamental_div_mod(x, d);
    lemma_mod_bound(x, d);
    let q = x / d;
    assert(d * q == q * d && (q + 1) * d == q * d + d) by (nonlinear_arith);
    assert(q >= 0) by (nonlinear_arith)
        requires
            x < (q + 1) * d,
            x >= 0,
            d > 0,
    ;
}

proof fn lemma_unique_quotient(x: int, d: int, q: int)
    requires
        d > 0,
        q * d <= x < (q + 1) * d,
    ensures
        x / d == q,
{
    assert((q + 1) * d == q * d + d) by (nonlinear_arith);
    lemma_fundamental_div_mod_converse(x, d, q, x - q * d);
}

// ---- ticks and frames --------------------------------------------------------------------------

/// A span of ticks, `numer / denom` seconds each, holds as many whole frames as fit into it: those
/// frames are no longer than the span, and one frame more would be.
pub proof fn a_span_holds_the_frames_that_fit_into_it(ticks: int, unit: TickUnit, sample_rate: u32)
    requires
        ticks >= 0,
        unit.denom > 0,
        ticks * unit.numer * sample_rate < 18_446_744_073_709_551_616 * unit.denom,
    ensures
        ({
            let frames = tick_frames(ticks, Some(unit), sample_rate) as int;
            frames * unit.denom <= ticks * unit.numer * sample_rate < (frames + 1) * unit.denom
        }),
{
    let product = ticks * unit.numer * sample_rate;
    let d = unit.denom as int;
    assert(product >= 0) by (nonlinear_arith)
        requires
            product == ticks * unit.numer * sample_rate,
            ticks >= 0,
            unit.numer >= 0,
            sample_rate >= 0,
    ;
    lemma_quotient(product, d);
    let q = product / d;
    assert(q < 18_446_744_073_709_551_616) by (nonlinear_arith)
        requires
            q * d <= product,
            product < 18_446_744_073_709_551_616 * d,
            d > 0,
    ;
}

/// A tick as long as a frame is a frame, and so is a tick of no stated length: nothing is rounded.
/// What precedes the start holds no frames.
pub proof fn a_tick_as_long_as_a_frame_is_a_frame(ticks: i64, unit: TickUnit, sample_rate: u32)
    requires
        sample_rate > 0,
        unit.numer == 1,
        unit.denom == sample_rate,
    ensures
        ticks >= 0 ==> tick_frames(ticks as int, Some(unit), sample_rate) == ticks,
        ticks >= 0 ==> tick_frames(ticks as int, None, sample_rate) == ticks,
        ticks < 0 ==> tick_frames(ticks as int, Some(unit), sample_rate) == 0,
        ticks < 0 ==> tick_frames(ticks as int, None, sample_rate) == 0,
{
    if ticks >= 0 {
        let t = ticks as int;
        let rate = sample_rate as int;
        assert(t * 1 * rate == t * rate);
        assert(t * rate < (t + 1) * rate) by (nonlinear_arith)
            requires
                rate > 0,
        ;
        lemma_unique_quotient(t * rate, rate, t);
    }
}

/// A tick of a whole number of frames holds that many: so many ticks hold so many times as many.
pub proof fn a_tick_of_whole_frames_holds_them(
    ticks: i64,
    per_tick: u32,
    unit: TickUnit,
    sample_rate: u32,
)
    requires
        ticks >= 0,
        unit.denom > 0,
        unit.numer * sample_rate == per_tick * unit.denom,
        ticks * per_tick <= u64::MAX,
    ensures
        tick_frames(ticks as int, Some(unit), sample_rate) == ticks * per_tick,
{
    let t = ticks as int;
    let d = unit.denom as int;
    let n = t * per_tick as int;
    assert(t * unit.numer as int * sample_rate as int == n * d) by (nonlinear_arith)
        requires
            unit.numer as int * sample_rate as int == per_tick as int * d,
            n == t * per_tick as int,
    ;
    assert(n * d < (n + 1) * d) by (nonlinear_arith)
        requires
            d > 0,
    ;
    lemma_unique_quotient(n * d, d, n);
    assert(n >= 0) by (nonlinear_arith)
        requires
            n == t * per_tick as int,
            t >= 0,
            per_tick >= 0,
    ;
}

/// A later tick is never at an earlier frame.
pub proof fn later_ticks_are_at_later_frames(a: int, b: int, unit: TickUnit, sample_rate: u32)
    requires
        0 <= a <= b,
        unit.denom > 0,
        b * unit.numer * sample_rate < 18_446_744_073_709_551_616 * unit.denom,
    ensures
        tick_frames(a, Some(unit), sample_rate) <= tick_frames(b, Some(unit), sample_rate),
{
    let n = unit.numer as int;
    let rate = sample_rate as int;
    let d = unit.denom as int;
    assert(a * n * rate <= b * n * rate) by (nonlinear_arith)
        requires
            0 <= a <= b,
            n >= 0,
            rate >= 0,
    ;
    a_span_holds_the_frames_that_fit_into_it(a, unit, sample_rate);
    a_span_holds_the_frames_that_fit_into_it(b, unit, sample_rate);
    let x = tick_frames(a, Some(unit), sample_rate) as int;
    let y = tick_frames(b, Some(unit), sample_rate) as int;
    assert(x < y + 1) by (nonlinear_arith)
        requires
            x * d <= a * n * rate,
            a * n * rate <= b * n * rate,
            b * n * rate < (y + 1) * d,
            d > 0,
    ;
}

/// A seek lands on the frame it was asked for: the frames before the packet that the container found
/// and the frames dropped after it are the frames before the wanted tick, to within the one frame
/// that rounding may take; nothing is rounded where a tick is a frame.
pub proof fn what_is_dropped_leads_to_the_wanted_frame(
    required: i64,
    actual: i64,
    unit: TickUnit,
    sample_rate: u32,
)
    requires
        0 <= actual <= required,
        unit.denom > 0,
        required * unit.numer * sample_rate < 18_446_744_073_709_551_616 * unit.denom,
    ensures
        ({
            let landed = tick_frames(actual as int, Some(unit), sample_rate);
            let dropped = tick_frames(required - actual, Some(unit), sample_rate);
            let wanted = tick_frames(required as int, Some(unit), sample_rate);
            &&& landed + dropped <= wanted <= landed + dropped + 1
            &&& unit.numer == 1 && unit.denom == sample_rate ==> landed + dropped == wanted
        }),
        tick_frames(actual as int, None, sample_rate) + tick_frames(
            required - actual,
            None,
            sample_rate,
        ) == tick_frames(required as int, None, sample_rate),
{
    let n = unit.numer as int;
    let rate = sample_rate as int;
    let d = unit.denom as int;
    let a = actual as int;
    let r = required as int;
    assert(a * n * rate + (r - a) * n * rate == r * n * rate) by (nonlinear_arith);
    assert(a * n * rate >= 0 && (r - a) * n * rate >= 0) by (nonlinear_arith)
        requires
            0 <= a <= r,
            n >= 0,
            rate >= 0,
    ;
    a_span_holds_the_frames_that_fit_into_it(a, unit, sample_rate);
    a_span_holds_the_frames_that_fit_into_it(r - a, unit, sample_rate);
    a_span_holds_the_frames_that_fit_into_it(r, unit, sample_rate);
    let x = tick_frames(a, Some(unit), sample_rate) as int;
    let y = tick_frames(r - a, Some(unit), sample_rate) as int;
    let z = tick_frames(r, Some(unit), sample_rate) as int;
    assert(x + y < z + 1 && z < x + y + 2) by (nonlinear_arith)
        requires
            x * d <= a * n * rate < (x + 1) * d,
            y * d <= (r - a) * n * rate < (y + 1) * d,
            z * d <= r * n * rate < (z + 1) * d,
            a * n * rate + (r - a) * n * rate == r * n * rate,
            d > 0,
    ;
    if unit.numer == 1 && unit.denom == sample_rate {
        a_tick_as_long_as_a_frame_is_a_frame(actual, unit, sample_rate);
        a_tick_as_long_as_a_frame_is_a_frame((required - actual) as i64, unit, sample_rate);
        a_tick_as_long_as_a_frame_is_a_frame(required, unit, sample_rate);
    }
}

/// A seek to a whole frame gives exactly the time of that frame, which is that frame again.
pub proof fn a_seek_to_a_whole_frame_gives_its_time(frame: i64, unit: TickUnit, sample_rate: u32)
    requires
        frame >= 0,
        0 < sample_rate <= 500_000_000,
        unit.numer == 1,
        unit.denom == sample_rate,
    ensures
        ({
            let time = frames_nanos(
                tick_frames(frame as int, Some(unit), sample_rate) as nat,
                sample_rate,
            );
            &&& time * sample_rate <= frame * 1_000_000_000 < (time + 1) * sample_rate
            &&& nearest_frames(time, sample_rate) == frame
        }),
{
    a_tick_as_long_as_a_frame_is_a_frame(frame, unit, sample_rate);
    frames_last_their_share_of_a_second(frame as nat, sample_rate);
    crate::decode::frames_survive_the_round_trip(frame as u64, sample_rate);
}

// ---- frames and time ---------------------------------------------------------------------------

/// Frames last their share of a second, rounded down to a whole nanosecond; a second's worth of
/// frames, and any number of them, last exactly so many seconds. A rate of zero counts as one.
pub proof fn frames_last_their_share_of_a_second(frames: nat, sample_rate: u32)
    ensures
        sample_rate > 0 ==> frames_nanos(frames, sample_rate) * sample_rate <= frames
            * 1_000_000_000 < (frames_nanos(frames, sample_rate) + 1) * sample_rate,
        sample_rate > 0 ==> frames_nanos(frames * sample_rate as nat, sample_rate) == frames
            * 1_000_000_000,
        frames_nanos(frames, 0) == frames * 1_000_000_000,
{
    if sample_rate > 0 {
        let rate = sample_rate as int;
        let n = frames as int * 1_000_000_000;
        lemma_quotient(n, rate);
        assert(frames * rate * 1_000_000_000 == n * rate) by (nonlinear_arith)
            requires
                n == frames as int * 1_000_000_000,
        ;
        assert(n * rate < (n + 1) * rate) by (nonlinear_arith)
            requires
                rate > 0,
        ;
        lemma_unique_quotient(n * rate, rate, n);
    }
}

/// The frames nearest to a time are at most half a frame away from it, a half counting up.
pub proof fn the_nearest_frame_is_half_a_frame_away_at_most(nanos: nat, sample_rate: u32)
    ensures
        ({
            let frames = nearest_frames(nanos, sample_rate);
            frames * 1_000_000_000 - 500_000_000 <= nanos * sample_rate < frames * 1_000_000_000
                + 500_000_000
        }),
{
    let product = nanos * sample_rate as int;
    assert(product >= 0) by (nonlinear_arith)
        requires
            product == nanos * sample_rate as int,
            nanos >= 0,
            sample_rate >= 0,
    ;
    lemma_quotient(product + 500_000_000, 1_000_000_000);
}

/// The length of a track is that of its frames if they are counted, and otherwise that of its ticks
/// if these are counted and have a length; it is not known otherwise.
pub proof fn the_length_is_that_of_the_frames_or_the_ticks(
    frames: Option<u64>,
    ticks: Option<u64>,
    unit: Option<TickUnit>,
    sample_rate: u32,
)
    requires
        unit matches Some(unit) ==> unit.denom > 0,
        sample_rate > 0,
    ensures
        match (frames, ticks, unit) {
            (Some(frames), _, _) => stated_length(Some(frames), ticks, unit, sample_rate) matches Some(
                nanos,
            ) && nanos * sample_rate <= frames * 1_000_000_000 < (nanos + 1) * sample_rate,
            (None, Some(ticks), Some(each)) => ticks <= 9_223_372_036_854_775_807 ==> match stated_length(
                None,
                Some(ticks),
                unit,
                sample_rate,
            ) {
                Some(nanos) => nanos * each.denom <= ticks * each.numer * 1_000_000_000 < (nanos + 1)
                    * each.denom && nanos < 18_446_744_073_709_551_616,
                None => ticks * each.numer * 1_000_000_000 >= 18_446_744_073_709_551_616
                    * each.denom,
            },
            _ => stated_length(frames, ticks, unit, sample_rate) is None,
        },
{
    match (frames, ticks, unit) {
        (Some(frames), _, _) => {
            frames_last_their_share_of_a_second(frames as nat, sample_rate);
        },
        (None, Some(ticks), Some(each)) => {
            if ticks <= 9_223_372_036_854_775_807 {
                let product = ticks * each.numer * 1_000_000_000;
                assert(product >= 0) by (nonlinear_arith)
                    requires
                        product == ticks * each.numer * 1_000_000_000,
                        ticks >= 0,
                        each.numer >= 0,
                ;
                let d = each.denom as int;
                lemma_quotient(product, d);
                let q = product / d;
                if q >= 18_446_744_073_709_551_616 {
                    assert(product >= 18_446_744_073_709_551_616 * d) by (nonlinear_arith)
                        requires
                            q * d <= product,
                            q >= 18_446_744_073_709_551_616,
                            d > 0,
                    ;
                }
            }
        },
        _ => {},
    }
}

/// Two spans one after the other are as long as both together, or as long as the longest span if
/// they are longer than that.
pub proof fn the_lesser_of_two_lengths_is_taken(nanos: nat, limit: nat)
    ensures
        at_most(nanos, limit) <= nanos,
        at_most(nanos, limit) <= limit,
        at_most(nanos, limit) == nanos || at_most(nanos, limit) == limit,
{
}

/// Whatever precedes the target of a seek is dropped, and nothing else: what is handed on from one
/// chunk and then the next is what would be handed on from both at once.
pub proof fn chunks_are_handed_on_one_after_the_other(a: Seq<i32>, b: Seq<i32>, to_drop: nat)
    requires
        to_drop <= a.len() + b.len(),
    ensures
        delivered(seq![a, b], to_drop) == (a + b).skip(to_drop as int),
{
    reveal_with_fuel(delivered, 3);
    let chunks = seq![a, b];
    assert(chunks.skip(1) =~= seq![b]);
    assert(seq![b].skip(1) =~= Seq::<Seq<i32>>::empty());
    assert(delivered(chunks, to_drop) =~= (a + b).skip(to_drop as int));
}

// ---- what the functions give -------------------------------------------------------------------

/// Of a span of ticks as many frames are counted as fit into it; each tick is a frame where its
/// length is not stated, and what precedes the start counts nothing.
pub proof fn the_frames_counted_fit_into_the_span(
    ticks: i64,
    unit: TickUnit,
    sample_rate: u32,
    counted: u64,
    plain: u64,
)
    requires
        unit.denom > 0,
        ticks >= 0 ==> ticks * unit.numer * sample_rate < 18_446_744_073_709_551_616 * unit.denom,
        call_ensures(ticks_to_frames, (ticks, Some(unit), sample_rate), counted),
        call_ensures(ticks_to_frames, (ticks, None, sample_rate), plain),
    ensures
        ticks >= 0 ==> counted * unit.denom <= ticks * unit.numer * sample_rate < (counted + 1)
            * unit.denom,
        ticks >= 0 ==> plain == ticks,
        ticks < 0 ==> counted == 0 && plain == 0,
{
    if ticks >= 0 {
        a_span_holds_the_frames_that_fit_into_it(ticks as int, unit, sample_rate);
    }
}

/// A count of frames that was made a time is that count again once the time is made frames.
pub proof fn frames_made_time_are_frames_again(
    frames: u64,
    sample_rate: u32,
    time: Duration,
    again: u64,
)
    requires
        0 < sample_rate <= 500_000_000,
        call_ensures(frames_to_duration, (frames, sample_rate), time),
        call_ensures(duration_to_frames, (time, sample_rate), again),
    ensures
        again == frames,
        time@ * sample_rate <= frames * 1_000_000_000 < (time@ + 1) * sample_rate,
{
    frames_last_their_share_of_a_second(frames as nat, sample_rate);
    crate::decode::frames_survive_the_round_trip(frames, sample_rate);
}

/// A thousand thousandths are a second, and so on down to the nanosecond.
pub proof fn a_second_has_a_thousand_thousandths(
    n: u64,
    secs: Duration,
    millis: Duration,
    micros: Duration,
    nanos: Duration,
)
    requires
        call_ensures(Duration::from_secs, (n,), secs),
        call_ensures(Duration::from_millis, (n,), millis),
        call_ensures(Duration::from_micros, (n,), micros),
        call_ensures(Duration::from_nanos, (n,), nanos),
    ensures
        nanos@ == n,
        micros@ == nanos@ * 1000,
        millis@ == micros@ * 1000,
        secs@ == millis@ * 1000,
{
}

/// What is added to a span can be taken off again, as long as the longest span is not reached; and
/// nothing is left of a shorter one.
pub proof fn what_is_added_can_be_taken_off(a: Duration, b: Duration, sum: Duration, rest: Duration, less: Duration, reached: bool)
    requires
        a@ + b@ <= 18_446_744_073_709_551_615_999_999_999,
        call_ensures(Duration::saturating_add, (a, b), sum),
        call_ensures(Duration::saturating_sub, (sum, b), rest),
        call_ensures(Duration::saturating_sub, (a, b), less),
        call_ensures(Duration::reaches, (a, b), reached),
    ensures
        rest@ == a@,
        sum@ == a@ + b@,
        reached <==> a@ >= b@,
        !reached ==> less@ == 0,
        reached ==> less@ + b@ == a@,
{
}

/// A source can be described if its rate, its channels and its depth are all known, and as they are;
/// otherwise the first of them that is missing is named.
pub proof fn a_source_is_described_as_it_is(
    rate: Option<u32>,
    channels: Option<u32>,
    bits: Option<u32>,
    r: Result<SourceSpec, Undetermined>,
)
    requires
        call_ensures(source_spec, (rate, channels, bits), r),
    ensures
        r is Ok <==> rate is Some && channels is Some && bits is Some,
        r matches Ok(spec) ==> rate == Some(spec.sample_rate) && channels == Some(spec.channels)
            && bits == Some(spec.bits_per_sample),
        r matches Err(what) ==> (what is SampleRate <==> rate is None) && (what is Channels <==> rate
            is Some && channels is None),
{
}

/// Packets of the track that is played are decoded, those of others passed over, and the end is the
/// end; anything else fails.
pub proof fn only_packets_of_the_track_are_decoded(
    decoder: Decoder,
    read: PacketRead,
    step: PacketStep,
)
    requires
        call_ensures(Decoder::packet_read, (&decoder, read), step),
    ensures
        step is Decode <==> read == PacketRead::Packet(decoder.track()),
        step is Skip <==> (read matches PacketRead::Packet(track) && track != decoder.track()),
        step is End <==> read is End,
        step is Fail <==> read is ResetRequired || read is Failed,
{
}

/// A packet that can't be read or makes no sense is passed over, and only a decoder that can't go on
/// ends the track.
pub proof fn a_bad_packet_is_passed_over(decoder: Decoder, decoded: Decoded, step: DecodeStep)
    requires
        call_ensures(Decoder::decoded, (&decoder, decoded), step),
    ensures
        step is Deliver <==> decoded is Samples,
        step is Skip <==> decoded is Io || decoded is Malformed,
        step is Fail <==> decoded is Failed,
{
}

/// The time that a container is asked for is the one that is sought, as far as 64 bits hold it.
pub proof fn the_container_is_asked_for_the_time_that_is_sought(to: Duration, asked: u64)
    requires
        call_ensures(Decoder::seek_nanos, (to,), asked),
    ensures
        to@ < 18_446_744_073_709_551_616 ==> asked == to@,
        to@ >= 18_446_744_073_709_551_616 ==> asked == 18_446_744_073_709_551_615,
{
}

} // verus!
