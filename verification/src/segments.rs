//! What holds of a track's segments: where they are, when they start, and how they are fetched.

use crate::dash::{
    duration_parts, in_order, is_number, joined_url, nearest_ticks, parts_of, place_of,
    the_found_constant_segment_contains_the_time, the_found_segment_contains_the_time, ticks_at,
    ticks_begin_in_time, ticks_by, ticks_from, ticks_nanos, timeline_end, timeline_starts,
    DashSegments, DurationErrorView, SegmentTiming, TimelineEntry,
};
use crate::engine::supplier::SeekMode;
use crate::openers::{opening_of, plan_track, StreamFrom, TrackPlan};
use crate::pieces::found;
use crate::stream::{
    after_init, after_request, after_try, is_missing, is_success, tries_again, AfterTry,
    DashDownload, Fetched, NextStep, SeekPos, SegmentStream, Tried, MAX_SEGMENT_RETRIES,
    PREFETCH_DEPTH,
};
use crate::text::{decimal_text, replaced, trimmed};
use crate::tidal::ManifestKind;
use crate::time::Duration;
use crate::words::each_occurrence_is_replaced;
use vstd::arithmetic::div_mod::{lemma_fundamental_div_mod, lemma_mod_bound};
use vstd::prelude::*;

verus! {

// ---- ticks and time ----------------------------------------------------------------------------

proof fn lemma_quotient(x: int, d: int)
    requires
        d > 0,
        x >= 0,
    ensures
        x / d >= 0,
        (x / d) * d <= x < (x / d + 1) * d,
{
    lemma_fundamental_div_mod(x, d);
    lemma_mod_bound(x, d);
    let q = x / d;
    assert(d * q == q * d && (q + 1) * d == q * d + d) by (nonlinear_arith);
    assert(q >= 0) by (nonlinear_arith)
        requires
            x < (q + 1) * d,
            x >= 0,
            d > 0,
    ;
}

/// Ticks last their share of a second, rounded down to a whole nanosecond. A timescale of zero
/// counts as one tick a second.
pub proof fn ticks_last_their_share_of_a_second(ticks: nat, timescale: u64)
    ensures
        timescale > 0 ==> ticks_nanos(ticks, timescale) * timescale <= ticks * 1_000_000_000 < (
        ticks_nanos(ticks, timescale) + 1) * timescale,
        ticks_nanos(ticks, 0) == ticks * 1_000_000_000,
{
    if timescale > 0 {
        lemma_quotient(ticks as int * 1_000_000_000, timescale as int);
    }
}

/// The ticks nearest to a time are at most half a tick away from it, a half counting up; what 64
/// bits do not hold is the most that they do.
pub proof fn the_nearest_tick_is_half_a_tick_away_at_most(nanos: nat, timescale: u64)
    requires
        timescale > 0,
    ensures
        ({
            let ticks = nearest_ticks(nanos, timescale);
            &&& ticks * 1_000_000_000 - 500_000_000 <= nanos * timescale < ticks * 1_000_000_000
                + 500_000_000
            &&& ticks < 18_446_744_073_709_551_616 ==> ticks_at(nanos, timescale) == ticks
            &&& ticks >= 18_446_744_073_709_551_616 ==> ticks_at(nanos, timescale)
                == 18_446_744_073_709_551_615
        }),
{
    let product = nanos * timescale as int;
    assert(product >= 0) by (nonlinear_arith)
        requires
            product == nanos * timescale as int,
            nanos >= 0,
            timescale >= 0,
    ;
    lemma_quotient(product + 500_000_000, 1_000_000_000);
}

// ---- which segment -----------------------------------------------------------------------------

/// Of a timeline in order, a time before its end is in a segment, and one at or after it is in none.
/// The segment is counted from the first one, starts when the timeline says, no later than the time
/// unless the time precedes the first segment, and the next one starts after the time.
pub proof fn a_time_is_in_the_segment_that_spans_it(dash: DashSegments, at: Duration)
    requires
        dash.timing is Explicit,
        in_order(dash.timing->Explicit_starts@),
        dash.start_number + dash.timing->Explicit_starts@.len() <= 4_294_967_296,
    ensures
        ({
            let starts = dash.timing->Explicit_starts@;
            let end = ticks_nanos(dash.timing->Explicit_end as nat, dash.timescale);
            match dash.segment_containing(at) {
                Some(segment) => {
                    &&& at@ < end
                    &&& segment.index < starts.len()
                    &&& segment.number == dash.start_number + segment.index
                    &&& segment.start@ == ticks_nanos(
                        starts[segment.index as int] as nat,
                        dash.timescale,
                    )
                    &&& segment.index > 0 ==> segment.start@ <= at@
                    &&& ticks_nanos(starts[0] as nat, dash.timescale) <= at@ ==> segment.start@
                        <= at@
                    &&& segment.index + 1 < starts.len() ==> at@ < ticks_nanos(
                        starts[segment.index + 1] as nat,
                        dash.timescale,
                    )
                },
                None => starts.len() == 0 || at@ >= end,
            }
        }),
{
    let starts = dash.timing->Explicit_starts@;
    if starts.len() > 0 && dash.segment_containing(at) is Some {
        let place = place_of(starts, at@, dash.timescale);
        the_found_segment_contains_the_time(starts, at@, dash.timescale);
        crate::dash::a_segment_starts_when_it_says(dash, place, starts[place as int] as nat);
        lemma_found_late(starts, at@, dash.timescale);
    } else if starts.len() > 0 {
        the_found_segment_contains_the_time(starts, at@, dash.timescale);
    }
}

proof fn lemma_found_late(starts: Seq<u64>, nanos: nat, timescale: u64)
    ensures
        place_of(starts, nanos, timescale) > 0 ==> place_of(starts, nanos, timescale) < starts.len()
            && ticks_nanos(
            starts[place_of(starts, nanos, timescale) as int] as nat,
            timescale,
        ) <= nanos,
    decreases starts.len(),
{
    if starts.len() > 1 && ticks_nanos(starts.last() as nat, timescale) > nanos {
        lemma_found_late(starts.drop_last(), nanos, timescale);
    }
}

/// Of segments of one length, a time is in the one that spans it. It is in none only past the end of
/// the track, past the last segment, or past the last number that there is.
pub proof fn a_time_is_in_the_segment_of_its_length(dash: DashSegments, at: Duration)
    requires
        dash.timing is Constant,
    ensures
        ({
            let length = dash.timing->Constant_ticks as nat;
            match dash.segment_containing(at) {
                Some(segment) => {
                    &&& segment.number == dash.start_number + segment.index
                    &&& segment.start@ == ticks_nanos(
                        segment.index as nat * length,
                        dash.timescale,
                    )
                    &&& segment.start@ <= at@
                    &&& at@ < ticks_nanos((segment.index + 1) as nat * length, dash.timescale)
                    &&& dash.presentation_duration matches Some(total) ==> at@ < total@
                    &&& dash.segment_count matches Some(count) ==> segment.index < count
                },
                None => {
                    ||| length == 0
                    ||| dash.presentation_duration matches Some(total) && at@ >= total@
                    ||| dash.segment_count matches Some(count) && at@ >= ticks_nanos(
                        count as nat * length,
                        dash.timescale,
                    )
                    ||| at@ >= ticks_nanos(
                        (4_294_967_296 - dash.start_number) as nat * length,
                        dash.timescale,
                    )
                },
            }
        }),
{
    let length = dash.timing->Constant_ticks as nat;
    if dash.segment_containing(at) is Some {
        the_found_constant_segment_contains_the_time(dash, at);
    } else if length > 0 {
        let by = ticks_by(at@, dash.timescale);
        let place = by / length;
        lemma_quotient(by as int, length as int);
        assert(place * length <= by);
        if let Some(count) = dash.segment_count {
            if place >= count {
                assert(count as nat * length <= by) by (nonlinear_arith)
                    requires
                        place * length <= by,
                        place >= count,
                        length >= 0,
                ;
                ticks_begin_in_time(count as nat * length, at@, dash.timescale);
            }
        }
        let numbers = (4_294_967_296 - dash.start_number) as nat;
        if place >= numbers {
            assert(numbers * length <= by) by (nonlinear_arith)
                requires
                    place * length <= by,
                    place >= numbers,
                    length >= 0,
            ;
            ticks_begin_in_time(numbers * length, at@, dash.timescale);
        }
    }
}

/// The length of a track is where its timeline ends, if it has one, and otherwise what the manifest
/// states. Without timing, no time is in any segment.
pub proof fn the_length_is_where_the_timeline_ends(dash: DashSegments, at: Duration)
    ensures
        dash.timing matches SegmentTiming::Explicit { starts, end } ==> dash.length() == Some(
            ticks_nanos(end as nat, dash.timescale),
        ),
        !(dash.timing is Explicit) ==> match dash.presentation_duration {
            Some(total) => dash.length() == Some(total@),
            None => dash.length() is None,
        },
        dash.timing is Unknown ==> dash.segment_containing(at) is None,
{
}

/// The range of a track's numbers begins with its first and holds as many as there are segments.
pub proof fn the_range_holds_every_segment(
    dash: DashSegments,
    first: u32,
    range: Option<std::ops::RangeInclusive<u32>>,
)
    requires
        dash.is_range(first, range),
        dash.last_number_fits(),
    ensures
        range is Some <==> dash.segment_count is Some,
        range matches Some(r) ==> r@.start == first,
        range matches Some(r) ==> (dash.segment_count matches Some(count) && (count > 0 ==> r@.end
            - dash.start_number + 1 == count)),
{
}

/// A track is streamed from the segment that a time is in, and from its first segment for the very
/// start and for a time that is in none. It can be reopened elsewhere only if its timing is known.
pub proof fn a_track_is_streamed_from_where_the_time_is(dash: DashSegments, at: Duration)
    ensures
        dash.timing is Unknown <==> opening_of(dash, at).seek == SeekMode::ForwardOnly,
        !(dash.timing is Unknown) <==> opening_of(dash, at).seek == SeekMode::Reopen,
        dash.timing is Unknown || at@ == 0 || dash.segment_containing(at) is None ==> opening_of(
            dash,
            at,
        ).first_segment == dash.start_number && opening_of(dash, at).start@ == 0,
        at@ > 0 && dash.segment_containing(at) is Some ==> opening_of(dash, at).first_segment
            == dash.segment_containing(at)->0.number && opening_of(dash, at).start
            == dash.segment_containing(at)->0.start,
{
}

// ---- the timeline ------------------------------------------------------------------------------

/// An entry of a timeline adds one segment and its repeats, each right behind the one before and as
/// long as the entry says. The first starts where the entry says, or where the timeline ended; the
/// timeline now ends where the last one does.
pub proof fn an_entry_adds_its_segments(
    entries: Seq<TimelineEntry>,
    entry: TimelineEntry,
    offset: u64,
    k: nat,
)
    requires
        entry.r >= 0,
        k <= entry.r,
        ({
            let begin = match entry.t {
                Some(t) => t,
                None => timeline_end(entries),
            };
            begin + (entry.r + 1) * entry.d <= 18_446_744_073_709_551_615 && offset <= begin
        }),
    ensures
        ({
            let begin = match entry.t {
                Some(t) => t,
                None => timeline_end(entries),
            };
            let before = timeline_starts(entries, offset);
            let after = timeline_starts(entries.push(entry), offset);
            &&& after.len() == before.len() + entry.r + 1
            &&& before.is_prefix_of(after)
            &&& after[before.len() as int + k] + offset == begin + k * entry.d
            &&& timeline_end(entries.push(entry)) == begin + (entry.r + 1) * entry.d
        }),
        timeline_end(Seq::empty()) == 0,
        timeline_starts(Seq::empty(), offset).len() == 0,
{
    let all = entries.push(entry);
    assert(all.drop_last() =~= entries);
    let begin = match entry.t {
        Some(t) => t,
        None => timeline_end(entries),
    };
    let d = entry.d as int;
    let r = entry.r as int;
    assert(0 <= k * d <= (r + 1) * d) by (nonlinear_arith)
        requires
            0 <= k <= r,
            d >= 0,
    ;
    let before = timeline_starts(entries, offset);
    let after = timeline_starts(all, offset);
    assert(before.is_prefix_of(after)) by {
        assert(after.take(before.len() as int) =~= before);
    }
}

/// Ticks are counted from the offset, and never below zero.
pub proof fn ticks_are_counted_from_the_offset(ticks: u64, offset: u64)
    ensures
        ticks >= offset ==> ticks_from(ticks, offset) + offset == ticks,
        ticks < offset ==> ticks_from(ticks, offset) == 0,
{
}

/// What a timeline says beyond 64 bits is the most that they hold.
pub proof fn a_timeline_ends_within_64_bits(entries: Seq<TimelineEntry>, entry: TimelineEntry)
    requires
        entry.r >= 0,
        entry.t is None,
        timeline_end(entries) + (entry.r + 1) * entry.d > 18_446_744_073_709_551_615,
    ensures
        timeline_end(entries.push(entry)) == 18_446_744_073_709_551_615,
{
    assert(entries.push(entry).drop_last() =~= entries);
}

// ---- URLs and numbers --------------------------------------------------------------------------

/// A URL that names a server stands by itself, and so does any without a base. A relative one
/// follows the base, with one slash between them whether the base ends in one or not.
pub proof fn a_relative_url_follows_its_base(base: Seq<char>, url: Seq<char>, rest: Seq<char>)
    requires
        url.len() == 0 || url[0] != 'h',
        base.len() == 0 || base.last() != '/',
    ensures
        joined_url(Some(base), url) == base + seq!['/'] + url,
        joined_url(Some(base + seq!['/']), url) == base + seq!['/'] + url,
        joined_url(None, url) == url,
        joined_url(Some(base), "http://"@ + rest) == "http://"@ + rest,
        joined_url(Some(base), "https://"@ + rest) == "https://"@ + rest,
{
    reveal_strlit("http://");
    reveal_strlit("https://");
    reveal_strlit("/");
    if "http://"@.is_prefix_of(url) {
        assert(url[0] == "http://"@[0]);
    }
    if "https://"@.is_prefix_of(url) {
        assert(url[0] == "https://"@[0]);
    }
    assert("/"@ =~= seq!['/']);
    let ended = base + seq!['/'];
    assert("/"@.is_suffix_of(ended)) by {
        assert(ended.subrange(ended.len() - 1, ended.len() as int) =~= "/"@);
    }
    if "/"@.is_suffix_of(base) {
        assert(base.subrange(base.len() - 1, base.len() as int)[0] == base.last());
        assert("/"@[0] == '/');
    }
    assert("http://"@.is_prefix_of("http://"@ + rest));
    assert("https://"@.is_prefix_of("https://"@ + rest));
}

/// The number of a segment stands in its URL where the template holds its place.
pub proof fn the_number_takes_its_place(before: Seq<char>, after: Seq<char>, number: u32)
    requires
        found(before + "$Number$"@ + after, "$Number$"@) == Some(before.len() as int),
        found(after, "$Number$"@) is None,
    ensures
        replaced(before + "$Number$"@ + after, "$Number$"@, decimal_text(number as nat)) == before
            + decimal_text(number as nat) + after,
{
    reveal_strlit("$Number$");
    let s = before + "$Number$"@ + after;
    let digits = decimal_text(number as nat);
    each_occurrence_is_replaced(s, "$Number$"@, digits);
    each_occurrence_is_replaced(after, "$Number$"@, digits);
    assert(s.take(before.len() as int) =~= before);
    assert(s.skip(before.len() as int + "$Number$"@.len()) =~= after);
}

proof fn lemma_digits_gather(number: Seq<char>, rest: Seq<char>, so_far: Seq<char>, parts: Seq<
    (Seq<char>, u32),
>)
    requires
        forall|i: int|
            0 <= i < number.len() ==> ('0' <= #[trigger] number[i] <= '9') || number[i] == '.',
    ensures
        parts_of(number + rest, so_far, parts) == parts_of(rest, so_far + number, parts),
    decreases number.len(),
{
    if number.len() == 0 {
        assert(number + rest =~= rest);
        assert(so_far + number =~= so_far);
    } else {
        let tail = number.skip(1);
        assert forall|i: int| 0 <= i < tail.len() implies ('0' <= #[trigger] tail[i] <= '9')
            || tail[i] == '.' by {
            assert(tail[i] == number[i + 1]);
        }
        lemma_digits_gather(tail, rest, so_far.push(number[0]), parts);
        assert((number + rest)[0] == number[0]);
        assert((number + rest).skip(1) =~= tail + rest);
        assert(so_far.push(number[0]) + tail =~= so_far + number);
    }
}

/// A number with its letter is a part of a duration: an hour is 3600 seconds, a minute 60, a second
/// one. What follows is read likewise; what is no number, or any other letter, is an error.
pub proof fn a_duration_is_read_part_by_part(number: Seq<char>, letter: char, rest: Seq<char>, parts: Seq<
    (Seq<char>, u32),
>)
    requires
        forall|i: int|
            0 <= i < number.len() ==> ('0' <= #[trigger] number[i] <= '9') || number[i] == '.',
        !('0' <= letter <= '9'),
        letter != '.',
    ensures
        ({
            let read = parts_of(number + seq![letter] + rest, Seq::empty(), parts);
            &&& letter == 'H' && is_number(number) ==> read == parts_of(
                rest,
                Seq::empty(),
                parts.push((number, 3600u32)),
            )
            &&& letter == 'M' && is_number(number) ==> read == parts_of(
                rest,
                Seq::empty(),
                parts.push((number, 60u32)),
            )
            &&& letter == 'S' && is_number(number) ==> read == parts_of(
                rest,
                Seq::empty(),
                parts.push((number, 1u32)),
            )
            &&& (letter == 'H' || letter == 'M' || letter == 'S') && !is_number(number) ==> read
                == Err::<Seq<(Seq<char>, u32)>, DurationErrorView>(
                DurationErrorView::BadNumber(number),
            )
            &&& letter != 'H' && letter != 'M' && letter != 'S' ==> read == Err::<
                Seq<(Seq<char>, u32)>,
                DurationErrorView,
            >(DurationErrorView::Unexpected(letter))
        }),
        parts_of(number, Seq::empty(), parts) == Ok::<
            Seq<(Seq<char>, u32)>,
            DurationErrorView,
        >(parts),
{
    let tail = seq![letter] + rest;
    lemma_digits_gather(number, tail, Seq::empty(), parts);
    assert(number + seq![letter] + rest =~= number + tail);
    assert(Seq::<char>::empty() + number =~= number);
    assert(tail[0] == letter);
    assert(tail.skip(1) =~= rest);
    lemma_digits_gather(number, Seq::empty(), Seq::empty(), parts);
    assert(number + Seq::<char>::empty() =~= number);
}

/// A number has one digit at least and one point at most.
pub proof fn a_number_has_a_digit_and_at_most_one_point(a: Seq<char>, b: Seq<char>)
    requires
        !a.contains('.'),
        !b.contains('.'),
    ensures
        is_number(a) <==> a.len() > 0,
        is_number(a + seq!['.'] + b) <==> a.len() + b.len() > 0,
        !is_number(a + seq!['.'] + b + seq!['.']),
{
    let one = a + seq!['.'] + b;
    let two = one + seq!['.'];
    if a.len() > 0 {
        assert(a[0] != '.');
        assert(one[0] == a[0]);
        assert(a.contains(a[0]));
    }
    if b.len() > 0 {
        assert(one[a.len() as int + 1] == b[0]);
        assert(b.contains(b[0]));
    }
    assert forall|i: int, j: int| 0 <= i < j < a.len() implies !(#[trigger] a[i] == '.'
        && #[trigger] a[j] == '.') by {
        assert(a.contains(a[i]));
    }
    assert forall|i: int, j: int| 0 <= i < j < one.len() implies !(#[trigger] one[i] == '.'
        && #[trigger] one[j] == '.') by {
        if i < a.len() {
            assert(a.contains(a[i]));
            assert(one[i] == a[i]);
        } else {
            assert(one[j] == b[j - a.len() - 1]);
            assert(b.contains(b[j - a.len() - 1]));
        }
    }
    assert(two[a.len() as int] == '.');
    assert(two[one.len() as int] == '.');
}

/// A duration begins with `PT`, whatever space is around it, and its parts follow; what begins
/// otherwise is none.
pub proof fn a_duration_begins_with_its_prefix(text: Seq<char>, rest: Seq<char>)
    ensures
        trimmed(text) == "PT"@ + rest ==> duration_parts(text) == parts_of(
            rest,
            Seq::empty(),
            Seq::empty(),
        ),
        trimmed(text).len() < 2 || trimmed(text)[0] != 'P' || trimmed(text)[1] != 'T'
            ==> duration_parts(text) == Err::<Seq<(Seq<char>, u32)>, DurationErrorView>(
            DurationErrorView::NoPrefix,
        ),
{
    reveal_strlit("PT");
    let whole = trimmed(text);
    if whole == "PT"@ + rest {
        assert("PT"@.is_prefix_of(whole));
        assert(whole.skip(2) =~= rest);
    }
    if "PT"@.is_prefix_of(whole) {
        assert(whole[0] == "PT"@[0] && whole[1] == "PT"@[1]);
    }
}

// ---- downloading -------------------------------------------------------------------------------

/// A seek that can be done drops what leads from where the stream is to where it goes, and never
/// goes back; a seek from the end can't be done.
pub proof fn a_stream_moves_forward_only(stream: SegmentStream, at: u64, by: i64)
    ensures
        at >= stream.spec_position() ==> (stream.distance(SeekPos::Start(at)) matches Some(count)
            && stream.spec_position() + count == at),
        at < stream.spec_position() ==> stream.distance(SeekPos::Start(at)) is None,
        by >= 0 ==> (stream.distance(SeekPos::Current(by)) matches Some(count) && count == by),
        by < 0 ==> stream.distance(SeekPos::Current(by)) is None,
        stream.distance(SeekPos::End(by)) is None,
{
}

/// All is well with a status in the two hundreds, and a segment does not exist on 403 and 404 alone:
/// no status says both. A request is tried three times, with three segments in flight.
pub proof fn a_status_is_well_in_the_two_hundreds(status: u16)
    ensures
        is_success(status) <==> status / 100 == 2,
        is_missing(status) <==> status == 403 || status == 404,
        !(is_success(status) && is_missing(status)),
        MAX_SEGMENT_RETRIES == 3,
        PREFETCH_DEPTH == 3,
{
}

/// Segments are asked for up to the last one, and where that is not known, as long as there are
/// numbers.
pub proof fn segments_are_asked_for_up_to_the_last(download: DashDownload)
    ensures
        download.last() matches Some(last) ==> (download.has_next() <==> download.number() <= last),
        download.last() is None ==> (download.has_next() <==> download.number() < 4_294_967_296),
{
}

/// A request is tried again after the first and the second try, and not after the third.
pub proof fn a_request_is_tried_three_times(attempt: u32, again: bool)
    requires
        call_ensures(tries_again, (attempt,), again),
    ensures
        again <==> attempt < 3,
{
}

/// A try that the server answered well is read, one that says the segment is not there ends the
/// search, and anything else has failed, with the number of the try in it where no answer came.
pub proof fn a_try_is_read_missing_or_failed(tried: Tried, attempt: u32, after: AfterTry)
    requires
        call_ensures(after_try, (tried, attempt), after),
    ensures
        after is Read <==> (tried matches Tried::Status(status, _) && 200 <= status <= 299),
        after is Missing <==> (tried matches Tried::Status(status, _) && (status == 403 || status
            == 404)),
        after matches AfterTry::Failed(why) ==> (tried matches Tried::Unreachable(text) ==> why@
            == "attempt "@ + decimal_text(attempt as nat) + "/"@ + decimal_text(3) + ": "@ + text@),
{
}

/// What comes from a single URL is read if the server answered well, and fails otherwise.
pub proof fn a_single_url_is_read_if_the_server_answers_well(tried: Tried, url: &str, step: NextStep)
    requires
        call_ensures(after_request, (tried, url), step),
    ensures
        step is Continue <==> (tried matches Tried::Status(status, _) && 200 <= status <= 299),
        step is Fail <==> !(step is Continue),
{
}

/// Without its initialization segment a track can't be read.
pub proof fn a_track_needs_its_initialization(fetched: Fetched, url: &str, step: NextStep)
    requires
        call_ensures(after_init, (fetched, url), step),
    ensures
        step is Continue <==> fetched is Got,
        step is Fail <==> !(fetched is Got),
        fetched matches Fetched::Failed(why) ==> step == NextStep::Fail(why),
{
}

/// What a seek drops leads to where it goes, and a seek back is refused.
pub proof fn a_seek_drops_what_lies_between(
    stream: SegmentStream,
    at: u64,
    r: Result<u64, String>,
    by: i64,
    moved: Result<u64, String>,
    ended: Result<u64, String>,
)
    requires
        call_ensures(SegmentStream::seek, (&stream, SeekPos::Start(at)), r),
        call_ensures(SegmentStream::seek, (&stream, SeekPos::Current(by)), moved),
        call_ensures(SegmentStream::seek, (&stream, SeekPos::End(by)), ended),
    ensures
        r is Ok <==> at >= stream.spec_position(),
        r matches Ok(count) ==> stream.spec_position() + count == at,
        moved is Ok <==> by >= 0,
        moved matches Ok(count) ==> count == by,
        ended is Err,
{
    a_stream_moves_forward_only(stream, at, by);
}

/// The next URL that is asked for is that of the next number, up to the last.
pub proof fn the_next_url_is_that_of_the_next_number(
    download: DashDownload,
    r: Option<String>,
    before: Seq<char>,
    after: Seq<char>,
)
    requires
        call_ensures(DashDownload::next, (&download,), r),
        download.dash().media_url_template@ == before + "$Number$"@ + after,
        found(before + "$Number$"@ + after, "$Number$"@) == Some(before.len() as int),
        found(after, "$Number$"@) is None,
        download.number() < 4_294_967_296,
    ensures
        r is Some <==> (download.last() matches Some(last) ==> download.number() <= last),
        r matches Some(url) ==> url@ == before + decimal_text(download.number()) + after,
{
    the_number_takes_its_place(before, after, download.number() as u32);
}

/// A download ends with the last segment that the manifest counts: as many are asked for as there
/// are.
pub proof fn a_download_ends_with_the_last_segment(
    dash: DashSegments,
    first: u32,
    download: DashDownload,
)
    requires
        dash.last_number_fits(),
        call_ensures(DashDownload::new, (dash, first), download),
    ensures
        download.number() == first,
        download.downloaded() == 0,
        dash.segment_count is None ==> download.last() is None,
        dash.segment_count matches Some(count) ==> (count > 0 ==> (download.last() matches Some(last)
            && last - dash.start_number + 1 == count)),
{
}

/// Where the timing of a track is known, it is opened where the time is; a single URL is opened at its
/// start and read forward.
pub proof fn a_track_is_planned_from_its_manifest(manifest: ManifestKind, at: Duration, plan: TrackPlan)
    requires
        call_ensures(plan_track, (&manifest, at), plan),
    ensures
        manifest matches ManifestKind::Json { url, codecs } ==> plan.from == StreamFrom::Url(url)
            && plan.start@ == 0 && plan.seek == SeekMode::ForwardOnly && plan.duration is None,
        manifest matches ManifestKind::Dash(dash) ==> {
            &&& plan.from is Segments
            &&& dash.timing is Unknown ==> plan.seek == SeekMode::ForwardOnly
            &&& dash.timing is Unknown || at@ == 0 ==> plan.from == StreamFrom::Segments(
                dash.start_number,
            ) && plan.start@ == 0
            &&& !(dash.timing is Unknown) ==> plan.seek == SeekMode::Reopen || !dash.is_in_order()
            &&& dash.is_in_order() && at@ > 0 ==> (dash.segment_containing(at) matches Some(segment)
                ==> plan.from == StreamFrom::Segments(segment.number) && plan.start
                == segment.start)
        },
{
    if let ManifestKind::Dash(dash) = manifest {
        a_track_is_streamed_from_where_the_time_is(dash, at);
        if dash.timing is Unknown {
            assert(dash.is_in_order());
        }
    }
}

} // verus!
