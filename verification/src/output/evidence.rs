//! What holds of audio on its way to a sound card, and of what is said about it.

use super::alsa::{
    bytes_per_sample, candidates, field_in, fits, hw_numbers, last_bytes, open_error, packed, packed_row,
    parse_hw_device, sample_bytes, unpacked, AlsaSink, Committed, Format, OpenError, ProcReading,
    SinkModel, SinkReport, StreamState, ToPause, BUFFER_TIME_US, MAX_CONSECUTIVE_ZERO_WRITES,
    PERIOD_TIME_US,
};
use crate::decode::SourceSpec;
use crate::pieces::{cut, first_word, lines};
use crate::text::{decimal_text, is_space, parsed, trimmed};
use crate::words::{
    a_cut_gives_the_key_and_the_value, a_number_that_was_written_reads_back,
    the_first_word_ends_at_a_space, trimming_leaves_text_without_space_around_it,
    trimming_takes_off_space_only,
};
use vstd::arithmetic::div_mod::{lemma_fundamental_div_mod, lemma_mod_bound};
use vstd::prelude::*;

verus! {

// ---- whether playback is bit-perfect -----------------------------------------------------------

/// Whether a row is the line of a key: what stands before its first colon is the key.
pub open spec fn is_line_of(row: Seq<char>, key: Seq<char>) -> bool {
    cut(row, ":"@) matches Some((name, _)) && trimmed(name) == key
}

/// The value of a key is what follows the colon on the first line of that key.
pub proof fn the_first_line_of_a_key_counts(rows: Seq<Seq<char>>, key: Seq<char>)
    ensures
        match field_in(rows, key) {
            Some(value) => exists|i: int|
                0 <= i < rows.len() && is_line_of(#[trigger] rows[i], key) && value == trimmed(
                    cut(rows[i], ":"@).unwrap().1,
                ) && forall|j: int| 0 <= j < i ==> !is_line_of(#[trigger] rows[j], key),
            None => forall|j: int| 0 <= j < rows.len() ==> !is_line_of(#[trigger] rows[j], key),
        },
    decreases rows.len(),
{
    if rows.len() > 0 && !is_line_of(rows[0], key) {
        let rest = rows.skip(1);
        the_first_line_of_a_key_counts(rest, key);
        assert forall|j: int| 1 <= j < rows.len() implies #[trigger] rows[j] == rest[j - 1] by {}
        if let Some(value) = field_in(rest, key) {
            let i = choose|i: int|
                0 <= i < rest.len() && is_line_of(#[trigger] rest[i], key) && value == trimmed(
                    cut(rest[i], ":"@).unwrap().1,
                ) && forall|j: int| 0 <= j < i ==> !is_line_of(#[trigger] rest[j], key);
            assert(rows[i + 1] == rest[i]);
            assert(is_line_of(rows[i + 1], key));
            assert forall|j: int| 0 <= j < i + 1 implies !is_line_of(#[trigger] rows[j], key) by {
                if j > 0 {
                    assert(rows[j] == rest[j - 1]);
                }
            }
        }
    } else if rows.len() > 0 {
        assert(is_line_of(rows[0], key));
    }
}

proof fn lemma_field_at(rows: Seq<Seq<char>>, key: Seq<char>, at: int)
    requires
        0 <= at < rows.len(),
        is_line_of(rows[at], key),
        forall|j: int| 0 <= j < at ==> !is_line_of(#[trigger] rows[j], key),
    ensures
        field_in(rows, key) == Some(trimmed(cut(rows[at], ":"@).unwrap().1)),
{
    the_first_line_of_a_key_counts(rows, key);
    assert(field_in(rows, key) is Some);
    let value = field_in(rows, key).unwrap();
    let i = choose|i: int|
        0 <= i < rows.len() && is_line_of(#[trigger] rows[i], key) && value == trimmed(
            cut(rows[i], ":"@).unwrap().1,
        ) && forall|j: int| 0 <= j < i ==> !is_line_of(#[trigger] rows[j], key);
    assert(i == at) by {
        if i < at {
            assert(!is_line_of(rows[i], key));
        }
        if at < i {
            assert(!is_line_of(rows[at], key));
        }
    }
}

/// Playback is bit-perfect if, and only if, the number on the kernel's line `rate` is the rate of the
/// source and the value on its line `format` is the format that was negotiated.
pub proof fn the_kernels_lines_decide(
    report: SinkReport,
    path: String,
    contents: String,
    rate_line: int,
    format_line: int,
)
    requires
        report.proc == (ProcReading::Read { path, contents }),
        0 <= rate_line < lines(contents@).len(),
        0 <= format_line < lines(contents@).len(),
        is_line_of(lines(contents@)[rate_line], "rate"@),
        is_line_of(lines(contents@)[format_line], "format"@),
        forall|j: int| 0 <= j < rate_line ==> !is_line_of(#[trigger] lines(contents@)[j], "rate"@),
        forall|j: int|
            0 <= j < format_line ==> !is_line_of(#[trigger] lines(contents@)[j], "format"@),
    ensures
        report.confirmed() <==> {
            &&& first_word(
                trimmed(cut(lines(contents@)[rate_line], ":"@).unwrap().1),
            ) matches Some(word)
            &&& parsed(word, 4_294_967_295) == Some(report.source.sample_rate as nat)
            &&& trimmed(cut(lines(contents@)[format_line], ":"@).unwrap().1)
                == report.negotiated_format@
        },
{
    lemma_field_at(lines(contents@), "rate"@, rate_line);
    lemma_field_at(lines(contents@), "format"@, format_line);
}

/// Without a line `rate` or without a line `format` nothing is confirmed, nor without anything that
/// was read.
pub proof fn without_the_kernels_lines_nothing_is_confirmed(report: SinkReport)
    ensures
        report.proc is NotHw || report.proc is Unreadable ==> !report.confirmed(),
        report.proc matches ProcReading::Read { path, contents } ==> {
            (forall|j: int|
                0 <= j < lines(contents@).len() ==> !is_line_of(
                    #[trigger] lines(contents@)[j],
                    "rate"@,
                )) || (forall|j: int|
                0 <= j < lines(contents@).len() ==> !is_line_of(
                    #[trigger] lines(contents@)[j],
                    "format"@,
                )) ==> !report.confirmed()
        },
{
    if let ProcReading::Read { path, contents } = report.proc {
        the_first_line_of_a_key_counts(lines(contents@), "rate"@);
        the_first_line_of_a_key_counts(lines(contents@), "format"@);
    }
}

/// What the kernel says confirms one rate and one format: two sources that it confirms playing have
/// the same rate, and were negotiated in the same format.
pub proof fn the_kernel_confirms_one_rate_and_one_format(a: SinkReport, b: SinkReport)
    requires
        a.proc == b.proc,
        a.confirmed(),
    ensures
        b.confirmed() <==> b.source.sample_rate == a.source.sample_rate && b.negotiated_format@
            == a.negotiated_format@,
{
}

/// Neither the name of the device nor the depth or the channels of the source decide.
pub proof fn only_rate_and_format_decide(a: SinkReport, b: SinkReport)
    requires
        a.proc == b.proc,
        a.source.sample_rate == b.source.sample_rate,
        a.negotiated_format@ == b.negotiated_format@,
    ensures
        a.confirmed() == b.confirmed(),
{
}

/// A line `rate: N`, with or without more behind a blank, says N.
pub proof fn a_rate_line_says_its_number(n: u32, rest: Seq<char>)
    requires
        rest.len() > 0 ==> rest[0] == ' ',
    ensures
        is_line_of("rate: "@ + decimal_text(n as nat) + rest, "rate"@),
        ({
            let value = trimmed(cut("rate: "@ + decimal_text(n as nat) + rest, ":"@).unwrap().1);
            first_word(value) matches Some(word) && parsed(word, 4_294_967_295) == Some(n as nat)
        }),
{
    reveal_strlit("rate: ");
    reveal_strlit("rate");
    reveal_strlit(":");
    let digits = decimal_text(n as nat);
    a_number_that_was_written_reads_back(n as nat, 4_294_967_295);
    let raw = seq![' '] + digits + rest;
    assert("rate: "@ + digits + rest =~= "rate"@ + seq![':'] + raw);
    assert(":"@ =~= seq![':']);
    a_cut_gives_the_key_and_the_value("rate"@, ':', raw);
    trimming_leaves_text_without_space_around_it("rate"@);
    let (from, to) = trimming_takes_off_space_only(raw);
    assert forall|k: int| 0 <= k < digits.len() implies !is_space(#[trigger] digits[k]) by {
        assert('0' <= digits[k] <= '9');
    }
    let last = digits.len() as int;
    assert(raw[0] == ' ');
    assert(raw[1] == digits[0]);
    assert(raw[last] == digits[last - 1]);
    assert(from == 1) by {
        if from == 0 {
            assert(is_space(' '));
        }
    }
    assert(to > last);
    let after = raw.subrange(last + 1, to);
    assert(raw.subrange(from, to) =~= Seq::<char>::empty() + digits + after);
    if after.len() > 0 {
        assert(after[0] == rest[0]);
    }
    the_first_word_ends_at_a_space(Seq::empty(), digits, after);
}

/// The text says that playback is bit-perfect exactly when the kernel confirms it, and gives the
/// reason when it does not.
pub proof fn the_text_says_what_was_confirmed(report: SinkReport)
    ensures
        report.confirmed() ==> " Hz  ✔ BIT-PERFECT"@.is_suffix_of(report.verdict_text()),
        !report.confirmed() ==> ("  ✖ CONVERTED ("@ + report.problem_text() + ")"@).is_suffix_of(
            report.verdict_text(),
        ),
{
    let text = report.verdict_text();
    if report.confirmed() {
        let end = " Hz  ✔ BIT-PERFECT"@;
        assert(text.subrange(text.len() - end.len(), text.len() as int) =~= end);
    } else {
        let end = "  ✖ CONVERTED ("@ + report.problem_text() + ")"@;
        assert(text.subrange(text.len() - end.len(), text.len() as int) =~= end);
    }
}

/// A rate that is not the source's is named beside the source's; a format that is not the negotiated
/// one is named beside that.
pub proof fn the_reason_names_what_differs(report: SinkReport, rate: nat, format: Seq<char>)
    requires
        report.rate() == Some(rate),
        report.format() == Some(format),
    ensures
        rate != report.source.sample_rate ==> report.problem_text() == "the card reports "@
            + decimal_text(rate) + " Hz instead of "@ + decimal_text(
            report.source.sample_rate as nat,
        ) + " Hz"@,
        rate == report.source.sample_rate ==> report.problem_text()
            == "the card reports format "@ + format + " instead of "@ + report.negotiated_format@,
{
}

/// A name `hw:N,D` gives card N and device D.
pub proof fn a_hardware_name_gives_its_numbers(card: u32, device: u32)
    ensures
        hw_numbers("hw:"@ + (decimal_text(card as nat) + ","@ + decimal_text(device as nat)))
            == Some((card as nat, device as nat)),
{
    reveal_strlit("hw:");
    reveal_strlit(",");
    let a = decimal_text(card as nat);
    let b = decimal_text(device as nat);
    a_number_that_was_written_reads_back(card as nat, u32::MAX as nat);
    a_number_that_was_written_reads_back(device as nat, u32::MAX as nat);
    assert(","@ =~= seq![',']);
    assert(!a.contains(',')) by {
        if a.contains(',') {
            let i = choose|i: int| 0 <= i < a.len() && a[i] == ',';
            assert('0' <= a[i] <= '9');
        }
    }
    a_cut_gives_the_key_and_the_value(a, ',', b);
    let name = "hw:"@ + (a + ","@ + b);
    assert("hw:"@.is_prefix_of(name));
    assert(name.skip(3) =~= a + ","@ + b);
}

/// A name that does not begin with `hw:` gives no numbers.
pub proof fn other_names_give_no_numbers(name: Seq<char>)
    requires
        name.len() < 3 || name[0] != 'h' || name[1] != 'w' || name[2] != ':',
    ensures
        hw_numbers(name) is None,
{
    reveal_strlit("hw:");
    if "hw:"@.is_prefix_of(name) {
        assert(name[0] == "hw:"@[0] && name[1] == "hw:"@[1] && name[2] == "hw:"@[2]);
    }
}

// ---- what is written ---------------------------------------------------------------------------

/// Every format that is picked for audio holds it without loss, and the one that is wanted most
/// takes no more room than the audio does. No format is picked for any other depth.
pub proof fn a_picked_format_loses_nothing(bits: u32, i: int, sample: i32)
    requires
        0 <= i < candidates(bits).len(),
    ensures
        bits == 16 || bits == 24,
        fits(sample, bits) ==> unpacked(
            candidates(bits)[i],
            packed(candidates(bits)[i], sample),
        ) == sample,
        sample_bytes(candidates(bits)[0]) * 8 == bits,
        forall|j: int, k: int|
            0 <= j < k < candidates(bits).len() ==> #[trigger] candidates(bits)[j]
                != #[trigger] candidates(bits)[k],
        bits == 24 ==> candidates(bits).contains(Format::S243LE) && candidates(bits).contains(
            Format::S32LE,
        ) && candidates(bits).contains(Format::S24LE),
        bits == 16 ==> candidates(bits).contains(Format::S16LE) && candidates(bits).contains(
            Format::S32LE,
        ),
        forall|j: int, k: int|
            0 <= j < candidates(bits).len() && 0 <= k < candidates(bits).len() && #[trigger] candidates(
                bits,
            )[j] == Format::S32LE && #[trigger] candidates(bits)[k] == Format::S24LE ==> j < k,
{
    super::alsa::packing_loses_nothing(sample);
    assert(sample & 0xffff == 0 ==> sample & 0xff == 0) by (bit_vector);
    if bits == 24 {
        assert(candidates(bits)[0] == Format::S243LE);
        assert(candidates(bits)[1] == Format::S32LE);
        assert(candidates(bits)[2] == Format::S24LE);
    } else if bits == 16 {
        assert(candidates(bits)[0] == Format::S16LE);
        assert(candidates(bits)[1] == Format::S32LE);
    }
}

/// Audio of 16 and of 24 bits has formats, and no other.
pub proof fn only_16_and_24_bits_are_played(bits: u32)
    ensures
        candidates(bits).len() > 0 <==> bits == 16 || bits == 24,
{
}

/// A sample takes as many bytes as its format says, the lowest first: what does not fit is cut off
/// below, the sign is kept above.
pub proof fn the_top_bits_are_kept(sample: i32)
    ensures
        packed(Format::S16LE, sample).len() == 2,
        packed(Format::S243LE, sample).len() == 3,
        packed(Format::S24LE, sample).len() == 4,
        packed(Format::S32LE, sample).len() == 4,
        packed(Format::S16LE, sample) == packed(Format::S32LE, sample).skip(2),
        packed(Format::S243LE, sample) == packed(Format::S32LE, sample).skip(1),
        packed(Format::S24LE, sample).take(3) == packed(Format::S32LE, sample).skip(1),
        packed(Format::S24LE, sample)[3] == if sample < 0 {
            0xffu8
        } else {
            0u8
        },
        sample >= 0 ==> packed(Format::S32LE, sample)[0] + 256 * packed(Format::S32LE, sample)[1]
            + 65536 * packed(Format::S32LE, sample)[2] + 16777216 * packed(
            Format::S32LE,
            sample,
        )[3] == sample,
        sample < 0 ==> packed(Format::S32LE, sample)[0] + 256 * packed(Format::S32LE, sample)[1]
            + 65536 * packed(Format::S32LE, sample)[2] + 16777216 * packed(
            Format::S32LE,
            sample,
        )[3] == sample + 4294967296,
{
    let b0 = super::alsa::byte_at(sample, 0);
    let b1 = super::alsa::byte_at(sample, 8);
    let b2 = super::alsa::byte_at(sample, 16);
    let b3 = super::alsa::byte_at(sample, 24);
    let b4 = super::alsa::byte_at(sample, 31);
    assert(((sample >> 31) as u8) == if sample < 0 {
        0xffu8
    } else {
        0u8
    }) by (bit_vector);
    assert(((sample >> 0) as u8) as int + 256 * ((sample >> 8) as u8) as int + 65536 * ((sample
        >> 16) as u8) as int + 16777216 * ((sample >> 24) as u8) as int == if sample < 0 {
        sample as int + 4294967296
    } else {
        sample as int
    }) by (bit_vector);
    assert(packed(Format::S16LE, sample) =~= packed(Format::S32LE, sample).skip(2));
    assert(packed(Format::S243LE, sample) =~= packed(Format::S32LE, sample).skip(1));
    assert(packed(Format::S24LE, sample).take(3) =~= packed(Format::S32LE, sample).skip(1));
}

/// Samples are packed one after the other: those of two rows behind each other are the bytes of the
/// one behind the bytes of the other.
pub proof fn samples_are_packed_in_order(format: Format, a: Seq<i32>, b: Seq<i32>)
    ensures
        packed_row(format, a + b) == packed_row(format, a) + packed_row(format, b),
        a.len() == 1 ==> packed_row(format, a) == packed(format, a[0]),
        a.len() == 0 ==> packed_row(format, a).len() == 0,
    decreases b.len(),
{
    if b.len() == 0 {
        assert(a + b =~= a);
        assert(packed_row(format, a + b) =~= packed_row(format, a) + packed_row(format, b));
    } else {
        samples_are_packed_in_order(format, a, b.drop_last());
        assert((a + b).drop_last() =~= a + b.drop_last());
        assert(packed_row(format, a + b) =~= packed_row(format, a) + packed_row(format, b));
    }
    if a.len() == 1 {
        assert(a.drop_last() =~= Seq::<i32>::empty());
        assert(packed_row(format, a.drop_last()).len() == 0);
        assert(packed_row(format, a) =~= packed(format, a[0]));
    }
}

/// The last bytes of a row are its end: as many as are asked for, or all of it if it is shorter.
pub proof fn the_last_bytes_are_the_end(row: Seq<u8>, n: nat)
    ensures
        last_bytes(row, n).is_suffix_of(row),
        row.len() >= n ==> last_bytes(row, n).len() == n,
        row.len() <= n ==> last_bytes(row, n) == row,
{
}

proof fn lemma_frame(sink: SinkModel)
    requires
        sink.wf(),
    ensures
        sink.frame_bytes() > 0,
{
    assert(sink.frame_bytes() > 0) by (nonlinear_arith)
        requires
            sink.frame_bytes() == sample_bytes(sink.format) * sink.source.channels,
            sample_bytes(sink.format) > 0,
            sink.source.channels > 0,
    ;
}

/// A frame takes the bytes of its samples, and the sink keeps the last frames that were written, as
/// many as the device holds: whole frames, in the order they were written.
pub proof fn what_was_written_last_is_kept(sink: SinkModel, bytes: Seq<u8>)
    requires
        sink.wf(),
    ensures
        sink.frame_bytes() == sink.source.channels * match sink.format {
            Format::S16LE => 2int,
            Format::S243LE => 3int,
            Format::S24LE => 4int,
            Format::S32LE => 4int,
        },
        sink.wrote(bytes).tail.is_suffix_of(sink.tail + bytes),
        sink.tail.len() + bytes.len() <= sink.capacity * sink.frame_bytes() ==> sink.wrote(
            bytes,
        ).tail == sink.tail + bytes,
        sink.tail.len() + bytes.len() >= sink.capacity * sink.frame_bytes() ==> sink.wrote(
            bytes,
        ).tail.len() == sink.capacity * sink.frame_bytes(),
        sink.wrote(bytes) == (SinkModel { tail: sink.wrote(bytes).tail, ..sink }),
        sink.wrote(bytes).wf(),
{
    lemma_frame(sink);
    let frame = sink.frame_bytes();
    assert(sink.capacity * frame >= 0) by (nonlinear_arith)
        requires
            frame > 0,
            sink.capacity >= 0,
    ;
    let channels = sink.source.channels as int;
    let n = sample_bytes(sink.format) as int;
    assert(n * channels == channels * n) by (nonlinear_arith);
    the_last_bytes_are_the_end(sink.tail + bytes, sink.keeps());
}

/// One write takes whole frames: as many as there are, but no more than a period.
pub proof fn a_write_takes_whole_frames(sink: SinkModel, count: nat)
    requires
        sink.wf(),
    ensures
        sink.taken(count) * sink.source.channels <= count,
        sink.taken(count) <= sink.period,
        sink.taken(count) == sink.period || count < (sink.taken(count) + 1) * sink.source.channels,
{
    let channels = sink.source.channels as int;
    let c = count as int;
    let whole = c / channels;
    lemma_fundamental_div_mod(c, channels);
    lemma_mod_bound(c, channels);
    let taken = sink.taken(count) as int;
    assert(whole == count / sink.source.channels as nat);
    assert(whole >= 0) by (nonlinear_arith)
        requires
            c == channels * whole + c % channels,
            c >= 0,
            c % channels < channels,
            channels > 0,
    ;
    assert(taken * channels <= c) by (nonlinear_arith)
        requires
            0 <= taken <= whole,
            c == channels * whole + c % channels,
            c % channels >= 0,
            channels > 0,
    ;
    if taken == whole {
        assert(c < (taken + 1) * channels) by (nonlinear_arith)
            requires
                taken == whole,
                c == channels * whole + c % channels,
                c % channels < channels,
        ;
    }
}

/// What is written again after a pause that threw the queue away is the end of what was written:
/// as many frames as the device said were not heard, or all that is kept; nothing where it could not
/// say. What is written again is kept again, so a second such pause loses nothing either.
pub proof fn a_dropped_pause_keeps_the_frames_not_heard(sink: SinkModel, delay: Option<i64>)
    requires
        sink.wf(),
        sink.running(),
    ensures
        sink.dropped(delay).replay matches Some(replay) && {
            let heard = match delay {
                Some(frames) if frames > 0 => frames as int,
                _ => 0,
            };
            &&& replay.is_suffix_of(sink.tail)
            &&& heard * sink.frame_bytes() <= sink.tail.len() ==> replay.len() == heard
                * sink.frame_bytes()
            &&& heard * sink.frame_bytes() >= sink.tail.len() ==> sink.tail.len() - replay.len()
                < sink.frame_bytes()
            &&& replay.len() % sink.frame_bytes() as nat == 0
            &&& (SinkModel { held: false, replay: None, ..sink.dropped(delay) }).wrote(replay).tail
                == replay
        },
        sink.dropped(delay).tail.len() == 0,
        !sink.dropped(delay).running(),
        !sink.dropped(delay).held,
        sink.dropped(delay).wf(),
        sink.dropped(delay) == (SinkModel {
            tail: Seq::empty(),
            replay: sink.dropped(delay).replay,
            ..sink
        }),
{
    lemma_frame(sink);
    let frame = sink.frame_bytes();
    let length = sink.tail.len() as int;
    let held = length / frame;
    lemma_fundamental_div_mod(length, frame);
    lemma_mod_bound(length, frame);
    let pending = sink.pending(delay) as int;
    let heard = match delay {
        Some(frames) if frames > 0 => frames as int,
        _ => 0,
    };
    assert(held >= 0) by (nonlinear_arith)
        requires
            length == frame * held + length % frame,
            length >= 0,
            length % frame < frame,
            frame > 0,
    ;
    assert(0 <= pending <= held);
    assert(pending == heard || (pending == held && held < heard));
    assert(0 <= pending * frame <= length) by (nonlinear_arith)
        requires
            0 <= pending <= held,
            length == frame * held + length % frame,
            length % frame >= 0,
            frame > 0,
    ;
    if heard * frame <= length {
        assert(heard <= held) by (nonlinear_arith)
            requires
                heard * frame <= length,
                length == frame * held + length % frame,
                length % frame < frame,
                frame > 0,
        ;
        assert(pending == heard);
    }
    if heard * frame >= length {
        assert(heard >= held) by (nonlinear_arith)
            requires
                heard * frame >= length,
                length == frame * held + length % frame,
                length % frame >= 0,
                frame > 0,
        ;
        assert(pending == held);
        assert(pending * frame == frame * held) by (nonlinear_arith)
            requires
                pending == held,
        ;
    }
    assert((pending * frame) % frame == 0) by {
        vstd::arithmetic::div_mod::lemma_mod_multiples_basic(pending, frame);
    }
    let replay = sink.dropped(delay).replay.unwrap();
    assert(replay.len() == pending * frame);
    the_last_bytes_are_the_end(sink.tail, (pending * frame) as nat);
    let after = SinkModel { held: false, replay: None, ..sink.dropped(delay) };
    assert(after.tail + replay =~= replay);
}

/// A device is asked for a tenth of a second at a time and half a second in all, and one that takes
/// nothing is waited for fifty times in a row.
pub proof fn the_device_is_asked_for_short_periods()
    ensures
        PERIOD_TIME_US == 100_000,
        BUFFER_TIME_US == 500_000,
        MAX_CONSECUTIVE_ZERO_WRITES == 50,
{
}

// ---- what the functions give -------------------------------------------------------------------

/// Playback is called bit-perfect exactly on the kernel's word for the rate and the format, and the
/// reason why it is not is given exactly when it is not.
pub proof fn bit_perfect_is_what_the_kernel_confirms(
    report: SinkReport,
    path: String,
    contents: String,
    rate_line: int,
    format_line: int,
    perfect: bool,
    problem: Option<String>,
)
    requires
        call_ensures(SinkReport::bit_perfect, (&report,), perfect),
        call_ensures(SinkReport::problem, (&report,), problem),
        report.proc == (ProcReading::Read { path, contents }),
        0 <= rate_line < lines(contents@).len(),
        0 <= format_line < lines(contents@).len(),
        is_line_of(lines(contents@)[rate_line], "rate"@),
        is_line_of(lines(contents@)[format_line], "format"@),
        forall|j: int| 0 <= j < rate_line ==> !is_line_of(#[trigger] lines(contents@)[j], "rate"@),
        forall|j: int|
            0 <= j < format_line ==> !is_line_of(#[trigger] lines(contents@)[j], "format"@),
    ensures
        perfect <==> {
            &&& first_word(
                trimmed(cut(lines(contents@)[rate_line], ":"@).unwrap().1),
            ) matches Some(word)
            &&& parsed(word, 4_294_967_295) == Some(report.source.sample_rate as nat)
            &&& trimmed(cut(lines(contents@)[format_line], ":"@).unwrap().1)
                == report.negotiated_format@
        },
        problem is None <==> perfect,
{
    the_kernels_lines_decide(report, path, contents, rate_line, format_line);
}

/// What could not be checked is not called bit-perfect.
pub proof fn what_cannot_be_checked_is_not_bit_perfect(
    report: SinkReport,
    perfect: bool,
    problem: Option<String>,
)
    requires
        call_ensures(SinkReport::bit_perfect, (&report,), perfect),
        call_ensures(SinkReport::problem, (&report,), problem),
        !(report.proc is Read),
    ensures
        !perfect,
        problem is Some,
{
}

/// A device runs at exactly the rate of the source, or is not opened.
pub proof fn a_device_runs_at_the_rate_of_the_source(
    device: &str,
    source: SourceSpec,
    format: Format,
    committed: Committed,
    r: Result<AlsaSink, String>,
)
    requires
        source.channels > 0,
        committed.buffer_frames * (sample_bytes(format) * source.channels) <= usize::MAX,
        sample_bytes(format) * source.channels <= usize::MAX,
        call_ensures(AlsaSink::open, (device, source, format, committed), r),
    ensures
        r is Ok <==> committed.rate == source.sample_rate,
        r matches Ok(sink) ==> {
            &&& sink@.source == source
            &&& sink@.format == format
            &&& sink@.can_pause == committed.can_pause
            &&& sink@.running()
            &&& sink@.tail.len() == 0
            &&& !sink@.reported
            &&& committed.period_frames > 0 ==> sink@.period == committed.period_frames
            &&& committed.buffer_frames > 0 ==> sink@.capacity == committed.buffer_frames
        },
{
}

/// What is busy is told apart from what fails otherwise.
pub proof fn what_is_busy_is_told_apart(device: &str, busy: bool, detail: &str, r: OpenError)
    requires
        call_ensures(open_error, (device, busy, detail), r),
    ensures
        r is Busy <==> busy,
        r matches OpenError::Busy(why) ==> why.device@ == device@ && why.detail@ == detail@,
{
}

/// The number of bytes that a sample is said to take is the number that it is packed into.
pub proof fn a_sample_takes_the_bytes_it_is_packed_into(format: Format, sample: i32, r: usize)
    requires
        call_ensures(bytes_per_sample, (format,), r),
    ensures
        r == packed(format, sample).len(),
{
}

/// The name that a raw device goes by leads to what the kernel says of it.
pub proof fn a_raw_device_is_found_by_its_name(
    device: &str,
    card: u32,
    pcm: u32,
    r: Option<(u32, u32)>,
)
    requires
        device@ == "hw:"@ + (decimal_text(card as nat) + ","@ + decimal_text(pcm as nat)),
        call_ensures(parse_hw_device, (device,), r),
    ensures
        r == Some((card, pcm)),
{
    a_hardware_name_gives_its_numbers(card, pcm);
}

/// A running sink pauses in hardware if it can and by dropping its queue if it can't; one that is
/// paused is left alone.
pub proof fn a_sink_pauses_as_it_can(sink: AlsaSink, how: ToPause)
    requires
        call_ensures(AlsaSink::pause, (&sink,), how),
    ensures
        how == ToPause::Nothing <==> sink@.held || sink@.replay is Some,
        how == ToPause::Hardware <==> !sink@.held && sink@.replay is None && sink@.can_pause,
        how == ToPause::Drop <==> !sink@.held && sink@.replay is None && !sink@.can_pause,
{
}

/// What is still to be heard is what is to be written again, if the queue was thrown away; otherwise
/// what the device says is in flight, and nothing where nothing can be.
pub proof fn what_is_in_flight_is_still_to_be_heard(
    sink: AlsaSink,
    state: StreamState,
    delay: Option<i64>,
    r: u64,
)
    requires
        sink.wf(),
        call_ensures(AlsaSink::delay_frames, (&sink, state, delay), r),
    ensures
        sink@.replay matches Some(replay) ==> r * sink@.frame_bytes() <= replay.len() < (r + 1)
            * sink@.frame_bytes(),
        sink@.replay is None && state is Idle ==> r == 0,
        sink@.replay is None && state is InFlight ==> (delay matches Some(frames) ==> (frames >= 0
            ==> r == frames) && (frames < 0 ==> r == 0)),
        sink@.replay is None && delay is None ==> r == 0,
{
    sink.holds_together();
    lemma_frame(sink@);
    if let Some(replay) = sink@.replay {
        let n = replay.len() as int;
        let frame = sink@.frame_bytes();
        lemma_fundamental_div_mod(n, frame);
        lemma_mod_bound(n, frame);
        assert(r == n / frame);
        assert(r * frame <= n < (r + 1) * frame) by (nonlinear_arith)
            requires
                n == frame * r + n % frame,
                0 <= n % frame < frame,
        ;
    }
}

/// A write to a running sink takes whole frames and hands on exactly their bytes; one that is paused
/// takes nothing.
pub proof fn a_write_hands_on_whole_frames(
    sink: AlsaSink,
    samples: &[i32],
    r: Result<(usize, Vec<u8>), String>,
)
    requires
        sink.wf(),
        call_ensures(AlsaSink::write, (&sink, samples), r),
    ensures
        r is Ok <==> !sink@.held && sink@.replay is None,
        r matches Ok((frames, bytes)) ==> {
            &&& frames * sink@.source.channels <= samples@.len()
            &&& frames <= sink@.period
            &&& frames == sink@.period || samples@.len() < (frames + 1) * sink@.source.channels
            &&& bytes@.len() == frames * sink@.source.channels * sample_bytes(sink@.format)
        },
{
    sink.holds_together();
    a_write_takes_whole_frames(sink@, samples@.len());
    let count = (sink@.taken(samples@.len()) * sink@.source.channels) as int;
    assert(count >= 0) by (nonlinear_arith)
        requires
            count == sink@.taken(samples@.len()) * sink@.source.channels,
            sink@.taken(samples@.len()) >= 0,
            sink@.source.channels >= 0,
    ;
    super::alsa::a_packed_row_has_whole_samples(sink@.format, samples@.take(count));
}

} // verus!
