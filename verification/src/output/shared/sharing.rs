//! What holds of playing through the sound server.

use super::pulse::{
    after_sending, byte_length, classify, default_among, details_text, has_id, is_text, name_width,
    output_from, outputs_changed, over_bluetooth, percent_from_raw, percent_of, plan_stream,
    property, raw_from_percent, raw_of, says, stream_volume, stream_with, texts_among, timing_from,
    total, unterminated, watched, wired_kind, AfterSending, Facility, Happened, Output, OutputKind,
    Property, RawProperty, SharedVolume, SinkInfo, StreamInfo, StreamPlan, Target, VolumeModel,
    Watched, OUTPUT_POLL, OUTPUT_WAIT, OWN_CHANGE_ECHO, VOLUME_NORM,
};
use super::ring::{whole, Ring, STALL, WAKE_EVERY};
use super::{
    Call, DrainError, DrainStep, SharedSink, StreamModel, Timing, DRAIN_POLL, DRAIN_SLACK,
};
use crate::decode::SourceSpec;
use crate::output::Volume;
use crate::pieces::found;
use crate::time::Duration;
use crate::words::the_first_occurrence_is_found;
use vstd::arithmetic::div_mod::{
    lemma_fundamental_div_mod, lemma_fundamental_div_mod_converse, lemma_mod_bound,
};
use vstd::prelude::*;

verus! {

proof fn lemma_quotient(x: int, d: int)
    requires
        d > 0,
        x >= 0,
    ensures
        x / d >= 0,
        (x / d) * d <= x < (x / d + 1) * d,
{
    lemma_fundamental_div_mod(x, d);
    lemma_mod_bound(x, d);
    let q = x / d;
    assert(d * q == q * d && (q + 1) * d == q * d + d) by (nonlinear_arith);
    assert(q >= 0) by (nonlinear_arith)
        requires
            x < (q + 1) * d,
            x >= 0,
            d > 0,
    ;
}

proof fn lemma_exact_quotient(q: int, d: int)
    requires
        d > 0,
    ensures
        (q * d) / d == q,
{
    lemma_fundamental_div_mod_converse(q * d, d, q, 0);
}

// ---- the ring ----------------------------------------------------------------------------------

/// What makes whole frames is a whole number of them, and less than a frame is left over.
pub proof fn less_than_a_frame_is_left_over(count: nat, frame: nat)
    requires
        frame > 0,
    ensures
        whole(count, frame) <= count,
        count < whole(count, frame) + frame,
        whole(count, frame) % frame == 0,
{
    lemma_quotient(count as int, frame as int);
    vstd::arithmetic::div_mod::lemma_mod_multiples_basic((count / frame) as int, frame as int);
    let q = count as int / frame as int;
    assert((q + 1) * frame as int == q * frame as int + frame as int) by (nonlinear_arith);
}

/// One write takes whole frames: as many as there are, but no more than a period. The ring holds as
/// many whole frames as its room does.
pub proof fn a_write_takes_whole_frames(ring: Ring, count: nat)
    requires
        ring.wf(),
    ensures
        ring.taken(count) * ring.per_frame() <= count,
        ring.taken(count) <= ring.period(),
        ring.taken(count) == ring.period() || count < (ring.taken(count) + 1) * ring.per_frame(),
        ring.capacity() * ring.frame() <= ring.room() < (ring.capacity() + 1) * ring.frame(),
{
    let channels = ring.per_frame() as int;
    lemma_quotient(count as int, channels);
    lemma_quotient(ring.room() as int, ring.frame() as int);
    let all = count as int / channels;
    let taken = ring.taken(count) as int;
    assert(taken * channels <= count) by (nonlinear_arith)
        requires
            0 <= taken <= all,
            all * channels <= count,
            channels > 0,
    ;
}

// ---- silence and delay -------------------------------------------------------------------------

/// Silence goes in behind what the server was given and what waits in the ring: it ends that many
/// frames from the start. It is needed no more; a server that does not say what it was given leaves
/// its end as it was.
pub proof fn silence_ends_behind_what_was_given(
    sink: StreamModel,
    waiting: nat,
    timing: Timing,
    given: nat,
)
    requires
        sink.wf(),
        timing.write_bytes == given * (sink.spec.channels * 4),
    ensures
        sink.silenced(waiting, Some(timing)).silence_end == given + waiting + sink.silence_frames,
        !sink.silenced(waiting, Some(timing)).needs_silence,
        sink.silenced(waiting, None).silence_end == sink.silence_end,
        !sink.silenced(waiting, None).needs_silence,
        sink.silenced(waiting, Some(timing)) == (StreamModel {
            silence_end: given + waiting + sink.silence_frames,
            needs_silence: false,
            ..sink
        }),
{
    lemma_exact_quotient(given as int, sink.frame() as int);
}

/// What has not been heard is what waits in the ring, what the server holds and what is on its way,
/// without the silence among it; never less than what is on its way. Where the server does not say,
/// it is what waits in the ring.
pub proof fn what_has_not_been_heard_is_still_on_its_way(
    sink: StreamModel,
    waiting: nat,
    timing: Timing,
    held: nat,
    played: nat,
    latency: nat,
)
    requires
        sink.wf(),
        timing.queued_bytes == held * (sink.spec.channels * 4),
        timing.read_bytes == played * (sink.spec.channels * 4),
    ensures
        ({
            let delay = sink.delay(waiting, Some(timing), latency);
            &&& sink.silence_end <= played ==> delay == waiting + held + latency
            &&& played < sink.silence_end && sink.silence_end - played <= waiting + held
                ==> delay + (sink.silence_end - played) == waiting + held + latency
            &&& sink.silence_end - played >= waiting + held && sink.silence_end > played ==> delay
                == latency
        }),
        sink.delay(waiting, None, latency) == waiting,
{
    lemma_exact_quotient(held as int, sink.frame() as int);
    lemma_exact_quotient(played as int, sink.frame() as int);
}

/// A frame takes four bytes for each of its samples.
pub proof fn a_frame_takes_four_bytes_a_sample(sink: StreamModel)
    ensures
        sink.frame() == 4 * sink.spec.channels,
{
}

// ---- outputs -----------------------------------------------------------------------------------

/// Of a property that is there more than once the last counts; one that is not there says nothing.
pub proof fn the_last_property_counts(props: Seq<Property>, key: Seq<char>)
    ensures
        match property(props, key) {
            Some(value) => exists|i: int|
                0 <= i < props.len() && (#[trigger] props[i]).0@ == key && props[i].1@ == value
                    && forall|j: int| i < j < props.len() ==> (#[trigger] props[j]).0@ != key,
            None => forall|j: int| 0 <= j < props.len() ==> (#[trigger] props[j]).0@ != key,
        },
    decreases props.len(),
{
    if props.len() > 0 {
        let shorter = props.drop_last();
        if props.last().0@ == key {
            assert(props[props.len() - 1].0@ == key);
        } else {
            the_last_property_counts(shorter, key);
            assert forall|j: int| 0 <= j < shorter.len() implies #[trigger] shorter[j]
                == props[j] by {}
            if let Some(value) = property(shorter, key) {
                let i = choose|i: int|
                    0 <= i < shorter.len() && (#[trigger] shorter[i]).0@ == key && shorter[i].1@
                        == value && forall|j: int|
                        i < j < shorter.len() ==> (#[trigger] shorter[j]).0@ != key;
                assert(props[i].0@ == key);
                assert forall|j: int| i < j < props.len() implies (#[trigger] props[j]).0@ != key by {
                    if j < shorter.len() {
                        assert(shorter[j].0@ != key);
                    }
                }
            } else {
                assert forall|j: int| 0 <= j < props.len() implies (#[trigger] props[j]).0@
                    != key by {
                    if j < shorter.len() {
                        assert(shorter[j].0@ != key);
                    }
                }
            }
        }
    }
}

/// Whether a word occurs in a text.
pub open spec fn occurs(word: Seq<char>, text: Seq<char>) -> bool {
    exists|j: int|
        0 <= j && j + word.len() <= text.len() && #[trigger] text.subrange(j, j + word.len())
            == word
}

proof fn lemma_occurs(word: Seq<char>, text: Seq<char>)
    ensures
        found(text, word) is Some <==> occurs(word, text),
{
    the_first_occurrence_is_found(text, word);
    if let Some(at) = found(text, word) {
        assert(text.subrange(at, at + word.len()) == word);
    }
}

/// The kind of a wired output is told by what it says of itself or by what its name holds: USB before
/// HDMI, and HDMI before what is built in.
pub proof fn the_kind_of_an_output_is_told(name: Seq<char>, props: Seq<Property>)
    ensures
        ({
            let lower = crate::pieces::lowercase_text(name);
            let usb = says(props, "device.bus"@, "usb"@) || occurs(".usb-"@, lower) || occurs(
                "_usb-"@,
                lower,
            );
            let hdmi = occurs("hdmi"@, lower) || (property(
                props,
                "device.profile.description"@,
            ) matches Some(text) && occurs("HDMI"@, text));
            let built_in = says(props, "device.bus"@, "pci"@) || occurs("pci-"@, lower);
            &&& wired_kind(name, props) == OutputKind::Usb <==> usb
            &&& wired_kind(name, props) == OutputKind::Hdmi <==> !usb && hdmi
            &&& wired_kind(name, props) == OutputKind::Internal <==> !usb && !hdmi && built_in
            &&& wired_kind(name, props) == OutputKind::Other <==> !usb && !hdmi && !built_in
        }),
{
    let lower = crate::pieces::lowercase_text(name);
    lemma_occurs(".usb-"@, lower);
    lemma_occurs("_usb-"@, lower);
    lemma_occurs("hdmi"@, lower);
    lemma_occurs("pci-"@, lower);
    if let Some(text) = property(props, "device.profile.description"@) {
        lemma_occurs("HDMI"@, text);
    }
}

/// An output is over Bluetooth if it says so, or if its name begins with `bluez_`.
pub proof fn a_bluetooth_output_says_so(name: Seq<char>, props: Seq<Property>)
    ensures
        over_bluetooth("bluez_"@ + name, props),
        property(props, "device.api"@) == Some("bluez5"@) ==> over_bluetooth(name, props),
        property(props, "device.api"@) != Some("bluez5"@) && (name.len() == 0 || name[0] != 'b')
            ==> !over_bluetooth(name, props),
{
    reveal_strlit("bluez_");
    assert("bluez_"@.is_prefix_of("bluez_"@ + name));
    if "bluez_"@.is_prefix_of(name) {
        assert(name[0] == "bluez_"@[0]);
    }
}

/// The zero that ends a text is taken off, one at most.
pub proof fn the_zero_at_the_end_is_taken_off(bytes: Seq<u8>)
    ensures
        unterminated(bytes.push(0)) == bytes,
        bytes.len() == 0 || bytes.last() != 0 ==> unterminated(bytes) == bytes,
{
    assert(bytes.push(0).drop_last() =~= bytes);
}

/// Properties that are text are kept, in their order, and the others are left out.
pub proof fn properties_that_are_text_are_kept(a: Seq<RawProperty>, b: Seq<RawProperty>)
    ensures
        texts_among(a + b) == texts_among(a) + texts_among(b),
        a.len() == 1 && is_text(a[0]) ==> texts_among(a) == a,
        a.len() == 1 && !is_text(a[0]) ==> texts_among(a).len() == 0,
        a.len() == 0 ==> texts_among(a).len() == 0,
    decreases b.len(),
{
    if b.len() == 0 {
        assert(a + b =~= a);
        assert(texts_among(a) + texts_among(b) =~= texts_among(a));
    } else {
        properties_that_are_text_are_kept(a, b.drop_last());
        assert((a + b).drop_last() =~= a + b.drop_last());
        assert(texts_among(a + b) =~= texts_among(a) + texts_among(b));
    }
    if a.len() == 1 {
        assert(a.drop_last() =~= Seq::<RawProperty>::empty());
        assert(texts_among(a.drop_last()).len() == 0);
        if is_text(a[0]) {
            assert(texts_among(a) =~= a);
        }
    }
}

/// The column of names is as wide as the longest name, and wide enough for `default`.
pub proof fn the_column_is_as_wide_as_the_longest_name(outputs: Seq<Output>)
    ensures
        name_width(outputs) >= 7,
        forall|i: int|
            0 <= i < outputs.len() ==> byte_length((#[trigger] outputs[i]).name@) <= name_width(
                outputs,
            ),
        name_width(outputs) > 7 ==> exists|i: int|
            0 <= i < outputs.len() && byte_length((#[trigger] outputs[i]).name@) == name_width(
                outputs,
            ),
    decreases outputs.len(),
{
    if outputs.len() > 0 {
        let shorter = outputs.drop_last();
        the_column_is_as_wide_as_the_longest_name(shorter);
        assert forall|i: int| 0 <= i < outputs.len() implies byte_length(
            (#[trigger] outputs[i]).name@,
        ) <= name_width(outputs) by {
            if i < shorter.len() {
                assert(shorter[i] == outputs[i]);
            }
        }
        if name_width(outputs) > 7 {
            if byte_length(outputs.last().name@) > name_width(shorter) {
                assert(outputs[outputs.len() - 1] == outputs.last());
            } else {
                let i = choose|i: int|
                    0 <= i < shorter.len() && byte_length((#[trigger] shorter[i]).name@)
                        == name_width(shorter);
                assert(outputs[i] == shorter[i]);
            }
        }
    }
}

/// The default output is the first that says it is; there is none only if none does.
pub proof fn the_first_default_output_counts(outputs: Seq<Output>)
    ensures
        match default_among(outputs) {
            Some(output) => exists|i: int|
                0 <= i < outputs.len() && #[trigger] outputs[i] == output && outputs[i].is_default
                    && forall|j: int| 0 <= j < i ==> !(#[trigger] outputs[j]).is_default,
            None => forall|j: int| 0 <= j < outputs.len() ==> !(#[trigger] outputs[j]).is_default,
        },
    decreases outputs.len(),
{
    if outputs.len() > 0 && !outputs[0].is_default {
        let rest = outputs.skip(1);
        the_first_default_output_counts(rest);
        assert forall|j: int| 1 <= j < outputs.len() implies #[trigger] outputs[j] == rest[j
            - 1] by {}
        if let Some(output) = default_among(rest) {
            let i = choose|i: int|
                0 <= i < rest.len() && #[trigger] rest[i] == output && rest[i].is_default && forall|
                    j: int,
                |
                    0 <= j < i ==> !(#[trigger] rest[j]).is_default;
            assert(outputs[i + 1] == output);
            assert forall|j: int| 0 <= j < i + 1 implies !(#[trigger] outputs[j]).is_default by {
                if j > 0 {
                    assert(outputs[j] == rest[j - 1]);
                }
            }
        }
    } else if outputs.len() > 0 {
        assert(outputs[0] == default_among(outputs)->0);
    }
}

/// What an output loses is said: `lossy` stands at the end for exactly those that lose something, and
/// the codec, if any, behind the kind.
pub proof fn what_an_output_loses_is_said(output: Output)
    ensures
        output.lossy && output.codec is None ==> details_text(output) == output.kind.text()
            + ", lossy"@,
        !output.lossy && output.codec is None ==> details_text(output) == output.kind.text(),
        !output.lossy ==> (output.codec matches Some(codec) ==> details_text(output)
            == output.kind.text() + ", "@ + codec@),
        output.lossy ==> (output.codec matches Some(codec) ==> details_text(output)
            == output.kind.text() + ", "@ + codec@ + ", lossy"@),
{
    let kind = output.kind.text();
    assert(kind + Seq::<char>::empty() =~= kind);
    assert(kind + Seq::<char>::empty() + Seq::<char>::empty() =~= kind);
    assert(details_text(output) + Seq::<char>::empty() =~= details_text(output));
    if let Some(codec) = output.codec {
        assert(kind + (", "@ + codec@) + Seq::<char>::empty() =~= kind + ", "@ + codec@);
        assert(kind + (", "@ + codec@) + ", lossy"@ =~= kind + ", "@ + codec@ + ", lossy"@);
    } else {
        assert(kind + Seq::<char>::empty() + ", lossy"@ =~= kind + ", lossy"@);
    }
}

// ---- the volume --------------------------------------------------------------------------------

/// Loudness is rounded to the nearest step: silence is nothing, a hundred percent is unity, louder
/// is not asked for, and more percent is never quieter.
pub proof fn loudness_is_rounded_to_the_nearest_step(percent: nat, other: nat)
    ensures
        percent <= 100 ==> -50 <= raw_of(percent) * 100 - percent * 65_536 <= 50,
        raw_of(0) == 0,
        raw_of(100) == 65_536,
        percent > 100 ==> raw_of(percent) == 65_536,
        percent <= other ==> raw_of(percent) <= raw_of(other),
        VOLUME_NORM == 65_536,
{
}

/// What the server says is rounded to the nearest percent, at most 255.
pub proof fn what_the_server_says_is_rounded_to_the_nearest_percent(raw: nat)
    ensures
        percent_of(raw) < 255 ==> -32_768 <= raw * 100 - percent_of(raw) * 65_536 < 32_768,
        percent_of(raw) <= 255,
        percent_of(raw) == 255 ==> raw * 100 + 32_768 >= 255 * 65_536,
{
}

/// The volumes of channels are added up.
pub proof fn volumes_are_added_up(a: Seq<u32>, b: Seq<u32>)
    ensures
        total(a + b) == total(a) + total(b),
        a.len() == 1 ==> total(a) == a[0],
        a.len() == 0 ==> total(a) == 0,
    decreases b.len(),
{
    if b.len() == 0 {
        assert(a + b =~= a);
    } else {
        volumes_are_added_up(a, b.drop_last());
        assert((a + b).drop_last() =~= a + b.drop_last());
    }
    if a.len() == 1 {
        assert(a.drop_last() =~= Seq::<u32>::empty());
        assert(total(a.drop_last()) == 0);
    }
}

/// For six tenths of a second after phonia sets the volume, what the server tells of it is its echo
/// and no news. Later it is news if it is of the stream that plays and differs from what is known.
pub proof fn what_follows_a_change_is_its_echo(
    volume: VolumeModel,
    index: u32,
    reported: Volume,
    now: Duration,
    at: Duration,
)
    ensures
        volume.last_set is None ==> !volume.echoes(now),
        volume.last_set == Some(at) ==> (volume.echoes(now) <==> now@ < at@ + 600_000_000),
        volume.is_news(index, reported, now) <==> {
            &&& !volume.echoes(now)
            &&& volume.stream is Some
            &&& volume.stream->0.index == index
            &&& volume.volume != reported
        },
{
}

/// The stream of an id is the first that was given it; there is none only if none was.
pub proof fn the_first_stream_with_an_id_is_taken(streams: Seq<StreamInfo>, id: Seq<u8>)
    ensures
        match stream_with(streams, id) {
            Some(stream) => exists|i: int|
                0 <= i < streams.len() && #[trigger] streams[i] == stream && has_id(streams[i], id)
                    && forall|j: int| 0 <= j < i ==> !has_id(#[trigger] streams[j], id),
            None => forall|j: int| 0 <= j < streams.len() ==> !has_id(#[trigger] streams[j], id),
        },
    decreases streams.len(),
{
    if streams.len() > 0 && !has_id(streams[0], id) {
        let rest = streams.skip(1);
        the_first_stream_with_an_id_is_taken(rest, id);
        assert forall|j: int| 1 <= j < streams.len() implies #[trigger] streams[j] == rest[j
            - 1] by {}
        if let Some(stream) = stream_with(rest, id) {
            let i = choose|i: int|
                0 <= i < rest.len() && #[trigger] rest[i] == stream && has_id(rest[i], id)
                    && forall|j: int| 0 <= j < i ==> !has_id(#[trigger] rest[j], id);
            assert(streams[i + 1] == stream);
            assert forall|j: int| 0 <= j < i + 1 implies !has_id(#[trigger] streams[j], id) by {
                if j > 0 {
                    assert(streams[j] == rest[j - 1]);
                }
            }
        }
    } else if streams.len() > 0 {
        assert(streams[0] == stream_with(streams, id)->0);
    }
}

/// A stream has the id that it was given, with or without a zero at its end.
pub proof fn a_stream_has_the_id_it_was_given(stream: StreamInfo, bytes: Vec<u8>, id: Seq<u8>)
    requires
        id.len() == 0 || id.last() != 0,
        stream.stream_id == Some(bytes),
    ensures
        bytes@ == id ==> has_id(stream, id),
        bytes@ == id.push(0) ==> has_id(stream, id),
        has_id(stream, id) ==> bytes@ == id || bytes@ == id.push(0),
{
    the_zero_at_the_end_is_taken_off(id);
    if has_id(stream, id) && bytes@.len() > 0 && bytes@.last() == 0 {
        assert(bytes@ =~= id.push(0));
    }
}

/// The server gets five seconds to draw from a full ring, looked at ten times a second; ten seconds
/// to finish, looked at fifty times a second; an output gets three seconds to appear, looked for
/// five times a second; an echo lasts six tenths of one.
pub proof fn the_server_is_waited_for_but_not_forever()
    ensures
        STALL == 5_000_000_000,
        WAKE_EVERY == 100_000_000,
        DRAIN_SLACK == 10_000_000_000,
        DRAIN_POLL == 20_000_000,
        OUTPUT_WAIT == 3_000_000_000,
        OUTPUT_POLL == 200_000_000,
        OWN_CHANGE_ECHO == 600_000_000,
{
}

// ---- what the functions give -------------------------------------------------------------------

/// No name, or `default`, is the default output; any other name is the output of that name.
pub proof fn a_name_is_the_output_of_that_name(name: &str, named: Target, unnamed: Target)
    requires
        call_ensures(Target::parse, (Some(name),), named),
        call_ensures(Target::parse, (None,), unnamed),
    ensures
        named is Default <==> name@ == "default"@,
        named matches Target::Named(n) ==> n@ == name@,
        unnamed is Default,
{
}

/// An output over Bluetooth loses something, and no other does; its codec, if it says one, is told.
pub proof fn only_bluetooth_loses_something(
    name: &str,
    props: Vec<Property>,
    r: (OutputKind, Option<String>, bool),
)
    requires
        call_ensures(classify, (name, &props), r),
    ensures
        r.2 <==> r.0 is Bluetooth,
        r.0 is Bluetooth <==> over_bluetooth(name@, props@),
        r.1 is Some ==> r.0 is Bluetooth,
        r.0 is Bluetooth ==> (r.1 is Some <==> property(props@, "api.bluez5.codec"@) is Some),
{
    super::pulse::a_wired_output_is_never_bluetooth(name@, props@);
}

/// An output goes by its description, or by its name if it has none; it is the default if the
/// desktop's default has its name.
pub proof fn an_output_goes_by_its_description(info: SinkInfo, default: &str, r: Output, other: Output)
    requires
        call_ensures(output_from, (&info, Some(default)), r),
        call_ensures(output_from, (&info, None), other),
    ensures
        r.name@ == info.name@,
        info.description matches Some(text) ==> r.description@ == text@,
        info.description is None ==> r.description@ == info.name@,
        r.is_default <==> default@ == info.name@,
        !other.is_default,
        r.rate == info.rate,
        r.index == info.index,
        r.kind == other.kind,
        r.lossy == other.lossy,
        r.lossy <==> r.kind is Bluetooth,
{
    super::pulse::a_wired_output_is_never_bluetooth(info.name@, info.props@);
}

/// What is set is what is read back, for every percentage up to a hundred.
pub proof fn the_volume_that_is_set_is_read_back(percent: u8, raw: u32, again: u8)
    requires
        percent <= 100,
        call_ensures(raw_from_percent, (percent,), raw),
        call_ensures(percent_from_raw, (raw,), again),
    ensures
        again == percent,
        raw <= 65_536,
        percent == 0 ==> raw == 0,
        percent == 100 ==> raw == 65_536,
        -50 <= raw * 100 - percent * 65_536 <= 50,
{
    super::pulse::percentages_survive_the_round_trip(percent as nat);
}

/// The volume of a stream is the mean of its channels, to the nearest percent; without channels there
/// is none to hear.
pub proof fn the_volume_of_a_stream_is_the_mean_of_its_channels(
    raw: Vec<u32>,
    muted: bool,
    r: Volume,
    each: u32,
)
    requires
        raw@.len() <= u32::MAX,
        call_ensures(stream_volume, (&raw, muted), r),
        forall|i: int| 0 <= i < raw@.len() ==> #[trigger] raw@[i] == each,
    ensures
        r.muted == muted,
        raw@.len() > 0 ==> r.percent == percent_of(each as nat),
        raw@.len() == 0 ==> r.percent == 0,
{
    lemma_total_of_equal(raw@, each);
    if raw@.len() > 0 {
        lemma_exact_quotient(each as int, raw@.len() as int);
    }
}

proof fn lemma_total_of_equal(raw: Seq<u32>, each: u32)
    requires
        forall|i: int| 0 <= i < raw.len() ==> #[trigger] raw[i] == each,
    ensures
        total(raw) == each * raw.len(),
    decreases raw.len(),
{
    if raw.len() > 0 {
        let shorter = raw.drop_last();
        assert forall|i: int| 0 <= i < shorter.len() implies #[trigger] shorter[i] == each by {
            assert(shorter[i] == raw[i]);
        }
        lemma_total_of_equal(shorter, each);
        assert(each * raw.len() == each * (raw.len() - 1) + each) by (nonlinear_arith);
    } else {
        assert(each * 0 == 0);
    }
}

/// A stream plays mono or stereo. It holds two fifths of a second at the server and a quarter in the
/// ring, writes a fiftieth at a time, begins with a tenth of silence, at the volume that was set, and
/// stays on an output that was named.
pub proof fn a_stream_is_set_up_for_its_rate(
    target: Target,
    spec: SourceSpec,
    volume: SharedVolume,
    r: Result<StreamPlan, String>,
)
    requires
        spec.channels == 1 || spec.channels == 2 ==> spec.sample_rate * (spec.channels * 4) * 2
            <= u32::MAX,
        call_ensures(plan_stream, (&target, spec, &volume), r),
    ensures
        r is Ok <==> spec.channels == 1 || spec.channels == 2,
        r matches Ok(plan) ==> {
            let rate = spec.sample_rate as int;
            &&& plan.no_move <==> target is Named
            &&& plan.muted == volume@.volume.muted
            &&& plan.volumes@.len() == spec.channels
            &&& plan.server_target_frames * 5 <= rate * 2 < (plan.server_target_frames + 1) * 5
            &&& plan.ring_frames * 4 <= rate < (plan.ring_frames + 1) * 4
            &&& plan.period_frames * 50 <= rate < (plan.period_frames + 1) * 50
            &&& plan.prefix_frames * 10 <= rate < (plan.prefix_frames + 1) * 10
            &&& forall|i: int|
                0 <= i < plan.volumes@.len() ==> #[trigger] plan.volumes@[i] == raw_of(
                    volume@.volume.percent as nat,
                )
        },
{
    loudness_is_rounded_to_the_nearest_step(volume@.volume.percent as nat, 100);
}

/// A connection that died is made again once.
pub proof fn a_dead_connection_is_made_again_once(
    attempt: u32,
    outcome: Result<(), String>,
    after: AfterSending,
)
    requires
        call_ensures(after_sending, (attempt, outcome), after),
    ensures
        after is Done <==> outcome is Ok,
        after is Reconnect <==> outcome is Err && attempt == 0,
        after is Fail <==> outcome is Err && attempt > 0,
{
}

/// What the server holds is what it was given without what it took, and nothing runs backwards; audio
/// takes as long to be heard as both latencies together.
pub proof fn what_the_server_holds_was_given_and_not_taken(
    write: i64,
    read: i64,
    sink: u64,
    source: u64,
    r: Timing,
)
    requires
        0 <= read <= write,
        sink + source <= u64::MAX,
        call_ensures(timing_from, (write, read, sink, source), r),
    ensures
        r.read_bytes + r.queued_bytes == r.write_bytes,
        r.write_bytes == write,
        r.sink_latency@ == (sink + source) * 1000,
{
}

/// The stream ends when the output it may not leave goes away, and its volume is read when it is the
/// one that changed; nothing else concerns it.
pub proof fn only_its_own_output_and_stream_concern_it(
    facility: Facility,
    happened: Happened,
    index: Option<u32>,
    sink: Option<(u32, String)>,
    stream: u32,
    r: Watched,
)
    requires
        call_ensures(watched, (facility, happened, index, &sink, stream), r),
    ensures
        r is Gone <==> facility is Sink && happened is Removed && (sink matches Some((n, _))
            && index == Some(n)),
        r is ReadVolume <==> facility is SinkInput && happened is Changed && index == Some(stream),
{
}

/// The outputs changed when one came or went, or when the default may have moved.
pub proof fn outputs_change_when_one_comes_or_goes(facility: Facility, happened: Happened, r: bool)
    requires
        call_ensures(outputs_changed, (facility, happened), r),
    ensures
        r <==> facility is Server || (facility is Sink && !(happened is Changed)),
{
}

/// A drain is over when less than a frame is left in the ring and at the server; it waits until then,
/// but not past its time, and not for an output that is gone.
pub proof fn a_drain_waits_until_nothing_is_left(
    sink: SharedSink,
    ring: Ring,
    timing: Result<Timing, String>,
    late: bool,
    r: Result<DrainStep, DrainError>,
)
    requires
        sink.wf(),
        sink.feeds_from(ring),
        call_ensures(SharedSink::drain_step, (&sink, &ring, timing, late), r),
    ensures
        r matches Ok(DrainStep::Done(wait)) ==> ring@.gone is None && (timing matches Ok(told)
            && ring@.bytes.len() < 4 * sink@.spec.channels && told.queued_bytes < 4
            * sink@.spec.channels && wait == told.sink_latency),
        r == Ok::<DrainStep, DrainError>(DrainStep::Wait) ==> !late && ring@.gone is None,
        ring@.gone is Some ==> r matches Err(DrainError::Gone(_)),
        ring@.gone is None && timing is Err ==> r matches Err(DrainError::Failed(_)),
        r matches Err(DrainError::Late(_)) ==> late,
{
}

/// What can be in flight is what the ring and the server hold, and a second more.
pub proof fn a_second_more_can_be_in_flight(sink: SharedSink, ring: Ring, r: u64)
    requires
        sink.wf(),
        sink.feeds_from(ring),
        call_ensures(SharedSink::capacity_frames, (&sink, &ring), r),
    ensures
        r == ring.capacity() + sink@.target + sink@.spec.sample_rate,
{
}

/// Pausing corks the stream, and resuming, as before a drain, lets it flow.
pub proof fn pausing_corks_the_stream(
    sink: SharedSink,
    paused: Vec<Call>,
    resumed: Vec<Call>,
    drained: Vec<Call>,
)
    requires
        call_ensures(SharedSink::pause, (&sink,), paused),
        call_ensures(SharedSink::resume, (&sink,), resumed),
        call_ensures(SharedSink::drain, (&sink,), drained),
    ensures
        paused@ == seq![Call::Cork(true)],
        resumed@ == seq![Call::Cork(false)],
        drained@ == seq![Call::Cork(false)],
{
}

} // verus!
