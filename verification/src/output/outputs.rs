//! What holds of listing outputs, of reserving a card, and of the device in memory.

use super::catalog::{
    card_entry, default_entry, entries_for, entries_of_cards, name_of, output_entry, EntryView,
    Mode,
};
use super::dbus::{
    bus_name, object_path, taken, Answer, NameReply, Taken, Takeover, HOLDER_ANSWER_TIMEOUT,
    TAKE_RETRIES, TAKE_RETRY_DELAY,
};
use super::device::CardView;
use super::fake::{Device, FakeSink, SinkCall};
use super::reserve::{
    AfterBusy, Ensured, ReserveError, ReservedOpen, BUSY_RETRIES, BUSY_RETRY_DELAY, PRIORITY,
};
use super::shared::pulse::{Output, Target};
use super::{factory_for, Factory, ReleaseRequest};
use crate::config::OutputSpec;
use crate::text::decimal_text;
use crate::words::a_number_that_was_written_reads_back;
use vstd::arithmetic::div_mod::{lemma_fundamental_div_mod, lemma_mod_bound};
use vstd::prelude::*;

verus! {

// ---- the list ----------------------------------------------------------------------------------

/// The id of a card's device is the one that the settings name it by, so what is listed can be
/// chosen; likewise for an output of the sound server, and for its default.
pub proof fn what_is_listed_can_be_chosen(
    card: CardView,
    playback: u32,
    device: String,
    output: Output,
    default: Option<Output>,
)
    requires
        device@ == "hw:"@ + card.id + ","@ + decimal_text(playback as nat),
    ensures
        card_entry(card, playback).id == (OutputSpec::Exclusive { device }).spec_id(),
        output_entry(output).id == (OutputSpec::Shared { sink: Some(output.name) }).spec_id(),
        default_entry(default).id == (OutputSpec::Shared { sink: None }).spec_id(),
{
    reveal_strlit("exclusive:hw:");
    reveal_strlit("exclusive:");
    reveal_strlit("hw:");
    let rest = card.id + ","@ + decimal_text(playback as nat);
    assert("exclusive:hw:"@ =~= "exclusive:"@ + "hw:"@);
    assert(card_entry(card, playback).id =~= "exclusive:"@ + ("hw:"@ + card.id + ","@
        + decimal_text(playback as nat)));
}

/// A card with one device goes by its name, and the devices of one with more are told apart by their
/// numbers; its number and whether it is on USB are said. A card loses nothing.
pub proof fn a_card_goes_by_its_name(card: CardView, playback: u32, other: u32)
    ensures
        card.playback.len() == 1 ==> card_entry(card, playback).name == card.name,
        card.playback.len() > 1 ==> card_entry(card, playback).name == card.name + " (device "@
            + decimal_text(playback as nat) + ")"@,
        card.usb ==> card_entry(card, playback).detail == Some(
            "USB, card "@ + decimal_text(card.index as nat),
        ),
        !card.usb ==> card_entry(card, playback).detail == Some(
            "card "@ + decimal_text(card.index as nat),
        ),
        !card_entry(card, playback).lossy,
        card_entry(card, playback).codec is None,
        !card_entry(card, playback).is_default,
        card_entry(card, playback).mode == Mode::Exclusive,
{
}

/// An output of the sound server goes by its description, and what it is, what codec it uses and
/// whether it loses anything is said; the entry that follows the default says so of the output that
/// is the default now, and is the only one that follows it.
pub proof fn an_output_is_listed_as_it_is(output: Output)
    ensures
        output_entry(output).name == output.description@,
        output_entry(output).lossy == output.lossy,
        output_entry(output).detail == Some(output.kind.text()),
        !output_entry(output).is_default,
        default_entry(Some(output)).is_default,
        default_entry(None).is_default,
        default_entry(Some(output)).lossy == output.lossy,
        !default_entry(None).lossy,
        default_entry(Some(output)).codec == output_entry(output).codec,
        default_entry(Some(output)).detail == output_entry(output).detail,
        output.codec is Some <==> output_entry(output).codec is Some,
        output.codec matches Some(codec) ==> output_entry(output).codec == Some(codec@),
        default_entry(Some(output)).name == "The desktop's default output ("@ + output.description@
            + ")"@,
{
}

/// Every playback device of every card is listed, card by card and in their order, and nothing else.
pub proof fn every_device_of_every_card_is_listed(a: Seq<CardView>, b: Seq<CardView>, i: int)
    ensures
        entries_of_cards(a + b) == entries_of_cards(a) + entries_of_cards(b),
        a.len() == 0 ==> entries_of_cards(a).len() == 0,
        a.len() == 1 ==> entries_of_cards(a).len() == a[0].playback.len(),
        a.len() == 1 && 0 <= i < a[0].playback.len() ==> entries_of_cards(a)[i] == card_entry(
            a[0],
            a[0].playback[i],
        ),
    decreases b.len(),
{
    if b.len() == 0 {
        assert(a + b =~= a);
        assert(entries_of_cards(a) + entries_of_cards(b) =~= entries_of_cards(a));
    } else {
        every_device_of_every_card_is_listed(a, b.drop_last(), i);
        assert((a + b).drop_last() =~= a + b.drop_last());
        assert(entries_of_cards(a + b) =~= entries_of_cards(a) + entries_of_cards(b));
    }
    if a.len() == 1 {
        assert(a.drop_last() =~= Seq::<CardView>::empty());
        assert(entries_of_cards(a.drop_last()).len() == 0);
        assert(entries_of_cards(a) =~= entries_for(a[0]));
    }
}

/// An output is called what the first entry with its id is called; where no entry has it, nothing is
/// made up.
pub proof fn the_first_entry_with_an_id_names_it(entries: Seq<EntryView>, id: Seq<char>)
    ensures
        match name_of(entries, id) {
            Some(name) => exists|i: int|
                0 <= i < entries.len() && (#[trigger] entries[i]).id == id && entries[i].name == name
                    && forall|j: int| 0 <= j < i ==> (#[trigger] entries[j]).id != id,
            None => forall|j: int| 0 <= j < entries.len() ==> (#[trigger] entries[j]).id != id,
        },
    decreases entries.len(),
{
    if entries.len() > 0 && entries[0].id != id {
        let rest = entries.skip(1);
        the_first_entry_with_an_id_names_it(rest, id);
        assert forall|j: int| 1 <= j < entries.len() implies #[trigger] entries[j] == rest[j
            - 1] by {}
        if let Some(name) = name_of(rest, id) {
            let i = choose|i: int|
                0 <= i < rest.len() && (#[trigger] rest[i]).id == id && rest[i].name == name
                    && forall|j: int| 0 <= j < i ==> (#[trigger] rest[j]).id != id;
            assert(entries[i + 1].id == id);
            assert forall|j: int| 0 <= j < i + 1 implies (#[trigger] entries[j]).id != id by {
                if j > 0 {
                    assert(entries[j] == rest[j - 1]);
                }
            }
        }
    } else if entries.len() > 0 {
        assert(entries[0].id == id);
    }
}

// ---- reserving ---------------------------------------------------------------------------------

/// A busy device is tried again as long as tries are left. Once none is, it is said that a program
/// without reservation has it, if the card was taken from someone; that there was no bus, if there
/// was none; and nothing more otherwise.
pub proof fn a_busy_device_is_tried_again_or_explained(open: ReservedOpen)
    ensures
        open.verdict() == AfterBusy::Retry <==> open.left() > 0,
        open.verdict() == AfterBusy::StillBusy <==> open.left() == 0 && open.from_another(),
        open.verdict() == AfterBusy::NoBus <==> open.left() == 0 && !open.from_another()
            && open.without_bus(),
        open.verdict() == AfterBusy::Fail <==> open.left() == 0 && !open.from_another()
            && !open.without_bus(),
{
}

/// phonia asks with priority ten; a device that stays busy after a takeover is tried twenty times,
/// for a second in all; a holder gets three seconds to answer, and its name is asked for ten times,
/// for a second in all.
pub proof fn a_card_is_asked_for_patiently()
    ensures
        PRIORITY == 10,
        BUSY_RETRIES == 20,
        BUSY_RETRIES * BUSY_RETRY_DELAY == 1_000_000_000,
        HOLDER_ANSWER_TIMEOUT == 3_000_000_000,
        TAKE_RETRIES == 10,
        TAKE_RETRIES * TAKE_RETRY_DELAY == 1_000_000_000,
{
}

// ---- the device in memory ----------------------------------------------------------------------

/// Time that passes plays what is queued, oldest first, as much as there is; a paused device plays
/// nothing.
pub proof fn time_plays_what_is_queued(device: Device, count: nat)
    ensures
        device.paused ==> device.advance(count as int) == device,
        !device.paused && count <= device.queued.len() ==> {
            let after = device.advance(count as int);
            &&& after.queued.len() == device.queued.len() - count
            &&& after.played.len() == device.played.len() + count
            &&& after.played + after.queued == device.played + device.queued
            &&& after == (Device { played: after.played, queued: after.queued, ..device })
        },
        !device.paused && count > device.queued.len() ==> {
            let after = device.advance(count as int);
            &&& after.queued.len() == 0
            &&& after.played == device.played + device.queued
            &&& after == (Device { played: after.played, queued: after.queued, ..device })
        },
{
    let after = device.advance(count as int);
    if !device.paused {
        assert(after.played + after.queued =~= device.played + device.queued);
        if count > device.queued.len() {
            assert(after.played =~= device.played + device.queued);
        }
    }
}

/// A flush plays nothing of what is queued and a drain plays all of it; both are counted, and both
/// end a pause.
pub proof fn a_flush_drops_and_a_drain_plays(device: Device)
    requires
        device.flushes < u32::MAX,
        device.drains < u32::MAX,
    ensures
        device.flush().queued.len() == 0,
        device.flush().played == device.played,
        device.flush().flushes == device.flushes + 1,
        device.flush().drains == device.drains,
        !device.flush().paused,
        device.drain().queued.len() == 0,
        device.drain().played == device.played + device.queued,
        device.drain().drains == device.drains + 1,
        device.drain().flushes == device.flushes,
        !device.drain().paused,
{
    assert(device.drain().played =~= device.played + device.queued);
}

/// What is written goes behind what is queued, or is heard at once by a device that plays by itself;
/// what there is no room for pushes out the oldest, which are heard.
pub proof fn what_is_written_goes_behind_what_is_queued(
    device: Device,
    samples: Seq<i32>,
    capacity: nat,
)
    requires
        samples.len() <= capacity,
        device.queued.len() <= capacity,
    ensures
        device.autoplay ==> device.write(samples, capacity as int) == (Device {
            played: device.played + samples,
            ..device
        }),
        !device.autoplay ==> {
            let after = device.write(samples, capacity as int);
            &&& after.played + after.queued == device.played + device.queued + samples
            &&& after.queued.len() <= capacity
            &&& device.queued.len() + samples.len() <= capacity ==> after.played == device.played
            &&& device.queued.len() + samples.len() > capacity ==> after.queued.len() == capacity
        },
        device.blocks(samples.len() as int, capacity as int) <==> device.blocking && !device.autoplay
            && device.queued.len() + samples.len() > capacity,
{
    let after = device.write(samples, capacity as int);
    if !device.autoplay {
        assert(after.played + after.queued =~= device.played + device.queued + samples);
    }
}

/// One write takes whole frames: as many as there are, but no more than a period; and none while the
/// device is paused, or blocks.
pub proof fn the_device_takes_whole_frames(sink: FakeSink, device: Device, samples: Seq<i32>)
    requires
        sink.wf(),
    ensures
        ({
            let taken = sink.taken(samples.len());
            let channels = sink.spec_of().channels;
            &&& taken * channels <= samples.len()
            &&& taken <= sink.period()
            &&& taken == sink.period() || samples.len() < (taken + 1) * channels
            &&& device.paused ==> sink.accepts(device, samples) is None
            &&& sink.accepts(device, samples) matches Some(all) ==> all.len() == taken * channels
                && all.is_prefix_of(samples)
            &&& !device.paused && !device.blocking ==> sink.accepts(device, samples) is Some
        }),
{
    let channels = sink.spec_of().channels as int;
    let count = samples.len() as int;
    lemma_fundamental_div_mod(count, channels);
    lemma_mod_bound(count, channels);
    let all = count / channels;
    let taken = sink.taken(samples.len()) as int;
    assert(all >= 0) by (nonlinear_arith)
        requires
            count == channels * all + count % channels,
            count >= 0,
            count % channels < channels,
            channels > 0,
    ;
    assert(0 <= taken * channels <= count) by (nonlinear_arith)
        requires
            0 <= taken <= all,
            count == channels * all + count % channels,
            count % channels >= 0,
            channels > 0,
    ;
    if taken == all {
        assert(count < (taken + 1) * channels) by (nonlinear_arith)
            requires
                taken == all,
                count == channels * all + count % channels,
                count % channels < channels,
        ;
    }
}

/// Pausing and resuming change nothing else, and neither do the switches of the device.
pub proof fn switches_change_nothing_else(sink: FakeSink, device: Device, on: bool)
    ensures
        sink.after(device, SinkCall::Pause) == (Device { paused: true, ..device }),
        sink.after(device, SinkCall::Resume) == (Device { paused: false, ..device }),
        sink.after(device, SinkCall::SetBlocking(on)) == (Device { blocking: on, ..device }),
        sink.after(device, SinkCall::SetAutoplay(on)) == (Device { autoplay: on, ..device }),
{
}

// ---- what the functions give -------------------------------------------------------------------

/// The names by which a card is asked for end in its number, so no two cards share one.
pub proof fn each_card_has_a_name_on_the_bus(a: u32, b: u32, name: String, other: String, path: String)
    requires
        call_ensures(bus_name, (a,), name),
        call_ensures(bus_name, (b,), other),
        call_ensures(object_path, (a,), path),
    ensures
        name@ == other@ <==> a == b,
        name@ == "org.freedesktop.ReserveDevice1.Audio"@ + decimal_text(a as nat),
        path@ == "/org/freedesktop/ReserveDevice1/Audio"@ + decimal_text(a as nat),
{
    let prefix = "org.freedesktop.ReserveDevice1.Audio"@;
    assert((prefix + decimal_text(a as nat)).skip(prefix.len() as int) =~= decimal_text(a as nat));
    assert((prefix + decimal_text(b as nat)).skip(prefix.len() as int) =~= decimal_text(b as nat));
    a_number_that_was_written_reads_back(a as nat, u32::MAX as nat);
    a_number_that_was_written_reads_back(b as nat, u32::MAX as nat);
}

/// A name is ours if the bus made us its owner, now or before; one that someone else has is not, and
/// a request that failed tells nothing.
pub proof fn a_name_is_ours_if_the_bus_says_so(reply: NameReply, r: Result<Taken, ReserveError>)
    requires
        call_ensures(taken, (reply,), r),
    ensures
        r == Ok::<Taken, ReserveError>(Taken::Yes) <==> reply is PrimaryOwner || reply
            is AlreadyOwner,
        r == Ok::<Taken, ReserveError>(Taken::No) <==> reply is InQueue || reply is Exists || reply
            is Taken,
        r is Err <==> reply is Failed,
{
}

/// A holder that agreed gives the card up; one that refuses or does not answer keeps it, and is named.
pub proof fn a_holder_gives_the_card_up_if_it_agrees(
    takeover: Takeover,
    answer: Answer,
    r: Result<(), ReserveError>,
)
    requires
        call_ensures(Takeover::answered, (&takeover, answer), r),
    ensures
        r is Ok <==> answer is Agreed,
        r matches Err(ReserveError::Refused { device, holder, priority }) ==> answer is Refused
            && device@ == takeover.of() && holder@ == takeover.from() && priority
            == takeover.against(),
        r matches Err(ReserveError::Unresponsive { device, holder }) ==> answer is Silent && device@
            == takeover.of() && holder@ == takeover.from(),
{
}

/// A device is opened once its card is reserved, and also where there is no bus to reserve it on; it
/// is tried again only if the card was just taken from someone. Any other failure is one.
pub proof fn a_device_is_opened_once_its_card_is_reserved(
    outcome: Result<Ensured, ReserveError>,
    retries: u32,
    r: Result<ReservedOpen, ReserveError>,
)
    requires
        call_ensures(ReservedOpen::reserved, (outcome, retries), r),
    ensures
        r is Ok <==> outcome is Ok || (outcome matches Err(ReserveError::NoBus(_))),
        r matches Ok(open) ==> {
            &&& open.without_bus() <==> outcome is Err
            &&& open.from_another() <==> (outcome matches Ok(Ensured::Acquired { took_over })
                && took_over)
            &&& open.from_another() ==> open.left() == retries
            &&& !open.from_another() ==> open.left() == 0
        },
        r matches Err(why) ==> outcome == Err::<Ensured, ReserveError>(why),
{
}

/// The card is given up only to a program that matters more than phonia does.
pub proof fn the_card_is_given_up_to_what_matters_more(request: ReleaseRequest, r: bool)
    requires
        call_ensures(ReleaseRequest::matters_more, (&request,), r),
    ensures
        r <==> request.priority > 10,
{
}

/// A card of phonia's own is asked for with priority ten unless that is off; a shared output is the
/// one that was named, or the default.
pub proof fn an_output_is_opened_as_it_was_chosen(spec: OutputSpec, reserve: bool, r: Factory)
    requires
        call_ensures(factory_for, (&spec, reserve), r),
    ensures
        spec matches OutputSpec::Exclusive { device } ==> (r matches Factory::Exclusive {
            device: d,
            reserve: asks,
        } && d == device && (asks is Some <==> reserve) && (asks matches Some(n) ==> n == 10)),
        spec matches OutputSpec::Shared { sink } ==> (r matches Factory::Shared(target) && (sink
            is None ==> target is Default) && (target matches Target::Named(n) ==> (sink matches Some(
            name,
        ) && name@ == n@)) && (sink matches Some(name) ==> (target is Default <==> name@
            == "default"@))),
{
}

} // verus!
