//! The fake sink and the fake reserver, and the rules of reserving a card.

use phonia_core::decode::SourceSpec;
use phonia_core::output::dbus::{
    bus_name, object_path, taken, Answer, NameReply, TakeStep, Taken, Takeover, TAKE_RETRIES,
};
use phonia_core::output::fake::{
    Accepted, FakeReservation, FakeReserver, FakeSink, FakeSinkFactory, FakeSinkHandle,
};
use phonia_core::output::reserve::{
    no_bus_note, AfterBusy, DeviceBusy, Ensured, ReservationSlot, ReserveError, ReservedOpen,
    ToReserve, BUSY_RETRIES,
};

const SPEC: SourceSpec = SourceSpec { sample_rate: 48_000, channels: 2, bits_per_sample: 24 };

/// `frames` stereo frames whose samples are unique and increasing, so any loss, duplication
/// or reordering shows up in an equality check.
fn ramp(from_frame: usize, frames: usize) -> Vec<i32> {
    (from_frame * 2..(from_frame + frames) * 2).map(|i| i as i32).collect()
}

/// Writes as long as the sink takes something, and returns how many samples it took.
fn write_all(sink: &mut FakeSink, handle: &mut FakeSinkHandle, samples: &[i32]) -> usize {
    let mut offset = 0;
    while offset < samples.len() {
        match sink.write(handle, &samples[offset..]).unwrap() {
            Accepted::Frames(frames) => offset += frames * SPEC.channels as usize,
            Accepted::Full => break,
        }
    }
    offset
}

#[test]
fn write_accepts_at_most_one_period() {
    let (mut sink, mut handle) = FakeSink::with_sizes(SPEC, 100, 1000);
    assert_eq!(sink.write(&mut handle, &ramp(0, 250)).unwrap(), Accepted::Frames(100));
    assert_eq!(sink.write(&mut handle, &ramp(0, 30)).unwrap(), Accepted::Frames(30));
}

#[test]
fn written_audio_is_queued_until_the_dac_plays_it() {
    let (mut sink, mut handle) = FakeSink::with_sizes(SPEC, 100, 1000);
    write_all(&mut sink, &mut handle, &ramp(0, 250));
    assert_eq!(sink.delay_frames(&handle), 250);
    assert!(handle.played().is_empty());

    handle.advance(100);
    assert_eq!(handle.played(), ramp(0, 100));
    assert_eq!(sink.delay_frames(&handle), 150);
}

#[test]
fn overflowing_the_queue_plays_the_oldest_audio_like_a_blocking_write() {
    let (mut sink, mut handle) = FakeSink::with_sizes(SPEC, 100, 200);
    write_all(&mut sink, &mut handle, &ramp(0, 500));
    assert_eq!(sink.delay_frames(&handle), 200);
    assert_eq!(handle.played(), ramp(0, 300));
}

#[test]
fn pause_then_resume_yields_an_identical_stream() {
    let (mut sink, mut handle) = FakeSink::with_sizes(SPEC, 100, 1000);
    write_all(&mut sink, &mut handle, &ramp(0, 300));
    handle.advance(120);

    sink.pause(&mut handle);
    assert!(handle.is_paused());
    handle.advance(1000); // time passes; the DAC must not move while paused
    assert_eq!(handle.played(), ramp(0, 120));
    assert_eq!(sink.delay_frames(&handle), 180);

    sink.resume(&mut handle);
    write_all(&mut sink, &mut handle, &ramp(300, 100));
    sink.drain(&mut handle);
    assert_eq!(handle.played(), ramp(0, 400));
}

#[test]
fn writing_while_paused_is_rejected() {
    let (mut sink, mut handle) = FakeSink::new(SPEC);
    sink.pause(&mut handle);
    assert!(sink.write(&mut handle, &ramp(0, 10)).is_err());
}

#[test]
fn flush_discards_queued_audio_and_unpauses() {
    let (mut sink, mut handle) = FakeSink::with_sizes(SPEC, 100, 1000);
    write_all(&mut sink, &mut handle, &ramp(0, 300));
    handle.advance(50);
    sink.pause(&mut handle);

    sink.flush(&mut handle);
    assert_eq!(sink.delay_frames(&handle), 0);
    assert!(!handle.is_paused());
    assert_eq!(handle.flush_count(), 1);

    write_all(&mut sink, &mut handle, &ramp(1000, 50));
    sink.drain(&mut handle);
    let mut expected = ramp(0, 50);
    expected.extend(ramp(1000, 50));
    assert_eq!(handle.played(), expected, "flushed audio must never be heard");
}

#[test]
fn drain_plays_everything_queued() {
    let (mut sink, mut handle) = FakeSink::with_sizes(SPEC, 100, 1000);
    write_all(&mut sink, &mut handle, &ramp(0, 250));
    sink.drain(&mut handle);
    assert_eq!(handle.played(), ramp(0, 250));
    assert_eq!(handle.drain_count(), 1);
    assert_eq!(handle.queued_frames(), 0);
}

#[test]
fn autoplay_plays_writes_immediately() {
    let (mut sink, mut handle) = FakeSink::with_sizes(SPEC, 100, 1000);
    handle.set_autoplay(true);
    write_all(&mut sink, &mut handle, &ramp(0, 250));
    assert_eq!(sink.delay_frames(&handle), 0);
    assert_eq!(handle.played(), ramp(0, 250));
}

#[test]
fn factory_opens_sinks_in_the_requested_mode_and_keeps_their_handles() {
    let mut factory = FakeSinkFactory::autoplay();
    let mut sink = factory.open(SPEC).unwrap();
    sink.write(factory.handle_mut(0), &ramp(0, 10)).unwrap();
    assert_eq!(factory.handles().len(), 1);
    assert_eq!(factory.handles()[0].played(), ramp(0, 10));

    factory.open(SPEC).unwrap();
    assert_eq!(factory.handles().len(), 2);
}

#[test]
fn a_write_that_would_block_takes_nothing_until_the_dac_makes_room() {
    let (mut sink, mut handle) = FakeSink::with_sizes(SPEC, 100, 200);
    handle.set_blocking(true);
    assert_eq!(write_all(&mut sink, &mut handle, &ramp(0, 200)), 400); // exactly fills the queue
    assert_eq!(sink.write(&mut handle, &ramp(200, 100)).unwrap(), Accepted::Full);
    assert_eq!(handle.queued_frames(), 200);

    handle.advance(100);
    assert_eq!(write_all(&mut sink, &mut handle, &ramp(200, 100)), 200);
    sink.drain(&mut handle);
    assert_eq!(handle.played(), ramp(0, 300));
}

#[test]
fn failures_come_one_open_at_a_time_and_add_no_sink() {
    let mut factory = FakeSinkFactory::autoplay();
    factory.open(SPEC).unwrap();
    factory.fail_next_open("one".to_string());
    factory.fail_next_open("two".to_string());
    factory.release();
    assert_eq!(factory.open(SPEC).unwrap_err(), "one");
    assert_eq!(factory.open(SPEC).unwrap_err(), "two");
    assert_eq!(factory.handles().len(), 1);
    let other = SourceSpec { sample_rate: 44_100, ..SPEC };
    factory.open(other).unwrap();
    let formats: Vec<SourceSpec> = factory.handles().iter().map(|handle| handle.spec()).collect();
    assert_eq!(formats, [SPEC, other]);
}

#[test]
fn whatever_is_done_what_was_taken_is_played_or_queued() {
    let (mut sink, mut handle) = FakeSink::with_sizes(SPEC, 100, 250);
    let mut taken: Vec<i32> = Vec::new();
    for round in 0..9 {
        let samples = ramp(round * 100, 100);
        if let Ok(Accepted::Frames(frames)) = sink.write(&mut handle, &samples) {
            taken.extend_from_slice(&samples[..frames * 2]);
        }
        match round % 4 {
            0 => handle.advance(30),
            1 => sink.pause(&mut handle),
            2 => sink.resume(&mut handle),
            _ => handle.set_blocking(round > 5),
        }
        assert!(taken.starts_with(&handle.played()));
        assert_eq!(handle.played().len() + handle.queued_frames() * 2, taken.len());
        assert!(handle.queued_frames() <= 250);
    }
    sink.drain(&mut handle);
    assert_eq!(handle.played(), taken);
}

#[test]
fn a_factory_fails_when_it_is_told_to_and_counts_what_is_given_back() {
    let mut factory = FakeSinkFactory::blocking();
    factory.fail_next_open("busy".to_string());
    assert_eq!(factory.open(SPEC).err().unwrap(), "busy");
    assert!(factory.open(SPEC).is_ok());
    factory.release();
    assert_eq!(factory.release_count(), 1);
    assert!(factory.request_release(None, 20).is_none(), "nobody listens");
    factory.on_release_request();
    assert_eq!(factory.request_release(Some("jackd".into()), 20).unwrap().priority, 20);
}

// ---- reserving ---------------------------------------------------------------------------------

fn busy() -> DeviceBusy {
    DeviceBusy { device: "hw:2,0".into(), detail: "EBUSY".into() }
}

type Slot = ReservationSlot<FakeReservation>;

/// Makes sure that card `card` is reserved.
fn ensure(slot: &mut Slot, reserver: &mut FakeReserver, card: u32) -> Result<Ensured, ReserveError> {
    match slot.ensure(card) {
        ToReserve::AlreadyHeld => Ok(Ensured::AlreadyHeld),
        ToReserve::Acquire(stale) => {
            if let Some(stale) = stale {
                reserver.give_back(stale);
            }
            let reservation = reserver.acquire(card)?;
            let took_over = reservation.took_over();
            Ok(slot.acquired(card, reservation, took_over))
        }
    }
}

fn release(slot: &mut Slot, reserver: &mut FakeReserver) {
    if let Some(reservation) = slot.release() {
        reserver.give_back(reservation);
    }
}

/// Opens a device under a reservation of its card, if it has one.
fn open_reserved_with<T>(
    slot: &mut Slot,
    reserver: &mut FakeReserver,
    card: Option<u32>,
    retries: u32,
    open: &mut dyn FnMut(&FakeReserver) -> Result<T, DeviceBusy>,
) -> Result<T, String> {
    let mut reserved = match card {
        None => ReservedOpen::unreserved(),
        Some(card) => ReservedOpen::reserved(ensure(slot, reserver, card), retries)
            .map_err(|e| e.message())?,
    };
    loop {
        let error = match open(reserver) {
            Ok(opened) => return Ok(opened),
            Err(error) => error,
        };
        let verdict = reserved.busy();
        if verdict != AfterBusy::Retry {
            return Err(match verdict.note() {
                Some(note) => format!("{note}: {}", error.message()),
                None => error.message(),
            });
        }
    }
}

#[test]
fn the_same_card_is_reserved_only_once() {
    let mut reserver = FakeReserver::new();
    let mut slot = Slot::new();
    assert_eq!(ensure(&mut slot, &mut reserver, 2).unwrap(), Ensured::Acquired { took_over: false });
    assert_eq!(ensure(&mut slot, &mut reserver, 2).unwrap(), Ensured::AlreadyHeld);
    assert_eq!(*reserver.log(), ["acquire 2"]);
}

#[test]
fn another_card_number_replaces_the_reservation() {
    let mut reserver = FakeReserver::new();
    let mut slot = Slot::new();
    ensure(&mut slot, &mut reserver, 2).unwrap();
    ensure(&mut slot, &mut reserver, 3).unwrap();
    assert_eq!(*reserver.log(), ["acquire 2", "release 2", "acquire 3"]);
    assert_eq!(slot.held_card(), Some(3));
}

#[test]
fn release_is_idempotent() {
    let mut reserver = FakeReserver::new();
    let mut slot = Slot::new();
    ensure(&mut slot, &mut reserver, 2).unwrap();
    release(&mut slot, &mut reserver);
    release(&mut slot, &mut reserver);
    assert_eq!(*reserver.log(), ["acquire 2", "release 2"]);
    assert_eq!(slot.held_card(), None);
}

#[test]
fn a_refusal_keeps_nothing_held_and_can_be_retried() {
    let mut reserver = FakeReserver::new();
    reserver.script(Err(ReserveError::Refused {
        device: "hw:DS2,0".into(),
        holder: "jackd".into(),
        priority: Some(99),
    }));
    let mut slot = Slot::new();
    let error = ensure(&mut slot, &mut reserver, 2).unwrap_err().message();
    assert!(error.contains("jackd") && error.contains("reserve = false"), "{error}");
    assert_eq!(slot.held_card(), None);
    assert!(ensure(&mut slot, &mut reserver, 2).is_ok(), "the next attempt is granted");
}

#[test]
fn the_card_is_reserved_before_it_is_opened() {
    let mut reserver = FakeReserver::new();
    let mut slot = Slot::new();
    let opened = open_reserved_with(&mut slot, &mut reserver, Some(2), BUSY_RETRIES, &mut |reserver| {
        assert_eq!(*reserver.log(), ["acquire 2"], "reserved before the open");
        Ok(7)
    })
    .unwrap();
    assert_eq!(opened, 7);
}

#[test]
fn devices_without_a_card_are_never_reserved() {
    let mut reserver = FakeReserver::new();
    let mut slot = Slot::new();
    open_reserved_with(&mut slot, &mut reserver, None, BUSY_RETRIES, &mut |_| Ok(())).unwrap();
    assert!(reserver.log().is_empty());
}

#[test]
fn a_refusal_stops_the_open() {
    let mut reserver = FakeReserver::new();
    reserver.script(Err(ReserveError::Unresponsive {
        device: "hw:2,0".into(),
        holder: "jackd".into(),
    }));
    let mut slot = Slot::new();
    let mut opened = false;
    let result = open_reserved_with(&mut slot, &mut reserver, Some(2), BUSY_RETRIES, &mut |_| {
        opened = true;
        Ok(())
    });
    assert!(result.is_err());
    assert!(!opened, "the device must not be opened after a failed reservation");
}

#[test]
fn without_a_bus_the_open_goes_ahead() {
    let mut reserver = FakeReserver::new();
    reserver.script(Err(ReserveError::NoBus("no session".into())));
    let mut slot = Slot::new();
    assert_eq!(
        open_reserved_with(&mut slot, &mut reserver, Some(2), BUSY_RETRIES, &mut |_| Ok(1)).unwrap(),
        1
    );
}

#[test]
fn without_a_bus_a_busy_device_explains_why() {
    let mut reserver = FakeReserver::new();
    reserver.script(Err(ReserveError::NoBus("no session".into())));
    let mut slot = Slot::new();
    let error = open_reserved_with(
        &mut slot,
        &mut reserver,
        Some(2),
        BUSY_RETRIES,
        &mut |_| -> Result<(), DeviceBusy> { Err(busy()) },
    )
    .unwrap_err();
    assert!(error.contains("no D-Bus session"), "{error}");
}

#[test]
fn a_busy_device_is_retried_only_after_taking_the_card_from_someone() {
    let mut attempts = 0;
    let mut reserver = FakeReserver::new();
    reserver.script(Ok(true));
    let mut slot = Slot::new();
    open_reserved_with(&mut slot, &mut reserver, Some(2), 5, &mut |_| {
        attempts += 1;
        if attempts < 3 { Err(busy()) } else { Ok(()) }
    })
    .unwrap();
    assert_eq!(attempts, 3, "took over: retried until the holder let go");

    attempts = 0;
    let mut reserver = FakeReserver::new();
    let mut slot = Slot::new();
    let error = open_reserved_with(&mut slot, &mut reserver, Some(2), 5, &mut |_| {
        attempts += 1;
        if attempts < 3 { Err(busy()) } else { Ok(()) }
    })
    .unwrap_err();
    assert_eq!(attempts, 1, "card was free: a busy device is somebody else's, no retry");
    assert_eq!(error, busy().message());
}

#[test]
fn a_device_that_stays_busy_after_a_takeover_says_so() {
    let mut reserver = FakeReserver::new();
    reserver.script(Ok(true));
    let mut slot = Slot::new();
    let error = open_reserved_with(
        &mut slot,
        &mut reserver,
        Some(2),
        2,
        &mut |_| -> Result<(), DeviceBusy> { Err(busy()) },
    )
    .unwrap_err();
    assert!(error.contains("does not use device reservation"), "{error}");
}

#[test]
fn what_stands_in_the_way_of_a_reservation_is_said() {
    assert_eq!(
        ReserveError::NoBus("no session".into()).message(),
        "no D-Bus session to reserve the DAC on: no session"
    );
    assert_eq!(
        ReserveError::Unresponsive { device: "hw:2,0".into(), holder: "jackd".into() }.message(),
        "jackd did not answer the request to release hw:2,0 in time"
    );
    assert_eq!(ReserveError::Failed("x".into()).message(), "could not reserve the DAC: x");
    let refused = |priority| {
        ReserveError::Refused { device: "hw:2,0".into(), holder: "jackd".into(), priority }.message()
    };
    assert!(refused(Some(-20)).starts_with("the DAC hw:2,0 is held by jackd (priority -20), which refused"));
    assert!(refused(None).starts_with("the DAC hw:2,0 is held by jackd, which refused"));
    assert_eq!(no_bus_note("no session"), "phonia: not asking the desktop to release the DAC: no session");
}

// ---- taking a card from its holder -------------------------------------------------------------

#[test]
fn a_card_has_a_name_and_a_path_on_the_bus() {
    assert_eq!(bus_name(2), "org.freedesktop.ReserveDevice1.Audio2");
    assert_eq!(object_path(11), "/org/freedesktop/ReserveDevice1/Audio11");
}

#[test]
fn the_bus_says_who_has_the_name() {
    assert_eq!(taken(NameReply::PrimaryOwner), Ok(Taken::Yes));
    assert_eq!(taken(NameReply::AlreadyOwner), Ok(Taken::Yes));
    assert_eq!(taken(NameReply::InQueue), Ok(Taken::No));
    assert_eq!(taken(NameReply::Exists), Ok(Taken::No));
    assert_eq!(taken(NameReply::Taken), Ok(Taken::No));
    assert_eq!(taken(NameReply::Failed("x".into())), Err(ReserveError::Failed("x".into())));
}

#[test]
fn a_holder_is_asked_and_then_waited_for() {
    let mut takeover = Takeover::new("hw:2,0".into(), None, Some(0));
    assert_eq!(
        takeover.answered(Answer::Refused),
        Err(ReserveError::Refused {
            device: "hw:2,0".into(),
            holder: "another program".into(),
            priority: Some(0)
        })
    );
    assert_eq!(
        takeover.answered(Answer::Silent),
        Err(ReserveError::Unresponsive {
            device: "hw:2,0".into(),
            holder: "another program".into()
        })
    );
    assert_eq!(takeover.answered(Answer::Agreed), Ok(()));
    for _ in 1..TAKE_RETRIES {
        assert_eq!(takeover.asked(Ok(Taken::No)), TakeStep::Again);
    }
    assert_eq!(
        takeover.asked(Ok(Taken::No)),
        TakeStep::Fail(ReserveError::Failed(
            "another program agreed to release hw:2,0, but the card is still reserved".into()
        ))
    );
    let mut quick = Takeover::new("hw:2,0".into(), Some("jackd".into()), None);
    assert_eq!(quick.asked(Ok(Taken::No)), TakeStep::Again);
    assert_eq!(quick.asked(Ok(Taken::Yes)), TakeStep::Done);
}
