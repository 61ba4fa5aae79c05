//! Playing through the desktop's sound server: its outputs, the volume, the ring and the stream.

use phonia_core::config::OutputSpec;
use phonia_core::decode::SourceSpec;
use phonia_core::output::catalog::{describe, shared, Mode};
use phonia_core::output::shared::pulse::{
    after_missing, after_sending, classify, connection_lost, find_stream, format_outputs,
    output_from, outputs_changed, percent_from_raw, plan_stream, props_of, raw_from_percent,
    stream_volume, timing_from, watched, AfterSending, Facility, Happened, Output, OutputKind,
    SharedRoute, SharedVolume, SinkInfo, StreamInfo, Target, ToSend, Watched,
};
use phonia_core::output::shared::ring::{Patience, Ring, RingWrite};
use phonia_core::output::shared::{Call, DrainError, DrainStep, SharedSink, Timing};
use phonia_core::output::{factory_for, Factory, OutputGone, ReleaseRequest, Volume};
use phonia_core::time::Duration;
use pulseaudio::protocol;

fn at(millis: u64) -> Duration {
    Duration::from_millis(millis)
}

fn props(pairs: &[(&str, &str)]) -> Vec<(String, String)> {
    pairs.iter().map(|(k, v)| (k.to_string(), v.to_string())).collect()
}

fn output(
    name: &str,
    description: &str,
    kind: OutputKind,
    codec: Option<&str>,
    lossy: bool,
    is_default: bool,
) -> Output {
    Output {
        name: name.into(),
        description: description.into(),
        kind,
        codec: codec.map(str::to_string),
        lossy,
        rate: 48_000,
        index: 1,
        is_default,
    }
}

#[test]
fn shared_outputs_start_with_the_default_and_carry_their_kind_and_codec() {
    let entries = shared(&vec![
        output("alsa_output.usb-DS2", "Fosi Audio DS2", OutputKind::Usb, None, false, true),
        output("bluez_output.AA", "Soundcore Life P2", OutputKind::Bluetooth, Some("SBC"), true, false),
    ]);
    assert_eq!(
        entries.iter().map(|entry| entry.id.as_str()).collect::<Vec<_>>(),
        ["shared:default", "shared:alsa_output.usb-DS2", "shared:bluez_output.AA"]
    );
    assert_eq!(entries[0].name, "The desktop's default output (Fosi Audio DS2)");
    assert!(entries[0].is_default && !entries[1].is_default);
    assert!(entries.iter().all(|entry| !entry.bit_perfect && entry.mode == Mode::Shared));
    let bluetooth = &entries[2];
    assert_eq!((bluetooth.lossy, bluetooth.codec.as_deref(), bluetooth.detail.as_deref()), (true, Some("SBC"), Some("Bluetooth")));
}

#[test]
fn the_default_entry_is_there_even_when_the_server_has_no_outputs() {
    let entries = shared(&vec![]);
    assert_eq!(entries.len(), 1);
    assert_eq!(entries[0].id, "shared:default");
}

#[test]
fn a_spec_is_described_by_its_entry_or_by_itself() {
    let entries = shared(&vec![output("bluez_output.AA", "Soundcore Life P2", OutputKind::Bluetooth, Some("SBC"), true, false)]);
    let listed = OutputSpec::Shared { sink: Some("bluez_output.AA".into()) };
    assert_eq!(describe(&listed, &entries), "Soundcore Life P2");
    let unlisted = OutputSpec::Exclusive { device: "hw:DS2,0".into() };
    assert_eq!(describe(&unlisted, &entries), "device hw:DS2,0");
}

#[test]
fn a_bluetooth_output_is_lossy_and_names_its_codec() {
    let (kind, codec, lossy) = classify(
        "bluez_output.AA_BB_CC.1",
        &props(&[("device.api", "bluez5"), ("api.bluez5.codec", "ldac")]),
    );
    assert_eq!((kind, codec.as_deref(), lossy), (OutputKind::Bluetooth, Some("LDAC"), true));

    let (kind, codec, lossy) = classify("bluez_output.AA_BB_CC.1", &props(&[]));
    assert_eq!((kind, codec, lossy), (OutputKind::Bluetooth, None, true), "recognised by name too");
}

#[test]
fn cards_are_classified_by_bus_and_name() {
    let usb = "alsa_output.usb-Speed_Dragon_Fosi_Audio_DS2_5000000001-01.analog-stereo";
    assert_eq!(classify(usb, &props(&[])).0, OutputKind::Usb);
    assert_eq!(classify("x", &props(&[("device.bus", "usb")])).0, OutputKind::Usb);
    assert_eq!(classify("alsa_output.pci-0000_00_1f.3-platform-skl_hda_dsp_generic.HiFi__HDMI1__sink", &props(&[])).0, OutputKind::Hdmi);
    assert_eq!(
        classify("alsa_output.pci-0000_00_1f.3-platform-skl_hda_dsp_generic.HiFi__Speaker__sink", &props(&[])).0,
        OutputKind::Internal
    );
    assert_eq!(classify("phonia_spike", &props(&[])), (OutputKind::Other, None, false));
}

#[test]
fn a_wired_output_is_not_lossy() {
    assert!(!classify("alsa_output.usb-x", &props(&[])).2);
}

#[test]
fn the_output_list_shows_the_default_and_marks_bluetooth_as_lossy() {
    let text = format_outputs(&vec![
        output("alsa_output.usb-DS2", "Fosi Audio DS2 Analog Stereo", OutputKind::Usb, None, false, true),
        output("bluez_output.AA", "Soundcore Life P2", OutputKind::Bluetooth, Some("SBC"), true, false),
    ]);
    assert_eq!(
        text,
        "PipeWire outputs, shared and NOT bit-perfect (set mode = \"shared\" and sink = \"<name>\" under [output]):\n\
         \x20 * default              the desktop's default output, now Fosi Audio DS2 Analog Stereo\n\
         \x20   alsa_output.usb-DS2  Fosi Audio DS2 Analog Stereo  (USB)\n\
         \x20   bluez_output.AA      Soundcore Life P2  (Bluetooth, SBC, lossy)\n\
         A named output is never swapped for another if it goes away; \"default\" follows the desktop."
    );
}

#[test]
fn an_empty_server_says_so() {
    assert!(format_outputs(&vec![]).contains("no outputs"));
}

#[test]
fn the_target_names_the_default_or_one_output() {
    assert_eq!(Target::parse(None), Target::Default);
    assert_eq!(Target::parse(Some("default")), Target::Default);
    assert_eq!(Target::parse(Some("bluez_output.AA")), Target::Named("bluez_output.AA".into()));
}

#[test]
fn server_properties_are_read_as_text_without_their_terminator() {
    let mut p = protocol::Props::new();
    p.set(protocol::Prop::MediaRole, c"music");
    let raw: Vec<(Vec<u8>, Vec<u8>)> =
        p.iter().map(|(key, value)| (key.to_bytes().to_vec(), value.to_vec())).collect();
    assert_eq!(props_of(&raw), [("media.role".to_string(), "music".to_string())]);

    let mut more = raw;
    more.push((vec![0xff], b"x".to_vec()));
    more.push((b"k".to_vec(), vec![0xff, 0]));
    more.push((b"k".to_vec(), b"v".to_vec()));
    assert_eq!(
        props_of(&more)[1..],
        [("k".to_string(), "v".to_string())],
        "what is not text is left out"
    );
}

#[test]
fn percentages_are_the_ones_the_desktop_mixers_show() {
    assert_eq!(raw_from_percent(100), 65_536);
    assert_eq!(raw_from_percent(0), 0);
    assert_eq!(raw_from_percent(50), 32_768);
    assert_eq!(raw_from_percent(200), 65_536, "phonia never boosts above unity gain");
    for percent in 0..=100u8 {
        assert_eq!(percent_from_raw(raw_from_percent(percent)), percent, "{percent}");
    }
    assert_eq!(percent_from_raw(98_304), 150, "a mixer may boost; it is reported as it is");
}

#[test]
fn a_new_stream_starts_at_the_volume_that_was_set() {
    let mut volume = SharedVolume::new();
    assert_eq!(volume.set(Volume { percent: 30, muted: true }, at(0)), None);
    let (channel_volume, muted) = volume.channel_volume(2);
    assert_eq!(channel_volume, [raw_from_percent(30); 2]);
    assert!(muted);
    assert_eq!(volume.get(), Volume { percent: 30, muted: true });
}

#[test]
fn setting_more_than_unity_is_capped() {
    let mut volume = SharedVolume::new();
    assert_eq!(volume.set(Volume { percent: 250, muted: false }, at(0)), None);
    assert_eq!(volume.get().percent, 100);
}

#[test]
fn a_change_from_the_mixer_is_reported_once_and_only_for_the_stream_that_plays() {
    let mut volume = SharedVolume::new();
    let generation = volume.attach(7, 2);

    assert!(!volume.changed_outside(9, Volume { percent: 10, muted: false }, at(0)), "some other stream");
    assert!(volume.changed_outside(7, Volume { percent: 40, muted: false }, at(0)));
    assert!(!volume.changed_outside(7, Volume { percent: 40, muted: false }, at(0)), "nothing changed");
    assert_eq!(volume.get().percent, 40);

    volume.detach(generation);
    assert!(!volume.changed_outside(7, Volume { percent: 20, muted: false }, at(0)), "the stream is gone");
}

#[test]
fn what_the_server_reports_right_after_phonia_set_the_volume_is_its_own_echo() {
    let mut volume = SharedVolume::new();
    assert_eq!(volume.set(Volume { percent: 45, muted: false }, at(0)), None);
    volume.attach(7, 2);
    // An older value read back late.
    assert!(!volume.changed_outside(7, Volume { percent: 40, muted: false }, at(10)));
    assert_eq!(volume.get().percent, 45);

    // The mixer, later.
    assert!(volume.changed_outside(7, Volume { percent: 20, muted: false }, at(650)));
    assert_eq!(volume.get().percent, 20);
}

#[test]
fn an_older_stream_going_away_does_not_detach_a_newer_one() {
    let mut volume = SharedVolume::new();
    let old = volume.attach(1, 2);
    let new = volume.attach(2, 2);
    volume.detach(old);
    assert!(volume.changed_outside(2, Volume { percent: 55, muted: false }, at(0)));
    assert_eq!(volume.get().percent, 55, "the newer stream is still attached");
    volume.detach(new);
}

// ---- the ring ----------------------------------------------------------------------------------

fn samples(from: i32, count: usize) -> Vec<i32> {
    (from..from + count as i32).collect()
}

fn wrote(frames: usize) -> Result<RingWrite, OutputGone> {
    Ok(RingWrite::Frames { frames, wake: false })
}

#[test]
fn what_is_written_is_what_the_server_reads_in_order() {
    let mut ring = Ring::new(100, 10, 2);
    assert_eq!(ring.write(&samples(0, 8)), wrote(4));
    let bytes = ring.poll_read(1000).unwrap();
    assert_eq!(bytes.len(), 32);
    let read: Vec<i32> =
        bytes.chunks(4).map(|c| i32::from_le_bytes([c[0], c[1], c[2], c[3]])).collect();
    assert_eq!(read, samples(0, 8));
    assert_eq!(ring.pulled_bytes(), 32);
}

#[test]
fn a_write_takes_at_most_one_period() {
    let mut ring = Ring::new(100, 10, 2);
    assert_eq!(ring.write(&samples(0, 100)), wrote(10));
    assert_eq!(ring.queued_frames(), 10);
}

#[test]
fn the_server_is_told_to_wait_not_that_the_stream_ended() {
    let mut ring = Ring::new(100, 10, 2);
    assert_eq!(ring.poll_read(64), None);

    assert_eq!(
        ring.write(&samples(0, 4)),
        Ok(RingWrite::Frames { frames: 2, wake: true }),
        "writing wakes the server's side"
    );
    assert_eq!(ring.write(&samples(0, 4)), wrote(2), "and only once");
}

#[test]
fn the_server_only_takes_whole_frames() {
    let mut ring = Ring::new(100, 10, 2);
    ring.write(&samples(0, 8)).unwrap();
    assert_eq!(ring.poll_read(30).unwrap().len(), 24, "3.75 frames of 8 bytes");
    assert_eq!(ring.poll_read(7), None);
}

#[test]
fn a_full_ring_blocks_the_writer_until_the_server_reads() {
    let mut ring = Ring::new(10, 10, 2);
    assert_eq!(ring.write(&samples(0, 20)), wrote(10)); // fills it
    assert_eq!(ring.write(&samples(100, 20)), Ok(RingWrite::Full), "no room: the writer waits");

    assert_eq!(ring.poll_read(1000).unwrap().len(), 80);
    assert_eq!(ring.write(&samples(100, 20)), wrote(10), "the reader made room");
}

#[test]
fn a_writer_waiting_for_room_is_released_with_an_error_when_the_output_goes() {
    let mut ring = Ring::new(10, 10, 2);
    ring.write(&samples(0, 20)).unwrap();
    assert_eq!(ring.write(&samples(0, 20)), Ok(RingWrite::Full));
    ring.mark_gone("the speaker went away");
    ring.mark_gone("something later");

    let gone = OutputGone("the speaker went away".to_string());
    assert_eq!(gone.message(), "the audio output is gone: the speaker went away");
    assert_eq!(ring.write(&samples(0, 20)), Err(gone));
    assert!(ring.write(&samples(0, 2)).is_err(), "and it stays gone");
    assert_eq!(ring.gone().as_deref(), Some("the speaker went away"));
}

#[test]
fn clearing_throws_away_what_was_not_taken_and_makes_room() {
    let mut ring = Ring::new(10, 10, 2);
    ring.write(&samples(0, 20)).unwrap();
    ring.clear();
    assert_eq!(ring.queued_frames(), 0);
    assert_eq!(ring.write(&samples(0, 20)), wrote(10));
}

#[test]
fn silence_is_added_beyond_the_capacity() {
    let mut ring = Ring::new(10, 10, 2);
    ring.push_silence(25);
    assert_eq!(ring.queued_frames(), 25);
    let bytes = ring.poll_read(1000).unwrap();
    assert_eq!(bytes.len(), 200);
    assert!(bytes.iter().all(|b| *b == 0));
}

#[test]
fn closing_is_visible_to_whoever_watches() {
    let mut ring = Ring::new(10, 10, 2);
    assert!(!ring.is_closed());
    ring.close();
    assert!(ring.is_closed());
}

#[test]
fn a_server_that_stops_listening_is_given_up_on() {
    let mut patience = Patience::new(0, at(0));
    assert_eq!(patience.still_full(0, at(5_000)), Ok(()));
    assert_eq!(patience.still_full(8, at(5_001)), Ok(()), "it took something");
    assert_eq!(patience.still_full(8, at(10_001)), Ok(()));
    assert_eq!(
        patience.still_full(8, at(10_002)),
        Err(OutputGone("the sound server stopped taking audio".to_string()))
    );
}

// ---- the stream --------------------------------------------------------------------------------

const SPEC: SourceSpec = SourceSpec { sample_rate: 48_000, channels: 2, bits_per_sample: 24 };

fn stream(prefix: u64) -> (SharedSink, Ring) {
    let mut ring = Ring::new(4_800, 480, 2);
    ring.push_silence(prefix as usize);
    (SharedSink::new(SPEC, prefix, 19_200), ring)
}

fn frames(count: usize) -> Vec<i32> {
    vec![1; count * 2]
}

/// Writes as the audio thread does, with what the server says of the stream, and returns the frames
/// taken.
fn write(sink: &mut SharedSink, ring: &mut Ring, timing: Timing, count: usize) -> usize {
    let timing = if sink.asks_timing() { Some(timing) } else { None };
    sink.begin_write(ring, timing);
    match sink.write(ring, &frames(count)).unwrap().0 {
        RingWrite::Frames { frames, .. } => frames,
        RingWrite::Full => 0,
    }
}

#[test]
fn a_write_takes_a_period_and_the_delay_is_what_the_ring_and_the_server_hold() {
    let (mut sink, mut ring) = stream(0);
    assert_eq!(write(&mut sink, &mut ring, Timing::default(), 1_000), 480);
    assert_eq!(sink.delay_frames(&ring, Some(Timing::default()), 0), 480);

    // The server took 200 frames of it and holds them, 100 more reached the sink, and the sink
    // adds 10 ms.
    let timing = Timing { queued_bytes: 200 * 8, read_bytes: 100 * 8, ..Timing::default() };
    assert_eq!(sink.delay_frames(&ring, Some(timing), 480), 480 + 200 + 480);
}

#[test]
fn silence_at_the_start_is_not_audio_waiting_to_be_heard() {
    let (mut sink, mut ring) = stream(1_000);
    write(&mut sink, &mut ring, Timing::default(), 480);
    assert_eq!(
        sink.delay_frames(&ring, Some(Timing::default()), 0),
        480,
        "the 1000 silent frames don't count"
    );

    // Half of the silence has been played; the rest still is not audio.
    let timing = Timing { queued_bytes: 0, read_bytes: 500 * 8, ..Timing::default() };
    assert_eq!(sink.delay_frames(&ring, Some(timing), 0), 1_480 - 500);
    // All of it played and some audio too.
    let timing = Timing { queued_bytes: 0, read_bytes: 1_200 * 8, ..Timing::default() };
    assert_eq!(
        sink.delay_frames(&ring, Some(timing), 0),
        1_480,
        "the ring still holds everything, nothing was pulled"
    );
}

#[test]
fn after_a_drain_the_next_audio_is_preceded_by_silence_and_the_position_ignores_it() {
    let (mut sink, mut ring) = stream(1_000);
    ring.clear(); // the server took the silence that opened the stream
    assert_eq!(
        sink.drain_step(&ring, Ok(Timing::default()), false),
        Ok(DrainStep::Done(Duration::zero()))
    );
    sink.drained();
    // The server has been given, and has played, 5000 frames so far.
    let timing =
        Timing { write_bytes: 5_000 * 8, read_bytes: 5_000 * 8, ..Timing::default() };

    write(&mut sink, &mut ring, timing, 480);
    assert_eq!(ring.queued_frames(), 1_000 + 480, "the silence went in first");

    // The server has now played 500 of the silence and holds the rest, and the audio.
    let timing = Timing {
        write_bytes: 6_480 * 8,
        read_bytes: 5_500 * 8,
        queued_bytes: 980 * 8,
        ..Timing::default()
    };
    // 500 silent frames are still to play; they are not audio waiting to be heard.
    assert_eq!(sink.delay_frames(&ring, Some(timing), 0), 1_480 + 980 - 500);
}

#[test]
fn after_a_flush_the_next_audio_is_preceded_by_silence_too() {
    let (mut sink, mut ring) = stream(1_000);
    ring.clear();
    sink.flush(&mut ring);
    write(&mut sink, &mut ring, Timing::default(), 480);
    assert_eq!(ring.queued_frames(), 1_000 + 480);
}

#[test]
fn only_the_first_write_after_a_stop_brings_silence() {
    let (mut sink, mut ring) = stream(1_000);
    ring.clear();
    sink.drained();
    write(&mut sink, &mut ring, Timing::default(), 480);
    write(&mut sink, &mut ring, Timing::default(), 480);
    assert_eq!(ring.queued_frames(), 1_000 + 480 + 480);
}

#[test]
fn a_server_that_does_not_answer_leaves_only_what_the_ring_holds() {
    let (mut sink, mut ring) = stream(0);
    write(&mut sink, &mut ring, Timing::default(), 100);
    assert_eq!(sink.delay_frames(&ring, None, 0), 100);
}

#[test]
fn pause_and_resume_cork_and_uncork_the_stream() {
    let (sink, _) = stream(0);
    assert_eq!(sink.pause(), [Call::Cork(true)]);
    assert_eq!(sink.resume(), [Call::Cork(false)]);
}

#[test]
fn flushing_empties_the_ring_and_the_server_and_leaves_the_stream_running() {
    let (mut sink, mut ring) = stream(0);
    write(&mut sink, &mut ring, Timing::default(), 100);
    assert_eq!(sink.flush(&mut ring), [Call::Flush, Call::Cork(false)]);
    assert_eq!(ring.queued_frames(), 0);
}

#[test]
fn draining_waits_for_the_ring_and_the_server_to_empty_and_keeps_the_stream() {
    let (mut sink, mut ring) = stream(0);
    write(&mut sink, &mut ring, Timing::default(), 100);
    assert_eq!(sink.drain(), [Call::Cork(false)], "a corked stream would never finish");
    assert_eq!(
        sink.drain_step(&ring, Err("no answer".to_string()), false),
        Err(DrainError::Failed("no answer".to_string()))
    );
    let busy = Timing { queued_bytes: 800, ..Timing::default() };
    assert_eq!(sink.drain_step(&ring, Ok(busy), false), Ok(DrainStep::Wait));
    ring.clear(); // the server took it
    assert_eq!(sink.drain_step(&ring, Ok(busy), false), Ok(DrainStep::Wait));
    assert_eq!(
        sink.drain_step(&ring, Ok(busy), true),
        Err(DrainError::Late("the sound server did not finish playing within 10 s".to_string()))
    );
    // and played it
    assert_eq!(
        sink.drain_step(&ring, Ok(Timing { sink_latency: at(30), ..Timing::default() }), false),
        Ok(DrainStep::Done(at(30)))
    );
    sink.drained();
    assert_eq!(write(&mut sink, &mut ring, Timing::default(), 10), 10, "the sink is still usable");
}

#[test]
fn a_lost_output_surfaces_from_write_and_drain_as_a_typed_error() {
    let (mut sink, mut ring) = stream(0);
    ring.mark_gone("the speaker went away");
    let gone = || OutputGone("the speaker went away".to_string());
    assert_eq!(sink.write(&mut ring, &frames(10)).unwrap_err(), gone());
    assert_eq!(
        sink.drain_step(&ring, Ok(Timing::default()), false),
        Err(DrainError::Gone(gone()))
    );
}

#[test]
fn the_capacity_covers_the_ring_the_server_and_a_second_of_latency() {
    let (sink, ring) = stream(0);
    assert_eq!(sink.capacity_frames(&ring), 4_800 + 19_200 + 48_000);
}

#[test]
fn the_report_is_given_when_the_first_audio_goes_in_and_only_once() {
    let (mut sink, mut ring) = stream(0);
    assert!(!sink.write(&mut ring, &[]).unwrap().1, "nothing went in");
    assert!(sink.write(&mut ring, &frames(10)).unwrap().1);
    assert!(!sink.write(&mut ring, &frames(10)).unwrap().1);
}

#[test]
fn dropping_the_sink_tells_whatever_watches_the_output_to_stop() {
    let (sink, mut ring) = stream(0);
    sink.close(&mut ring);
    assert!(ring.is_closed());
}

// ---- what the server says ----------------------------------------------------------------------

#[test]
fn a_stream_is_set_up_from_the_rate_and_the_channels() {
    let volume = SharedVolume::new();
    let plan = plan_stream(&Target::Named("x".into()), SPEC, &volume).unwrap();
    assert!(plan.no_move && !plan.muted);
    assert_eq!(plan.volumes, [65_536, 65_536]);
    assert_eq!(plan.target_length, 48_000 * 8 * 2 / 5);
    assert_eq!(plan.minimum_request_length, 48_000 * 8 / 50);
    assert_eq!((plan.ring_frames, plan.period_frames), (12_000, 960));
    assert_eq!((plan.prefix_frames, plan.server_target_frames), (4_800, 19_200));
    assert!(!plan_stream(&Target::Default, SPEC, &volume).unwrap().no_move);

    let surround = SourceSpec { channels: 6, ..SPEC };
    assert_eq!(
        plan_stream(&Target::Default, surround, &volume).unwrap_err(),
        "shared mode plays mono and stereo, not 6 channels"
    );
}

#[test]
fn setting_the_volume_tells_the_stream_that_plays() {
    let mut volume = SharedVolume::new();
    volume.attach(7, 2);
    assert_eq!(
        volume.set(Volume { percent: 50, muted: true }, at(0)),
        Some(ToSend { index: 7, volumes: vec![32_768, 32_768], muted: true })
    );
    assert_eq!(after_sending(0, Err("EPIPE".to_string())), AfterSending::Reconnect);
    assert_eq!(
        after_sending(1, Err("EPIPE".to_string())),
        AfterSending::Fail("setting the stream's volume: EPIPE".to_string())
    );
    assert_eq!(after_sending(1, Ok(())), AfterSending::Done);
}

#[test]
fn our_stream_is_found_by_the_id_it_was_given() {
    let streams = vec![
        StreamInfo { index: 1, channels: 1, stream_id: None },
        StreamInfo { index: 2, channels: 2, stream_id: Some(b"12\0".to_vec()) },
        StreamInfo { index: 3, channels: 2, stream_id: Some(b"12".to_vec()) },
    ];
    assert_eq!(find_stream(&streams, "12"), Ok((2, 2)));
    assert_eq!(
        find_stream(&streams, "13").unwrap_err(),
        "the new stream is not among the sound server's streams"
    );
}

#[test]
fn a_streams_volume_is_the_mean_of_its_channels() {
    assert_eq!(
        stream_volume(&vec![65_536, 0], true),
        Volume { percent: 50, muted: true }
    );
    assert_eq!(stream_volume(&vec![], false), Volume { percent: 0, muted: false });
}

#[test]
fn offsets_become_what_is_queued_and_played() {
    assert_eq!(
        timing_from(1_000, 400, 10, 5),
        Timing {
            queued_bytes: 600,
            write_bytes: 1_000,
            read_bytes: 400,
            sink_latency: Duration::from_micros(15),
        }
    );
    assert_eq!(timing_from(-5, 400, 0, 0).queued_bytes, 0);
    assert_eq!(timing_from(-5, 400, 0, 0).write_bytes, 0);
}

#[test]
fn only_the_output_a_stream_may_not_leave_matters_when_it_goes() {
    let sink = Some((4, "Speaker".to_string()));
    assert_eq!(
        watched(Facility::Sink, Happened::Removed, Some(4), &sink, 9),
        Watched::Gone("the output 'Speaker' went away".to_string())
    );
    assert_eq!(watched(Facility::Sink, Happened::Removed, Some(5), &sink, 9), Watched::Nothing);
    assert_eq!(watched(Facility::Sink, Happened::Removed, Some(4), &None, 9), Watched::Nothing);
    assert_eq!(
        watched(Facility::SinkInput, Happened::Changed, Some(9), &sink, 9),
        Watched::ReadVolume
    );
    assert_eq!(watched(Facility::SinkInput, Happened::New, Some(9), &sink, 9), Watched::Nothing);
    assert!(outputs_changed(Facility::Sink, Happened::New));
    assert!(!outputs_changed(Facility::Sink, Happened::Changed));
    assert!(outputs_changed(Facility::Server, Happened::Changed));
    assert!(!outputs_changed(Facility::SinkInput, Happened::New));
    assert_eq!(connection_lost(true, "EOF"), None);
    assert_eq!(
        connection_lost(false, "EOF").as_deref(),
        Some("lost the connection to the sound server (EOF)")
    );
}

#[test]
fn a_named_output_that_is_not_there_is_looked_for_until_the_time_is_up() {
    assert_eq!(after_missing("speaker", false), None);
    assert_eq!(
        after_missing("speaker", true).as_deref(),
        Some("the sound server has no output named 'speaker'. `phonia devices` lists them, and a Bluetooth speaker has to be connected first")
    );
}

#[test]
fn an_output_is_made_of_what_the_server_says_of_it() {
    let info = SinkInfo {
        name: "bluez_output.AA".to_string(),
        description: None,
        props: props(&[("api.bluez5.codec", "sbc")]),
        rate: 44_100,
        index: 3,
    };
    let found = output_from(&info, Some("bluez_output.AA"));
    assert!(found.is_default && found.lossy);
    assert_eq!(found.description, "bluez_output.AA", "its name, without a description");
    assert_eq!(found.codec.as_deref(), Some("SBC"));
    let route = SharedRoute::to(&found);
    assert_eq!((route.kind.as_str(), route.sink_rate), ("Bluetooth", 44_100));
}

#[test]
fn the_settings_choose_what_sinks_are_opened_with() {
    let card = OutputSpec::Exclusive { device: "hw:DS2,0".into() };
    assert_eq!(
        factory_for(&card, true),
        Factory::Exclusive { device: "hw:DS2,0".to_string(), reserve: Some(10) }
    );
    assert_eq!(
        factory_for(&card, false),
        Factory::Exclusive { device: "hw:DS2,0".to_string(), reserve: None }
    );
    assert_eq!(
        factory_for(&OutputSpec::Shared { sink: Some("x".into()) }, true),
        Factory::Shared(Target::Named("x".to_string()))
    );
    assert_eq!(
        factory_for(&OutputSpec::Shared { sink: None }, true),
        Factory::Shared(Target::Default)
    );
}

#[test]
fn a_card_is_only_given_up_to_a_program_that_matters_more() {
    let asks = |priority| ReleaseRequest { by: None, priority }.matters_more();
    assert!(!asks(-20) && !asks(10) && asks(11));
}
