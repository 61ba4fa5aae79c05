//! The bookkeeping of a bit-perfect sink: formats, what was written last, pausing, and the verdict.

use phonia_core::decode::SourceSpec;
use phonia_core::output::alsa::{
    extract_proc_field, extract_proc_rate, open_error, pack_frames, pack_s16le, pack_s24_3le,
    pack_s24le, pack_s32le, parse_hw_device, pick_format, proc_path, AlsaSink, Committed, Format,
    OpenError, ProcReading, SinkReport, StreamState, TailBuffer, ToPause, ToResume, WriteAll,
    WriteStep, Wrote, MAX_CONSECUTIVE_ZERO_WRITES,
};
use phonia_core::output::reserve::DeviceBusy;

#[test]
fn pack_s24_3le_matches_the_documented_example() {
    // 24-bit sample 0x123456, left-justified in an i32 as 0x12345600.
    let left_justified = 0x1234_5600_u32 as i32;
    assert_eq!(pack_s24_3le(left_justified), [0x56, 0x34, 0x12]);
}

#[test]
fn pack_s24_3le_handles_negative_values() {
    // -1 as a 24-bit two's complement value, left-justified: 0xFFFFFF00.
    let left_justified = 0xFFFF_FF00_u32 as i32;
    assert_eq!(pack_s24_3le(left_justified), [0xFF, 0xFF, 0xFF]);
}

#[test]
fn pack_s16le_keeps_the_top_16_bits() {
    let left_justified = 0x1234_0000_u32 as i32;
    assert_eq!(pack_s16le(left_justified), [0x34, 0x12]);
}

#[test]
fn pack_s16le_handles_negative_values() {
    let left_justified = 0xFFFF_0000_u32 as i32; // -1 as 16-bit, left-justified.
    assert_eq!(pack_s16le(left_justified), [0xFF, 0xFF]);
}

#[test]
fn pack_s32le_is_an_identity_shift() {
    assert_eq!(pack_s32le(0x1234_5678), [0x78, 0x56, 0x34, 0x12]);
}

#[test]
fn pack_s24le_keeps_top_24_bits_in_a_32_bit_slot() {
    let left_justified = 0x1234_5600_u32 as i32;
    assert_eq!(pack_s24le(left_justified), [0x56, 0x34, 0x12, 0x00]);
}

#[test]
fn pick_format_prefers_s24_3le_for_24_bit_sources() {
    let format = pick_format(24, |_f| true).unwrap();
    assert_eq!(format, Format::S243LE);
}

#[test]
fn pick_format_falls_back_when_preferred_formats_are_rejected() {
    let format = pick_format(24, |f| f == Format::S24LE).unwrap();
    assert_eq!(format, Format::S24LE);
}

#[test]
fn pick_format_for_16_bit_prefers_s16le() {
    let format = pick_format(16, |_f| true).unwrap();
    assert_eq!(format, Format::S16LE);
}

#[test]
fn pick_format_errors_on_unsupported_bit_depth() {
    assert!(pick_format(20, |_f| true).is_err());
}

#[test]
fn pick_format_errors_when_device_accepts_nothing() {
    assert!(pick_format(24, |_f| false).is_err());
}

#[test]
fn parse_hw_device_extracts_card_and_device() {
    assert_eq!(parse_hw_device("hw:1,0"), Some((1, 0)));
    assert_eq!(parse_hw_device("hw:0,2"), Some((0, 2)));
}

#[test]
fn parse_hw_device_rejects_non_hw_strings() {
    assert_eq!(parse_hw_device("default"), None);
    assert_eq!(parse_hw_device("plughw:1,0"), None);
}

#[test]
fn extract_proc_rate_parses_the_leading_integer() {
    let contents = "access: RW_INTERLEAVED\nformat: S24_3LE\nrate: 96000 (96000/1)\n";
    assert_eq!(extract_proc_rate(contents), Some(96_000));
}

#[test]
fn extract_proc_field_reads_format_line() {
    let contents = "access: RW_INTERLEAVED\nformat: S24_3LE\nrate: 96000 (96000/1)\n";
    assert_eq!(extract_proc_field(contents, "format").as_deref(), Some("S24_3LE"));
}

#[test]
fn tail_buffer_returns_the_most_recent_bytes() {
    let mut tail = TailBuffer::new(8);
    tail.push(&[1, 2, 3, 4]);
    tail.push(&[5, 6]);
    assert_eq!(tail.take_last(3), vec![4, 5, 6]);
    assert_eq!(tail.take_last(6), vec![1, 2, 3, 4, 5, 6]);
}

#[test]
fn tail_buffer_never_reports_more_than_its_capacity() {
    let mut tail = TailBuffer::new(4);
    for chunk in 0u8..20 {
        tail.push(&[chunk * 2, chunk * 2 + 1]);
    }
    assert_eq!(tail.len(), 4);
    assert_eq!(tail.take_last(100), vec![36, 37, 38, 39]);
}

#[test]
fn tail_buffer_take_last_on_an_empty_buffer_is_empty() {
    let tail = TailBuffer::new(8);
    assert!(tail.take_last(4).is_empty());
}

#[test]
fn tail_buffer_clear_forgets_everything() {
    let mut tail = TailBuffer::new(8);
    tail.push(&[1, 2, 3, 4]);
    tail.clear();
    assert_eq!(tail.len(), 0);
    assert!(tail.take_last(4).is_empty());
}

const HW_PARAMS_96K: &str = "access: RW_INTERLEAVED\nformat: S24_3LE\nsubformat: STD\nchannels: 2\nrate: 96000 (96000/1)\nperiod_size: 9600\nbuffer_size: 48000\n";
const PROC_PATH: &str = "/proc/asound/card1/pcm0p/sub0/hw_params";

fn report(device: &str, proc: ProcReading) -> SinkReport {
    let source = SourceSpec { sample_rate: 96_000, channels: 2, bits_per_sample: 24 };
    SinkReport::new(device.to_string(), source, "S24_3LE".to_string(), proc)
}

fn read(contents: &str) -> ProcReading {
    ProcReading::Read { path: PROC_PATH.to_string(), contents: contents.to_string() }
}

#[test]
fn a_matching_device_is_bit_perfect_and_the_text_is_pinned() {
    let report = report("hw:1,0", read(HW_PARAMS_96K));
    assert!(report.bit_perfect());
    assert_eq!(report.problem(), None);
    assert_eq!(
        report.to_text(),
        format!("--- {PROC_PATH} ---\n{HW_PARAMS_96K}FLAC 24-bit/96000 Hz 2ch → hw:1,0 S24_3LE 96000 Hz  \u{2714} BIT-PERFECT")
    );
}

#[test]
fn a_different_rate_is_converted() {
    let contents = HW_PARAMS_96K.replace("96000 (96000/1)", "48000 (48000/1)");
    let report = report("hw:1,0", read(&contents));
    assert!(!report.bit_perfect());
    assert_eq!(report.problem().as_deref(), Some("the card reports 48000 Hz instead of 96000 Hz"));
    assert!(report.to_text().ends_with(
        "FLAC 24-bit/96000 Hz 2ch → hw:1,0 S24_3LE  \u{2716} CONVERTED (the card reports 48000 Hz instead of 96000 Hz)"
    ));
}

#[test]
fn a_different_format_is_converted() {
    let contents = HW_PARAMS_96K.replace("S24_3LE", "S32_LE");
    let report = report("hw:1,0", read(&contents));
    assert!(!report.bit_perfect());
    assert_eq!(report.problem().as_deref(), Some("the card reports format S32_LE instead of S24_3LE"));
}

#[test]
fn a_device_that_is_not_hw_cannot_be_confirmed() {
    let report = report("default", ProcReading::NotHw);
    assert!(!report.bit_perfect());
    assert_eq!(
        report.to_text(),
        "Device 'default' is not in hw:N,D form; skipping the /proc/asound check.\n\
         FLAC 24-bit/96000 Hz 2ch → default S24_3LE  \u{2716} CONVERTED (the device is not hw:N,D (possible resampling/mixing via dmix/PipeWire))"
    );
}

#[test]
fn an_unreadable_proc_file_is_reported_and_not_assumed_fine() {
    let report = report("hw:1,0", ProcReading::Unreadable { path: PROC_PATH.to_string(), error: "No such file".to_string() });
    assert!(!report.bit_perfect());
    assert_eq!(
        report.to_text(),
        format!("Warning: could not read {PROC_PATH}: No such file\nFLAC 24-bit/96000 Hz 2ch → hw:1,0 S24_3LE  ✖ CONVERTED (could not read /proc/asound to confirm it)")
    );
}

#[test]
fn a_proc_file_missing_the_rate_line_cannot_confirm_either() {
    let report = report("hw:1,0", read("format: S24_3LE\n"));
    assert!(!report.bit_perfect());
    assert_eq!(report.problem().as_deref(), Some("could not read /proc/asound to confirm it"));
}

#[test]
fn packing_a_row_reads_back_as_the_samples_that_it_was() {
    let samples: Vec<i32> = vec![0x1234_5600, -256, 0, i32::MIN, 0x7fff_ff00];
    let packed = pack_frames(Format::S243LE, &samples, samples.len());
    let back: Vec<i32> = packed
        .chunks(3)
        .map(|b| i32::from_le_bytes([0, b[0], b[1], b[2]]))
        .collect();
    assert_eq!(back, samples);
    let wide = pack_frames(Format::S32LE, &samples, 2);
    assert_eq!(wide, [0x00, 0x56, 0x34, 0x12, 0x00, 0xff, 0xff, 0xff]);
    assert_eq!(pack_s24le(-256), [0xff, 0xff, 0xff, 0xff], "the fourth byte holds the sign");
}

#[test]
fn formats_are_named_as_alsa_names_them() {
    assert_eq!(Format::S16LE.name(), "S16_LE");
    assert_eq!(Format::S243LE.name(), "S24_3LE");
    assert_eq!(Format::S24LE.name(), "S24_LE");
    assert_eq!(Format::S32LE.name(), "S32_LE");
}

#[test]
fn a_refused_bit_depth_or_device_says_why() {
    assert_eq!(
        pick_format(20, |_f| true).unwrap_err(),
        "unsupported bit depth in phase 0: 20 bits (only 16/24)"
    );
    assert_eq!(
        pick_format(16, |_f| false).unwrap_err(),
        "the device does not accept any lossless integer format for a 16-bit source (tried: [S16LE, S32LE])"
    );
}

const SPEC: SourceSpec = SourceSpec { sample_rate: 48_000, channels: 2, bits_per_sample: 16 };

fn sink(can_pause: bool) -> AlsaSink {
    let committed = Committed { rate: 48_000, period_frames: 4, buffer_frames: 8, can_pause };
    AlsaSink::open("hw:1,0", SPEC, Format::S16LE, committed).unwrap()
}

/// `frames` frames of 16-bit samples, all different.
fn frames(from: i32, count: i32) -> Vec<i32> {
    (from * 2..(from + count) * 2).map(|i| i << 16).collect()
}

#[test]
fn a_device_at_another_rate_is_not_opened() {
    let committed =
        Committed { rate: 44_100, period_frames: 4, buffer_frames: 8, can_pause: false };
    let error = AlsaSink::open("hw:1,0", SPEC, Format::S16LE, committed).err().unwrap();
    assert_eq!(
        error,
        "device 'hw:1,0' does not support 48000 Hz natively (ALSA applied 44100 Hz instead); aborting to avoid losing the bit-perfect guarantee"
    );
}

#[test]
fn a_busy_device_is_told_apart_from_other_failures() {
    assert_eq!(
        open_error("hw:1,0", true, "EBUSY"),
        OpenError::Busy(DeviceBusy { device: "hw:1,0".to_string(), detail: "EBUSY".to_string() })
    );
    assert_eq!(
        open_error("hw:1,0", false, "ENOENT"),
        OpenError::Failed("could not open ALSA device 'hw:1,0': ENOENT".to_string())
    );
}

#[test]
fn a_write_takes_a_period_and_the_first_one_brings_the_report() {
    let mut sink = sink(false);
    assert_eq!(sink.capacity_frames(), 8);
    let (taken, bytes) = sink.write(&frames(0, 6)).unwrap();
    assert_eq!((taken, bytes.len()), (4, 16));
    assert!(sink.wrote(&bytes));
    assert!(!sink.wrote(&bytes), "only once");
}

#[test]
fn a_device_that_cannot_pause_is_dropped_and_replayed() {
    let mut sink = sink(false);
    assert!(!sink.supports_hw_pause());
    let (_, bytes) = sink.write(&frames(0, 4)).unwrap();
    sink.wrote(&bytes);

    assert_eq!(sink.pause(), ToPause::Drop);
    sink.dropped(Some(3));
    assert_eq!(sink.pause(), ToPause::Nothing, "paused already");
    assert_eq!(sink.delay_frames(StreamState::Idle, None), 3);
    assert_eq!(
        sink.write(&frames(4, 1)).unwrap_err(),
        "write() called on a paused ALSA sink"
    );

    match sink.resume() {
        ToResume::Replay(replay) => {
            assert_eq!(replay, pack_frames(Format::S16LE, &frames(1, 3), 6));
            sink.replayed(&replay);
        }
        other => panic!("{other:?}"),
    }
    assert_eq!(sink.resume(), ToResume::Nothing);
    assert_eq!(sink.pause(), ToPause::Drop);
    sink.dropped(Some(100));
    assert_eq!(sink.delay_frames(StreamState::Idle, None), 3, "no more than was written");
}

#[test]
fn a_device_that_can_pause_keeps_its_queue() {
    let mut sink = sink(true);
    assert_eq!(sink.pause(), ToPause::Hardware);
    sink.held();
    assert_eq!(sink.delay_frames(StreamState::InFlight, Some(5)), 5);
    assert_eq!(sink.resume(), ToResume::Hardware);
    assert!(sink.write(&frames(0, 1)).is_ok());
    assert_eq!(sink.delay_frames(StreamState::InFlight, Some(-1)), 0);
    assert_eq!(sink.delay_frames(StreamState::Idle, Some(7)), 0, "a stale number");
}

#[test]
fn flushing_and_draining_forget_what_was_written() {
    let mut sink = sink(false);
    let (_, bytes) = sink.write(&frames(0, 4)).unwrap();
    sink.wrote(&bytes);
    sink.dropped(Some(4));
    sink.flushed();
    assert_eq!(sink.resume(), ToResume::Nothing, "a flushed sink runs");

    sink.wrote(&bytes);
    sink.drained();
    sink.dropped(Some(4));
    assert_eq!(sink.resume(), ToResume::Replay(vec![]));
}

#[test]
fn a_device_that_takes_nothing_is_waited_for_but_not_forever() {
    let mut all = WriteAll::new("hw:1,0", 4, 16);
    assert_eq!(all.begin(), WriteStep::Write);
    assert_eq!(all.wrote(Wrote::Frames(1)), WriteStep::Write);
    assert_eq!(all.offset(), 4);
    assert_eq!(all.wrote(Wrote::Underrun), WriteStep::Recover);
    for _ in 0..MAX_CONSECUTIVE_ZERO_WRITES {
        assert_eq!(all.wrote(Wrote::Frames(0)), WriteStep::Wait);
    }
    assert_eq!(
        all.wrote(Wrote::Frames(0)),
        WriteStep::Fail(
            "device 'hw:1,0' stopped accepting audio (51 consecutive 0-frame writes); aborting instead of silently dropping the rest of the chunk"
                .to_string()
        )
    );
    let mut all = WriteAll::new("hw:1,0", 4, 8);
    assert_eq!(all.wrote(Wrote::Frames(2)), WriteStep::Done);
    assert_eq!(
        all.wrote(Wrote::Failed("EIO".to_string())),
        WriteStep::Fail("error writing to the ALSA device: EIO".to_string())
    );
    assert_eq!(WriteAll::new("hw:1,0", 4, 0).begin(), WriteStep::Done);
}

#[test]
fn the_kernel_describes_a_stream_under_its_card_and_device() {
    assert_eq!(proc_path(1, 0), PROC_PATH);
}
