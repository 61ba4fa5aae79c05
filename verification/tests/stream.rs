//! Streaming a track: reading what arrives, and the order in which it is asked for.

use phonia_core::dash::{DashSegments, SegmentTiming};
use phonia_core::engine::supplier::Advance;
use phonia_core::engine::types::TrackRef;
use phonia_core::stream::{
    after_init, after_request, after_try, buffering_note, tries_again, AfterTry, DashDownload,
    Fetched, NextStep, Received, SeekPos, SegmentStream, Tried,
};
use phonia_core::suppliers::{FileSupplier, TidalSupplier};
use std::collections::VecDeque;

/// A stream with what will arrive for it, and a copy of what left it.
struct Stream {
    inner: SegmentStream,
    arriving: VecDeque<Received>,
    copied: Vec<u8>,
}

impl Default for Stream {
    fn default() -> Self {
        Stream { inner: SegmentStream::new(), arriving: VecDeque::new(), copied: Vec::new() }
    }
}

impl Stream {
    fn send(&mut self, bytes: &[u8]) {
        self.arriving.push_back(Received::Chunk(bytes.to_vec()));
    }

    fn fail(&mut self, why: &str) {
        self.arriving.push_back(Received::Failed(why.to_string()));
    }

    fn take(&mut self, most: u64) -> Result<Vec<u8>, String> {
        while self.inner.needs_chunk() {
            let received = self.arriving.pop_front().unwrap_or(Received::Closed);
            self.inner.refill(received)?;
        }
        let bytes = self.inner.take(most);
        self.copied.extend_from_slice(&bytes);
        Ok(bytes)
    }

    fn read(&mut self, buf: &mut [u8]) -> Result<usize, String> {
        let bytes = self.take(buf.len() as u64)?;
        buf[..bytes.len()].copy_from_slice(&bytes);
        Ok(bytes.len())
    }

    fn seek(&mut self, to: SeekPos) -> Result<u64, String> {
        let mut left = self.inner.seek(to)?;
        while left > 0 {
            let dropped = self.take(left)?.len() as u64;
            if dropped == 0 {
                break;
            }
            left -= dropped;
        }
        Ok(self.inner.position())
    }
}

#[test]
fn sequential_reads_cross_chunk_boundaries() {
    let mut stream = Stream::default();
    stream.send(b"abc");
    stream.send(b"defgh");

    let mut buf = [0u8; 4];
    assert_eq!(stream.read(&mut buf).unwrap(), 3);
    assert_eq!(&buf[..3], b"abc");

    // The next read spans into the second chunk transparently.
    let mut buf = [0u8; 4];
    assert_eq!(stream.read(&mut buf).unwrap(), 4);
    assert_eq!(&buf, b"defg");

    let mut buf = [0u8; 4];
    assert_eq!(stream.read(&mut buf).unwrap(), 1);
    assert_eq!(&buf[..1], b"h");

    // Clean EOF once the channel is closed and drained.
    assert_eq!(stream.read(&mut buf).unwrap(), 0);
}

#[test]
fn partial_reads_smaller_than_a_chunk() {
    let mut stream = Stream::default();
    stream.send(b"0123456789");

    let mut buf = [0u8; 3];
    assert_eq!(stream.read(&mut buf).unwrap(), 3);
    assert_eq!(&buf, b"012");
    assert_eq!(stream.read(&mut buf).unwrap(), 3);
    assert_eq!(&buf, b"345");
    assert_eq!(stream.read(&mut buf).unwrap(), 3);
    assert_eq!(&buf, b"678");
    assert_eq!(stream.read(&mut buf).unwrap(), 1);
    assert_eq!(&buf[..1], b"9");
    assert_eq!(stream.read(&mut buf).unwrap(), 0);
}

#[test]
fn reads_larger_than_a_chunk() {
    let mut stream = Stream::default();
    stream.send(b"ab");
    stream.send(b"cd");

    // A single big read only gets what's in the *current* chunk; the caller (symphonia) is
    // expected to loop, same as any other `Read` impl.
    let mut buf = [0u8; 100];
    assert_eq!(stream.read(&mut buf).unwrap(), 2);
    assert_eq!(&buf[..2], b"ab");
    assert_eq!(stream.read(&mut buf).unwrap(), 2);
    assert_eq!(&buf[..2], b"cd");
    assert_eq!(stream.read(&mut buf).unwrap(), 0);
}

#[test]
fn producer_error_surfaces_as_io_error_with_context() {
    let mut stream = Stream::default();
    stream.send(b"ok");
    stream.fail("segment 3 does not exist (HTTP 404)");

    let mut buf = [0u8; 2];
    assert_eq!(stream.read(&mut buf).unwrap(), 2);

    let err = stream.read(&mut buf).unwrap_err();
    assert!(err.contains("segment 3 does not exist (HTTP 404)"));

    // Once surfaced, the stream is done: further reads are a clean EOF, not a repeated error
    // or a panic.
    assert_eq!(stream.read(&mut buf).unwrap(), 0);
}

#[test]
fn stream_ends_cleanly_when_the_sender_is_dropped_with_nothing_sent() {
    let mut stream = Stream::default();
    let mut buf = [0u8; 8];
    assert_eq!(stream.read(&mut buf).unwrap(), 0);
}

#[test]
fn forward_seek_by_discard_skips_bytes_and_tees_them() {
    let mut stream = Stream::default();
    stream.send(b"0123456789");

    // SeekPos::Current(0) reports the position without consuming anything.
    assert_eq!(stream.inner.position(), 0);

    // Skip the first 4 bytes.
    assert_eq!(stream.seek(SeekPos::Current(4)).unwrap(), 4);

    let mut buf = [0u8; 3];
    assert_eq!(stream.read(&mut buf).unwrap(), 3);
    assert_eq!(&buf, b"456");

    // SeekPos::Start also works, as long as it doesn't go backwards.
    assert_eq!(stream.seek(SeekPos::Start(9)).unwrap(), 9);
    let mut buf = [0u8; 4];
    assert_eq!(stream.read(&mut buf).unwrap(), 1);
    assert_eq!(&buf[..1], b"9");

    // The tee sees every byte that passed through, including the discarded ones.
    assert_eq!(stream.copied, b"0123456789");
}

#[test]
fn backward_seek_is_rejected_not_silently_wrong() {
    let mut stream = Stream::default();
    stream.send(b"0123456789");

    let mut buf = [0u8; 5];
    assert_eq!(stream.read(&mut buf).unwrap(), 5);
    assert_eq!(stream.inner.position(), 5);

    let err = stream.seek(SeekPos::Start(1)).unwrap_err();
    assert!(err.contains("does not support seeking backwards"));

    let err = stream.seek(SeekPos::Current(-1)).unwrap_err();
    assert!(err.contains("does not support seeking backwards"));

    let err = stream.seek(SeekPos::End(0)).unwrap_err();
    assert!(err.contains("does not support seeking backwards"));

    // Position is unchanged by the rejected seeks.
    assert_eq!(stream.inner.position(), 5);
}

#[test]
fn tee_writes_exactly_the_bytes_that_were_read() {
    let mut stream = Stream::default();
    stream.send(b"hello ");
    stream.send(b"world");

    let mut out = Vec::new();
    let mut buf = [0u8; 4];
    loop {
        let n = stream.read(&mut buf).unwrap();
        if n == 0 {
            break;
        }
        out.extend_from_slice(&buf[..n]);
    }

    assert_eq!(out, b"hello world");
    assert_eq!(stream.copied, b"hello world");
}

#[test]
fn is_not_seekable_and_has_no_known_length() {
    let stream = Stream::default();
    assert!(!stream.inner.is_seekable());
    assert_eq!(stream.inner.byte_len(), None);
}

fn dash_at(base: &str, segments: Option<u32>) -> DashSegments {
    DashSegments {
        init_url: format!("{base}/init"),
        media_url_template: format!("{base}/seg/$Number$"),
        start_number: 1,
        segment_count: segments,
        codecs: None,
        timescale: 1,
        timing: SegmentTiming::Unknown,
        presentation_duration: None,
    }
}

/// What a server that has `last_segment` segments answers: `INIT` for `/init` and `SEG<N>` for
/// `/seg/N`.
fn answer(url: &str, last_segment: u32) -> (Fetched, String) {
    let tried = match url.strip_prefix("http://cdn/seg/").and_then(|n| n.parse::<u32>().ok()) {
        _ if url == "http://cdn/init" => (200, "INIT".to_string()),
        Some(n) if (1..=last_segment).contains(&n) => (200, format!("SEG{n}")),
        _ => (404, String::new()),
    };
    match after_try(Tried::Status(tried.0, "status".to_string()), 1) {
        AfterTry::Read => (Fetched::Got, tried.1),
        AfterTry::Missing => (Fetched::Missing, String::new()),
        AfterTry::Failed(why) => (Fetched::Failed(why), String::new()),
    }
}

/// Downloads a track from segment `first` on and returns all of it.
fn download(dash: DashSegments, first: u32, last_segment: u32) -> Result<String, String> {
    let mut out = String::new();
    let (fetched, body) = answer(&dash.init_url, last_segment);
    match after_init(fetched, &dash.init_url) {
        NextStep::Continue => out.push_str(&body),
        NextStep::Fail(why) => return Err(why),
        NextStep::Done => return Ok(out),
    }
    let mut download = DashDownload::new(dash, first);
    while let Some(url) = download.next() {
        let (fetched, body) = answer(&url, last_segment);
        match download.after(fetched) {
            NextStep::Continue => out.push_str(&body),
            NextStep::Fail(why) => return Err(why),
            NextStep::Done => break,
        }
    }
    Ok(out)
}

#[test]
fn open_dash_streams_the_init_segment_then_every_segment() {
    let dash = dash_at("http://cdn", Some(5));
    assert_eq!(download(dash, 1, 5).unwrap(), "INITSEG1SEG2SEG3SEG4SEG5");
}

#[test]
fn open_dash_from_sends_the_init_segment_first_and_then_starts_at_the_given_segment() {
    let dash = dash_at("http://cdn", Some(5));
    assert_eq!(download(dash, 3, 5).unwrap(), "INITSEG3SEG4SEG5");
}

#[test]
fn open_dash_from_the_last_segment_and_past_the_end() {
    assert_eq!(download(dash_at("http://cdn", Some(5)), 5, 5).unwrap(), "INITSEG5");
    assert_eq!(download(dash_at("http://cdn", Some(5)), 6, 5).unwrap(), "INIT");
}

#[test]
fn a_track_of_unknown_length_ends_with_the_first_segment_that_is_not_there() {
    assert_eq!(download(dash_at("http://cdn", None), 1, 2).unwrap(), "INITSEG1SEG2");
    assert_eq!(
        download(dash_at("http://cdn", None), 1, 0).unwrap_err(),
        "could not download any media segment (the first one already returned 404/403): http://cdn/seg/1"
    );
    assert_eq!(
        download(dash_at("http://cdn", Some(3)), 1, 2).unwrap_err(),
        "segment 3 does not exist (HTTP 404/403) but the manifest expected 3 segments"
    );
    assert_eq!(
        download(dash_at("http://elsewhere", Some(3)), 1, 2).unwrap_err(),
        "the initialization segment does not exist (HTTP 404/403): http://elsewhere/init"
    );
}

#[test]
fn what_may_work_the_next_time_is_tried_again() {
    assert_eq!(after_try(Tried::Status(403, "403 Forbidden".into()), 1), AfterTry::Missing);
    assert_eq!(
        after_try(Tried::Status(500, "500 Internal Server Error".into()), 1),
        AfterTry::Failed("HTTP 500 Internal Server Error downloading segment".into())
    );
    assert_eq!(
        after_try(Tried::Unreachable("timed out".into()), 2),
        AfterTry::Failed("attempt 2/3: timed out".into())
    );
    assert_eq!(
        after_try(Tried::Unreadable("cut off".into()), 2),
        AfterTry::Failed("reading segment bytes: cut off".into())
    );
    assert!(tries_again(1) && tries_again(2) && !tries_again(3));
}

#[test]
fn a_single_url_is_read_or_not_there() {
    assert_eq!(after_request(Tried::Status(206, "206 Partial Content".into()), "u"), NextStep::Continue);
    assert_eq!(
        after_request(Tried::Status(404, "404 Not Found".into()), "https://u"),
        NextStep::Fail("HTTP 404 Not Found downloading https://u".into())
    );
    assert_eq!(
        after_request(Tried::Unreachable("no route".into()), "https://u"),
        NextStep::Fail("requesting the audio (JSON manifest): no route".into())
    );
    assert_eq!(
        after_request(Tried::Unreadable("cut off".into()), "https://u"),
        NextStep::Fail("reading the audio stream: cut off".into())
    );
}

#[test]
fn the_download_is_announced_with_what_is_known() {
    assert_eq!(
        buffering_note(&dash_at("x", Some(88))),
        "Buffering 3 segments ahead (track has 88 segments)..."
    );
    assert_eq!(buffering_note(&dash_at("x", None)), "Buffering 3 segments ahead...");
}

// ---- what is played next -----------------------------------------------------------------------

#[test]
fn file_supplier_walks_its_list_in_both_directions() {
    let mut supplier = FileSupplier::new(vec!["a.wav".into(), "b.wav".into(), "c.wav".into()]);
    let name = |track: Option<TrackRef>| track.map(|t| t.0);
    assert_eq!(name(supplier.advance(Advance::Auto)), Some("a.wav".into()));

    // The cursor moves when a track is opened, not when it is asked for.
    supplier.opened(&TrackRef("b.wav".into()));
    assert_eq!(name(supplier.advance(Advance::Next)), Some("c.wav".into()));
    assert_eq!(name(supplier.advance(Advance::Previous)), Some("a.wav".into()));
    assert_eq!(name(supplier.advance(Advance::Restart)), Some("b.wav".into()));

    supplier.opened(&TrackRef("c.wav".into()));
    assert_eq!(supplier.advance(Advance::Auto), None, "nothing after the last file");
    supplier.opened(&TrackRef("a.wav".into()));
    assert_eq!(supplier.advance(Advance::Previous), None, "nothing before the first");
}

#[test]
fn a_file_that_is_not_in_the_list_leaves_the_cursor() {
    let mut supplier = FileSupplier::new(vec!["a.wav".into(), "b.wav".into()]);
    supplier.opened(&TrackRef("a.wav".into()));
    supplier.opened(&TrackRef("x.wav".into()));
    assert_eq!(supplier.advance(Advance::Next), Some(TrackRef("b.wav".into())));
}

#[test]
fn a_single_tidal_track_has_nothing_around_it() {
    for how in [Advance::Auto, Advance::Next, Advance::Previous, Advance::Restart] {
        assert_eq!(TidalSupplier.advance(how), None);
    }
}
