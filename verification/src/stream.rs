//! A stream of bytes that arrives in pieces from a background download, and the rules of that
//! download.

use crate::dash::DashSegments;
use crate::text::{decimal, decimal_text, joined};
use vstd::prelude::*;

verus! {

/// How many segments (or response chunks) may be in flight ahead of the decoder at once.
pub const PREFETCH_DEPTH: usize = 3;

/// How many times a single request is tried before giving up.
pub const MAX_SEGMENT_RETRIES: u32 = 3;

// ---- reading ---------------------------------------------------------------------------------

/// What came from the download.
#[derive(Debug, PartialEq, Eq)]
pub enum Received {
    /// More bytes.
    Chunk(Vec<u8>),
    /// The error that ended it early.
    Failed(String),
    /// Nothing more.
    Closed,
}

/// Where to move in a stream.
#[derive(Debug, Clone, Copy, PartialEq, Eq, Structural)]
pub enum SeekPos {
    /// Counted from its start.
    Start(u64),
    /// Counted from its end.
    End(i64),
    /// Counted from where it is.
    Current(i64),
}

/// A stream that can be read forward only. Every byte that leaves it, whether it is handed to the
/// reader or dropped by a forward seek, is handed out in order, so that it can be copied.
pub struct SegmentStream {
    current: Vec<u8>,
    position: u64,
    finished: bool,
}

/// What a seek that can't be done is told.
pub open spec fn backward_text() -> Seq<char> {
    "SegmentStream does not support seeking backwards yet (see issue #10); only forward positioning over the live download is supported"@
}

impl SegmentStream {
    /// The bytes that were received and not yet handed out.
    pub closed spec fn held(self) -> Seq<u8> {
        self.current@
    }

    /// How many bytes were handed out.
    pub closed spec fn spec_position(self) -> u64 {
        self.position
    }

    /// Whether nothing more will come.
    pub closed spec fn spec_finished(self) -> bool {
        self.finished
    }

    /// Whether what is held can be counted along with what was handed out.
    pub open spec fn wf(self) -> bool {
        self.spec_position() + self.held().len() <= u64::MAX
    }

    /// A stream that nothing came from yet.
    pub fn new() -> (r: Self)
        ensures
            r.held() == Seq::<u8>::empty(),
            r.spec_position() == 0,
            !r.spec_finished(),
            r.wf(),
    {
        SegmentStream { current: Vec::new(), position: 0, finished: false }
    }

    /// Where the stream is.
    pub fn position(&self) -> (r: u64)
        ensures
            r == self.spec_position(),
    {
        self.position
    }

    /// Whether something has to be received before more can be handed out.
    pub fn needs_chunk(&self) -> (r: bool)
        ensures
            r == (self.held().len() == 0 && !self.spec_finished()),
    {
        self.current.len() == 0 && !self.finished
    }

    /// Something was received. Returns whether there may be more to hand out; an error is given
    /// once, and the stream is over after it.
    pub fn refill(&mut self, received: Received) -> (r: Result<bool, String>)
        requires
            old(self).held().len() == 0,
            !old(self).spec_finished(),
            received matches Received::Chunk(bytes) ==> old(self).spec_position() + bytes@.len()
                <= u64::MAX,
        ensures
            final(self).wf(),
            final(self).spec_position() == old(self).spec_position(),
            match received {
                Received::Chunk(bytes) => r == Ok::<bool, String>(true) && final(self).held()
                    == bytes@ && !final(self).spec_finished(),
                Received::Failed(why) => r == Err::<bool, String>(why) && final(self).held().len()
                    == 0 && final(self).spec_finished(),
                Received::Closed => r == Ok::<bool, String>(false) && final(self).held().len() == 0
                    && final(self).spec_finished(),
            },
    {
        match received {
            Received::Chunk(bytes) => {
                self.current = bytes;
                Ok(true)
            },
            Received::Failed(why) => {
                self.finished = true;
                Err(why)
            },
            Received::Closed => {
                self.finished = true;
                Ok(false)
            },
        }
    }

    /// Hands out up to `most` of the bytes that are held.
    pub fn take(&mut self, most: u64) -> (r: Vec<u8>)
        requires
            old(self).wf(),
        ensures
            ({
                let count = if most <= old(self).held().len() {
                    most as int
                } else {
                    old(self).held().len() as int
                };
                &&& r@ == old(self).held().take(count)
                &&& final(self).held() == old(self).held().skip(count)
                &&& final(self).spec_position() == old(self).spec_position() + count
            }),
            final(self).spec_finished() == old(self).spec_finished(),
            final(self).wf(),
    {
        let count: usize = if most <= self.current.len() as u64 {
            most as usize
        } else {
            self.current.len()
        };
        let mut rest: Vec<u8> = self.current.split_off(count);
        std::mem::swap(&mut rest, &mut self.current);
        self.position = self.position + count as u64;
        rest
    }

    /// How far ahead of where the stream is a seek leads; a seek back, or from the end, can't be
    /// done.
    pub open spec fn distance(self, to: SeekPos) -> Option<nat> {
        match to {
            SeekPos::Current(by) => if by >= 0 {
                Some(by as nat)
            } else {
                None
            },
            SeekPos::Start(at) => if at >= self.spec_position() {
                Some((at - self.spec_position()) as nat)
            } else {
                None
            },
            SeekPos::End(_) => None,
        }
    }

    /// How many bytes a seek has to drop; an error if it can't be done. Fewer are dropped if the
    /// stream ends before.
    pub fn seek(&self, to: SeekPos) -> (r: Result<u64, String>)
        ensures
            match self.distance(to) {
                Some(count) => r matches Ok(c) && c == count,
                None => r matches Err(why) && why@ == backward_text(),
            },
    {
        match to {
            SeekPos::Current(by) => {
                if by >= 0 {
                    return Ok(by as u64);
                }
            },
            SeekPos::Start(at) => {
                if at >= self.position {
                    return Ok(at - self.position);
                }
            },
            SeekPos::End(_) => {},
        }
        Err(
            "SegmentStream does not support seeking backwards yet (see issue #10); only forward positioning over the live download is supported".to_owned(),
        )
    }

    /// A stream that a download feeds cannot be sought by whoever reads it.
    pub fn is_seekable(&self) -> (r: bool)
        ensures
            !r,
    {
        false
    }

    /// Nor is it known how long it is.
    pub fn byte_len(&self) -> (r: Option<u64>)
        ensures
            r is None,
    {
        None
    }
}

/// What is handed out and what is still held are together what was held: no byte is lost, and
/// none comes twice.
pub proof fn taking_splits_what_is_held(held: Seq<u8>, count: int)
    requires
        0 <= count <= held.len(),
    ensures
        held.take(count) + held.skip(count) == held,
{
    assert(held.take(count) + held.skip(count) =~= held);
}

// ---- downloading a segment -------------------------------------------------------------------

/// How one try to download a segment went.
#[derive(Debug, PartialEq, Eq)]
pub enum Tried {
    /// The server answered with this status, by its number and its text.
    Status(u16, String),
    /// The server could not be reached, with why.
    Unreachable(String),
    /// The bytes could not be read, with why.
    Unreadable(String),
}

/// What follows from a try.
#[derive(Debug, PartialEq, Eq)]
pub enum AfterTry {
    /// The segment does not exist.
    Missing,
    /// Its bytes are to be read.
    Read,
    /// It did not work, with why. Another try may.
    Failed(String),
}

/// Whether a status says that a segment does not exist.
pub open spec fn is_missing(status: u16) -> bool {
    status == 404 || status == 403
}

/// Whether a status says that all is well.
pub open spec fn is_success(status: u16) -> bool {
    200 <= status < 300
}

/// What is said of a failed try, the `attempt`-th.
pub open spec fn failure_text(tried: Tried, attempt: u32) -> Seq<char> {
    match tried {
        Tried::Status(_, text) => "HTTP "@ + text@ + " downloading segment"@,
        Tried::Unreachable(why) => "attempt "@ + decimal_text(attempt as nat) + "/"@
            + decimal_text(MAX_SEGMENT_RETRIES as nat) + ": "@ + why@,
        Tried::Unreadable(why) => "reading segment bytes: "@ + why@,
    }
}

/// What follows from the `attempt`-th try to download a segment. A segment that does not exist
/// (404, 403) is not a failure that another try would mend.
pub fn after_try(tried: Tried, attempt: u32) -> (r: AfterTry)
    ensures
        match tried {
            Tried::Status(status, _) if is_missing(status) => r is Missing,
            Tried::Status(status, _) if is_success(status) => r is Read,
            _ => r matches AfterTry::Failed(why) && why@ == failure_text(tried, attempt),
        },
{
    let mut text = String::new();
    match &tried {
        Tried::Status(status, name) => {
            if *status == 404 || *status == 403 {
                return AfterTry::Missing;
            }
            if 200 <= *status && *status < 300 {
                return AfterTry::Read;
            }
            text.push_str("HTTP ");
            text.push_str(name.as_str());
            text.push_str(" downloading segment");
        },
        Tried::Unreachable(why) => {
            text.push_str("attempt ");
            text.push_str(decimal(attempt as u64).as_str());
            text.push_str("/");
            text.push_str(decimal(MAX_SEGMENT_RETRIES as u64).as_str());
            text.push_str(": ");
            text.push_str(why.as_str());
        },
        Tried::Unreadable(why) => {
            text.push_str("reading segment bytes: ");
            text.push_str(why.as_str());
        },
    }
    assert(text@ =~= failure_text(tried, attempt));
    AfterTry::Failed(text)
}

/// Whether another try follows the `attempt`-th, counting from one.
pub fn tries_again(attempt: u32) -> (r: bool)
    ensures
        r == (attempt < MAX_SEGMENT_RETRIES),
{
    attempt < MAX_SEGMENT_RETRIES
}

// ---- downloading a track ---------------------------------------------------------------------

/// How the download of a segment ended.
#[derive(Debug, PartialEq, Eq)]
pub enum Fetched {
    /// Its bytes are there.
    Got,
    /// It does not exist.
    Missing,
    /// It failed, with why.
    Failed(String),
}

/// What the download of a track does next.
#[derive(Debug, PartialEq, Eq)]
pub enum NextStep {
    /// Hand the bytes on, and go on with what [`DashDownload::next`] says.
    Continue,
    /// End with this error.
    Fail(String),
    /// End.
    Done,
}

/// The download of the media segments of a track, in order.
pub struct DashDownload {
    dash: DashSegments,
    number: u64,
    last: Option<u32>,
    downloaded: u64,
}

/// What is said when the initialization segment does not exist.
pub open spec fn no_init_text(url: Seq<char>) -> Seq<char> {
    "the initialization segment does not exist (HTTP 404/403): "@ + url
}

/// What to do once the initialization segment, which always comes first, was asked for at `url`.
pub fn after_init(fetched: Fetched, url: &str) -> (r: NextStep)
    ensures
        match fetched {
            Fetched::Got => r is Continue,
            Fetched::Missing => r matches NextStep::Fail(why) && why@ == no_init_text(url@),
            Fetched::Failed(why) => r == NextStep::Fail(why),
        },
{
    match fetched {
        Fetched::Got => NextStep::Continue,
        Fetched::Missing => NextStep::Fail(
            joined("the initialization segment does not exist (HTTP 404/403): ", url),
        ),
        Fetched::Failed(why) => NextStep::Fail(why),
    }
}

/// The line that announces the download of a track.
pub open spec fn buffering_text(dash: DashSegments) -> Seq<char> {
    match dash.segment_count {
        Some(total) => "Buffering "@ + decimal_text(PREFETCH_DEPTH as nat)
            + " segments ahead (track has "@ + decimal_text(total as nat) + " segments)..."@,
        None => "Buffering "@ + decimal_text(PREFETCH_DEPTH as nat) + " segments ahead..."@,
    }
}

/// The line that announces the download of a track.
pub fn buffering_note(dash: &DashSegments) -> (r: String)
    ensures
        r@ == buffering_text(*dash),
{
    let mut text = String::new();
    text.push_str("Buffering ");
    text.push_str(decimal(PREFETCH_DEPTH as u64).as_str());
    match dash.segment_count {
        Some(total) => {
            text.push_str(" segments ahead (track has ");
            text.push_str(decimal(total as u64).as_str());
            text.push_str(" segments)...");
        },
        None => {
            text.push_str(" segments ahead...");
        },
    }
    assert(text@ =~= buffering_text(*dash));
    text
}

impl DashDownload {
    /// The track.
    pub closed spec fn dash(self) -> DashSegments {
        self.dash
    }

    /// The number of the segment that is next.
    pub closed spec fn number(self) -> nat {
        self.number as nat
    }

    /// The number of the last segment, if it is known.
    pub closed spec fn last(self) -> Option<u32> {
        self.last
    }

    /// How many segments were downloaded.
    pub closed spec fn downloaded(self) -> nat {
        self.downloaded as nat
    }

    /// What holds of a download at every moment.
    pub open spec fn wf(self) -> bool {
        &&& self.number() <= u32::MAX + 1
        &&& self.downloaded() <= self.number()
    }

    /// A download from segment `first_segment` on.
    pub fn new(dash: DashSegments, first_segment: u32) -> (r: Self)
        requires
            dash.last_number_fits(),
        ensures
            r.dash() == dash,
            r.number() == first_segment,
            match dash.segment_count {
                Some(count) => r.last() == Some(
                    (dash.start_number + (if count == 0 {
                        0
                    } else {
                        count - 1
                    })) as u32,
                ),
                None => r.last() is None,
            },
            r.downloaded() == 0,
            r.wf(),
    {
        let last = match dash.segment_count {
            Some(count) => Some(dash.start_number + count.saturating_sub(1)),
            None => None,
        };
        DashDownload { dash, number: first_segment as u64, last, downloaded: 0 }
    }

    /// Whether there is another segment to ask for: up to the last one if it is known, and
    /// otherwise as long as there are numbers.
    pub open spec fn has_next(self) -> bool {
        self.number() <= match self.last() {
            Some(last) => last,
            None => u32::MAX,
        }
    }

    /// The URL of the next segment to ask for, if there is one.
    pub fn next(&self) -> (r: Option<String>)
        requires
            self.wf(),
        ensures
            match r {
                Some(url) => self.has_next() && url@ == crate::text::replaced(
                    self.dash().media_url_template@,
                    "$Number$"@,
                    decimal_text(self.number()),
                ),
                None => !self.has_next(),
            },
    {
        let last: u32 = match self.last {
            Some(last) => last,
            None => u32::MAX,
        };
        if self.number <= last as u64 {
            Some(self.dash.segment_url(self.number as u32))
        } else {
            None
        }
    }

    /// What is said when a segment is missing that should be there.
    pub open spec fn missing_text(self) -> Seq<char> {
        match self.dash().segment_count {
            Some(count) => "segment "@ + decimal_text(self.number())
                + " does not exist (HTTP 404/403) but the manifest expected "@ + decimal_text(
                count as nat,
            ) + " segments"@,
            None =>
                "could not download any media segment (the first one already returned 404/403): "@
                + crate::text::replaced(
                self.dash().media_url_template@,
                "$Number$"@,
                decimal_text(self.number()),
            ),
        }
    }

    /// What follows from how the download of the next segment ended. Where the number of segments
    /// is not known, one that does not exist is the end of the track, unless it is the first.
    pub fn after(&mut self, fetched: Fetched) -> (r: NextStep)
        requires
            old(self).wf(),
            old(self).has_next(),
        ensures
            final(self).wf(),
            final(self).dash() == old(self).dash(),
            final(self).last() == old(self).last(),
            !(fetched is Got) ==> final(self).number() == old(self).number(),
            !(fetched is Got) ==> final(self).downloaded() == old(self).downloaded(),
            match fetched {
                Fetched::Got => {
                    &&& r is Continue
                    &&& final(self).number() == old(self).number() + 1
                    &&& final(self).downloaded() == old(self).downloaded() + 1
                },
                Fetched::Missing => if old(self).dash().segment_count is Some || old(self).downloaded()
                    == 0 {
                    r matches NextStep::Fail(why) && why@ == old(self).missing_text()
                } else {
                    r is Done
                },
                Fetched::Failed(why) => r == NextStep::Fail(why),
            },
    {
        match fetched {
            Fetched::Got => {
                self.number = self.number + 1;
                self.downloaded = self.downloaded + 1;
                NextStep::Continue
            },
            Fetched::Missing => {
                let mut text = String::new();
                match self.dash.segment_count {
                    Some(count) => {
                        text.push_str("segment ");
                        text.push_str(decimal(self.number).as_str());
                        text.push_str(
                            " does not exist (HTTP 404/403) but the manifest expected ",
                        );
                        text.push_str(decimal(count as u64).as_str());
                        text.push_str(" segments");
                    },
                    None => {
                        if self.downloaded > 0 {
                            return NextStep::Done;
                        }
                        text.push_str(
                            "could not download any media segment (the first one already returned 404/403): ",
                        );
                        text.push_str(self.dash.segment_url(self.number as u32).as_str());
                    },
                }
                assert(text@ =~= self.missing_text());
                NextStep::Fail(text)
            },
            Fetched::Failed(why) => NextStep::Fail(why),
        }
    }
}

// ---- downloading from a single URL -----------------------------------------------------------

/// What to do once the server answered for all of a track's audio at `url`, or did not.
pub fn after_request(tried: Tried, url: &str) -> (r: NextStep)
    ensures
        match tried {
            Tried::Status(status, text) => if is_success(status) {
                r is Continue
            } else {
                r matches NextStep::Fail(why) && why@ == "HTTP "@ + text@ + " downloading "@ + url@
            },
            Tried::Unreachable(why) => r matches NextStep::Fail(w) && w@
                == "requesting the audio (JSON manifest): "@ + why@,
            Tried::Unreadable(why) => r matches NextStep::Fail(w) && w@
                == "reading the audio stream: "@ + why@,
        },
{
    match tried {
        Tried::Status(status, text) => {
            if 200 <= status && status < 300 {
                return NextStep::Continue;
            }
            let mut why = String::new();
            why.push_str("HTTP ");
            why.push_str(text.as_str());
            why.push_str(" downloading ");
            why.push_str(url);
            assert(why@ =~= "HTTP "@ + text@ + " downloading "@ + url@);
            NextStep::Fail(why)
        },
        Tried::Unreachable(why) => NextStep::Fail(
            joined("requesting the audio (JSON manifest): ", why.as_str()),
        ),
        Tried::Unreadable(why) => NextStep::Fail(joined("reading the audio stream: ", why.as_str())),
    }
}

} // verus!
