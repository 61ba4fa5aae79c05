//! How to get the audio of one track from TIDAL: where to start reading, and how the result can
//! be moved around in. Which track plays next is not an opener's business: that is the queue's.

use crate::dash::{ticks_nanos, DashSegments, SegmentTiming};
use crate::engine::supplier::SeekMode;
use crate::tidal::ManifestKind;
use crate::time::Duration;
use vstd::prelude::*;

verus! {

/// Where to start streaming a DASH track so that playback can begin at some time, and how the
/// result can be sought afterwards.
#[derive(Debug, Clone, Copy, PartialEq, Eq, Structural)]
pub struct DashOpening {
    /// The number of the first segment to read.
    pub first_segment: u32,
    /// Where that segment starts in the track.
    pub start: Duration,
    /// How the result can be sought.
    pub seek: SeekMode,
}

/// From the first segment on.
pub open spec fn from_the_start(dash: DashSegments, seek: SeekMode) -> DashOpening {
    DashOpening { first_segment: dash.start_number, start: Duration { nanos: 0 }, seek }
}

/// Where to start streaming `dash` for `at`. Without segment timing there is no way to find a
/// position, so the stream is only good for reading forward; and a time that no segment holds is
/// served from the start.
pub open spec fn opening_of(dash: DashSegments, at: Duration) -> DashOpening {
    if dash.timing is Unknown {
        from_the_start(dash, SeekMode::ForwardOnly)
    } else {
        match dash.segment_containing(at) {
            Some(segment) if at@ > 0 => DashOpening {
                first_segment: segment.number,
                start: segment.start,
                seek: SeekMode::Reopen,
            },
            _ => from_the_start(dash, SeekMode::Reopen),
        }
    }
}

/// Whether `opening` starts at the `i`-th segment of a timeline.
pub open spec fn opens_at(dash: DashSegments, i: int, opening: DashOpening) -> bool {
    &&& dash.segment_at(i as nat, dash.timing->Explicit_starts@[i] as nat) matches Some(segment)
    &&& opening == (DashOpening {
        first_segment: segment.number,
        start: segment.start,
        seek: SeekMode::Reopen,
    })
}

/// Whether streaming `dash` from `opening` on lets playback begin at `at`. Of a timeline that jumps
/// back, some segment will do: the engine skips to the exact time from wherever that starts.
pub open spec fn is_opening(dash: DashSegments, at: Duration, opening: DashOpening) -> bool {
    &&& dash.is_in_order() ==> opening == opening_of(dash, at)
    &&& !dash.is_in_order() ==> opening == from_the_start(dash, SeekMode::Reopen) || exists|i: int|
        0 <= i < dash.timing->Explicit_starts@.len() && #[trigger] opens_at(dash, i, opening)
    &&& at@ == 0 && !(dash.timing is Unknown) ==> opening == from_the_start(dash, SeekMode::Reopen)
    &&& dash.is_in_order() && dash.has_begun(at) ==> opening.start@ <= at@
}

/// Where to start streaming `dash` so that playback can begin at `at`.
pub fn dash_opening(dash: &DashSegments, at: Duration) -> (r: DashOpening)
    ensures
        is_opening(*dash, at, r),
{
    match &dash.timing {
        SegmentTiming::Unknown => {
            return DashOpening {
                first_segment: dash.start_number,
                start: Duration::zero(),
                seek: SeekMode::ForwardOnly,
            };
        },
        _ => {},
    }
    let from_the_start = DashOpening {
        first_segment: dash.start_number,
        start: Duration::zero(),
        seek: SeekMode::Reopen,
    };
    if at.nanos == 0 {
        return from_the_start;
    }
    match dash.segment_for_time(at) {
        Some(segment) => {
            let opening = DashOpening {
                first_segment: segment.number,
                start: segment.start,
                seek: SeekMode::Reopen,
            };
            proof {
                if !dash.is_in_order() {
                    let starts = dash.timing->Explicit_starts@;
                    let i = choose|i: int|
                        0 <= i < starts.len() && Some(segment) == dash.segment_at(
                            i as nat,
                            #[trigger] starts[i] as nat,
                        );
                    assert(opens_at(*dash, i, opening));
                }
            }
            opening
        },
        None => from_the_start,
    }
}

/// What to stream for a track.
#[derive(Debug, PartialEq, Eq)]
pub enum StreamFrom {
    /// The segments of a DASH track, from this one on; the bytes are an MP4.
    Segments(u32),
    /// All of what is at this URL.
    Url(String),
}

/// How to open a track.
#[derive(Debug, PartialEq, Eq)]
pub struct TrackPlan {
    /// What to stream.
    pub from: StreamFrom,
    /// The length of the track, if the manifest has it.
    pub duration: Option<Duration>,
    /// Where in the track the stream begins.
    pub start: Duration,
    /// How the result can be sought.
    pub seek: SeekMode,
}

/// How to open a track whose audio is at `manifest`, so that playback can begin at `at`. MP4
/// fragments declare no length of their own; the manifest has it. A single URL can only be read
/// from its beginning, and forward.
pub fn plan_track(manifest: &ManifestKind, at: Duration) -> (r: TrackPlan)
    ensures
        match *manifest {
            ManifestKind::Dash(dash) => {
                &&& r.from matches StreamFrom::Segments(first_segment)
                &&& is_opening(dash, at, DashOpening { first_segment, start: r.start, seek: r.seek })
                &&& match dash.length() {
                    Some(nanos) => r.duration matches Some(length) && length@ == nanos,
                    None => r.duration is None,
                }
            },
            ManifestKind::Json { url, codecs } => r == (TrackPlan {
                from: StreamFrom::Url(url),
                duration: None,
                start: Duration { nanos: 0 },
                seek: SeekMode::ForwardOnly,
            }),
        },
{
    match manifest {
        ManifestKind::Dash(dash) => {
            let opening = dash_opening(dash, at);
            TrackPlan {
                from: StreamFrom::Segments(opening.first_segment),
                duration: dash.total_duration(),
                start: opening.start,
                seek: opening.seek,
            }
        },
        ManifestKind::Json { url, codecs: _ } => TrackPlan {
            from: StreamFrom::Url(url.clone()),
            duration: None,
            start: Duration::zero(),
            seek: SeekMode::ForwardOnly,
        },
    }
}

/// What an opener of TIDAL tracks does besides streaming them.
#[derive(Debug, Clone, Copy, PartialEq, Eq, Structural)]
pub struct TidalOpener {
    /// Whether what TIDAL says about a track is printed.
    pub prints: bool,
    /// Whether the next opening is copied.
    pub saves: bool,
}

/// What to do on one opening.
#[derive(Debug, Clone, Copy, PartialEq, Eq, Structural)]
pub struct OpeningExtras {
    /// Print what TIDAL says.
    pub print: bool,
    /// Copy the audio as it streams.
    pub save: bool,
}

impl TidalOpener {
    /// An opener that only streams.
    pub fn new() -> (r: Self)
        ensures
            r == (TidalOpener { prints: false, saves: false }),
    {
        TidalOpener { prints: false, saves: false }
    }

    /// Print what TIDAL says about a track (quality, bit depth, rate) whenever one is opened
    /// from its start.
    pub fn print_info(self) -> (r: Self)
        ensures
            r == (TidalOpener { prints: true, ..self }),
    {
        TidalOpener { prints: true, ..self }
    }

    /// Copy the audio of the first opening as it streams.
    pub fn saving_to(self) -> (r: Self)
        ensures
            r == (TidalOpener { saves: true, ..self }),
    {
        TidalOpener { saves: true, ..self }
    }

    /// A track is opened at `at`. Only openings from the start are printed and copied (reopening
    /// for a seek would append a piece), and only the first of them is copied.
    pub fn opening(&mut self, at: Duration) -> (r: OpeningExtras)
        ensures
            r == (OpeningExtras {
                print: old(self).prints && at@ == 0,
                save: old(self).saves && at@ == 0,
            }),
            *final(self) == (TidalOpener { saves: old(self).saves && at@ != 0, ..*old(self) }),
    {
        let from_start = at.nanos == 0;
        let extras = OpeningExtras {
            print: self.prints && from_start,
            save: self.saves && from_start,
        };
        if from_start {
            self.saves = false;
        }
        extras
    }
}

impl Default for TidalOpener {
    fn default() -> (r: Self)
        ensures
            r == (TidalOpener { prints: false, saves: false }),
    {
        TidalOpener::new()
    }
}

/// Where a seek leads, the stream begins at or before the target, so what is left in between can
/// always be skipped; and it begins with the segment that contains the target, so no more than that
/// is. (A target before the first segment starts is served from that segment, and one that no
/// segment contains from the start.)
pub proof fn a_seek_opens_at_or_before_its_target(dash: DashSegments, at: Duration)
    requires
        dash.is_in_order(),
        dash.has_begun(at),
    ensures
        opening_of(dash, at).start@ <= at@,
        at@ > 0 && dash.segment_containing(at) is Some ==> {
            let segment = dash.segment_containing(at)->0;
            &&& opening_of(dash, at).first_segment == segment.number
            &&& opening_of(dash, at).start == segment.start
            &&& dash.timing matches SegmentTiming::Explicit { starts, end } ==> {
                let next = segment.index + 1;
                at@ < ticks_nanos(
                    if next < starts@.len() {
                        starts@[next as int]
                    } else {
                        end
                    } as nat,
                    dash.timescale,
                )
            }
            &&& dash.timing matches SegmentTiming::Constant { ticks } ==> at@ < ticks_nanos(
                (segment.index + 1) as nat * ticks as nat,
                dash.timescale,
            )
        },
{
    match dash.timing {
        SegmentTiming::Unknown => {},
        SegmentTiming::Explicit { starts, end } => {
            if dash.segment_containing(at) is Some {
                let place = crate::dash::place_of(starts@, at@, dash.timescale);
                crate::dash::the_found_segment_contains_the_time(starts@, at@, dash.timescale);
                crate::dash::a_segment_starts_when_it_says(
                    dash,
                    place,
                    starts@[place as int] as nat,
                );
            }
        },
        SegmentTiming::Constant { ticks } => {
            if dash.segment_containing(at) is Some {
                crate::dash::the_found_constant_segment_contains_the_time(dash, at);
            }
        },
    }
}

} // verus!
