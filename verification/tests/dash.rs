//! DASH manifests: reading one, and finding a segment by its number or by a time.

use phonia_core::dash::{
    duration_to_ticks, flatten_timeline, join_url, parse_iso8601_duration, ticks_to_duration,
    DashSegments, DurationError, DurationPart, SegmentTiming, TimelineEntry,
};
use phonia_core::engine::supplier::SeekMode;
use phonia_core::mpd::{self, CountQuestion};
use phonia_core::openers::{dash_opening, plan_track, DashOpening, StreamFrom, TidalOpener};
use phonia_core::tidal::ManifestKind;
use phonia_core::time::Duration;

fn at(secs: f64) -> Duration {
    Duration { nanos: std::time::Duration::from_secs_f64(secs).as_nanos() }
}

/// The number of seconds that the parts of a duration come to.
fn total_secs(parts: &[DurationPart]) -> f64 {
    parts
        .iter()
        .map(|part| part.number.parse::<f64>().unwrap() * f64::from(part.unit_secs))
        .sum()
}

fn counted(question: &CountQuestion) -> u32 {
    (total_secs(&question.length) * question.timescale as f64 / question.ticks as f64).ceil() as u32
}

/// Reads a manifest and everything in it that takes floating point.
fn parse_mpd(xml: &str) -> Result<DashSegments, String> {
    let manifest = mpd::parse_mpd(xml).map_err(|e| e.message())?;
    let count = match manifest.count_question() {
        Ok(question) => question.as_ref().map(counted),
        Err(error) => return Err(error.message(manifest.duration_text().unwrap())),
    };
    let presentation = manifest.presentation_length().map(|length| at(total_secs(&length)));
    manifest.finish(count, presentation).map_err(|e| e.message())
}

fn parse_iso8601_duration_secs(text: &str) -> Result<f64, DurationError> {
    parse_iso8601_duration(text).map(|parts| total_secs(&parts))
}

const MPD_WITH_TIMELINE: &str = r#"
    <MPD mediaPresentationDuration="PT0H0M0.000S">
      <Period>
        <AdaptationSet mimeType="audio/mp4">
          <Representation codecs="flac" bandwidth="9216000">
            <BaseURL>https://sp-ad-cf.audio.tidal.com/mediatracks/abc/</BaseURL>
            <SegmentTemplate initialization="init.mp4" media="chunk-$Number$.m4s" timescale="96000" startNumber="1">
              <SegmentTimeline>
                <S d="192000" r="10"/>
                <S d="100000"/>
              </SegmentTimeline>
            </SegmentTemplate>
          </Representation>
        </AdaptationSet>
      </Period>
    </MPD>
"#;

const MPD_WITH_DURATION_ONLY: &str = r#"
    <MPD mediaPresentationDuration="PT3M25.123S">
      <Period>
        <AdaptationSet mimeType="audio/mp4">
          <Representation codecs="flac" bandwidth="9216000">
            <BaseURL>https://audio.example.com/track/</BaseURL>
            <SegmentTemplate initialization="init.mp4" media="chunk-$Number$.m4s" timescale="44100" duration="88200" startNumber="1"/>
          </Representation>
        </AdaptationSet>
      </Period>
    </MPD>
"#;

#[test]
fn ampersands_in_signed_urls_are_unescaped() {
    // Regression test: TIDAL's real manifests put pre-signed CDN URLs (with `&`-separated
    // query parameters, escaped as `&amp;` per the XML spec) in `initialization`/`media`.
    // Reading the raw attribute bytes without unescaping corrupts the URL's signature,
    // which the CDN then rejects with a 404/403.
    let xml = r#"
        <MPD>
          <Period>
            <AdaptationSet mimeType="audio/mp4">
              <Representation codecs="flac">
                <BaseURL>https://cdn.example.com/track/?a=1&amp;b=2/</BaseURL>
                <SegmentTemplate initialization="init.mp4?x=1&amp;y=2" media="chunk-$Number$.m4s?x=1&amp;y=2" startNumber="1"/>
              </Representation>
            </AdaptationSet>
          </Period>
        </MPD>
    "#;
    let parsed = parse_mpd(xml).expect("should parse");
    assert_eq!(
        parsed.init_url,
        "https://cdn.example.com/track/?a=1&b=2/init.mp4?x=1&y=2"
    );
    assert_eq!(
        parsed.media_url_template,
        "https://cdn.example.com/track/?a=1&b=2/chunk-$Number$.m4s?x=1&y=2"
    );
}

#[test]
fn segment_timeline_counts_s_elements_with_repeat() {
    let parsed = parse_mpd(MPD_WITH_TIMELINE).expect("should parse");
    // <S d="192000" r="10"/> -> 1 + 10 = 11, plus <S d="100000"/> -> 1 = 12 total.
    assert_eq!(parsed.segment_count, Some(12));
}

#[test]
fn relative_urls_are_resolved_against_base_url() {
    let parsed = parse_mpd(MPD_WITH_TIMELINE).expect("should parse");
    assert_eq!(
        parsed.init_url,
        "https://sp-ad-cf.audio.tidal.com/mediatracks/abc/init.mp4"
    );
    assert_eq!(
        parsed.media_url_template,
        "https://sp-ad-cf.audio.tidal.com/mediatracks/abc/chunk-$Number$.m4s"
    );
    assert_eq!(parsed.start_number, 1);
    assert_eq!(
        parsed.segment_url(3),
        "https://sp-ad-cf.audio.tidal.com/mediatracks/abc/chunk-3.m4s"
    );
    assert_eq!(parsed.codecs.as_deref(), Some("flac"));
}

#[test]
fn duration_and_timescale_fallback_computes_segment_count() {
    let parsed = parse_mpd(MPD_WITH_DURATION_ONLY).expect("should parse");
    // 205.123s * 44100 / 88200 = 102.5615 -> ceil -> 103.
    assert_eq!(parsed.segment_count, Some(103));
    assert_eq!(parsed.init_url, "https://audio.example.com/track/init.mp4");
}

#[test]
fn absolute_urls_are_left_untouched_even_without_base_url() {
    let xml = r#"
        <MPD>
          <Period>
            <AdaptationSet mimeType="audio/mp4">
              <Representation codecs="flac">
                <SegmentTemplate initialization="https://cdn.example.com/init.mp4" media="https://cdn.example.com/chunk-$Number$.m4s" startNumber="0"/>
              </Representation>
            </AdaptationSet>
          </Period>
        </MPD>
    "#;
    let parsed = parse_mpd(xml).expect("should parse");
    assert_eq!(parsed.init_url, "https://cdn.example.com/init.mp4");
    assert_eq!(parsed.start_number, 0);
    assert_eq!(parsed.segment_count, None);
}

#[test]
fn parse_iso8601_duration_handles_minutes_and_fractional_seconds() {
    let secs = parse_iso8601_duration_secs("PT3M25.123S").expect("should parse");
    assert!((secs - 205.123).abs() < 1e-9);
}

#[test]
fn parse_iso8601_duration_handles_seconds_only() {
    let secs = parse_iso8601_duration_secs("PT96S").expect("should parse");
    assert!((secs - 96.0).abs() < 1e-9);
}

#[test]
fn parse_iso8601_duration_rejects_missing_prefix() {
    assert!(parse_iso8601_duration_secs("3M25S").is_err());
}

#[test]
fn segment_range_uses_start_number_and_count() {
    let parsed = parse_mpd(MPD_WITH_TIMELINE).expect("should parse");
    assert_eq!(parsed.segment_range(), Some(1..=12));
}

#[test]
fn missing_segment_template_is_an_error() {
    let xml = "<MPD><Period><AdaptationSet mimeType=\"audio/mp4\"/></Period></MPD>";
    assert!(parse_mpd(xml).is_err());
}

/// The shape of a real TIDAL HiRes manifest (24-bit/192 kHz, 5:48.68): 87 equal segments and
/// a shorter last one.
const MPD_TIDAL_LIKE: &str = r#"
    <MPD mediaPresentationDuration="PT5M48.68S">
      <Period><AdaptationSet><Representation codecs="flac">
        <SegmentTemplate timescale="192000" initialization="https://cdn/0.mp4" media="https://cdn/$Number$.mp4" startNumber="1">
          <SegmentTimeline><S d="765952" r="86"/><S d="308736"/></SegmentTimeline>
        </SegmentTemplate>
      </Representation></AdaptationSet></Period>
    </MPD>
"#;

#[test]
fn timeline_gives_the_track_length_and_segment_count() {
    let dash = parse_mpd(MPD_TIDAL_LIKE).unwrap();
    assert_eq!(dash.segment_count, Some(88));
    assert_eq!(dash.total_duration(), Some(Duration::from_millis(348_680)));
}

#[test]
fn segment_for_time_finds_the_containing_segment() {
    let dash = parse_mpd(MPD_TIDAL_LIKE).unwrap();
    let first = dash.segment_for_time(Duration::zero()).unwrap();
    assert_eq!(
        (first.number, first.index, first.start),
        (1, 0, Duration::zero())
    );

    // 30 s is 7 full segments of 3.9893 s in, so it falls in segment 8 (index 7).
    let mid = dash.segment_for_time(at(30.0)).unwrap();
    assert_eq!((mid.number, mid.index), (8, 7));
    assert_eq!(mid.start, ticks_to_duration(7 * 765_952, 192_000));
    assert!(mid.start <= at(30.0));

    let last = dash.segment_for_time(at(348.0)).unwrap();
    assert_eq!((last.number, last.index), (88, 87));
}

#[test]
fn a_time_exactly_on_a_boundary_belongs_to_the_segment_that_starts_there() {
    let dash = parse_mpd(MPD_TIDAL_LIKE).unwrap();
    // The boundary is not a whole number of nanoseconds, which is what once put it one tick
    // into the previous segment.
    let boundary = ticks_to_duration(765_952, 192_000);
    assert_eq!(dash.segment_for_time(boundary).unwrap().number, 2);
    assert_eq!(
        dash.segment_for_time(boundary.saturating_sub(Duration::from_millis(1)))
            .unwrap()
            .number,
        1
    );
}

#[test]
fn segment_for_time_is_none_at_or_past_the_end() {
    let dash = parse_mpd(MPD_TIDAL_LIKE).unwrap();
    assert!(dash.segment_for_time(at(348.6)).is_some());
    assert_eq!(dash.segment_for_time(Duration::from_millis(348_680)), None);
    assert_eq!(dash.segment_for_time(at(1_000.0)), None);
}

#[test]
fn constant_duration_segments_are_found_by_division() {
    // 2 s segments over 205.123 s: 103 of them, the last one partial.
    let dash = parse_mpd(MPD_WITH_DURATION_ONLY).unwrap();
    assert_eq!(dash.timing, SegmentTiming::Constant { ticks: 88_200 });

    let first = dash.segment_for_time(Duration::zero()).unwrap();
    assert_eq!((first.number, first.start), (1, Duration::zero()));
    let second = dash.segment_for_time(at(2.0)).unwrap();
    assert_eq!((second.number, second.start), (2, at(2.0)));
    let last = dash.segment_for_time(at(205.0)).unwrap();
    assert_eq!((last.number, last.start), (103, at(204.0)));

    assert_eq!(
        dash.segment_for_time(at(205.2)),
        None,
        "past the end of the last, partial, segment"
    );
}

#[test]
fn timeline_gaps_and_repeats_are_flattened() {
    let xml = r#"
        <MPD><Period><AdaptationSet><Representation>
          <SegmentTemplate timescale="100" initialization="i" media="m$Number$">
            <SegmentTimeline><S t="0" d="100" r="1"/><S t="500" d="100"/></SegmentTimeline>
          </SegmentTemplate>
        </Representation></AdaptationSet></Period></MPD>"#;
    let dash = parse_mpd(xml).unwrap();
    assert_eq!(
        dash.timing,
        SegmentTiming::Explicit {
            starts: vec![0, 100, 500],
            end: 600
        }
    );
    assert_eq!(dash.segment_count, Some(3));

    assert_eq!(dash.segment_for_time(at(1.5)).unwrap().index, 1);
    let in_the_gap = dash.segment_for_time(at(3.0)).unwrap();
    assert_eq!(
        (in_the_gap.index, in_the_gap.start),
        (1, at(1.0)),
        "a gap belongs to the segment before it"
    );
    assert_eq!(dash.segment_for_time(at(5.0)).unwrap().index, 2);
    assert_eq!(dash.segment_for_time(at(6.0)), None);
}

#[test]
fn segment_numbers_follow_start_number() {
    let xml = r#"
        <MPD><Period><AdaptationSet><Representation>
          <SegmentTemplate timescale="100" initialization="i" media="m$Number$" startNumber="5">
            <SegmentTimeline><S d="100" r="3"/></SegmentTimeline>
          </SegmentTemplate>
        </Representation></AdaptationSet></Period></MPD>"#;
    let dash = parse_mpd(xml).unwrap();
    let found = dash.segment_for_time(at(2.5)).unwrap();
    assert_eq!((found.number, found.index), (7, 2));
    assert_eq!(dash.segment_range(), Some(5..=8));
    assert_eq!(dash.segment_range_from(7), Some(7..=8));
    assert!(dash.segment_range_from(9).unwrap().is_empty());
}

#[test]
fn presentation_time_offset_is_subtracted_from_the_timeline() {
    let xml = r#"
        <MPD><Period><AdaptationSet><Representation>
          <SegmentTemplate timescale="100" initialization="i" media="m$Number$" presentationTimeOffset="1000">
            <SegmentTimeline><S t="1000" d="100" r="1"/></SegmentTimeline>
          </SegmentTemplate>
        </Representation></AdaptationSet></Period></MPD>"#;
    let dash = parse_mpd(xml).unwrap();
    assert_eq!(
        dash.timing,
        SegmentTiming::Explicit {
            starts: vec![0, 100],
            end: 200
        }
    );
    assert_eq!(dash.segment_for_time(at(1.5)).unwrap().index, 1);
}

#[test]
fn an_unbounded_repeat_falls_back_to_constant_segments() {
    let xml = r#"
        <MPD mediaPresentationDuration="PT10S"><Period><AdaptationSet><Representation>
          <SegmentTemplate timescale="100" initialization="i" media="m$Number$">
            <SegmentTimeline><S d="100" r="-1"/></SegmentTimeline>
          </SegmentTemplate>
        </Representation></AdaptationSet></Period></MPD>"#;
    let dash = parse_mpd(xml).unwrap();
    assert_eq!(dash.timing, SegmentTiming::Constant { ticks: 100 });
    assert_eq!(dash.segment_count, Some(10));
    assert_eq!(dash.segment_for_time(at(9.5)).unwrap().number, 10);
}

#[test]
fn without_timing_information_seeking_is_impossible() {
    let xml = r#"<MPD><Period><AdaptationSet><Representation>
          <SegmentTemplate initialization="i" media="m$Number$"/>
        </Representation></AdaptationSet></Period></MPD>"#;
    let dash = parse_mpd(xml).unwrap();
    assert_eq!(dash.timing, SegmentTiming::Unknown);
    assert_eq!(dash.total_duration(), None);
    assert_eq!(dash.segment_for_time(at(1.0)), None);
}

#[test]
fn the_last_tidal_segment_range_can_resume_from_the_middle() {
    let dash = parse_mpd(MPD_TIDAL_LIKE).unwrap();
    assert_eq!(dash.segment_range_from(30), Some(30..=88));
}

#[test]
fn openers_a_dash_track_starts_from_its_first_segment_and_can_be_reopened() {
    let dash = parse_mpd(MPD_TIDAL_LIKE).unwrap();
    assert_eq!(
        dash_opening(&dash, Duration::zero()),
        DashOpening { first_segment: 1, start: Duration::zero(), seek: SeekMode::Reopen }
    );
}

#[test]
fn openers_a_dash_seek_reopens_at_the_segment_containing_the_target() {
    let dash = parse_mpd(MPD_TIDAL_LIKE).unwrap();
    let opening = dash_opening(&dash, Duration::from_secs(30));
    // 30 s falls in the eighth 3.989 s segment.
    assert_eq!((opening.first_segment, opening.seek), (8, SeekMode::Reopen));
    assert!(opening.start <= Duration::from_secs(30));
    assert!(Duration::from_secs(30).saturating_sub(opening.start) < Duration::from_secs(4), "the rest is skipped by the engine");
}

#[test]
fn openers_a_dash_track_without_timing_can_only_be_read_forward() {
    let xml = r#"<MPD><Period><AdaptationSet><Representation>
          <SegmentTemplate initialization="i" media="m$Number$" startNumber="1"/>
        </Representation></AdaptationSet></Period></MPD>"#;
    let dash = parse_mpd(xml).unwrap();
    assert_eq!(
        dash_opening(&dash, Duration::from_secs(30)),
        DashOpening { first_segment: 1, start: Duration::zero(), seek: SeekMode::ForwardOnly }
    );
}

#[test]
fn suppliers_a_dash_track_starts_from_its_first_segment_and_can_be_reopened() {
    let dash = parse_mpd(MPD_TIDAL_LIKE).unwrap();
    assert_eq!(
        dash_opening(&dash, Duration::zero()),
        DashOpening { first_segment: 1, start: Duration::zero(), seek: SeekMode::Reopen }
    );
}

#[test]
fn suppliers_a_dash_seek_reopens_at_the_segment_containing_the_target() {
    let dash = parse_mpd(MPD_TIDAL_LIKE).unwrap();
    let opening = dash_opening(&dash, Duration::from_secs(30));
    // 30 s falls in the eighth 3.989 s segment.
    assert_eq!((opening.first_segment, opening.seek), (8, SeekMode::Reopen));
    assert!(opening.start <= Duration::from_secs(30));
    assert!(Duration::from_secs(30).saturating_sub(opening.start) < Duration::from_secs(4), "the rest is skipped by the engine");
}

#[test]
fn suppliers_a_dash_track_without_timing_can_only_be_read_forward() {
    let xml = r#"<MPD><Period><AdaptationSet><Representation>
          <SegmentTemplate initialization="i" media="m$Number$" startNumber="1"/>
        </Representation></AdaptationSet></Period></MPD>"#;
    let dash = parse_mpd(xml).unwrap();
    assert_eq!(
        dash_opening(&dash, Duration::from_secs(30)),
        DashOpening { first_segment: 1, start: Duration::zero(), seek: SeekMode::ForwardOnly }
    );
}

// ---- the edges of a manifest -------------------------------------------------------------------

fn template(attributes: &str, inside: &str) -> String {
    format!(
        "<MPD><Period><AdaptationSet><Representation><SegmentTemplate {attributes}>{inside}</SegmentTemplate></Representation></AdaptationSet></Period></MPD>"
    )
}

#[test]
fn a_manifest_without_urls_says_which_one_is_missing() {
    assert_eq!(
        parse_mpd(&template("media=\"m\"", "")).unwrap_err(),
        "the MPD manifest has no <SegmentTemplate initialization=...>"
    );
    assert_eq!(
        parse_mpd(&template("initialization=\"i\"", "")).unwrap_err(),
        "the MPD manifest has no <SegmentTemplate media=...>"
    );
}

#[test]
fn what_is_not_xml_is_an_error() {
    let error = parse_mpd("<MPD><Period></MPD>").unwrap_err();
    assert!(error.starts_with("error reading the MPD manifest XML: "), "{error}");
    let error = parse_mpd(&template("initialization=\"i&nope;\" media=\"m\"", "")).unwrap_err();
    assert!(error.starts_with("unescaping an XML attribute value: "), "{error}");
}

#[test]
fn entities_and_character_references_in_the_base_url_are_resolved() {
    let with_base = |base: &str| {
        parse_mpd(&format!(
            "<MPD><BaseURL>{base}</BaseURL><SegmentTemplate initialization=\"i\" media=\"m\"/></MPD>"
        ))
    };
    assert_eq!(with_base("https://a/?x=1&amp;y=2&#47;").unwrap().init_url, "https://a/?x=1&y=2/i");
    assert!(with_base("https://a/&nope;").is_err());
    assert!(with_base("https://a/&#xZZ;").is_err());
}

#[test]
fn a_length_that_cannot_be_made_out_only_matters_where_it_is_counted() {
    let xml = |attributes: &str| {
        format!(
            "<MPD mediaPresentationDuration=\"soon\"><SegmentTemplate initialization=\"i\" media=\"m\" {attributes}/></MPD>"
        )
    };
    let dash = parse_mpd(&xml("")).unwrap();
    assert_eq!((dash.segment_count, dash.presentation_duration), (None, None));
    assert!(parse_mpd(&xml("duration=\"5\" timescale=\"1\"")).is_err());
}

#[test]
fn a_duration_is_made_of_hours_minutes_and_seconds() {
    assert_eq!(parse_iso8601_duration_secs("PT1H2M3.5S").unwrap(), 3723.5);
    assert_eq!(parse_iso8601_duration("3M25S"), Err(DurationError::NoPrefix));
    assert_eq!(parse_iso8601_duration("PT3D"), Err(DurationError::Unexpected('D')));
    assert_eq!(
        parse_iso8601_duration("PT1.2.3S"),
        Err(DurationError::BadNumber("1.2.3".to_string()))
    );
    assert_eq!(
        DurationError::NoPrefix.message("3M25S"),
        "invalid ISO8601 duration (missing the PT prefix): 3M25S"
    );
}

#[test]
fn ticks_come_back_from_a_duration() {
    for ticks in [0u64, 1, 7, 765_952, 66_637_824] {
        assert_eq!(duration_to_ticks(ticks_to_duration(ticks, 192_000), 192_000), ticks);
    }
    assert_eq!(ticks_to_duration(765_952, 192_000).nanos, 3_989_333_333);
    assert_eq!(ticks_to_duration(3, 0), Duration::from_secs(3), "a timescale of zero counts as one");
}

/// A manifest of segments of one length, of a track that lasts `length`.
fn mpd_lasting(length: &str) -> String {
    format!(
        "<MPD mediaPresentationDuration=\"{length}\"><Period><AdaptationSet><Representation>\
         <SegmentTemplate timescale=\"10\" duration=\"20\" initialization=\"i\" media=\"m$Number$\"/>\
         </Representation></AdaptationSet></Period></MPD>"
    )
}

#[test]
fn a_length_that_makes_no_sense_is_an_error_that_names_it() {
    assert_eq!(parse_mpd(&mpd_lasting("PT3S")).unwrap().segment_count, Some(2));
    assert_eq!(
        parse_mpd(&mpd_lasting("3S")).unwrap_err(),
        "invalid ISO8601 duration (missing the PT prefix): 3S"
    );
    assert_eq!(
        parse_mpd(&mpd_lasting("PT1.2.3S")).unwrap_err(),
        "could not parse number '1.2.3' in ISO8601 duration: PT1.2.3S"
    );
}

fn segments(timescale: u64, segment_count: Option<u32>, timing: SegmentTiming) -> DashSegments {
    DashSegments {
        init_url: "i".into(),
        media_url_template: "m$Number$".into(),
        start_number: 1,
        segment_count,
        codecs: None,
        timescale,
        timing,
        presentation_duration: None,
    }
}

#[test]
fn a_segment_is_never_found_before_it_starts() {
    let coarse =
        segments(1, Some(2), SegmentTiming::Explicit { starts: vec![0, 1], end: 2 });
    for (millis, number, start) in [(600, 1, 0), (999, 1, 0), (1_000, 2, 1), (1_999, 2, 1)] {
        let found = coarse.segment_for_time(Duration::from_millis(millis)).unwrap();
        assert_eq!((found.number, found.index, found.start), (number, number - 1, Duration::from_secs(start)));
    }
    assert_eq!(coarse.segment_for_time(Duration::from_secs(2)), None);
    assert_eq!(dash_opening(&coarse, Duration::from_millis(600)).start, Duration::zero());

    let constant = segments(1, None, SegmentTiming::Constant { ticks: 2 });
    for (millis, number) in [(1_600, 1), (1_999, 1), (2_000, 2), (3_999, 2), (4_000, 3)] {
        let found = constant.segment_for_time(Duration::from_millis(millis)).unwrap();
        assert_eq!(found.number, number, "{millis}");
    }
}

#[test]
fn before_the_first_segment_starts_it_is_the_first_one() {
    let late = segments(1, Some(2), SegmentTiming::Explicit { starts: vec![5, 6], end: 7 });
    let found = late.segment_for_time(Duration::from_secs(1)).unwrap();
    assert_eq!((found.index, found.start), (0, Duration::from_secs(5)));
}

#[test]
fn times_and_timescales_of_any_size_find_a_segment_or_none() {
    let huge = Duration { nanos: u128::MAX };
    let explicit =
        segments(u64::MAX, Some(2), SegmentTiming::Explicit { starts: vec![0, 1], end: u64::MAX });
    assert_eq!(explicit.segment_for_time(huge), None);
    assert_eq!(explicit.segment_for_time(Duration::zero()).unwrap().index, 1);
    let long = segments(1, None, SegmentTiming::Constant { ticks: u64::MAX });
    let found = long.segment_for_time(Duration { nanos: u64::MAX as u128 * 3_000_000_000 }).unwrap();
    assert_eq!((found.index, found.start.nanos), (3, u64::MAX as u128 * 3_000_000_000));
    assert_eq!(
        segments(u64::MAX, None, SegmentTiming::Constant { ticks: u64::MAX }).segment_for_time(huge),
        None
    );
}

#[test]
fn a_url_is_absolute_or_hangs_on_its_base() {
    assert_eq!(join_url(Some("https://a/b"), "c"), "https://a/b/c");
    assert_eq!(join_url(Some("https://a/b/"), "c"), "https://a/b/c");
    assert_eq!(join_url(Some("https://a/b/"), "http://x/c"), "http://x/c");
    assert_eq!(join_url(None, "c"), "c");
}

#[test]
fn a_timeline_flattens_to_when_each_segment_starts() {
    let entries = vec![
        TimelineEntry { t: Some(10), d: 5, r: 2 },
        TimelineEntry { t: None, d: 7, r: 0 },
    ];
    assert_eq!(flatten_timeline(&entries, 10), Some((vec![0, 5, 10, 15], 22)));
    assert_eq!(flatten_timeline(&vec![TimelineEntry { t: None, d: 7, r: -1 }], 0), None);
}

// ---- opening -----------------------------------------------------------------------------------

#[test]
fn a_plan_names_what_to_stream_and_how_far_it_can_be_sought() {
    let dash = parse_mpd(MPD_TIDAL_LIKE).unwrap();
    let plan = plan_track(&ManifestKind::Dash(dash), Duration::from_secs(30));
    assert_eq!((plan.from, plan.seek), (StreamFrom::Segments(8), SeekMode::Reopen));
    assert_eq!(plan.duration, Some(Duration::from_millis(348_680)));

    let json = ManifestKind::Json { url: "https://x/a.flac".into(), codecs: "flac".into() };
    let plan = plan_track(&json, Duration::from_secs(30));
    assert_eq!(
        (plan.from, plan.duration, plan.start, plan.seek),
        (StreamFrom::Url("https://x/a.flac".into()), None, Duration::zero(), SeekMode::ForwardOnly)
    );
}

#[test]
fn only_the_first_opening_from_the_start_is_copied() {
    let mut opener = TidalOpener::new().print_info().saving_to();
    let seek = opener.opening(Duration::from_secs(1));
    assert!(!seek.print && !seek.save);
    let first = opener.opening(Duration::zero());
    assert!(first.print && first.save);
    let second = opener.opening(Duration::zero());
    assert!(second.print && !second.save);
    let mut silent = TidalOpener::new();
    let first = silent.opening(Duration::zero());
    assert!(!first.print && !first.save);
}
