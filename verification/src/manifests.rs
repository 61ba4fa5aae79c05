//! What holds of reading a manifest, of the qualities that are asked for, and of a list of files.

use crate::dash::TimelineEntry;
use crate::engine::supplier::Advance;
use crate::mpd::{ManifestView, MpdErrorView};
use crate::pieces::signed_text;
use crate::suppliers::FileSupplier;
use crate::text::decimal_text;
use crate::tidal::{
    after_playback, downgrade_warning, json_manifest, playback_request, quality_word, AudioQuality,
    ManifestKind, PlaybackError, PlaybackRequest,
};
use crate::words::{
    a_number_that_was_written_reads_back, a_whole_number_that_was_written_reads_back,
};
use crate::xml::{attributes_of, entity_text, events_of, value_of, XmlEventView};
use vstd::prelude::*;

verus! {

proof fn lemma_tags_differ()
    ensures
        "MPD"@ != "Representation"@,
        "MPD"@ != "SegmentTemplate"@,
        "MPD"@ != "S"@,
        "Representation"@ != "SegmentTemplate"@,
        "Representation"@ != "S"@,
        "SegmentTemplate"@ != "S"@,
        "SegmentTimeline"@ != "MPD"@,
        "SegmentTimeline"@ != "Representation"@,
        "SegmentTimeline"@ != "SegmentTemplate"@,
        "SegmentTimeline"@ != "S"@,
        "BaseURL"@ != "MPD"@,
        "BaseURL"@ != "Representation"@,
        "BaseURL"@ != "SegmentTemplate"@,
        "BaseURL"@ != "SegmentTimeline"@,
        "BaseURL"@ != "S"@,
{
    reveal_strlit("MPD");
    reveal_strlit("Representation");
    reveal_strlit("SegmentTemplate");
    reveal_strlit("SegmentTimeline");
    reveal_strlit("BaseURL");
    reveal_strlit("S");
    assert("SegmentTemplate"@[8] == 'e');
    assert("SegmentTimeline"@[8] == 'i');
    assert("MPD"@.len() == 3);
    assert("Representation"@.len() == 14);
    assert("SegmentTemplate"@.len() == 15);
    assert("SegmentTimeline"@.len() == 15);
    assert("BaseURL"@.len() == 7);
    assert("S"@.len() == 1);
}

proof fn lemma_keys_differ()
    ensures
        "initialization"@ != "media"@,
        "initialization"@ != "timescale"@,
        "initialization"@ != "duration"@,
        "initialization"@ != "startNumber"@,
        "initialization"@ != "presentationTimeOffset"@,
        "media"@ != "timescale"@,
        "media"@ != "duration"@,
        "media"@ != "startNumber"@,
        "media"@ != "presentationTimeOffset"@,
        "timescale"@ != "duration"@,
        "timescale"@ != "startNumber"@,
        "timescale"@ != "presentationTimeOffset"@,
        "duration"@ != "startNumber"@,
        "duration"@ != "presentationTimeOffset"@,
        "startNumber"@ != "presentationTimeOffset"@,
        "t"@ != "d"@,
        "t"@ != "r"@,
        "d"@ != "r"@,
{
    reveal_strlit("initialization");
    reveal_strlit("media");
    reveal_strlit("timescale");
    reveal_strlit("duration");
    reveal_strlit("startNumber");
    reveal_strlit("presentationTimeOffset");
    reveal_strlit("t");
    reveal_strlit("d");
    reveal_strlit("r");
    assert("t"@[0] == 't');
    assert("d"@[0] == 'd');
    assert("r"@[0] == 'r');
    assert("initialization"@.len() == 14);
    assert("media"@.len() == 5);
    assert("timescale"@.len() == 9);
    assert("duration"@.len() == 8);
    assert("startNumber"@.len() == 11);
    assert("presentationTimeOffset"@.len() == 22);
}

/// What a `<SegmentTemplate>` says is kept as it was written, each in its place and nothing else
/// with it.
pub proof fn a_template_is_kept_as_written(manifest: ManifestView, value: Seq<char>, n: u64, m: u32)
    ensures
        manifest.with_value("SegmentTemplate"@, "initialization"@, value) == (ManifestView {
            init_url: Some(value),
            ..manifest
        }),
        manifest.with_value("SegmentTemplate"@, "media"@, value) == (ManifestView {
            media_url: Some(value),
            ..manifest
        }),
        manifest.with_value("SegmentTemplate"@, "timescale"@, decimal_text(n as nat)) == (
        ManifestView { timescale: Some(n), ..manifest }),
        manifest.with_value("SegmentTemplate"@, "duration"@, decimal_text(n as nat)) == (
        ManifestView { duration: Some(n), ..manifest }),
        manifest.with_value("SegmentTemplate"@, "startNumber"@, decimal_text(m as nat)) == (
        ManifestView { start_number: m, ..manifest }),
        manifest.with_value("SegmentTemplate"@, "presentationTimeOffset"@, decimal_text(n as nat))
            == (ManifestView { time_offset: n, ..manifest }),
        manifest.with_value("MPD"@, "mediaPresentationDuration"@, value) == (ManifestView {
            mpd_duration: Some(value),
            ..manifest
        }),
        manifest.with_value("Representation"@, "codecs"@, value) == (ManifestView {
            codecs: Some(value),
            ..manifest
        }),
{
    lemma_tags_differ();
    lemma_keys_differ();
    a_number_that_was_written_reads_back(n as nat, u64::MAX as nat);
    a_number_that_was_written_reads_back(m as nat, u32::MAX as nat);
}

/// Where a number can't be read, the first segment is number one, nothing is offset, and timescale
/// and length are not known.
pub proof fn numbers_that_cannot_be_read_are_not_made_up(manifest: ManifestView, value: Seq<char>)
    requires
        crate::text::parsed(value, 18_446_744_073_709_551_615) is None,
    ensures
        manifest.with_value("SegmentTemplate"@, "timescale"@, value).timescale is None,
        manifest.with_value("SegmentTemplate"@, "duration"@, value).duration is None,
        manifest.with_value("SegmentTemplate"@, "startNumber"@, value).start_number == 1,
        manifest.with_value("SegmentTemplate"@, "presentationTimeOffset"@, value).time_offset == 0,
        ManifestView::blank().start_number == 1,
        ManifestView::blank().time_offset == 0,
{
    lemma_tags_differ();
    lemma_keys_differ();
}

/// What an `<S>` says belongs to the last entry of the timeline, each in its place; the entries
/// before it are as they were, and so is all the rest.
pub proof fn an_entry_is_kept_as_written(manifest: ManifestView, n: u64, times: i64)
    requires
        manifest.timeline.len() > 0,
    ensures
        ({
            let before = manifest.timeline.drop_last();
            let entry = manifest.timeline.last();
            &&& manifest.with_value("S"@, "t"@, decimal_text(n as nat)) == (ManifestView {
                timeline: before.push(TimelineEntry { t: Some(n), d: entry.d, r: entry.r }),
                ..manifest
            })
            &&& manifest.with_value("S"@, "d"@, decimal_text(n as nat)) == (ManifestView {
                timeline: before.push(TimelineEntry { t: entry.t, d: n, r: entry.r }),
                ..manifest
            })
            &&& manifest.with_value("S"@, "r"@, signed_text(times as int)) == (ManifestView {
                timeline: before.push(TimelineEntry { t: entry.t, d: entry.d, r: times }),
                ..manifest
            })
        }),
{
    lemma_tags_differ();
    lemma_keys_differ();
    a_number_that_was_written_reads_back(n as nat, u64::MAX as nat);
    a_whole_number_that_was_written_reads_back(times);
    let before = manifest.timeline.drop_last();
    let entry = manifest.timeline.last();
    let at = manifest.timeline.len() - 1;
    assert(manifest.timeline.update(at, TimelineEntry { t: Some(n), ..entry }) =~= before.push(
        TimelineEntry { t: Some(n), d: entry.d, r: entry.r },
    ));
    assert(manifest.timeline.update(at, TimelineEntry { d: n, ..entry }) =~= before.push(
        TimelineEntry { t: entry.t, d: n, r: entry.r },
    ));
    assert(manifest.timeline.update(at, TimelineEntry { r: times, ..entry }) =~= before.push(
        TimelineEntry { t: entry.t, d: entry.d, r: times },
    ));
}

/// Attributes are read one after the other: those of two rows behind each other, the one and then
/// the other, up to the first that can't be made out.
pub proof fn attributes_are_read_in_order(
    manifest: ManifestView,
    tag: Seq<char>,
    a: Seq<Option<(Seq<char>, Seq<char>)>>,
    b: Seq<Option<(Seq<char>, Seq<char>)>>,
)
    ensures
        manifest.with_attributes(tag, a + b) == match manifest.with_attributes(tag, a) {
            Ok(after) => after.with_attributes(tag, b),
            Err(error) => Err(error),
        },
    decreases a.len(),
{
    if a.len() == 0 {
        assert(a + b =~= b);
    } else {
        assert((a + b)[0] == a[0]);
        assert((a + b).skip(1) =~= a.skip(1) + b);
        match a[0] {
            Some(pair) if ManifestView::reads(tag, pair.0) => match value_of(pair.1) {
                Ok(value) => {
                    attributes_are_read_in_order(
                        manifest.with_value(tag, pair.0, value),
                        tag,
                        a.skip(1),
                        b,
                    );
                },
                Err(_) => {},
            },
            _ => {
                attributes_are_read_in_order(manifest, tag, a.skip(1), b);
            },
        }
    }
}

/// An attribute that matters is kept with what its value stands for; one that does not, or that is
/// malformed, changes nothing; one whose value can't be made out is an error.
pub proof fn an_attribute_that_matters_is_kept(
    manifest: ManifestView,
    tag: Seq<char>,
    key: Seq<char>,
    raw: Seq<char>,
)
    ensures
        manifest.with_attributes(tag, seq![None]) == Ok::<ManifestView, MpdErrorView>(manifest),
        !ManifestView::reads(tag, key) ==> manifest.with_attributes(tag, seq![Some((key, raw))])
            == Ok::<ManifestView, MpdErrorView>(manifest),
        ManifestView::reads(tag, key) ==> manifest.with_attributes(tag, seq![Some((key, raw))])
            == match value_of(raw) {
            Ok(value) => Ok::<ManifestView, MpdErrorView>(manifest.with_value(tag, key, value)),
            Err(why) => Err::<ManifestView, MpdErrorView>(MpdErrorView::Attribute(why)),
        },
{
    reveal_with_fuel(ManifestView::with_attributes, 3);
    let none: Seq<Option<(Seq<char>, Seq<char>)>> = seq![None];
    let one = seq![Some((key, raw))];
    assert(none.skip(1) =~= Seq::empty());
    assert(one.skip(1) =~= Seq::empty());
}

/// The attributes that matter are those of the tags they stand in.
pub proof fn each_tag_has_its_attributes(key: Seq<char>)
    ensures
        ManifestView::reads("MPD"@, key) <==> key == "mediaPresentationDuration"@,
        ManifestView::reads("Representation"@, key) <==> key == "codecs"@,
        ManifestView::reads("S"@, key) <==> key == "t"@ || key == "d"@ || key == "r"@,
        ManifestView::reads("SegmentTemplate"@, key) <==> key == "initialization"@ || key
            == "media"@ || key == "timescale"@ || key == "duration"@ || key == "startNumber"@ || key
            == "presentationTimeOffset"@,
        !ManifestView::reads("BaseURL"@, key),
        !ManifestView::reads("SegmentTimeline"@, key),
{
    lemma_tags_differ();
}

/// A manifest is read one thing after the other, and whatever follows its end, or an error, does not
/// count.
pub proof fn a_manifest_is_read_in_order(
    manifest: ManifestView,
    a: Seq<XmlEventView>,
    b: Seq<XmlEventView>,
)
    requires
        forall|i: int| 0 <= i < a.len() ==> !(#[trigger] a[i] is End),
    ensures
        manifest.through(a + b) == match manifest.through(a) {
            Ok(after) => after.through(b),
            Err(error) => Err(error),
        },
        manifest.through(a + seq![XmlEventView::End] + b) == manifest.through(a),
    decreases a.len(),
{
    if a.len() == 0 {
        assert(a + b =~= b);
        assert((a + seq![XmlEventView::End] + b)[0] is End);
    } else {
        let rest = a.skip(1);
        assert forall|i: int| 0 <= i < rest.len() implies !(#[trigger] rest[i] is End) by {
            assert(rest[i] == a[i + 1]);
        }
        assert(!(a[0] is End));
        assert((a + b)[0] == a[0]);
        assert((a + b).skip(1) =~= rest + b);
        let ended = a + seq![XmlEventView::End] + b;
        assert(ended[0] == a[0]);
        assert(ended.skip(1) =~= rest + seq![XmlEventView::End] + b);
        if let Ok(next) = manifest.step(a[0]) {
            a_manifest_is_read_in_order(next, rest, b);
        }
    }
}

/// The text of `<BaseURL>` is what stands between its tags, with the references in it resolved; text
/// anywhere else is passed over.
pub proof fn the_base_is_what_stands_between_its_tags(
    manifest: ManifestView,
    text: Seq<char>,
    content: Seq<char>,
)
    requires
        !manifest.pending_base_url,
        manifest.base_url is None,
    ensures
        manifest.through(
            seq![
                XmlEventView::Open("BaseURL"@, content),
                XmlEventView::Text(text),
                XmlEventView::Close("BaseURL"@),
            ],
        ) == Ok::<ManifestView, MpdErrorView>(ManifestView { base_url: Some(text), ..manifest }),
        manifest.step(XmlEventView::Text(text)) == Ok::<ManifestView, MpdErrorView>(manifest),
        manifest.step(XmlEventView::Reference(text)) == Ok::<ManifestView, MpdErrorView>(manifest),
        manifest.step(XmlEventView::Other) == Ok::<ManifestView, MpdErrorView>(manifest),
        manifest.step(XmlEventView::Broken(text)) == Err::<ManifestView, MpdErrorView>(
            MpdErrorView::Xml(text),
        ),
{
    reveal_with_fuel(ManifestView::through, 5);
    lemma_tags_differ();
    let all = seq![
        XmlEventView::Open("BaseURL"@, content),
        XmlEventView::Text(text),
        XmlEventView::Close("BaseURL"@),
    ];
    assert(all.skip(1) =~= seq![XmlEventView::Text(text), XmlEventView::Close("BaseURL"@)]);
    assert(all.skip(1).skip(1) =~= seq![XmlEventView::Close("BaseURL"@)]);
    assert(all.skip(1).skip(1).skip(1) =~= Seq::empty());
    let opened = ManifestView { pending_base_url: true, ..manifest };
    assert(manifest.step(all[0]) == Ok::<ManifestView, MpdErrorView>(opened));
    let read = ManifestView { base_url: Some(text), ..opened };
    assert(opened.step(all[1]) == Ok::<ManifestView, MpdErrorView>(read));
    assert(ManifestView { pending_base_url: false, in_timeline: read.in_timeline, ..read }
        =~= ManifestView { base_url: Some(text), ..manifest });
}

/// Text and references inside `<BaseURL>` follow each other.
pub proof fn more_of_the_base_follows_it(manifest: ManifestView, more: Seq<char>)
    requires
        manifest.pending_base_url,
    ensures
        manifest.step(XmlEventView::Text(more)) == Ok::<ManifestView, MpdErrorView>(
            ManifestView {
                base_url: Some(
                    match manifest.base_url {
                        Some(text) => text + more,
                        None => more,
                    },
                ),
                ..manifest
            },
        ),
        manifest.step(XmlEventView::Reference("amp"@)) matches Ok(after) ==> (
        crate::xml::character_of("amp"@) == Ok::<Option<char>, Seq<char>>(None) ==> after.base_url
            == Some(
            match manifest.base_url {
                Some(text) => text + "&"@,
                None => "&"@,
            },
        )),
{
    reveal_strlit("lt");
    reveal_strlit("gt");
    reveal_strlit("amp");
    assert("lt"@.len() == 2);
    assert("gt"@.len() == 2);
    assert("amp"@.len() == 3);
}

/// The five entities that XML knows stand for the five signs that it can't hold otherwise, and there
/// are no others.
pub proof fn five_entities_are_known(name: Seq<char>)
    ensures
        entity_text("lt"@) == Some("<"@),
        entity_text("gt"@) == Some(">"@),
        entity_text("amp"@) == Some("&"@),
        entity_text("apos"@) == Some("'"@),
        entity_text("quot"@) == Some("\""@),
        entity_text(name) is Some <==> name == "lt"@ || name == "gt"@ || name == "amp"@ || name
            == "apos"@ || name == "quot"@,
{
    reveal_strlit("lt");
    reveal_strlit("gt");
    reveal_strlit("amp");
    reveal_strlit("apos");
    reveal_strlit("quot");
    assert("lt"@[0] == 'l');
    assert("gt"@[0] == 'g');
    assert("apos"@[0] == 'a');
    assert("quot"@[0] == 'q');
    assert("lt"@.len() == 2);
    assert("gt"@.len() == 2);
    assert("amp"@.len() == 3);
    assert("apos"@.len() == 4);
    assert("quot"@.len() == 4);
}

/// An `<S>` inside a `<SegmentTimeline>` adds one entry behind the others; anywhere else it is passed
/// over. Outside of it, neither is any other tag that is not known.
pub proof fn an_entry_stands_in_a_timeline(manifest: ManifestView, content: Seq<char>, name: Seq<char>)
    ensures
        !manifest.in_timeline ==> manifest.step(XmlEventView::Open("S"@, content)) == Ok::<
            ManifestView,
            MpdErrorView,
        >(manifest),
        manifest.in_timeline ==> manifest.step(XmlEventView::Open("S"@, content)) == (
        ManifestView {
            timeline: manifest.timeline.push(TimelineEntry { t: None, d: 0, r: 0 }),
            ..manifest
        }).with_attributes("S"@, attributes_of(content, "S"@)),
        manifest.step(XmlEventView::Open("SegmentTimeline"@, content)) matches Ok(after)
            && after.in_timeline && after.has_timeline && after.timeline == manifest.timeline,
        manifest.step(XmlEventView::Close("SegmentTimeline"@)) matches Ok(after)
            && !after.in_timeline && after.has_timeline == manifest.has_timeline && after.timeline
            == manifest.timeline,
        name != "MPD"@ && name != "Representation"@ && name != "SegmentTemplate"@ && name
            != "SegmentTimeline"@ && name != "S"@ && name != "BaseURL"@ ==> manifest.step(
            XmlEventView::Open(name, content),
        ) == Ok::<ManifestView, MpdErrorView>(manifest),
        name != "BaseURL"@ && name != "SegmentTimeline"@ ==> manifest.step(
            XmlEventView::Close(name),
        ) == Ok::<ManifestView, MpdErrorView>(manifest),
        name == "MPD"@ || name == "Representation"@ || name == "SegmentTemplate"@ ==> manifest.step(
            XmlEventView::Open(name, content),
        ) == manifest.with_attributes(name, attributes_of(content, name)),
{
    lemma_tags_differ();
}

/// A manifest that can be read but does not say where its segments are is refused: first for the
/// initialization that is missing.
pub proof fn a_manifest_has_to_say_where_its_segments_are(xml: Seq<char>, manifest: ManifestView)
    requires
        ManifestView::blank().through(events_of(xml)) == Ok::<ManifestView, MpdErrorView>(manifest),
    ensures
        manifest.init_url is Some && manifest.media_url is Some <==> ManifestView::of(xml) is Ok,
        ManifestView::of(xml) matches Ok(read) ==> read == manifest,
        manifest.init_url is None ==> ManifestView::of(xml) == Err::<ManifestView, MpdErrorView>(
            MpdErrorView::NoInitialization,
        ),
        manifest.init_url is Some && manifest.media_url is None ==> ManifestView::of(xml) == Err::<
            ManifestView,
            MpdErrorView,
        >(MpdErrorView::NoMedia),
{
}

/// One length holds for all segments if the manifest gives one and no timeline, or a timeline whose
/// entries repeat without a bound: the length of its first. A length of nothing is no length.
pub proof fn one_length_holds_for_all_segments(manifest: ManifestView, i: int)
    ensures
        !manifest.has_timeline ==> !manifest.is_explicit(),
        !manifest.has_timeline ==> (manifest.constant_ticks() matches Some(ticks) ==> ticks > 0
            && manifest.duration == Some(ticks)),
        !manifest.has_timeline ==> (manifest.duration matches Some(ticks) ==> (ticks > 0
            ==> manifest.constant_ticks() == Some(ticks))),
        !manifest.has_timeline && manifest.duration is None ==> manifest.constant_ticks() is None,
        manifest.has_timeline && 0 <= i < manifest.timeline.len() && manifest.timeline[i].r < 0
            ==> !manifest.is_explicit() && (manifest.timeline[0].d > 0 ==> manifest.constant_ticks()
            == Some(manifest.timeline[0].d)) && (manifest.timeline[0].d == 0
            ==> manifest.constant_ticks() is None),
        manifest.has_timeline && (forall|j: int|
            0 <= j < manifest.timeline.len() ==> (#[trigger] manifest.timeline[j]).r >= 0)
            ==> manifest.is_explicit() && manifest.constant_ticks() is None,
{
}

/// Every quality is asked for by a word of its own; the best is `HI_RES_LOSSLESS`, and CD quality is
/// `LOSSLESS`.
pub proof fn each_quality_has_a_word(a: AudioQuality, b: AudioQuality)
    ensures
        quality_word(a) == quality_word(b) <==> a == b,
        quality_word(AudioQuality::HiRes) == "HI_RES_LOSSLESS"@,
        quality_word(AudioQuality::Lossless) == "LOSSLESS"@,
        quality_word(AudioQuality::High) == "HIGH"@,
        quality_word(AudioQuality::Low) == "LOW"@,
{
    reveal_strlit("LOW");
    reveal_strlit("HIGH");
    reveal_strlit("LOSSLESS");
    reveal_strlit("HI_RES_LOSSLESS");
    assert("LOW"@.len() == 3);
    assert("HIGH"@.len() == 4);
    assert("LOSSLESS"@.len() == 8);
    assert("HI_RES_LOSSLESS"@.len() == 15);
}

/// In a list of files, forward leads to the file behind the one that was opened last and back to the
/// one before it, neither beyond the ends; the first file comes first, and nothing that was not
/// opened is started over.
pub proof fn files_are_walked_one_at_a_time(files: FileSupplier, at: int)
    requires
        files.wf(),
    ensures
        files.cursor() == Some(at as nat) && at >= 0 ==> {
            &&& files.target(Advance::Restart) == Some(at)
            &&& at > 0 ==> files.target(Advance::Previous) == Some(at - 1)
            &&& at == 0 ==> files.target(Advance::Previous) is None
            &&& at + 1 < files.paths().len() ==> files.target(Advance::Next) == Some(at + 1)
            &&& at + 1 == files.paths().len() ==> files.target(Advance::Next) is None
            &&& files.target(Advance::Auto) == files.target(Advance::Next)
        },
        files.cursor() is None ==> {
            &&& files.target(Advance::Restart) is None
            &&& files.target(Advance::Previous) is None
            &&& files.paths().len() > 0 ==> files.target(Advance::Next) == Some(0int)
            &&& files.paths().len() > 0 ==> files.target(Advance::Auto) == Some(0int)
            &&& files.paths().len() == 0 ==> files.target(Advance::Next) is None
        },
{
}

// ---- what the functions give -------------------------------------------------------------------

/// A track is asked for only with a login: a token, which is shown, and a user, whose country is
/// named. It is asked for in the quality that was chosen, to be streamed, in full.
pub proof fn a_track_is_asked_for_with_a_login(
    api: &str,
    track: &str,
    quality: AudioQuality,
    token: Option<String>,
    country: Option<String>,
    r: Result<PlaybackRequest, PlaybackError>,
)
    requires
        call_ensures(playback_request, (api, track, quality, token, country), r),
    ensures
        r is Ok <==> token is Some && country is Some,
        r matches Err(why) ==> (why is NoToken <==> token is None) && (why is NoUser <==> token
            is Some),
        r matches Ok(request) ==> {
            &&& token == Some(request.access_token)
            &&& request.url@ == api@ + "/tracks/"@ + track@ + "/playbackinfopostpaywall"@
            &&& request.query@.len() == 4
            &&& request.query@[0].0@ == "countryCode"@
            &&& country == Some(request.query@[0].1)
            &&& request.query@[1].0@ == "audioquality"@
            &&& quality is HiRes ==> request.query@[1].1@ == "HI_RES_LOSSLESS"@
            &&& quality is Lossless ==> request.query@[1].1@ == "LOSSLESS"@
            &&& request.query@[2].1@ == "STREAM"@
            &&& request.query@[3].1@ == "FULL"@
        },
{
}

/// An answer that is no success is an error, and one that is is none.
pub proof fn an_answer_that_is_no_success_is_an_error(
    success: bool,
    status: &str,
    body: &str,
    r: Option<String>,
)
    requires
        call_ensures(after_playback, (success, status, body), r),
    ensures
        r is None <==> success,
{
}

/// A warning is due exactly when the best quality was asked for and another one came.
pub proof fn a_lower_quality_is_warned_of(asked: AudioQuality, given: &str, r: Option<String>)
    requires
        call_ensures(downgrade_warning, (asked, given), r),
    ensures
        r is Some <==> asked is HiRes && given@ != "HI_RES_LOSSLESS"@,
{
}

/// The audio is at the first URL that the manifest names; a manifest without any is an error.
pub proof fn the_audio_is_at_the_first_url(
    urls: Vec<String>,
    codecs: String,
    r: Result<ManifestKind, PlaybackError>,
)
    requires
        call_ensures(json_manifest, (urls, codecs), r),
    ensures
        r is Ok <==> urls@.len() > 0,
        r matches Ok(kind) ==> (kind matches ManifestKind::Json { url, codecs: c } && url
            == urls@[0] && c == codecs),
{
}

} // verus!
