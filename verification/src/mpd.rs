//! Reading an MPD (DASH manifest): what it says of a single audio representation.

use crate::dash::{
    flatten_timeline, is_bounded, join_url, joined_url, parse_iso8601_duration, parts_view,
    duration_parts, ticks_from, timeline_end, timeline_starts, DashSegments, DurationError,
    DurationErrorView, DurationPart, SegmentTiming, TimelineEntry,
};
use crate::text::{parse_i64, parse_u32, parse_u64, parsed, parsed_signed, same};
use crate::time::Duration;
use crate::xml::{
    attribute_value, attributes, attributes_of, attributes_view, char_reference, character_of,
    entity_text, events_left, events_of, next_event, open_xml, predefined_entity, value_of,
    XmlEvent, XmlEventView,
};
use vstd::prelude::*;

verus! {

/// Why a manifest cannot be read.
#[derive(Debug, PartialEq, Eq)]
pub enum MpdError {
    /// It is not XML.
    Xml(String),
    /// The value of an attribute cannot be made out.
    Attribute(String),
    /// A reference to a character in `<BaseURL>` cannot be made out.
    CharReference(String),
    /// An entity in `<BaseURL>` that XML does not know.
    UnknownEntity(String),
    /// There is no `<SegmentTemplate initialization=...>`.
    NoInitialization,
    /// There is no `<SegmentTemplate media=...>`.
    NoMedia,
    /// There are more segments than 32 bits can number.
    TooManySegments,
}

/// An [`MpdError`] as sequences of characters.
pub enum MpdErrorView {
    /// See [`MpdError::Xml`].
    Xml(Seq<char>),
    /// See [`MpdError::Attribute`].
    Attribute(Seq<char>),
    /// See [`MpdError::CharReference`].
    CharReference(Seq<char>),
    /// See [`MpdError::UnknownEntity`].
    UnknownEntity(Seq<char>),
    /// See [`MpdError::NoInitialization`].
    NoInitialization,
    /// See [`MpdError::NoMedia`].
    NoMedia,
    /// See [`MpdError::TooManySegments`].
    TooManySegments,
}

impl View for MpdError {
    type V = MpdErrorView;

    open spec fn view(&self) -> MpdErrorView {
        match *self {
            MpdError::Xml(why) => MpdErrorView::Xml(why@),
            MpdError::Attribute(why) => MpdErrorView::Attribute(why@),
            MpdError::CharReference(why) => MpdErrorView::CharReference(why@),
            MpdError::UnknownEntity(name) => MpdErrorView::UnknownEntity(name@),
            MpdError::NoInitialization => MpdErrorView::NoInitialization,
            MpdError::NoMedia => MpdErrorView::NoMedia,
            MpdError::TooManySegments => MpdErrorView::TooManySegments,
        }
    }
}

impl MpdErrorView {
    /// What is said of it.
    pub open spec fn message(self) -> Seq<char> {
        match self {
            MpdErrorView::Xml(why) => "error reading the MPD manifest XML: "@ + why,
            MpdErrorView::Attribute(why) => "unescaping an XML attribute value: "@ + why,
            MpdErrorView::CharReference(why) =>
                "resolving a character reference in <BaseURL>: "@ + why,
            MpdErrorView::UnknownEntity(name) => "unknown XML entity in <BaseURL>: &"@ + name
                + ";"@,
            MpdErrorView::NoInitialization =>
                "the MPD manifest has no <SegmentTemplate initialization=...>"@,
            MpdErrorView::NoMedia => "the MPD manifest has no <SegmentTemplate media=...>"@,
            MpdErrorView::TooManySegments => "the <SegmentTimeline> segment count is too large"@,
        }
    }
}

impl MpdError {
    /// What is said of it.
    pub fn message(&self) -> (r: String)
        ensures
            r@ == self@.message(),
    {
        let mut text = String::new();
        match self {
            MpdError::Xml(why) => {
                text.push_str("error reading the MPD manifest XML: ");
                text.push_str(why.as_str());
            },
            MpdError::Attribute(why) => {
                text.push_str("unescaping an XML attribute value: ");
                text.push_str(why.as_str());
            },
            MpdError::CharReference(why) => {
                text.push_str("resolving a character reference in <BaseURL>: ");
                text.push_str(why.as_str());
            },
            MpdError::UnknownEntity(name) => {
                text.push_str("unknown XML entity in <BaseURL>: &");
                text.push_str(name.as_str());
                text.push_str(";");
            },
            MpdError::NoInitialization => {
                text.push_str("the MPD manifest has no <SegmentTemplate initialization=...>");
            },
            MpdError::NoMedia => {
                text.push_str("the MPD manifest has no <SegmentTemplate media=...>");
            },
            MpdError::TooManySegments => {
                text.push_str("the <SegmentTimeline> segment count is too large");
            },
        }
        assert(text@ =~= self@.message());
        text
    }
}

/// What a manifest says, as far as it was read.
#[derive(Debug, PartialEq, Eq)]
pub struct Manifest {
    base_url: Option<String>,
    pending_base_url: bool,
    init_url: Option<String>,
    media_url: Option<String>,
    start_number: u32,
    timescale: Option<u64>,
    duration: Option<u64>,
    mpd_duration: Option<String>,
    time_offset: u64,
    in_timeline: bool,
    has_timeline: bool,
    timeline: Vec<TimelineEntry>,
    codecs: Option<String>,
}

/// A [`Manifest`] as sequences.
#[verifier::ext_equal]
pub struct ManifestView {
    /// The text of `<BaseURL>`.
    pub base_url: Option<Seq<char>>,
    /// Whether the reader is inside it.
    pub pending_base_url: bool,
    /// `SegmentTemplate@initialization`.
    pub init_url: Option<Seq<char>>,
    /// `SegmentTemplate@media`.
    pub media_url: Option<Seq<char>>,
    /// `SegmentTemplate@startNumber`.
    pub start_number: u32,
    /// `SegmentTemplate@timescale`.
    pub timescale: Option<u64>,
    /// `SegmentTemplate@duration`.
    pub duration: Option<u64>,
    /// `MPD@mediaPresentationDuration`.
    pub mpd_duration: Option<Seq<char>>,
    /// `SegmentTemplate@presentationTimeOffset`.
    pub time_offset: u64,
    /// Whether the reader is inside a `<SegmentTimeline>`.
    pub in_timeline: bool,
    /// Whether there was one.
    pub has_timeline: bool,
    /// The entries in it.
    pub timeline: Seq<TimelineEntry>,
    /// `Representation@codecs`.
    pub codecs: Option<Seq<char>>,
}

/// An optional text as a sequence of characters.
pub open spec fn text_view(text: Option<String>) -> Option<Seq<char>> {
    match text {
        Some(text) => Some(text@),
        None => None,
    }
}

impl View for Manifest {
    type V = ManifestView;

    closed spec fn view(&self) -> ManifestView {
        ManifestView {
            base_url: text_view(self.base_url),
            pending_base_url: self.pending_base_url,
            init_url: text_view(self.init_url),
            media_url: text_view(self.media_url),
            start_number: self.start_number,
            timescale: self.timescale,
            duration: self.duration,
            mpd_duration: text_view(self.mpd_duration),
            time_offset: self.time_offset,
            in_timeline: self.in_timeline,
            has_timeline: self.has_timeline,
            timeline: self.timeline@,
            codecs: text_view(self.codecs),
        }
    }
}

/// The number that `text` spells, if it is one of at most 64 bits.
pub open spec fn number_in(text: Seq<char>) -> Option<u64> {
    match parsed(text, u64::MAX as nat) {
        Some(n) => Some(n as u64),
        None => None,
    }
}

/// `number`, or `other` if there is none.
pub open spec fn number_or(number: Option<u64>, other: u64) -> u64 {
    match number {
        Some(n) => n,
        None => other,
    }
}

impl ManifestView {
    /// Nothing was read yet.
    pub open spec fn blank() -> ManifestView {
        ManifestView {
            base_url: None,
            pending_base_url: false,
            init_url: None,
            media_url: None,
            start_number: 1,
            timescale: None,
            duration: None,
            mpd_duration: None,
            time_offset: 0,
            in_timeline: false,
            has_timeline: false,
            timeline: Seq::empty(),
            codecs: None,
        }
    }

    /// Whether the attribute `key` of `<tag>` matters.
    pub open spec fn reads(tag: Seq<char>, key: Seq<char>) -> bool {
        ||| tag == "MPD"@ && key == "mediaPresentationDuration"@
        ||| tag == "Representation"@ && key == "codecs"@
        ||| tag == "SegmentTemplate"@ && (key == "initialization"@ || key == "media"@ || key
            == "timescale"@ || key == "duration"@ || key == "startNumber"@ || key
            == "presentationTimeOffset"@)
        ||| tag == "S"@ && (key == "t"@ || key == "d"@ || key == "r"@)
    }

    /// The attribute `key` of `<tag>`, one that matters, has the value `value`. Those of `<S>`
    /// belong to the last entry of the timeline.
    pub open spec fn with_value(self, tag: Seq<char>, key: Seq<char>, value: Seq<char>) -> Self {
        let entry = self.timeline.last();
        let at = self.timeline.len() - 1;
        if tag == "MPD"@ {
            ManifestView { mpd_duration: Some(value), ..self }
        } else if tag == "Representation"@ {
            ManifestView { codecs: Some(value), ..self }
        } else if tag == "SegmentTemplate"@ {
            if key == "initialization"@ {
                ManifestView { init_url: Some(value), ..self }
            } else if key == "media"@ {
                ManifestView { media_url: Some(value), ..self }
            } else if key == "timescale"@ {
                ManifestView { timescale: number_in(value), ..self }
            } else if key == "duration"@ {
                ManifestView { duration: number_in(value), ..self }
            } else if key == "startNumber"@ {
                ManifestView {
                    start_number: match parsed(value, u32::MAX as nat) {
                        Some(n) => n as u32,
                        None => 1,
                    },
                    ..self
                }
            } else {
                ManifestView { time_offset: number_or(number_in(value), 0), ..self }
            }
        } else if key == "t"@ {
            ManifestView {
                timeline: self.timeline.update(at, TimelineEntry { t: number_in(value), ..entry }),
                ..self
            }
        } else if key == "d"@ {
            ManifestView {
                timeline: self.timeline.update(
                    at,
                    TimelineEntry { d: number_or(number_in(value), 0), ..entry },
                ),
                ..self
            }
        } else {
            ManifestView {
                timeline: self.timeline.update(
                    at,
                    TimelineEntry {
                        r: match parsed_signed(value) {
                            Some(n) => n as i64,
                            None => 0,
                        },
                        ..entry
                    },
                ),
                ..self
            }
        }
    }

    /// The attributes of `<tag>` were read, one after the other. Malformed ones are passed over.
    pub open spec fn with_attributes(
        self,
        tag: Seq<char>,
        all: Seq<Option<(Seq<char>, Seq<char>)>>,
    ) -> Result<Self, MpdErrorView>
        decreases all.len(),
    {
        if all.len() == 0 {
            Ok(self)
        } else {
            match all[0] {
                Some(pair) if Self::reads(tag, pair.0) => match value_of(pair.1) {
                    Ok(value) => self.with_value(tag, pair.0, value).with_attributes(
                        tag,
                        all.skip(1),
                    ),
                    Err(why) => Err(MpdErrorView::Attribute(why)),
                },
                _ => self.with_attributes(tag, all.skip(1)),
            }
        }
    }

    /// A tag opened.
    pub open spec fn opened(self, name: Seq<char>, content: Seq<char>) -> Result<
        Self,
        MpdErrorView,
    > {
        let all = attributes_of(content, name);
        if name == "MPD"@ || name == "Representation"@ || name == "SegmentTemplate"@ {
            self.with_attributes(name, all)
        } else if name == "SegmentTimeline"@ {
            Ok(ManifestView { in_timeline: true, has_timeline: true, ..self })
        } else if name == "S"@ && self.in_timeline {
            ManifestView {
                timeline: self.timeline.push(TimelineEntry { t: None, d: 0, r: 0 }),
                ..self
            }.with_attributes(name, all)
        } else if name == "BaseURL"@ {
            Ok(ManifestView { pending_base_url: true, ..self })
        } else {
            Ok(self)
        }
    }

    /// More of the text of `<BaseURL>`.
    pub open spec fn with_base(self, more: Seq<char>) -> Self {
        ManifestView {
            base_url: Some(
                match self.base_url {
                    Some(text) => text + more,
                    None => more,
                },
            ),
            ..self
        }
    }

    /// A reference inside `<BaseURL>`.
    pub open spec fn with_reference(self, reference: Seq<char>) -> Result<Self, MpdErrorView> {
        match character_of(reference) {
            Err(why) => Err(MpdErrorView::CharReference(why)),
            Ok(Some(c)) => Ok(self.with_base(seq![c])),
            Ok(None) => match entity_text(reference) {
                Some(text) => Ok(self.with_base(text)),
                None => Err(MpdErrorView::UnknownEntity(reference)),
            },
        }
    }

    /// One thing was read, other than the end.
    pub open spec fn step(self, event: XmlEventView) -> Result<Self, MpdErrorView> {
        match event {
            XmlEventView::Open(name, content) => self.opened(name, content),
            XmlEventView::Text(text) => if self.pending_base_url {
                Ok(self.with_base(text))
            } else {
                Ok(self)
            },
            XmlEventView::Reference(reference) => if self.pending_base_url {
                self.with_reference(reference)
            } else {
                Ok(self)
            },
            XmlEventView::Close(name) => Ok(
                ManifestView {
                    pending_base_url: self.pending_base_url && name != "BaseURL"@,
                    in_timeline: self.in_timeline && name != "SegmentTimeline"@,
                    ..self
                },
            ),
            XmlEventView::Broken(why) => Err(MpdErrorView::Xml(why)),
            XmlEventView::Other | XmlEventView::End => Ok(self),
        }
    }

    /// Everything up to the end was read.
    pub open spec fn through(self, events: Seq<XmlEventView>) -> Result<Self, MpdErrorView>
        decreases events.len(),
    {
        if events.len() == 0 || events[0] is End {
            Ok(self)
        } else {
            match self.step(events[0]) {
                Ok(next) => next.through(events.skip(1)),
                Err(error) => Err(error),
            }
        }
    }

    /// The manifest that the text `xml` is. It has to say where the segments are.
    pub open spec fn of(xml: Seq<char>) -> Result<Self, MpdErrorView> {
        match Self::blank().through(events_of(xml)) {
            Ok(manifest) => if manifest.init_url is None {
                Err(MpdErrorView::NoInitialization)
            } else if manifest.media_url is None {
                Err(MpdErrorView::NoMedia)
            } else {
                Ok(manifest)
            },
            Err(error) => Err(error),
        }
    }

    // ---- what it amounts to --------------------------------------------------------------------

    /// How long every segment lasts, if the manifest gives one length for all: a timeline whose
    /// entries repeat without a bound gives its first entry's.
    pub open spec fn constant_ticks(self) -> Option<u64> {
        let ticks = if self.has_timeline {
            if self.timeline.len() > 0 {
                Some(self.timeline[0].d)
            } else {
                None
            }
        } else {
            self.duration
        };
        if self.is_explicit() || ticks == Some(0u64) {
            None
        } else {
            ticks
        }
    }

    /// Whether the manifest says of every segment when it starts.
    pub open spec fn is_explicit(self) -> bool {
        self.has_timeline && is_bounded(self.timeline)
    }
}

impl Manifest {
    fn blank() -> (r: Self)
        ensures
            r@ == ManifestView::blank(),
    {
        let r = Manifest {
            base_url: None,
            pending_base_url: false,
            init_url: None,
            media_url: None,
            start_number: 1,
            timescale: None,
            duration: None,
            mpd_duration: None,
            time_offset: 0,
            in_timeline: false,
            has_timeline: false,
            timeline: Vec::new(),
            codecs: None,
        };
        assert(r@ =~= ManifestView::blank());
        r
    }

    fn set_value(&mut self, tag: &str, key: &str, value: String)
        requires
            ManifestView::reads(tag@, key@),
            tag@ == "S"@ ==> old(self)@.timeline.len() > 0,
        ensures
            final(self)@ == old(self)@.with_value(tag@, key@, value@),
    {
        proof {
            lemma_names_differ();
        }
        if same(tag, "MPD") {
            self.mpd_duration = Some(value);
        } else if same(tag, "Representation") {
            self.codecs = Some(value);
        } else if same(tag, "SegmentTemplate") {
            if same(key, "initialization") {
                self.init_url = Some(value);
            } else if same(key, "media") {
                self.media_url = Some(value);
            } else if same(key, "timescale") {
                self.timescale = parse_u64(value.as_str());
            } else if same(key, "duration") {
                self.duration = parse_u64(value.as_str());
            } else if same(key, "startNumber") {
                self.start_number = match parse_u32(value.as_str()) {
                    Some(n) => n,
                    None => 1,
                };
            } else {
                self.time_offset = match parse_u64(value.as_str()) {
                    Some(n) => n,
                    None => 0,
                };
            }
        } else {
            let at: usize = self.timeline.len() - 1;
            let mut entry: TimelineEntry = self.timeline[at];
            if same(key, "t") {
                entry.t = parse_u64(value.as_str());
            } else if same(key, "d") {
                entry.d = match parse_u64(value.as_str()) {
                    Some(n) => n,
                    None => 0,
                };
            } else {
                entry.r = match parse_i64(value.as_str()) {
                    Some(n) => n,
                    None => 0,
                };
            }
            self.timeline.set(at, entry);
        }
        assert(self@ =~= old(self)@.with_value(tag@, key@, value@));
    }

    fn read_attributes(&mut self, tag: &str, content: &str) -> (r: Result<(), MpdError>)
        requires
            tag@ == "S"@ ==> old(self)@.timeline.len() > 0,
            tag@.is_prefix_of(content@),
        ensures
            ({
                let all = attributes_of(content@, tag@);
                match r {
                    Ok(_) => old(self)@.with_attributes(tag@, all) == Ok::<
                        ManifestView,
                        MpdErrorView,
                    >(final(self)@),
                    Err(error) => old(self)@.with_attributes(tag@, all) == Err::<
                        ManifestView,
                        MpdErrorView,
                    >(error@),
                }
            }),
    {
        let all = attributes(content, tag);
        let ghost view = attributes_view(all@);
        let mut i: usize = 0;
        assert(view.skip(0) =~= view);
        while i < all.len()
            invariant
                i <= all.len(),
                view == attributes_view(all@),
                view == attributes_of(content@, tag@),
                tag@ == "S"@ ==> self@.timeline.len() > 0,
                self@.with_attributes(tag@, view.skip(i as int)) == old(self)@.with_attributes(
                    tag@,
                    view,
                ),
            decreases all.len() - i,
        {
            proof {
                assert(view.skip(i as int)[0] == view[i as int]);
                assert(view.skip(i as int).skip(1) =~= view.skip(i + 1));
            }
            match &all[i] {
                Some(pair) => {
                    if matters(tag, pair.0.as_str()) {
                        match attribute_value(pair.1.as_str()) {
                            Ok(value) => {
                                self.set_value(tag, pair.0.as_str(), value);
                            },
                            Err(why) => {
                                return Err(MpdError::Attribute(why));
                            },
                        }
                    }
                },
                None => {},
            }
            i += 1;
        }
        Ok(())
    }

    fn opened(&mut self, name: &str, content: &str) -> (r: Result<(), MpdError>)
        requires
            name@.is_prefix_of(content@),
        ensures
            match r {
                Ok(_) => old(self)@.opened(name@, content@) == Ok::<ManifestView, MpdErrorView>(
                    final(self)@,
                ),
                Err(error) => old(self)@.opened(name@, content@) == Err::<
                    ManifestView,
                    MpdErrorView,
                >(error@),
            },
    {
        proof {
            lemma_names_differ();
        }
        if same(name, "MPD") || same(name, "Representation") || same(name, "SegmentTemplate") {
            return self.read_attributes(name, content);
        }
        if same(name, "SegmentTimeline") {
            self.in_timeline = true;
            self.has_timeline = true;
        } else if same(name, "S") && self.in_timeline {
            self.timeline.push(TimelineEntry { t: None, d: 0, r: 0 });
            return self.read_attributes(name, content);
        } else if same(name, "BaseURL") {
            self.pending_base_url = true;
        }
        Ok(())
    }

    fn add_base(&mut self, more: &str)
        ensures
            final(self)@ == old(self)@.with_base(more@),
    {
        let mut text = match self.base_url.take() {
            Some(text) => text,
            None => String::new(),
        };
        text.push_str(more);
        proof {
            assert(Seq::<char>::empty() + more@ =~= more@);
        }
        self.base_url = Some(text);
        assert(self@ =~= old(self)@.with_base(more@));
    }

    fn add_reference(&mut self, reference: &str) -> (r: Result<(), MpdError>)
        ensures
            match r {
                Ok(_) => old(self)@.with_reference(reference@) == Ok::<ManifestView, MpdErrorView>(
                    final(self)@,
                ),
                Err(error) => old(self)@.with_reference(reference@) == Err::<
                    ManifestView,
                    MpdErrorView,
                >(error@),
            },
    {
        match char_reference(reference) {
            Err(why) => Err(MpdError::CharReference(why)),
            Ok(Some(c)) => {
                let mut text = String::new();
                text.push(c);
                assert(text@ =~= seq![c]);
                self.add_base(text.as_str());
                Ok(())
            },
            Ok(None) => match predefined_entity(reference) {
                Some(text) => {
                    self.add_base(text.as_str());
                    Ok(())
                },
                None => Err(MpdError::UnknownEntity(reference.to_owned())),
            },
        }
    }

    fn step(&mut self, event: XmlEvent) -> (r: Result<(), MpdError>)
        requires
            event matches XmlEvent::Open { name, content } ==> name@.is_prefix_of(content@),
        ensures
            match r {
                Ok(_) => old(self)@.step(event@) == Ok::<ManifestView, MpdErrorView>(final(self)@),
                Err(error) => old(self)@.step(event@) == Err::<ManifestView, MpdErrorView>(error@),
            },
    {
        match event {
            XmlEvent::Open { name, content } => self.opened(name.as_str(), content.as_str()),
            XmlEvent::Text(text) => {
                if self.pending_base_url {
                    self.add_base(text.as_str());
                }
                Ok(())
            },
            XmlEvent::Reference(reference) => if self.pending_base_url {
                self.add_reference(reference.as_str())
            } else {
                Ok(())
            },
            XmlEvent::Close(name) => {
                if same(name.as_str(), "BaseURL") {
                    self.pending_base_url = false;
                }
                if same(name.as_str(), "SegmentTimeline") {
                    self.in_timeline = false;
                }
                assert(self@ =~= ManifestView {
                    pending_base_url: old(self)@.pending_base_url && name@ != "BaseURL"@,
                    in_timeline: old(self)@.in_timeline && name@ != "SegmentTimeline"@,
                    ..old(self)@
                });
                Ok(())
            },
            XmlEvent::Broken(why) => Err(MpdError::Xml(why)),
            XmlEvent::Other | XmlEvent::End => Ok(()),
        }
    }
}

proof fn lemma_names_differ()
    ensures
        "S"@ != "MPD"@,
        "S"@ != "Representation"@,
        "S"@ != "SegmentTemplate"@,
        "SegmentTimeline"@ != "S"@,
{
    reveal_strlit("S");
    reveal_strlit("MPD");
    reveal_strlit("Representation");
    reveal_strlit("SegmentTemplate");
    reveal_strlit("SegmentTimeline");
    assert("S"@.len() == 1);
    assert("MPD"@.len() == 3);
    assert("Representation"@.len() == 14);
    assert("SegmentTemplate"@.len() == 15);
    assert("SegmentTimeline"@.len() == 15);
}

fn matters(tag: &str, key: &str) -> (r: bool)
    ensures
        r == ManifestView::reads(tag@, key@),
{
    if same(tag, "MPD") && same(key, "mediaPresentationDuration") {
        return true;
    }
    if same(tag, "Representation") && same(key, "codecs") {
        return true;
    }
    if same(tag, "SegmentTemplate") && (same(key, "initialization") || same(key, "media") || same(
        key,
        "timescale",
    ) || same(key, "duration") || same(key, "startNumber") || same(key, "presentationTimeOffset")) {
        return true;
    }
    same(tag, "S") && (same(key, "t") || same(key, "d") || same(key, "r"))
}

/// Reads an MPD (DASH manifest) XML document: the pieces needed to download a single audio
/// representation.
pub fn parse_mpd(xml: &str) -> (r: Result<Manifest, MpdError>)
    ensures
        match r {
            Ok(manifest) => ManifestView::of(xml@) == Ok::<ManifestView, MpdErrorView>(manifest@),
            Err(error) => ManifestView::of(xml@) == Err::<ManifestView, MpdErrorView>(error@),
        },
{
    let mut reader = open_xml(xml);
    let mut manifest = Manifest::blank();
    let mut more = true;
    while more
        invariant
            more ==> events_left(reader).len() > 0,
            more ==> manifest@.through(events_left(reader)) == ManifestView::blank().through(
                events_of(xml@),
            ),
            !more ==> ManifestView::blank().through(events_of(xml@)) == Ok::<
                ManifestView,
                MpdErrorView,
            >(manifest@),
        decreases events_left(reader).len(), more as int,
    {
        let ghost left = events_left(reader);
        let event = next_event(&mut reader);
        match event {
            XmlEvent::End => {
                more = false;
            },
            other => {
                match manifest.step(other) {
                    Ok(_) => {},
                    Err(error) => {
                        return Err(error);
                    },
                }
            },
        }
    }
    if manifest.init_url.is_none() {
        return Err(MpdError::NoInitialization);
    }
    if manifest.media_url.is_none() {
        return Err(MpdError::NoMedia);
    }
    Ok(manifest)
}

/// How many segments there are follows from the length of the track, which is counted in
/// fractions of a second: that many seconds, times `timescale`, over `ticks`, rounded up.
#[derive(Debug, PartialEq, Eq)]
pub struct CountQuestion {
    /// The length of the track.
    pub length: Vec<DurationPart>,
    /// Ticks per second.
    pub timescale: u64,
    /// Ticks per segment.
    pub ticks: u64,
}

impl Manifest {
    /// What is to be computed for the number of segments, if the manifest gives them one length
    /// and says how long the track is; `Err` if that cannot be made out.
    pub fn count_question(&self) -> (r: Result<Option<CountQuestion>, DurationError>)
        ensures
            match (self@.constant_ticks(), self@.mpd_duration, self@.timescale) {
                (Some(ticks), Some(text), Some(timescale)) => match duration_parts(text) {
                    Ok(parts) => r matches Ok(Some(question)) && parts_view(question.length@)
                        == parts && question.timescale == timescale && question.ticks == ticks,
                    Err(error) => r matches Err(e) && e@ == error,
                },
                _ => r matches Ok(None),
            },
    {
        match (self.constant_ticks(), &self.mpd_duration, self.timescale) {
            (Some(ticks), Some(text), Some(timescale)) => match parse_iso8601_duration(
                text.as_str(),
            ) {
                Ok(length) => Ok(Some(CountQuestion { length, timescale, ticks })),
                Err(error) => Err(error),
            },
            _ => Ok(None),
        }
    }

    /// How long the track is, as the manifest writes it: what an error of
    /// [`Manifest::count_question`] is about.
    pub fn duration_text(&self) -> (r: Option<&str>)
        ensures
            match r {
                Some(text) => self@.mpd_duration == Some(text@),
                None => self@.mpd_duration is None,
            },
    {
        match &self.mpd_duration {
            Some(text) => Some(text.as_str()),
            None => None,
        }
    }

    fn constant_ticks(&self) -> (r: Option<u64>)
        ensures
            r == self@.constant_ticks(),
    {
        if self.has_timeline && all_bounded(&self.timeline) {
            return None;
        }
        let ticks = if self.has_timeline {
            if self.timeline.len() > 0 {
                Some(self.timeline[0].d)
            } else {
                None
            }
        } else {
            self.duration
        };
        match ticks {
            Some(0) => None,
            other => other,
        }
    }

    /// How long the track is, if the manifest says so in a way that can be made out.
    pub fn presentation_length(&self) -> (r: Option<Vec<DurationPart>>)
        ensures
            match self@.mpd_duration {
                Some(text) => match duration_parts(text) {
                    Ok(parts) => r matches Some(length) && parts_view(length@) == parts,
                    Err(_) => r is None,
                },
                None => r is None,
            },
    {
        match &self.mpd_duration {
            Some(text) => match parse_iso8601_duration(text.as_str()) {
                Ok(length) => Some(length),
                Err(_) => None,
            },
            None => None,
        }
    }

    /// Everything that is needed to download the representation. `counted` is the answer to
    /// [`Manifest::count_question`], and `presentation_duration` what
    /// [`Manifest::presentation_length`] adds up to.
    pub fn finish(self, counted: Option<u32>, presentation_duration: Option<Duration>) -> (r: Result<
        DashSegments,
        MpdError,
    >)
        requires
            self@.init_url is Some,
            self@.media_url is Some,
        ensures
            ({
                let starts = timeline_starts(self@.timeline, self@.time_offset);
                &&& r is Err <==> self@.is_explicit() && starts.len() > u32::MAX
                &&& r matches Err(error) ==> error@ is TooManySegments
                &&& r matches Ok(dash) ==> {
                    &&& dash.init_url@ == joined_url(self@.base_url, self@.init_url->0)
                    &&& dash.media_url_template@ == joined_url(self@.base_url, self@.media_url->0)
                    &&& dash.start_number == self@.start_number
                    &&& text_view(dash.codecs) == self@.codecs
                    &&& dash.timescale == number_or(self@.timescale, 1)
                    &&& dash.presentation_duration == presentation_duration
                    &&& if self@.is_explicit() {
                        &&& dash.segment_count == Some(starts.len() as u32)
                        &&& dash.timing is Explicit
                        &&& dash.timing->Explicit_starts@ == starts
                        &&& dash.timing->Explicit_end == ticks_from(
                            timeline_end(self@.timeline),
                            self@.time_offset,
                        )
                    } else {
                        match self@.constant_ticks() {
                            Some(ticks) => dash.timing == (SegmentTiming::Constant { ticks })
                                && dash.segment_count == counted,
                            None => dash.timing is Unknown && dash.segment_count is None,
                        }
                    }
                }
            }),
    {
        let constant = self.constant_ticks();
        let explicit = if self.has_timeline {
            flatten_timeline(&self.timeline, self.time_offset)
        } else {
            None
        };
        let (segment_count, timing): (Option<u32>, SegmentTiming) = match explicit {
            Some((starts, end)) => {
                if starts.len() > u32::MAX as usize {
                    return Err(MpdError::TooManySegments);
                }
                (Some(starts.len() as u32), SegmentTiming::Explicit { starts, end })
            },
            None => match constant {
                Some(ticks) => (counted, SegmentTiming::Constant { ticks }),
                None => (None, SegmentTiming::Unknown),
            },
        };
        let base = match &self.base_url {
            Some(text) => Some(text.as_str()),
            None => None,
        };
        let init_url = match &self.init_url {
            Some(url) => join_url(base, url.as_str()),
            None => String::new(),
        };
        let media_url_template = match &self.media_url {
            Some(url) => join_url(base, url.as_str()),
            None => String::new(),
        };
        Ok(
            DashSegments {
                init_url,
                media_url_template,
                start_number: self.start_number,
                segment_count,
                codecs: self.codecs,
                timescale: match self.timescale {
                    Some(timescale) => timescale,
                    None => 1,
                },
                timing,
                presentation_duration,
            },
        )
    }
}

fn all_bounded(entries: &Vec<TimelineEntry>) -> (r: bool)
    ensures
        r == is_bounded(entries@),
{
    let mut i: usize = 0;
    while i < entries.len()
        invariant
            i <= entries.len(),
            forall|j: int| 0 <= j < i ==> (#[trigger] entries@[j]).r >= 0,
        decreases entries.len() - i,
    {
        if entries[i].r < 0 {
            return false;
        }
        i += 1;
    }
    true
}

/// A manifest that was read says where its segments are, so it can always be finished.
pub proof fn a_manifest_that_was_read_says_where_its_segments_are(xml: Seq<char>)
    ensures
        ManifestView::of(xml) matches Ok(manifest) ==> manifest.init_url is Some
            && manifest.media_url is Some,
{
}

} // verus!
