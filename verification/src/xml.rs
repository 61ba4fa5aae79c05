//! Reading an XML text, event by event.

use quick_xml::escape::resolve_predefined_entity;
use quick_xml::events::attributes::Attribute;
use quick_xml::events::{BytesRef, BytesStart, Event};
use quick_xml::{Reader, XmlVersion};
use vstd::prelude::*;

verus! {

/// The reader of quick-xml.
#[verifier::external_type_specification]
#[verifier::external_body]
#[verifier::reject_recursive_types(R)]
pub struct ExReader<R>(quick_xml::Reader<R>);

/// One thing in an XML text.
#[derive(Debug, PartialEq, Eq)]
pub enum XmlEvent {
    /// A tag that opens an element, or that is the whole of one.
    Open {
        /// The name of the element.
        name: String,
        /// All that stands in the tag, beginning with the name.
        content: String,
    },
    /// A tag that closes the element of this name.
    Close(String),
    /// Text between tags.
    Text(String),
    /// A reference (`&name;`) between tags, by what stands between `&` and `;`.
    Reference(String),
    /// Anything else.
    Other,
    /// The end of the text.
    End,
    /// The text is not XML from here on, with why.
    Broken(String),
}

/// An [`XmlEvent`] as sequences of characters.
pub enum XmlEventView {
    /// See [`XmlEvent::Open`].
    Open(Seq<char>, Seq<char>),
    /// See [`XmlEvent::Close`].
    Close(Seq<char>),
    /// See [`XmlEvent::Text`].
    Text(Seq<char>),
    /// See [`XmlEvent::Reference`].
    Reference(Seq<char>),
    /// See [`XmlEvent::Other`].
    Other,
    /// See [`XmlEvent::End`].
    End,
    /// See [`XmlEvent::Broken`].
    Broken(Seq<char>),
}

impl View for XmlEvent {
    type V = XmlEventView;

    open spec fn view(&self) -> XmlEventView {
        match *self {
            XmlEvent::Open { name, content } => XmlEventView::Open(name@, content@),
            XmlEvent::Close(name) => XmlEventView::Close(name@),
            XmlEvent::Text(text) => XmlEventView::Text(text@),
            XmlEvent::Reference(name) => XmlEventView::Reference(name@),
            XmlEvent::Other => XmlEventView::Other,
            XmlEvent::End => XmlEventView::End,
            XmlEvent::Broken(why) => XmlEventView::Broken(why@),
        }
    }
}

impl XmlEventView {
    /// Whether nothing follows.
    pub open spec fn is_last(self) -> bool {
        self is End || self is Broken
    }
}

/// What an XML text holds, up to and with its end or the first thing in it that is not XML.
pub uninterp spec fn events_of(xml: Seq<char>) -> Seq<XmlEventView>;

/// What a reader has still to give.
pub uninterp spec fn events_left(reader: Reader<&[u8]>) -> Seq<XmlEventView>;

/// The attributes in what stands in a tag, after the name that it begins with: each with its name
/// and its value as it is written, `None` for one that is malformed.
pub uninterp spec fn attributes_of(content: Seq<char>, name: Seq<char>) -> Seq<
    Option<(Seq<char>, Seq<char>)>,
>;

/// What the value of an attribute stands for, with its references resolved and its white space
/// normalised; or why that cannot be said.
pub uninterp spec fn value_of(raw: Seq<char>) -> Result<Seq<char>, Seq<char>>;

/// The character that a reference stands for, if it is a reference to a character; or why that
/// cannot be said.
pub uninterp spec fn character_of(reference: Seq<char>) -> Result<Option<char>, Seq<char>>;

/// Trusts `Reader::from_str` of quick-xml, set to trim texts: the reader has the events of the
/// text to give, of which there is at least one.
#[verifier::external_body]
pub(crate) fn open_xml(xml: &str) -> (r: Reader<&[u8]>)
    ensures
        events_left(r) == events_of(xml@),
        events_left(r).len() > 0,
{
    let mut reader = Reader::from_str(xml);
    reader.config_mut().trim_text(true);
    reader
}

/// Trusts `Reader::read_event` of quick-xml: it gives the first of the events that are left and
/// keeps the others. The end of the text and an error are the last event, and no other is. What
/// stands in a tag that opens an element begins with the element's name. (The bytes in an event are
/// a part of the text, cut at characters of one byte, so they are UTF-8.)
#[verifier::external_body]
pub(crate) fn next_event(reader: &mut Reader<&[u8]>) -> (r: XmlEvent)
    requires
        events_left(*old(reader)).len() > 0,
    ensures
        r@ == events_left(*old(reader))[0],
        events_left(*final(reader)) == events_left(*old(reader)).skip(1),
        r@.is_last() <==> events_left(*old(reader)).len() == 1,
        r@ matches XmlEventView::Open(name, content) ==> name.is_prefix_of(content),
{
    let utf8 = |bytes: &[u8]| String::from_utf8_lossy(bytes).into_owned();
    match reader.read_event() {
        Ok(Event::Start(e)) | Ok(Event::Empty(e)) => {
            XmlEvent::Open { name: utf8(e.name().as_ref()), content: utf8(&e) }
        }
        Ok(Event::End(e)) => XmlEvent::Close(utf8(e.name().as_ref())),
        Ok(Event::Text(e)) => XmlEvent::Text(utf8(&e)),
        Ok(Event::GeneralRef(e)) => XmlEvent::Reference(utf8(&e)),
        Ok(Event::Eof) => XmlEvent::End,
        Ok(_) => XmlEvent::Other,
        Err(e) => XmlEvent::Broken(e.to_string()),
    }
}

/// The attributes of a tag, by their names and values as they are written.
pub open spec fn attributes_view(attributes: Seq<Option<(String, String)>>) -> Seq<
    Option<(Seq<char>, Seq<char>)>,
> {
    attributes.map_values(
        |attribute: Option<(String, String)>|
            match attribute {
                Some(pair) => Some((pair.0@, pair.1@)),
                None => None,
            },
    )
}

/// Trusts `BytesStart::attributes` of quick-xml (on `BytesStart::from_content`, which takes the
/// tag apart at the end of its name, which has to be within it): it gives the attributes of the
/// tag, in order.
#[verifier::external_body]
pub(crate) fn attributes(content: &str, name: &str) -> (r: Vec<Option<(String, String)>>)
    requires
        name@.is_prefix_of(content@),
    ensures
        attributes_view(r@) == attributes_of(content@, name@),
{
    let utf8 = |bytes: &[u8]| String::from_utf8_lossy(bytes).into_owned();
    let tag = BytesStart::from_content(content, name.len());
    tag.attributes().map(|a| a.ok().map(|a| (utf8(a.key.as_ref()), utf8(&a.value)))).collect()
}

/// Trusts `Attribute::normalized_value` of quick-xml, by the rules of XML 1.0: its result depends
/// on the value as it is written, and on nothing else.
#[verifier::external_body]
pub(crate) fn attribute_value(raw: &str) -> (r: Result<String, String>)
    ensures
        match r {
            Ok(value) => value_of(raw@) == Ok::<Seq<char>, Seq<char>>(value@),
            Err(why) => value_of(raw@) == Err::<Seq<char>, Seq<char>>(why@),
        },
{
    let attribute = Attribute::from((&b""[..], raw.as_bytes()));
    match attribute.normalized_value(XmlVersion::Implicit1_0) {
        Ok(value) => Ok(value.into_owned()),
        Err(e) => Err(e.to_string()),
    }
}

/// Trusts `BytesRef::resolve_char_ref` of quick-xml: its result depends on the reference alone.
#[verifier::external_body]
pub(crate) fn char_reference(reference: &str) -> (r: Result<Option<char>, String>)
    ensures
        match r {
            Ok(c) => character_of(reference@) == Ok::<Option<char>, Seq<char>>(c),
            Err(why) => character_of(reference@) == Err::<Option<char>, Seq<char>>(why@),
        },
{
    BytesRef::new(reference).resolve_char_ref().map_err(|e| e.to_string())
}

/// The characters of the entities that every XML text may use.
pub open spec fn entity_text(name: Seq<char>) -> Option<Seq<char>> {
    if name == "lt"@ {
        Some("<"@)
    } else if name == "gt"@ {
        Some(">"@)
    } else if name == "amp"@ {
        Some("&"@)
    } else if name == "apos"@ {
        Some("'"@)
    } else if name == "quot"@ {
        Some("\""@)
    } else {
        None
    }
}

/// Trusts `resolve_predefined_entity` of quick-xml, without its HTML feature: it knows the five
/// entities of XML.
#[verifier::external_body]
pub(crate) fn predefined_entity(name: &str) -> (r: Option<String>)
    ensures
        match r {
            Some(text) => entity_text(name@) == Some(text@),
            None => entity_text(name@) is None,
        },
{
    resolve_predefined_entity(name).map(|text| text.to_owned())
}

} // verus!
