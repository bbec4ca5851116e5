//! The XML events of a manifest, as plain values, and the reading of them
//! with quick-xml.

use quick_xml::events::{BytesStart, Event};
use quick_xml::Reader;
use vstd::prelude::*;

verus! {

/// An attribute of an element: its name, and its value once entities are
/// resolved, or the message of the failure to resolve them.
pub struct XmlAttribute {
    pub key: String,
    pub value: Result<String, String>,
}

/// A start or empty element tag. `name` is `None` when the tag name is not
/// valid UTF-8. `attributes` holds what quick-xml's attribute iterator
/// yields, in document order: each attribute, or the message of a
/// malformed one.
pub struct XmlElement {
    pub name: Option<String>,
    pub attributes: Vec<Result<XmlAttribute, String>>,
}

/// One event of an XML document.
pub enum XmlEvent {
    Start(XmlElement),
    Empty(XmlElement),
    /// An end tag, by its name (invalid UTF-8 replaced).
    End(String),
    Eof,
    /// Text, comments, declarations and the like.
    Other,
    /// The document is malformed here.
    Error(String),
}

pub struct AttributeV {
    pub key: Seq<char>,
    pub value: Result<Seq<char>, Seq<char>>,
}

pub struct ElementV {
    pub name: Option<Seq<char>>,
    pub attributes: Seq<Result<AttributeV, Seq<char>>>,
}

pub enum XmlEventV {
    Start(ElementV),
    Empty(ElementV),
    End(Seq<char>),
    Eof,
    Other,
    Error(Seq<char>),
}

/// The text of an optional string.
pub open spec fn opt_text(o: Option<String>) -> Option<Seq<char>> {
    match o {
        Some(s) => Some(s@),
        None => None,
    }
}

/// The text of a string result.
pub open spec fn result_text(r: Result<String, String>) -> Result<Seq<char>, Seq<char>> {
    match r {
        Ok(s) => Ok(s@),
        Err(e) => Err(e@),
    }
}

impl View for XmlAttribute {
    type V = AttributeV;

    open spec fn view(&self) -> AttributeV {
        AttributeV { key: self.key@, value: result_text(self.value) }
    }
}

/// The plain form of an attribute item.
pub open spec fn item_view(item: Result<XmlAttribute, String>) -> Result<AttributeV, Seq<char>> {
    match item {
        Ok(a) => Ok(a@),
        Err(m) => Err(m@),
    }
}

impl View for XmlElement {
    type V = ElementV;

    open spec fn view(&self) -> ElementV {
        ElementV {
            name: opt_text(self.name),
            attributes: self.attributes@.map_values(|item: Result<XmlAttribute, String>| item_view(item)),
        }
    }
}

impl View for XmlEvent {
    type V = XmlEventV;

    open spec fn view(&self) -> XmlEventV {
        match self {
            XmlEvent::Start(e) => XmlEventV::Start(e@),
            XmlEvent::Empty(e) => XmlEventV::Empty(e@),
            XmlEvent::End(n) => XmlEventV::End(n@),
            XmlEvent::Eof => XmlEventV::Eof,
            XmlEvent::Other => XmlEventV::Other,
            XmlEvent::Error(m) => XmlEventV::Error(m@),
        }
    }
}

/// The events that quick-xml's reader reads from a text, with whitespace
/// around text trimmed, in order, up to and including the end of the
/// document or the first error.
pub uninterp spec fn xml_events(text: Seq<char>) -> Seq<XmlEventV>;

#[verifier::external_type_specification]
#[verifier::external_body]
pub struct ExBytesStart<'a>(BytesStart<'a>);

#[verifier::external_type_specification]
#[verifier::external_body]
pub struct ExEvent<'a>(Event<'a>);

#[verifier::external_type_specification]
#[verifier::external_body]
pub struct ExXmlError(quick_xml::Error);

/// Converts a start or empty tag: its name by `String::from_utf8`, and each
/// item of `BytesStart::attributes`, the key by `String::from_utf8_lossy`,
/// the value by `Attribute::unescape_value`, errors by their messages.
#[verifier::external_body]
fn tag_of(e: &BytesStart) -> XmlElement {
    let attributes = e.attributes().map(|item| match item {
        Ok(a) => Ok(XmlAttribute {
            key: String::from_utf8_lossy(a.key.as_ref()).into_owned(),
            value: a.unescape_value().map(|v| v.into_owned()).map_err(|error| error.to_string()),
        }),
        Err(error) => Err(error.to_string()),
    }).collect();
    XmlElement { name: String::from_utf8(e.name().as_ref().to_vec()).ok(), attributes }
}

/// Converts one result of `Reader::read_event`, variant for variant; an end
/// tag by its name (`String::from_utf8_lossy`), an error by its message.
#[verifier::external_body]
fn event_of(event: Result<Event, quick_xml::Error>) -> XmlEvent {
    match event {
        Ok(Event::Start(e)) => XmlEvent::Start(tag_of(&e)),
        Ok(Event::Empty(e)) => XmlEvent::Empty(tag_of(&e)),
        Ok(Event::End(e)) => XmlEvent::End(String::from_utf8_lossy(e.name().as_ref()).into_owned()),
        Ok(Event::Eof) => XmlEvent::Eof,
        Ok(_) => XmlEvent::Other,
        Err(error) => XmlEvent::Error(error.to_string()),
    }
}

/// `quick_xml::Reader::from_str` with `trim_text` on, and `read_event`
/// called until the end of the document or the first error: the events it
/// gives, named as a function of the text.
#[verifier::external_body]
fn read_xml_events(xml: &str) -> (events: Vec<XmlEvent>)
    ensures
        events@.map_values(|e: XmlEvent| e@) == xml_events(xml@),
{
    let mut reader = Reader::from_str(xml);
    reader.config_mut().trim_text(true);
    let mut events = Vec::new();
    loop {
        let event = event_of(reader.read_event());
        let last = matches!(event, XmlEvent::Eof | XmlEvent::Error(_));
        events.push(event);
        if last {
            return events;
        }
    }
}

/// The events of `xml` as quick-xml reads them, whitespace around text
/// trimmed, up to the end of the document or the first error.
pub fn read_events(xml: &str) -> (events: Vec<XmlEvent>)
    ensures
        events@.map_values(|e: XmlEvent| e@) == xml_events(xml@),
{
    read_xml_events(xml)
}

} // verus!
