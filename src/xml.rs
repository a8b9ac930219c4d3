//! The document's structural events, read with quick-xml.

use vstd::prelude::*;
use quick_xml::events::{BytesStart, Event};
use quick_xml::Reader;
use crate::model::ParseFailure;

verus! {

/// One attribute of an element, as raw bytes.
#[derive(Debug)]
pub struct Attribute {
    pub key: Vec<u8>,
    pub value: Vec<u8>,
}

/// The events of the document that the report is built from.
#[derive(Debug)]
pub enum XmlEvent {
    /// An element opens: its qualified name and attributes.
    Start(Vec<u8>, Vec<Attribute>),
    /// A self-closing element: its qualified name and attributes.
    Empty(Vec<u8>, Vec<Attribute>),
    /// An element closes: its local name.
    End(Vec<u8>),
    /// Text, comments, declarations and the like.
    Other,
}

pub enum EventModel {
    Start { name: Seq<u8>, attrs: Seq<(Seq<u8>, Seq<u8>)> },
    Empty { name: Seq<u8>, attrs: Seq<(Seq<u8>, Seq<u8>)> },
    End { name: Seq<u8> },
    Other,
}

pub open spec fn attr_view(a: Attribute) -> (Seq<u8>, Seq<u8>) {
    (a.key@, a.value@)
}

impl View for XmlEvent {
    type V = EventModel;

    open spec fn view(&self) -> EventModel {
        match self {
            XmlEvent::Start(name, attrs) => EventModel::Start {
                name: name@,
                attrs: attrs@.map_values(|a: Attribute| attr_view(a)),
            },
            XmlEvent::Empty(name, attrs) => EventModel::Empty {
                name: name@,
                attrs: attrs@.map_values(|a: Attribute| attr_view(a)),
            },
            XmlEvent::End(name) => EventModel::End { name: name@ },
            XmlEvent::Other => EventModel::Other,
        }
    }
}

pub open spec fn events_view(events: Seq<XmlEvent>) -> Seq<EventModel> {
    events.map_values(|e: XmlEvent| e@)
}

/// The events that quick-xml's reader, set to skip whitespace-only text, reads
/// from `data` up to its end; `None` when the reader stops on an error.
pub uninterp spec fn scanned(data: Seq<char>) -> Option<Seq<EventModel>>;

#[verifier::external_type_specification]
#[verifier::external_body]
pub struct ExBytesStart<'a>(BytesStart<'a>);

/// Relies on `BytesStart::attributes`: the element's attributes in document
/// order; those the scanner reports as malformed or repeated are left out.
#[verifier::external_body]
fn attributes_of(e: &BytesStart) -> Vec<Attribute> {
    e.attributes()
        .flatten()
        .map(|a| Attribute { key: a.key.into_inner().to_vec(), value: a.value.into_owned() })
        .collect()
}

/// Relies on `Reader::from_str`, `Config::trim_text`, `Reader::read_event` and
/// `Reader::error_position`: every event read up to the end of `data`, or the
/// first error with its byte offset. Start and self-closing tags carry their
/// qualified name, end tags their local name.
#[verifier::external_body]
pub(crate) fn read_events(data: &str) -> (r: Result<Vec<XmlEvent>, ParseFailure>)
    ensures
        match r {
            Ok(evs) => scanned(data@) == Some(events_view(evs@)),
            Err(f) => f is Malformed && scanned(data@) is None,
        },
{
    let mut reader = Reader::from_str(data);
    reader.config_mut().trim_text(true);
    let mut events = vec![];
    loop {
        events.push(match reader.read_event() {
            Err(e) => return Err(ParseFailure::Malformed { position: reader.error_position(), cause: format!("{:?}", e) }),
            Ok(Event::Eof) => return Ok(events),
            Ok(Event::Start(e)) => XmlEvent::Start(e.name().0.to_vec(), attributes_of(&e)),
            Ok(Event::Empty(e)) => XmlEvent::Empty(e.name().0.to_vec(), attributes_of(&e)),
            Ok(Event::End(e)) => XmlEvent::End(e.name().local_name().as_ref().to_vec()),
            Ok(_) => XmlEvent::Other,
        });
    }
}

} // verus!
