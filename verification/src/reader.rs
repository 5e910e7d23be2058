//! The XML tokenizer over a document held in memory.

use vstd::prelude::*;
use vstd::string::{StrSliceExecFns, StringSliceAdditionalSpecFns};
use crate::event::{EventView, XmlEvent};

verus! {

/// A tokenizer positioned somewhere in a document: an
/// `xml::reader::EventReader` over a cursor on the document's bytes. Nothing
/// is known of a reader but what `upcoming` names.
#[verifier::external_body]
pub struct XmlReader {
    inner: xml::reader::EventReader<std::io::Cursor<Vec<u8>>>,
}

/// The events that the reader has yet to give, through the first
/// `EndDocument` or `Invalid`.
pub uninterp spec fn upcoming(reader: XmlReader) -> Seq<EventView>;

/// The events of a whole document, through the first `EndDocument` or
/// `Invalid`.
pub uninterp spec fn document_events(document: Seq<u8>) -> Seq<EventView>;

/// Calls `xml::reader::EventReader::new` on a cursor over the document. The
/// tokenizer reads nothing but these bytes, so the events it will give are a
/// function of them, named `document_events`.
#[verifier::external_body]
fn open_reader(document: Vec<u8>) -> (reader: XmlReader)
    ensures
        upcoming(reader) == document_events(document@),
{
    XmlReader { inner: xml::reader::EventReader::new(std::io::Cursor::new(document)) }
}

/// Calls `xml::reader::EventReader::next` and keeps of the event what the
/// assembler reads: the local name of a tag, the text of character data. An
/// error becomes `Invalid`. There is always a next event, and it is the head
/// of `upcoming`; the tokenizer then moves past it, unless it is
/// `EndDocument` or an error, which it gives again on every later call.
#[verifier::external_body]
fn pull_event(reader: &mut XmlReader) -> (event: XmlEvent)
    ensures
        upcoming(*old(reader)).len() > 0,
        event@ == upcoming(*old(reader))[0],
        upcoming(*final(reader)) == (if event@.is_terminal() {
            upcoming(*old(reader))
        } else {
            upcoming(*old(reader)).skip(1)
        }),
{
    match reader.inner.next() {
        Ok(xml::reader::XmlEvent::StartElement { name, .. }) => {
            XmlEvent::StartElement(name.local_name)
        },
        Ok(xml::reader::XmlEvent::EndElement { name }) => XmlEvent::EndElement(name.local_name),
        Ok(xml::reader::XmlEvent::Characters(text)) => XmlEvent::Characters(text),
        Ok(xml::reader::XmlEvent::EndDocument) => XmlEvent::EndDocument,
        Ok(_) => XmlEvent::Other,
        Err(_) => XmlEvent::Invalid,
    }
}

impl XmlReader {
    /// A reader at the start of a document.
    pub fn new(document: Vec<u8>) -> (reader: XmlReader)
        ensures
            upcoming(reader) == document_events(document@),
    {
        open_reader(document)
    }

    /// A reader at the start of a document given as text.
    pub fn from_str(document: &str) -> (reader: XmlReader)
        ensures
            upcoming(reader) == document_events(document.spec_bytes()),
    {
        open_reader(document.as_bytes_vec())
    }

    /// Takes the next event from the stream.
    pub fn next(&mut self) -> (event: XmlEvent)
        ensures
            upcoming(*old(self)).len() > 0,
            event@ == upcoming(*old(self))[0],
            upcoming(*final(self)) == (if event@.is_terminal() {
                upcoming(*old(self))
            } else {
                upcoming(*old(self)).skip(1)
            }),
    {
        pull_event(self)
    }
}

} // verus!
