//! The text accumulator: reads the one text value of a leaf element.

use vstd::prelude::*;
use vstd::string::StringExecFns;
use crate::error::IndexError;
use crate::event::{classify, tag_of, EventView, XmlEvent};
use crate::reader::{upcoming, XmlReader};

verus! {

/// Whether an event ends the accumulation: the closing tag of a leaf.
pub open spec fn closes_leaf(event: EventView) -> bool {
    event matches EventView::EndElement(name) && tag_of(name).is_leaf()
}

/// The text of an event, if it is character data.
pub open spec fn text_of(event: EventView) -> Seq<char> {
    match event {
        EventView::Characters(text) => text,
        _ => Seq::empty(),
    }
}

/// The text of a leaf whose content starts at the head of `events`, with the
/// number of events read, the closing tag included: all character data up to
/// the first closing tag of a leaf, concatenated in order. Any other event on
/// the way is passed over. `None` if the stream ends before such a tag.
pub open spec fn accumulated(events: Seq<EventView>) -> Option<(Seq<char>, nat)>
    decreases events.len(),
{
    if events.len() == 0 || events[0].is_terminal() {
        None
    } else if closes_leaf(events[0]) {
        Some((Seq::empty(), 1nat))
    } else {
        match accumulated(events.skip(1)) {
            Some((rest, read)) => Some((text_of(events[0]) + rest, read + 1)),
            None => None,
        }
    }
}

/// An accumulation reads at least the closing tag and no more than there is.
pub proof fn lemma_accumulated_bounds(events: Seq<EventView>)
    ensures
        accumulated(events) matches Some((_, read)) ==> 1 <= read <= events.len(),
    decreases events.len(),
{
    if events.len() > 0 && !events[0].is_terminal() && !closes_leaf(events[0]) {
        lemma_accumulated_bounds(events.skip(1));
    }
}

/// Reads the text of the leaf that the reader stands in, and moves the reader
/// past the leaf's closing tag.
pub fn extract_next_string(reader: &mut XmlReader) -> (result: Result<String, IndexError>)
    ensures
        match accumulated(upcoming(*old(reader))) {
            Some((text, read)) => {
                &&& result matches Ok(value)
                &&& value@ == text
                &&& upcoming(*final(reader)) == upcoming(*old(reader)).skip(read as int)
            },
            None => result == Err::<String, IndexError>(IndexError::MalformedXml),
        },
{
    let ghost all = upcoming(*reader);
    let ghost mut read: int = 0;
    let mut buf = String::new();
    loop
        invariant
            all == upcoming(*old(reader)),
            0 <= read <= all.len(),
            upcoming(*reader) == all.skip(read),
            match accumulated(upcoming(*reader)) {
                Some((rest, more)) => accumulated(all) == Some(
                    (buf@ + rest, (read + more) as nat),
                ),
                None => accumulated(all) is None,
            },
        decreases upcoming(*reader).len(),
    {
        let event = reader.next();
        match event {
            XmlEvent::Characters(text) => {
                buf.append(text.as_str());
                proof {
                    read = read + 1;
                }
            },
            XmlEvent::EndElement(name) => {
                if classify(name.as_str()).leaf() {
                    return Ok(buf);
                }
                proof {
                    read = read + 1;
                }
            },
            XmlEvent::EndDocument | XmlEvent::Invalid => {
                return Err(IndexError::MalformedXml);
            },
            _ => {
                proof {
                    read = read + 1;
                }
            },
        }
    }
}

} // verus!
