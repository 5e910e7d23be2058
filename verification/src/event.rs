//! Tokenizer events, reduced to what the assembler reads.

use vstd::prelude::*;
use crate::text::same_text;

verus! {

/// One event of the tokenizer's stream.
#[derive(Clone, Debug)]
pub enum XmlEvent {
    /// An element opens; the local name of its tag.
    StartElement(String),
    /// An element closes; the local name of its tag.
    EndElement(String),
    /// Character data.
    Characters(String),
    /// The document is complete. The tokenizer repeats this event for ever.
    EndDocument,
    /// The tokenizer could not go on. It repeats this event for ever.
    Invalid,
    /// Anything else: a declaration, a comment, whitespace between elements.
    Other,
}

/// An event as specifications see it.
pub enum EventView {
    StartElement(Seq<char>),
    EndElement(Seq<char>),
    Characters(Seq<char>),
    EndDocument,
    Invalid,
    Other,
}

impl EventView {
    /// Whether the stream ends with this event.
    pub open spec fn is_terminal(self) -> bool {
        self is EndDocument || self is Invalid
    }
}

impl View for XmlEvent {
    type V = EventView;

    open spec fn view(&self) -> EventView {
        match *self {
            XmlEvent::StartElement(name) => EventView::StartElement(name@),
            XmlEvent::EndElement(name) => EventView::EndElement(name@),
            XmlEvent::Characters(text) => EventView::Characters(text@),
            XmlEvent::EndDocument => EventView::EndDocument,
            XmlEvent::Invalid => EventView::Invalid,
            XmlEvent::Other => EventView::Other,
        }
    }
}

/// The element names that the dictionary schema gives a meaning.
#[derive(Clone, Copy, Debug, PartialEq, Eq, Structural)]
pub enum Tag {
    Entry,
    EntSeq,
    Keb,
    Reb,
    Sense,
    Gloss,
    Pos,
    Field,
    Other,
}

impl Tag {
    /// The scalar leaves: elements whose whole content is one text value.
    pub open spec fn is_leaf(self) -> bool {
        self is EntSeq || self is Keb || self is Reb || self is Gloss || self is Pos
            || self is Field
    }

    /// The leaves that belong directly to an entry.
    pub open spec fn is_entry_leaf(self) -> bool {
        self is EntSeq || self is Keb || self is Reb
    }

    /// The leaves that belong to a sense.
    pub open spec fn is_sense_leaf(self) -> bool {
        self is Gloss || self is Pos || self is Field
    }

    /// Whether the tag is a scalar leaf.
    #[verifier::when_used_as_spec(is_leaf)]
    pub fn leaf(self) -> (leaf: bool)
        ensures
            leaf == self.is_leaf(),
    {
        match self {
            Tag::EntSeq | Tag::Keb | Tag::Reb | Tag::Gloss | Tag::Pos | Tag::Field => true,
            _ => false,
        }
    }
}

/// The tag that an element name stands for.
pub open spec fn tag_of(name: Seq<char>) -> Tag {
    if name == "entry"@ {
        Tag::Entry
    } else if name == "ent_seq"@ {
        Tag::EntSeq
    } else if name == "keb"@ {
        Tag::Keb
    } else if name == "reb"@ {
        Tag::Reb
    } else if name == "sense"@ {
        Tag::Sense
    } else if name == "gloss"@ {
        Tag::Gloss
    } else if name == "pos"@ {
        Tag::Pos
    } else if name == "field"@ {
        Tag::Field
    } else {
        Tag::Other
    }
}

/// Recognizes an element name.
pub fn classify(name: &str) -> (tag: Tag)
    ensures
        tag == tag_of(name@),
{
    if same_text(name, "entry") {
        Tag::Entry
    } else if same_text(name, "ent_seq") {
        Tag::EntSeq
    } else if same_text(name, "keb") {
        Tag::Keb
    } else if same_text(name, "reb") {
        Tag::Reb
    } else if same_text(name, "sense") {
        Tag::Sense
    } else if same_text(name, "gloss") {
        Tag::Gloss
    } else if same_text(name, "pos") {
        Tag::Pos
    } else if same_text(name, "field") {
        Tag::Field
    } else {
        Tag::Other
    }
}

} // verus!
