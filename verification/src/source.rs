//! An entry as the dictionary writes it: a tree of parts, the events that
//! the tree is tokenized into, and what each field of its record should
//! hold. Nothing here is executable: this is the yardstick that the state
//! machine is held to.

use vstd::prelude::*;
use crate::accumulate::{closes_leaf, text_of};
use crate::error::IndexError;
use crate::event::{tag_of, EventView, Tag};
use crate::ident::parsed_id;
use crate::record::RecordView;
use crate::romaji::romanized;
use crate::text::joined;

verus! {

/// One child of a `sense` element. A leaf is given by the events between
/// its tags.
pub enum SensePart {
    /// A `gloss` leaf.
    Gloss(Seq<EventView>),
    /// A `pos` leaf.
    Pos(Seq<EventView>),
    /// A `field` leaf.
    Field(Seq<EventView>),
    /// An event that no phase reacts to.
    Skipped(EventView),
}

/// One child of an `entry` element. A leaf is given by the events between
/// its tags.
pub enum EntryPart {
    /// An `ent_seq` leaf.
    Id(Seq<EventView>),
    /// A `keb` leaf.
    Form(Seq<EventView>),
    /// A `reb` leaf.
    Reading(Seq<EventView>),
    /// A `sense` element with its children.
    Sense(Seq<SensePart>),
    /// An event that no phase reacts to.
    Skipped(EventView),
}

/// What may stand between the tags of a leaf: anything but the end of the
/// stream and the closing tag of a leaf.
pub open spec fn inside_leaf(event: EventView) -> bool {
    !event.is_terminal() && !closes_leaf(event)
}

/// Every event of the content may stand inside a leaf.
pub open spec fn leaf_ok(content: Seq<EventView>) -> bool {
    forall|i: int| 0 <= i < content.len() ==> inside_leaf(#[trigger] content[i])
}

/// The text of a leaf: the character data of its content, concatenated in
/// order.
pub open spec fn text_in(content: Seq<EventView>) -> Seq<char>
    decreases content.len(),
{
    if content.len() == 0 {
        Seq::empty()
    } else {
        text_of(content[0]) + text_in(content.skip(1))
    }
}

/// The events that every phase passes over: character data outside a leaf,
/// tags that the schema gives no meaning, and whatever is neither tag nor
/// text.
pub open spec fn passed_over(event: EventView) -> bool {
    match event {
        EventView::Other => true,
        EventView::Characters(_) => true,
        EventView::StartElement(name) => tag_of(name) is Other,
        EventView::EndElement(name) => tag_of(name) is Other,
        _ => false,
    }
}

/// Whether a child of a sense is made of events that can stand there.
pub open spec fn sense_part_ok(part: SensePart) -> bool {
    match part {
        SensePart::Gloss(content) => leaf_ok(content),
        SensePart::Pos(content) => leaf_ok(content),
        SensePart::Field(content) => leaf_ok(content),
        SensePart::Skipped(event) => passed_over(event),
    }
}

/// Whether every child of a sense is.
pub open spec fn sense_ok(parts: Seq<SensePart>) -> bool {
    forall|i: int| 0 <= i < parts.len() ==> sense_part_ok(#[trigger] parts[i])
}

/// Whether a child of an entry is made of events that can stand there.
pub open spec fn entry_part_ok(part: EntryPart) -> bool {
    match part {
        EntryPart::Id(content) => leaf_ok(content),
        EntryPart::Form(content) => leaf_ok(content),
        EntryPart::Reading(content) => leaf_ok(content),
        EntryPart::Sense(parts) => sense_ok(parts),
        EntryPart::Skipped(event) => passed_over(event),
    }
}

/// The content of every leaf of the entry may stand inside a leaf, and
/// every skipped event is one that is passed over.
pub open spec fn entry_ok(parts: Seq<EntryPart>) -> bool {
    forall|i: int| 0 <= i < parts.len() ==> entry_part_ok(#[trigger] parts[i])
}

/// The element name of a tag.
pub open spec fn name_of(tag: Tag) -> Seq<char> {
    match tag {
        Tag::Entry => "entry"@,
        Tag::EntSeq => "ent_seq"@,
        Tag::Keb => "keb"@,
        Tag::Reb => "reb"@,
        Tag::Sense => "sense"@,
        Tag::Gloss => "gloss"@,
        Tag::Pos => "pos"@,
        Tag::Field => "field"@,
        Tag::Other => Seq::empty(),
    }
}

/// A leaf element: its opening tag, its content, its closing tag.
pub open spec fn leaf_events(tag: Tag, content: Seq<EventView>) -> Seq<EventView> {
    seq![EventView::StartElement(name_of(tag))] + content + seq![
        EventView::EndElement(name_of(tag)),
    ]
}

/// The events of one child of a sense.
pub open spec fn sense_part_events(part: SensePart) -> Seq<EventView> {
    match part {
        SensePart::Gloss(content) => leaf_events(Tag::Gloss, content),
        SensePart::Pos(content) => leaf_events(Tag::Pos, content),
        SensePart::Field(content) => leaf_events(Tag::Field, content),
        SensePart::Skipped(event) => seq![event],
    }
}

/// The events of the children of a sense, in order.
pub open spec fn sense_parts_events(parts: Seq<SensePart>) -> Seq<EventView>
    decreases parts.len(),
{
    if parts.len() == 0 {
        Seq::empty()
    } else {
        sense_part_events(parts[0]) + sense_parts_events(parts.skip(1))
    }
}

/// A whole `sense` element.
pub open spec fn sense_events(parts: Seq<SensePart>) -> Seq<EventView> {
    seq![EventView::StartElement(name_of(Tag::Sense))] + sense_parts_events(parts)
        + seq![EventView::EndElement(name_of(Tag::Sense))]
}

/// The events of one child of an entry.
pub open spec fn entry_part_events(part: EntryPart) -> Seq<EventView> {
    match part {
        EntryPart::Id(content) => leaf_events(Tag::EntSeq, content),
        EntryPart::Form(content) => leaf_events(Tag::Keb, content),
        EntryPart::Reading(content) => leaf_events(Tag::Reb, content),
        EntryPart::Sense(parts) => sense_events(parts),
        EntryPart::Skipped(event) => seq![event],
    }
}

/// The events of the children of an entry, in order.
pub open spec fn entry_parts_events(parts: Seq<EntryPart>) -> Seq<EventView>
    decreases parts.len(),
{
    if parts.len() == 0 {
        Seq::empty()
    } else {
        entry_part_events(parts[0]) + entry_parts_events(parts.skip(1))
    }
}

/// A whole `entry` element.
pub open spec fn entry_events(parts: Seq<EntryPart>) -> Seq<EventView> {
    seq![EventView::StartElement(name_of(Tag::Entry))] + entry_parts_events(parts)
        + seq![EventView::EndElement(name_of(Tag::Entry))]
}

/// The glosses of a sense, in document order.
pub open spec fn glosses_of(parts: Seq<SensePart>) -> Seq<Seq<char>>
    decreases parts.len(),
{
    if parts.len() == 0 {
        Seq::empty()
    } else {
        (match parts[0] {
            SensePart::Gloss(content) => seq![text_in(content)],
            _ => Seq::empty(),
        }) + glosses_of(parts.skip(1))
    }
}

/// The parts of speech of a sense, in document order.
pub open spec fn poses_of(parts: Seq<SensePart>) -> Seq<Seq<char>>
    decreases parts.len(),
{
    if parts.len() == 0 {
        Seq::empty()
    } else {
        (match parts[0] {
            SensePart::Pos(content) => seq![text_in(content)],
            _ => Seq::empty(),
        }) + poses_of(parts.skip(1))
    }
}

/// The semantic fields of a sense, in document order.
pub open spec fn fields_of(parts: Seq<SensePart>) -> Seq<Seq<char>>
    decreases parts.len(),
{
    if parts.len() == 0 {
        Seq::empty()
    } else {
        (match parts[0] {
            SensePart::Field(content) => seq![text_in(content)],
            _ => Seq::empty(),
        }) + fields_of(parts.skip(1))
    }
}

/// The texts of the sequence numbers of an entry, in document order.
pub open spec fn ids_of(parts: Seq<EntryPart>) -> Seq<Seq<char>>
    decreases parts.len(),
{
    if parts.len() == 0 {
        Seq::empty()
    } else {
        (match parts[0] {
            EntryPart::Id(content) => seq![text_in(content)],
            _ => Seq::empty(),
        }) + ids_of(parts.skip(1))
    }
}

/// The written forms of an entry, in document order.
pub open spec fn forms_of(parts: Seq<EntryPart>) -> Seq<Seq<char>>
    decreases parts.len(),
{
    if parts.len() == 0 {
        Seq::empty()
    } else {
        (match parts[0] {
            EntryPart::Form(content) => seq![text_in(content)],
            _ => Seq::empty(),
        }) + forms_of(parts.skip(1))
    }
}

/// The readings of an entry, in document order.
pub open spec fn readings_of(parts: Seq<EntryPart>) -> Seq<Seq<char>>
    decreases parts.len(),
{
    if parts.len() == 0 {
        Seq::empty()
    } else {
        (match parts[0] {
            EntryPart::Reading(content) => seq![text_in(content)],
            _ => Seq::empty(),
        }) + readings_of(parts.skip(1))
    }
}

/// The senses of an entry, in document order.
pub open spec fn senses_of(parts: Seq<EntryPart>) -> Seq<Seq<SensePart>>
    decreases parts.len(),
{
    if parts.len() == 0 {
        Seq::empty()
    } else {
        (match parts[0] {
            EntryPart::Sense(sense) => seq![sense],
            _ => Seq::empty(),
        }) + senses_of(parts.skip(1))
    }
}

/// The latin rendering of each reading.
pub open spec fn romanized_all(readings: Seq<Seq<char>>) -> Seq<Seq<char>> {
    readings.map_values(|reading: Seq<char>| romanized(reading))
}

/// One text for each sense: its glosses, joined.
pub open spec fn meanings_of(senses: Seq<Seq<SensePart>>) -> Seq<Seq<char>> {
    senses.map_values(|sense: Seq<SensePart>| joined(glosses_of(sense)))
}

/// One text for each sense: its parts of speech, joined.
pub open spec fn parts_of_speech_of(senses: Seq<Seq<SensePart>>) -> Seq<Seq<char>> {
    senses.map_values(|sense: Seq<SensePart>| joined(poses_of(sense)))
}

/// One text for each sense: its semantic fields, joined.
pub open spec fn semantic_fields_of(senses: Seq<Seq<SensePart>>) -> Seq<Seq<char>> {
    senses.map_values(|sense: Seq<SensePart>| joined(fields_of(sense)))
}

/// The sequence number of an entry: the number that its one `ent_seq` leaf
/// writes. `None` if the entry has no such leaf, more than one, or one whose
/// text is not a number.
pub open spec fn entry_id(parts: Seq<EntryPart>) -> Option<i64> {
    if ids_of(parts).len() == 1 {
        parsed_id(ids_of(parts)[0])
    } else {
        None
    }
}

/// The record that an entry describes; an entry without a sequence number
/// describes none.
pub open spec fn entry_record(parts: Seq<EntryPart>) -> Result<RecordView, IndexError> {
    match entry_id(parts) {
        Some(id) => Ok(
            RecordView {
                id,
                forms: forms_of(parts),
                readings: readings_of(parts),
                readings_romanized: romanized_all(readings_of(parts)),
                meanings: meanings_of(senses_of(parts)),
                parts_of_speech: parts_of_speech_of(senses_of(parts)),
                semantic_fields: semantic_fields_of(senses_of(parts)),
            },
        ),
        None => Err(IndexError::MalformedId),
    }
}

/// One child of the document: an entry, or an event between entries.
pub enum DocumentPart {
    Entry(Seq<EntryPart>),
    /// An event that no phase reacts to.
    Skipped(EventView),
}

/// Whether a child of the document is made of events that can stand there.
pub open spec fn document_part_ok(part: DocumentPart) -> bool {
    match part {
        DocumentPart::Entry(parts) => entry_ok(parts),
        DocumentPart::Skipped(event) => passed_over(event),
    }
}

/// Every skipped event of the document is one that is passed over.
pub open spec fn document_ok(parts: Seq<DocumentPart>) -> bool {
    forall|i: int| 0 <= i < parts.len() ==> document_part_ok(#[trigger] parts[i])
}

/// The events of one child of the document.
pub open spec fn document_part_events(part: DocumentPart) -> Seq<EventView> {
    match part {
        DocumentPart::Entry(parts) => entry_events(parts),
        DocumentPart::Skipped(event) => seq![event],
    }
}

/// The events of the children of a document, in order.
pub open spec fn document_parts_events(parts: Seq<DocumentPart>) -> Seq<EventView>
    decreases parts.len(),
{
    if parts.len() == 0 {
        Seq::empty()
    } else {
        document_part_events(parts[0]) + document_parts_events(parts.skip(1))
    }
}

/// A whole document: its children, then the end of the document.
pub open spec fn written_events(parts: Seq<DocumentPart>) -> Seq<EventView> {
    document_parts_events(parts) + seq![EventView::EndDocument]
}

/// The entries of a document, in document order.
pub open spec fn entries_of(parts: Seq<DocumentPart>) -> Seq<Seq<EntryPart>>
    decreases parts.len(),
{
    if parts.len() == 0 {
        Seq::empty()
    } else {
        (match parts[0] {
            DocumentPart::Entry(entry) => seq![entry],
            _ => Seq::empty(),
        }) + entries_of(parts.skip(1))
    }
}

/// The records that a document describes, in document order; none at all if
/// one of its entries describes none.
pub open spec fn document_records(parts: Seq<DocumentPart>) -> Result<Seq<RecordView>, IndexError>
    decreases parts.len(),
{
    if parts.len() == 0 {
        Ok(Seq::empty())
    } else {
        match parts[0] {
            DocumentPart::Skipped(_) => document_records(parts.skip(1)),
            DocumentPart::Entry(entry) => match (
                entry_record(entry),
                document_records(parts.skip(1)),
            ) {
                (Ok(record), Ok(rest)) => Ok(seq![record] + rest),
                (Err(error), _) => Err(error),
                (_, Err(error)) => Err(error),
            },
        }
    }
}

} // verus!
