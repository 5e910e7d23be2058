//! The entry assembler: drives the tokenizer and hands out one record for
//! each entry that closes.

use vstd::prelude::*;
use crate::accumulate::{extract_next_string, lemma_accumulated_bounds};
use crate::error::IndexError;
use crate::event::{classify, tag_of, EventView, Tag, XmlEvent};
use crate::ident::parse_entry_id;
use crate::machine::{assembled, lemma_pulled_bounds, pulled, ContextView, Phase, Pulled};
use crate::reader::{document_events, upcoming, XmlReader};
use crate::record::{Draft, Record, RecordView, SenseBuffer};
use crate::romaji::transliterate;
use crate::text::join_values;

verus! {

/// The assembler's state: the phase, the entry that is open and the sense
/// that is open.
#[derive(Clone, Debug, PartialEq, Eq)]
pub struct ParseContext {
    pub phase: Phase,
    pub draft: Draft,
    pub sense: SenseBuffer,
}

impl View for ParseContext {
    type V = ContextView;

    open spec fn view(&self) -> ContextView {
        ContextView { phase: self.phase, draft: self.draft@, sense: self.sense@ }
    }
}

impl ParseContext {
    /// The state before the first event.
    pub fn new() -> (context: ParseContext)
        ensures
            context@ == ContextView::initial(),
            context@.wf(),
    {
        ParseContext { phase: Phase::Outside, draft: Draft::new(), sense: SenseBuffer::new() }
    }
}

/// The views of the records of a vector, in order.
pub open spec fn record_views(records: Seq<Record>) -> Seq<RecordView> {
    records.map_values(|record: Record| record@)
}

/// Stores the text of a leaf that the phase reads.
fn store_leaf(context: &mut ParseContext, tag: Tag, text: String) -> (result: Result<
    (),
    IndexError,
>)
    requires
        old(context)@.reads_leaf(tag),
    ensures
        match old(context)@.with_leaf(tag, text@) {
            Ok(next) => {
                &&& result is Ok
                &&& final(context)@ == next
                &&& old(context)@.wf() ==> next.wf()
            },
            Err(error) => result == Err::<(), IndexError>(error),
        },
{
    match tag {
        Tag::EntSeq => {
            if context.draft.id.is_some() {
                return Err(IndexError::MalformedId);
            }
            match parse_entry_id(text.as_str()) {
                Some(id) => {
                    context.draft.id = Some(id);
                },
                None => {
                    return Err(IndexError::MalformedId);
                },
            }
        },
        Tag::Keb => {
            context.draft.forms.push(text);
        },
        Tag::Reb => {
            let romaji = transliterate(text.as_str());
            context.draft.readings.push(text);
            context.draft.readings_romanized.push(romaji);
        },
        Tag::Gloss => {
            context.sense.glosses.push(text);
        },
        Tag::Pos => {
            context.sense.poses.push(text);
        },
        Tag::Field => {
            context.sense.fields.push(text);
        },
        _ => {},
    }
    Ok(())
}

/// Takes an opening tag whose event was just read: opens an entry or a
/// sense, or reads the text of a leaf from the events that follow and stores
/// it. A tag that the phase does not expect is passed over.
pub fn handle_start_element(
    element_name: &str,
    reader: &mut XmlReader,
    context: &mut ParseContext,
) -> (result: Result<(), IndexError>)
    ensures
        match old(context)@.on_start(tag_of(element_name@), upcoming(*old(reader))) {
            Ok((next, read)) => {
                &&& result is Ok
                &&& final(context)@ == next
                &&& old(context)@.wf() ==> next.wf()
                &&& upcoming(*final(reader)) == upcoming(*old(reader)).skip(read as int)
            },
            Err(error) => result == Err::<(), IndexError>(error),
        },
{
    let tag = classify(element_name);
    let reads = match context.phase {
        Phase::Outside => false,
        Phase::InEntry => matches!(tag, Tag::EntSeq | Tag::Keb | Tag::Reb),
        Phase::InSense => matches!(tag, Tag::Gloss | Tag::Pos | Tag::Field),
    };
    if reads {
        match extract_next_string(reader) {
            Ok(text) => store_leaf(context, tag, text),
            Err(error) => Err(error),
        }
    } else {
        match (context.phase, tag) {
            (Phase::Outside, Tag::Entry) => {
                context.draft = Draft::new();
                context.sense = SenseBuffer::new();
                context.phase = Phase::InEntry;
            },
            (Phase::InEntry, Tag::Sense) => {
                context.sense = SenseBuffer::new();
                context.phase = Phase::InSense;
            },
            _ => {},
        }
        Ok(())
    }
}

/// Takes a closing tag whose event was just read. Closing a sense joins its
/// values and appends them to the entry; closing an entry hands out its
/// record. A tag that the phase does not expect is passed over.
pub fn handle_end_element(element_name: &str, context: &mut ParseContext) -> (result: Result<
    Option<Record>,
    IndexError,
>)
    ensures
        match old(context)@.on_end(tag_of(element_name@)) {
            Ok((next, completed)) => {
                &&& result matches Ok(handed)
                &&& final(context)@ == next
                &&& old(context)@.wf() ==> next.wf()
                &&& match completed {
                    Some(record) => {
                        &&& handed matches Some(given)
                        &&& given@ == record
                        &&& old(context)@.wf() ==> record.wf()
                    },
                    None => handed is None,
                }
            },
            Err(error) => result == Err::<Option<Record>, IndexError>(error),
        },
{
    let tag = classify(element_name);
    match (context.phase, tag) {
        (Phase::InSense, Tag::Sense) => {
            let meaning = join_values(&context.sense.glosses);
            let part_of_speech = join_values(&context.sense.poses);
            let semantic_field = join_values(&context.sense.fields);
            context.draft.meanings.push(meaning);
            context.draft.parts_of_speech.push(part_of_speech);
            context.draft.semantic_fields.push(semantic_field);
            context.sense = SenseBuffer::new();
            context.phase = Phase::InEntry;
            Ok(None)
        },
        (Phase::InEntry, Tag::Entry) => {
            match context.draft.id {
                Some(id) => {
                    let mut draft = Draft::new();
                    core::mem::swap(&mut context.draft, &mut draft);
                    context.sense = SenseBuffer::new();
                    context.phase = Phase::Outside;
                    let record = Record {
                        id,
                        forms: draft.forms,
                        readings: draft.readings,
                        readings_romanized: draft.readings_romanized,
                        meanings: draft.meanings,
                        parts_of_speech: draft.parts_of_speech,
                        semantic_fields: draft.semantic_fields,
                    };
                    Ok(Some(record))
                },
                None => Err(IndexError::MalformedId),
            }
        },
        _ => Ok(None),
    }
}

/// Reads events until an entry closes and gives its record; `None` once the
/// document has ended.
pub fn next_record(reader: &mut XmlReader, context: &mut ParseContext) -> (result: Result<
    Option<Record>,
    IndexError,
>)
    ensures
        match pulled(old(context)@, upcoming(*old(reader))) {
            Pulled::Record { next, read, record } => {
                &&& result matches Ok(Some(given))
                &&& given@ == record
                &&& final(context)@ == next
                &&& old(context)@.wf() ==> next.wf() && record.wf()
                &&& upcoming(*final(reader)) == upcoming(*old(reader)).skip(read as int)
            },
            Pulled::Finished { next, read } => {
                &&& result matches Ok(None)
                &&& final(context)@ == next
                &&& old(context)@.wf() ==> next.wf()
                &&& upcoming(*final(reader)) == upcoming(*old(reader)).skip(read as int)
            },
            Pulled::Failed { error } => result == Err::<Option<Record>, IndexError>(error),
        },
{
    let ghost all = upcoming(*reader);
    let ghost start = context@;
    let ghost mut read: int = 0;
    loop
        invariant
            all == upcoming(*old(reader)),
            start == old(context)@,
            start.wf() ==> context@.wf(),
            0 <= read <= all.len(),
            upcoming(*reader) == all.skip(read),
            pulled(start, all) == pulled(context@, upcoming(*reader)).after(read as nat),
        decreases upcoming(*reader).len(),
    {
        let ghost before = upcoming(*reader);
        let ghost state = context@;
        let event = reader.next();
        match event {
            XmlEvent::StartElement(name) => {
                proof {
                    lemma_accumulated_bounds(before.skip(1));
                }
                match handle_start_element(name.as_str(), reader, context) {
                    Ok(()) => {
                        proof {
                            let more = state.on_start(tag_of(name@), before.skip(1))->Ok_0.1;
                            assert(all.skip(read + 1).skip(more as int) =~= all.skip(
                                read + 1 + more,
                            ));
                            assert(before.skip(1 + more as int) =~= all.skip(read + 1 + more));
                            read = read + 1 + more;
                        }
                    },
                    Err(error) => {
                        return Err(error);
                    },
                }
            },
            XmlEvent::EndElement(name) => {
                match handle_end_element(name.as_str(), context) {
                    Ok(Some(record)) => {
                        return Ok(Some(record));
                    },
                    Ok(None) => {
                        proof {
                            read = read + 1;
                        }
                    },
                    Err(error) => {
                        return Err(error);
                    },
                }
            },
            XmlEvent::EndDocument => {
                return Ok(None);
            },
            XmlEvent::Invalid => {
                return Err(IndexError::MalformedXml);
            },
            _ => {
                proof {
                    read = read + 1;
                }
            },
        }
    }
}

/// Whether `result` is what a run over `events` gives: the records of all
/// the entries that close, in document order and each well-formed, or the
/// error that aborted the run.
pub open spec fn is_run_of(
    events: Seq<EventView>,
    result: Result<Vec<Record>, IndexError>,
) -> bool {
    match assembled(ContextView::initial(), events) {
        Ok(records) => {
            &&& result matches Ok(given)
            &&& record_views(given@) == records
            &&& forall|i: int| 0 <= i < records.len() ==> (#[trigger] records[i]).wf()
        },
        Err(error) => result == Err::<Vec<Record>, IndexError>(error),
    }
}

/// Assembles the records of all the entries from the reader's position to
/// the end of the document, in document order. Any failure aborts the run:
/// no record is given then.
pub fn parse_xml_and_index(reader: &mut XmlReader) -> (result: Result<Vec<Record>, IndexError>)
    ensures
        is_run_of(upcoming(*old(reader)), result),
{
    let ghost all = upcoming(*reader);
    let ghost mut read: int = 0;
    let mut context = ParseContext::new();
    let mut records: Vec<Record> = Vec::new();
    loop
        invariant
            all == upcoming(*old(reader)),
            context@.wf(),
            0 <= read <= all.len(),
            upcoming(*reader) == all.skip(read),
            forall|i: int| 0 <= i < records.len() ==> (#[trigger] record_views(records@)[i]).wf(),
            match assembled(context@, upcoming(*reader)) {
                Ok(rest) => assembled(ContextView::initial(), all) == Ok::<
                    Seq<RecordView>,
                    IndexError,
                >(record_views(records@) + rest),
                Err(error) => assembled(ContextView::initial(), all) == Err::<
                    Seq<RecordView>,
                    IndexError,
                >(error),
            },
        decreases upcoming(*reader).len(),
    {
        let ghost before = upcoming(*reader);
        let ghost state = context@;
        let ghost gathered = record_views(records@);
        proof {
            lemma_pulled_bounds(state, before);
        }
        match next_record(reader, &mut context) {
            Ok(Some(record)) => {
                proof {
                    let more = pulled(state, before)->Record_read;
                    assert(record_views(records@.push(record)) =~= gathered.push(record@));
                    match assembled(context@, before.skip(more as int)) {
                        Ok(rest) => {
                            assert(gathered + (seq![record@] + rest) =~= gathered.push(record@)
                                + rest);
                        },
                        Err(error) => {},
                    }
                    read = read + more;
                }
                records.push(record);
            },
            Ok(None) => {
                return Ok(records);
            },
            Err(error) => {
                return Err(error);
            },
        }
    }
}

/// Assembles the records of a whole document held in memory.
pub fn parse_document(document: Vec<u8>) -> (result: Result<Vec<Record>, IndexError>)
    ensures
        is_run_of(document_events(document@), result),
{
    let mut reader = XmlReader::new(document);
    parse_xml_and_index(&mut reader)
}

} // verus!
