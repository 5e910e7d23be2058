//! What the state machine does to an entry written as the dictionary writes
//! it, proved field by field.

use vstd::prelude::*;
use crate::accumulate::{accumulated, lemma_accumulated_bounds};
use crate::assembler::{is_run_of, record_views};
use crate::error::IndexError;
use crate::event::{tag_of, EventView, Tag};
use crate::ident::parsed_id;
use crate::machine::{assembled, lemma_pulled_bounds, pulled, ContextView, Pulled};
use crate::record::{DraftView, Record, RecordView, SenseView};
use crate::romaji::romanized;
use crate::text::{joined, separator};
use crate::source::{
    document_ok, document_part_events, document_records, entries_of, entry_events, entry_id,
    entry_ok, entry_part_events, entry_parts_events, entry_record, fields_of, forms_of,
    glosses_of, ids_of, leaf_events, leaf_ok, meanings_of, name_of, parts_of_speech_of,
    passed_over, poses_of, readings_of, romanized_all, semantic_fields_of, sense_events,
    sense_ok, sense_part_events, sense_parts_events, senses_of, text_in, written_events,
    DocumentPart, EntryPart, SensePart,
};

verus! {

/// Every tag of the schema is recognized by its element name.
pub proof fn lemma_tag_of_name(tag: Tag)
    requires
        !(tag is Other),
    ensures
        tag_of(name_of(tag)) == tag,
{
    reveal_strlit("entry");
    reveal_strlit("ent_seq");
    reveal_strlit("keb");
    reveal_strlit("reb");
    reveal_strlit("sense");
    reveal_strlit("gloss");
    reveal_strlit("pos");
    reveal_strlit("field");
    assert("ent_seq"@[0] == 'e' && "ent_seq"@.len() == 7);
    assert("keb"@[0] == 'k' && "keb"@.len() == 3);
    assert("reb"@[0] == 'r' && "reb"@.len() == 3);
    assert("sense"@[0] == 's' && "sense"@.len() == 5);
    assert("gloss"@[0] == 'g' && "gloss"@.len() == 5);
    assert("pos"@[0] == 'p' && "pos"@.len() == 3);
    assert("field"@[0] == 'f' && "field"@.len() == 5);
}

/// Accumulating over the content of a leaf and its closing tag gives the
/// text of the content and reads through the closing tag.
pub proof fn lemma_accumulated_leaf(
    content: Seq<EventView>,
    name: Seq<char>,
    after: Seq<EventView>,
)
    requires
        leaf_ok(content),
        tag_of(name).is_leaf(),
    ensures
        accumulated(content + seq![EventView::EndElement(name)] + after) == Some(
            (text_in(content), (content.len() + 1) as nat),
        ),
    decreases content.len(),
{
    if content.len() > 0 {
        let events = content + seq![EventView::EndElement(name)] + after;
        let rest = content.skip(1);
        assert(leaf_ok(rest));
        assert(events.skip(1) =~= rest + seq![EventView::EndElement(name)] + after);
        lemma_accumulated_leaf(rest, name, after);
    }
}

/// An event that is passed over leaves the state as it is.
pub proof fn lemma_pulled_skips(context: ContextView, event: EventView, after: Seq<EventView>)
    requires
        passed_over(event),
    ensures
        pulled(context, seq![event] + after) == pulled(context, after).after(1),
{
    let events = seq![event] + after;
    assert(events.skip(1 + 0int) =~= after);
}

/// A leaf that the phase reads is stored, or fails the run.
pub proof fn lemma_pulled_leaf(
    context: ContextView,
    tag: Tag,
    content: Seq<EventView>,
    after: Seq<EventView>,
)
    requires
        context.reads_leaf(tag),
        leaf_ok(content),
    ensures
        pulled(context, leaf_events(tag, content) + after) == (match context.with_leaf(
            tag,
            text_in(content),
        ) {
            Ok(next) => pulled(next, after).after(leaf_events(tag, content).len()),
            Err(error) => Pulled::Failed { error },
        }),
{
    let events = leaf_events(tag, content) + after;
    let name = name_of(tag);
    lemma_tag_of_name(tag);
    assert(events.skip(1) =~= content + seq![EventView::EndElement(name)] + after);
    lemma_accumulated_leaf(content, name, after);
    assert(events.skip(1 + (content.len() + 1) as int) =~= after);
}

/// The children of a sense add their texts to the buffer, each kind in
/// document order.
pub proof fn lemma_pulled_sense_parts(
    context: ContextView,
    parts: Seq<SensePart>,
    after: Seq<EventView>,
)
    requires
        context.phase is InSense,
        sense_ok(parts),
    ensures
        pulled(context, sense_parts_events(parts) + after) == pulled(
            ContextView {
                sense: SenseView {
                    glosses: context.sense.glosses + glosses_of(parts),
                    poses: context.sense.poses + poses_of(parts),
                    fields: context.sense.fields + fields_of(parts),
                },
                ..context
            },
            after,
        ).after(sense_parts_events(parts).len()),
    decreases parts.len(),
{
    let target = ContextView {
        sense: SenseView {
            glosses: context.sense.glosses + glosses_of(parts),
            poses: context.sense.poses + poses_of(parts),
            fields: context.sense.fields + fields_of(parts),
        },
        ..context
    };
    if parts.len() > 0 {
        let rest = parts.skip(1);
        let rest_events = sense_parts_events(rest) + after;
        assert(sense_ok(rest));
        assert(sense_parts_events(parts) + after =~= sense_part_events(parts[0]) + rest_events);
        let next = match parts[0] {
            SensePart::Gloss(content) => context.with_leaf(Tag::Gloss, text_in(content))->Ok_0,
            SensePart::Pos(content) => context.with_leaf(Tag::Pos, text_in(content))->Ok_0,
            SensePart::Field(content) => context.with_leaf(Tag::Field, text_in(content))->Ok_0,
            SensePart::Skipped(event) => context,
        };
        match parts[0] {
            SensePart::Gloss(content) => {
                lemma_pulled_leaf(context, Tag::Gloss, content, rest_events);
            },
            SensePart::Pos(content) => {
                lemma_pulled_leaf(context, Tag::Pos, content, rest_events);
            },
            SensePart::Field(content) => {
                lemma_pulled_leaf(context, Tag::Field, content, rest_events);
            },
            SensePart::Skipped(event) => {
                lemma_pulled_skips(context, event, rest_events);
            },
        }
        lemma_pulled_sense_parts(next, rest, after);
        let reached = ContextView {
            sense: SenseView {
                glosses: next.sense.glosses + glosses_of(rest),
                poses: next.sense.poses + poses_of(rest),
                fields: next.sense.fields + fields_of(rest),
            },
            ..next
        };
        assert(reached =~= target);
    }
}

/// A whole sense adds one joined text to each of the three sense fields.
pub proof fn lemma_pulled_sense(context: ContextView, parts: Seq<SensePart>, after: Seq<EventView>)
    requires
        context.phase is InEntry,
        context.sense == SenseView::empty(),
        sense_ok(parts),
    ensures
        pulled(context, sense_events(parts) + after) == pulled(
            ContextView {
                draft: context.draft.with_sense(
                    SenseView {
                        glosses: glosses_of(parts),
                        poses: poses_of(parts),
                        fields: fields_of(parts),
                    },
                ),
                ..context
            },
            after,
        ).after(sense_events(parts).len()),
{
    let events = sense_events(parts) + after;
    let tail = seq![EventView::EndElement(name_of(Tag::Sense))] + after;
    lemma_tag_of_name(Tag::Sense);
    assert(events.skip(1 + 0int) =~= sense_parts_events(parts) + tail);
    lemma_pulled_sense_parts(context.open_sense(), parts, tail);
    assert(tail.skip(1) =~= after);
}

/// The sequence number after the children of an entry were read, starting
/// from `id`: it may be given once and must be a number.
pub open spec fn id_after(id: Option<i64>, parts: Seq<EntryPart>) -> Result<
    Option<i64>,
    IndexError,
>
    decreases parts.len(),
{
    if parts.len() == 0 {
        Ok(id)
    } else {
        match parts[0] {
            EntryPart::Id(content) => match (id, parsed_id(text_in(content))) {
                (None, Some(value)) => id_after(Some(value), parts.skip(1)),
                _ => Err(IndexError::MalformedId),
            },
            _ => id_after(id, parts.skip(1)),
        }
    }
}

/// The only failure among the children of an entry is that of its sequence
/// number.
pub proof fn lemma_id_after_failure(id: Option<i64>, parts: Seq<EntryPart>)
    ensures
        id_after(id, parts) matches Err(error) ==> error == IndexError::MalformedId,
    decreases parts.len(),
{
    if parts.len() > 0 {
        match parts[0] {
            EntryPart::Id(content) => match (id, parsed_id(text_in(content))) {
                (None, Some(value)) => {
                    lemma_id_after_failure(Some(value), parts.skip(1));
                },
                _ => {},
            },
            _ => {
                lemma_id_after_failure(id, parts.skip(1));
            },
        }
    }
}

/// The draft after the children of an entry were read, given the sequence
/// number that they leave.
pub open spec fn draft_after(
    draft: DraftView,
    id: Option<i64>,
    parts: Seq<EntryPart>,
) -> DraftView {
    DraftView {
        id,
        forms: draft.forms + forms_of(parts),
        readings: draft.readings + readings_of(parts),
        readings_romanized: draft.readings_romanized + romanized_all(readings_of(parts)),
        meanings: draft.meanings + meanings_of(senses_of(parts)),
        parts_of_speech: draft.parts_of_speech + parts_of_speech_of(senses_of(parts)),
        semantic_fields: draft.semantic_fields + semantic_fields_of(senses_of(parts)),
    }
}

/// The children of an entry fill the draft, each field in document order, or
/// fail the run at a sequence number that is not a number or comes twice.
pub proof fn lemma_pulled_entry_parts(
    context: ContextView,
    parts: Seq<EntryPart>,
    after: Seq<EventView>,
)
    requires
        context.phase is InEntry,
        context.sense == SenseView::empty(),
        entry_ok(parts),
    ensures
        pulled(context, entry_parts_events(parts) + after) == (match id_after(
            context.draft.id,
            parts,
        ) {
            Ok(id) => pulled(
                ContextView { draft: draft_after(context.draft, id, parts), ..context },
                after,
            ).after(entry_parts_events(parts).len()),
            Err(error) => Pulled::Failed { error },
        }),
    decreases parts.len(),
{
    if parts.len() > 0 {
        let rest = parts.skip(1);
        let rest_events = entry_parts_events(rest) + after;
        assert(entry_ok(rest));
        assert(entry_parts_events(parts) + after =~= entry_part_events(parts[0]) + rest_events);
        let step: Result<ContextView, IndexError> = match parts[0] {
            EntryPart::Id(content) => context.with_leaf(Tag::EntSeq, text_in(content)),
            EntryPart::Form(content) => context.with_leaf(Tag::Keb, text_in(content)),
            EntryPart::Reading(content) => context.with_leaf(Tag::Reb, text_in(content)),
            EntryPart::Sense(sense) => Ok(
                ContextView {
                    draft: context.draft.with_sense(
                        SenseView {
                            glosses: glosses_of(sense),
                            poses: poses_of(sense),
                            fields: fields_of(sense),
                        },
                    ),
                    ..context
                },
            ),
            EntryPart::Skipped(event) => Ok(context),
        };
        match parts[0] {
            EntryPart::Id(content) => {
                lemma_pulled_leaf(context, Tag::EntSeq, content, rest_events);
            },
            EntryPart::Form(content) => {
                lemma_pulled_leaf(context, Tag::Keb, content, rest_events);
            },
            EntryPart::Reading(content) => {
                lemma_pulled_leaf(context, Tag::Reb, content, rest_events);
            },
            EntryPart::Sense(sense) => {
                lemma_pulled_sense(context, sense, rest_events);
            },
            EntryPart::Skipped(event) => {
                lemma_pulled_skips(context, event, rest_events);
            },
        }
        match step {
            Ok(next) => {
                lemma_pulled_entry_parts(next, rest, after);
                match id_after(next.draft.id, rest) {
                    Ok(id) => {
                        let reached = ContextView {
                            draft: draft_after(next.draft, id, rest),
                            ..next
                        };
                        let target = ContextView {
                            draft: draft_after(context.draft, id, parts),
                            ..context
                        };
                        assert(reached =~= target);
                    },
                    Err(error) => {},
                }
            },
            Err(error) => {},
        }
    }
}

/// The sequence number that the children of an entry leave is the entry's
/// one sequence number.
pub proof fn lemma_id_after_is_entry_id(id: Option<i64>, parts: Seq<EntryPart>)
    ensures
        id is Some ==> id_after(id, parts) == (if ids_of(parts).len() == 0 {
            Ok::<Option<i64>, IndexError>(id)
        } else {
            Err::<Option<i64>, IndexError>(IndexError::MalformedId)
        }),
        id is None ==> id_after(id, parts) == (if ids_of(parts).len() == 0 {
            Ok::<Option<i64>, IndexError>(None)
        } else if entry_id(parts) is Some {
            Ok::<Option<i64>, IndexError>(entry_id(parts))
        } else {
            Err::<Option<i64>, IndexError>(IndexError::MalformedId)
        }),
    decreases parts.len(),
{
    if parts.len() > 0 {
        let rest = parts.skip(1);
        match parts[0] {
            EntryPart::Id(content) => {
                match (id, parsed_id(text_in(content))) {
                    (None, Some(value)) => {
                        lemma_id_after_is_entry_id(Some(value), rest);
                    },
                    _ => {},
                }
            },
            _ => {
                lemma_id_after_is_entry_id(id, rest);
            },
        }
    }
}

/// From between entries, pulling over a whole entry gives exactly the record
/// that the entry describes and leaves the machine between entries again;
/// or the run fails, when the entry has no usable sequence number.
pub proof fn law_entry_gives_its_record(parts: Seq<EntryPart>, after: Seq<EventView>)
    requires
        entry_ok(parts),
    ensures
        pulled(ContextView::initial(), entry_events(parts) + after) == (match entry_record(
            parts,
        ) {
            Ok(record) => Pulled::Record {
                next: ContextView::initial(),
                read: entry_events(parts).len(),
                record,
            },
            Err(error) => Pulled::Failed { error },
        }),
{
    let events = entry_events(parts) + after;
    let tail = seq![EventView::EndElement(name_of(Tag::Entry))] + after;
    lemma_tag_of_name(Tag::Entry);
    assert(events.skip(1 + 0int) =~= entry_parts_events(parts) + tail);
    lemma_pulled_entry_parts(ContextView::initial().open_entry(), parts, tail);
    lemma_id_after_is_entry_id(None, parts);
    lemma_id_after_failure(None, parts);
}

/// Two values join to the first, then `"; "`, then the second.
pub proof fn law_joined_pair(first: Seq<char>, second: Seq<char>)
    ensures
        joined(seq![first, second]) == first + separator() + second,
{
    assert(joined(seq![first, second].drop_last()) == first);
}

/// An entry with N senses gives N meanings, N part-of-speech texts and N
/// semantic-field texts, and the k-th of each is the joined values of the
/// k-th sense of the entry.
pub proof fn law_one_text_per_sense(parts: Seq<EntryPart>, after: Seq<EventView>)
    requires
        entry_ok(parts),
    ensures
        pulled(ContextView::initial(), entry_events(parts) + after) matches Pulled::Record {
            record,
            ..
        } ==> {
            &&& record.meanings.len() == senses_of(parts).len()
            &&& record.parts_of_speech.len() == senses_of(parts).len()
            &&& record.semantic_fields.len() == senses_of(parts).len()
            &&& forall|k: int|
                #![trigger senses_of(parts)[k]]
                0 <= k < senses_of(parts).len() ==> {
                    &&& record.meanings[k] == joined(glosses_of(senses_of(parts)[k]))
                    &&& record.parts_of_speech[k] == joined(poses_of(senses_of(parts)[k]))
                    &&& record.semantic_fields[k] == joined(fields_of(senses_of(parts)[k]))
                }
        },
{
    law_entry_gives_its_record(parts, after);
}

/// An entry with exactly one sense gives exactly one meaning, one
/// part-of-speech text and one semantic-field text.
pub proof fn law_single_sense(parts: Seq<EntryPart>, after: Seq<EventView>)
    requires
        entry_ok(parts),
        senses_of(parts).len() == 1,
    ensures
        pulled(ContextView::initial(), entry_events(parts) + after) matches Pulled::Record {
            record,
            ..
        } ==> record.meanings.len() == 1 && record.parts_of_speech.len() == 1
            && record.semantic_fields.len() == 1,
{
    law_one_text_per_sense(parts, after);
}

/// An entry without a sense still gives its record, with no meaning, no
/// part-of-speech text and no semantic-field text.
pub proof fn law_entry_without_sense(parts: Seq<EntryPart>, after: Seq<EventView>)
    requires
        entry_ok(parts),
        senses_of(parts).len() == 0,
        entry_id(parts) is Some,
    ensures
        pulled(ContextView::initial(), entry_events(parts) + after) matches Pulled::Record {
            record,
            ..
        } && record.meanings.len() == 0 && record.parts_of_speech.len() == 0
            && record.semantic_fields.len() == 0,
{
    law_entry_gives_its_record(parts, after);
}

/// The record of an entry holds the entry's readings in document order, and
/// at each index of the romanized readings the romanization of the reading
/// at that index.
pub proof fn law_readings_romanized_in_step(parts: Seq<EntryPart>, after: Seq<EventView>)
    requires
        entry_ok(parts),
    ensures
        pulled(ContextView::initial(), entry_events(parts) + after) matches Pulled::Record {
            record,
            ..
        } ==> {
            &&& record.readings == readings_of(parts)
            &&& record.readings_romanized.len() == record.readings.len()
            &&& forall|i: int|
                0 <= i < record.readings.len() ==> #[trigger] record.readings_romanized[i]
                    == romanized(record.readings[i])
        },
{
    law_entry_gives_its_record(parts, after);
}

/// An entry gives a record exactly when it has one sequence number and that
/// is a number; any other entry fails the run with `MalformedId`.
pub proof fn law_entry_needs_its_number(parts: Seq<EntryPart>, after: Seq<EventView>)
    requires
        entry_ok(parts),
    ensures
        ids_of(parts).len() == 1 && parsed_id(ids_of(parts)[0]) is Some ==> pulled(
            ContextView::initial(),
            entry_events(parts) + after,
        ) is Record,
        !(ids_of(parts).len() == 1 && parsed_id(ids_of(parts)[0]) is Some) ==> pulled(
            ContextView::initial(),
            entry_events(parts) + after,
        ) == (Pulled::Failed { error: IndexError::MalformedId }),
{
    law_entry_gives_its_record(parts, after);
}

/// Events that are passed over between entries change nothing of what is
/// assembled.
pub proof fn lemma_assembled_skips(event: EventView, after: Seq<EventView>)
    requires
        passed_over(event),
    ensures
        assembled(ContextView::initial(), seq![event] + after) == assembled(
            ContextView::initial(),
            after,
        ),
{
    let context = ContextView::initial();
    let events = seq![event] + after;
    lemma_pulled_skips(context, event, after);
    lemma_pulled_bounds(context, after);
    match pulled(context, after) {
        Pulled::Record { next, read, record } => {
            assert(events.skip(read as int + 1) =~= after.skip(read as int));
        },
        _ => {},
    }
}

/// A run over a whole document gives the records that the document
/// describes, one for each entry, in document order. If an entry has no
/// usable sequence number the run fails and gives no record at all.
pub proof fn law_document_gives_its_records(parts: Seq<DocumentPart>, after: Seq<EventView>)
    requires
        document_ok(parts),
    ensures
        assembled(ContextView::initial(), written_events(parts) + after) == document_records(
            parts,
        ),
    decreases parts.len(),
{
    if parts.len() > 0 {
        let events = written_events(parts) + after;
        let rest = parts.skip(1);
        let rest_events = written_events(rest) + after;
        assert(document_ok(rest));
        assert(events =~= document_part_events(parts[0]) + rest_events);
        law_document_gives_its_records(rest, after);
        match parts[0] {
            DocumentPart::Skipped(event) => {
                lemma_assembled_skips(event, rest_events);
            },
            DocumentPart::Entry(entry) => {
                law_entry_gives_its_record(entry, rest_events);
                assert(events.skip(entry_events(entry).len() as int) =~= rest_events);
            },
        }
    }
}

/// A document whose entries all have their sequence number describes one
/// record for each entry, in document order.
pub proof fn lemma_one_record_per_entry(parts: Seq<DocumentPart>)
    requires
        forall|k: int|
            0 <= k < entries_of(parts).len() ==> entry_id(#[trigger] entries_of(parts)[k])
                is Some,
    ensures
        document_records(parts) matches Ok(records) && records.len() == entries_of(parts).len()
            && forall|k: int|
            0 <= k < records.len() ==> entry_record(entries_of(parts)[k]) == Ok::<
                RecordView,
                IndexError,
            >(#[trigger] records[k]),
    decreases parts.len(),
{
    if parts.len() > 0 {
        let rest = parts.skip(1);
        match parts[0] {
            DocumentPart::Entry(entry) => {
                assert forall|k: int| 0 <= k < entries_of(rest).len() implies entry_id(
                    #[trigger] entries_of(rest)[k],
                ) is Some by {
                    assert(entries_of(rest)[k] == entries_of(parts)[k + 1]);
                }
                assert(entries_of(parts)[0] == entry);
                lemma_one_record_per_entry(rest);
            },
            DocumentPart::Skipped(_) => {
                lemma_one_record_per_entry(rest);
            },
        }
    }
}

/// A document with an entry that has no usable sequence number describes no
/// records at all.
pub proof fn lemma_no_records_without_number(parts: Seq<DocumentPart>, at: int)
    requires
        0 <= at < parts.len(),
        parts[at] matches DocumentPart::Entry(entry) && entry_id(entry) is None,
    ensures
        document_records(parts) == Err::<Seq<RecordView>, IndexError>(IndexError::MalformedId),
    decreases parts.len(),
{
    if at > 0 {
        lemma_no_records_without_number(parts.skip(1), at - 1);
    }
}

/// A run over a document whose entries all have their sequence number gives
/// one record for each entry, in document order: the record that the entry
/// describes, whether or not the entry has senses or readings.
pub proof fn law_one_record_per_entry(parts: Seq<DocumentPart>, after: Seq<EventView>)
    requires
        document_ok(parts),
        forall|k: int|
            0 <= k < entries_of(parts).len() ==> entry_id(#[trigger] entries_of(parts)[k])
                is Some,
    ensures
        assembled(ContextView::initial(), written_events(parts) + after) matches Ok(records)
            && records.len() == entries_of(parts).len() && forall|k: int|
            0 <= k < records.len() ==> entry_record(entries_of(parts)[k]) == Ok::<
                RecordView,
                IndexError,
            >(#[trigger] records[k]),
{
    law_document_gives_its_records(parts, after);
    lemma_one_record_per_entry(parts);
}

/// A run over a document with an entry that lacks a sequence number, has
/// more than one, or has one that is not a number fails with `MalformedId`
/// and gives no record, so that nothing of the document is stored.
pub proof fn law_run_fails_without_number(
    parts: Seq<DocumentPart>,
    at: int,
    after: Seq<EventView>,
)
    requires
        document_ok(parts),
        0 <= at < parts.len(),
        parts[at] matches DocumentPart::Entry(entry) && entry_id(entry) is None,
    ensures
        assembled(ContextView::initial(), written_events(parts) + after) == Err::<
            Seq<RecordView>,
            IndexError,
        >(IndexError::MalformedId),
{
    law_document_gives_its_records(parts, after);
    lemma_no_records_without_number(parts, at);
}

/// Whatever the events are, the machine keeps its state well-formed, and so
/// is every record that it gives: readings and romanized readings in step,
/// and as many part-of-speech and semantic-field texts as meanings.
pub proof fn law_records_are_well_formed(context: ContextView, events: Seq<EventView>)
    requires
        context.wf(),
    ensures
        pulled(context, events) matches Pulled::Record { next, record, .. } ==> next.wf()
            && record.wf(),
        pulled(context, events) matches Pulled::Finished { next, .. } ==> next.wf(),
    decreases events.len(),
{
    if events.len() > 0 {
        match events[0] {
            EventView::StartElement(name) => {
                lemma_accumulated_bounds(events.skip(1));
                match context.on_start(tag_of(name), events.skip(1)) {
                    Ok((next, read)) => {
                        law_records_are_well_formed(next, events.skip(1 + read as int));
                    },
                    Err(error) => {},
                }
            },
            EventView::EndElement(name) => match context.on_end(tag_of(name)) {
                Ok((next, None)) => {
                    law_records_are_well_formed(next, events.skip(1));
                },
                _ => {},
            },
            EventView::EndDocument => {},
            EventView::Invalid => {},
            _ => {
                law_records_are_well_formed(context, events.skip(1));
            },
        }
    }
}

/// Two runs over the same events end the same way: with the same error, or
/// with records of the same contents in the same order.
pub proof fn law_runs_agree(
    events: Seq<EventView>,
    first: Result<Vec<Record>, IndexError>,
    second: Result<Vec<Record>, IndexError>,
)
    requires
        is_run_of(events, first),
        is_run_of(events, second),
    ensures
        match (first, second) {
            (Ok(one), Ok(other)) => record_views(one@) == record_views(other@),
            (Err(one), Err(other)) => one == other,
            _ => false,
        },
{
}

} // verus!
