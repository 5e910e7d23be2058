//! The entry assembler as a state machine over tokenizer events.
//!
//! Three phases: outside any entry, inside an entry, inside a sense of an
//! entry. An opening tag that the phase expects changes the phase or has a
//! leaf's text read from the events that follow; a closing tag flushes the
//! sense or hands out the record. Whatever the phase does not expect is
//! passed over.

use vstd::prelude::*;
use crate::accumulate::{accumulated, lemma_accumulated_bounds};
use crate::error::IndexError;
use crate::event::{tag_of, EventView, Tag};
use crate::ident::parsed_id;
use crate::record::{DraftView, RecordView, SenseView};

verus! {

/// Where in the document's hierarchy the assembler stands.
#[derive(Clone, Copy, Debug, PartialEq, Eq, Structural)]
pub enum Phase {
    /// Between entries.
    Outside,
    /// Inside an entry, outside any sense.
    InEntry,
    /// Inside a sense.
    InSense,
}

/// The assembler's state as specifications see it.
#[verifier::ext_equal]
pub struct ContextView {
    pub phase: Phase,
    pub draft: DraftView,
    pub sense: SenseView,
}

impl ContextView {
    /// The state before the first event, and between entries.
    pub open spec fn initial() -> ContextView {
        ContextView { phase: Phase::Outside, draft: DraftView::empty(), sense: SenseView::empty() }
    }

    /// The draft is well-formed, nothing is gathered outside an entry, and
    /// no sense values are held outside a sense.
    pub open spec fn wf(self) -> bool {
        &&& self.draft.wf()
        &&& self.phase is Outside ==> self.draft == DraftView::empty()
        &&& !(self.phase is InSense) ==> self.sense == SenseView::empty()
    }

    /// Whether an element with this tag is a leaf that the phase reads.
    pub open spec fn reads_leaf(self, tag: Tag) -> bool {
        ||| self.phase is InEntry && tag.is_entry_leaf()
        ||| self.phase is InSense && tag.is_sense_leaf()
    }

    /// An entry opens: a fresh draft.
    pub open spec fn open_entry(self) -> ContextView {
        ContextView { phase: Phase::InEntry, draft: DraftView::empty(), sense: SenseView::empty() }
    }

    /// A sense opens: a fresh buffer.
    pub open spec fn open_sense(self) -> ContextView {
        ContextView { phase: Phase::InSense, draft: self.draft, sense: SenseView::empty() }
    }

    /// A sense closes: its values are joined and appended to the draft, and
    /// the buffer is dropped.
    pub open spec fn close_sense(self) -> ContextView {
        ContextView {
            phase: Phase::InEntry,
            draft: self.draft.with_sense(self.sense),
            sense: SenseView::empty(),
        }
    }

    /// The state after a leaf's text was read. The sequence number must be a
    /// number and may be given once.
    pub open spec fn with_leaf(self, tag: Tag, text: Seq<char>) -> Result<ContextView, IndexError> {
        match tag {
            Tag::EntSeq => match (self.draft.id, parsed_id(text)) {
                (None, Some(id)) => Ok(
                    ContextView { draft: DraftView { id: Some(id), ..self.draft }, ..self },
                ),
                _ => Err(IndexError::MalformedId),
            },
            Tag::Keb => Ok(ContextView { draft: self.draft.with_form(text), ..self }),
            Tag::Reb => Ok(ContextView { draft: self.draft.with_reading(text), ..self }),
            Tag::Gloss => Ok(
                ContextView {
                    sense: SenseView { glosses: self.sense.glosses.push(text), ..self.sense },
                    ..self
                },
            ),
            Tag::Pos => Ok(
                ContextView {
                    sense: SenseView { poses: self.sense.poses.push(text), ..self.sense },
                    ..self
                },
            ),
            Tag::Field => Ok(
                ContextView {
                    sense: SenseView { fields: self.sense.fields.push(text), ..self.sense },
                    ..self
                },
            ),
            _ => Ok(self),
        }
    }

    /// The state after an opening tag, with the number of the events after
    /// the tag that were read for it; `rest` is what follows the tag.
    pub open spec fn on_start(self, tag: Tag, rest: Seq<EventView>) -> Result<
        (ContextView, nat),
        IndexError,
    > {
        if self.phase is Outside && tag is Entry {
            Ok((self.open_entry(), 0nat))
        } else if self.phase is InEntry && tag is Sense {
            Ok((self.open_sense(), 0nat))
        } else if self.reads_leaf(tag) {
            match accumulated(rest) {
                Some((text, read)) => match self.with_leaf(tag, text) {
                    Ok(next) => Ok((next, read)),
                    Err(error) => Err(error),
                },
                None => Err(IndexError::MalformedXml),
            }
        } else {
            Ok((self, 0nat))
        }
    }

    /// The state after a closing tag, with the record that it completes if it
    /// closes an entry. An entry without a sequence number is refused.
    pub open spec fn on_end(self, tag: Tag) -> Result<
        (ContextView, Option<RecordView>),
        IndexError,
    > {
        if self.phase is InSense && tag is Sense {
            Ok((self.close_sense(), None))
        } else if self.phase is InEntry && tag is Entry {
            match self.draft.id {
                Some(id) => Ok((ContextView::initial(), Some(self.draft.finished(id)))),
                None => Err(IndexError::MalformedId),
            }
        } else {
            Ok((self, None))
        }
    }
}

/// How a pull for the next record ends.
#[verifier::ext_equal]
pub enum Pulled {
    /// An entry closed: its record, the state after it, and the number of
    /// events read.
    Record { next: ContextView, read: nat, record: RecordView },
    /// The document ended first. The final event is not read: the stream
    /// stays on it.
    Finished { next: ContextView, read: nat },
    /// The run is aborted.
    Failed { error: IndexError },
}

impl Pulled {
    /// The same end, after `before` more events were read first.
    pub open spec fn after(self, before: nat) -> Pulled {
        match self {
            Pulled::Record { next, read, record } => Pulled::Record {
                next,
                read: read + before,
                record,
            },
            Pulled::Finished { next, read } => Pulled::Finished { next, read: read + before },
            Pulled::Failed { error } => Pulled::Failed { error },
        }
    }
}

/// Runs the machine from `context` over `events` until an entry closes, the
/// document ends or the run fails.
pub open spec fn pulled(context: ContextView, events: Seq<EventView>) -> Pulled
    decreases events.len(),
    via pulled_terminates
{
    if events.len() == 0 {
        Pulled::Finished { next: context, read: 0 }
    } else {
        match events[0] {
            EventView::EndDocument => Pulled::Finished { next: context, read: 0 },
            EventView::Invalid => Pulled::Failed { error: IndexError::MalformedXml },
            EventView::StartElement(name) => match context.on_start(tag_of(name), events.skip(1)) {
                Ok((next, read)) => pulled(next, events.skip(1 + read as int)).after(1 + read),
                Err(error) => Pulled::Failed { error },
            },
            EventView::EndElement(name) => match context.on_end(tag_of(name)) {
                Ok((next, Some(record))) => Pulled::Record { next, read: 1, record },
                Ok((next, None)) => pulled(next, events.skip(1)).after(1),
                Err(error) => Pulled::Failed { error },
            },
            _ => pulled(context, events.skip(1)).after(1),
        }
    }
}

/// Each step of a pull leaves fewer events.
#[via_fn]
proof fn pulled_terminates(context: ContextView, events: Seq<EventView>) {
    if events.len() > 0 {
        lemma_accumulated_bounds(events.skip(1));
    }
}

/// What follows an opening tag holds all that is read for it.
pub proof fn lemma_on_start_bounds(context: ContextView, tag: Tag, rest: Seq<EventView>)
    ensures
        context.on_start(tag, rest) matches Ok((_, read)) ==> read <= rest.len(),
{
    lemma_accumulated_bounds(rest);
}

/// A pull reads no more events than there are, and at least one where it
/// gives a record.
pub proof fn lemma_pulled_bounds(context: ContextView, events: Seq<EventView>)
    ensures
        pulled(context, events) matches Pulled::Record { read, .. } ==> 1 <= read <= events.len(),
        pulled(context, events) matches Pulled::Finished { read, .. } ==> read <= events.len(),
    decreases events.len(),
{
    if events.len() > 0 {
        match events[0] {
            EventView::StartElement(name) => {
                lemma_on_start_bounds(context, tag_of(name), events.skip(1));
                match context.on_start(tag_of(name), events.skip(1)) {
                    Ok((next, read)) => {
                        lemma_pulled_bounds(next, events.skip(1 + read as int));
                    },
                    Err(error) => {},
                }
            },
            EventView::EndElement(name) => match context.on_end(tag_of(name)) {
                Ok((next, None)) => {
                    lemma_pulled_bounds(next, events.skip(1));
                },
                _ => {},
            },
            EventView::EndDocument => {},
            EventView::Invalid => {},
            _ => {
                lemma_pulled_bounds(context, events.skip(1));
            },
        }
    }
}

/// The records of all the entries that close before the document ends, in
/// document order; the error if the run is aborted on the way.
pub open spec fn assembled(context: ContextView, events: Seq<EventView>) -> Result<
    Seq<RecordView>,
    IndexError,
>
    decreases events.len(),
    via assembled_terminates
{
    match pulled(context, events) {
        Pulled::Record { next, read, record } => match assembled(next, events.skip(read as int)) {
            Ok(rest) => Ok(seq![record] + rest),
            Err(error) => Err(error),
        },
        Pulled::Finished { .. } => Ok(Seq::empty()),
        Pulled::Failed { error } => Err(error),
    }
}

/// Each record of a run leaves fewer events.
#[via_fn]
proof fn assembled_terminates(context: ContextView, events: Seq<EventView>) {
    lemma_pulled_bounds(context, events);
}

} // verus!
