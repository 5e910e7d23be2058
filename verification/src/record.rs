//! The flat record that one dictionary entry becomes, and the buffers it is
//! gathered in.

use vstd::prelude::*;
use crate::romaji::romanized;
use crate::text::{joined, texts};

verus! {

/// One dictionary entry, flattened for a search index.
#[derive(Clone, Debug, PartialEq, Eq)]
pub struct Record {
    /// The entry's sequence number.
    pub id: i64,
    /// The written forms, in document order.
    pub forms: Vec<String>,
    /// The phonetic readings, in document order.
    pub readings: Vec<String>,
    /// The latin rendering of each reading, at the same index.
    pub readings_romanized: Vec<String>,
    /// The glosses of each sense, joined.
    pub meanings: Vec<String>,
    /// The parts of speech of each sense, joined.
    pub parts_of_speech: Vec<String>,
    /// The semantic fields of each sense, joined.
    pub semantic_fields: Vec<String>,
}

/// A record as specifications see it.
#[verifier::ext_equal]
pub struct RecordView {
    pub id: i64,
    pub forms: Seq<Seq<char>>,
    pub readings: Seq<Seq<char>>,
    pub readings_romanized: Seq<Seq<char>>,
    pub meanings: Seq<Seq<char>>,
    pub parts_of_speech: Seq<Seq<char>>,
    pub semantic_fields: Seq<Seq<char>>,
}

/// Each reading has its latin rendering at the same index.
pub open spec fn romanized_in_step(readings: Seq<Seq<char>>, renderings: Seq<Seq<char>>) -> bool {
    &&& renderings.len() == readings.len()
    &&& forall|i: int|
        0 <= i < readings.len() ==> #[trigger] renderings[i] == romanized(readings[i])
}

impl RecordView {
    /// Readings and their renderings correspond, and every sense has given
    /// one meaning, one part-of-speech text and one semantic-field text.
    pub open spec fn wf(self) -> bool {
        &&& romanized_in_step(self.readings, self.readings_romanized)
        &&& self.parts_of_speech.len() == self.meanings.len()
        &&& self.semantic_fields.len() == self.meanings.len()
    }
}

impl View for Record {
    type V = RecordView;

    open spec fn view(&self) -> RecordView {
        RecordView {
            id: self.id,
            forms: texts(self.forms@),
            readings: texts(self.readings@),
            readings_romanized: texts(self.readings_romanized@),
            meanings: texts(self.meanings@),
            parts_of_speech: texts(self.parts_of_speech@),
            semantic_fields: texts(self.semantic_fields@),
        }
    }
}

/// What has been gathered of the sense that is open.
#[verifier::ext_equal]
pub struct SenseView {
    pub glosses: Seq<Seq<char>>,
    pub poses: Seq<Seq<char>>,
    pub fields: Seq<Seq<char>>,
}

impl SenseView {
    /// A buffer with nothing in it.
    pub open spec fn empty() -> SenseView {
        SenseView { glosses: Seq::empty(), poses: Seq::empty(), fields: Seq::empty() }
    }
}

/// What has been gathered of the entry that is open.
#[verifier::ext_equal]
pub struct DraftView {
    pub id: Option<i64>,
    pub forms: Seq<Seq<char>>,
    pub readings: Seq<Seq<char>>,
    pub readings_romanized: Seq<Seq<char>>,
    pub meanings: Seq<Seq<char>>,
    pub parts_of_speech: Seq<Seq<char>>,
    pub semantic_fields: Seq<Seq<char>>,
}

impl DraftView {
    /// A draft with nothing in it.
    pub open spec fn empty() -> DraftView {
        DraftView {
            id: None,
            forms: Seq::empty(),
            readings: Seq::empty(),
            readings_romanized: Seq::empty(),
            meanings: Seq::empty(),
            parts_of_speech: Seq::empty(),
            semantic_fields: Seq::empty(),
        }
    }

    /// What holds of a record holds of it while it is gathered.
    pub open spec fn wf(self) -> bool {
        &&& romanized_in_step(self.readings, self.readings_romanized)
        &&& self.parts_of_speech.len() == self.meanings.len()
        &&& self.semantic_fields.len() == self.meanings.len()
    }

    /// The draft with one more written form.
    pub open spec fn with_form(self, form: Seq<char>) -> DraftView {
        DraftView { forms: self.forms.push(form), ..self }
    }

    /// The draft with one more reading and its latin rendering.
    pub open spec fn with_reading(self, reading: Seq<char>) -> DraftView {
        DraftView {
            readings: self.readings.push(reading),
            readings_romanized: self.readings_romanized.push(romanized(reading)),
            ..self
        }
    }

    /// The draft with the values of a closed sense, each list joined into one
    /// text.
    pub open spec fn with_sense(self, sense: SenseView) -> DraftView {
        DraftView {
            meanings: self.meanings.push(joined(sense.glosses)),
            parts_of_speech: self.parts_of_speech.push(joined(sense.poses)),
            semantic_fields: self.semantic_fields.push(joined(sense.fields)),
            ..self
        }
    }

    /// The record of a draft whose sequence number is `id`.
    pub open spec fn finished(self, id: i64) -> RecordView {
        RecordView {
            id,
            forms: self.forms,
            readings: self.readings,
            readings_romanized: self.readings_romanized,
            meanings: self.meanings,
            parts_of_speech: self.parts_of_speech,
            semantic_fields: self.semantic_fields,
        }
    }
}

/// The values of one sense, gathered while the sense is open.
#[derive(Clone, Debug, PartialEq, Eq)]
pub struct SenseBuffer {
    pub glosses: Vec<String>,
    pub poses: Vec<String>,
    pub fields: Vec<String>,
}

impl View for SenseBuffer {
    type V = SenseView;

    open spec fn view(&self) -> SenseView {
        SenseView {
            glosses: texts(self.glosses@),
            poses: texts(self.poses@),
            fields: texts(self.fields@),
        }
    }
}

impl SenseBuffer {
    /// An empty buffer.
    pub fn new() -> (buffer: SenseBuffer)
        ensures
            buffer@ == SenseView::empty(),
    {
        SenseBuffer { glosses: Vec::new(), poses: Vec::new(), fields: Vec::new() }
    }
}

/// The record of one entry while the entry is open: the sequence number may
/// not have been read yet.
#[derive(Clone, Debug, PartialEq, Eq)]
pub struct Draft {
    pub id: Option<i64>,
    pub forms: Vec<String>,
    pub readings: Vec<String>,
    pub readings_romanized: Vec<String>,
    pub meanings: Vec<String>,
    pub parts_of_speech: Vec<String>,
    pub semantic_fields: Vec<String>,
}

impl View for Draft {
    type V = DraftView;

    open spec fn view(&self) -> DraftView {
        DraftView {
            id: self.id,
            forms: texts(self.forms@),
            readings: texts(self.readings@),
            readings_romanized: texts(self.readings_romanized@),
            meanings: texts(self.meanings@),
            parts_of_speech: texts(self.parts_of_speech@),
            semantic_fields: texts(self.semantic_fields@),
        }
    }
}

impl Draft {
    /// A draft with nothing in it.
    pub fn new() -> (draft: Draft)
        ensures
            draft@ == DraftView::empty(),
    {
        Draft {
            id: None,
            forms: Vec::new(),
            readings: Vec::new(),
            readings_romanized: Vec::new(),
            meanings: Vec::new(),
            parts_of_speech: Vec::new(),
            semantic_fields: Vec::new(),
        }
    }
}

} // verus!
