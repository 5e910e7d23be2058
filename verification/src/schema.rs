//! The layout of the search index that the records are stored in.

use vstd::prelude::*;
use crate::record::Record;

verus! {

/// Which part of a record a field of the index holds.
#[derive(Clone, Copy, Debug, PartialEq, Eq, Structural)]
pub enum FieldRole {
    Id,
    Forms,
    Readings,
    ReadingsRomanized,
    Meanings,
    PartsOfSpeech,
    SemanticFields,
}

/// How a field of the index is typed and tokenized. Every field is stored.
#[derive(Clone, Copy, Debug, PartialEq, Eq, Structural)]
pub enum FieldKind {
    /// A signed integer, indexed.
    Integer,
    /// Text in the dictionary's language, split into words by the
    /// morphological tokenizer registered under `ja_JP`.
    JapaneseText,
    /// Text split by the index's default tokenizer.
    Text,
}

/// One field of the index.
#[derive(Clone, Debug, PartialEq, Eq)]
pub struct FieldSpec {
    pub role: FieldRole,
    pub name: String,
    pub kind: FieldKind,
}

/// A field as specifications see it.
pub struct FieldSpecView {
    pub role: FieldRole,
    pub name: Seq<char>,
    pub kind: FieldKind,
}

impl View for FieldSpec {
    type V = FieldSpecView;

    open spec fn view(&self) -> FieldSpecView {
        FieldSpecView { role: self.role, name: self.name@, kind: self.kind }
    }
}

/// The fields of the index, in the order in which they are declared.
#[derive(Clone, Debug, PartialEq, Eq)]
pub struct Schema {
    pub fields: Vec<FieldSpec>,
}

impl View for Schema {
    type V = Seq<FieldSpecView>;

    open spec fn view(&self) -> Seq<FieldSpecView> {
        self.fields@.map_values(|field: FieldSpec| field@)
    }
}

/// The name under which the morphological tokenizer is registered.
pub open spec fn japanese_tokenizer() -> Seq<char> {
    "ja_JP"@
}

/// The seven fields of the index.
pub open spec fn index_layout() -> Seq<FieldSpecView> {
    seq![
        FieldSpecView { role: FieldRole::Id, name: "id"@, kind: FieldKind::Integer },
        FieldSpecView { role: FieldRole::Forms, name: "word"@, kind: FieldKind::JapaneseText },
        FieldSpecView {
            role: FieldRole::Readings,
            name: "reading"@,
            kind: FieldKind::JapaneseText,
        },
        FieldSpecView {
            role: FieldRole::ReadingsRomanized,
            name: "reading_romaji"@,
            kind: FieldKind::Text,
        },
        FieldSpecView { role: FieldRole::Meanings, name: "meaning"@, kind: FieldKind::Text },
        FieldSpecView { role: FieldRole::PartsOfSpeech, name: "pos"@, kind: FieldKind::Text },
        FieldSpecView { role: FieldRole::SemanticFields, name: "field"@, kind: FieldKind::Text },
    ]
}

/// The name under which the morphological tokenizer is registered.
pub fn tokenizer_name() -> (name: &'static str)
    ensures
        name@ == japanese_tokenizer(),
{
    "ja_JP"
}

/// One field of the layout.
fn field(role: FieldRole, name: &str, kind: FieldKind) -> (spec: FieldSpec)
    ensures
        spec@ == (FieldSpecView { role, name: name@, kind }),
{
    FieldSpec { role, name: name.to_owned(), kind }
}

/// Lays out the index.
pub fn create_schema() -> (schema: Schema)
    ensures
        schema@ == index_layout(),
{
    let mut fields: Vec<FieldSpec> = Vec::new();
    fields.push(field(FieldRole::Id, "id", FieldKind::Integer));
    fields.push(field(FieldRole::Forms, "word", FieldKind::JapaneseText));
    fields.push(field(FieldRole::Readings, "reading", FieldKind::JapaneseText));
    fields.push(field(FieldRole::ReadingsRomanized, "reading_romaji", FieldKind::Text));
    fields.push(field(FieldRole::Meanings, "meaning", FieldKind::Text));
    fields.push(field(FieldRole::PartsOfSpeech, "pos", FieldKind::Text));
    fields.push(field(FieldRole::SemanticFields, "field", FieldKind::Text));
    let schema = Schema { fields };
    schema
}

/// What a record stores under one field of the index.
#[derive(Clone, Copy, Debug, PartialEq, Eq)]
pub enum FieldValues<'a> {
    /// The one value of the integer field.
    Integer(i64),
    /// The values of a text field, in order.
    Texts(&'a Vec<String>),
}

/// What `record` stores under the field with this role.
pub open spec fn stored_under(record: Record, role: FieldRole) -> FieldValues<'static> {
    match role {
        FieldRole::Id => FieldValues::Integer(record.id),
        FieldRole::Forms => FieldValues::Texts(&record.forms),
        FieldRole::Readings => FieldValues::Texts(&record.readings),
        FieldRole::ReadingsRomanized => FieldValues::Texts(&record.readings_romanized),
        FieldRole::Meanings => FieldValues::Texts(&record.meanings),
        FieldRole::PartsOfSpeech => FieldValues::Texts(&record.parts_of_speech),
        FieldRole::SemanticFields => FieldValues::Texts(&record.semantic_fields),
    }
}

/// Picks what a record stores under the field with this role.
pub fn values_of<'a>(record: &'a Record, role: FieldRole) -> (values: FieldValues<'a>)
    ensures
        values == stored_under(*record, role),
{
    match role {
        FieldRole::Id => FieldValues::Integer(record.id),
        FieldRole::Forms => FieldValues::Texts(&record.forms),
        FieldRole::Readings => FieldValues::Texts(&record.readings),
        FieldRole::ReadingsRomanized => FieldValues::Texts(&record.readings_romanized),
        FieldRole::Meanings => FieldValues::Texts(&record.meanings),
        FieldRole::PartsOfSpeech => FieldValues::Texts(&record.parts_of_speech),
        FieldRole::SemanticFields => FieldValues::Texts(&record.semantic_fields),
    }
}

/// How many entries are completed between two progress reports.
pub const PROGRESS_INTERVAL: u64 = 1000;

/// Whether progress is reported after the `count`-th entry.
pub fn reports_progress(count: u64) -> (due: bool)
    ensures
        due == (count > 0 && count % 1000 == 0),
{
    count > 0 && count % PROGRESS_INTERVAL == 0
}

} // verus!
