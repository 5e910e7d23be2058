use jmdict_indexer::assembler::parse_document;
use jmdict_indexer::error::IndexError;
use jmdict_indexer::record::Record;
use jmdict_indexer::schema::{
    create_schema, reports_progress, tokenizer_name, values_of, FieldKind, FieldRole,
    FieldValues, PROGRESS_INTERVAL,
};

#[test]
fn schema_declares_the_seven_fields_in_order() {
    let schema = create_schema();
    let fields: Vec<(FieldRole, &str, FieldKind)> = schema
        .fields
        .iter()
        .map(|field| (field.role, field.name.as_str(), field.kind))
        .collect();
    assert_eq!(
        fields,
        vec![
            (FieldRole::Id, "id", FieldKind::Integer),
            (FieldRole::Forms, "word", FieldKind::JapaneseText),
            (FieldRole::Readings, "reading", FieldKind::JapaneseText),
            (FieldRole::ReadingsRomanized, "reading_romaji", FieldKind::Text),
            (FieldRole::Meanings, "meaning", FieldKind::Text),
            (FieldRole::PartsOfSpeech, "pos", FieldKind::Text),
            (FieldRole::SemanticFields, "field", FieldKind::Text),
        ]
    );
}

#[test]
fn tokenizer_is_registered_as_ja_jp() {
    assert_eq!(tokenizer_name(), "ja_JP");
}

#[test]
fn progress_is_reported_every_thousand_entries() {
    assert_eq!(PROGRESS_INTERVAL, 1000);
    assert!(!reports_progress(0));
    assert!(!reports_progress(1));
    assert!(!reports_progress(999));
    assert!(reports_progress(1000));
    assert!(!reports_progress(1001));
    assert!(reports_progress(2000));
    assert!(reports_progress(250_000));
    assert!(!reports_progress(u64::MAX));
}

#[test]
fn parse_document_reads_a_whole_dictionary() {
    let document = "<?xml version=\"1.0\" encoding=\"UTF-8\"?>\n\
        <!-- a small dictionary -->\n\
        <JMdict>\n\
        <entry>\n<ent_seq>1000000</ent_seq>\n<r_ele>\n<reb>ヽ</reb>\n</r_ele>\n\
        <sense>\n<pos>unclassified</pos>\n<gloss>repetition mark in katakana</gloss>\n\
        </sense>\n</entry>\n\
        <entry>\n<ent_seq>1000040</ent_seq>\n<k_ele>\n<keb>〃</keb>\n</k_ele>\n\
        <r_ele>\n<reb>おなじ</reb>\n</r_ele>\n<r_ele>\n<reb>おなじく</reb>\n</r_ele>\n\
        <sense>\n<pos>noun (common) (futsuumeishi)</pos>\n<gloss>ditto mark</gloss>\n\
        </sense>\n</entry>\n\
        </JMdict>\n";
    let records = parse_document(document.as_bytes().to_vec()).unwrap();
    assert_eq!(records.len(), 2);
    assert_eq!(records[0].id, 1000000);
    assert!(records[0].forms.is_empty());
    assert_eq!(records[0].readings, vec!["ヽ"]);
    assert_eq!(records[0].meanings, vec!["repetition mark in katakana"]);
    assert_eq!(records[0].parts_of_speech, vec!["unclassified"]);
    assert_eq!(records[0].semantic_fields, vec![""]);
    assert_eq!(records[1].id, 1000040);
    assert_eq!(records[1].forms, vec!["〃"]);
    assert_eq!(records[1].readings, vec!["おなじ", "おなじく"]);
    assert_eq!(records[1].readings_romanized, vec!["onaji", "onajiku"]);
    assert_eq!(records[1].meanings.len(), 1);
    assert_eq!(records[1].parts_of_speech.len(), 1);
    assert_eq!(records[1].semantic_fields.len(), 1);
}

#[test]
fn parse_document_gives_nothing_when_an_entry_fails() {
    let document = "<JMdict><entry><ent_seq>1</ent_seq></entry><entry></entry></JMdict>";
    assert_eq!(parse_document(document.as_bytes().to_vec()), Err(IndexError::MalformedId));
}

#[test]
fn parse_document_of_no_entries_is_empty() {
    assert_eq!(parse_document(b"<JMdict></JMdict>".to_vec()), Ok(Vec::new()));
}

#[test]
fn parse_document_refuses_what_is_not_xml() {
    assert_eq!(parse_document(b"not xml".to_vec()), Err(IndexError::MalformedXml));
    assert_eq!(parse_document(Vec::new()), Err(IndexError::MalformedXml));
}

#[test]
fn entry_with_one_sense_has_one_value_in_every_sense_field() {
    let document = "<entry><ent_seq>3</ent_seq><sense><gloss>only</gloss></sense></entry>";
    let records = parse_document(document.as_bytes().to_vec()).unwrap();
    assert_eq!(records[0].meanings.len(), 1);
    assert_eq!(records[0].parts_of_speech.len(), 1);
    assert_eq!(records[0].semantic_fields.len(), 1);
}

#[test]
fn every_field_of_the_index_holds_its_part_of_the_record() {
    let text = |value: &str| vec![value.to_string()];
    let record = Record {
        id: 1,
        forms: text("日本"),
        readings: text("にほん"),
        readings_romanized: text("nihon"),
        meanings: text("Japan; Japanese"),
        parts_of_speech: text("noun; proper noun"),
        semantic_fields: text("place; country"),
    };
    assert_eq!(values_of(&record, FieldRole::Id), FieldValues::Integer(1));
    assert_eq!(values_of(&record, FieldRole::Forms), FieldValues::Texts(&text("日本")));
    assert_eq!(values_of(&record, FieldRole::Readings), FieldValues::Texts(&text("にほん")));
    assert_eq!(
        values_of(&record, FieldRole::ReadingsRomanized),
        FieldValues::Texts(&text("nihon"))
    );
    assert_eq!(
        values_of(&record, FieldRole::Meanings),
        FieldValues::Texts(&text("Japan; Japanese"))
    );
    assert_eq!(
        values_of(&record, FieldRole::PartsOfSpeech),
        FieldValues::Texts(&text("noun; proper noun"))
    );
    assert_eq!(
        values_of(&record, FieldRole::SemanticFields),
        FieldValues::Texts(&text("place; country"))
    );
}
