use jmdict_indexer::accumulate::extract_next_string;
use jmdict_indexer::assembler::{
    handle_end_element, handle_start_element, next_record, parse_xml_and_index, ParseContext,
};
use jmdict_indexer::error::IndexError;
use jmdict_indexer::event::XmlEvent;
use jmdict_indexer::machine::Phase;
use jmdict_indexer::reader::XmlReader;
use jmdict_indexer::record::Record;

const ENTRY: &str = r"
            <entry>
                <ent_seq>1</ent_seq>
                <k_ele>
                    <keb>日本</keb>
                </k_ele>
                <r_ele>
                    <reb>にほん</reb>
                </r_ele>
                <sense>
                    <gloss>Japan</gloss>
                    <gloss>Japanese</gloss>
                    <pos>noun</pos>
                    <pos>proper noun</pos>
                    <field>place</field>
                    <field>country</field>
                </sense>
            </entry>
        ";

fn strings(values: &[&str]) -> Vec<String> {
    values.iter().map(|value| value.to_string()).collect()
}

#[test]
fn test_extract_next_string() {
    let mut parser = XmlReader::from_str(
        r"
            <entry>
                <ent_seq>1</ent_seq>
                <k_ele>
                    <keb>日本</keb>
                </k_ele>
                <r_ele>
                    <reb>にほん</reb>
                </r_ele>
                <sense>
                    <gloss>Japan</gloss>
                    <gloss>Japanese</gloss>
                    <pos>noun</pos>
                    <pos>proper noun</pos>
                    <field>place</field>
                    <field>country</field>
                </sense>
            </entry>
        ",
    );

    assert_eq!(extract_next_string(&mut parser).unwrap(), "1");
    assert_eq!(extract_next_string(&mut parser).unwrap(), "日本");
    assert_eq!(extract_next_string(&mut parser).unwrap(), "にほん");
    assert_eq!(extract_next_string(&mut parser).unwrap(), "Japan");
    assert_eq!(extract_next_string(&mut parser).unwrap(), "Japanese");
    assert_eq!(extract_next_string(&mut parser).unwrap(), "noun");
    assert_eq!(extract_next_string(&mut parser).unwrap(), "proper noun");
    assert_eq!(extract_next_string(&mut parser).unwrap(), "place");
    assert_eq!(extract_next_string(&mut parser).unwrap(), "country");
}

#[test]
fn extract_next_string_fails_when_the_document_ends_first() {
    let mut parser = XmlReader::from_str(ENTRY);
    for _ in 0..9 {
        extract_next_string(&mut parser).unwrap();
    }
    assert_eq!(extract_next_string(&mut parser), Err(IndexError::MalformedXml));
}

#[test]
fn extract_next_string_fails_on_a_broken_document() {
    let mut parser = XmlReader::from_str("<keb>abc");
    assert!(matches!(parser.next(), XmlEvent::Other));
    assert!(matches!(parser.next(), XmlEvent::StartElement(name) if name == "keb"));
    assert_eq!(extract_next_string(&mut parser), Err(IndexError::MalformedXml));
}

#[test]
fn extract_next_string_passes_over_nested_markup() {
    let mut parser = XmlReader::from_str("<gloss>a<b>c</b>d</gloss>");
    assert_eq!(extract_next_string(&mut parser).unwrap(), "acd");
}

#[test]
fn extract_next_string_of_an_empty_leaf_is_empty() {
    let mut parser = XmlReader::from_str("<r><pos></pos><pos/></r>");
    assert_eq!(extract_next_string(&mut parser).unwrap(), "");
    assert_eq!(extract_next_string(&mut parser).unwrap(), "");
}

#[test]
fn reader_repeats_the_end_of_the_document() {
    let mut parser = XmlReader::new(b"<a>x</a>".to_vec());
    assert!(matches!(parser.next(), XmlEvent::Other));
    assert!(matches!(parser.next(), XmlEvent::StartElement(name) if name == "a"));
    assert!(matches!(parser.next(), XmlEvent::Characters(text) if text == "x"));
    assert!(matches!(parser.next(), XmlEvent::EndElement(name) if name == "a"));
    assert!(matches!(parser.next(), XmlEvent::EndDocument));
    assert!(matches!(parser.next(), XmlEvent::EndDocument));
}

#[test]
fn reader_repeats_an_error() {
    let mut parser = XmlReader::from_str("<a></b>");
    assert!(matches!(parser.next(), XmlEvent::Other));
    assert!(matches!(parser.next(), XmlEvent::StartElement(name) if name == "a"));
    assert!(matches!(parser.next(), XmlEvent::Invalid));
    assert!(matches!(parser.next(), XmlEvent::Invalid));
}

#[test]
fn end_to_end_entry_gives_the_expected_record() {
    let mut parser = XmlReader::from_str(ENTRY);
    let records = parse_xml_and_index(&mut parser).unwrap();
    assert_eq!(
        records,
        vec![Record {
            id: 1,
            forms: strings(&["日本"]),
            readings: strings(&["にほん"]),
            readings_romanized: strings(&["nihon"]),
            meanings: strings(&["Japan; Japanese"]),
            parts_of_speech: strings(&["noun; proper noun"]),
            semantic_fields: strings(&["place; country"]),
        }]
    );
}

#[test]
fn multi_valued_join_uses_semicolon_and_space() {
    let mut parser = XmlReader::from_str(
        "<entry><ent_seq>7</ent_seq>\
         <sense><gloss>Japan</gloss><gloss>Japanese</gloss></sense></entry>",
    );
    let records = parse_xml_and_index(&mut parser).unwrap();
    assert_eq!(records.len(), 1);
    assert_eq!(records[0].meanings, strings(&["Japan; Japanese"]));
    assert_eq!(records[0].parts_of_speech, strings(&[""]));
    assert_eq!(records[0].semantic_fields, strings(&[""]));
}

#[test]
fn each_sense_gives_one_value_in_every_sense_field() {
    let mut parser = XmlReader::from_str(
        "<JMdict><entry><ent_seq>1000</ent_seq><r_ele><reb>あ</reb></r_ele>\
         <sense><pos>n</pos><gloss>first</gloss></sense>\
         <sense><gloss>second</gloss><gloss>other</gloss><field>math</field></sense>\
         <sense><gloss>third</gloss></sense></entry></JMdict>",
    );
    let records = parse_xml_and_index(&mut parser).unwrap();
    assert_eq!(records.len(), 1);
    assert_eq!(records[0].meanings, strings(&["first", "second; other", "third"]));
    assert_eq!(records[0].parts_of_speech, strings(&["n", "", ""]));
    assert_eq!(records[0].semantic_fields, strings(&["", "math", ""]));
}

#[test]
fn readings_are_romanized_one_for_one() {
    let mut parser = XmlReader::from_str(
        "<entry><ent_seq>5</ent_seq><keb>今日</keb><keb>此の日</keb>\
         <reb>きょう</reb><reb>コンニチ</reb><reb>こんじつ</reb></entry>",
    );
    let records = parse_xml_and_index(&mut parser).unwrap();
    assert_eq!(records[0].forms, strings(&["今日", "此の日"]));
    assert_eq!(records[0].readings, strings(&["きょう", "コンニチ", "こんじつ"]));
    assert_eq!(records[0].readings_romanized, strings(&["kyou", "konnichi", "konjitsu"]));
}

#[test]
fn entry_without_sense_is_still_a_record() {
    let mut parser = XmlReader::from_str("<entry><ent_seq>42</ent_seq><keb>語</keb></entry>");
    let records = parse_xml_and_index(&mut parser).unwrap();
    assert_eq!(records.len(), 1);
    assert_eq!(records[0].id, 42);
    assert!(records[0].meanings.is_empty());
    assert!(records[0].parts_of_speech.is_empty());
    assert!(records[0].semantic_fields.is_empty());
}

#[test]
fn entry_without_reading_has_no_readings() {
    let mut parser = XmlReader::from_str("<entry><ent_seq>42</ent_seq><keb>語</keb></entry>");
    let records = parse_xml_and_index(&mut parser).unwrap();
    assert!(records[0].readings.is_empty());
    assert!(records[0].readings_romanized.is_empty());
}

#[test]
fn non_numeric_sequence_number_aborts_the_run() {
    let mut parser = XmlReader::from_str(
        "<JMdict><entry><ent_seq>1</ent_seq></entry><entry><ent_seq>12a</ent_seq></entry></JMdict>",
    );
    assert_eq!(parse_xml_and_index(&mut parser), Err(IndexError::MalformedId));
}

#[test]
fn missing_sequence_number_aborts_the_run() {
    let mut parser = XmlReader::from_str("<entry><keb>語</keb></entry>");
    assert_eq!(parse_xml_and_index(&mut parser), Err(IndexError::MalformedId));
}

#[test]
fn second_sequence_number_aborts_the_run() {
    let mut parser =
        XmlReader::from_str("<entry><ent_seq>1</ent_seq><ent_seq>2</ent_seq></entry>");
    assert_eq!(parse_xml_and_index(&mut parser), Err(IndexError::MalformedId));
}

#[test]
fn broken_document_aborts_the_run() {
    let mut parser = XmlReader::from_str("<entry><ent_seq>1</ent_seq></entry></oops>");
    assert_eq!(parse_xml_and_index(&mut parser), Err(IndexError::MalformedXml));
}

#[test]
fn truncated_document_aborts_the_run() {
    let mut parser = XmlReader::from_str("<JMdict><entry><ent_seq>1</ent_seq></entry>");
    assert_eq!(parse_xml_and_index(&mut parser), Err(IndexError::MalformedXml));
}

#[test]
fn running_twice_gives_identical_records() {
    let first = parse_xml_and_index(&mut XmlReader::from_str(ENTRY)).unwrap();
    let second = parse_xml_and_index(&mut XmlReader::from_str(ENTRY)).unwrap();
    assert_eq!(first, second);
}

#[test]
fn records_come_one_at_a_time_in_document_order() {
    let mut parser = XmlReader::from_str(
        "<JMdict><entry><ent_seq>1</ent_seq></entry><entry><ent_seq>-2</ent_seq></entry>\
         <entry><ent_seq>+3</ent_seq></entry></JMdict>",
    );
    let mut context = ParseContext::new();
    assert_eq!(next_record(&mut parser, &mut context).unwrap().unwrap().id, 1);
    assert_eq!(context.phase, Phase::Outside);
    assert_eq!(next_record(&mut parser, &mut context).unwrap().unwrap().id, -2);
    assert_eq!(next_record(&mut parser, &mut context).unwrap().unwrap().id, 3);
    assert_eq!(next_record(&mut parser, &mut context).unwrap(), None);
    assert_eq!(next_record(&mut parser, &mut context).unwrap(), None);
}

#[test]
fn unexpected_tags_are_passed_over() {
    let mut parser = XmlReader::from_str(
        "<JMdict><keb>stray</keb><sense><gloss>stray</gloss></sense>\
         <entry><gloss>stray</gloss><ent_seq>9</ent_seq>\
         <sense><keb>stray</keb><gloss>kept</gloss></sense></entry></JMdict>",
    );
    let records = parse_xml_and_index(&mut parser).unwrap();
    assert_eq!(records.len(), 1);
    assert_eq!(records[0].id, 9);
    assert!(records[0].forms.is_empty());
    assert_eq!(records[0].meanings, strings(&["kept"]));
}

#[test]
fn handlers_follow_the_phases() {
    let mut parser = XmlReader::from_str("<ent_seq>12</ent_seq><gloss>word</gloss>");
    let mut context = ParseContext::new();
    assert!(matches!(parser.next(), XmlEvent::Other));

    handle_start_element("entry", &mut parser, &mut context).unwrap();
    assert_eq!(context.phase, Phase::InEntry);

    assert!(matches!(parser.next(), XmlEvent::StartElement(_)));
    handle_start_element("ent_seq", &mut parser, &mut context).unwrap();
    assert_eq!(context.draft.id, Some(12));

    handle_start_element("sense", &mut parser, &mut context).unwrap();
    assert_eq!(context.phase, Phase::InSense);

    assert!(matches!(parser.next(), XmlEvent::StartElement(_)));
    handle_start_element("gloss", &mut parser, &mut context).unwrap();
    assert_eq!(context.sense.glosses, strings(&["word"]));

    assert_eq!(handle_end_element("entry", &mut context).unwrap(), None);
    assert_eq!(context.phase, Phase::InSense);

    assert_eq!(handle_end_element("sense", &mut context).unwrap(), None);
    assert_eq!(context.phase, Phase::InEntry);
    assert!(context.sense.glosses.is_empty());
    assert_eq!(context.draft.meanings, strings(&["word"]));

    let record = handle_end_element("entry", &mut context).unwrap().unwrap();
    assert_eq!(record.id, 12);
    assert_eq!(record.meanings, strings(&["word"]));
    assert_eq!(context.phase, Phase::Outside);
    assert_eq!(context, ParseContext::new());
}
