use std::io::Write;

use flate2::write::GzEncoder;
use flate2::Compression;
use jmdict_indexer::archive::{index_dictionary, open_dictionary};
use jmdict_indexer::assembler::{next_record, ParseContext};
use jmdict_indexer::error::IndexError;

fn gzip(document: &str) -> Vec<u8> {
    let mut encoder = GzEncoder::new(Vec::new(), Compression::default());
    encoder.write_all(document.as_bytes()).unwrap();
    encoder.finish().unwrap()
}

const DICTIONARY: &str = "<JMdict>\
    <entry><ent_seq>1</ent_seq><k_ele><keb>日本</keb></k_ele><r_ele><reb>にほん</reb></r_ele>\
    <sense><gloss>Japan</gloss><gloss>Japanese</gloss><pos>noun</pos><pos>proper noun</pos>\
    <field>place</field><field>country</field></sense></entry>\
    <entry><ent_seq>2</ent_seq><r_ele><reb>カタカナ</reb></r_ele></entry>\
    </JMdict>";

#[test]
fn index_dictionary_unpacks_and_assembles() {
    let records = index_dictionary(&gzip(DICTIONARY)).unwrap();
    assert_eq!(records.len(), 2);
    assert_eq!(records[0].id, 1);
    assert_eq!(records[0].forms, vec!["日本"]);
    assert_eq!(records[0].readings_romanized, vec!["nihon"]);
    assert_eq!(records[0].meanings, vec!["Japan; Japanese"]);
    assert_eq!(records[0].parts_of_speech, vec!["noun; proper noun"]);
    assert_eq!(records[0].semantic_fields, vec!["place; country"]);
    assert_eq!(records[1].id, 2);
    assert_eq!(records[1].readings_romanized, vec!["katakana"]);
    assert!(records[1].meanings.is_empty());
}

#[test]
fn index_dictionary_twice_gives_identical_records() {
    let archive = gzip(DICTIONARY);
    assert_eq!(index_dictionary(&archive), index_dictionary(&archive));
}

#[test]
fn index_dictionary_refuses_what_is_not_an_archive() {
    assert_eq!(index_dictionary(&DICTIONARY.as_bytes().to_vec()), Err(IndexError::SourceIo));
    assert_eq!(index_dictionary(&Vec::new()), Err(IndexError::SourceIo));
}

#[test]
fn index_dictionary_refuses_a_truncated_archive() {
    let mut archive = gzip(DICTIONARY);
    archive.truncate(archive.len() / 2);
    assert_eq!(index_dictionary(&archive), Err(IndexError::SourceIo));
}

#[test]
fn index_dictionary_reports_a_bad_sequence_number() {
    let archive = gzip("<JMdict><entry><ent_seq>one</ent_seq></entry></JMdict>");
    assert_eq!(index_dictionary(&archive), Err(IndexError::MalformedId));
}

#[test]
fn open_dictionary_gives_a_reader_on_the_document() {
    let mut reader = open_dictionary(&gzip(DICTIONARY)).unwrap();
    let mut context = ParseContext::new();
    assert_eq!(next_record(&mut reader, &mut context).unwrap().unwrap().id, 1);
    assert_eq!(next_record(&mut reader, &mut context).unwrap().unwrap().id, 2);
    assert_eq!(next_record(&mut reader, &mut context).unwrap(), None);
    assert!(matches!(open_dictionary(&vec![1, 2, 3]), Err(IndexError::SourceIo)));
}
