//! The dictionary as it is distributed: a gzip archive of the XML document.

use std::io::Read;
use vstd::prelude::*;
use crate::assembler::{is_run_of, parse_xml_and_index};
use crate::error::IndexError;
use crate::reader::{document_events, upcoming, XmlReader};
use crate::record::Record;

verus! {

/// The bytes that a gzip archive unpacks to; `None` for bytes that are no
/// such archive or a damaged one.
pub uninterp spec fn gunzipped(archive: Seq<u8>) -> Option<Seq<u8>>;

/// Reads a `flate2::read::GzDecoder` over the archive to its end. Inflating
/// reads nothing but the archive, so what comes out is a function of its
/// bytes, named `gunzipped`; a decoding error gives `None`.
#[verifier::external_body]
fn gunzip(archive: &Vec<u8>) -> (document: Option<Vec<u8>>)
    ensures
        match gunzipped(archive@) {
            Some(bytes) => document matches Some(unpacked) && unpacked@ == bytes,
            None => document is None,
        },
{
    let mut unpacked = Vec::new();
    match flate2::read::GzDecoder::new(&archive[..]).read_to_end(&mut unpacked) {
        Ok(_) => Some(unpacked),
        Err(_) => None,
    }
}

/// Unpacks the archive and puts a reader at the start of its document.
pub fn open_dictionary(archive: &Vec<u8>) -> (result: Result<XmlReader, IndexError>)
    ensures
        match gunzipped(archive@) {
            Some(document) => result matches Ok(reader) && upcoming(reader) == document_events(
                document,
            ),
            None => result matches Err(error) && error == IndexError::SourceIo,
        },
{
    match gunzip(archive) {
        Some(document) => Ok(XmlReader::new(document)),
        None => Err(IndexError::SourceIo),
    }
}

/// Assembles the records of a whole archive: of all its entries, in document
/// order, or none if the run fails.
pub fn index_dictionary(archive: &Vec<u8>) -> (result: Result<Vec<Record>, IndexError>)
    ensures
        match gunzipped(archive@) {
            Some(document) => is_run_of(document_events(document), result),
            None => result == Err::<Vec<Record>, IndexError>(IndexError::SourceIo),
        },
{
    match open_dictionary(archive) {
        Ok(mut reader) => parse_xml_and_index(&mut reader),
        Err(error) => Err(error),
    }
}

} // verus!
