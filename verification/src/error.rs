//! The ways an ingestion run can fail.

use vstd::prelude::*;

verus! {

/// Why a run was aborted. A run never recovers from any of these: the first
/// one ends it.
#[derive(Clone, Copy, Debug, PartialEq, Eq, Structural)]
pub enum IndexError {
    /// The source could not be read or unpacked.
    SourceIo,
    /// The events did not come in an order that can be assembled: the
    /// tokenizer gave up, or the stream ended inside a leaf.
    MalformedXml,
    /// An entry has no sequence number, more than one, or one that is not
    /// an integer.
    MalformedId,
}

impl IndexError {
    /// A short description for the user.
    pub fn message(&self) -> (text: String)
        ensures
            text@ == (match *self {
                IndexError::SourceIo => "cannot read the dictionary source"@,
                IndexError::MalformedXml => "the dictionary source is not well-formed"@,
                IndexError::MalformedId => "an entry lacks a numeric sequence number"@,
            }),
    {
        match self {
            IndexError::SourceIo => "cannot read the dictionary source".to_owned(),
            IndexError::MalformedXml => "the dictionary source is not well-formed".to_owned(),
            IndexError::MalformedId => "an entry lacks a numeric sequence number".to_owned(),
        }
    }
}

} // verus!
