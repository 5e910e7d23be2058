//! Assembles flat dictionary records from the event stream of a JMdict XML
//! document.

pub mod accumulate;
pub mod archive;
pub mod assembler;
pub mod error;
pub mod event;
pub mod ident;
pub mod laws;
pub mod machine;
pub mod reader;
pub mod record;
pub mod romaji;
pub mod schema;
pub mod source;
pub mod text;
