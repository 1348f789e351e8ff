//! Incremental reader for SPARQL JSON result documents.
//!
//! The document arrives as a stream of characters.  A finite-state scanner
//! segments the stream into self-contained regions (the head object, each
//! result row, a trailing meta object); each closed region is decoded
//! against its schema; decoded rows are batched and handed out as chunks,
//! so results can be consumed long before the whole document has arrived.

use vstd::prelude::*;

pub mod json;
pub mod decode;
pub mod scanner;
pub mod parser;
pub mod sparql;

verus! {

/// Errors a stream driver can encounter while feeding a [`parser::Parser`]:
/// transport corruption, a byte chunk that is not valid UTF-8, or a region
/// whose text fails schema decoding.
#[derive(Debug, Clone, PartialEq, Eq)]
pub enum SparqlResultReaderError {
    CorruptStream,
    Utf8EncodingError,
    JsonParseError(String),
}

} // verus!
