//! A flat-file record store: tables of uniquely-identified, typed records,
//! persisted as human-readable text, one file per table.
//!
//! [`db`] holds the data model -- typed values, fields, records, tables and
//! the error type. [`table_manager`] holds the on-disk format: the encoder
//! that renders a record as one line of text, the tokenizer and parser that
//! read records back, and the per-version table manager that converts whole
//! tables to and from the lines of their file. The manager works on lines in
//! memory; the file reads and writes around it belong to the embedding
//! program.
//!
//! The central law is the round trip: decoding an encoded table gives the
//! table back (see `table_manager::laws`).

pub mod db;
pub mod text;
pub mod table_manager;

use vstd::prelude::*;

verus! {

/// No character of the text is a quote.
pub open spec fn no_quote(s: Seq<char>) -> bool {
    forall|i: int| 0 <= i < s.len() ==> #[trigger] s[i] != '"'
}

/// The version marker that opens every table file.
pub open spec fn version_marker() -> Seq<char> {
    "#v1.0#"@
}

/// The characters on which the tokenizer splits the on-disk text.
pub open spec fn is_delim(c: char) -> bool {
    c == ' ' || c == '[' || c == ']' || c == '"' || c == '#' || c == ':'
}

/// Executable twin of [`is_delim`].
pub fn is_delim_char(c: char) -> (r: bool)
    ensures
        r == is_delim(c),
{
    c == ' ' || c == '[' || c == ']' || c == '"' || c == '#' || c == ':'
}

} // verus!
