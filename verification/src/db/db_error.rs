//! The error type shared by every fallible operation of the library.

use vstd::prelude::*;

verus! {

/// Spec-level image of a [`DbError`]: the same variants, with the carried
/// text seen as a sequence of characters.
pub enum ErrV {
    Custom(Seq<char>),
    IoError(Seq<char>),
    NotFound,
    TypeMismatch(Seq<char>),
    FieldAlreadyExists(Seq<char>),
    DuplicateId(Seq<char>),
    UnexpectedToken(Seq<char>),
    UnsupportedType(Seq<char>),
    UnterminatedValue(Seq<char>),
}

/// The global error type.
///
/// Parser diagnostics (`UnexpectedToken`, `UnsupportedType`,
/// `UnterminatedValue`) carry the full human-readable message, including the
/// offending literal text, so that a failure is reproducible from the message
/// alone.
#[derive(Debug)]
pub enum DbError {
    /// A failure outside the other categories; carries its message.
    Custom(String),
    /// An underlying platform I/O failure, rendered as text.
    IoError(String),
    /// An expected file was absent.
    NotFound,
    /// A value was accessed as the wrong variant.
    TypeMismatch(String),
    /// A field name was added to a record that already has it.
    FieldAlreadyExists(String),
    /// Two records of one table share the named id.
    DuplicateId(String),
    /// The parser met a token other than the one the grammar demands.
    UnexpectedToken(String),
    /// A field carried a type tag outside the supported set.
    UnsupportedType(String),
    /// The input ended before the closing quote of a value.
    UnterminatedValue(String),
}

impl View for DbError {
    type V = ErrV;

    open spec fn view(&self) -> ErrV {
        match self {
            DbError::Custom(m) => ErrV::Custom(m@),
            DbError::IoError(m) => ErrV::IoError(m@),
            DbError::NotFound => ErrV::NotFound,
            DbError::TypeMismatch(m) => ErrV::TypeMismatch(m@),
            DbError::FieldAlreadyExists(m) => ErrV::FieldAlreadyExists(m@),
            DbError::DuplicateId(m) => ErrV::DuplicateId(m@),
            DbError::UnexpectedToken(m) => ErrV::UnexpectedToken(m@),
            DbError::UnsupportedType(m) => ErrV::UnsupportedType(m@),
            DbError::UnterminatedValue(m) => ErrV::UnterminatedValue(m@),
        }
    }
}

} // verus!
