//! Error kinds surfaced to callers.

use vstd::prelude::*;

verus! {

/// What went wrong while loading, parsing or filtering.
#[derive(Debug, Clone, PartialEq, Eq)]
pub enum ErrorType {
    /// A referenced file does not exist.
    FileNotExistError,
    /// A file could not be opened; holds its path.
    FileOpenError(String),
    /// A file could not be read.
    FileReadError,
    /// A file could not be written.
    FileWriteError,
    /// A filter term is not a valid regular expression; the command is
    /// aborted with no partial output.
    MalformedFilterExpression,
    /// Input text could not be parsed.
    ParseError,
    /// A value could not be converted to the requested type.
    TypeConversionError,
    /// A required value was absent; holds a description.
    NoneError(String),
}

} // verus!
