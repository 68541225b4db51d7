//! The errors that can abort a generation run. Every failure is terminal:
//! the caller gets one error value and no partial script.

use vstd::prelude::*;

verus! {

/// Why a generation run failed. `row` is the line number of the offending
/// row in its table, counting the header line as row 0 (so the first data
/// row is row 1); `field` is the 1-based argument position.
#[derive(Debug, PartialEq, Eq)]
pub enum GenerationError {
    /// The output directory already exists.
    PreconditionFailed,
    /// A table row does not have the required number of columns.
    ParseError { row: usize },
    /// A required positional argument for the row's kind is absent.
    MissingField { row: usize, field: usize },
    /// A commit row's first argument is not a valid `YYYY/MM/DD HH:MM:SS`
    /// timestamp.
    InvalidTimestamp { row: usize, text: String },
    /// A commit row references a user key absent from the registry.
    UnknownUser { row: usize, key: String },
    /// A row's command kind is neither `commit` nor `tag`.
    UnknownCommand { row: usize, kind: String },
}

/// The mathematical model of a `GenerationError`.
pub enum ErrV {
    PreconditionFailed,
    ParseError { row: int },
    MissingField { row: int, field: int },
    InvalidTimestamp { row: int, text: Seq<char> },
    UnknownUser { row: int, key: Seq<char> },
    UnknownCommand { row: int, kind: Seq<char> },
}

impl View for GenerationError {
    type V = ErrV;

    open spec fn view(&self) -> ErrV {
        match self {
            GenerationError::PreconditionFailed => ErrV::PreconditionFailed,
            GenerationError::ParseError { row } => ErrV::ParseError { row: *row as int },
            GenerationError::MissingField { row, field } => ErrV::MissingField {
                row: *row as int,
                field: *field as int,
            },
            GenerationError::InvalidTimestamp { row, text } => ErrV::InvalidTimestamp {
                row: *row as int,
                text: text@,
            },
            GenerationError::UnknownUser { row, key } => ErrV::UnknownUser {
                row: *row as int,
                key: key@,
            },
            GenerationError::UnknownCommand { row, kind } => ErrV::UnknownCommand {
                row: *row as int,
                kind: kind@,
            },
        }
    }
}

} // verus!
