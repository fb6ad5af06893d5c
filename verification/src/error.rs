//! What can go wrong during a search, and how a search is classified.

use vstd::prelude::*;

verus! {

/// The failures a search distinguishes.
///
/// Only `InvalidPattern` and `SerializationFailure` are fatal to a whole
/// invocation; the others concern one entry, which is skipped.
#[derive(Debug)]
pub enum SearchError {
    /// The pattern does not compile; the text is the engine's reason.
    InvalidPattern(String),
    /// A candidate file could not be opened or read.
    FileUnreadable,
    /// A candidate file holds a NUL byte and is treated as binary.
    BinaryContent,
    /// The traversal failed on one entry.
    TraversalError,
    /// The final encoding of the records failed.
    SerializationFailure,
}

/// How a finished search is classified.
#[derive(Debug)]
pub enum SearchStatus {
    /// At least one match record was produced.
    HasMatches,
    /// The search ran and produced no match record.
    NoMatches,
    /// The search could not run or its result could not be delivered.
    Error(SearchError),
}

/// A failure over mathematical values.
pub enum ErrorModel {
    InvalidPattern(Seq<char>),
    FileUnreadable,
    BinaryContent,
    TraversalError,
    SerializationFailure,
}

/// A status over mathematical values.
pub enum StatusModel {
    HasMatches,
    NoMatches,
    Error(ErrorModel),
}

impl View for SearchError {
    type V = ErrorModel;

    open spec fn view(&self) -> ErrorModel {
        match self {
            SearchError::InvalidPattern(reason) => ErrorModel::InvalidPattern(reason@),
            SearchError::FileUnreadable => ErrorModel::FileUnreadable,
            SearchError::BinaryContent => ErrorModel::BinaryContent,
            SearchError::TraversalError => ErrorModel::TraversalError,
            SearchError::SerializationFailure => ErrorModel::SerializationFailure,
        }
    }
}

impl View for SearchStatus {
    type V = StatusModel;

    open spec fn view(&self) -> StatusModel {
        match self {
            SearchStatus::HasMatches => StatusModel::HasMatches,
            SearchStatus::NoMatches => StatusModel::NoMatches,
            SearchStatus::Error(e) => StatusModel::Error(e@),
        }
    }
}

impl SearchStatus {
    /// The process exit code that stands for a status.
    pub open spec fn exit_code_of(self) -> int {
        match self {
            SearchStatus::HasMatches => 0,
            SearchStatus::NoMatches => 1,
            SearchStatus::Error(_) => 2,
        }
    }

    /// Exit code of a status: 0 with matches, 1 without, 2 on a fatal error.
    pub fn exit_code(&self) -> (code: i32)
        ensures
            code == self.exit_code_of(),
    {
        match self {
            SearchStatus::HasMatches => 0,
            SearchStatus::NoMatches => 1,
            SearchStatus::Error(_) => 2,
        }
    }
}

} // verus!
