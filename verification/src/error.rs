//! The ways in which finding and patching items can fail.

use vstd::prelude::*;

verus! {

/// Why a call of the library failed.
#[derive(Clone, Copy, Debug, PartialEq, Eq, Structural)]
pub enum SearchError {
    /// A directory or a file could not be read or written.
    FileSystem,
    /// The parser could not take the grammar or gave no tree for the source.
    Parse,
    /// The query pattern of the item kind does not fit the grammar.
    Configuration,
    /// A capture of the query does not lie in the text that was parsed.
    CaptureMismatch,
}

/// What a failure is called in a report.
pub open spec fn message_of(error: SearchError) -> Seq<char> {
    match error {
        SearchError::FileSystem => "Cannot read or write the file system"@,
        SearchError::Parse => "Cannot parse code"@,
        SearchError::Configuration => "Cannot use the query pattern with the grammar"@,
        SearchError::CaptureMismatch =>
            "Cannot match query result indices with source code"@,
    }
}

impl SearchError {
    /// The words for this failure.
    pub fn message(&self) -> (text: String)
        ensures
            text@ == message_of(*self),
    {
        match self {
            SearchError::FileSystem => "Cannot read or write the file system".to_owned(),
            SearchError::Parse => "Cannot parse code".to_owned(),
            SearchError::Configuration =>
                "Cannot use the query pattern with the grammar".to_owned(),
            SearchError::CaptureMismatch =>
                "Cannot match query result indices with source code".to_owned(),
        }
    }
}

} // verus!
