//! The failures that the library reports.

use vstd::prelude::*;

verus! {

/// Why an operation of the library did not succeed.
#[derive(Debug, Clone, PartialEq, Eq)]
pub enum AppError {
    /// A directory that must exist was not found.
    DirNotFound(String),
    /// A directory could not be created.
    DirCreate { path: String, source: String },
    /// A file could not be read.
    FileRead { path: String, source: String },
    /// A file could not be written.
    FileWrite { path: String, source: String },
    /// The store could not be opened, created or replaced.
    DatabaseInit(String),
    /// A value could not be turned into its stored form, or back.
    Serialization { format: String, source: String },
    /// The clock could not be read.
    SystemTime(String),
    /// A record is missing or malformed.
    InvalidState(String),
}

/// An [`AppError`] with each text as its characters.
pub enum ErrorView {
    DirNotFound(Seq<char>),
    DirCreate { path: Seq<char>, source: Seq<char> },
    FileRead { path: Seq<char>, source: Seq<char> },
    FileWrite { path: Seq<char>, source: Seq<char> },
    DatabaseInit(Seq<char>),
    Serialization { format: Seq<char>, source: Seq<char> },
    SystemTime(Seq<char>),
    InvalidState(Seq<char>),
}

impl View for AppError {
    type V = ErrorView;

    open spec fn view(&self) -> ErrorView {
        match self {
            AppError::DirNotFound(path) => ErrorView::DirNotFound(path@),
            AppError::DirCreate { path, source } => ErrorView::DirCreate {
                path: path@,
                source: source@,
            },
            AppError::FileRead { path, source } => ErrorView::FileRead {
                path: path@,
                source: source@,
            },
            AppError::FileWrite { path, source } => ErrorView::FileWrite {
                path: path@,
                source: source@,
            },
            AppError::DatabaseInit(message) => ErrorView::DatabaseInit(message@),
            AppError::Serialization { format, source } => ErrorView::Serialization {
                format: format@,
                source: source@,
            },
            AppError::SystemTime(message) => ErrorView::SystemTime(message@),
            AppError::InvalidState(message) => ErrorView::InvalidState(message@),
        }
    }
}

} // verus!
