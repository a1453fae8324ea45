//! The failures that the store reports to its callers.

use vstd::prelude::*;

verus! {

/// Why an operation of the store failed.
#[derive(Debug, PartialEq, Eq)]
pub enum StoreError {
    /// A directory or file could not be created, copied, renamed, read or
    /// synced; the text is the platform's description.
    Io(String),
    /// The text is no structured document, neither read strictly nor relaxed.
    Decode(String),
    /// No sync path is configured and the platform knows no home directory
    /// to build the default from.
    NoHomeDirectory,
    /// The sync backend is not one of the recognised tokens.
    InvalidBackend,
}

/// The mathematical content of a `StoreError`.
pub enum ErrorView {
    Io(Seq<char>),
    Decode(Seq<char>),
    NoHomeDirectory,
    InvalidBackend,
}

impl View for StoreError {
    type V = ErrorView;

    open spec fn view(&self) -> ErrorView {
        match self {
            StoreError::Io(m) => ErrorView::Io(m@),
            StoreError::Decode(m) => ErrorView::Decode(m@),
            StoreError::NoHomeDirectory => ErrorView::NoHomeDirectory,
            StoreError::InvalidBackend => ErrorView::InvalidBackend,
        }
    }
}

impl ErrorView {
    /// The text shown to the caller.
    pub open spec fn message(self) -> Seq<char> {
        match self {
            ErrorView::Io(m) => m,
            ErrorView::Decode(m) => m,
            ErrorView::NoHomeDirectory => {
                "Could not determine home directory for default sync path"@
            },
            ErrorView::InvalidBackend => "Invalid sync backend"@,
        }
    }
}

impl StoreError {
    /// The text shown to the caller: the carried description of an I/O or
    /// decode failure, a fixed sentence for the other two.
    pub fn message(&self) -> (text: String)
        ensures
            text@ == self@.message(),
    {
        match self {
            StoreError::Io(m) => m.clone(),
            StoreError::Decode(m) => m.clone(),
            StoreError::NoHomeDirectory => {
                "Could not determine home directory for default sync path".to_owned()
            },
            StoreError::InvalidBackend => "Invalid sync backend".to_owned(),
        }
    }
}

impl Clone for StoreError {
    fn clone(&self) -> (copy: StoreError)
        ensures
            copy@ == self@,
    {
        match self {
            StoreError::Io(m) => StoreError::Io(m.clone()),
            StoreError::Decode(m) => StoreError::Decode(m.clone()),
            StoreError::NoHomeDirectory => StoreError::NoHomeDirectory,
            StoreError::InvalidBackend => StoreError::InvalidBackend,
        }
    }
}

} // verus!
