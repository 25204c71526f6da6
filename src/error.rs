use vstd::prelude::*;

verus! {

/// The failures of the library's operations.
#[derive(Debug, PartialEq, Eq)]
pub enum Error {
    /// The database or its transport failed; `code` is the server's error
    /// code when it gave one.
    Database { code: Option<i32>, message: String },
    /// A single document was expected and none came back.
    NotFound,
    /// An operation ran before the databases were registered.
    Uninitialized,
    /// A database name that was never registered.
    UnknownDatabase(String),
    /// A value could not be turned into or out of its wire form.
    Serialization(String),
    /// The databases were registered a second time.
    InitializationConflict,
}

/// Server codes of a write that broke a uniqueness or index constraint.
pub open spec fn is_conflict_code(code: i32) -> bool {
    code == 11000 || code == 40 || code == 112
}

/// Whether an error is a write conflict that a caller may retry.
pub open spec fn conflict(e: Error) -> bool {
    match e {
        Error::Database { code: Some(c), .. } => is_conflict_code(c),
        _ => false,
    }
}

impl Error {
    /// Whether this error is a duplicate-key or index-violation conflict.
    pub fn is_conflict(&self) -> (r: bool)
        ensures
            r == conflict(*self),
    {
        match self {
            Error::Database { code: Some(c), .. } => *c == 11000 || *c == 40 || *c == 112,
            _ => false,
        }
    }
}

} // verus!
