//! Error taxonomy of the cache subsystem.

use vstd::prelude::*;

verus! {

/// An error of the cache subsystem.
///
/// `Serialization` means the request could not be put into its canonical
/// encoded form, so no fingerprint was produced.  `Cache` means a stored
/// row was present but malformed (or a digest had an unexpected shape):
/// data corruption worth surfacing distinctly from a plain miss.
#[derive(Debug, Clone)]
pub enum CacheError {
    Serialization { message: String },
    Cache { message: String },
}

impl CacheError {
    /// The human-readable message carried by either variant.
    pub fn message(&self) -> (m: &String)
        ensures
            m@ == self.message_view(),
    {
        match self {
            CacheError::Serialization { message } => message,
            CacheError::Cache { message } => message,
        }
    }

    /// The message of either variant, as a sequence of characters.
    pub open spec fn message_view(&self) -> Seq<char> {
        match self {
            CacheError::Serialization { message } => message@,
            CacheError::Cache { message } => message@,
        }
    }
}

} // verus!
