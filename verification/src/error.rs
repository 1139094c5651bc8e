//! The ways in which the registry refuses a request.

use vstd::prelude::*;

verus! {

/// Why the registry refused.
#[derive(Clone, Copy, Debug, PartialEq, Eq, Structural)]
pub enum CacheError {
    /// What the backing file held is not a list of records with distinct
    /// names.
    CorruptStore,
    /// A name that had to be absent is present, or one that had to be present
    /// is absent.
    Conflict,
}

impl CacheError {
    /// The refusal in words.
    pub fn message(&self) -> (text: String)
        ensures
            text@ == match *self {
                CacheError::CorruptStore => "Could not pares cache!"@,
                CacheError::Conflict => "Missing or duplicate files!"@,
            },
    {
        match self {
            CacheError::CorruptStore => "Could not pares cache!".to_owned(),
            CacheError::Conflict => "Missing or duplicate files!".to_owned(),
        }
    }
}

} // verus!
