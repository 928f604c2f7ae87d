//! The closed error taxonomy of the commit protocol, and the classifier
//! that maps raw backend faults into it.
//!
//! Every fault crossing the strategy boundary is classified immediately:
//! `Conflict` (the race for a version was lost), `NotFound` (a specifically
//! queried record does not exist), or `Internal` (an underlying service or
//! storage fault, with its message preserved).  No unclassified fault type
//! escapes past the adapter.

use vstd::prelude::*;

verus! {

/// The closed error taxonomy seen by every caller of the protocol.
#[derive(Debug, PartialEq, Eq)]
pub enum CommitError {
    /// Expected: the race for a version was lost.  Drives retry inside the
    /// coordinator, or surfaces after retry exhaustion.
    Conflict,
    /// A specifically queried version or record does not exist.  Never
    /// retried; surfaced immediately.
    NotFound { uri: String },
    /// An underlying service or storage fault, with its original message
    /// preserved for diagnosis.
    Internal { message: String },
}

impl Clone for CommitError {
    fn clone(&self) -> (r: Self)
        ensures
            r == *self,
    {
        match self {
            CommitError::Conflict => CommitError::Conflict,
            CommitError::NotFound { uri } => CommitError::NotFound { uri: uri.clone() },
            CommitError::Internal { message } => CommitError::Internal {
                message: message.clone(),
            },
        }
    }
}

impl CommitError {
    /// True on the `Conflict` variant alone.
    pub fn is_conflict(&self) -> (r: bool)
        ensures
            r == (self is Conflict),
    {
        match self {
            CommitError::Conflict => true,
            _ => false,
        }
    }

    /// True on the `NotFound` variant alone.
    pub fn is_not_found(&self) -> (r: bool)
        ensures
            r == (self is NotFound),
    {
        match self {
            CommitError::NotFound { .. } => true,
            _ => false,
        }
    }

    /// True on the `Internal` variant alone.
    pub fn is_internal(&self) -> (r: bool)
        ensures
            r == (self is Internal),
    {
        match self {
            CommitError::Internal { .. } => true,
            _ => false,
        }
    }
}

/// A raw fault as a backend adapter reports it, before classification:
/// either the backend's distinguished conflict signal, a missing-key
/// signal, or anything else with its diagnostic message.
#[derive(Debug, Clone, PartialEq, Eq)]
pub enum RawFault {
    /// The backend's own "already exists / already held" signal.
    ConflictSignal,
    /// The backend's own "no such key" signal, with the key it named.
    MissingKey { uri: String },
    /// Any other fault, with its diagnostic message.
    Other { message: String },
}

/// What `classify_fault` returns for a given raw fault.
pub open spec fn spec_classify_fault(fault: RawFault) -> CommitError {
    match fault {
        RawFault::ConflictSignal => CommitError::Conflict,
        RawFault::MissingKey { uri } => CommitError::NotFound { uri },
        RawFault::Other { message } => CommitError::Internal { message },
    }
}

/// Maps a raw backend fault into the closed taxonomy.  The conflict signal
/// becomes `Conflict`, a missing key becomes `NotFound` for that key, and
/// everything else becomes `Internal` with the original message preserved.
pub fn classify_fault(fault: RawFault) -> (r: CommitError)
    ensures
        r == spec_classify_fault(fault),
{
    match fault {
        RawFault::ConflictSignal => CommitError::Conflict,
        RawFault::MissingKey { uri } => CommitError::NotFound { uri },
        RawFault::Other { message } => CommitError::Internal { message },
    }
}

} // verus!
