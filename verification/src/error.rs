//! The error taxonomy of the library.

use vstd::prelude::*;

verus! {

/// A caller-fixable problem with a supplied value, reported before any
/// mutation takes place.
#[derive(Clone, Copy, PartialEq, Eq, Structural, Debug)]
pub enum ParameterError {
    /// The tag name is empty.
    Tag,
    /// A contact email address is not syntactically valid.
    Email,
    /// A review status code does not name a known status.
    ReviewStatus,
}

/// A failure raised by a repository.
#[derive(Clone, Copy, PartialEq, Eq, Structural, Debug)]
pub enum RepoError {
    /// The referenced identifier does not exist.
    NotFound,
    /// A record with the same identity already exists.
    AlreadyExists,
    /// The version carried by an update request does not equal the stored
    /// version (optimistic-concurrency conflict).
    InvalidVersion,
}

/// The caller-visible failure of an operation.
#[derive(Clone, Copy, PartialEq, Eq, Structural, Debug)]
pub enum Error {
    Parameter(ParameterError),
    Repo(RepoError),
}

/// A failure of the derived search index; logged by callers of the update
/// pipeline, never surfaced as the operation's result.
#[derive(Clone, Copy, PartialEq, Eq, Structural, Debug)]
pub struct IndexError;

/// A failure of notification dispatch; logged by callers of the update
/// pipeline, never surfaced as the operation's result.
#[derive(Clone, Copy, PartialEq, Eq, Structural, Debug)]
pub struct NotifyError;

} // verus!
