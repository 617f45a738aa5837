//! Error type shared by the whole library.
//!
//! Variants carry the offending raw value where the caller needs it for
//! diagnostics; rendering a human-readable message is left to the binary.

use vstd::prelude::*;

verus! {

/// Errors produced by the library's validation, decoding and construction
/// functions.
#[derive(Debug, Clone)]
pub enum N34Error {
    /// The repository id is empty or not kebab-case.
    InvalidRepoId,
    /// At least one repository coordinate is required.
    EmptyNaddrs,
    /// The given patch is not a root patch.
    NotRootPatch,
    /// The event was not found in the queried relays.
    EventNotFound,
    /// The repository announcement was not found.
    NotFoundRepo,
    /// The issue was not found.
    CanNotFoundIssue,
    /// The patch was not found.
    CanNotFoundPatch,
    /// The pull request was not found.
    CanNotFoundPr,
    /// Only issues, patches, pull requests and their comments can be
    /// replied to.
    CanNotReplyToEvent,
    /// A patch revision without a reply reference to its root patch.
    RevisionRootNotFound,
    /// The status kind cannot be used for an issue; holds the kind value.
    InvalidIssueStatus(u16),
    /// The status kind cannot be used for a patch or pull request; holds the
    /// kind value.
    InvalidPatchStatus(u16),
    /// An illegal status transition; holds the rule that was violated.
    InvalidStatus(String),
    /// A malformed event; holds the offending raw value.
    InvalidEvent(String),
    /// A malformed patch; holds the offending raw value.
    InvalidPatch(String),
    /// No set with the given name exists.
    SetNotFound(String),
    /// Two sets share the given name.
    SetDuplicateName(String),
    /// A new set must contain at least one address or relay.
    NewEmptySet,
    /// The named set contains no repository addresses.
    EmptySetNaddrs(String),
    /// The named set contains no relays.
    EmptySetRelays(String),
    /// The argument is neither a repository address nor an existing set name.
    InvalidNaddrArg(String),
    /// The argument is neither a relay URL nor an existing set name.
    InvalidRelaysArg(String),
}

/// Result alias used across the library.
pub type N34Result<T> = Result<T, N34Error>;

} // verus!
