//! Lifecycle statuses and the event kinds they travel as on the wire.
//!
//! Each status variant maps bijectively to a fixed event kind; unknown kinds
//! fail decoding instead of silently defaulting.

use vstd::prelude::*;

use crate::error::N34Error;

verus! {

/// Wire kind of a Git patch event.
pub const KIND_GIT_PATCH: u16 = 1617;
/// Wire kind of a Git pull-request event.
pub const KIND_GIT_PR: u16 = 1618;
/// Wire kind of a Git pull-request update event.
pub const KIND_GIT_PR_UPDATE: u16 = 1619;
/// Wire kind of a Git issue event.
pub const KIND_GIT_ISSUE: u16 = 1621;
/// Wire kind of a comment event.
pub const KIND_COMMENT: u16 = 1111;
/// Wire kind of a repository announcement event.
pub const KIND_REPO_ANNOUNCEMENT: u16 = 30617;
/// Wire kind of a repository state announcement event.
pub const KIND_REPO_STATE: u16 = 30618;
/// Wire kind of a user's relay list document.
pub const KIND_RELAY_LIST: u16 = 10002;
/// Status kind: the entity is open.
pub const KIND_STATUS_OPEN: u16 = 1630;
/// Status kind: the entity is resolved (issues) or merged/applied
/// (patches and pull requests).
pub const KIND_STATUS_APPLIED: u16 = 1631;
/// Status kind: the entity is closed.
pub const KIND_STATUS_CLOSED: u16 = 1632;
/// Status kind: the entity is a draft.
pub const KIND_STATUS_DRAFT: u16 = 1633;

/// True for the four kinds that carry a status transition.
pub open spec fn is_status_kind(kind: u16) -> bool {
    kind == KIND_STATUS_OPEN || kind == KIND_STATUS_APPLIED || kind == KIND_STATUS_CLOSED
        || kind == KIND_STATUS_DRAFT
}

/// Possible states for a Git issue.
#[derive(Debug, Clone, Copy, PartialEq, Eq, Structural)]
pub enum IssueStatus {
    /// The issue is currently open.
    Open,
    /// The issue has been resolved.
    Resolved,
    /// The issue has been closed.
    Closed,
}

/// Possible states for a Git patch or pull request.
#[derive(Debug, Clone, Copy, PartialEq, Eq, Structural)]
pub enum PatchPrStatus {
    /// The patch/pr is currently open.
    Open,
    /// The patch/pr has been merged/applied.
    MergedApplied,
    /// The patch/pr has been closed.
    Closed,
    /// A patch/pr that has been drafted but not yet applied.
    Draft,
}

/// The kind of entity a command operates on.
#[derive(Debug, Clone, Copy, PartialEq, Eq, Structural)]
pub enum EntityType {
    /// Pull request.
    PullRequest,
    /// Patch.
    Patch,
    /// Issue.
    Issue,
}

impl IssueStatus {
    /// Maps the issue status to its corresponding wire kind.
    pub fn kind(&self) -> (k: u16)
        ensures
            k == self.spec_kind(),
    {
        match self {
            IssueStatus::Open => KIND_STATUS_OPEN,
            IssueStatus::Resolved => KIND_STATUS_APPLIED,
            IssueStatus::Closed => KIND_STATUS_CLOSED,
        }
    }

    /// The wire kind of this status.
    pub open spec fn spec_kind(&self) -> u16 {
        match self {
            IssueStatus::Open => KIND_STATUS_OPEN,
            IssueStatus::Resolved => KIND_STATUS_APPLIED,
            IssueStatus::Closed => KIND_STATUS_CLOSED,
        }
    }

    /// Decodes a wire kind into an issue status; any other kind is a decode
    /// error carrying the offending value.
    pub fn try_from(kind: u16) -> (r: Result<IssueStatus, N34Error>)
        ensures
            kind == KIND_STATUS_OPEN ==> r == Result::<IssueStatus, N34Error>::Ok(
                IssueStatus::Open,
            ),
            kind == KIND_STATUS_APPLIED ==> r == Result::<IssueStatus, N34Error>::Ok(
                IssueStatus::Resolved,
            ),
            kind == KIND_STATUS_CLOSED ==> r == Result::<IssueStatus, N34Error>::Ok(
                IssueStatus::Closed,
            ),
            !(kind == KIND_STATUS_OPEN || kind == KIND_STATUS_APPLIED || kind
                == KIND_STATUS_CLOSED) ==> r == Result::<IssueStatus, N34Error>::Err(
                N34Error::InvalidIssueStatus(kind),
            ),
    {
        if kind == KIND_STATUS_OPEN {
            Ok(IssueStatus::Open)
        } else if kind == KIND_STATUS_APPLIED {
            Ok(IssueStatus::Resolved)
        } else if kind == KIND_STATUS_CLOSED {
            Ok(IssueStatus::Closed)
        } else {
            Err(N34Error::InvalidIssueStatus(kind))
        }
    }

    /// Returns the string representation of the issue status.
    pub fn as_str(&self) -> (r: &'static str)
        ensures
            *self == IssueStatus::Open ==> r@ == "Open"@,
            *self == IssueStatus::Resolved ==> r@ == "Resolved"@,
            *self == IssueStatus::Closed ==> r@ == "Closed"@,
    {
        match self {
            IssueStatus::Open => "Open",
            IssueStatus::Resolved => "Resolved",
            IssueStatus::Closed => "Closed",
        }
    }

    /// Check if the issue is open.
    pub fn is_open(&self) -> (r: bool)
        ensures
            r == (*self == IssueStatus::Open),
    {
        matches!(self, IssueStatus::Open)
    }

    /// Check if the issue is resolved.
    pub fn is_resolved(&self) -> (r: bool)
        ensures
            r == (*self == IssueStatus::Resolved),
    {
        matches!(self, IssueStatus::Resolved)
    }

    /// Check if the issue is closed.
    pub fn is_closed(&self) -> (r: bool)
        ensures
            r == (*self == IssueStatus::Closed),
    {
        matches!(self, IssueStatus::Closed)
    }
}

impl PatchPrStatus {
    /// Returns all four status kinds, in ascending kind order.
    pub fn all_kinds() -> (r: Vec<u16>)
        ensures
            r@ == seq![KIND_STATUS_OPEN, KIND_STATUS_APPLIED, KIND_STATUS_CLOSED,
                KIND_STATUS_DRAFT],
    {
        let mut v: Vec<u16> = Vec::new();
        v.push(KIND_STATUS_OPEN);
        v.push(KIND_STATUS_APPLIED);
        v.push(KIND_STATUS_CLOSED);
        v.push(KIND_STATUS_DRAFT);
        proof {
            assert(v@ =~= seq![KIND_STATUS_OPEN, KIND_STATUS_APPLIED, KIND_STATUS_CLOSED,
                KIND_STATUS_DRAFT]);
        }
        v
    }

    /// Maps the patch/pr status to its corresponding wire kind.
    pub fn kind(&self) -> (k: u16)
        ensures
            k == self.spec_kind(),
    {
        match self {
            PatchPrStatus::Open => KIND_STATUS_OPEN,
            PatchPrStatus::MergedApplied => KIND_STATUS_APPLIED,
            PatchPrStatus::Closed => KIND_STATUS_CLOSED,
            PatchPrStatus::Draft => KIND_STATUS_DRAFT,
        }
    }

    /// The wire kind of this status.
    pub open spec fn spec_kind(&self) -> u16 {
        match self {
            PatchPrStatus::Open => KIND_STATUS_OPEN,
            PatchPrStatus::MergedApplied => KIND_STATUS_APPLIED,
            PatchPrStatus::Closed => KIND_STATUS_CLOSED,
            PatchPrStatus::Draft => KIND_STATUS_DRAFT,
        }
    }

    /// The status a wire kind decodes to, when it is a status kind.
    pub open spec fn spec_of_kind(kind: u16) -> PatchPrStatus
        recommends
            is_status_kind(kind),
    {
        if kind == KIND_STATUS_OPEN {
            PatchPrStatus::Open
        } else if kind == KIND_STATUS_APPLIED {
            PatchPrStatus::MergedApplied
        } else if kind == KIND_STATUS_CLOSED {
            PatchPrStatus::Closed
        } else {
            PatchPrStatus::Draft
        }
    }

    /// Decodes a wire kind into a patch/pr status; any other kind is a decode
    /// error carrying the offending value.
    pub fn try_from(kind: u16) -> (r: Result<PatchPrStatus, N34Error>)
        ensures
            is_status_kind(kind) ==> r == Result::<PatchPrStatus, N34Error>::Ok(
                PatchPrStatus::spec_of_kind(kind),
            ),
            !is_status_kind(kind) ==> r == Result::<PatchPrStatus, N34Error>::Err(
                N34Error::InvalidPatchStatus(kind),
            ),
    {
        if kind == KIND_STATUS_OPEN {
            Ok(PatchPrStatus::Open)
        } else if kind == KIND_STATUS_APPLIED {
            Ok(PatchPrStatus::MergedApplied)
        } else if kind == KIND_STATUS_CLOSED {
            Ok(PatchPrStatus::Closed)
        } else if kind == KIND_STATUS_DRAFT {
            Ok(PatchPrStatus::Draft)
        } else {
            Err(N34Error::InvalidPatchStatus(kind))
        }
    }

    /// Returns the string representation of the patch/pr status.
    pub fn as_str(&self) -> (r: &'static str)
        ensures
            *self == PatchPrStatus::Open ==> r@ == "Open"@,
            *self == PatchPrStatus::MergedApplied ==> r@ == "Merged/Applied"@,
            *self == PatchPrStatus::Closed ==> r@ == "Closed"@,
            *self == PatchPrStatus::Draft ==> r@ == "Draft"@,
    {
        match self {
            PatchPrStatus::Open => "Open",
            PatchPrStatus::MergedApplied => "Merged/Applied",
            PatchPrStatus::Closed => "Closed",
            PatchPrStatus::Draft => "Draft",
        }
    }

    /// Check if the status is open.
    pub fn is_open(&self) -> (r: bool)
        ensures
            r == (*self == PatchPrStatus::Open),
    {
        matches!(self, PatchPrStatus::Open)
    }

    /// Check if the status is merged/applied.
    pub fn is_merged_or_applied(&self) -> (r: bool)
        ensures
            r == (*self == PatchPrStatus::MergedApplied),
    {
        matches!(self, PatchPrStatus::MergedApplied)
    }

    /// Check if the status is closed.
    pub fn is_closed(&self) -> (r: bool)
        ensures
            r == (*self == PatchPrStatus::Closed),
    {
        matches!(self, PatchPrStatus::Closed)
    }

    /// Check if the status is draft.
    pub fn is_drafted(&self) -> (r: bool)
        ensures
            r == (*self == PatchPrStatus::Draft),
    {
        matches!(self, PatchPrStatus::Draft)
    }
}

impl EntityType {
    /// Returns true if the entity is a pull request.
    pub fn is_pr(&self) -> (r: bool)
        ensures
            r == (*self == EntityType::PullRequest),
    {
        matches!(self, EntityType::PullRequest)
    }

    /// Returns true if the entity is a patch.
    pub fn is_patch(&self) -> (r: bool)
        ensures
            r == (*self == EntityType::Patch),
    {
        matches!(self, EntityType::Patch)
    }

    /// Returns true if the entity is an issue.
    pub fn is_issue(&self) -> (r: bool)
        ensures
            r == (*self == EntityType::Issue),
    {
        matches!(self, EntityType::Issue)
    }

    /// Returns the wire kind of the entity.
    pub fn kind(&self) -> (k: u16)
        ensures
            *self == EntityType::PullRequest ==> k == KIND_GIT_PR,
            *self == EntityType::Patch ==> k == KIND_GIT_PATCH,
            *self == EntityType::Issue ==> k == KIND_GIT_ISSUE,
    {
        match self {
            EntityType::PullRequest => KIND_GIT_PR,
            EntityType::Patch => KIND_GIT_PATCH,
            EntityType::Issue => KIND_GIT_ISSUE,
        }
    }

    /// Converts a numeric discriminant to the corresponding variant; values
    /// other than 0, 1 and 2 have no variant.
    pub fn from_u8(value: u8) -> (r: Option<EntityType>)
        ensures
            value == 0 ==> r == Some(EntityType::PullRequest),
            value == 1 ==> r == Some(EntityType::Patch),
            value == 2 ==> r == Some(EntityType::Issue),
            value > 2 ==> r is None,
    {
        if value == 0 {
            Some(EntityType::PullRequest)
        } else if value == 1 {
            Some(EntityType::Patch)
        } else if value == 2 {
            Some(EntityType::Issue)
        } else {
            None
        }
    }

    /// True when the entity is either a pull request or a patch.
    pub fn is_pr_or_patch(&self) -> (r: bool)
        ensures
            r == (*self == EntityType::PullRequest || *self == EntityType::Patch),
    {
        matches!(self, EntityType::PullRequest | EntityType::Patch)
    }
}

} // verus!
