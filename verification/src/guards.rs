//! Transition guards.
//!
//! Each status-changing command validates the freshly resolved status
//! before any event is constructed; an illegal transition is an error
//! naming the specific rule that was violated.

use vstd::prelude::*;

use crate::error::N34Error;
use crate::status::{IssueStatus, PatchPrStatus};

verus! {

/// Guard for applying a patch: only an open patch can be applied.
pub fn check_apply_patch(status: &PatchPrStatus) -> (r: Result<(), N34Error>)
    ensures
        r is Ok <==> *status == PatchPrStatus::Open,
        *status == PatchPrStatus::MergedApplied ==> (r matches Err(N34Error::InvalidStatus(m))
            && m@ == "You can't apply an already applied patch"@),
        *status == PatchPrStatus::Closed ==> (r matches Err(N34Error::InvalidStatus(m)) && m@
            == "You can't apply a closed patch"@),
        *status == PatchPrStatus::Draft ==> (r matches Err(N34Error::InvalidStatus(m)) && m@
            == "You can't apply a drafted patch"@),
{
    match status {
        PatchPrStatus::MergedApplied => Err(
            N34Error::InvalidStatus("You can't apply an already applied patch".to_owned()),
        ),
        PatchPrStatus::Closed => Err(
            N34Error::InvalidStatus("You can't apply a closed patch".to_owned()),
        ),
        PatchPrStatus::Draft => Err(
            N34Error::InvalidStatus("You can't apply a drafted patch".to_owned()),
        ),
        PatchPrStatus::Open => Ok(()),
    }
}

/// Guard for merging a patch: only an open patch can be merged.
pub fn check_merge_patch(status: &PatchPrStatus) -> (r: Result<(), N34Error>)
    ensures
        r is Ok <==> *status == PatchPrStatus::Open,
        *status == PatchPrStatus::MergedApplied ==> (r matches Err(N34Error::InvalidStatus(m))
            && m@ == "You can't merge an already merged/applied patch"@),
        *status == PatchPrStatus::Closed ==> (r matches Err(N34Error::InvalidStatus(m)) && m@
            == "You can't merge a closed patch"@),
        *status == PatchPrStatus::Draft ==> (r matches Err(N34Error::InvalidStatus(m)) && m@
            == "You can't merge a draft patch"@),
{
    match status {
        PatchPrStatus::MergedApplied => Err(
            N34Error::InvalidStatus("You can't merge an already merged/applied patch".to_owned()),
        ),
        PatchPrStatus::Closed => Err(
            N34Error::InvalidStatus("You can't merge a closed patch".to_owned()),
        ),
        PatchPrStatus::Draft => Err(
            N34Error::InvalidStatus("You can't merge a draft patch".to_owned()),
        ),
        PatchPrStatus::Open => Ok(()),
    }
}

/// Guard for closing a patch: an already closed or merged/applied patch
/// cannot be closed.
pub fn check_close_patch(status: &PatchPrStatus) -> (r: Result<(), N34Error>)
    ensures
        r is Ok <==> (*status == PatchPrStatus::Open || *status == PatchPrStatus::Draft),
        *status == PatchPrStatus::Closed ==> (r matches Err(N34Error::InvalidStatus(m)) && m@
            == "You can't close an already closed patch"@),
        *status == PatchPrStatus::MergedApplied ==> (r matches Err(N34Error::InvalidStatus(m))
            && m@ == "You can't close a merged/applied patch"@),
{
    match status {
        PatchPrStatus::Closed => Err(
            N34Error::InvalidStatus("You can't close an already closed patch".to_owned()),
        ),
        PatchPrStatus::MergedApplied => Err(
            N34Error::InvalidStatus("You can't close a merged/applied patch".to_owned()),
        ),
        _ => Ok(()),
    }
}

/// Guard for reopening a patch: an open patch cannot be reopened, and a
/// merged/applied patch is terminal.
pub fn check_reopen_patch(status: &PatchPrStatus) -> (r: Result<(), N34Error>)
    ensures
        r is Ok <==> (*status == PatchPrStatus::Closed || *status == PatchPrStatus::Draft),
        *status == PatchPrStatus::Open ==> (r matches Err(N34Error::InvalidStatus(m)) && m@
            == "You can't reopen an open patch"@),
        *status == PatchPrStatus::MergedApplied ==> (r matches Err(N34Error::InvalidStatus(m))
            && m@ == "You can't reopen a merged/applied patch"@),
{
    match status {
        PatchPrStatus::Open => Err(
            N34Error::InvalidStatus("You can't reopen an open patch".to_owned()),
        ),
        PatchPrStatus::MergedApplied => Err(
            N34Error::InvalidStatus("You can't reopen a merged/applied patch".to_owned()),
        ),
        _ => Ok(()),
    }
}

/// Guard for drafting a patch: a draft, closed or merged/applied patch
/// cannot be drafted.
pub fn check_draft_patch(status: &PatchPrStatus) -> (r: Result<(), N34Error>)
    ensures
        r is Ok <==> *status == PatchPrStatus::Open,
        *status == PatchPrStatus::Draft ==> (r matches Err(N34Error::InvalidStatus(m)) && m@
            == "You can't draft an already draft patch"@),
        *status == PatchPrStatus::Closed ==> (r matches Err(N34Error::InvalidStatus(m)) && m@
            == "You can't draft a closed patch"@),
        *status == PatchPrStatus::MergedApplied ==> (r matches Err(N34Error::InvalidStatus(m))
            && m@ == "You can't draft a merged/applied patch"@),
{
    match status {
        PatchPrStatus::Draft => Err(
            N34Error::InvalidStatus("You can't draft an already draft patch".to_owned()),
        ),
        PatchPrStatus::Closed => Err(
            N34Error::InvalidStatus("You can't draft a closed patch".to_owned()),
        ),
        PatchPrStatus::MergedApplied => Err(
            N34Error::InvalidStatus("You can't draft a merged/applied patch".to_owned()),
        ),
        PatchPrStatus::Open => Ok(()),
    }
}

/// Guard for applying a pull request: only an open pull request can be
/// applied.
pub fn check_apply_pr(status: &PatchPrStatus) -> (r: Result<(), N34Error>)
    ensures
        r is Ok <==> *status == PatchPrStatus::Open,
        *status == PatchPrStatus::MergedApplied ==> (r matches Err(N34Error::InvalidStatus(m))
            && m@ == "You can't apply an already applied pull request"@),
        *status == PatchPrStatus::Closed ==> (r matches Err(N34Error::InvalidStatus(m)) && m@
            == "You can't apply a closed pull request"@),
        *status == PatchPrStatus::Draft ==> (r matches Err(N34Error::InvalidStatus(m)) && m@
            == "Cannot apply a draft pull request"@),
{
    match status {
        PatchPrStatus::MergedApplied => Err(
            N34Error::InvalidStatus("You can't apply an already applied pull request".to_owned()),
        ),
        PatchPrStatus::Closed => Err(
            N34Error::InvalidStatus("You can't apply a closed pull request".to_owned()),
        ),
        PatchPrStatus::Draft => Err(
            N34Error::InvalidStatus("Cannot apply a draft pull request".to_owned()),
        ),
        PatchPrStatus::Open => Ok(()),
    }
}

/// Guard for drafting a pull request: a draft, closed or merged/applied
/// pull request cannot be drafted.
pub fn check_draft_pr(status: &PatchPrStatus) -> (r: Result<(), N34Error>)
    ensures
        r is Ok <==> *status == PatchPrStatus::Open,
        *status == PatchPrStatus::Draft ==> (r matches Err(N34Error::InvalidStatus(m)) && m@
            == "You can't draft an already draft pull request"@),
        *status == PatchPrStatus::Closed ==> (r matches Err(N34Error::InvalidStatus(m)) && m@
            == "You can't draft a closed pull request"@),
        *status == PatchPrStatus::MergedApplied ==> (r matches Err(N34Error::InvalidStatus(m))
            && m@ == "You can't draft a merged/applied pull request"@),
{
    match status {
        PatchPrStatus::Draft => Err(
            N34Error::InvalidStatus("You can't draft an already draft pull request".to_owned()),
        ),
        PatchPrStatus::Closed => Err(
            N34Error::InvalidStatus("You can't draft a closed pull request".to_owned()),
        ),
        PatchPrStatus::MergedApplied => Err(
            N34Error::InvalidStatus(
                "You can't draft a merged/applied pull request".to_owned(),
            ),
        ),
        PatchPrStatus::Open => Ok(()),
    }
}

/// Guard for closing an issue: an already closed issue cannot be closed.
pub fn check_close_issue(status: &IssueStatus) -> (r: Result<(), N34Error>)
    ensures
        r is Ok <==> *status != IssueStatus::Closed,
        *status == IssueStatus::Closed ==> (r matches Err(N34Error::InvalidStatus(m)) && m@
            == "You can't close an already closed issue"@),
{
    match status {
        IssueStatus::Closed => Err(
            N34Error::InvalidStatus("You can't close an already closed issue".to_owned()),
        ),
        _ => Ok(()),
    }
}

/// Guard for reopening an issue: an open issue cannot be reopened.
pub fn check_reopen_issue(status: &IssueStatus) -> (r: Result<(), N34Error>)
    ensures
        r is Ok <==> *status != IssueStatus::Open,
        *status == IssueStatus::Open ==> (r matches Err(N34Error::InvalidStatus(m)) && m@
            == "You can't reopen an open issue"@),
{
    match status {
        IssueStatus::Open => Err(
            N34Error::InvalidStatus("You can't reopen an open issue".to_owned()),
        ),
        _ => Ok(()),
    }
}

/// Guard for resolving an issue: an already resolved issue cannot be
/// resolved again.
pub fn check_resolve_issue(status: &IssueStatus) -> (r: Result<(), N34Error>)
    ensures
        r is Ok <==> *status != IssueStatus::Resolved,
        *status == IssueStatus::Resolved ==> (r matches Err(N34Error::InvalidStatus(m)) && m@
            == "You can't resolve an already resolved issue"@),
{
    match status {
        IssueStatus::Resolved => Err(
            N34Error::InvalidStatus("You can't resolve an already resolved issue".to_owned()),
        ),
        _ => Ok(()),
    }
}

/// Guard for acting on a patch revision: only a transition into
/// merged/applied is allowed for a revision.
pub fn check_revision_action(is_revision: bool, new_status: &PatchPrStatus) -> (r: Result<
    (),
    N34Error,
>)
    ensures
        r is Ok <==> (!is_revision || *new_status == PatchPrStatus::MergedApplied),
        r matches Err(e) ==> (e matches N34Error::InvalidStatus(m) && m@
            == "Invalid action for patch revision. Only 'apply' or 'merge' are allowed, 'open', 'close', and 'draft' are not supported."@),
{
    if is_revision && !status_is_merged(new_status) {
        Err(
            N34Error::InvalidStatus(
                "Invalid action for patch revision. Only 'apply' or 'merge' are allowed, 'open', 'close', and 'draft' are not supported.".to_owned(),
            ),
        )
    } else {
        Ok(())
    }
}

/// Returns whether the status is merged/applied.
fn status_is_merged(status: &PatchPrStatus) -> (r: bool)
    ensures
        r == (*status == PatchPrStatus::MergedApplied),
{
    matches!(status, PatchPrStatus::MergedApplied)
}

} // verus!
