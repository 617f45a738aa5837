use n34::resolve::{
    resolve_authorized_signers, resolve_issue_status, resolve_patch_status, resolve_pr_status,
    EventRef, StatusEvent,
};
use n34::status::{
    KIND_STATUS_APPLIED, KIND_STATUS_CLOSED, KIND_STATUS_DRAFT, KIND_STATUS_OPEN,
};
use n34::tags::Marker;
use n34::{IssueStatus, N34Error, PatchPrStatus};

fn status_event(id: &str, author: &str, created_at: u64, kind: u16) -> StatusEvent {
    StatusEvent {
        id: id.to_string(),
        author: author.to_string(),
        created_at,
        kind,
        e_tags: Vec::new(),
    }
}

fn keys(list: &[&str]) -> Vec<String> {
    list.iter().map(|k| k.to_string()).collect()
}

#[test]
fn status_defaults_to_open() {
    let authorized = keys(&["alice"]);
    let events: Vec<StatusEvent> = Vec::new();
    assert_eq!(
        resolve_issue_status(&events, &authorized).unwrap(),
        IssueStatus::Open
    );
    assert_eq!(
        resolve_pr_status(&events, &authorized).unwrap(),
        PatchPrStatus::Open
    );
    assert_eq!(
        resolve_patch_status(&events, &None, &authorized).unwrap(),
        PatchPrStatus::Open
    );
}

#[test]
fn status_recency_wins_in_any_order() {
    let authorized = keys(&["alice", "bob"]);
    let e1 = status_event("a1", "alice", 100, KIND_STATUS_OPEN);
    let e2 = status_event("b2", "bob", 200, KIND_STATUS_CLOSED);
    let forward = vec![e1, e2];
    assert_eq!(
        resolve_issue_status(&forward, &authorized).unwrap(),
        IssueStatus::Closed
    );
    let e1 = status_event("a1", "alice", 100, KIND_STATUS_OPEN);
    let e2 = status_event("b2", "bob", 200, KIND_STATUS_CLOSED);
    let backward = vec![e2, e1];
    assert_eq!(
        resolve_issue_status(&backward, &authorized).unwrap(),
        IssueStatus::Closed
    );
}

#[test]
fn status_tie_breaks_on_smaller_id() {
    let authorized = keys(&["alice", "bob"]);
    let open = status_event("08ff", "alice", 100, KIND_STATUS_OPEN);
    let closed = status_event("42aa", "bob", 100, KIND_STATUS_CLOSED);
    let events = vec![closed, open];
    // both carry the same timestamp; the lexicographically smaller id wins
    assert_eq!(
        resolve_issue_status(&events, &authorized).unwrap(),
        IssueStatus::Open
    );
}

#[test]
fn unauthorized_signer_never_counts() {
    let authorized = keys(&["alice"]);
    let old_open = status_event("a1", "alice", 100, KIND_STATUS_OPEN);
    let newer_closed = status_event("m1", "mallory", 999, KIND_STATUS_CLOSED);
    let events = vec![old_open, newer_closed];
    assert_eq!(
        resolve_issue_status(&events, &authorized).unwrap(),
        IssueStatus::Open
    );
}

#[test]
fn issue_draft_kind_is_a_decode_error() {
    let authorized = keys(&["alice"]);
    let events = vec![status_event("a1", "alice", 50, KIND_STATUS_DRAFT)];
    match resolve_issue_status(&events, &authorized) {
        Err(N34Error::InvalidIssueStatus(kind)) => assert_eq!(kind, KIND_STATUS_DRAFT),
        other => panic!("expected a decode error, got {:?}", other),
    }
}

#[test]
fn pr_status_decodes_all_kinds() {
    let authorized = keys(&["alice"]);
    for (kind, expected) in [
        (KIND_STATUS_OPEN, PatchPrStatus::Open),
        (KIND_STATUS_APPLIED, PatchPrStatus::MergedApplied),
        (KIND_STATUS_CLOSED, PatchPrStatus::Closed),
        (KIND_STATUS_DRAFT, PatchPrStatus::Draft),
    ] {
        let events = vec![status_event("a1", "alice", 7, kind)];
        assert_eq!(resolve_pr_status(&events, &authorized).unwrap(), expected);
    }
}

#[test]
fn revision_closure_closes_unreferenced_revision() {
    let authorized = keys(&["alice"]);
    // the root was merged, but its status event references no revision
    let merged = status_event("a1", "alice", 300, KIND_STATUS_APPLIED);
    let events = vec![merged];
    let revision = Some("rev9".to_string());
    assert_eq!(
        resolve_patch_status(&events, &revision, &authorized).unwrap(),
        PatchPrStatus::Closed
    );
    // the same query without a revision reports the merge itself
    let merged = status_event("a1", "alice", 300, KIND_STATUS_APPLIED);
    assert_eq!(
        resolve_patch_status(&vec![merged], &None, &authorized).unwrap(),
        PatchPrStatus::MergedApplied
    );
}

#[test]
fn revision_closure_keeps_acknowledged_revision() {
    let authorized = keys(&["alice"]);
    let mut merged = status_event("a1", "alice", 300, KIND_STATUS_APPLIED);
    merged.e_tags.push(EventRef {
        id: "rev9".to_string(),
        marker: Some(Marker::Reply),
    });
    let events = vec![merged];
    let revision = Some("rev9".to_string());
    assert_eq!(
        resolve_patch_status(&events, &revision, &authorized).unwrap(),
        PatchPrStatus::MergedApplied
    );
}

#[test]
fn authorized_signers_union_and_dedup() {
    let owners = keys(&["olivia", "alice"]);
    let maintainers = keys(&["alice", "mark"]);
    let author = Some("zoe".to_string());
    let signers = resolve_authorized_signers(&owners, &maintainers, &author);
    assert_eq!(signers, keys(&["alice", "mark", "zoe", "olivia"]));
}
