use n34::announce::{
    event_into_repo, extract_clones, extract_euc, extract_grasp_servers, extract_maintainers,
    is_grasp, is_grasp_clone, relay_list_entries,
};
use n34::guards::{
    check_apply_patch, check_apply_pr, check_close_issue, check_close_patch, check_draft_pr,
    check_merge_patch, check_reopen_issue, check_reopen_patch, check_resolve_issue,
    check_revision_action,
};
use n34::relays::{add_read_relays, add_write_relays, dedup, extract_role, merge, RelayRole};
use n34::status::{
    KIND_GIT_PATCH, KIND_STATUS_APPLIED, KIND_STATUS_CLOSED, KIND_STATUS_DRAFT, KIND_STATUS_OPEN,
};
use n34::strutil::str_trim;
use n34::{EntityType, IssueStatus, N34Error, PatchPrStatus};

fn strs(list: &[&str]) -> Vec<String> {
    list.iter().map(|s| s.to_string()).collect()
}

#[test]
fn merge_dedups_and_keeps_first_seen_order() {
    let sources = vec![
        strs(&["wss://a", "wss://b"]),
        strs(&["wss://b", "wss://c", "wss://a"]),
        strs(&["wss://d"]),
    ];
    let merged = merge(&sources);
    assert_eq!(merged, strs(&["wss://a", "wss://b", "wss://c", "wss://d"]));
    // the same inputs give the same output
    assert_eq!(merge(&sources), merged);
}

#[test]
fn dedup_keeps_first_occurrence() {
    let deduped = dedup(strs(&["x", "y", "x", "z", "y"]));
    assert_eq!(deduped, strs(&["x", "y", "z"]));
}

#[test]
fn relay_roles_filter_and_default_to_both() {
    let raw = vec![
        strs(&["r", "wss://both"]),
        strs(&["r", "wss://reads", "read"]),
        strs(&["r", "wss://writes", "write"]),
        strs(&["r", "wss://odd", "archive"]),
        strs(&["p", "not-a-relay"]),
    ];
    let entries = relay_list_entries(&raw);
    assert_eq!(entries.len(), 3);
    let reads = extract_role(&entries, RelayRole::Read);
    assert_eq!(reads, strs(&["wss://both", "wss://reads"]));
    let writes = extract_role(&entries, RelayRole::Write);
    assert_eq!(writes, strs(&["wss://both", "wss://writes"]));
    assert_eq!(add_read_relays(Some(&entries)), reads);
    assert_eq!(add_write_relays(Some(&entries)), writes);
    assert!(add_read_relays(None).is_empty());
    assert!(add_write_relays(None).is_empty());
}

#[test]
fn announcement_decoding_reads_each_descriptor() {
    let raw = vec![
        strs(&["d", "my-repo"]),
        strs(&["name", "My repo"]),
        strs(&["description", "A repo"]),
        strs(&["web", "https://example.org"]),
        strs(&["clone", "https://git.example.org/my-repo.git"]),
        strs(&["relays", "wss://a", "wss://b"]),
        strs(&["maintainers", "alice", "bob"]),
        strs(&["r", "f670859b92d525874fd621452080c8479964ac6a", "euc"]),
    ];
    let repo = event_into_repo(&raw, "my-repo".to_string());
    assert_eq!(repo.id, "my-repo");
    assert_eq!(repo.name.as_deref(), Some("My repo"));
    assert_eq!(repo.description.as_deref(), Some("A repo"));
    assert_eq!(
        repo.euc.as_deref(),
        Some("f670859b92d525874fd621452080c8479964ac6a")
    );
    assert_eq!(repo.relays, strs(&["wss://a", "wss://b"]));
    assert_eq!(repo.maintainers, strs(&["alice", "bob"]));
    let empty = event_into_repo(&Vec::new(), "bare".to_string());
    assert!(empty.name.is_none());
    assert!(empty.relays.is_empty());
}

#[test]
fn grasp_clone_recognition() {
    let npub = "npub14f8usejl26twx0dhuxjh9cas7keav9vr0v8nvtwtrjqx3vycc76qqh9nsy";
    let good = format!("https://relay.example/{npub}/repo.git");
    assert!(is_grasp_clone(&good));
    // the owner segment must be a valid encoded key
    let bad_key = "https://relay.example/nobody/repo.git".to_string();
    assert!(!is_grasp_clone(&bad_key));
    // the last segment must end with `.git`
    let bad_ext = format!("https://relay.example/{npub}/repo");
    assert!(!is_grasp_clone(&bad_ext));
    // the clone must be served by one of the relays
    let relays = strs(&["wss://relay.example"]);
    assert!(is_grasp(&relays, &good));
    let other = strs(&["wss://other.example"]);
    assert!(!is_grasp(&other, &good));
}

#[test]
fn patch_guards_name_each_violation() {
    assert!(check_apply_patch(&PatchPrStatus::Open).is_ok());
    for status in [
        PatchPrStatus::MergedApplied,
        PatchPrStatus::Closed,
        PatchPrStatus::Draft,
    ] {
        assert!(matches!(
            check_apply_patch(&status),
            Err(N34Error::InvalidStatus(_))
        ));
        assert!(matches!(
            check_merge_patch(&status),
            Err(N34Error::InvalidStatus(_))
        ));
    }
    match check_apply_patch(&PatchPrStatus::MergedApplied) {
        Err(N34Error::InvalidStatus(m)) => {
            assert_eq!(m, "You can't apply an already applied patch")
        }
        other => panic!("unexpected: {:?}", other),
    }
    match check_merge_patch(&PatchPrStatus::Draft) {
        Err(N34Error::InvalidStatus(m)) => assert_eq!(m, "You can't merge a draft patch"),
        other => panic!("unexpected: {:?}", other),
    }
    assert!(check_close_patch(&PatchPrStatus::Open).is_ok());
    assert!(check_close_patch(&PatchPrStatus::Draft).is_ok());
    assert!(check_close_patch(&PatchPrStatus::Closed).is_err());
    assert!(check_close_patch(&PatchPrStatus::MergedApplied).is_err());
    assert!(check_reopen_patch(&PatchPrStatus::Closed).is_ok());
    assert!(check_reopen_patch(&PatchPrStatus::Open).is_err());
    assert!(check_reopen_patch(&PatchPrStatus::MergedApplied).is_err());
    assert!(check_apply_pr(&PatchPrStatus::Open).is_ok());
    assert!(check_apply_pr(&PatchPrStatus::Draft).is_err());
    assert!(check_draft_pr(&PatchPrStatus::Open).is_ok());
    assert!(check_draft_pr(&PatchPrStatus::Draft).is_err());
}

#[test]
fn issue_guards() {
    assert!(check_close_issue(&IssueStatus::Open).is_ok());
    assert!(check_close_issue(&IssueStatus::Closed).is_err());
    assert!(check_reopen_issue(&IssueStatus::Closed).is_ok());
    assert!(check_reopen_issue(&IssueStatus::Open).is_err());
    assert!(check_resolve_issue(&IssueStatus::Open).is_ok());
    assert!(check_resolve_issue(&IssueStatus::Resolved).is_err());
}

#[test]
fn revision_accepts_only_merge_or_apply() {
    assert!(check_revision_action(true, &PatchPrStatus::MergedApplied).is_ok());
    assert!(check_revision_action(false, &PatchPrStatus::Closed).is_ok());
    assert!(matches!(
        check_revision_action(true, &PatchPrStatus::Closed),
        Err(N34Error::InvalidStatus(_))
    ));
}

#[test]
fn status_kinds_are_bijective() {
    assert_eq!(IssueStatus::Open.kind(), KIND_STATUS_OPEN);
    assert_eq!(IssueStatus::Resolved.kind(), KIND_STATUS_APPLIED);
    assert_eq!(IssueStatus::Closed.kind(), KIND_STATUS_CLOSED);
    for status in [IssueStatus::Open, IssueStatus::Resolved, IssueStatus::Closed] {
        assert_eq!(IssueStatus::try_from(status.kind()).unwrap(), status);
    }
    for status in [
        PatchPrStatus::Open,
        PatchPrStatus::MergedApplied,
        PatchPrStatus::Closed,
        PatchPrStatus::Draft,
    ] {
        assert_eq!(PatchPrStatus::try_from(status.kind()).unwrap(), status);
    }
    assert!(matches!(
        PatchPrStatus::try_from(1),
        Err(N34Error::InvalidPatchStatus(1))
    ));
    assert_eq!(PatchPrStatus::all_kinds(), vec![
        KIND_STATUS_OPEN,
        KIND_STATUS_APPLIED,
        KIND_STATUS_CLOSED,
        KIND_STATUS_DRAFT
    ]);
    assert_eq!(PatchPrStatus::Draft.kind(), KIND_STATUS_DRAFT);
    assert_eq!(PatchPrStatus::MergedApplied.as_str(), "Merged/Applied");
    assert_eq!(IssueStatus::Resolved.as_str(), "Resolved");
}

#[test]
fn status_predicates() {
    assert!(IssueStatus::Open.is_open());
    assert!(IssueStatus::Resolved.is_resolved());
    assert!(IssueStatus::Closed.is_closed());
    assert!(PatchPrStatus::Open.is_open());
    assert!(PatchPrStatus::MergedApplied.is_merged_or_applied());
    assert!(PatchPrStatus::Closed.is_closed());
    assert!(PatchPrStatus::Draft.is_drafted());
    assert!(!PatchPrStatus::Draft.is_open());
}

#[test]
fn entity_types() {
    assert!(EntityType::PullRequest.is_pr());
    assert!(EntityType::Patch.is_patch());
    assert!(EntityType::Issue.is_issue());
    assert!(EntityType::Patch.is_pr_or_patch());
    assert!(!EntityType::Issue.is_pr_or_patch());
    assert_eq!(EntityType::from_u8(0), Some(EntityType::PullRequest));
    assert_eq!(EntityType::from_u8(1), Some(EntityType::Patch));
    assert_eq!(EntityType::from_u8(2), Some(EntityType::Issue));
    assert_eq!(EntityType::from_u8(9), None);
    assert_eq!(EntityType::Patch.kind(), KIND_GIT_PATCH);
}

#[test]
fn trimming_strips_ascii_whitespace() {
    assert_eq!(str_trim("  hello world \t\n".to_string()), "hello world");
    assert_eq!(str_trim("\n\n".to_string()), "");
    assert_eq!(str_trim("solid".to_string()), "solid");
}

#[test]
fn announcement_lists_concatenate_in_order() {
    let npub = "npub14f8usejl26twx0dhuxjh9cas7keav9vr0v8nvtwtrjqx3vycc76qqh9nsy";
    let first = n34::RepoAnnouncement {
        id: "one".to_string(),
        name: None,
        description: None,
        euc: None,
        web: Vec::new(),
        clone: vec![format!("https://relay.example/{npub}/one.git")],
        relays: strs(&["wss://relay.example"]),
        maintainers: strs(&["alice"]),
    };
    let second = n34::RepoAnnouncement {
        id: "two".to_string(),
        name: None,
        description: None,
        euc: Some("f670859b92d525874fd621452080c8479964ac6a".to_string()),
        web: Vec::new(),
        clone: vec!["https://git.example.org/two.git".to_string()],
        relays: strs(&["wss://b"]),
        maintainers: strs(&["bob", "carol"]),
    };
    let servers = extract_grasp_servers(&first);
    assert_eq!(servers, first.clone);
    assert!(extract_grasp_servers(&second).is_empty());
    let repos = vec![first, second];
    assert_eq!(
        n34::announce::extract_relays(&repos),
        strs(&["wss://relay.example", "wss://b"])
    );
    assert_eq!(extract_maintainers(&repos), strs(&["alice", "bob", "carol"]));
    assert_eq!(extract_clones(&repos).len(), 2);
    assert_eq!(
        extract_euc(&repos).as_deref(),
        Some("f670859b92d525874fd621452080c8479964ac6a")
    );
}
