use n34::builder::{
    event_reply_tag, issue_status_tags, merge_commit_tags, merged_extra_tags, new_git_issue,
    new_git_repo, patch_pr_status_tags, patches_quote_tags, refs_tags, trim_all,
};
use n34::tags::{dedup_tags, Coordinate, Marker, Tag};
use n34::status::KIND_REPO_ANNOUNCEMENT;
use n34::{ContentDetails, MergeCommits, N34Error, PatchPrStatus};

fn coord(owner: &str, ident: &str) -> Coordinate {
    Coordinate {
        kind: KIND_REPO_ANNOUNCEMENT,
        public_key: owner.to_string(),
        identifier: ident.to_string(),
    }
}

fn count_mentions(tags: &[Tag], key: &str) -> usize {
    tags.iter()
        .filter(|t| matches!(t, Tag::PublicKey { key: k } if k == key))
        .count()
}

#[test]
fn tag_dedup_keeps_one_mention_per_key() {
    // the same key arrives as a maintainer, an owner and a content mention
    let content = ContentDetails::new(
        vec!["alice".to_string()],
        Vec::new(),
        Vec::new(),
        Vec::new(),
    );
    let mut tags = issue_status_tags(
        &"issue7".to_string(),
        &None,
        &"alice".to_string(),
        &vec!["alice".to_string(), "mark".to_string()],
        &vec!["alice".to_string()],
        &vec![coord("alice", "repo")],
    );
    let mut content_tags = content.into_tags();
    tags.append(&mut content_tags);
    let deduped = dedup_tags(tags);
    assert_eq!(count_mentions(&deduped, "alice"), 1);
    assert_eq!(count_mentions(&deduped, "mark"), 1);
}

#[test]
fn dedup_tags_is_idempotent() {
    let tags = vec![
        Tag::PublicKey { key: "alice".to_string() },
        Tag::PublicKey { key: "alice".to_string() },
        Tag::Hashtag { tag: "bug".to_string() },
        Tag::Hashtag { tag: "bug".to_string() },
    ];
    let once = dedup_tags(tags);
    assert_eq!(once.len(), 2);
    let twice = dedup_tags(once);
    assert_eq!(twice.len(), 2);
}

#[test]
fn status_tags_reference_root_and_everyone() {
    let tags = patch_pr_status_tags(
        &"root1".to_string(),
        &Some("wss://r.example".to_string()),
        &vec!["alice".to_string(), "bob".to_string()],
        &vec![coord("alice", "repo")],
        Vec::new(),
    );
    assert!(matches!(
        &tags[0],
        Tag::Event { id, marker: Some(Marker::Root), .. } if id == "root1"
    ));
    assert_eq!(count_mentions(&tags, "alice"), 1);
    assert_eq!(count_mentions(&tags, "bob"), 1);
    assert!(tags.iter().any(|t| matches!(
        t,
        Tag::Coordinate { identifier, .. } if identifier == "repo"
    )));
}

#[test]
fn merged_transition_records_commits_and_revision() {
    let commit_tags = merge_commit_tags(&MergeCommits::Merge("deadbeef".to_string()));
    assert_eq!(commit_tags.len(), 2);
    assert!(matches!(
        &commit_tags[0],
        Tag::Custom { name, values } if name == "merge-commit" && values == &vec!["deadbeef".to_string()]
    ));
    assert!(matches!(
        &commit_tags[1],
        Tag::Reference { value } if value == "deadbeef"
    ));

    let quotes = patches_quote_tags(
        &vec!["p1".to_string()],
        &None,
        &vec![Some("alice".to_string())],
    );
    let extra = merged_extra_tags(
        &PatchPrStatus::MergedApplied,
        commit_tags,
        &Some("rev9".to_string()),
        &None,
        quotes,
    );
    // commit tags, then the revision reply, then the quote
    assert_eq!(extra.len(), 4);
    assert!(matches!(
        &extra[2],
        Tag::Event { id, marker: Some(Marker::Reply), .. } if id == "rev9"
    ));
    assert!(matches!(
        &extra[3],
        Tag::Quote { id, author: Some(a), .. } if id == "p1" && a == "alice"
    ));

    // any other transition carries nothing extra
    let none = merged_extra_tags(
        &PatchPrStatus::Closed,
        merge_commit_tags(&MergeCommits::Merge("deadbeef".to_string())),
        &Some("rev9".to_string()),
        &None,
        Vec::new(),
    );
    assert!(none.is_empty());
}

#[test]
fn applied_commits_are_each_referenced() {
    let commits = MergeCommits::Applied(vec!["c1".to_string(), "c2".to_string()]);
    let tags = merge_commit_tags(&commits);
    assert_eq!(tags.len(), 3);
    assert!(matches!(
        &tags[0],
        Tag::Custom { name, values } if name == "applied-as-commits" && values.len() == 2
    ));
    assert!(matches!(&tags[1], Tag::Reference { value } if value == "c1"));
    assert!(matches!(&tags[2], Tag::Reference { value } if value == "c2"));
}

#[test]
fn issue_needs_a_coordinate() {
    let r = new_git_issue(&Vec::new(), &None, Vec::new(), &None, Vec::new());
    assert!(matches!(r, Err(N34Error::EmptyNaddrs)));
}

#[test]
fn issue_tags_address_every_repository() {
    let coords = vec![coord("alice", "one"), coord("bob", "two")];
    let labels = trim_all(vec![" bug ".to_string()]);
    let tags = new_git_issue(
        &coords,
        &Some("subject line".to_string()),
        labels,
        &None,
        Vec::new(),
    )
    .unwrap();
    assert!(matches!(
        &tags[0],
        Tag::Coordinate { identifier, .. } if identifier == "one"
    ));
    assert!(tags.iter().any(|t| matches!(
        t,
        Tag::Coordinate { identifier, .. } if identifier == "two"
    )));
    assert!(tags
        .iter()
        .any(|t| matches!(t, Tag::Hashtag { tag } if tag == "bug")));
    assert!(tags
        .iter()
        .any(|t| matches!(t, Tag::Subject { value } if value == "subject line")));
    assert_eq!(count_mentions(&tags, "alice"), 1);
    assert_eq!(count_mentions(&tags, "bob"), 1);
}

#[test]
fn repo_id_must_be_kebab_case() {
    let r = new_git_repo(
        &"My Repo".to_string(),
        &None,
        &None,
        &Vec::new(),
        &Vec::new(),
        &Vec::new(),
        &Vec::new(),
        Vec::new(),
        false,
    );
    assert!(matches!(r, Err(N34Error::InvalidRepoId)));

    let r = new_git_repo(
        &"  ".to_string(),
        &None,
        &None,
        &Vec::new(),
        &Vec::new(),
        &Vec::new(),
        &Vec::new(),
        Vec::new(),
        true,
    );
    assert!(matches!(r, Err(N34Error::InvalidRepoId)));

    let (id, tags) = new_git_repo(
        &" my-repo ".to_string(),
        &Some("My repo".to_string()),
        &None,
        &Vec::new(),
        &Vec::new(),
        &vec!["wss://r.example".to_string()],
        &vec!["alice".to_string()],
        vec!["rust".to_string()],
        false,
    )
    .unwrap();
    assert_eq!(id, "my-repo");
    assert!(matches!(&tags[0], Tag::Identifier { value } if value == "my-repo"));
    assert!(matches!(
        &tags[1],
        Tag::Custom { name, values } if name == "name" && values == &vec!["My repo".to_string()]
    ));
    assert!(tags.iter().any(|t| matches!(
        t,
        Tag::Custom { name, values } if name == "relays" && values == &vec!["wss://r.example".to_string()]
    )));
    assert!(tags
        .iter()
        .any(|t| matches!(t, Tag::Hashtag { tag } if tag == "rust")));

    // a non-kebab id is accepted when forced
    let r = new_git_repo(
        &"My Repo".to_string(),
        &None,
        &None,
        &Vec::new(),
        &Vec::new(),
        &Vec::new(),
        &Vec::new(),
        Vec::new(),
        true,
    );
    assert!(r.is_ok());
}

#[test]
fn reply_tag_carries_marker_and_hint() {
    let t = event_reply_tag(
        &"ev1".to_string(),
        &Some("wss://r.example".to_string()),
        Marker::Root,
    );
    assert!(matches!(
        t,
        Tag::Event { id, relay: Some(r), marker: Some(Marker::Root) } if id == "ev1" && r == "wss://r.example"
    ));
}

#[test]
fn refs_tags_name_branches_and_tags() {
    let refs = vec![("main".to_string(), "abc123".to_string())];
    let branch_tags = refs_tags(&refs, true);
    assert!(matches!(
        &branch_tags[0],
        Tag::Custom { name, values } if name == "refs/heads/main" && values == &vec!["abc123".to_string()]
    ));
    let tag_tags = refs_tags(&refs, false);
    assert!(matches!(
        &tag_tags[0],
        Tag::Custom { name, .. } if name == "refs/tags/main"
    ));
}
