use n34::events::{
    can_reply_to, filter_patch_series, find_root_step, get_patch_root_revision, is_revision_patch,
    is_root_kind, is_root_patch, root_patch_from_revision, RootStep,
};
use n34::sets::{
    check_empty_naddrs, dedup_naddrs, extract_owners, extract_relays, find_set, flat_naddrs,
    flat_relays, get_set, into_coordinates, into_event_ids, push_set, remove_set, set_exists,
    Naddr, NaddrOrSet, NostrEvent, RelayOrSet, RepoRelaySet,
};
use n34::status::{
    KIND_COMMENT, KIND_GIT_ISSUE, KIND_GIT_PATCH, KIND_GIT_PR, KIND_GIT_PR_UPDATE,
    KIND_REPO_ANNOUNCEMENT,
};
use n34::{Coordinate, EventData, Marker, N34Error, Tag};

fn strs(list: &[&str]) -> Vec<String> {
    list.iter().map(|s| s.to_string()).collect()
}

fn patch_event(id: &str, tags: Vec<Tag>) -> EventData {
    EventData {
        id: id.to_string(),
        pubkey: "alice".to_string(),
        created_at: 1,
        kind: KIND_GIT_PATCH,
        tags,
        content: String::new(),
    }
}

fn hashtag(v: &str) -> Tag {
    Tag::Hashtag { tag: v.to_string() }
}

fn reply_ref(id: &str) -> Tag {
    Tag::Event {
        id: id.to_string(),
        relay: None,
        marker: Some(Marker::Reply),
    }
}

fn root_ref(id: &str) -> Tag {
    Tag::Event {
        id: id.to_string(),
        relay: None,
        marker: Some(Marker::Root),
    }
}

#[test]
fn root_and_revision_patches() {
    let root = patch_event("r1", vec![hashtag("root")]);
    assert!(is_root_patch(&root));
    assert!(!is_revision_patch(&root));

    let revision = patch_event("v2", vec![hashtag("root-revision"), reply_ref("r1")]);
    assert!(is_revision_patch(&revision));
    assert!(!is_root_patch(&revision));

    // the legacy hashtag spelling is accepted as an alias
    let legacy = patch_event("v3", vec![hashtag("revision-root"), reply_ref("r1")]);
    assert!(is_revision_patch(&legacy));

    assert_eq!(root_patch_from_revision(&revision).unwrap(), "r1");
    let (rid, own) = get_patch_root_revision(&revision).unwrap();
    assert_eq!(rid, "r1");
    assert_eq!(own.as_deref(), Some("v2"));
    let (rid, own) = get_patch_root_revision(&root).unwrap();
    assert_eq!(rid, "r1");
    assert!(own.is_none());

    let plain = patch_event("p1", Vec::new());
    assert!(matches!(
        get_patch_root_revision(&plain),
        Err(N34Error::NotRootPatch)
    ));
    let broken = patch_event("v4", vec![hashtag("root-revision")]);
    assert!(matches!(
        root_patch_from_revision(&broken),
        Err(N34Error::InvalidEvent(m)) if m == "v4"
    ));
}

#[test]
fn series_keeps_only_patches_replying_to_root() {
    let in_series = patch_event("s1", vec![root_ref("r1")]);
    let stranger = patch_event("s2", vec![root_ref("other")]);
    let unmarked = patch_event("s3", Vec::new());
    let kept = filter_patch_series(vec![in_series, stranger, unmarked], &"r1".to_string());
    assert_eq!(kept.len(), 1);
    assert_eq!(kept[0].id, "s1");
}

#[test]
fn root_discovery_steps() {
    assert!(is_root_kind(KIND_GIT_ISSUE));
    assert!(is_root_kind(KIND_GIT_PATCH));
    assert!(is_root_kind(KIND_GIT_PR));
    assert!(is_root_kind(KIND_GIT_PR_UPDATE));
    assert!(!is_root_kind(KIND_COMMENT));
    assert!(can_reply_to(KIND_COMMENT));
    assert!(!can_reply_to(5));

    assert!(matches!(
        find_root_step(KIND_GIT_ISSUE, None, None),
        RootStep::Found
    ));
    assert!(matches!(
        find_root_step(KIND_COMMENT, Some(("r1".to_string(), None)), None),
        RootStep::FetchRoot { id, .. } if id == "r1"
    ));
    assert!(matches!(
        find_root_step(KIND_COMMENT, None, Some(("p1".to_string(), None))),
        RootStep::FetchParent { id, .. } if id == "p1"
    ));
    assert!(matches!(
        find_root_step(KIND_COMMENT, None, None),
        RootStep::Abandon
    ));
}

fn naddr(owner: &str, ident: &str, relays: &[&str]) -> Naddr {
    Naddr {
        coordinate: Coordinate {
            kind: KIND_REPO_ANNOUNCEMENT,
            public_key: owner.to_string(),
            identifier: ident.to_string(),
        },
        relays: strs(relays),
    }
}

#[test]
fn sets_resolution_and_errors() {
    let sets = vec![
        RepoRelaySet::new(
            "kernel".to_string(),
            vec![naddr("alice", "kernel", &["wss://a"])],
            strs(&["wss://a", "wss://b"]),
        ),
        RepoRelaySet::new("empty".to_string(), Vec::new(), Vec::new()),
    ];
    assert!(set_exists(&sets, &"kernel".to_string()));
    assert!(!set_exists(&sets, &"missing".to_string()));
    assert_eq!(find_set(&sets, &"empty".to_string()), Some(1));
    assert!(get_set(&sets, &"kernel".to_string()).is_ok());
    assert!(matches!(
        get_set(&sets, &"missing".to_string()),
        Err(N34Error::SetNotFound(m)) if m == "missing"
    ));

    let resolved = flat_naddrs(
        vec![
            NaddrOrSet::Naddr(naddr("bob", "tools", &[])),
            NaddrOrSet::SetName("kernel".to_string()),
        ],
        &sets,
    )
    .unwrap();
    assert_eq!(resolved.len(), 2);
    assert_eq!(resolved[1].coordinate.identifier, "kernel");

    assert!(matches!(
        flat_naddrs(vec![NaddrOrSet::SetName("missing".to_string())], &sets),
        Err(N34Error::InvalidNaddrArg(m)) if m == "missing"
    ));
    assert!(matches!(
        flat_naddrs(vec![NaddrOrSet::SetName("empty".to_string())], &sets),
        Err(N34Error::EmptySetNaddrs(m)) if m == "empty"
    ));

    let relays = flat_relays(
        vec![
            RelayOrSet::Relay("wss://z".to_string()),
            RelayOrSet::SetName("kernel".to_string()),
        ],
        &sets,
    )
    .unwrap();
    assert_eq!(relays, strs(&["wss://z", "wss://a", "wss://b"]));
    assert!(matches!(
        flat_relays(vec![RelayOrSet::SetName("empty".to_string())], &sets),
        Err(N34Error::EmptySetRelays(m)) if m == "empty"
    ));
    assert!(matches!(
        flat_relays(vec![RelayOrSet::SetName("missing".to_string())], &sets),
        Err(N34Error::InvalidRelaysArg(m)) if m == "missing"
    ));
}

#[test]
fn set_management() {
    let mut sets = vec![RepoRelaySet::new(
        "one".to_string(),
        Vec::new(),
        strs(&["wss://a"]),
    )];
    assert!(push_set(
        &mut sets,
        RepoRelaySet::new("two".to_string(), Vec::new(), Vec::new())
    )
    .is_ok());
    assert!(matches!(
        push_set(
            &mut sets,
            RepoRelaySet::new("one".to_string(), Vec::new(), Vec::new())
        ),
        Err(N34Error::SetDuplicateName(m)) if m == "one"
    ));
    let sets = remove_set(sets, &"one".to_string()).unwrap();
    assert_eq!(sets.len(), 1);
    assert_eq!(sets[0].name, "two");
    assert!(matches!(
        remove_set(Vec::new(), &"one".to_string()),
        Err(N34Error::SetNotFound(_))
    ));
}

#[test]
fn naddr_dedup_ignores_relay_hints() {
    let set = RepoRelaySet::new(
        "dup".to_string(),
        vec![
            naddr("alice", "repo", &["wss://a"]),
            naddr("alice", "repo", &["wss://b"]),
            naddr("bob", "repo", &[]),
        ],
        Vec::new(),
    );
    let deduped = set.dedup_naddrs();
    assert_eq!(deduped.naddrs.len(), 2);
    assert_eq!(deduped.naddrs[0].relays, strs(&["wss://a"]));
    let all = dedup_naddrs(vec![deduped]);
    assert_eq!(all[0].naddrs.len(), 2);
}

#[test]
fn naddr_helpers() {
    let naddrs = vec![
        naddr("alice", "one", &["wss://a"]),
        naddr("bob", "two", &["wss://b", "wss://c"]),
    ];
    assert_eq!(extract_owners(&naddrs), strs(&["alice", "bob"]));
    assert_eq!(
        extract_relays(&naddrs),
        strs(&["wss://a", "wss://b", "wss://c"])
    );
    assert!(matches!(
        check_empty_naddrs(Vec::new()),
        Err(N34Error::EmptyNaddrs)
    ));
    let kept = check_empty_naddrs(naddrs).unwrap();
    let coords = into_coordinates(kept);
    assert_eq!(coords.len(), 2);
    assert_eq!(coords[1].identifier, "two");

    let ids = into_event_ids(vec![
        NostrEvent::new("e1".to_string(), Vec::new()),
        NostrEvent::new("e2".to_string(), strs(&["wss://a"])),
    ]);
    assert_eq!(ids, strs(&["e1", "e2"]));
}

#[test]
fn replying_to_unknown_kinds_is_rejected() {
    assert!(matches!(
        n34::events::check_can_reply(5),
        Err(N34Error::CanNotReplyToEvent)
    ));
    assert!(n34::events::check_can_reply(KIND_COMMENT).is_ok());
    assert!(n34::events::check_can_reply(KIND_GIT_PATCH).is_ok());
}
