//! Classification of fetched events: root kinds, patch roots and
//! revisions, and the stepwise discovery of a reply chain's root.

use vstd::prelude::*;

use crate::error::N34Error;
use crate::status::{
    KIND_COMMENT, KIND_GIT_ISSUE, KIND_GIT_PATCH, KIND_GIT_PR, KIND_GIT_PR_UPDATE,
};
use crate::tags::{Marker, Tag};

verus! {

/// Builds a string equal to the given literal.
fn new_string(s: &str) -> (r: String)
    ensures
        r@ == s@,
{
    s.to_owned()
}

/// An event as fetched from the relays: the fields the library reads.
#[derive(Debug, Clone)]
pub struct EventData {
    /// The event id, in hex.
    pub id: String,
    /// The author public key, in hex.
    pub pubkey: String,
    /// The creation timestamp.
    pub created_at: u64,
    /// The wire kind.
    pub kind: u16,
    /// The event's tags.
    pub tags: Vec<Tag>,
    /// The event's content.
    pub content: String,
}

/// Whether the kind starts a thread: an issue, a patch, a pull request or
/// a pull-request update.
pub open spec fn spec_is_root_kind(kind: u16) -> bool {
    kind == KIND_GIT_ISSUE || kind == KIND_GIT_PATCH || kind == KIND_GIT_PR || kind
        == KIND_GIT_PR_UPDATE
}

/// Checks if the kind is a root kind.
pub fn is_root_kind(kind: u16) -> (r: bool)
    ensures
        r == spec_is_root_kind(kind),
{
    kind == KIND_GIT_ISSUE || kind == KIND_GIT_PATCH || kind == KIND_GIT_PR || kind
        == KIND_GIT_PR_UPDATE
}

/// Returns true if this kind supports replies: comments and root kinds.
pub fn can_reply_to(kind: u16) -> (r: bool)
    ensures
        r == (kind == KIND_COMMENT || spec_is_root_kind(kind)),
{
    kind == KIND_COMMENT || is_root_kind(kind)
}

/// Whether the tags hold a hashtag with the given value.
pub open spec fn has_hashtag(tags: Seq<Tag>, v: Seq<char>) -> bool {
    exists|i: int|
        0 <= i < tags.len() && ((#[trigger] tags[i]) matches Tag::Hashtag { tag } && tag@ == v)
}

/// Returns whether the tags hold a hashtag with the given value.
fn tags_have_hashtag(tags: &Vec<Tag>, v: &String) -> (r: bool)
    ensures
        r == has_hashtag(tags@, v@),
{
    let mut i: usize = 0;
    while i < tags.len()
        invariant
            0 <= i <= tags@.len(),
            forall|j: int|
                0 <= j < i ==> !((#[trigger] tags@[j]) matches Tag::Hashtag { tag } && tag@
                    == v@),
        decreases tags.len() - i,
    {
        match &tags[i] {
            Tag::Hashtag { tag } => {
                if *tag == *v {
                    proof {
                        assert((tags@[i as int] matches Tag::Hashtag { tag: t0 } && t0@ == v@));
                    }
                    return true;
                }
            },
            _ => {},
        }
        proof {
            assert(!((tags@[i as int]) matches Tag::Hashtag { tag: t0 } && t0@ == v@));
        }
        i = i + 1;
    }
    false
}

/// Whether the patch event is a root patch: a patch kind carrying the
/// `root` hashtag.
pub open spec fn spec_is_root_patch(e: EventData) -> bool {
    e.kind == KIND_GIT_PATCH && has_hashtag(e.tags@, "root"@)
}

/// Returns whether the patch is a root patch.
pub fn is_root_patch(e: &EventData) -> (r: bool)
    ensures
        r == spec_is_root_patch(*e),
{
    let root = new_string("root");
    e.kind == KIND_GIT_PATCH && tags_have_hashtag(&e.tags, &root)
}

/// Whether the patch event is a revision of a root patch: a patch kind
/// carrying the `root-revision` hashtag or its legacy `revision-root`
/// alias.
pub open spec fn spec_is_revision_patch(e: EventData) -> bool {
    e.kind == KIND_GIT_PATCH && (has_hashtag(e.tags@, "root-revision"@) || has_hashtag(
        e.tags@,
        "revision-root"@,
    ))
}

/// Returns whether the patch is a revision patch.  The legacy hashtag
/// spelling is accepted as an alias of the current one.
pub fn is_revision_patch(e: &EventData) -> (r: bool)
    ensures
        r == spec_is_revision_patch(*e),
{
    let current = new_string("root-revision");
    let legacy = new_string("revision-root");
    e.kind == KIND_GIT_PATCH && (tags_have_hashtag(&e.tags, &current) || tags_have_hashtag(
        &e.tags,
        &legacy,
    ))
}

/// The id referenced by the first reply-marked event tag, or nothing.
pub open spec fn first_reply_ref(tags: Seq<Tag>) -> Option<String>
    decreases tags.len(),
{
    if tags.len() == 0 {
        None
    } else {
        match tags[0] {
            Tag::Event { id, marker: Some(Marker::Reply), .. } => Some(id),
            _ => first_reply_ref(tags.drop_first()),
        }
    }
}

/// Gets the root patch id from a patch-revision event: the id of the
/// first reply-marked event reference.  A revision without one is a
/// malformed event, reported with its id.
pub fn root_patch_from_revision(e: &EventData) -> (r: Result<String, N34Error>)
    ensures
        first_reply_ref(e.tags@) matches Some(id) ==> (r matches Ok(rid) && rid@ == id@),
        first_reply_ref(e.tags@) is None ==> (r matches Err(x) && x matches N34Error::InvalidEvent(
            m,
        ) && m@ == e.id@),
{
    let mut i: usize = 0;
    proof {
        assert(e.tags@.skip(0) =~= e.tags@);
    }
    while i < e.tags.len()
        invariant
            0 <= i <= e.tags@.len(),
            first_reply_ref(e.tags@) == first_reply_ref(e.tags@.skip(i as int)),
        decreases e.tags.len() - i,
    {
        proof {
            assert(e.tags@.skip(i as int)[0] == e.tags@[i as int]);
            assert(e.tags@.skip(i as int).drop_first() =~= e.tags@.skip(i + 1));
        }
        match &e.tags[i] {
            Tag::Event { id, marker: Some(Marker::Reply), .. } => {
                proof {
                    let rest = e.tags@.skip(i as int);
                    assert(rest[0] matches Tag::Event { marker: Some(Marker::Reply), .. });
                    assert(first_reply_ref(rest) matches Some(x) && x == *id);
                }
                return Ok(id.clone());
            },
            _ => {},
        }
        i = i + 1;
    }
    Err(N34Error::InvalidEvent(e.id.clone()))
}

/// Returns the root id and, for a revision, the revision's own id.  A
/// patch that is neither a root nor a revision is rejected.
pub fn get_patch_root_revision(e: &EventData) -> (r: Result<(String, Option<String>), N34Error>)
    ensures
        spec_is_revision_patch(*e) ==> (first_reply_ref(e.tags@) matches Some(root) ==> (r
            matches Ok(p) && p.0@ == root@ && (p.1 matches Some(own) && own@ == e.id@))),
        spec_is_revision_patch(*e) && first_reply_ref(e.tags@) is None ==> r is Err,
        !spec_is_revision_patch(*e) && spec_is_root_patch(*e) ==> (r matches Ok(p) && p.0@
            == e.id@ && p.1 is None),
        !spec_is_revision_patch(*e) && !spec_is_root_patch(*e) ==> r == Result::<
            (String, Option<String>),
            N34Error,
        >::Err(N34Error::NotRootPatch),
{
    if is_revision_patch(e) {
        match root_patch_from_revision(e) {
            Ok(root) => Ok((root, Some(e.id.clone()))),
            Err(err) => Err(err),
        }
    } else if is_root_patch(e) {
        Ok((e.id.clone(), None))
    } else {
        Err(N34Error::NotRootPatch)
    }
}

/// Whether the tags hold a root-marked reference to the given id.
pub open spec fn references_root_spec(tags: Seq<Tag>, root: Seq<char>) -> bool {
    exists|i: int|
        0 <= i < tags.len() && ((#[trigger] tags[i]) matches Tag::Event {
            id,
            marker: Some(Marker::Root),
            ..
        } && id@ == root)
}

/// Returns whether the event carries a root-marked reference to the given
/// root patch id.
pub fn references_root(e: &EventData, root_id: &String) -> (r: bool)
    ensures
        r == references_root_spec(e.tags@, root_id@),
{
    let mut i: usize = 0;
    while i < e.tags.len()
        invariant
            0 <= i <= e.tags@.len(),
            forall|j: int|
                0 <= j < i ==> !((#[trigger] e.tags@[j]) matches Tag::Event {
                    id,
                    marker: Some(Marker::Root),
                    ..
                } && id@ == root_id@),
        decreases e.tags.len() - i,
    {
        match &e.tags[i] {
            Tag::Event { id, marker: Some(Marker::Root), .. } => {
                if *id == *root_id {
                    proof {
                        assert((e.tags@[i as int] matches Tag::Event {
                            id: i0,
                            marker: Some(Marker::Root),
                            ..
                        } && i0@ == root_id@));
                    }
                    return true;
                }
            },
            _ => {},
        }
        proof {
            assert(!((e.tags@[i as int]) matches Tag::Event {
                id: i0,
                marker: Some(Marker::Root),
                ..
            } && i0@ == root_id@));
        }
        i = i + 1;
    }
    false
}

/// The patches of a series: the fetched events that carry a root-marked
/// reference to the root patch id, in order.
pub open spec fn series_filter(events: Seq<EventData>, root: Seq<char>) -> Seq<EventData>
    decreases events.len(),
{
    if events.len() == 0 {
        Seq::empty()
    } else {
        let prefix = series_filter(events.drop_last(), root);
        if references_root_spec(events.last().tags@, root) {
            prefix.push(events.last())
        } else {
            prefix
        }
    }
}

/// Keeps the fetched patches that belong to the series rooted at
/// `root_id`.
pub fn filter_patch_series(events: Vec<EventData>, root_id: &String) -> (r: Vec<EventData>)
    ensures
        r@ == series_filter(events@, root_id@),
{
    let ghost full = events@;
    let mut rest = events;
    let mut out: Vec<EventData> = Vec::new();
    proof {
        assert(full.skip(0) =~= full);
        assert(full.take(0) =~= Seq::<EventData>::empty());
    }
    while rest.len() > 0
        invariant
            rest@.len() <= full.len(),
            rest@ =~= full.skip(full.len() - rest@.len()),
            out@ == series_filter(full.take(full.len() - rest@.len()), root_id@),
        decreases rest.len(),
    {
        let ghost n = full.len() - rest@.len();
        let e = rest.remove(0);
        proof {
            assert(e == full[n as int]);
            assert(rest@ =~= full.skip(n + 1));
            assert(full.take(n + 1).drop_last() =~= full.take(n as int));
            assert(full.take(n + 1).last() == e);
        }
        if references_root(&e, root_id) {
            out.push(e);
        }
    }
    proof {
        assert(full.take(full.len() as int) =~= full);
    }
    out
}

/// One step of root discovery for a reply chain.
#[derive(Debug)]
pub enum RootStep {
    /// The event itself is a root.
    Found,
    /// Fetch this id: it claims to be the thread root.  A fetched event
    /// that is not of a root kind must be rejected.
    FetchRoot { id: String, relay: Option<String> },
    /// Fetch this id and continue the search from the fetched parent.
    FetchParent { id: String, relay: Option<String> },
    /// No further references: the chain has no root.
    Abandon,
}

/// Decides the next step of root discovery from the current event's kind
/// and its root/parent comment references.  The caller drives the loop
/// with a bounded hop count, fetching what the step names.
pub fn find_root_step(
    kind: u16,
    root_ref: Option<(String, Option<String>)>,
    parent_ref: Option<(String, Option<String>)>,
) -> (r: RootStep)
    ensures
        spec_is_root_kind(kind) ==> r == RootStep::Found,
        !spec_is_root_kind(kind) ==> (root_ref matches Some(rr) ==> r == (RootStep::FetchRoot {
            id: rr.0,
            relay: rr.1,
        })),
        !spec_is_root_kind(kind) && root_ref is None ==> (parent_ref matches Some(pr) ==> r == (
        RootStep::FetchParent { id: pr.0, relay: pr.1 })),
        !spec_is_root_kind(kind) && root_ref is None && parent_ref is None ==> r
            == RootStep::Abandon,
{
    if is_root_kind(kind) {
        return RootStep::Found;
    }
    match root_ref {
        Some((id, relay)) => RootStep::FetchRoot { id, relay },
        None => {
            match parent_ref {
                Some((id, relay)) => RootStep::FetchParent { id, relay },
                None => RootStep::Abandon,
            }
        },
    }
}

/// Entry check of root discovery: only comments and root kinds can be
/// replied to.
pub fn check_can_reply(kind: u16) -> (r: Result<(), N34Error>)
    ensures
        r is Ok <==> (kind == KIND_COMMENT || spec_is_root_kind(kind)),
        r is Err ==> r == Result::<(), N34Error>::Err(N34Error::CanNotReplyToEvent),
{
    if can_reply_to(kind) {
        Ok(())
    } else {
        Err(N34Error::CanNotReplyToEvent)
    }
}

} // verus!
