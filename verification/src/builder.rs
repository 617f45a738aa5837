//! The event construction layer.
//!
//! Outgoing events carry addressing tags for every target repository,
//! mention tags for everyone entitled to evaluate them, and content-derived
//! tags; assembled lists are deduplicated so that overlapping sources never
//! double-tag.

use convert_case::{Case, Casing};
use vstd::prelude::*;
use vstd::string::StringExecFns;

use crate::error::N34Error;
use crate::strutil::trim_spec;
use crate::patch::GitPatch;
use crate::status::PatchPrStatus;
use crate::tags::{dedup_tags, dedup_tags_spec, Coordinate, Marker, Tag};

verus! {

/// The commits recorded on a merged/applied status event: either one merge
/// commit or the list of applied commits.
#[derive(Debug, Clone)]
pub enum MergeCommits {
    /// The merge commit hash, in hex.
    Merge(String),
    /// The applied commit hashes, in hex.
    Applied(Vec<String>),
}

/// Mention tags for a list of public keys, in order.
pub open spec fn p_tags(keys: Seq<String>) -> Seq<Tag> {
    keys.map_values(|k: String| Tag::PublicKey { key: k })
}

/// Addressing tags for a list of coordinates, all with the same relay hint.
pub open spec fn coord_tags(coords: Seq<Coordinate>, relay: Option<String>) -> Seq<Tag> {
    coords.map_values(
        |c: Coordinate|
            Tag::Coordinate {
                kind: c.kind,
                public_key: c.public_key,
                identifier: c.identifier,
                relay: relay,
            },
    )
}

/// Clones a string option.
fn clone_opt(o: &Option<String>) -> (r: Option<String>)
    ensures
        r == *o,
{
    match o {
        Some(s) => Some(s.clone()),
        None => None,
    }
}

/// Appends all tags of `src` to `dst`, in order.
fn append_tags(dst: &mut Vec<Tag>, src: Vec<Tag>)
    ensures
        final(dst)@ == old(dst)@ + src@,
{
    let ghost base = dst@;
    let ghost full = src@;
    let mut rest = src;
    while rest.len() > 0
        invariant
            rest@.len() <= full.len(),
            rest@ =~= full.skip(full.len() - rest@.len()),
            dst@ =~= base + full.take(full.len() - rest@.len()),
        decreases rest.len(),
    {
        let ghost n = full.len() - rest@.len();
        let t = rest.remove(0);
        proof {
            assert(t == full[n as int]);
            assert(rest@ =~= full.skip(n + 1));
        }
        dst.push(t);
        proof {
            assert(full.take(n + 1) =~= full.take(n as int).push(t));
            assert(dst@ =~= base + full.take(n + 1));
        }
    }
    proof {
        assert(full.take(full.len() as int) =~= full);
    }
}

/// Pushes a mention tag for every key.
fn push_p_tags(dst: &mut Vec<Tag>, keys: &Vec<String>)
    ensures
        final(dst)@ == old(dst)@ + p_tags(keys@),
{
    let ghost base = dst@;
    let mut i: usize = 0;
    proof {
        assert(keys@.take(0).map_values(|k: String| Tag::PublicKey { key: k }) =~= Seq::<
            Tag,
        >::empty());
    }
    while i < keys.len()
        invariant
            0 <= i <= keys@.len(),
            dst@ =~= base + p_tags(keys@.take(i as int)),
        decreases keys.len() - i,
    {
        dst.push(Tag::PublicKey { key: keys[i].clone() });
        proof {
            assert(keys@.take(i + 1).map_values(|k: String| Tag::PublicKey { key: k })
                =~= keys@.take(i as int).map_values(|k: String| Tag::PublicKey { key: k }).push(
                Tag::PublicKey { key: keys@[i as int] },
            ));
            assert(dst@ =~= base + p_tags(keys@.take(i + 1)));
        }
        i = i + 1;
    }
    proof {
        assert(keys@.take(keys@.len() as int) =~= keys@);
    }
}

/// Pushes an addressing tag for every coordinate, with the given hint.
fn push_coord_tags(dst: &mut Vec<Tag>, coords: &Vec<Coordinate>, relay: &Option<String>)
    ensures
        final(dst)@ == old(dst)@ + coord_tags(coords@, *relay),
{
    let ghost base = dst@;
    let ghost f = |c: Coordinate|
        Tag::Coordinate {
            kind: c.kind,
            public_key: c.public_key,
            identifier: c.identifier,
            relay: *relay,
        };
    let mut i: usize = 0;
    proof {
        assert(coords@.take(0).map_values(f) =~= Seq::<Tag>::empty());
    }
    while i < coords.len()
        invariant
            0 <= i <= coords@.len(),
            dst@ =~= base + coords@.take(i as int).map_values(f),
            f == (|c: Coordinate|
                Tag::Coordinate {
                    kind: c.kind,
                    public_key: c.public_key,
                    identifier: c.identifier,
                    relay: *relay,
                }),
        decreases coords.len() - i,
    {
        let c = &coords[i];
        dst.push(
            Tag::Coordinate {
                kind: c.kind,
                public_key: c.public_key.clone(),
                identifier: c.identifier.clone(),
                relay: clone_opt(relay),
            },
        );
        proof {
            assert(coords@.take(i + 1).map_values(f) =~= coords@.take(i as int).map_values(
                f,
            ).push(f(coords@[i as int])));
            assert(dst@ =~= base + coords@.take(i + 1).map_values(f));
        }
        i = i + 1;
    }
    proof {
        assert(coords@.take(coords@.len() as int) =~= coords@);
        assert(coords@.map_values(f) =~= coord_tags(coords@, *relay));
    }
}

/// Generates a reply tag for an event with the given id, relay hint and
/// marker.
pub fn event_reply_tag(reply_to: &String, relay: &Option<String>, marker: Marker) -> (t: Tag)
    ensures
        t == (Tag::Event { id: *reply_to, relay: *relay, marker: Some(marker) }),
{
    Tag::Event { id: reply_to.clone(), relay: clone_opt(relay), marker: Some(marker) }
}

/// The tag set of an issue status event: a root reply reference to the
/// issue, mentions of the issue author, the maintainers and the owners,
/// and an addressing tag per coordinate — deduplicated.
pub fn issue_status_tags(
    issue_id: &String,
    relay_hint: &Option<String>,
    issue_author: &String,
    maintainers: &Vec<String>,
    owners: &Vec<String>,
    coordinates: &Vec<Coordinate>,
) -> (r: Vec<Tag>)
    ensures
        r@ == dedup_tags_spec(
            seq![
                Tag::Event { id: *issue_id, relay: *relay_hint, marker: Some(Marker::Root) },
                Tag::PublicKey { key: *issue_author },
            ] + p_tags(maintainers@) + p_tags(owners@) + coord_tags(coordinates@, *relay_hint),
        ),
{
    let mut v: Vec<Tag> = Vec::new();
    v.push(event_reply_tag(issue_id, relay_hint, Marker::Root));
    v.push(Tag::PublicKey { key: issue_author.clone() });
    proof {
        assert(v@ =~= seq![
            Tag::Event { id: *issue_id, relay: *relay_hint, marker: Some(Marker::Root) },
            Tag::PublicKey { key: *issue_author },
        ]);
    }
    push_p_tags(&mut v, maintainers);
    push_p_tags(&mut v, owners);
    push_coord_tags(&mut v, coordinates, relay_hint);
    dedup_tags(v)
}

/// The base tag set of a patch/pr status event: a root reply reference,
/// mentions of every authorized signer, an addressing tag per coordinate,
/// and — when the transition is into merged/applied — the extra commit,
/// revision and quote tags; deduplicated.
pub fn patch_pr_status_tags(
    root: &String,
    relay_hint: &Option<String>,
    authorized: &Vec<String>,
    coordinates: &Vec<Coordinate>,
    extra: Vec<Tag>,
) -> (r: Vec<Tag>)
    ensures
        r@ == dedup_tags_spec(
            seq![Tag::Event { id: *root, relay: *relay_hint, marker: Some(Marker::Root) }]
                + p_tags(authorized@) + coord_tags(coordinates@, *relay_hint) + extra@,
        ),
{
    let mut v: Vec<Tag> = Vec::new();
    v.push(event_reply_tag(root, relay_hint, Marker::Root));
    proof {
        assert(v@ =~= seq![
            Tag::Event { id: *root, relay: *relay_hint, marker: Some(Marker::Root) },
        ]);
    }
    push_p_tags(&mut v, authorized);
    push_coord_tags(&mut v, coordinates, relay_hint);
    append_tags(&mut v, extra);
    dedup_tags(v)
}

/// The extra tags of a merged/applied transition: the commit tags, a reply
/// reference to the revision being merged (if any), and the quote tags of
/// the merged patches.  Any other transition carries no extra tags.
pub fn merged_extra_tags(
    new_status: &PatchPrStatus,
    commit_tags: Vec<Tag>,
    root_revision: &Option<String>,
    relay_hint: &Option<String>,
    patch_quotes: Vec<Tag>,
) -> (r: Vec<Tag>)
    ensures
        *new_status != PatchPrStatus::MergedApplied ==> r@ =~= Seq::<Tag>::empty(),
        *new_status == PatchPrStatus::MergedApplied ==> r@ == commit_tags@ + revision_tags(
            *root_revision,
            *relay_hint,
        ) + patch_quotes@,
{
    if !matches!(new_status, PatchPrStatus::MergedApplied) {
        return Vec::new();
    }
    let mut v = commit_tags;
    match root_revision {
        Some(rev) => {
            v.push(event_reply_tag(rev, relay_hint, Marker::Reply));
            proof {
                assert(v@ =~= commit_tags@ + revision_tags(*root_revision, *relay_hint));
            }
        },
        None => {
            proof {
                assert(v@ =~= commit_tags@ + revision_tags(*root_revision, *relay_hint));
            }
        },
    }
    append_tags(&mut v, patch_quotes);
    v
}

/// The reply reference to a merged revision, or nothing.
pub open spec fn revision_tags(root_revision: Option<String>, relay_hint: Option<String>) -> Seq<
    Tag,
> {
    match root_revision {
        Some(rev) => seq![
            Tag::Event { id: rev, relay: relay_hint, marker: Some(Marker::Reply) },
        ],
        None => Seq::empty(),
    }
}

/// The commit tags of a merged/applied status event: one `merge-commit`
/// tag and a reference for a merge, or one `applied-as-commits` tag and a
/// reference per commit for applied patches.
pub fn merge_commit_tags(commits: &MergeCommits) -> (r: Vec<Tag>)
    ensures
        (*commits) matches MergeCommits::Merge(c) ==> {
            &&& r@.len() == 2
            &&& (r@[0] matches Tag::Custom { name, values } && name@ == "merge-commit"@
                && values@ =~= seq![c])
            &&& r@[1] == (Tag::Reference { value: c })
        },
        (*commits) matches MergeCommits::Applied(cs) ==> {
            &&& r@.len() == 1 + cs@.len()
            &&& (r@[0] matches Tag::Custom { name, values } && name@ == "applied-as-commits"@
                && values@ == cs@)
            &&& forall|i: int|
                0 <= i < cs@.len() ==> r@[1 + i] == (Tag::Reference { value: cs@[i] })
        },
{
    let mut v: Vec<Tag> = Vec::new();
    match commits {
        MergeCommits::Merge(c) => {
            let mut values: Vec<String> = Vec::new();
            values.push(c.clone());
            proof {
                assert(values@ =~= seq![*c]);
            }
            v.push(Tag::Custom { name: new_string("merge-commit"), values });
            v.push(Tag::Reference { value: c.clone() });
        },
        MergeCommits::Applied(cs) => {
            let mut values: Vec<String> = Vec::new();
            let mut i: usize = 0;
            while i < cs.len()
                invariant
                    0 <= i <= cs@.len(),
                    values@ =~= cs@.take(i as int),
                decreases cs.len() - i,
            {
                values.push(cs[i].clone());
                proof {
                    assert(values@ =~= cs@.take(i + 1));
                }
                i = i + 1;
            }
            proof {
                assert(values@ =~= cs@);
            }
            v.push(Tag::Custom { name: new_string("applied-as-commits"), values });
            let ghost base = v@;
            let mut k: usize = 0;
            while k < cs.len()
                invariant
                    0 <= k <= cs@.len(),
                    v@.len() == 1 + k,
                    v@[0] == base[0],
                    forall|i: int|
                        0 <= i < k ==> v@[1 + i] == (Tag::Reference { value: cs@[i] }),
                decreases cs.len() - k,
            {
                v.push(Tag::Reference { value: cs[k].clone() });
                k = k + 1;
            }
        },
    }
    v
}

/// Builds a string equal to the given literal.
fn new_string(s: &str) -> (r: String)
    ensures
        r@ == s@,
{
    s.to_owned()
}

/// Quote tags for the patches marked merged/applied: each carries the
/// patch id, the shared relay hint and the patch author where known.
pub fn patches_quote_tags(
    patches: &Vec<String>,
    relay_hint: &Option<String>,
    authors: &Vec<Option<String>>,
) -> (r: Vec<Tag>)
    requires
        patches@.len() == authors@.len(),
    ensures
        r@.len() == patches@.len(),
        forall|i: int|
            0 <= i < patches@.len() ==> r@[i] == (Tag::Quote {
                id: patches@[i],
                relay: *relay_hint,
                author: authors@[i],
            }),
{
    let mut v: Vec<Tag> = Vec::new();
    let mut i: usize = 0;
    while i < patches.len()
        invariant
            0 <= i <= patches@.len(),
            patches@.len() == authors@.len(),
            v@.len() == i,
            forall|j: int|
                0 <= j < i ==> v@[j] == (Tag::Quote {
                    id: patches@[j],
                    relay: *relay_hint,
                    author: authors@[j],
                }),
        decreases patches.len() - i,
    {
        v.push(
            Tag::Quote {
                id: patches[i].clone(),
                relay: clone_opt(relay_hint),
                author: clone_opt(&authors[i]),
            },
        );
        i = i + 1;
    }
    v
}

/// Parsed content details: the people, quoted events, hashtags and relays
/// found in free text, handed in as plain values by the content parser.
#[derive(Debug, Clone)]
pub struct ContentDetails {
    /// Public keys of users mentioned in the content.
    pub p_tagged: Vec<String>,
    /// Event ids and optional relay hints of quoted events.
    pub quotes: Vec<(String, Option<String>)>,
    /// Hashtags found in the content.
    pub hashtags: Vec<String>,
    /// Relays where mentioned users and quoted authors read.
    pub write_relays: Vec<String>,
}

/// The tags the content details fold into an event: hashtags, mentions,
/// then quotes.
pub open spec fn content_tags_spec(c: ContentDetails) -> Seq<Tag> {
    c.hashtags@.map_values(|h: String| Tag::Hashtag { tag: h }) + p_tags(c.p_tagged@)
        + c.quotes@.map_values(
        |q: (String, Option<String>)| Tag::Quote { id: q.0, relay: q.1, author: None },
    )
}

impl ContentDetails {
    /// Creates content details, deduplicating the mentioned users, the
    /// hashtags and the relays, keeping first occurrences.  Quotes pass
    /// through as given: duplicates among them collapse with the rest of
    /// the tags when an event is assembled.
    pub fn new(
        users: Vec<String>,
        quotes: Vec<(String, Option<String>)>,
        hashtags: Vec<String>,
        write_relays: Vec<String>,
    ) -> (r: ContentDetails)
        ensures
            r.p_tagged@ == crate::relays::dedup_first(users@),
            r.quotes == quotes,
            r.hashtags@ == crate::relays::dedup_first(hashtags@),
            r.write_relays@ == crate::relays::dedup_first(write_relays@),
    {
        ContentDetails {
            p_tagged: crate::relays::dedup(users),
            quotes,
            hashtags: crate::relays::dedup(hashtags),
            write_relays: crate::relays::dedup(write_relays),
        }
    }

    /// Converts the details into a list of tags: hashtags, mentions, then
    /// quotes.
    pub fn into_tags(self) -> (r: Vec<Tag>)
        ensures
            r@ == content_tags_spec(self),
    {
        let mut v: Vec<Tag> = Vec::new();
        let ghost me = self;
        let ContentDetails { p_tagged, quotes, hashtags, write_relays: _ } = self;
        let mut i: usize = 0;
        proof {
            assert(hashtags@.take(0).map_values(|h: String| Tag::Hashtag { tag: h }) =~= Seq::<
                Tag,
            >::empty());
        }
        while i < hashtags.len()
            invariant
                0 <= i <= hashtags@.len(),
                v@ =~= hashtags@.take(i as int).map_values(|h: String| Tag::Hashtag { tag: h }),
            decreases hashtags.len() - i,
        {
            v.push(Tag::Hashtag { tag: hashtags[i].clone() });
            proof {
                assert(hashtags@.take(i + 1).map_values(|h: String| Tag::Hashtag { tag: h })
                    =~= hashtags@.take(i as int).map_values(
                    |h: String| Tag::Hashtag { tag: h },
                ).push(Tag::Hashtag { tag: hashtags@[i as int] }));
            }
            i = i + 1;
        }
        proof {
            assert(hashtags@.take(hashtags@.len() as int) =~= hashtags@);
        }
        push_p_tags(&mut v, &p_tagged);
        let ghost before_quotes = v@;
        let ghost qf = |q: (String, Option<String>)|
            Tag::Quote { id: q.0, relay: q.1, author: None };
        let mut k: usize = 0;
        proof {
            assert(quotes@.take(0).map_values(qf) =~= Seq::<Tag>::empty());
            assert(v@ =~= before_quotes + quotes@.take(0).map_values(qf));
        }
        while k < quotes.len()
            invariant
                0 <= k <= quotes@.len(),
                v@ =~= before_quotes + quotes@.take(k as int).map_values(qf),
                qf == (|q: (String, Option<String>)|
                    Tag::Quote { id: q.0, relay: q.1, author: None }),
            decreases quotes.len() - k,
        {
            let (qid, qrelay) = (&quotes[k].0, &quotes[k].1);
            v.push(Tag::Quote { id: qid.clone(), relay: clone_opt(qrelay), author: None });
            proof {
                assert(quotes@.take(k + 1).map_values(qf) =~= quotes@.take(k as int).map_values(
                    qf,
                ).push(qf(quotes@[k as int])));
            }
            k = k + 1;
        }
        proof {
            assert(quotes@.take(quotes@.len() as int) =~= quotes@);
            assert(me.hashtags == hashtags);
            assert(me.p_tagged == p_tagged);
            assert(me.quotes == quotes);
            assert(v@ =~= content_tags_spec(me));
        }
        v
    }
}

/// The owner public keys of a list of coordinates, in order.
pub open spec fn coord_owners(coords: Seq<Coordinate>) -> Seq<String> {
    coords.map_values(|c: Coordinate| c.public_key)
}

/// Extracts the owner public keys of the coordinates.
pub fn extract_coord_owners(coords: &Vec<Coordinate>) -> (r: Vec<String>)
    ensures
        r@ == coord_owners(coords@),
{
    let mut out: Vec<String> = Vec::new();
    let ghost f = |c: Coordinate| c.public_key;
    let mut i: usize = 0;
    proof {
        assert(coords@.take(0).map_values(f) =~= Seq::<String>::empty());
    }
    while i < coords.len()
        invariant
            0 <= i <= coords@.len(),
            out@ =~= coords@.take(i as int).map_values(f),
            f == (|c: Coordinate| c.public_key),
        decreases coords.len() - i,
    {
        out.push(coords[i].public_key.clone());
        proof {
            assert(coords@.take(i + 1).map_values(f) =~= coords@.take(i as int).map_values(
                f,
            ).push(f(coords@[i as int])));
        }
        i = i + 1;
    }
    proof {
        assert(coords@.take(coords@.len() as int) =~= coords@);
        assert(out@ =~= coord_owners(coords@));
    }
    out
}

/// The reference tag of the earliest unique commit, or nothing.
pub open spec fn euc_tags(euc: Option<String>) -> Seq<Tag> {
    match euc {
        Some(e) => seq![Tag::Reference { value: e }],
        None => Seq::empty(),
    }
}

/// The subject tag, or nothing.
pub open spec fn subject_tags(subject: Option<String>) -> Seq<Tag> {
    match subject {
        Some(s) => seq![Tag::Subject { value: s }],
        None => Seq::empty(),
    }
}

/// The alt tag, or nothing.
pub open spec fn alt_tags(alt: Option<String>) -> Seq<Tag> {
    match alt {
        Some(a) => seq![Tag::Alt { value: a }],
        None => Seq::empty(),
    }
}

/// The hashtag tags of a list of labels, in order.
pub open spec fn label_tags(labels: Seq<String>) -> Seq<Tag> {
    labels.map_values(|l: String| Tag::Hashtag { tag: l })
}

/// Pushes a hashtag tag for every label.
fn push_label_tags(dst: &mut Vec<Tag>, labels: &Vec<String>)
    ensures
        final(dst)@ == old(dst)@ + label_tags(labels@),
{
    let ghost base = dst@;
    let ghost f = |l: String| Tag::Hashtag { tag: l };
    let mut i: usize = 0;
    proof {
        assert(labels@.take(0).map_values(f) =~= Seq::<Tag>::empty());
    }
    while i < labels.len()
        invariant
            0 <= i <= labels@.len(),
            dst@ =~= base + labels@.take(i as int).map_values(f),
            f == (|l: String| Tag::Hashtag { tag: l }),
        decreases labels.len() - i,
    {
        dst.push(Tag::Hashtag { tag: labels[i].clone() });
        proof {
            assert(labels@.take(i + 1).map_values(f) =~= labels@.take(i as int).map_values(
                f,
            ).push(f(labels@[i as int])));
        }
        i = i + 1;
    }
    proof {
        assert(labels@.take(labels@.len() as int) =~= labels@);
    }
}

/// Trims every string of the list.
pub fn trim_all(items: Vec<String>) -> (r: Vec<String>)
    ensures
        r@.len() == items@.len(),
        forall|i: int| 0 <= i < items@.len() ==> r@[i]@ == trim_spec(items@[i]@),
{
    let ghost full = items@;
    let mut rest = items;
    let mut out: Vec<String> = Vec::new();
    while rest.len() > 0
        invariant
            rest@.len() <= full.len(),
            rest@ =~= full.skip(full.len() - rest@.len()),
            out@.len() == full.len() - rest@.len(),
            forall|i: int| 0 <= i < out@.len() ==> out@[i]@ == trim_spec(full[i]@),
        decreases rest.len(),
    {
        let ghost n = full.len() - rest@.len();
        let x = rest.remove(0);
        proof {
            assert(x == full[n as int]);
            assert(rest@ =~= full.skip(n + 1));
        }
        out.push(crate::strutil::str_trim(x));
    }
    out
}

/// The alt text of a patch event.
pub fn patch_alt_string(subject: &String) -> (r: String)
    ensures
        r@ == "git patch: "@ + subject@,
{
    let mut out: String = new_string("git patch: ");
    out.append(subject.as_str());
    out
}

/// The alt text of an issue event.
pub fn issue_alt_string(subject: &String) -> (r: String)
    ensures
        r@ == "git issue: "@ + subject@,
{
    let mut out: String = new_string("git issue: ");
    out.append(subject.as_str());
    out
}

/// The deduplicated front of a patch event's tags: alt and description,
/// the content-derived tags, the addressing tags, the owner mentions, and
/// the earliest-unique-commit reference.
pub open spec fn patch_front(
    alt_text: String,
    subject: String,
    content_tags: Seq<Tag>,
    coords: Seq<Coordinate>,
    euc: Option<String>,
) -> Seq<Tag> {
    seq![Tag::Alt { value: alt_text }, Tag::Description { value: subject }] + content_tags
        + coord_tags(coords, None) + p_tags(coord_owners(coords)) + euc_tags(euc)
}

/// How many marker tags a patch gets: the root marker (a reply reference
/// or the `root` hashtag), plus a reply reference to the previous patch
/// and, for a revision, the `root-revision` hashtag.
pub open spec fn marker_count(root: Option<String>, reply_to: Option<String>) -> int {
    1 + (match reply_to {
        Some(_) => if root is None {
            2int
        } else {
            1int
        },
        None => 0int,
    })
}

/// The tag set of one patch event.  The front tags are deduplicated; the
/// root/reply markers are appended afterwards so that a reply reference to
/// the root is never collapsed into the root reference itself.  A patch
/// with no root of its own is a root patch (`root` hashtag) unless it
/// replies to an original patch, which makes it a revision
/// (`root-revision` hashtag).
pub fn make_patch_tags(
    patch: &GitPatch,
    alt_text: String,
    root: &Option<String>,
    reply_to: &Option<String>,
    write_relay: &Option<String>,
    coordinates: &Vec<Coordinate>,
    euc: &Option<String>,
    content_tags: Vec<Tag>,
) -> (r: Vec<Tag>)
    ensures
        r@.len() == dedup_tags_spec(
            patch_front(alt_text, patch.subject, content_tags@, coordinates@, *euc),
        ).len() + marker_count(*root, *reply_to),
        r@.take(
            dedup_tags_spec(
                patch_front(alt_text, patch.subject, content_tags@, coordinates@, *euc),
            ).len() as int,
        ) == dedup_tags_spec(
            patch_front(alt_text, patch.subject, content_tags@, coordinates@, *euc),
        ),
        ({
            let d = dedup_tags_spec(
                patch_front(alt_text, patch.subject, content_tags@, coordinates@, *euc),
            ).len() as int;
            &&& ((*root) matches Some(rid) ==> r@[d] == (Tag::Event {
                id: rid,
                relay: *write_relay,
                marker: Some(Marker::Root),
            }))
            &&& ((*root) is None ==> (r@[d] matches Tag::Hashtag { tag } && tag@ == "root"@))
            &&& ((*reply_to) matches Some(pid) ==> r@[d + 1] == (Tag::Event {
                id: pid,
                relay: *write_relay,
                marker: Some(Marker::Reply),
            }))
            &&& ((*root) is None && (*reply_to) is Some ==> (r@[d + 2] matches Tag::Hashtag {
                tag,
            }
                && tag@ == "root-revision"@))
        }),
{
    let mut front: Vec<Tag> = Vec::new();
    front.push(Tag::Alt { value: alt_text });
    front.push(Tag::Description { value: patch.subject.clone() });
    proof {
        assert(front@ =~= seq![
            Tag::Alt { value: alt_text },
            Tag::Description { value: patch.subject },
        ]);
    }
    append_tags(&mut front, content_tags);
    let no_relay: Option<String> = None;
    push_coord_tags(&mut front, coordinates, &no_relay);
    let owners = extract_coord_owners(coordinates);
    push_p_tags(&mut front, &owners);
    match euc {
        Some(e) => {
            front.push(Tag::Reference { value: e.clone() });
        },
        None => {},
    }
    proof {
        assert(front@ =~= patch_front(alt_text, patch.subject, content_tags@, coordinates@,
            *euc));
    }
    let mut r = dedup_tags(front);
    let ghost d = r@.len();
    match root {
        Some(rid) => {
            r.push(event_reply_tag(rid, write_relay, Marker::Root));
        },
        None => {
            r.push(Tag::Hashtag { tag: new_string("root") });
        },
    }
    match reply_to {
        Some(pid) => {
            r.push(event_reply_tag(pid, write_relay, Marker::Reply));
            if matches!(root, Option::None) {
                r.push(Tag::Hashtag { tag: new_string("root-revision") });
            }
        },
        None => {},
    }
    proof {
        assert(r@.take(d as int) =~= dedup_tags_spec(
            patch_front(alt_text, patch.subject, content_tags@, coordinates@, *euc),
        ));
    }
    r
}

/// The tag set of a new issue event: the addressing tag and owner mention
/// of the first coordinate, the subject, the labels, the remaining
/// coordinates' addressing tags and owner mentions, the alt tag, and the
/// content-derived tags — deduplicated.  At least one coordinate is
/// required.
pub fn new_git_issue(
    coordinates: &Vec<Coordinate>,
    subject: &Option<String>,
    labels: Vec<String>,
    alt: &Option<String>,
    content_tags: Vec<Tag>,
) -> (r: Result<Vec<Tag>, N34Error>)
    ensures
        r is Ok <==> coordinates@.len() > 0,
        coordinates@.len() == 0 ==> r == Result::<Vec<Tag>, N34Error>::Err(N34Error::EmptyNaddrs),
        r matches Ok(tags) ==> tags@ == dedup_tags_spec(
            seq![
                Tag::Coordinate {
                    kind: coordinates@[0].kind,
                    public_key: coordinates@[0].public_key,
                    identifier: coordinates@[0].identifier,
                    relay: None,
                },
                Tag::PublicKey { key: coordinates@[0].public_key },
            ] + subject_tags(*subject) + label_tags(labels@) + coord_tags(
                coordinates@.skip(1),
                None,
            ) + p_tags(coord_owners(coordinates@.skip(1))) + alt_tags(*alt) + content_tags@,
        ),
{
    if coordinates.len() == 0 {
        return Err(N34Error::EmptyNaddrs);
    }
    let first = &coordinates[0];
    let mut v: Vec<Tag> = Vec::new();
    v.push(
        Tag::Coordinate {
            kind: first.kind,
            public_key: first.public_key.clone(),
            identifier: first.identifier.clone(),
            relay: None,
        },
    );
    v.push(Tag::PublicKey { key: first.public_key.clone() });
    match subject {
        Some(sub) => {
            v.push(Tag::Subject { value: sub.clone() });
        },
        None => {},
    }
    proof {
        assert(v@ =~= seq![
            Tag::Coordinate {
                kind: coordinates@[0].kind,
                public_key: coordinates@[0].public_key,
                identifier: coordinates@[0].identifier,
                relay: None,
            },
            Tag::PublicKey { key: coordinates@[0].public_key },
        ] + subject_tags(*subject));
    }
    push_label_tags(&mut v, &labels);
    let mut rest: Vec<Coordinate> = Vec::new();
    let mut i: usize = 1;
    proof {
        assert(coordinates@.subrange(1, 1) =~= Seq::<Coordinate>::empty());
    }
    while i < coordinates.len()
        invariant
            1 <= i <= coordinates@.len(),
            rest@ =~= coordinates@.subrange(1, i as int),
        decreases coordinates.len() - i,
    {
        let c = &coordinates[i];
        rest.push(
            Coordinate {
                kind: c.kind,
                public_key: c.public_key.clone(),
                identifier: c.identifier.clone(),
            },
        );
        proof {
            assert(rest@ =~= coordinates@.subrange(1, i + 1));
        }
        i = i + 1;
    }
    proof {
        assert(rest@ =~= coordinates@.skip(1));
    }
    let no_relay: Option<String> = None;
    push_coord_tags(&mut v, &rest, &no_relay);
    let rest_owners = extract_coord_owners(&rest);
    push_p_tags(&mut v, &rest_owners);
    match alt {
        Some(a) => {
            v.push(Tag::Alt { value: a.clone() });
        },
        None => {},
    }
    let ghost before_content = v@;
    append_tags(&mut v, content_tags);
    proof {
        assert(v@ =~= seq![
            Tag::Coordinate {
                kind: coordinates@[0].kind,
                public_key: coordinates@[0].public_key,
                identifier: coordinates@[0].identifier,
                relay: None,
            },
            Tag::PublicKey { key: coordinates@[0].public_key },
        ] + subject_tags(*subject) + label_tags(labels@) + coord_tags(coordinates@.skip(1), None)
            + p_tags(coord_owners(coordinates@.skip(1))) + alt_tags(*alt) + content_tags@);
    }
    Ok(dedup_tags(v))
}

/// What `convert_case` turns a string into under kebab-case conversion.
pub uninterp spec fn kebab_of(s: Seq<char>) -> Seq<char>;

/// Relies on convert_case's `Casing::to_case` with `Case::Kebab`: the
/// result is a pure function of the input characters.
#[verifier::external_body]
fn to_kebab(s: &str) -> (r: String)
    ensures
        r@ == kebab_of(s@),
{
    s.to_case(Case::Kebab)
}

/// One optional string as a count.
pub open spec fn opt_n(o: Option<String>) -> int {
    match o {
        Some(_) => 1int,
        None => 0int,
    }
}

/// One non-empty list as a count.
pub open spec fn vec_n(v: Seq<String>) -> int {
    if v.len() > 0 {
        1int
    } else {
        0int
    }
}

/// The tag set of a repository announcement: the identifier, then the
/// optional name and description, the web, clone and relay lists, the
/// maintainers, and the labels as hashtags.  The repository id is trimmed
/// and must be kebab-case unless `force_id` is set; an empty or
/// non-kebab-case id is rejected.
pub fn new_git_repo(
    repo_id: &String,
    name: &Option<String>,
    description: &Option<String>,
    web: &Vec<String>,
    clone: &Vec<String>,
    relays: &Vec<String>,
    maintainers: &Vec<String>,
    labels: Vec<String>,
    force_id: bool,
) -> (r: Result<(String, Vec<Tag>), N34Error>)
    ensures
        r is Ok <==> (trim_spec(repo_id@).len() > 0 && (force_id || trim_spec(repo_id@)
            == kebab_of(trim_spec(repo_id@)))),
        r is Err ==> r == Result::<(String, Vec<Tag>), N34Error>::Err(N34Error::InvalidRepoId),
        r matches Ok(p) ==> {
            let tags = p.1@;
            let base = 1 + opt_n(*name) + opt_n(*description) + vec_n(web@) + vec_n(clone@)
                + vec_n(relays@) + vec_n(maintainers@);
            &&& p.0@ == trim_spec(repo_id@)
            &&& tags.len() == base + labels@.len()
            &&& tags[0] == (Tag::Identifier { value: p.0 })
            &&& ((*name) matches Some(n) ==> (tags[1] matches Tag::Custom { name: nm, values }
                && nm@ == "name"@ && values@ =~= seq![n]))
            &&& ((*description) matches Some(dsc) ==> (tags[1 + opt_n(*name)] matches
                Tag::Custom { name: nm, values } && nm@ == "description"@ && values@ =~= seq![
                dsc,
            ]))
            &&& (web@.len() > 0 ==> (tags[1 + opt_n(*name) + opt_n(*description)] matches
                Tag::Custom { name: nm, values } && nm@ == "web"@ && values@ == web@))
            &&& (clone@.len() > 0 ==> (tags[1 + opt_n(*name) + opt_n(*description) + vec_n(
                web@,
            )] matches Tag::Custom { name: nm, values } && nm@ == "clone"@ && values@ == clone@))
            &&& (relays@.len() > 0 ==> (tags[1 + opt_n(*name) + opt_n(*description) + vec_n(web@)
                + vec_n(clone@)] matches Tag::Custom { name: nm, values } && nm@ == "relays"@
                && values@ == relays@))
            &&& (maintainers@.len() > 0 ==> (tags[1 + opt_n(*name) + opt_n(*description) + vec_n(
                web@,
            ) + vec_n(clone@) + vec_n(relays@)] matches Tag::Custom { name: nm, values } && nm@
                == "maintainers"@ && values@ == maintainers@))
            &&& (forall|i: int|
                0 <= i < labels@.len() ==> tags[base + i] == (Tag::Hashtag {
                    tag: labels@[i],
                }))
        },
{
    let trimmed = crate::strutil::str_trim(repo_id.clone());
    let kebab = to_kebab(trimmed.as_str());
    if trimmed.as_str().is_empty() || (!force_id && !(trimmed == kebab)) {
        return Err(N34Error::InvalidRepoId);
    }
    proof {
        assert(trim_spec(repo_id@).len() > 0);
    }
    let mut tags: Vec<Tag> = Vec::new();
    tags.push(Tag::Identifier { value: trimmed.clone() });
    match name {
        Some(n) => {
            let mut values: Vec<String> = Vec::new();
            values.push(n.clone());
            proof {
                assert(values@ =~= seq![*n]);
            }
            tags.push(Tag::Custom { name: new_string("name"), values });
        },
        None => {},
    }
    match description {
        Some(dsc) => {
            let mut values: Vec<String> = Vec::new();
            values.push(dsc.clone());
            proof {
                assert(values@ =~= seq![*dsc]);
            }
            tags.push(Tag::Custom { name: new_string("description"), values });
        },
        None => {},
    }
    if web.len() > 0 {
        tags.push(Tag::Custom { name: new_string("web"), values: clone_strings(web) });
    }
    if clone.len() > 0 {
        tags.push(Tag::Custom { name: new_string("clone"), values: clone_strings(clone) });
    }
    if relays.len() > 0 {
        tags.push(Tag::Custom { name: new_string("relays"), values: clone_strings(relays) });
    }
    if maintainers.len() > 0 {
        tags.push(
            Tag::Custom { name: new_string("maintainers"), values: clone_strings(maintainers) },
        );
    }
    let ghost base_tags = tags@;
    push_label_tags(&mut tags, &labels);
    proof {
        assert forall|i: int| 0 <= i < labels@.len() implies tags@[base_tags.len() + i] == (
        Tag::Hashtag { tag: labels@[i] }) by {
            assert(label_tags(labels@)[i] == (Tag::Hashtag { tag: labels@[i] }));
        }
    }
    Ok((trimmed, tags))
}

/// Clones a list of strings.
fn clone_strings(v: &Vec<String>) -> (r: Vec<String>)
    ensures
        r@ =~= v@,
{
    let mut out: Vec<String> = Vec::new();
    let mut i: usize = 0;
    while i < v.len()
        invariant
            0 <= i <= v@.len(),
            out@ =~= v@.take(i as int),
        decreases v.len() - i,
    {
        out.push(v[i].clone());
        proof {
            assert(out@ =~= v@.take(i + 1));
        }
        i = i + 1;
    }
    proof {
        assert(v@.take(v@.len() as int) =~= v@);
    }
    out
}

/// Reference tags for a repository state announcement: one tag per branch
/// or tag, named `refs/heads/<name>` or `refs/tags/<name>`, holding the
/// commit hash.
pub fn refs_tags(refs: &Vec<(String, String)>, is_branch: bool) -> (r: Vec<Tag>)
    ensures
        r@.len() == refs@.len(),
        forall|i: int|
            0 <= i < refs@.len() ==> (#[trigger] r@[i] matches Tag::Custom { name, values }
                && name@ == (if is_branch {
                "refs/heads/"@
            } else {
                "refs/tags/"@
            }) + refs@[i].0@ && values@ =~= seq![refs@[i].1]),
{
    let mut out: Vec<Tag> = Vec::new();
    let mut i: usize = 0;
    while i < refs.len()
        invariant
            0 <= i <= refs@.len(),
            out@.len() == i,
            forall|j: int|
                0 <= j < i ==> (#[trigger] out@[j] matches Tag::Custom { name, values }
                    && name@ == (if is_branch {
                    "refs/heads/"@
                } else {
                    "refs/tags/"@
                }) + refs@[j].0@ && values@ =~= seq![refs@[j].1]),
        decreases refs.len() - i,
    {
        let mut nm: String = if is_branch {
            new_string("refs/heads/")
        } else {
            new_string("refs/tags/")
        };
        nm.append(refs[i].0.as_str());
        let mut values: Vec<String> = Vec::new();
        values.push(refs[i].1.clone());
        proof {
            assert(values@ =~= seq![refs@[i as int].1]);
        }
        out.push(Tag::Custom { name: nm, values });
        i = i + 1;
    }
    out
}

} // verus!
