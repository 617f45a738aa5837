//! The status resolution engine.
//!
//! The current lifecycle state of an issue, patch or pull request is
//! computed from the status events fetched for its root: only events from
//! the authorized signer set count, the most recent one wins (ties broken
//! towards the lexicographically smallest event id), and a missing event
//! defaults to Open.  For patch revisions, a merged root that does not
//! acknowledge the revision closes it.

use vstd::prelude::*;

use crate::error::N34Error;
use crate::relays::{contains_str, dedup, dedup_first, str_in};
use crate::status::{
    IssueStatus, PatchPrStatus, is_status_kind, KIND_STATUS_APPLIED, KIND_STATUS_CLOSED,
    KIND_STATUS_DRAFT, KIND_STATUS_OPEN,
};
use crate::strutil::{chars_lt, str_lex_lt};
use crate::tags::Marker;

verus! {

/// An `e` tag of a status event: the referenced event id and the marker.
#[derive(Debug, Clone)]
pub struct EventRef {
    /// The referenced event id, in hex.
    pub id: String,
    /// The reference marker, if any.
    pub marker: Option<Marker>,
}

/// A status event as fetched from the relays: exactly the fields the
/// resolver reads.
#[derive(Debug, Clone)]
pub struct StatusEvent {
    /// The event id, in hex.
    pub id: String,
    /// The author public key, in hex.
    pub author: String,
    /// The creation timestamp.
    pub created_at: u64,
    /// The wire kind.
    pub kind: u16,
    /// The event's `e` tags.
    pub e_tags: Vec<EventRef>,
}

/// Whether the event counts for resolution: it carries a status kind and
/// its author belongs to the authorized signer set.
pub open spec fn relevant(e: StatusEvent, authorized: Seq<String>) -> bool {
    is_status_kind(e.kind) && str_in(authorized, e.author@)
}

/// Whether `a` beats `b`: strictly more recent, or as recent with a
/// lexicographically smaller event id.
pub open spec fn beats(a: StatusEvent, b: StatusEvent) -> bool {
    a.created_at > b.created_at || (a.created_at == b.created_at && chars_lt(a.id@, b.id@))
}

/// The winning status event among the relevant ones, scanning from the
/// left: a later event replaces the current winner only when it beats it.
pub open spec fn winner_from(events: Seq<StatusEvent>, authorized: Seq<String>) -> Option<
    StatusEvent,
>
    decreases events.len(),
{
    if events.len() == 0 {
        None
    } else {
        let rest = winner_from(events.drop_first(), authorized);
        let h = events[0];
        if !relevant(h, authorized) {
            rest
        } else {
            match rest {
                None => Some(h),
                Some(w) => if beats(w, h) {
                    Some(w)
                } else {
                    Some(h)
                },
            }
        }
    }
}

/// The winner is one of the relevant events, and no relevant event beats
/// it.
pub proof fn lemma_winner_props(events: Seq<StatusEvent>, authorized: Seq<String>)
    ensures
        winner_from(events, authorized) is None ==> forall|i: int|
            0 <= i < events.len() ==> !relevant(#[trigger] events[i], authorized),
        winner_from(events, authorized) matches Some(w) ==> exists|i: int|
            0 <= i < events.len() && events[i] == w && relevant(#[trigger] events[i], authorized),
        winner_from(events, authorized) matches Some(w) ==> forall|i: int|
            0 <= i < events.len() && relevant(#[trigger] events[i], authorized) ==> !beats(
                events[i],
                w,
            ),
    decreases events.len(),
{
    if events.len() > 0 {
        let d = events.drop_first();
        lemma_winner_props(d, authorized);
        assert forall|i: int| 0 <= i < d.len() implies d[i] == events[i + 1] by {}
        if winner_from(events, authorized) is None {
            assert forall|i: int|
                0 <= i < events.len() implies !relevant(#[trigger] events[i], authorized) by {
                if i > 0 {
                    assert(d[i - 1] == events[i]);
                }
            }
        }
        if winner_from(events, authorized) is Some {
            let w = winner_from(events, authorized)->Some_0;
            let rest = winner_from(d, authorized);
            if rest is Some && rest->Some_0 == w {
                let wr = rest->Some_0;
                let i = choose|i: int| 0 <= i < d.len() && d[i] == wr && relevant(d[i], authorized);
                assert(events[i + 1] == wr);
                assert(relevant(events[i + 1], authorized));
            }
            assert forall|i: int|
                0 <= i < events.len() && relevant(#[trigger] events[i], authorized) implies !beats(
                events[i],
                w,
            ) by {
                if i == 0 {
                    if w == events[0] {
                        lemma_beats_irrefl(events[0]);
                    } else {
                        // the rest's winner only stays when it beats the
                        // relevant head
                        assert(beats(w, events[0]));
                        lemma_beats_asym(w, events[0]);
                    }
                } else {
                    assert(d[i - 1] == events[i]);
                    if rest is Some {
                        let wr = rest->Some_0;
                        assert(!beats(d[i - 1], wr));
                        // the final winner is the rest's winner or the
                        // head, and the head is only kept when the rest's
                        // winner does not beat it
                        if beats(events[i], w) && w != wr {
                            lemma_beats_shield(events[i], w, wr);
                        }
                    }
                }
            }
        }
    }
}


/// Nothing beats itself.
proof fn lemma_beats_irrefl(a: StatusEvent)
    ensures
        !beats(a, a),
{
    crate::strutil::lemma_chars_lt_irrefl(a.id@);
}

/// Beating is asymmetric.
proof fn lemma_beats_asym(a: StatusEvent, b: StatusEvent)
    requires
        beats(a, b),
    ensures
        !beats(b, a),
{
    if a.created_at == b.created_at {
        crate::strutil::lemma_chars_lt_asym(a.id@, b.id@);
    }
}

/// Whoever beats the current winner also beats anything the winner was
/// not beaten by.
proof fn lemma_beats_shield(a: StatusEvent, w: StatusEvent, b: StatusEvent)
    requires
        beats(a, w),
        !beats(b, w),
    ensures
        beats(a, b),
{
    if a.created_at == w.created_at && b.created_at == w.created_at {
        crate::strutil::lemma_chars_lt_total(b.id@, w.id@);
        if b.id@ == w.id@ {
        } else {
            crate::strutil::lemma_chars_lt_trans(a.id@, w.id@, b.id@);
        }
    }
}

/// Returns the index of the winning status event, or `None` when no
/// relevant event exists.
fn resolve_winner(events: &Vec<StatusEvent>, authorized: &Vec<String>) -> (r: Option<usize>)
    ensures
        r is Some <==> winner_from(events@, authorized@) is Some,
        r matches Some(i) ==> i < events@.len() && winner_from(events@, authorized@) == Some(
            events@[i as int],
        ),
{
    let n = events.len();
    let mut i: usize = n;
    let mut best: Option<usize> = None;
    proof {
        assert(events@.skip(n as int) =~= Seq::<StatusEvent>::empty());
    }
    while i > 0
        invariant
            0 <= i <= n,
            n == events@.len(),
            match best {
                None => winner_from(events@.skip(i as int), authorized@) is None,
                Some(b) => i <= b < n && winner_from(events@.skip(i as int), authorized@)
                    == Some(events@[b as int]),
            },
        decreases i,
    {
        i = i - 1;
        let ghost suffix = events@.skip(i as int);
        proof {
            assert(suffix.len() > 0);
            assert(suffix[0] == events@[i as int]);
            assert(suffix.drop_first() =~= events@.skip(i + 1));
        }
        let e = &events[i];
        let rel = (e.kind == KIND_STATUS_OPEN || e.kind == KIND_STATUS_APPLIED || e.kind
            == KIND_STATUS_CLOSED || e.kind == KIND_STATUS_DRAFT) && contains_str(
            authorized,
            &e.author,
        );
        if rel {
            match best {
                None => {
                    best = Some(i);
                },
                Some(b) => {
                    let w = &events[b];
                    let wb = w.created_at > e.created_at || (w.created_at == e.created_at
                        && str_lex_lt(w.id.as_str(), e.id.as_str()));
                    if !wb {
                        best = Some(i);
                    }
                },
            }
        }
    }
    proof {
        assert(events@.skip(0) =~= events@);
    }
    best
}

/// The status an issue resolves to, given the winning event's kind.
pub open spec fn issue_status_of_kind(kind: u16) -> Result<IssueStatus, N34Error> {
    if kind == KIND_STATUS_OPEN {
        Ok(IssueStatus::Open)
    } else if kind == KIND_STATUS_APPLIED {
        Ok(IssueStatus::Resolved)
    } else if kind == KIND_STATUS_CLOSED {
        Ok(IssueStatus::Closed)
    } else {
        Err(N34Error::InvalidIssueStatus(kind))
    }
}

/// Resolves the status of an issue from the status events fetched for it.
/// Events from signers outside the authorized set never count.  With no
/// relevant event the issue is Open; otherwise the most recent relevant
/// event decides, and a kind that is no issue status (a draft) is a decode
/// error carrying the offending kind.
pub fn resolve_issue_status(events: &Vec<StatusEvent>, authorized: &Vec<String>) -> (r: Result<
    IssueStatus,
    N34Error,
>)
    ensures
        winner_from(events@, authorized@) is None ==> r == Result::<IssueStatus, N34Error>::Ok(
            IssueStatus::Open,
        ),
        winner_from(events@, authorized@) matches Some(w) ==> r == issue_status_of_kind(w.kind),
{
    match resolve_winner(events, authorized) {
        None => Ok(IssueStatus::Open),
        Some(i) => {
            match IssueStatus::try_from(events[i].kind) {
                Ok(s) => Ok(s),
                Err(e) => Err(e),
            }
        },
    }
}

/// Resolves the status of a pull request from the status events fetched
/// for it.  Events from signers outside the authorized set never count.
/// With no relevant event the pull request is Open; otherwise the most
/// recent relevant event decides.
pub fn resolve_pr_status(events: &Vec<StatusEvent>, authorized: &Vec<String>) -> (r: Result<
    PatchPrStatus,
    N34Error,
>)
    ensures
        r is Ok,
        winner_from(events@, authorized@) is None ==> r == Result::<PatchPrStatus, N34Error>::Ok(
            PatchPrStatus::Open,
        ),
        winner_from(events@, authorized@) matches Some(w) ==> r == Result::<
            PatchPrStatus,
            N34Error,
        >::Ok(PatchPrStatus::spec_of_kind(w.kind)),
{
    match resolve_winner(events, authorized) {
        None => Ok(PatchPrStatus::Open),
        Some(i) => {
            proof {
                lemma_winner_props(events@, authorized@);
            }
            match PatchPrStatus::try_from(events[i].kind) {
                Ok(s) => Ok(s),
                Err(_) => Ok(PatchPrStatus::Open),
            }
        },
    }
}

/// Whether the tags hold a reply-marked reference to the given event id.
pub open spec fn has_reply_ref(tags: Seq<EventRef>, id: Seq<char>) -> bool {
    exists|i: int|
        0 <= i < tags.len() && tags[i].marker == Some(Marker::Reply) && tags[i].id@ == id
}

/// The status a patch resolves to: the winner's status, except that a
/// merged root whose winning event does not reply-reference the queried
/// revision closes that revision.
pub open spec fn patch_status_of(w: StatusEvent, root_revision: Option<String>) -> PatchPrStatus {
    let base = PatchPrStatus::spec_of_kind(w.kind);
    match root_revision {
        Some(rev) => {
            if base == PatchPrStatus::MergedApplied && !has_reply_ref(w.e_tags@, rev@) {
                PatchPrStatus::Closed
            } else {
                base
            }
        },
        None => base,
    }
}

/// Resolves the status of a patch from the status events fetched for its
/// root.  Events from signers outside the authorized set never count; with
/// no relevant event the patch is Open.  When the queried patch is a
/// revision (`root_revision` is the revision's id), a merged/applied root
/// whose winning status event carries no reply-marked reference to that
/// revision resolves to Closed: the root was merged via another revision.
pub fn resolve_patch_status(
    events: &Vec<StatusEvent>,
    root_revision: &Option<String>,
    authorized: &Vec<String>,
) -> (r: Result<PatchPrStatus, N34Error>)
    ensures
        r is Ok,
        winner_from(events@, authorized@) is None ==> r == Result::<PatchPrStatus, N34Error>::Ok(
            PatchPrStatus::Open,
        ),
        winner_from(events@, authorized@) matches Some(w) ==> r == Result::<
            PatchPrStatus,
            N34Error,
        >::Ok(patch_status_of(w, *root_revision)),
{
    match resolve_winner(events, authorized) {
        None => Ok(PatchPrStatus::Open),
        Some(i) => {
            let base = match PatchPrStatus::try_from(events[i].kind) {
                Ok(s) => s,
                Err(_) => {
                    proof {
                        lemma_winner_props(events@, authorized@);
                    }
                    PatchPrStatus::Open
                },
            };
            match root_revision {
                Some(rev) => {
                    if base.is_merged_or_applied() && !tags_reply_reference(
                        &events[i].e_tags,
                        rev,
                    ) {
                        Ok(PatchPrStatus::Closed)
                    } else {
                        Ok(base)
                    }
                },
                None => Ok(base),
            }
        },
    }
}

/// Whether the tags hold a reply-marked reference to `id`.
fn tags_reply_reference(tags: &Vec<EventRef>, id: &String) -> (r: bool)
    ensures
        r == has_reply_ref(tags@, id@),
{
    let mut i: usize = 0;
    while i < tags.len()
        invariant
            0 <= i <= tags@.len(),
            forall|j: int|
                0 <= j < i ==> !(#[trigger] tags@[j].marker == Some(Marker::Reply)
                    && tags@[j].id@ == id@),
        decreases tags.len() - i,
    {
        let is_reply = match &tags[i].marker {
            Option::Some(m) => *m == Marker::Reply,
            Option::None => false,
        };
        if is_reply && tags[i].id == *id {
            return true;
        }
        i = i + 1;
    }
    false
}

/// The author as a singleton list, or empty when absent.
pub open spec fn opt_author(author: Option<String>) -> Seq<String> {
    match author {
        Some(a) => seq![a],
        None => Seq::empty(),
    }
}

/// Computes the authorized signer set for one entity: every announcement's
/// maintainers, the entity's own author where given, and the repository
/// owners, deduplicated keeping first occurrences.
pub fn resolve_authorized_signers(
    owners: &Vec<String>,
    maintainers: &Vec<String>,
    author: &Option<String>,
) -> (r: Vec<String>)
    ensures
        r@ == dedup_first(maintainers@ + opt_author(*author) + owners@),
{
    let mut combined: Vec<String> = Vec::new();
    let mut i: usize = 0;
    while i < maintainers.len()
        invariant
            0 <= i <= maintainers@.len(),
            combined@ =~= maintainers@.take(i as int),
        decreases maintainers.len() - i,
    {
        combined.push(maintainers[i].clone());
        proof {
            assert(combined@ =~= maintainers@.take(i + 1));
        }
        i = i + 1;
    }
    proof {
        assert(maintainers@.take(maintainers@.len() as int) =~= maintainers@);
    }
    match author {
        Some(a) => {
            combined.push(a.clone());
        },
        None => {},
    }
    proof {
        assert(combined@ =~= maintainers@ + opt_author(*author));
    }
    let ghost with_author = combined@;
    let mut k: usize = 0;
    while k < owners.len()
        invariant
            0 <= k <= owners@.len(),
            combined@ =~= with_author + owners@.take(k as int),
        decreases owners.len() - k,
    {
        combined.push(owners[k].clone());
        proof {
            assert(combined@ =~= with_author + owners@.take(k + 1));
        }
        k = k + 1;
    }
    proof {
        assert(owners@.take(owners@.len() as int) =~= owners@);
        assert(combined@ =~= maintainers@ + opt_author(*author) + owners@);
    }
    dedup(combined)
}

/// Law: with two relevant status events of distinct timestamps, the more
/// recent one decides the status, whatever the order in which the two
/// arrived.
pub proof fn lemma_status_recency(a: StatusEvent, b: StatusEvent, authorized: Seq<String>)
    requires
        relevant(a, authorized),
        relevant(b, authorized),
        b.created_at > a.created_at,
    ensures
        winner_from(seq![a, b], authorized) == Some(b),
        winner_from(seq![b, a], authorized) == Some(b),
{
    let s1 = seq![a, b];
    let s2 = seq![b, a];
    assert(s1.drop_first() =~= seq![b]);
    assert(s2.drop_first() =~= seq![a]);
    assert(seq![b].drop_first() =~= Seq::<StatusEvent>::empty());
    assert(seq![a].drop_first() =~= Seq::<StatusEvent>::empty());
    assert(winner_from(Seq::<StatusEvent>::empty(), authorized) is None);
    assert(seq![b][0] == b);
    assert(seq![a][0] == a);
    assert(s1[0] == a);
    assert(s2[0] == b);
    assert(winner_from(seq![b], authorized) == Some(b));
    assert(winner_from(seq![a], authorized) == Some(a));
    assert(beats(b, a));
    crate::strutil::lemma_chars_lt_irrefl(a.id@);
    assert(!beats(a, b));
}

/// Law: a status event from a signer outside the authorized set never
/// affects the resolved status, wherever it sits in the fetched list and
/// however recent it is.
pub proof fn lemma_unauthorized_excluded(
    prefix: Seq<StatusEvent>,
    e: StatusEvent,
    suffix: Seq<StatusEvent>,
    authorized: Seq<String>,
)
    requires
        !str_in(authorized, e.author@),
    ensures
        winner_from(prefix + seq![e] + suffix, authorized) == winner_from(
            prefix + suffix,
            authorized,
        ),
    decreases prefix.len(),
{
    if prefix.len() == 0 {
        let s1 = prefix + seq![e] + suffix;
        assert(s1 =~= seq![e] + suffix);
        assert((seq![e] + suffix)[0] == e);
        assert(!relevant(e, authorized));
        assert((seq![e] + suffix).drop_first() =~= suffix);
        assert(prefix + suffix =~= suffix);
    } else {
        let h = prefix[0];
        let p2 = prefix.drop_first();
        lemma_unauthorized_excluded(p2, e, suffix, authorized);
        let s1 = prefix + seq![e] + suffix;
        let s2 = prefix + suffix;
        assert(s1.len() > 0);
        assert(s2.len() > 0);
        assert(s1[0] == h);
        assert(s2[0] == h);
        assert(s1.drop_first() =~= p2 + seq![e] + suffix);
        assert(s2.drop_first() =~= p2 + suffix);
    }
}

} // verus!
