//! The tag model of outgoing and incoming events.
//!
//! Tags address events to repositories, mention the people entitled to see
//! them, and carry subjects, labels and references.  Two tags with the same
//! kind and the same primary value are duplicates; assembled tag lists are
//! collapsed so that each duplicate group keeps its first occurrence.

use vstd::prelude::*;

verus! {

/// Reference marker of an `e` tag.
#[derive(Debug, Clone, Copy, PartialEq, Eq, Structural)]
pub enum Marker {
    /// The referenced event is the thread root.
    Root,
    /// The referenced event is the direct parent.
    Reply,
    /// The referenced event is mentioned.
    Mention,
}

/// A repository coordinate: wire kind, owner public key and identifier.
/// Relay hints are not part of the identity.
#[derive(Debug, Clone)]
pub struct Coordinate {
    /// Wire kind of the addressed event.
    pub kind: u16,
    /// Owner public key, in hex.
    pub public_key: String,
    /// Repository identifier.
    pub identifier: String,
}

/// A single event tag.  String fields hold hex keys and ids or plain
/// values; an absent relay hint or author is `None`.
#[derive(Debug, Clone)]
pub enum Tag {
    /// An `e` tag: event reference with optional relay hint and marker.
    Event { id: String, relay: Option<String>, marker: Option<Marker> },
    /// A `q` tag: quoted event with optional relay hint and author.
    Quote { id: String, relay: Option<String>, author: Option<String> },
    /// A `p` tag: public-key mention.
    PublicKey { key: String },
    /// An `a` tag: repository coordinate with optional relay hint.
    Coordinate { kind: u16, public_key: String, identifier: String, relay: Option<String> },
    /// A `t` tag: hashtag.
    Hashtag { tag: String },
    /// An `r` tag: reference.
    Reference { value: String },
    /// A `subject` tag.
    Subject { value: String },
    /// An `alt` tag.
    Alt { value: String },
    /// A `description` tag.
    Description { value: String },
    /// A `d` tag: identifier.
    Identifier { value: String },
    /// Any other tag: its name and values.
    Custom { name: String, values: Vec<String> },
}

/// The first value of a custom tag, or empty.
pub open spec fn first_value(vs: Seq<String>) -> Seq<char> {
    if vs.len() == 0 {
        Seq::empty()
    } else {
        vs[0]@
    }
}

/// Whether two tags have the same kind and the same primary value.
pub open spec fn spec_same_tag(a: Tag, b: Tag) -> bool {
    match (a, b) {
        (Tag::Event { id: ai, .. }, Tag::Event { id: bi, .. }) => ai@ == bi@,
        (Tag::Quote { id: ai, .. }, Tag::Quote { id: bi, .. }) => ai@ == bi@,
        (Tag::PublicKey { key: ak }, Tag::PublicKey { key: bk }) => ak@ == bk@,
        (
            Tag::Coordinate { kind: akk, public_key: ap, identifier: aid, .. },
            Tag::Coordinate { kind: bkk, public_key: bp, identifier: bid, .. },
        ) => akk == bkk && ap@ == bp@ && aid@ == bid@,
        (Tag::Hashtag { tag: at }, Tag::Hashtag { tag: bt }) => at@ == bt@,
        (Tag::Reference { value: av }, Tag::Reference { value: bv }) => av@ == bv@,
        (Tag::Subject { value: av }, Tag::Subject { value: bv }) => av@ == bv@,
        (Tag::Alt { value: av }, Tag::Alt { value: bv }) => av@ == bv@,
        (Tag::Description { value: av }, Tag::Description { value: bv }) => av@ == bv@,
        (Tag::Identifier { value: av }, Tag::Identifier { value: bv }) => av@ == bv@,
        (Tag::Custom { name: an, values: avs }, Tag::Custom { name: bn, values: bvs }) => an@
            == bn@ && first_value(avs@) == first_value(bvs@),
        _ => false,
    }
}

/// Whether some tag of `s` is a duplicate of `t`.
pub open spec fn tag_in(s: Seq<Tag>, t: Tag) -> bool {
    exists|i: int| 0 <= i < s.len() && spec_same_tag(s[i], t)
}

/// `s` with duplicate tags removed, keeping the first occurrence of each
/// duplicate group.
pub open spec fn dedup_tags_spec(s: Seq<Tag>) -> Seq<Tag>
    decreases s.len(),
{
    if s.len() == 0 {
        s
    } else {
        let prefix = dedup_tags_spec(s.drop_last());
        if tag_in(s.drop_last(), s.last()) {
            prefix
        } else {
            prefix.push(s.last())
        }
    }
}

/// Duplicate-sameness is transitive.
pub proof fn lemma_same_tag_trans(a: Tag, b: Tag, c: Tag)
    requires
        spec_same_tag(a, b),
        spec_same_tag(b, c),
    ensures
        spec_same_tag(a, c),
{
}

/// Deduplication keeps exactly the values that were present.
pub proof fn lemma_dedup_tags_membership(s: Seq<Tag>, t: Tag)
    ensures
        tag_in(dedup_tags_spec(s), t) == tag_in(s, t),
    decreases s.len(),
{
    if s.len() > 0 {
        let d = s.drop_last();
        let last = s.last();
        lemma_dedup_tags_membership(d, t);
        let prefix = dedup_tags_spec(d);
        let dd = dedup_tags_spec(s);
        assert(tag_in(d, t) ==> tag_in(s, t)) by {
            if tag_in(d, t) {
                let j = choose|j: int| 0 <= j < d.len() && spec_same_tag(d[j], t);
                assert(s[j] == d[j]);
            }
        }
        assert(tag_in(prefix, t) ==> tag_in(dd, t)) by {
            if tag_in(prefix, t) {
                let k = choose|k: int| 0 <= k < prefix.len() && spec_same_tag(prefix[k], t);
                assert(dd[k] == prefix[k]);
            }
        }
        if tag_in(s, t) {
            let i = choose|i: int| 0 <= i < s.len() && spec_same_tag(s[i], t);
            if i < s.len() - 1 {
                assert(d[i] == s[i]);
                assert(tag_in(d, t));
                assert(tag_in(dd, t));
            } else {
                assert(spec_same_tag(last, t));
                if tag_in(d, last) {
                    let j = choose|j: int| 0 <= j < d.len() && spec_same_tag(d[j], last);
                    lemma_same_tag_trans(d[j], last, t);
                    assert(tag_in(d, t));
                    assert(tag_in(dd, t));
                } else {
                    assert(dd == prefix.push(last));
                    assert(dd[prefix.len() as int] == last);
                    assert(tag_in(dd, t));
                }
            }
        }
        if tag_in(dd, t) {
            let i = choose|i: int| 0 <= i < dd.len() && spec_same_tag(dd[i], t);
            if tag_in(d, last) {
                assert(dd == prefix);
                assert(tag_in(prefix, t));
                assert(tag_in(d, t));
                assert(tag_in(s, t));
            } else {
                assert(dd == prefix.push(last));
                if i < prefix.len() {
                    assert(prefix[i] == dd[i]);
                    assert(tag_in(prefix, t));
                    assert(tag_in(d, t));
                    assert(tag_in(s, t));
                } else {
                    assert(dd[i] == last);
                    assert(spec_same_tag(s[s.len() - 1], t));
                    assert(tag_in(s, t));
                }
            }
        }
    }
}

/// The deduplicated list holds no two duplicate tags.
pub proof fn lemma_dedup_tags_nodup(s: Seq<Tag>)
    ensures
        forall|i: int, j: int|
            0 <= i < j < dedup_tags_spec(s).len() ==> !spec_same_tag(
                dedup_tags_spec(s)[i],
                dedup_tags_spec(s)[j],
            ),
    decreases s.len(),
{
    if s.len() > 0 {
        lemma_dedup_tags_nodup(s.drop_last());
        let prefix = dedup_tags_spec(s.drop_last());
        if !tag_in(s.drop_last(), s.last()) {
            assert forall|i: int, j: int|
                0 <= i < j < dedup_tags_spec(s).len() implies !spec_same_tag(
                dedup_tags_spec(s)[i],
                dedup_tags_spec(s)[j],
            ) by {
                if j < prefix.len() {
                    assert(dedup_tags_spec(s)[i] == prefix[i]);
                    assert(dedup_tags_spec(s)[j] == prefix[j]);
                } else {
                    // j is the newly pushed last tag; no duplicate of it can
                    // sit in the prefix, because membership in the prefix
                    // implies membership in the original list
                    assert(dedup_tags_spec(s)[j] == s.last());
                    assert(dedup_tags_spec(s)[i] == prefix[i]);
                    if spec_same_tag(prefix[i], s.last()) {
                        lemma_dedup_tags_membership(s.drop_last(), s.last());
                        assert(tag_in(prefix, s.last()));
                        assert(tag_in(s.drop_last(), s.last()));
                        assert(false);
                    }
                }
            }
        }
    }
}


/// Law: a deduplicated tag list mentions each public key at most once,
/// however often the key arrived from overlapping sources such as a
/// maintainer list and a content mention.
pub proof fn lemma_dedup_single_mention(s: Seq<Tag>, k: Seq<char>)
    ensures
        forall|i: int, j: int|
            0 <= i < j < dedup_tags_spec(s).len() ==> !((#[trigger] dedup_tags_spec(
                s,
            )[i]) matches Tag::PublicKey { key: a } && a@ == k && ((#[trigger] dedup_tags_spec(
                s,
            )[j]) matches Tag::PublicKey { key: b } && b@ == k)),
{
    lemma_dedup_tags_nodup(s);
    let dd = dedup_tags_spec(s);
    assert forall|i: int, j: int|
        0 <= i < j < dd.len() implies !((#[trigger] dd[i]) matches Tag::PublicKey { key: a }
        && a@ == k && ((#[trigger] dd[j]) matches Tag::PublicKey { key: b } && b@ == k)) by {
        if dd[i] is PublicKey && dd[j] is PublicKey {
            if dd[i]->PublicKey_key@ == k && dd[j]->PublicKey_key@ == k {
                assert(spec_same_tag(dd[i], dd[j]));
            }
        }
    }
}

/// Returns whether two tags are duplicates of each other.
pub fn same_tag(a: &Tag, b: &Tag) -> (r: bool)
    ensures
        r == spec_same_tag(*a, *b),
{
    match (a, b) {
        (Tag::Event { id: ai, .. }, Tag::Event { id: bi, .. }) => *ai == *bi,
        (Tag::Quote { id: ai, .. }, Tag::Quote { id: bi, .. }) => *ai == *bi,
        (Tag::PublicKey { key: ak }, Tag::PublicKey { key: bk }) => *ak == *bk,
        (
            Tag::Coordinate { kind: akk, public_key: ap, identifier: aid, .. },
            Tag::Coordinate { kind: bkk, public_key: bp, identifier: bid, .. },
        ) => *akk == *bkk && *ap == *bp && *aid == *bid,
        (Tag::Hashtag { tag: at }, Tag::Hashtag { tag: bt }) => *at == *bt,
        (Tag::Reference { value: av }, Tag::Reference { value: bv }) => *av == *bv,
        (Tag::Subject { value: av }, Tag::Subject { value: bv }) => *av == *bv,
        (Tag::Alt { value: av }, Tag::Alt { value: bv }) => *av == *bv,
        (Tag::Description { value: av }, Tag::Description { value: bv }) => *av == *bv,
        (Tag::Identifier { value: av }, Tag::Identifier { value: bv }) => *av == *bv,
        (Tag::Custom { name: an, values: avs }, Tag::Custom { name: bn, values: bvs }) => {
            let first_eq: bool = if avs.len() == 0 && bvs.len() == 0 {
                proof {
                    assert(first_value(avs@) =~= first_value(bvs@));
                }
                true
            } else if avs.len() > 0 && bvs.len() > 0 {
                avs[0] == bvs[0]
            } else if avs.len() == 0 {
                let e = bvs[0].as_str().is_empty();
                proof {
                    if e {
                        assert(first_value(avs@) =~= first_value(bvs@));
                    }
                }
                e
            } else {
                let e = avs[0].as_str().is_empty();
                proof {
                    if e {
                        assert(first_value(avs@) =~= first_value(bvs@));
                    }
                }
                e
            };
            *an == *bn && first_eq
        },
        _ => false,
    }
}

/// Whether a duplicate of `t` sits in `s`.
fn contains_tag(s: &Vec<Tag>, t: &Tag) -> (r: bool)
    ensures
        r == tag_in(s@, *t),
{
    let mut i: usize = 0;
    while i < s.len()
        invariant
            0 <= i <= s@.len(),
            forall|j: int| 0 <= j < i ==> !spec_same_tag(s@[j], *t),
        decreases s.len() - i,
    {
        if same_tag(&s[i], t) {
            return true;
        }
        i = i + 1;
    }
    false
}

/// Collapses duplicate tags, keeping the first occurrence of each
/// duplicate group.
pub fn dedup_tags(tags: Vec<Tag>) -> (r: Vec<Tag>)
    ensures
        r@ == dedup_tags_spec(tags@),
{
    let ghost full = tags@;
    let mut rest = tags;
    let mut out: Vec<Tag> = Vec::new();
    proof {
        assert(full.skip(0) =~= full);
        assert(full.take(0) =~= Seq::<Tag>::empty());
    }
    while rest.len() > 0
        invariant
            rest@.len() <= full.len(),
            rest@ =~= full.skip(full.len() - rest@.len()),
            out@ == dedup_tags_spec(full.take(full.len() - rest@.len())),
        decreases rest.len(),
    {
        let ghost n = full.len() - rest@.len();
        let ghost prefix = full.take(n as int);
        let t = rest.remove(0);
        proof {
            assert(t == full[n as int]);
            assert(rest@ =~= full.skip(n + 1));
            assert(full.take(n + 1).drop_last() =~= prefix);
            assert(full.take(n + 1).last() == t);
            lemma_dedup_tags_membership(prefix, t);
        }
        if !contains_tag(&out, &t) {
            out.push(t);
        }
    }
    proof {
        assert(full.take(full.len() as int) =~= full);
    }
    out
}

} // verus!
