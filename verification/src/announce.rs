//! Decoding of repository announcements and relay-list documents from raw
//! wire tags, and the recognition of GRASP servers among clone URLs.

use nostr::nips::nip19::FromBech32;
use vstd::prelude::*;

use crate::relays::{RelayListEntry, RelayRole};
use crate::strutil::{chars_match_at, match_at, str_to_chars, string_from_range, subvec};

verus! {

/// A materialized view of a repository's latest announcement event.
#[derive(Debug, Clone)]
pub struct RepoAnnouncement {
    /// The repository identifier.
    pub id: String,
    /// The repository name, if announced.
    pub name: Option<String>,
    /// The repository description, if announced.
    pub description: Option<String>,
    /// The earliest unique commit hash, if announced.
    pub euc: Option<String>,
    /// The web URLs.
    pub web: Vec<String>,
    /// The clone URLs.
    pub clone: Vec<String>,
    /// The repository relays.
    pub relays: Vec<String>,
    /// The maintainers' public keys, in hex.
    pub maintainers: Vec<String>,
}

/// Whether a raw tag has the given name and at least `min_len` values.
pub open spec fn named_at(t: Vec<String>, name: Seq<char>, min_len: int) -> bool {
    t@.len() >= min_len && t@[0]@ == name
}

/// The first raw tag with the given name and length, or nothing.
pub open spec fn first_named(tags: Seq<Vec<String>>, name: Seq<char>, min_len: int) -> Option<
    Vec<String>,
>
    decreases tags.len(),
{
    if tags.len() == 0 {
        None
    } else if named_at(tags[0], name, min_len) {
        Some(tags[0])
    } else {
        first_named(tags.drop_first(), name, min_len)
    }
}

/// Finds the index of the first raw tag with the given name and length.
fn find_named(tags: &Vec<Vec<String>>, name: &String, min_len: usize) -> (r: Option<usize>)
    requires
        min_len >= 1,
    ensures
        r is Some <==> first_named(tags@, name@, min_len as int) is Some,
        r matches Some(i) ==> i < tags@.len() && first_named(tags@, name@, min_len as int)
            == Some(tags@[i as int]) && tags@[i as int]@.len() >= min_len,
{
    let mut i: usize = 0;
    proof {
        assert(tags@.skip(0) =~= tags@);
    }
    while i < tags.len()
        invariant
            min_len >= 1,
            0 <= i <= tags@.len(),
            first_named(tags@, name@, min_len as int) == first_named(
                tags@.skip(i as int),
                name@,
                min_len as int,
            ),
        decreases tags.len() - i,
    {
        proof {
            assert(tags@.skip(i as int)[0] == tags@[i as int]);
            assert(tags@.skip(i as int).drop_first() =~= tags@.skip(i + 1));
        }
        let t = &tags[i];
        if t.len() >= min_len && t[0] == *name {
            return Some(i);
        }
        i = i + 1;
    }
    None
}

/// Builds a string equal to the given literal.
fn new_string(s: &str) -> (r: String)
    ensures
        r@ == s@,
{
    s.to_owned()
}

/// The values of a raw tag after the name, cloned.
fn tag_values(t: &Vec<String>) -> (r: Vec<String>)
    requires
        t@.len() >= 1,
    ensures
        r@ =~= t@.skip(1),
{
    let mut out: Vec<String> = Vec::new();
    let mut i: usize = 1;
    proof {
        assert(t@.subrange(1, 1) =~= Seq::<String>::empty());
    }
    while i < t.len()
        invariant
            1 <= i <= t@.len(),
            out@ =~= t@.subrange(1, i as int),
        decreases t.len() - i,
    {
        out.push(t[i].clone());
        proof {
            assert(out@ =~= t@.subrange(1, i + 1));
        }
        i = i + 1;
    }
    proof {
        assert(t@.subrange(1, t@.len() as int) =~= t@.skip(1));
    }
    out
}

/// Whether a raw tag is the earliest-unique-commit reference: an `r` tag
/// whose last value is the `euc` marker.
pub open spec fn euc_at(t: Vec<String>, r_name: Seq<char>, euc_marker: Seq<char>) -> bool {
    t@.len() >= 3 && t@[0]@ == r_name && t@[t@.len() - 1]@ == euc_marker
}

/// The first earliest-unique-commit tag, or nothing.
pub open spec fn first_euc(tags: Seq<Vec<String>>) -> Option<Vec<String>>
    decreases tags.len(),
{
    if tags.len() == 0 {
        None
    } else if euc_at(tags[0], "r"@, "euc"@) {
        Some(tags[0])
    } else {
        first_euc(tags.drop_first())
    }
}

/// Finds the index of the first earliest-unique-commit tag.
fn find_euc(tags: &Vec<Vec<String>>) -> (r: Option<usize>)
    ensures
        r is Some <==> first_euc(tags@) is Some,
        r matches Some(i) ==> i < tags@.len() && first_euc(tags@) == Some(tags@[i as int])
            && tags@[i as int]@.len() >= 3,
{
    let r_name = new_string("r");
    let euc_marker = new_string("euc");
    let mut i: usize = 0;
    proof {
        assert(tags@.skip(0) =~= tags@);
    }
    while i < tags.len()
        invariant
            0 <= i <= tags@.len(),
            r_name@ == "r"@,
            euc_marker@ == "euc"@,
            first_euc(tags@) == first_euc(tags@.skip(i as int)),
        decreases tags.len() - i,
    {
        proof {
            assert(tags@.skip(i as int)[0] == tags@[i as int]);
            assert(tags@.skip(i as int).drop_first() =~= tags@.skip(i + 1));
        }
        let t = &tags[i];
        if t.len() >= 3 && t[0] == r_name && t[t.len() - 1] == euc_marker {
            return Some(i);
        }
        i = i + 1;
    }
    None
}

/// Decodes a repository announcement from the raw tags of a fetched
/// event.  Each descriptor is taken from the first tag of its name: the
/// single-valued name and description, the earliest unique commit, and
/// the web, clone, relay and maintainer lists.  A missing descriptor is
/// absent or empty, never an error.
pub fn event_into_repo(tags: &Vec<Vec<String>>, repo_id: String) -> (r: RepoAnnouncement)
    ensures
        r.id == repo_id,
        r.name is Some <==> first_named(tags@, "name"@, 2) is Some,
        first_named(tags@, "name"@, 2) matches Some(t) ==> (r.name matches Some(n) && n@
            == t@[1]@),
        r.description is Some <==> first_named(tags@, "description"@, 2) is Some,
        first_named(tags@, "description"@, 2) matches Some(t) ==> (r.description matches Some(d)
            && d@ == t@[1]@),
        r.euc is Some <==> first_euc(tags@) is Some,
        first_euc(tags@) matches Some(t) ==> (r.euc matches Some(e) && e@ == t@[1]@),
        first_named(tags@, "web"@, 2) matches Some(t) ==> r.web@ =~= t@.skip(1),
        first_named(tags@, "web"@, 2) is None ==> r.web@.len() == 0,
        first_named(tags@, "clone"@, 2) matches Some(t) ==> r.clone@ =~= t@.skip(1),
        first_named(tags@, "clone"@, 2) is None ==> r.clone@.len() == 0,
        first_named(tags@, "relays"@, 2) matches Some(t) ==> r.relays@ =~= t@.skip(1),
        first_named(tags@, "relays"@, 2) is None ==> r.relays@.len() == 0,
        first_named(tags@, "maintainers"@, 2) matches Some(t) ==> r.maintainers@ =~= t@.skip(1),
        first_named(tags@, "maintainers"@, 2) is None ==> r.maintainers@.len() == 0,
{
    let name_key = new_string("name");
    let desc_key = new_string("description");
    let web_key = new_string("web");
    let clone_key = new_string("clone");
    let relays_key = new_string("relays");
    let maint_key = new_string("maintainers");
    let name = match find_named(tags, &name_key, 2) {
        Some(i) => Some(tags[i][1].clone()),
        None => None,
    };
    let description = match find_named(tags, &desc_key, 2) {
        Some(i) => Some(tags[i][1].clone()),
        None => None,
    };
    let euc = match find_euc(tags) {
        Some(i) => Some(tags[i][1].clone()),
        None => None,
    };
    let web = match find_named(tags, &web_key, 2) {
        Some(i) => tag_values(&tags[i]),
        None => Vec::new(),
    };
    let clone = match find_named(tags, &clone_key, 2) {
        Some(i) => tag_values(&tags[i]),
        None => Vec::new(),
    };
    let relays = match find_named(tags, &relays_key, 2) {
        Some(i) => tag_values(&tags[i]),
        None => Vec::new(),
    };
    let maintainers = match find_named(tags, &maint_key, 2) {
        Some(i) => tag_values(&tags[i]),
        None => Vec::new(),
    };
    RepoAnnouncement { id: repo_id, name, description, euc, web, clone, relays, maintainers }
}

/// The relay-list entries a sequence of raw tags decodes to: every `r`
/// tag contributes its URL; a third value restricts the role (`read` or
/// `write`), an absent or empty third value means both roles, and any
/// other restriction drops the entry.
pub open spec fn relay_entries_spec(tags: Seq<Vec<String>>) -> Seq<RelayListEntry>
    decreases tags.len(),
{
    if tags.len() == 0 {
        Seq::empty()
    } else {
        let prefix = relay_entries_spec(tags.drop_last());
        let t = tags.last();
        if t@.len() >= 2 && t@[0]@ == "r"@ {
            if t@.len() == 2 || t@[2]@ =~= Seq::<char>::empty() {
                prefix.push(RelayListEntry { url: t@[1], marker: None })
            } else if t@[2]@ == "read"@ {
                prefix.push(RelayListEntry { url: t@[1], marker: Some(RelayRole::Read) })
            } else if t@[2]@ == "write"@ {
                prefix.push(RelayListEntry { url: t@[1], marker: Some(RelayRole::Write) })
            } else {
                prefix
            }
        } else {
            prefix
        }
    }
}

/// Decodes a user's relay-list document from the raw tags of a fetched
/// event.
pub fn relay_list_entries(tags: &Vec<Vec<String>>) -> (r: Vec<RelayListEntry>)
    ensures
        r@ == relay_entries_spec(tags@),
{
    let r_key = new_string("r");
    let read_key = new_string("read");
    let write_key = new_string("write");
    let mut out: Vec<RelayListEntry> = Vec::new();
    let mut i: usize = 0;
    proof {
        assert(tags@.take(0) =~= Seq::<Vec<String>>::empty());
    }
    while i < tags.len()
        invariant
            0 <= i <= tags@.len(),
            r_key@ == "r"@,
            read_key@ == "read"@,
            write_key@ == "write"@,
            out@ == relay_entries_spec(tags@.take(i as int)),
        decreases tags.len() - i,
    {
        proof {
            assert(tags@.take(i + 1).drop_last() =~= tags@.take(i as int));
            assert(tags@.take(i + 1).last() == tags@[i as int]);
        }
        let t = &tags[i];
        if t.len() >= 2 && t[0] == r_key {
            if t.len() == 2 || t[2].as_str().is_empty() {
                proof {
                    if t@.len() > 2 && t@[2]@.len() == 0 {
                        assert(t@[2]@ =~= Seq::<char>::empty());
                    }
                }
                out.push(RelayListEntry { url: t[1].clone(), marker: None });
            } else if t[2] == read_key {
                out.push(RelayListEntry { url: t[1].clone(), marker: Some(RelayRole::Read) });
            } else if t[2] == write_key {
                out.push(RelayListEntry { url: t[1].clone(), marker: Some(RelayRole::Write) });
            }
        }
        i = i + 1;
    }
    proof {
        assert(tags@.take(tags@.len() as int) =~= tags@);
    }
    out
}

/// What nostr's `PublicKey::from_bech32` accepts: validity of an encoded
/// public key depends on the input characters alone.
pub uninterp spec fn npub_valid(s: Seq<char>) -> bool;

/// Relies on nostr's `PublicKey::from_bech32` to decide whether a path
/// segment encodes a public key.
#[verifier::external_body]
fn is_valid_pubkey_bech32(s: &str) -> (r: bool)
    ensures
        r == npub_valid(s@),
{
    nostr::key::PublicKey::from_bech32(s).is_ok()
}

/// The position of the last slash of `s[0..upto]`, or -1 if there is
/// none.
pub open spec fn last_slash(s: Seq<char>, upto: int) -> int
    decreases upto,
{
    if upto <= 0 || upto > s.len() {
        -1
    } else if s[upto - 1] == '/' {
        upto - 1
    } else {
        last_slash(s, upto - 1)
    }
}

/// A position with the backward-scan properties is the last slash.
proof fn lemma_last_slash_is(s: Seq<char>, upto: int, k: int)
    requires
        -1 <= k < upto <= s.len(),
        forall|j: int| k < j < upto ==> s[j] != '/',
        k >= 0 ==> s[k] == '/',
    ensures
        last_slash(s, upto) == k,
    decreases upto,
{
    if upto > 0 && s[upto - 1] != '/' {
        lemma_last_slash_is(s, upto - 1, k);
    }
}

/// Finds the last slash of `v[0..upto]`, or `upto` when there is none.
fn find_last_slash(v: &Vec<char>, upto: usize) -> (r: usize)
    requires
        upto <= v@.len(),
    ensures
        r <= upto,
        r < upto ==> r == last_slash(v@, upto as int),
        r == upto ==> last_slash(v@, upto as int) == -1,
{
    let mut i: usize = upto;
    while i > 0 && v[i - 1] != '/'
        invariant
            0 <= i <= upto <= v@.len(),
            forall|j: int| i <= j < upto ==> v@[j] != '/',
        decreases i,
    {
        i = i - 1;
    }
    if i == 0 {
        proof {
            lemma_last_slash_is(v@, upto as int, -1);
        }
        upto
    } else {
        proof {
            lemma_last_slash_is(v@, upto as int, i - 1);
        }
        i - 1
    }
}

/// The characters of the literal `.git`.
pub open spec fn git_ext() -> Seq<char> {
    seq!['.', 'g', 'i', 't']
}

/// Whether a URL is a GRASP clone URL: its last path segment is longer
/// than four characters and ends with `.git`, and the segment before it
/// encodes a public key.
pub open spec fn is_grasp_clone_spec(s: Seq<char>) -> bool {
    let l1 = last_slash(s, s.len() as int);
    if l1 < 0 {
        false
    } else {
        let seg = s.subrange(l1 + 1, s.len() as int);
        let l2 = last_slash(s, l1);
        let seg2 = s.subrange(l2 + 1, l1);
        seg.len() > 4 && match_at(seg, seg.len() - 4, git_ext()) && npub_valid(seg2)
    }
}

/// Checks whether the URL is a GRASP clone URL.
pub fn is_grasp_clone(url: &String) -> (r: bool)
    ensures
        r == is_grasp_clone_spec(url@),
{
    let v = str_to_chars(url.as_str());
    let n = v.len();
    let l1 = find_last_slash(&v, n);
    if l1 == n {
        return false;
    }
    let seg_len = n - (l1 + 1);
    if seg_len <= 4 {
        return false;
    }
    let mut ext: Vec<char> = Vec::new();
    ext.push('.');
    ext.push('g');
    ext.push('i');
    ext.push('t');
    proof {
        assert(ext@ =~= git_ext());
    }
    let seg = subvec(&v, l1 + 1, n);
    if !chars_match_at(&seg, seg.len() - 4, &ext) {
        return false;
    }
    let l2 = find_last_slash(&v, l1);
    let s2_start = if l2 == l1 {
        0
    } else {
        l2 + 1
    };
    proof {
        if l2 == l1 {
            assert(last_slash(v@, l1 as int) == -1);
        }
    }
    let seg2 = string_from_range(&v, s2_start, l1);
    is_valid_pubkey_bech32(seg2.as_str())
}

/// `s` with every leading occurrence of `pat` removed.
pub open spec fn strip_prefix_rep(s: Seq<char>, pat: Seq<char>) -> Seq<char>
    decreases s.len(),
{
    if pat.len() > 0 && match_at(s, 0, pat) {
        strip_prefix_rep(s.skip(pat.len() as int), pat)
    } else {
        s
    }
}

/// Removes every leading occurrence of `pat` from `v`.
fn strip_prefix_exec(v: Vec<char>, pat: &Vec<char>) -> (r: Vec<char>)
    requires
        pat@.len() > 0,
    ensures
        r@ == strip_prefix_rep(v@, pat@),
{
    let ghost orig = v@;
    let mut cur = v;
    while chars_match_at(&cur, 0, pat)
        invariant
            pat@.len() > 0,
            strip_prefix_rep(cur@, pat@) == strip_prefix_rep(orig, pat@),
        decreases cur.len(),
    {
        let next = subvec(&cur, pat.len(), cur.len());
        proof {
            assert(next@ =~= cur@.skip(pat@.len() as int));
        }
        cur = next;
    }
    cur
}

/// The characters of `https://`.
pub open spec fn https_pat() -> Seq<char> {
    seq!['h', 't', 't', 'p', 's', ':', '/', '/']
}

/// The characters of `http://`.
pub open spec fn http_pat() -> Seq<char> {
    seq!['h', 't', 't', 'p', ':', '/', '/']
}

/// The characters of `wss://`.
pub open spec fn wss_pat() -> Seq<char> {
    seq!['w', 's', 's', ':', '/', '/']
}

/// The characters of `ws://`.
pub open spec fn ws_pat() -> Seq<char> {
    seq!['w', 's', ':', '/', '/']
}

/// A clone URL stripped of its scheme.
pub open spec fn clone_stripped(s: Seq<char>) -> Seq<char> {
    strip_prefix_rep(strip_prefix_rep(s, https_pat()), http_pat())
}

/// A relay URL stripped of a trailing slash and its scheme.
pub open spec fn relay_stripped(s: Seq<char>) -> Seq<char> {
    let t = if s.len() > 0 && s[s.len() - 1] == '/' {
        s.drop_last()
    } else {
        s
    };
    strip_prefix_rep(strip_prefix_rep(t, wss_pat()), ws_pat())
}

/// Whether a relay's host is a prefix of the clone URL's host part.
pub open spec fn grasp_host_match(clone_url: Seq<char>, relay: Seq<char>) -> bool {
    match_at(clone_stripped(clone_url), 0, relay_stripped(relay))
}

/// Builds the characters of the `https://` scheme.
fn https_pat_exec() -> (r: Vec<char>)
    ensures
        r@ == https_pat(),
{
    let mut v: Vec<char> = Vec::new();
    v.push('h');
    v.push('t');
    v.push('t');
    v.push('p');
    v.push('s');
    v.push(':');
    v.push('/');
    v.push('/');
    proof {
        assert(v@ =~= https_pat());
    }
    v
}

/// Builds the characters of the `http://` scheme.
fn http_pat_exec() -> (r: Vec<char>)
    ensures
        r@ == http_pat(),
{
    let mut v: Vec<char> = Vec::new();
    v.push('h');
    v.push('t');
    v.push('t');
    v.push('p');
    v.push(':');
    v.push('/');
    v.push('/');
    proof {
        assert(v@ =~= http_pat());
    }
    v
}

/// Builds the characters of the `wss://` scheme.
fn wss_pat_exec() -> (r: Vec<char>)
    ensures
        r@ == wss_pat(),
{
    let mut v: Vec<char> = Vec::new();
    v.push('w');
    v.push('s');
    v.push('s');
    v.push(':');
    v.push('/');
    v.push('/');
    proof {
        assert(v@ =~= wss_pat());
    }
    v
}

/// Builds the characters of the `ws://` scheme.
fn ws_pat_exec() -> (r: Vec<char>)
    ensures
        r@ == ws_pat(),
{
    let mut v: Vec<char> = Vec::new();
    v.push('w');
    v.push('s');
    v.push(':');
    v.push('/');
    v.push('/');
    proof {
        assert(v@ =~= ws_pat());
    }
    v
}

/// Checks if the provided clone URL is a GRASP clone URL served by one of
/// the relays: the relay's address, scheme aside, must be a prefix of the
/// clone URL, scheme aside.
pub fn is_grasp(relays: &Vec<String>, clone_url: &String) -> (r: bool)
    ensures
        r == (is_grasp_clone_spec(clone_url@) && exists|i: int|
            0 <= i < relays@.len() && grasp_host_match(clone_url@, (#[trigger] relays@[i])@)),
{
    if !is_grasp_clone(clone_url) {
        return false;
    }
    let https = https_pat_exec();
    let http = http_pat_exec();
    let wss = wss_pat_exec();
    let ws = ws_pat_exec();
    let cv = str_to_chars(clone_url.as_str());
    let cstripped = strip_prefix_exec(strip_prefix_exec(cv, &https), &http);
    proof {
        assert(cstripped@ == clone_stripped(clone_url@));
    }
    let mut i: usize = 0;
    while i < relays.len()
        invariant
            is_grasp_clone_spec(clone_url@),
            0 <= i <= relays@.len(),
            cstripped@ == clone_stripped(clone_url@),
            wss@ == wss_pat(),
            ws@ == ws_pat(),
            forall|j: int|
                0 <= j < i ==> !grasp_host_match(clone_url@, (#[trigger] relays@[j])@),
        decreases relays.len() - i,
    {
        let rv = str_to_chars(relays[i].as_str());
        let rt = if rv.len() > 0 && rv[rv.len() - 1] == '/' {
            let t = subvec(&rv, 0, rv.len() - 1);
            proof {
                assert(t@ =~= rv@.drop_last());
            }
            t
        } else {
            rv
        };
        let rstripped = strip_prefix_exec(strip_prefix_exec(rt, &wss), &ws);
        proof {
            assert(rstripped@ == relay_stripped(relays@[i as int]@));
        }
        if chars_match_at(&cstripped, 0, &rstripped) {
            proof {
                assert(grasp_host_match(clone_url@, relays@[i as int]@));
            }
            return true;
        }
        i = i + 1;
    }
    false
}

/// The concatenated relays of all announcements, in order.
pub open spec fn repo_relays(s: Seq<RepoAnnouncement>) -> Seq<String>
    decreases s.len(),
{
    if s.len() == 0 {
        Seq::empty()
    } else {
        repo_relays(s.drop_last()) + s.last().relays@
    }
}

/// The concatenated maintainers of all announcements, in order.
pub open spec fn repo_maintainers(s: Seq<RepoAnnouncement>) -> Seq<String>
    decreases s.len(),
{
    if s.len() == 0 {
        Seq::empty()
    } else {
        repo_maintainers(s.drop_last()) + s.last().maintainers@
    }
}

/// Extracts all relay URLs from the announcements, in order.
pub fn extract_relays(repos: &Vec<RepoAnnouncement>) -> (r: Vec<String>)
    ensures
        r@ == repo_relays(repos@),
{
    let mut out: Vec<String> = Vec::new();
    let mut i: usize = 0;
    proof {
        assert(repos@.take(0) =~= Seq::<RepoAnnouncement>::empty());
        assert(out@ =~= repo_relays(repos@.take(0)));
    }
    while i < repos.len()
        invariant
            0 <= i <= repos@.len(),
            out@ == repo_relays(repos@.take(i as int)),
        decreases repos.len() - i,
    {
        let ghost base = out@;
        let rl = &repos[i].relays;
        let mut k: usize = 0;
        while k < rl.len()
            invariant
                0 <= k <= rl@.len(),
                out@ =~= base + rl@.take(k as int),
                rl@ == repos@[i as int].relays@,
                0 <= i < repos@.len(),
            decreases rl.len() - k,
        {
            out.push(rl[k].clone());
            proof {
                assert(out@ =~= base + rl@.take(k + 1));
            }
            k = k + 1;
        }
        proof {
            assert(rl@.take(rl@.len() as int) =~= rl@);
            assert(repos@.take(i + 1).drop_last() =~= repos@.take(i as int));
            assert(repos@.take(i + 1).last() == repos@[i as int]);
            assert(out@ =~= repo_relays(repos@.take(i + 1)));
        }
        i = i + 1;
    }
    proof {
        assert(repos@.take(repos@.len() as int) =~= repos@);
    }
    out
}

/// Extracts all maintainers from the announcements, in order.
pub fn extract_maintainers(repos: &Vec<RepoAnnouncement>) -> (r: Vec<String>)
    ensures
        r@ == repo_maintainers(repos@),
{
    let mut out: Vec<String> = Vec::new();
    let mut i: usize = 0;
    proof {
        assert(repos@.take(0) =~= Seq::<RepoAnnouncement>::empty());
        assert(out@ =~= repo_maintainers(repos@.take(0)));
    }
    while i < repos.len()
        invariant
            0 <= i <= repos@.len(),
            out@ == repo_maintainers(repos@.take(i as int)),
        decreases repos.len() - i,
    {
        let ghost base = out@;
        let ml = &repos[i].maintainers;
        let mut k: usize = 0;
        while k < ml.len()
            invariant
                0 <= k <= ml@.len(),
                out@ =~= base + ml@.take(k as int),
                ml@ == repos@[i as int].maintainers@,
                0 <= i < repos@.len(),
            decreases ml.len() - k,
        {
            out.push(ml[k].clone());
            proof {
                assert(out@ =~= base + ml@.take(k + 1));
            }
            k = k + 1;
        }
        proof {
            assert(ml@.take(ml@.len() as int) =~= ml@);
            assert(repos@.take(i + 1).drop_last() =~= repos@.take(i as int));
            assert(repos@.take(i + 1).last() == repos@[i as int]);
            assert(out@ =~= repo_maintainers(repos@.take(i + 1)));
        }
        i = i + 1;
    }
    proof {
        assert(repos@.take(repos@.len() as int) =~= repos@);
    }
    out
}

/// The first announced earliest-unique-commit hash, or nothing.
pub open spec fn first_repo_euc(s: Seq<RepoAnnouncement>) -> Option<String>
    decreases s.len(),
{
    if s.len() == 0 {
        None
    } else if s[0].euc is Some {
        s[0].euc
    } else {
        first_repo_euc(s.drop_first())
    }
}

/// Gets the first earliest-unique-commit hash announced by any of the
/// repositories, if one exists.
pub fn extract_euc(repos: &Vec<RepoAnnouncement>) -> (r: Option<String>)
    ensures
        first_repo_euc(repos@) matches Some(e) ==> (r matches Some(re) && re@ == e@),
        first_repo_euc(repos@) is None ==> r is None,
{
    let mut i: usize = 0;
    proof {
        assert(repos@.skip(0) =~= repos@);
    }
    while i < repos.len()
        invariant
            0 <= i <= repos@.len(),
            first_repo_euc(repos@) == first_repo_euc(repos@.skip(i as int)),
        decreases repos.len() - i,
    {
        proof {
            assert(repos@.skip(i as int)[0] == repos@[i as int]);
            assert(repos@.skip(i as int).drop_first() =~= repos@.skip(i + 1));
        }
        match &repos[i].euc {
            Some(e) => {
                return Some(e.clone());
            },
            None => {},
        }
        i = i + 1;
    }
    None
}

/// Retrieves the GRASP servers from the announcement's clone URLs: those
/// served by one of the announcement's relays.
pub open spec fn grasp_servers_spec(relays: Seq<String>, clones: Seq<String>) -> Seq<String>
    decreases clones.len(),
{
    if clones.len() == 0 {
        Seq::empty()
    } else {
        let prefix = grasp_servers_spec(relays, clones.drop_last());
        let c = clones.last();
        if is_grasp_clone_spec(c@) && (exists|i: int|
            0 <= i < relays.len() && grasp_host_match(c@, (#[trigger] relays[i])@)) {
            prefix.push(c)
        } else {
            prefix
        }
    }
}

/// Extracts the GRASP servers of one announcement.
pub fn extract_grasp_servers(repo: &RepoAnnouncement) -> (r: Vec<String>)
    ensures
        r@ == grasp_servers_spec(repo.relays@, repo.clone@),
{
    let mut out: Vec<String> = Vec::new();
    let mut i: usize = 0;
    proof {
        assert(repo.clone@.take(0) =~= Seq::<String>::empty());
    }
    while i < repo.clone.len()
        invariant
            0 <= i <= repo.clone@.len(),
            out@ == grasp_servers_spec(repo.relays@, repo.clone@.take(i as int)),
        decreases repo.clone.len() - i,
    {
        proof {
            assert(repo.clone@.take(i + 1).drop_last() =~= repo.clone@.take(i as int));
            assert(repo.clone@.take(i + 1).last() == repo.clone@[i as int]);
        }
        if is_grasp(&repo.relays, &repo.clone[i]) {
            out.push(repo.clone[i].clone());
        }
        i = i + 1;
    }
    proof {
        assert(repo.clone@.take(repo.clone@.len() as int) =~= repo.clone@);
    }
    out
}

/// The concatenated clone URLs of all announcements, in order.
pub open spec fn repo_clones(s: Seq<RepoAnnouncement>) -> Seq<String>
    decreases s.len(),
{
    if s.len() == 0 {
        Seq::empty()
    } else {
        repo_clones(s.drop_last()) + s.last().clone@
    }
}

/// Extracts all clone URLs from the announcements, in order.
pub fn extract_clones(repos: &Vec<RepoAnnouncement>) -> (r: Vec<String>)
    ensures
        r@ == repo_clones(repos@),
{
    let mut out: Vec<String> = Vec::new();
    let mut i: usize = 0;
    proof {
        assert(repos@.take(0) =~= Seq::<RepoAnnouncement>::empty());
        assert(out@ =~= repo_clones(repos@.take(0)));
    }
    while i < repos.len()
        invariant
            0 <= i <= repos@.len(),
            out@ == repo_clones(repos@.take(i as int)),
        decreases repos.len() - i,
    {
        let ghost base = out@;
        let cl = &repos[i].clone;
        let mut k: usize = 0;
        while k < cl.len()
            invariant
                0 <= k <= cl@.len(),
                out@ =~= base + cl@.take(k as int),
                cl@ == repos@[i as int].clone@,
                0 <= i < repos@.len(),
            decreases cl.len() - k,
        {
            out.push(cl[k].clone());
            proof {
                assert(out@ =~= base + cl@.take(k + 1));
            }
            k = k + 1;
        }
        proof {
            assert(cl@.take(cl@.len() as int) =~= cl@);
            assert(repos@.take(i + 1).drop_last() =~= repos@.take(i as int));
            assert(repos@.take(i + 1).last() == repos@[i as int]);
            assert(out@ =~= repo_clones(repos@.take(i + 1)));
        }
        i = i + 1;
    }
    proof {
        assert(repos@.take(repos@.len() as int) =~= repos@);
    }
    out
}

} // verus!
