//! The relay set builder.
//!
//! Relay URLs are gathered from many sources — explicit input, coordinate
//! hints, repository announcements, relay-list documents, content mentions —
//! concatenated in precedence order and deduplicated so that each distinct
//! URL keeps its first occurrence.  Insertion order is preserved because
//! downstream consumers only use the first few entries.

use vstd::prelude::*;

verus! {

/// Whether a string with view `x` occurs in `s`.
pub open spec fn str_in(s: Seq<String>, x: Seq<char>) -> bool {
    exists|i: int| 0 <= i < s.len() && s[i]@ == x
}

/// `s` with duplicates removed, keeping the first occurrence of each value.
pub open spec fn dedup_first(s: Seq<String>) -> Seq<String>
    decreases s.len(),
{
    if s.len() == 0 {
        s
    } else {
        let prefix = dedup_first(s.drop_last());
        if str_in(s.drop_last(), s.last()@) {
            prefix
        } else {
            prefix.push(s.last())
        }
    }
}

/// Deduplication keeps exactly the values that were present.
pub proof fn lemma_dedup_first_membership(s: Seq<String>, x: Seq<char>)
    ensures
        str_in(dedup_first(s), x) == str_in(s, x),
    decreases s.len(),
{
    if s.len() > 0 {
        let d = s.drop_last();
        lemma_dedup_first_membership(d, x);
        let prefix = dedup_first(d);
        let dd = dedup_first(s);
        assert(str_in(d, x) ==> str_in(s, x)) by {
            if str_in(d, x) {
                let j = choose|j: int| 0 <= j < d.len() && d[j]@ == x;
                assert(s[j] == d[j]);
            }
        }
        assert(str_in(prefix, x) ==> str_in(dd, x)) by {
            if str_in(prefix, x) {
                let k = choose|k: int| 0 <= k < prefix.len() && prefix[k]@ == x;
                assert(dd[k] == prefix[k]);
            }
        }
        if str_in(s, x) {
            let i = choose|i: int| 0 <= i < s.len() && s[i]@ == x;
            if i < s.len() - 1 {
                assert(d[i] == s[i]);
                assert(str_in(d, x));
            } else {
                assert(s.last()@ == x);
                if str_in(d, s.last()@) {
                    assert(str_in(d, x));
                } else {
                    assert(dd == prefix.push(s.last()));
                    assert(dd[prefix.len() as int] == s.last());
                    assert(str_in(dd, x));
                }
            }
        }
        if str_in(dd, x) {
            let i = choose|i: int| 0 <= i < dd.len() && dd[i]@ == x;
            if str_in(d, s.last()@) {
                assert(dd == prefix);
            } else {
                assert(dd == prefix.push(s.last()));
                if i < prefix.len() {
                    assert(prefix[i] == dd[i]);
                } else {
                    assert(dd[i] == s.last());
                    assert(s[s.len() - 1]@ == x);
                    assert(str_in(s, x));
                }
            }
            if str_in(prefix, x) {
                assert(str_in(d, x));
                let j = choose|j: int| 0 <= j < d.len() && d[j]@ == x;
                assert(s[j] == d[j]);
                assert(str_in(s, x));
            }
        }
    }
}

/// The deduplicated list holds each value at most once.
pub proof fn lemma_dedup_first_nodup(s: Seq<String>)
    ensures
        forall|i: int, j: int|
            0 <= i < j < dedup_first(s).len() ==> dedup_first(s)[i]@ != dedup_first(s)[j]@,
    decreases s.len(),
{
    if s.len() > 0 {
        let d = s.drop_last();
        lemma_dedup_first_nodup(d);
        let prefix = dedup_first(d);
        if !str_in(d, s.last()@) {
            assert forall|i: int, j: int|
                0 <= i < j < dedup_first(s).len() implies dedup_first(s)[i]@ != dedup_first(
                s,
            )[j]@ by {
                if j < prefix.len() {
                    assert(dedup_first(s)[i] == prefix[i]);
                    assert(dedup_first(s)[j] == prefix[j]);
                } else {
                    assert(dedup_first(s)[j] == s.last());
                    assert(dedup_first(s)[i] == prefix[i]);
                    if prefix[i]@ == s.last()@ {
                        lemma_dedup_first_membership(d, s.last()@);
                        assert(str_in(prefix, s.last()@));
                        assert(str_in(d, s.last()@));
                        assert(false);
                    }
                }
            }
        }
    }
}

/// The index of the first occurrence of `x` in `s` (or `s.len()` when `x`
/// does not occur).
pub open spec fn first_occ(s: Seq<String>, x: Seq<char>) -> int
    decreases s.len(),
{
    if s.len() == 0 {
        0
    } else if s[0]@ == x {
        0
    } else {
        1 + first_occ(s.drop_first(), x)
    }
}

/// What `first_occ` returns.
pub proof fn lemma_first_occ(s: Seq<String>, x: Seq<char>)
    ensures
        0 <= first_occ(s, x) <= s.len(),
        str_in(s, x) ==> first_occ(s, x) < s.len() && s[first_occ(s, x)]@ == x,
        forall|k: int| 0 <= k < first_occ(s, x) ==> s[k]@ != x,
        !str_in(s, x) ==> first_occ(s, x) == s.len(),
    decreases s.len(),
{
    if s.len() > 0 && s[0]@ != x {
        let d = s.drop_first();
        lemma_first_occ(d, x);
        assert forall|i: int| 0 <= i < d.len() implies d[i] == s[i + 1] by {}
        assert forall|k: int| 0 <= k < first_occ(s, x) implies s[k]@ != x by {
            if k > 0 {
                assert(d[k - 1] == s[k]);
            }
        }
        if str_in(s, x) {
            let i = choose|i: int| 0 <= i < s.len() && s[i]@ == x;
            assert(d[i - 1] == s[i]);
            assert(str_in(d, x));
        }
        if str_in(d, x) {
            let i = choose|i: int| 0 <= i < d.len() && d[i]@ == x;
            assert(s[i + 1] == d[i]);
            assert(str_in(s, x));
        }
    }
}

/// Appending a value at the end does not move the first occurrence of a
/// value already present.
pub proof fn lemma_first_occ_append(s: Seq<String>, t: String, x: Seq<char>)
    requires
        str_in(s, x),
    ensures
        first_occ(s.push(t), x) == first_occ(s, x),
    decreases s.len(),
{
    if s.len() > 0 && s[0]@ != x {
        let d = s.drop_first();
        assert(s.push(t)[0] == s[0]);
        assert(s.push(t).drop_first() =~= d.push(t));
        let i = choose|i: int| 0 <= i < s.len() && s[i]@ == x;
        assert(d[i - 1] == s[i]);
        lemma_first_occ_append(d, t, x);
    } else if s.len() > 0 {
        assert(s.push(t)[0] == s[0]);
    }
}

/// The deduplicated list keeps distinct values in the order of their first
/// occurrences.
pub proof fn lemma_dedup_first_order(s: Seq<String>)
    ensures
        forall|i: int, j: int|
            0 <= i < j < dedup_first(s).len() ==> first_occ(s, dedup_first(s)[i]@) < first_occ(
                s,
                dedup_first(s)[j]@,
            ),
    decreases s.len(),
{
    if s.len() > 0 {
        let d = s.drop_last();
        let last = s.last();
        lemma_dedup_first_order(d);
        let prefix = dedup_first(d);
        assert(s =~= d.push(last));
        assert forall|i: int, j: int|
            0 <= i < j < dedup_first(s).len() implies first_occ(s, dedup_first(s)[i]@)
            < first_occ(s, dedup_first(s)[j]@) by {
            lemma_dedup_first_membership(d, dedup_first(s)[i]@);
            lemma_dedup_first_membership(d, dedup_first(s)[j]@);
            if str_in(d, last@) {
                assert(dedup_first(s) == prefix);
                assert(str_in(prefix, prefix[i]@));
                assert(str_in(prefix, prefix[j]@));
                lemma_first_occ_append(d, last, prefix[i]@);
                lemma_first_occ_append(d, last, prefix[j]@);
            } else {
                if j < prefix.len() {
                    assert(dedup_first(s)[i] == prefix[i]);
                    assert(dedup_first(s)[j] == prefix[j]);
                    assert(str_in(prefix, prefix[i]@));
                    assert(str_in(prefix, prefix[j]@));
                    lemma_first_occ_append(d, last, prefix[i]@);
                    lemma_first_occ_append(d, last, prefix[j]@);
                } else {
                    assert(dedup_first(s)[j] == last);
                    assert(dedup_first(s)[i] == prefix[i]);
                    assert(str_in(prefix, prefix[i]@));
                    lemma_first_occ_append(d, last, prefix[i]@);
                    lemma_first_occ(d, prefix[i]@);
                    lemma_first_occ(s, last@);
                    lemma_first_occ(d, last@);
                    // the new value first occurs at the very end
                    assert forall|k: int| 0 <= k < d.len() implies s[k]@ != last@ by {
                        assert(s[k] == d[k]);
                    }
                    crate::relays::lemma_first_occ_is(s, last@, s.len() - 1);
                }
            }
        }
    }
}

/// A position with the scan properties is the first occurrence.
pub proof fn lemma_first_occ_is(s: Seq<String>, x: Seq<char>, k: int)
    requires
        0 <= k < s.len(),
        s[k]@ == x,
        forall|j: int| 0 <= j < k ==> s[j]@ != x,
    ensures
        first_occ(s, x) == k,
    decreases s.len(),
{
    if s.len() > 0 && s[0]@ != x {
        let d = s.drop_first();
        assert forall|i: int| 0 <= i < d.len() implies d[i] == s[i + 1] by {}
        lemma_first_occ_is(d, x, k - 1);
    }
}

/// Whether `x` occurs in `v`.
pub fn contains_str(v: &Vec<String>, x: &String) -> (r: bool)
    ensures
        r == str_in(v@, x@),
{
    let mut i: usize = 0;
    while i < v.len()
        invariant
            0 <= i <= v@.len(),
            forall|j: int| 0 <= j < i ==> v@[j]@ != x@,
        decreases v.len() - i,
    {
        if v[i] == *x {
            return true;
        }
        i = i + 1;
    }
    false
}

/// Returns a vector with duplicate elements removed, keeping the first
/// occurrence of each value.
pub fn dedup(items: Vec<String>) -> (r: Vec<String>)
    ensures
        r@ == dedup_first(items@),
{
    let ghost full = items@;
    let mut rest = items;
    let mut out: Vec<String> = Vec::new();
    proof {
        assert(full.skip(0) =~= full);
        assert(full.take(0) =~= Seq::<String>::empty());
    }
    while rest.len() > 0
        invariant
            rest@.len() <= full.len(),
            rest@ =~= full.skip(full.len() - rest@.len()),
            out@ == dedup_first(full.take(full.len() - rest@.len())),
        decreases rest.len(),
    {
        let ghost n = full.len() - rest@.len();
        let ghost prefix = full.take(n as int);
        let x = rest.remove(0);
        proof {
            assert(x == full[n as int]);
            assert(rest@ =~= full.skip(n + 1));
            assert(full.take(n + 1).drop_last() =~= prefix);
            assert(full.take(n + 1).last() == x);
            lemma_dedup_first_membership(prefix, x@);
        }
        if !contains_str(&out, &x) {
            out.push(x);
        }
    }
    proof {
        assert(full.take(full.len() as int) =~= full);
    }
    out
}

/// The concatenation of all the lists, in order.
pub open spec fn flatten_strs(s: Seq<Vec<String>>) -> Seq<String>
    decreases s.len(),
{
    if s.len() == 0 {
        Seq::empty()
    } else {
        flatten_strs(s.drop_last()) + s.last()@
    }
}

/// Merges relay lists given in precedence order: they are concatenated and
/// deduplicated, each distinct URL keeping its first occurrence, so that
/// truncation downstream is meaningful.
pub fn merge(sources: &Vec<Vec<String>>) -> (r: Vec<String>)
    ensures
        r@ == dedup_first(flatten_strs(sources@)),
{
    let mut out: Vec<String> = Vec::new();
    let ghost full = sources@;
    let ghost acc = Seq::<String>::empty();
    let mut i: usize = 0;
    proof {
        assert(flatten_strs(full.take(0)) =~= Seq::<String>::empty());
        assert(out@ =~= dedup_first(Seq::<String>::empty()));
    }
    while i < sources.len()
        invariant
            0 <= i <= full.len(),
            full == sources@,
            out@ == dedup_first(flatten_strs(full.take(i as int))),
        decreases sources.len() - i,
    {
        let src = &sources[i];
        let mut j: usize = 0;
        while j < src.len()
            invariant
                0 <= j <= src@.len(),
                0 <= i < full.len(),
                full == sources@,
                src@ == full[i as int]@,
                out@ == dedup_first(flatten_strs(full.take(i as int)) + src@.take(j as int)),
            decreases src.len() - j,
        {
            let ghost acc_now = flatten_strs(full.take(i as int)) + src@.take(j as int);
            let x = src[j].clone();
            proof {
                let bigger = flatten_strs(full.take(i as int)) + src@.take(j + 1);
                assert(bigger.drop_last() =~= acc_now);
                assert(bigger.last() == src@[j as int]);
                assert(x == src@[j as int]);
                lemma_dedup_first_membership(acc_now, x@);
            }
            if !contains_str(&out, &x) {
                out.push(x);
            }
            j = j + 1;
        }
        proof {
            assert(src@.take(src@.len() as int) =~= src@);
            assert(full.take(i + 1).drop_last() =~= full.take(i as int));
            assert(full.take(i + 1).last() == full[i as int]);
            assert(flatten_strs(full.take(i + 1)) =~= flatten_strs(full.take(i as int))
                + full[i as int]@);
        }
        i = i + 1;
    }
    proof {
        assert(full.take(full.len() as int) =~= full);
    }
    out
}

/// The role a relay-list entry can be restricted to.
#[derive(Debug, Clone, Copy, PartialEq, Eq, Structural)]
pub enum RelayRole {
    /// The user reads from this relay.
    Read,
    /// The user writes to this relay.
    Write,
}

/// One entry of a user's relay-list document: a URL and an optional role
/// restriction.  No restriction means both roles.
#[derive(Debug, Clone)]
pub struct RelayListEntry {
    /// The relay URL.
    pub url: String,
    /// The role restriction, if any.
    pub marker: Option<RelayRole>,
}

/// Whether an entry serves the requested role.
pub open spec fn serves_role(e: RelayListEntry, role: RelayRole) -> bool {
    e.marker is None || e.marker == Some(role)
}

/// The URLs of the entries serving the requested role, in order.
pub open spec fn extract_role_spec(s: Seq<RelayListEntry>, role: RelayRole) -> Seq<String>
    decreases s.len(),
{
    if s.len() == 0 {
        Seq::empty()
    } else {
        let prefix = extract_role_spec(s.drop_last(), role);
        if serves_role(s.last(), role) {
            prefix.push(s.last().url)
        } else {
            prefix
        }
    }
}

/// Returns the URLs whose role restriction is absent or matches the
/// requested role.
pub fn extract_role(entries: &Vec<RelayListEntry>, role: RelayRole) -> (r: Vec<String>)
    ensures
        r@ == extract_role_spec(entries@, role),
{
    let mut out: Vec<String> = Vec::new();
    let mut i: usize = 0;
    proof {
        assert(entries@.take(0) =~= Seq::<RelayListEntry>::empty());
    }
    while i < entries.len()
        invariant
            0 <= i <= entries@.len(),
            out@ == extract_role_spec(entries@.take(i as int), role),
        decreases entries.len() - i,
    {
        proof {
            assert(entries@.take(i + 1).drop_last() =~= entries@.take(i as int));
            assert(entries@.take(i + 1).last() == entries@[i as int]);
        }
        let keep = match &entries[i].marker {
            Option::None => true,
            Option::Some(m) => *m == role,
        };
        if keep {
            out.push(entries[i].url.clone());
        }
        i = i + 1;
    }
    proof {
        assert(entries@.take(entries@.len() as int) =~= entries@);
    }
    out
}

/// Extracts read relay URLs from a relay-list document if present,
/// otherwise returns an empty vector.  Absence is never an error.
pub fn add_read_relays(doc: Option<&Vec<RelayListEntry>>) -> (r: Vec<String>)
    ensures
        doc matches Some(d) ==> r@ == extract_role_spec(d@, RelayRole::Read),
        doc is None ==> r@.len() == 0,
{
    match doc {
        Some(entries) => extract_role(entries, RelayRole::Read),
        None => Vec::new(),
    }
}

/// Extracts write relay URLs from a relay-list document if present,
/// otherwise returns an empty vector.  Absence is never an error.
pub fn add_write_relays(doc: Option<&Vec<RelayListEntry>>) -> (r: Vec<String>)
    ensures
        doc matches Some(d) ==> r@ == extract_role_spec(d@, RelayRole::Write),
        doc is None ==> r@.len() == 0,
{
    match doc {
        Some(entries) => extract_role(entries, RelayRole::Write),
        None => Vec::new(),
    }
}

} // verus!
