//! Named sets of repository addresses and relays, and the resolution of
//! command-line arguments that name either an address, a relay or a set.

use vstd::prelude::*;

use crate::error::N34Error;
use crate::tags::Coordinate;

verus! {

/// A repository address: a coordinate plus advisory relay hints.  The
/// hints are not part of the identity.
#[derive(Debug, Clone)]
pub struct Naddr {
    /// The repository coordinate.
    pub coordinate: Coordinate,
    /// Advisory relay hints.
    pub relays: Vec<String>,
}

/// A parsed event reference: an event id plus advisory relay hints.
#[derive(Debug, Clone)]
pub struct NostrEvent {
    /// Unique identifier for the event, in hex.
    pub event_id: String,
    /// Relay hints associated with the event; empty for a bare reference.
    pub relays: Vec<String>,
}

impl NostrEvent {
    /// Create a new event reference.
    pub fn new(event_id: String, relays: Vec<String>) -> (r: NostrEvent)
        ensures
            r.event_id == event_id,
            r.relays == relays,
    {
        NostrEvent { event_id, relays }
    }
}

/// Extracts the event id of each reference, in order.
pub fn into_event_ids(events: Vec<NostrEvent>) -> (r: Vec<String>)
    ensures
        r@ == events@.map_values(|e: NostrEvent| e.event_id),
{
    let ghost full = events@;
    let ghost f = |e: NostrEvent| e.event_id;
    let mut rest = events;
    let mut out: Vec<String> = Vec::new();
    proof {
        assert(full.take(0).map_values(f) =~= Seq::<String>::empty());
    }
    while rest.len() > 0
        invariant
            rest@.len() <= full.len(),
            rest@ =~= full.skip(full.len() - rest@.len()),
            out@ =~= full.take(full.len() - rest@.len()).map_values(f),
            f == (|e: NostrEvent| e.event_id),
        decreases rest.len(),
    {
        let ghost n = full.len() - rest@.len();
        let e = rest.remove(0);
        proof {
            assert(e == full[n as int]);
            assert(rest@ =~= full.skip(n + 1));
            assert(full.take(n + 1).map_values(f) =~= full.take(n as int).map_values(f).push(
                f(full[n as int]),
            ));
        }
        out.push(e.event_id);
    }
    proof {
        assert(full.take(full.len() as int) =~= full);
    }
    out
}

/// A named group of repository addresses and relays.
#[derive(Debug, Clone)]
pub struct RepoRelaySet {
    /// Unique identifier for this group.
    pub name: String,
    /// Repository addresses in this group.
    pub naddrs: Vec<Naddr>,
    /// Relay URLs in this group.
    pub relays: Vec<String>,
}

/// Whether two coordinates address the same repository; relay hints are
/// ignored.
pub open spec fn same_coord(a: Coordinate, b: Coordinate) -> bool {
    a.kind == b.kind && a.public_key@ == b.public_key@ && a.identifier@ == b.identifier@
}

/// Whether an address with coordinate `c` occurs in `s`.
pub open spec fn coord_in(s: Seq<Naddr>, c: Coordinate) -> bool {
    exists|i: int| 0 <= i < s.len() && same_coord(s[i].coordinate, c)
}

/// `s` with addresses of duplicate coordinates removed, keeping the first
/// occurrence of each.
pub open spec fn dedup_naddrs_spec(s: Seq<Naddr>) -> Seq<Naddr>
    decreases s.len(),
{
    if s.len() == 0 {
        s
    } else {
        let prefix = dedup_naddrs_spec(s.drop_last());
        if coord_in(s.drop_last(), s.last().coordinate) {
            prefix
        } else {
            prefix.push(s.last())
        }
    }
}

/// Deduplication keeps exactly the coordinates that were present.
pub proof fn lemma_dedup_naddrs_membership(s: Seq<Naddr>, c: Coordinate)
    ensures
        coord_in(dedup_naddrs_spec(s), c) == coord_in(s, c),
    decreases s.len(),
{
    if s.len() > 0 {
        let d = s.drop_last();
        lemma_dedup_naddrs_membership(d, c);
        lemma_dedup_naddrs_membership(d, s.last().coordinate);
        let prefix = dedup_naddrs_spec(d);
        let dd = dedup_naddrs_spec(s);
        assert(coord_in(d, c) ==> coord_in(s, c)) by {
            if coord_in(d, c) {
                let j = choose|j: int| 0 <= j < d.len() && same_coord(d[j].coordinate, c);
                assert(s[j] == d[j]);
            }
        }
        assert(coord_in(prefix, c) ==> coord_in(dd, c)) by {
            if coord_in(prefix, c) {
                let k = choose|k: int|
                    0 <= k < prefix.len() && same_coord(prefix[k].coordinate, c);
                assert(dd[k] == prefix[k]);
            }
        }
        if coord_in(s, c) {
            let i = choose|i: int| 0 <= i < s.len() && same_coord(s[i].coordinate, c);
            if i < s.len() - 1 {
                assert(d[i] == s[i]);
                assert(coord_in(d, c));
            } else {
                if coord_in(d, s.last().coordinate) {
                    let j = choose|j: int|
                        0 <= j < d.len() && same_coord(d[j].coordinate, s.last().coordinate);
                    assert(same_coord(d[j].coordinate, c));
                    assert(coord_in(d, c));
                } else {
                    assert(dd == prefix.push(s.last()));
                    assert(dd[prefix.len() as int] == s.last());
                    assert(coord_in(dd, c));
                }
            }
        }
        if coord_in(dd, c) {
            let i = choose|i: int| 0 <= i < dd.len() && same_coord(dd[i].coordinate, c);
            if coord_in(d, s.last().coordinate) {
                assert(dd == prefix);
                assert(coord_in(prefix, c));
                assert(coord_in(d, c));
            } else {
                assert(dd == prefix.push(s.last()));
                if i < prefix.len() {
                    assert(prefix[i] == dd[i]);
                    assert(coord_in(prefix, c));
                    assert(coord_in(d, c));
                } else {
                    assert(dd[i] == s.last());
                    assert(same_coord(s[s.len() - 1].coordinate, c));
                    assert(coord_in(s, c));
                }
            }
        }
    }
}

/// Returns whether two coordinates address the same repository.
fn coords_equal(a: &Coordinate, b: &Coordinate) -> (r: bool)
    ensures
        r == same_coord(*a, *b),
{
    a.kind == b.kind && a.public_key == b.public_key && a.identifier == b.identifier
}

/// Whether an address with the coordinate of `c` sits in `s`.
fn contains_coord(s: &Vec<Naddr>, c: &Coordinate) -> (r: bool)
    ensures
        r == coord_in(s@, *c),
{
    let mut i: usize = 0;
    while i < s.len()
        invariant
            0 <= i <= s@.len(),
            forall|j: int| 0 <= j < i ==> !same_coord(s@[j].coordinate, *c),
        decreases s.len() - i,
    {
        if coords_equal(&s[i].coordinate, c) {
            return true;
        }
        i = i + 1;
    }
    false
}

impl RepoRelaySet {
    /// Create a new set.
    pub fn new(name: String, naddrs: Vec<Naddr>, relays: Vec<String>) -> (r: RepoRelaySet)
        ensures
            r.name == name,
            r.naddrs == naddrs,
            r.relays == relays,
    {
        RepoRelaySet { name, naddrs, relays }
    }

    /// Removes addresses with duplicate coordinates, keeping the first
    /// occurrence of each; relay hints are ignored by the comparison.
    pub fn dedup_naddrs(self) -> (r: RepoRelaySet)
        ensures
            r.name == self.name,
            r.relays == self.relays,
            r.naddrs@ == dedup_naddrs_spec(self.naddrs@),
    {
        let RepoRelaySet { name, naddrs, relays } = self;
        let ghost full = naddrs@;
        let mut rest = naddrs;
        let mut out: Vec<Naddr> = Vec::new();
        proof {
            assert(full.skip(0) =~= full);
            assert(full.take(0) =~= Seq::<Naddr>::empty());
        }
        while rest.len() > 0
            invariant
                rest@.len() <= full.len(),
                rest@ =~= full.skip(full.len() - rest@.len()),
                out@ == dedup_naddrs_spec(full.take(full.len() - rest@.len())),
            decreases rest.len(),
        {
            let ghost n = full.len() - rest@.len();
            let ghost prefix = full.take(n as int);
            let x = rest.remove(0);
            proof {
                assert(x == full[n as int]);
                assert(rest@ =~= full.skip(n + 1));
                assert(full.take(n + 1).drop_last() =~= prefix);
                assert(full.take(n + 1).last() == x);
                lemma_dedup_naddrs_membership(prefix, x.coordinate);
            }
            if !contains_coord(&out, &x.coordinate) {
                out.push(x);
            }
        }
        proof {
            assert(full.take(full.len() as int) =~= full);
        }
        RepoRelaySet { name, naddrs: out, relays }
    }
}

/// Removes duplicate repository addresses from each set.
pub fn dedup_naddrs(sets: Vec<RepoRelaySet>) -> (r: Vec<RepoRelaySet>)
    ensures
        r@.len() == sets@.len(),
        forall|i: int|
            0 <= i < sets@.len() ==> (#[trigger] r@[i]).name == sets@[i].name && r@[i].relays
                == sets@[i].relays && r@[i].naddrs@ == dedup_naddrs_spec(sets@[i].naddrs@),
{
    let ghost full = sets@;
    let mut rest = sets;
    let mut out: Vec<RepoRelaySet> = Vec::new();
    while rest.len() > 0
        invariant
            rest@.len() <= full.len(),
            rest@ =~= full.skip(full.len() - rest@.len()),
            out@.len() == full.len() - rest@.len(),
            forall|i: int|
                0 <= i < out@.len() ==> (#[trigger] out@[i]).name == full[i].name
                    && out@[i].relays == full[i].relays && out@[i].naddrs@ == dedup_naddrs_spec(
                    full[i].naddrs@,
                ),
        decreases rest.len(),
    {
        let ghost n = full.len() - rest@.len();
        let s = rest.remove(0);
        proof {
            assert(s == full[n as int]);
            assert(rest@ =~= full.skip(n + 1));
        }
        out.push(s.dedup_naddrs());
    }
    out
}

/// Whether a set with the given name occurs in `s`.
pub open spec fn name_in(s: Seq<RepoRelaySet>, n: Seq<char>) -> bool {
    exists|i: int| 0 <= i < s.len() && s[i].name@ == n
}

/// The first set with the given name, or nothing.
pub open spec fn first_set(s: Seq<RepoRelaySet>, n: Seq<char>) -> Option<RepoRelaySet>
    decreases s.len(),
{
    if s.len() == 0 {
        None
    } else if s[0].name@ == n {
        Some(s[0])
    } else {
        first_set(s.drop_first(), n)
    }
}

/// A found set is a member, and a member is found.
pub proof fn lemma_first_set(s: Seq<RepoRelaySet>, n: Seq<char>)
    ensures
        first_set(s, n) is Some <==> name_in(s, n),
        first_set(s, n) matches Some(st) ==> st.name@ == n && exists|i: int|
            0 <= i < s.len() && s[i] == st,
    decreases s.len(),
{
    if s.len() > 0 && s[0].name@ != n {
        let d = s.drop_first();
        lemma_first_set(d, n);
        assert forall|i: int| 0 <= i < d.len() implies d[i] == s[i + 1] by {}
        if name_in(s, n) {
            let i = choose|i: int| 0 <= i < s.len() && s[i].name@ == n;
            assert(d[i - 1] == s[i]);
            assert(name_in(d, n));
        }
        if first_set(d, n) is Some {
            let st = first_set(d, n)->Some_0;
            let i = choose|i: int| 0 <= i < d.len() && d[i] == st;
            assert(s[i + 1] == st);
        }
    }
}

/// Check if a set with the given name exists.
pub fn set_exists(sets: &Vec<RepoRelaySet>, set_name: &String) -> (r: bool)
    ensures
        r == name_in(sets@, set_name@),
{
    let mut i: usize = 0;
    while i < sets.len()
        invariant
            0 <= i <= sets@.len(),
            forall|j: int| 0 <= j < i ==> (#[trigger] sets@[j]).name@ != set_name@,
        decreases sets.len() - i,
    {
        if sets[i].name == *set_name {
            return true;
        }
        i = i + 1;
    }
    false
}

/// Finds the index of the first set with the given name.
pub fn find_set(sets: &Vec<RepoRelaySet>, name: &String) -> (r: Option<usize>)
    ensures
        r is Some <==> name_in(sets@, name@),
        r matches Some(i) ==> i < sets@.len() && first_set(sets@, name@) == Some(
            sets@[i as int],
        ),
{
    let mut i: usize = 0;
    proof {
        assert(sets@.skip(0) =~= sets@);
    }
    while i < sets.len()
        invariant
            0 <= i <= sets@.len(),
            first_set(sets@, name@) == first_set(sets@.skip(i as int), name@),
            forall|j: int| 0 <= j < i ==> (#[trigger] sets@[j]).name@ != name@,
        decreases sets.len() - i,
    {
        proof {
            assert(sets@.skip(i as int)[0] == sets@[i as int]);
            assert(sets@.skip(i as int).drop_first() =~= sets@.skip(i + 1));
        }
        if sets[i].name == *name {
            return Some(i);
        }
        i = i + 1;
    }
    proof {
        lemma_first_set(sets@, name@);
        if name_in(sets@, name@) {
            let j = choose|j: int| 0 <= j < sets@.len() && sets@[j].name@ == name@;
            assert(false);
        }
    }
    None
}

/// Finds the set with the given name; no set of that name is an error
/// carrying the name.
pub fn get_set<'a>(sets: &'a Vec<RepoRelaySet>, name: &String) -> (r: Result<
    &'a RepoRelaySet,
    N34Error,
>)
    ensures
        r is Ok <==> name_in(sets@, name@),
        r matches Ok(st) ==> first_set(sets@, name@) == Some(*st),
        r matches Err(e) ==> (e matches N34Error::SetNotFound(m) && m@ == name@),
{
    match find_set(sets, name) {
        Some(i) => Ok(&sets[i]),
        None => Err(N34Error::SetNotFound(name.clone())),
    }
}

/// Adds a new set; a set with the same name already existing is an error
/// carrying the name, and the sets are left unchanged.
pub fn push_set(sets: &mut Vec<RepoRelaySet>, set: RepoRelaySet) -> (r: Result<(), N34Error>)
    ensures
        r is Ok <==> !name_in(old(sets)@, set.name@),
        r is Ok ==> final(sets)@ == old(sets)@.push(set),
        r matches Err(e) ==> final(sets)@ == old(sets)@ && (e matches N34Error::SetDuplicateName(
            m,
        ) && m@ == set.name@),
{
    if set_exists(sets, &set.name) {
        return Err(N34Error::SetDuplicateName(set.name));
    }
    sets.push(set);
    Ok(())
}

/// The sets that do not carry the given name, in order.
pub open spec fn remove_named(s: Seq<RepoRelaySet>, n: Seq<char>) -> Seq<RepoRelaySet>
    decreases s.len(),
{
    if s.len() == 0 {
        s
    } else {
        let prefix = remove_named(s.drop_last(), n);
        if s.last().name@ == n {
            prefix
        } else {
            prefix.push(s.last())
        }
    }
}

/// Removes every set with the given name and returns the remaining sets;
/// no set of that name is an error carrying the name, and the sets are
/// returned unchanged.
pub fn remove_set(sets: Vec<RepoRelaySet>, name: &String) -> (r: Result<
    Vec<RepoRelaySet>,
    N34Error,
>)
    ensures
        name_in(sets@, name@) ==> (r matches Ok(rest) && rest@ == remove_named(sets@, name@)),
        !name_in(sets@, name@) ==> (r matches Err(e) && (e matches N34Error::SetNotFound(m)
            && m@ == name@)),
{
    if !set_exists(&sets, name) {
        return Err(N34Error::SetNotFound(name.clone()));
    }
    let ghost full = sets@;
    let mut rest = sets;
    let mut out: Vec<RepoRelaySet> = Vec::new();
    proof {
        assert(full.skip(0) =~= full);
        assert(full.take(0) =~= Seq::<RepoRelaySet>::empty());
        assert(remove_named(full.take(0), name@) =~= Seq::<RepoRelaySet>::empty());
        assert(out@ =~= remove_named(full.take(0), name@));
    }
    while rest.len() > 0
        invariant
            rest@.len() <= full.len(),
            rest@ =~= full.skip(full.len() - rest@.len()),
            out@ == remove_named(full.take(full.len() - rest@.len()), name@),
        decreases rest.len(),
    {
        let ghost n = full.len() - rest@.len();
        let st = rest.remove(0);
        proof {
            assert(st == full[n as int]);
            assert(rest@ =~= full.skip(n + 1));
            assert(full.take(n + 1).drop_last() =~= full.take(n as int));
            assert(full.take(n + 1).last() == st);
        }
        if !(st.name == *name) {
            out.push(st);
        }
    }
    proof {
        assert(full.take(full.len() as int) =~= full);
    }
    Ok(out)
}

/// Checks for duplicate set names; a duplicate is an error carrying the
/// name.
pub fn ensure_names(sets: &Vec<RepoRelaySet>) -> (r: Result<(), N34Error>)
    ensures
        r is Ok <==> (forall|i: int, j: int|
            0 <= i < j < sets@.len() ==> (#[trigger] sets@[i]).name@ != (
            #[trigger] sets@[j]).name@),
        r matches Err(e) ==> (e matches N34Error::SetDuplicateName(m) && exists|i: int, j: int|
            0 <= i < j < sets@.len() && (#[trigger] sets@[i]).name@ == (#[trigger] sets@[j]).name@
                && sets@[i].name@ == m@),
{
    let mut i: usize = 0;
    while i < sets.len()
        invariant
            0 <= i <= sets@.len(),
            forall|a: int, b: int|
                0 <= a < b < sets@.len() && a < i ==> (#[trigger] sets@[a]).name@ != (
                #[trigger] sets@[b]).name@,
        decreases sets.len() - i,
    {
        let mut j: usize = i + 1;
        while j < sets.len()
            invariant
                0 <= i < j <= sets@.len(),
                forall|b: int|
                    i < b < j ==> (#[trigger] sets@[b]).name@ != sets@[i as int].name@,
            decreases sets.len() - j,
        {
            if sets[i].name == sets[j].name {
                return Err(N34Error::SetDuplicateName(sets[i].name.clone()));
            }
            j = j + 1;
        }
        i = i + 1;
    }
    Ok(())
}

/// Helper that checks for duplicates in a sorted list: returns the index
/// of the first pair of equal neighbours, or nothing.
pub fn duplicate_in_sorted(items: &Vec<String>) -> (r: Option<usize>)
    ensures
        r matches Some(i) ==> i + 1 < items@.len() && items@[i as int]@ == items@[i + 1]@,
        r is None ==> forall|j: int|
            0 <= j && j + 1 < items@.len() ==> (#[trigger] items@[j])@ != items@[j + 1]@,
{
    if items.len() == 0 {
        return None;
    }
    let mut i: usize = 0;
    while i < items.len() - 1
        invariant
            items@.len() > 0,
            0 <= i <= items@.len() - 1,
            forall|j: int| 0 <= j < i ==> (#[trigger] items@[j])@ != items@[j + 1]@,
        decreases items.len() - i,
    {
        if items[i] == items[i + 1] {
            return Some(i);
        }
        i = i + 1;
    }
    None
}

/// Either a repository address or the name of a set.
#[derive(Debug, Clone)]
pub enum NaddrOrSet {
    /// A repository address.
    Naddr(Naddr),
    /// Name of a set (which may not exist).
    SetName(String),
}

/// Either a relay URL or the name of a set.
#[derive(Debug, Clone)]
pub enum RelayOrSet {
    /// A relay URL.
    Relay(String),
    /// Name of a set (which may not exist).
    SetName(String),
}

/// What one address-or-set argument resolves to: its own address, or the
/// named set's addresses.  An unknown set name and a set without
/// addresses are errors carrying the name.
pub open spec fn resolve_naddrs_spec(item: NaddrOrSet, sets: Seq<RepoRelaySet>) -> Result<
    Seq<Naddr>,
    N34Error,
> {
    match item {
        NaddrOrSet::Naddr(n) => Ok(seq![n]),
        NaddrOrSet::SetName(name) => match first_set(sets, name@) {
            None => Err(N34Error::InvalidNaddrArg(name)),
            Some(st) => if st.naddrs@.len() == 0 {
                Err(N34Error::EmptySetNaddrs(name))
            } else {
                Ok(st.naddrs@)
            },
        },
    }
}

/// Clones a coordinate.
pub fn clone_coordinate(c: &Coordinate) -> (r: Coordinate)
    ensures
        r == *c,
{
    Coordinate {
        kind: c.kind,
        public_key: c.public_key.clone(),
        identifier: c.identifier.clone(),
    }
}

/// Clones a list of strings.
fn clone_strings(v: &Vec<String>) -> (r: Vec<String>)
    ensures
        r@ =~= v@,
{
    let mut out: Vec<String> = Vec::new();
    let mut i: usize = 0;
    while i < v.len()
        invariant
            0 <= i <= v@.len(),
            out@ =~= v@.take(i as int),
        decreases v.len() - i,
    {
        out.push(v[i].clone());
        proof {
            assert(out@ =~= v@.take(i + 1));
        }
        i = i + 1;
    }
    proof {
        assert(v@.take(v@.len() as int) =~= v@);
    }
    out
}

/// Whether two addresses carry the same coordinate and the same relay
/// hints.
pub open spec fn naddr_like(a: Naddr, b: Naddr) -> bool {
    a.coordinate == b.coordinate && a.relays@ == b.relays@
}

/// Whether two address lists are pairwise alike.
pub open spec fn naddrs_like(a: Seq<Naddr>, b: Seq<Naddr>) -> bool {
    a.len() == b.len() && forall|i: int| 0 <= i < a.len() ==> naddr_like(#[trigger] a[i], b[i])
}

/// Clones an address.
pub fn clone_naddr(n: &Naddr) -> (r: Naddr)
    ensures
        naddr_like(r, *n),
{
    Naddr { coordinate: clone_coordinate(&n.coordinate), relays: clone_strings(&n.relays) }
}

impl NaddrOrSet {
    /// Returns the address itself, or the addresses of the named set.
    pub fn get_naddrs(self, sets: &Vec<RepoRelaySet>) -> (r: Result<Vec<Naddr>, N34Error>)
        ensures
            r is Ok <==> resolve_naddrs_spec(self, sets@) is Ok,
            resolve_naddrs_spec(self, sets@) matches Ok(v) ==> (r matches Ok(rv) && naddrs_like(
                rv@,
                v,
            )),
            resolve_naddrs_spec(self, sets@) matches Err(e) ==> r == Result::<
                Vec<Naddr>,
                N34Error,
            >::Err(e),
    {
        match self {
            NaddrOrSet::Naddr(n) => {
                let mut v: Vec<Naddr> = Vec::new();
                let ghost nn = n;
                v.push(n);
                proof {
                    assert(v@ =~= seq![nn]);
                }
                Ok(v)
            },
            NaddrOrSet::SetName(name) => {
                proof {
                    lemma_first_set(sets@, name@);
                }
                match find_set(sets, &name) {
                    None => Err(N34Error::InvalidNaddrArg(name)),
                    Some(i) => {
                        let st = &sets[i];
                        if st.naddrs.len() == 0 {
                            Err(N34Error::EmptySetNaddrs(name))
                        } else {
                            let mut v: Vec<Naddr> = Vec::new();
                            let mut k: usize = 0;
                            while k < st.naddrs.len()
                                invariant
                                    0 <= k <= st.naddrs@.len(),
                                    naddrs_like(v@, st.naddrs@.take(k as int)),
                                decreases st.naddrs.len() - k,
                            {
                                v.push(clone_naddr(&st.naddrs[k]));
                                proof {
                                    assert(st.naddrs@.take(k + 1).drop_last() =~= st.naddrs@.take(
                                        k as int,
                                    ));
                                    assert(naddrs_like(v@, st.naddrs@.take(k + 1)));
                                }
                                k = k + 1;
                            }
                            proof {
                                assert(st.naddrs@.take(st.naddrs@.len() as int) =~= st.naddrs@);
                            }
                            Ok(v)
                        }
                    },
                }
            },
        }
    }
}

/// What one relay-or-set argument resolves to: the relay itself, or the
/// named set's relays.  An unknown set name and a set without relays are
/// errors carrying the name.
pub open spec fn resolve_relays_spec(item: RelayOrSet, sets: Seq<RepoRelaySet>) -> Result<
    Seq<String>,
    N34Error,
> {
    match item {
        RelayOrSet::Relay(url) => Ok(seq![url]),
        RelayOrSet::SetName(name) => match first_set(sets, name@) {
            None => Err(N34Error::InvalidRelaysArg(name)),
            Some(st) => if st.relays@.len() == 0 {
                Err(N34Error::EmptySetRelays(name))
            } else {
                Ok(st.relays@)
            },
        },
    }
}

impl RelayOrSet {
    /// Returns the relay itself, or the relays of the named set.
    pub fn get_relays(self, sets: &Vec<RepoRelaySet>) -> (r: Result<Vec<String>, N34Error>)
        ensures
            r is Ok <==> resolve_relays_spec(self, sets@) is Ok,
            resolve_relays_spec(self, sets@) matches Ok(v) ==> (r matches Ok(rv) && rv@ == v),
            resolve_relays_spec(self, sets@) matches Err(e) ==> r == Result::<
                Vec<String>,
                N34Error,
            >::Err(e),
    {
        match self {
            RelayOrSet::Relay(url) => {
                let mut v: Vec<String> = Vec::new();
                let ghost uu = url;
                v.push(url);
                proof {
                    assert(v@ =~= seq![uu]);
                }
                Ok(v)
            },
            RelayOrSet::SetName(name) => {
                proof {
                    lemma_first_set(sets@, name@);
                }
                match find_set(sets, &name) {
                    None => Err(N34Error::InvalidRelaysArg(name)),
                    Some(i) => {
                        let st = &sets[i];
                        if st.relays.len() == 0 {
                            Err(N34Error::EmptySetRelays(name))
                        } else {
                            Ok(clone_strings(&st.relays))
                        }
                    },
                }
            },
        }
    }
}

/// What a list of address-or-set arguments resolves to: the concatenation
/// of each item's resolution, or the first error.
pub open spec fn flat_naddrs_spec(items: Seq<NaddrOrSet>, sets: Seq<RepoRelaySet>) -> Result<
    Seq<Naddr>,
    N34Error,
>
    decreases items.len(),
{
    if items.len() == 0 {
        Ok(Seq::empty())
    } else {
        match resolve_naddrs_spec(items[0], sets) {
            Err(e) => Err(e),
            Ok(v) => match flat_naddrs_spec(items.drop_first(), sets) {
                Err(e) => Err(e),
                Ok(rest) => Ok(v + rest),
            },
        }
    }
}

/// Resolves a list of address-or-set arguments into a flat address list.
pub fn flat_naddrs(items: Vec<NaddrOrSet>, sets: &Vec<RepoRelaySet>) -> (r: Result<
    Vec<Naddr>,
    N34Error,
>)
    ensures
        r is Ok <==> flat_naddrs_spec(items@, sets@) is Ok,
        flat_naddrs_spec(items@, sets@) matches Ok(v) ==> (r matches Ok(rv) && naddrs_like(
            rv@,
            v,
        )),
        flat_naddrs_spec(items@, sets@) matches Err(e) ==> r == Result::<
            Vec<Naddr>,
            N34Error,
        >::Err(e),
{
    let ghost full = items@;
    let mut rest = items;
    let mut out: Vec<Naddr> = Vec::new();
    let mut err: Option<N34Error> = None;
    proof {
        assert(full.skip(0) =~= full);
        if flat_naddrs_spec(full, sets@) is Ok {
            let v = flat_naddrs_spec(full, sets@)->Ok_0;
            assert(v.take(0) =~= Seq::<Naddr>::empty());
            assert(v.skip(0) =~= v);
        }
    }
    while rest.len() > 0 && err.is_none()
        invariant
            err is None ==> {
                &&& rest@.len() <= full.len()
                &&& rest@ =~= full.skip(full.len() - rest@.len())
                &&& (flat_naddrs_spec(full, sets@) is Ok ==> ({
                    let v = flat_naddrs_spec(full, sets@)->Ok_0;
                    &&& flat_naddrs_spec(rest@, sets@) is Ok
                    &&& out@.len() + flat_naddrs_spec(rest@, sets@)->Ok_0.len() == v.len()
                    &&& naddrs_like(out@, v.take(out@.len() as int))
                    &&& v.skip(out@.len() as int) == flat_naddrs_spec(rest@, sets@)->Ok_0
                }))
                &&& (flat_naddrs_spec(full, sets@) matches Err(e) ==> flat_naddrs_spec(
                    rest@,
                    sets@,
                ) == Result::<Seq<Naddr>, N34Error>::Err(e))
            },
            err matches Some(x) ==> flat_naddrs_spec(full, sets@) == Result::<
                Seq<Naddr>,
                N34Error,
            >::Err(x),
        decreases rest.len(),
    {
        let ghost rest0 = rest@;
        let item = rest.remove(0);
        proof {
            assert(item == rest0[0]);
            assert(rest@ =~= rest0.drop_first());
        }
        match item.get_naddrs(sets) {
            Ok(part) => {
                proof {
                    assert(resolve_naddrs_spec(item, sets@) is Ok);
                    if flat_naddrs_spec(full, sets@) is Ok {
                        let v = flat_naddrs_spec(full, sets@)->Ok_0;
                        let hv = resolve_naddrs_spec(item, sets@)->Ok_0;
                        let tv = flat_naddrs_spec(rest@, sets@)->Ok_0;
                        assert(flat_naddrs_spec(rest0, sets@)->Ok_0 == hv + tv);
                        assert(v.skip(out@.len() as int) == hv + tv);
                        assert forall|i: int|
                            0 <= i < out@.len() + hv.len() implies naddr_like(
                            #[trigger] (out@ + part@)[i],
                            v.take(out@.len() + hv.len() as int)[i],
                        ) by {
                            if i < out@.len() {
                                assert((out@ + part@)[i] == out@[i]);
                                assert(v.take(out@.len() as int)[i] == v[i]);
                            } else {
                                assert((out@ + part@)[i] == part@[i - out@.len()]);
                                assert(v[i] == v.skip(out@.len() as int)[i - out@.len()]);
                                assert((hv + tv)[i - out@.len()] == hv[i - out@.len()]);
                            }
                        }
                        assert(v.skip(out@.len() as int).skip(hv.len() as int) =~= v.skip(
                            (out@.len() + hv.len()) as int,
                        ));
                        assert((hv + tv).skip(hv.len() as int) =~= tv);
                        assert(v.skip((out@.len() + hv.len()) as int) =~= tv);
                    } else {
                        let e = flat_naddrs_spec(full, sets@)->Err_0;
                        assert(flat_naddrs_spec(rest0, sets@) == Result::<
                            Seq<Naddr>,
                            N34Error,
                        >::Err(e));
                        assert(flat_naddrs_spec(rest@, sets@) == Result::<
                            Seq<Naddr>,
                            N34Error,
                        >::Err(e));
                    }
                }
                append_naddrs(&mut out, part);
            },
            Err(e) => {
                proof {
                    assert(resolve_naddrs_spec(item, sets@) is Err);
                    assert(flat_naddrs_spec(rest0, sets@) == Result::<Seq<Naddr>, N34Error>::Err(
                        resolve_naddrs_spec(item, sets@)->Err_0,
                    ));
                    if flat_naddrs_spec(full, sets@) is Ok {
                        assert(flat_naddrs_spec(rest0, sets@) is Ok);
                        assert(false);
                    }
                }
                err = Some(e);
            },
        }
    }
    match err {
        Some(e) => Err(e),
        None => {
            proof {
                assert(rest@.len() == 0);
                if flat_naddrs_spec(full, sets@) is Ok {
                    let v = flat_naddrs_spec(full, sets@)->Ok_0;
                    assert(v.take(out@.len() as int) =~= v);
                }
            }
            Ok(out)
        },
    }
}

/// Appends all addresses of `src` to `dst`.
pub fn append_naddrs(dst: &mut Vec<Naddr>, src: Vec<Naddr>)
    ensures
        final(dst)@ == old(dst)@ + src@,
{
    let ghost base = dst@;
    let ghost full = src@;
    let mut rest = src;
    while rest.len() > 0
        invariant
            rest@.len() <= full.len(),
            rest@ =~= full.skip(full.len() - rest@.len()),
            dst@ =~= base + full.take(full.len() - rest@.len()),
        decreases rest.len(),
    {
        let ghost n = full.len() - rest@.len();
        let t = rest.remove(0);
        proof {
            assert(t == full[n as int]);
            assert(rest@ =~= full.skip(n + 1));
        }
        dst.push(t);
        proof {
            assert(full.take(n + 1) =~= full.take(n as int).push(t));
            assert(dst@ =~= base + full.take(n + 1));
        }
    }
    proof {
        assert(full.take(full.len() as int) =~= full);
    }
}

/// What a list of relay-or-set arguments resolves to.
pub open spec fn flat_relays_spec(items: Seq<RelayOrSet>, sets: Seq<RepoRelaySet>) -> Result<
    Seq<String>,
    N34Error,
>
    decreases items.len(),
{
    if items.len() == 0 {
        Ok(Seq::empty())
    } else {
        match resolve_relays_spec(items[0], sets) {
            Err(e) => Err(e),
            Ok(v) => match flat_relays_spec(items.drop_first(), sets) {
                Err(e) => Err(e),
                Ok(rest) => Ok(v + rest),
            },
        }
    }
}

/// Resolves a list of relay-or-set arguments into a flat relay list.
pub fn flat_relays(items: Vec<RelayOrSet>, sets: &Vec<RepoRelaySet>) -> (r: Result<
    Vec<String>,
    N34Error,
>)
    ensures
        r is Ok <==> flat_relays_spec(items@, sets@) is Ok,
        flat_relays_spec(items@, sets@) matches Ok(v) ==> (r matches Ok(rv) && rv@ == v),
        flat_relays_spec(items@, sets@) matches Err(e) ==> r == Result::<
            Vec<String>,
            N34Error,
        >::Err(e),
{
    let ghost full = items@;
    let mut rest = items;
    let mut out: Vec<String> = Vec::new();
    let mut err: Option<N34Error> = None;
    proof {
        assert(full.skip(0) =~= full);
        if flat_relays_spec(full, sets@) is Ok {
            let v = flat_relays_spec(full, sets@)->Ok_0;
            assert(Seq::<String>::empty() + v =~= v);
        }
    }
    while rest.len() > 0 && err.is_none()
        invariant
            err is None ==> {
                &&& rest@.len() <= full.len()
                &&& rest@ =~= full.skip(full.len() - rest@.len())
                &&& (flat_relays_spec(full, sets@) is Ok ==> ({
                    let v = flat_relays_spec(full, sets@)->Ok_0;
                    &&& flat_relays_spec(rest@, sets@) is Ok
                    &&& v == out@ + flat_relays_spec(rest@, sets@)->Ok_0
                }))
                &&& (flat_relays_spec(full, sets@) matches Err(e) ==> flat_relays_spec(
                    rest@,
                    sets@,
                ) == Result::<Seq<String>, N34Error>::Err(e))
            },
            err matches Some(x) ==> flat_relays_spec(full, sets@) == Result::<
                Seq<String>,
                N34Error,
            >::Err(x),
        decreases rest.len(),
    {
        let ghost rest0 = rest@;
        let item = rest.remove(0);
        proof {
            assert(item == rest0[0]);
            assert(rest@ =~= rest0.drop_first());
        }
        match item.get_relays(sets) {
            Ok(part) => {
                proof {
                    assert(resolve_relays_spec(item, sets@) is Ok);
                    if flat_relays_spec(full, sets@) is Ok {
                        let hv = resolve_relays_spec(item, sets@)->Ok_0;
                        let tv = flat_relays_spec(rest@, sets@)->Ok_0;
                        assert(flat_relays_spec(rest0, sets@)->Ok_0 == hv + tv);
                        assert(out@ + (hv + tv) =~= (out@ + part@) + tv);
                    } else {
                        let e = flat_relays_spec(full, sets@)->Err_0;
                        assert(flat_relays_spec(rest0, sets@) == Result::<
                            Seq<String>,
                            N34Error,
                        >::Err(e));
                        assert(flat_relays_spec(rest@, sets@) == Result::<
                            Seq<String>,
                            N34Error,
                        >::Err(e));
                    }
                }
                append_strings(&mut out, part);
            },
            Err(e) => {
                proof {
                    assert(resolve_relays_spec(item, sets@) is Err);
                    assert(flat_relays_spec(rest0, sets@) == Result::<
                        Seq<String>,
                        N34Error,
                    >::Err(resolve_relays_spec(item, sets@)->Err_0));
                    if flat_relays_spec(full, sets@) is Ok {
                        assert(flat_relays_spec(rest0, sets@) is Ok);
                        assert(false);
                    }
                }
                err = Some(e);
            },
        }
    }
    match err {
        Some(e) => Err(e),
        None => {
            proof {
                if flat_relays_spec(full, sets@) is Ok {
                    let v = flat_relays_spec(full, sets@)->Ok_0;
                    assert(v =~= out@ + Seq::<String>::empty());
                    assert(out@ =~= v);
                }
            }
            Ok(out)
        },
    }
}

/// Appends all strings of `src` to `dst`.
pub fn append_strings(dst: &mut Vec<String>, src: Vec<String>)
    ensures
        final(dst)@ == old(dst)@ + src@,
{
    let ghost base = dst@;
    let ghost full = src@;
    let mut rest = src;
    while rest.len() > 0
        invariant
            rest@.len() <= full.len(),
            rest@ =~= full.skip(full.len() - rest@.len()),
            dst@ =~= base + full.take(full.len() - rest@.len()),
        decreases rest.len(),
    {
        let ghost n = full.len() - rest@.len();
        let t = rest.remove(0);
        proof {
            assert(t == full[n as int]);
            assert(rest@ =~= full.skip(n + 1));
        }
        dst.push(t);
        proof {
            assert(full.take(n + 1) =~= full.take(n as int).push(t));
            assert(dst@ =~= base + full.take(n + 1));
        }
    }
    proof {
        assert(full.take(full.len() as int) =~= full);
    }
}

/// Rejects an empty address list; at least one coordinate is required.
pub fn check_empty_naddrs(naddrs: Vec<Naddr>) -> (r: Result<Vec<Naddr>, N34Error>)
    ensures
        naddrs@.len() == 0 ==> r == Result::<Vec<Naddr>, N34Error>::Err(N34Error::EmptyNaddrs),
        naddrs@.len() > 0 ==> r == Result::<Vec<Naddr>, N34Error>::Ok(naddrs),
{
    if naddrs.len() == 0 {
        Err(N34Error::EmptyNaddrs)
    } else {
        Ok(naddrs)
    }
}

/// The owner public keys of the addresses, in order.
pub fn extract_owners(naddrs: &Vec<Naddr>) -> (r: Vec<String>)
    ensures
        r@ == naddrs@.map_values(|n: Naddr| n.coordinate.public_key),
{
    let ghost f = |n: Naddr| n.coordinate.public_key;
    let mut out: Vec<String> = Vec::new();
    let mut i: usize = 0;
    proof {
        assert(naddrs@.take(0).map_values(f) =~= Seq::<String>::empty());
    }
    while i < naddrs.len()
        invariant
            0 <= i <= naddrs@.len(),
            out@ =~= naddrs@.take(i as int).map_values(f),
            f == (|n: Naddr| n.coordinate.public_key),
        decreases naddrs.len() - i,
    {
        out.push(naddrs[i].coordinate.public_key.clone());
        proof {
            assert(naddrs@.take(i + 1).map_values(f) =~= naddrs@.take(i as int).map_values(
                f,
            ).push(f(naddrs@[i as int])));
        }
        i = i + 1;
    }
    proof {
        assert(naddrs@.take(naddrs@.len() as int) =~= naddrs@);
    }
    out
}

/// The concatenated relay hints of all addresses, in order.
pub open spec fn naddr_relays(s: Seq<Naddr>) -> Seq<String>
    decreases s.len(),
{
    if s.len() == 0 {
        Seq::empty()
    } else {
        naddr_relays(s.drop_last()) + s.last().relays@
    }
}

/// Extracts all relay hints from the addresses, in order.
pub fn extract_relays(naddrs: &Vec<Naddr>) -> (r: Vec<String>)
    ensures
        r@ == naddr_relays(naddrs@),
{
    let mut out: Vec<String> = Vec::new();
    let mut i: usize = 0;
    proof {
        assert(naddrs@.take(0) =~= Seq::<Naddr>::empty());
        assert(out@ =~= naddr_relays(naddrs@.take(0)));
    }
    while i < naddrs.len()
        invariant
            0 <= i <= naddrs@.len(),
            out@ == naddr_relays(naddrs@.take(i as int)),
        decreases naddrs.len() - i,
    {
        let ghost base = out@;
        let rl = &naddrs[i].relays;
        let mut k: usize = 0;
        while k < rl.len()
            invariant
                0 <= k <= rl@.len(),
                out@ =~= base + rl@.take(k as int),
                rl@ == naddrs@[i as int].relays@,
                0 <= i < naddrs@.len(),
            decreases rl.len() - k,
        {
            out.push(rl[k].clone());
            proof {
                assert(out@ =~= base + rl@.take(k + 1));
            }
            k = k + 1;
        }
        proof {
            assert(rl@.take(rl@.len() as int) =~= rl@);
            assert(naddrs@.take(i + 1).drop_last() =~= naddrs@.take(i as int));
            assert(naddrs@.take(i + 1).last() == naddrs@[i as int]);
            assert(out@ =~= naddr_relays(naddrs@.take(i + 1)));
        }
        i = i + 1;
    }
    proof {
        assert(naddrs@.take(naddrs@.len() as int) =~= naddrs@);
    }
    out
}

/// Converts the addresses to bare coordinates, dropping the relay hints.
pub fn into_coordinates(naddrs: Vec<Naddr>) -> (r: Vec<Coordinate>)
    ensures
        r@ == naddrs@.map_values(|n: Naddr| n.coordinate),
{
    let ghost full = naddrs@;
    let ghost f = |n: Naddr| n.coordinate;
    let mut rest = naddrs;
    let mut out: Vec<Coordinate> = Vec::new();
    proof {
        assert(full.take(0).map_values(f) =~= Seq::<Coordinate>::empty());
    }
    while rest.len() > 0
        invariant
            rest@.len() <= full.len(),
            rest@ =~= full.skip(full.len() - rest@.len()),
            out@ =~= full.take(full.len() - rest@.len()).map_values(f),
            f == (|n: Naddr| n.coordinate),
        decreases rest.len(),
    {
        let ghost n = full.len() - rest@.len();
        let x = rest.remove(0);
        proof {
            assert(x == full[n as int]);
            assert(rest@ =~= full.skip(n + 1));
            assert(full.take(n + 1).map_values(f) =~= full.take(n as int).map_values(f).push(
                f(full[n as int]),
            ));
        }
        out.push(x.coordinate);
    }
    proof {
        assert(full.take(full.len() as int) =~= full);
    }
    out
}

} // verus!
