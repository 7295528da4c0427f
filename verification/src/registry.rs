//! The service registry: an in-memory mapping from a domain to the ordered
//! list of (service name, service URL) pairs that the domain registered.
//!
//! The registry's mathematical model is a `Map` from the domain's characters
//! to the sequence of entry views. Registering a domain inserts into that
//! map, replacing any previous list wholesale: no merge, no deduplication.

use vstd::prelude::*;

verus! {

/// The view of one service entry: its name and URL as character sequences.
pub type EntryView = (Seq<char>, Seq<char>);

/// The view of a service list.
pub open spec fn services_view(s: Seq<(String, String)>) -> Seq<EntryView> {
    s.map_values(|e: (String, String)| (e.0@, e.1@))
}

/// The map modelled by a sequence of (domain, services) rows: rows are folded
/// front to back, so on duplicate domains the later row wins.
pub open spec fn map_of(s: Seq<(String, Vec<(String, String)>)>) -> Map<Seq<char>, Seq<EntryView>>
    decreases s.len(),
{
    if s.len() == 0 {
        Map::empty()
    } else {
        map_of(s.drop_last()).insert(s.last().0@, services_view(s.last().1@))
    }
}

/// Pairwise-distinct domains: the representation keeps at most one row per
/// domain.
pub open spec fn domains_unique(s: Seq<(String, Vec<(String, String)>)>) -> bool {
    forall|i: int, j: int| 0 <= i < j < s.len() ==> s[i].0@ != s[j].0@
}

/// The in-memory service registry. Created empty at process start; mutated
/// only by [`Registry::register`]; read by [`Registry::get`] and
/// [`Registry::snapshot`].
pub struct Registry {
    entries: Vec<(String, Vec<(String, String)>)>,
}

impl View for Registry {
    type V = Map<Seq<char>, Seq<EntryView>>;

    closed spec fn view(&self) -> Map<Seq<char>, Seq<EntryView>> {
        map_of(self.entries@)
    }
}

/// A domain is in the model's domain set exactly when some row holds it.
proof fn lemma_map_of_dom(s: Seq<(String, Vec<(String, String)>)>, d: Seq<char>)
    ensures
        map_of(s).dom().contains(d) <==> exists|i: int| 0 <= i < s.len() && s[i].0@ == d,
    decreases s.len(),
{
    if s.len() > 0 {
        lemma_map_of_dom(s.drop_last(), d);
        if s.last().0@ == d {
            assert(s[s.len() - 1].0@ == d);
        } else if exists|i: int| 0 <= i < s.len() && s[i].0@ == d {
            let i = choose|i: int| 0 <= i < s.len() && s[i].0@ == d;
            assert(s.drop_last()[i] == s[i]);
        }
    }
}

/// With distinct domains, the row holding a domain gives that domain's value
/// in the model.
proof fn lemma_map_of_index(s: Seq<(String, Vec<(String, String)>)>, i: int)
    requires
        domains_unique(s),
        0 <= i < s.len(),
    ensures
        map_of(s).dom().contains(s[i].0@),
        map_of(s)[s[i].0@] == services_view(s[i].1@),
    decreases s.len(),
{
    if i == s.len() - 1 {
    } else {
        assert(s[i].0@ != s.last().0@);
        assert(s.drop_last()[i] == s[i]);
        lemma_map_of_index(s.drop_last(), i);
    }
}

/// Removing the one row that holds a domain removes exactly that domain from
/// the model.
proof fn lemma_map_of_remove(s: Seq<(String, Vec<(String, String)>)>, i: int)
    requires
        domains_unique(s),
        0 <= i < s.len(),
    ensures
        map_of(s.remove(i)) == map_of(s).remove(s[i].0@),
    decreases s.len(),
{
    let d = s[i].0@;
    if i == s.len() - 1 {
        assert(s.remove(i) =~= s.drop_last());
        lemma_map_of_dom(s.drop_last(), d);
        assert(forall|j: int| 0 <= j < s.drop_last().len() ==> s.drop_last()[j] == s[j]);
        assert(!map_of(s.drop_last()).dom().contains(d));
        assert(map_of(s.drop_last()).insert(d, services_view(s[i].1@)).remove(d)
            =~= map_of(s.drop_last()));
    } else {
        assert(s.remove(i).drop_last() =~= s.drop_last().remove(i));
        assert(s.remove(i).last() == s.last());
        lemma_map_of_remove(s.drop_last(), i);
        assert(s.drop_last()[i] == s[i]);
        assert(s.last().0@ != d);
        assert(map_of(s.drop_last()).remove(d).insert(s.last().0@, services_view(s.last().1@))
            =~= map_of(s.drop_last()).insert(s.last().0@, services_view(s.last().1@)).remove(d));
    }
}

/// A deep copy of one service list, entry for entry.
fn clone_services(v: &Vec<(String, String)>) -> (r: Vec<(String, String)>)
    ensures
        r@ == v@,
{
    let mut r: Vec<(String, String)> = Vec::new();
    let mut i: usize = 0;
    while i < v.len()
        invariant
            i <= v@.len(),
            r@ == v@.take(i as int),
        decreases v@.len() - i,
    {
        r.push((v[i].0.clone(), v[i].1.clone()));
        proof {
            assert(r@ =~= v@.take(i as int + 1));
        }
        i = i + 1;
    }
    proof {
        assert(v@.take(v@.len() as int) =~= v@);
    }
    r
}

impl Registry {
    /// At most one row per domain: every well-formed registry value satisfies
    /// this, constructors establish it and methods preserve it.
    pub closed spec fn wf(&self) -> bool {
        domains_unique(self.entries@)
    }

    /// Creates the registry empty, as the process does at start.
    pub fn new() -> (r: Registry)
        ensures
            r.wf(),
            r@ == Map::<Seq<char>, Seq<EntryView>>::empty(),
    {
        Registry { entries: Vec::new() }
    }

    /// The index of the row holding `domain`, if one does.
    fn find_index(&self, domain: &String) -> (r: Option<usize>)
        ensures
            match r {
                Some(i) => i < self.entries@.len() && self.entries@[i as int].0@ == domain@,
                None => forall|j: int| 0 <= j < self.entries@.len() ==> self.entries@[j].0@ != domain@,
            },
    {
        let mut i: usize = 0;
        while i < self.entries.len()
            invariant
                i <= self.entries@.len(),
                forall|j: int| 0 <= j < i ==> self.entries@[j].0@ != domain@,
            decreases self.entries@.len() - i,
        {
            if self.entries[i].0 == *domain {
                return Some(i);
            }
            i = i + 1;
        }
        None
    }

    /// Registers `domain` with `services`: inserts the domain if absent,
    /// replaces its whole list if present. Every other domain's entry is
    /// left as it was (the model's `insert` touches no other key).
    pub fn register(&mut self, domain: String, services: Vec<(String, String)>)
        requires
            old(self).wf(),
        ensures
            final(self).wf(),
            final(self)@ == old(self)@.insert(domain@, services_view(services@)),
    {
        let ghost s0 = self.entries@;
        match self.find_index(&domain) {
            Some(i) => {
                proof {
                    lemma_map_of_remove(s0, i as int);
                }
                self.entries.remove(i);
                proof {
                    assert forall|a: int, b: int|
                        0 <= a < b < self.entries@.len() implies self.entries@[a].0@
                        != self.entries@[b].0@ by {
                        assert(self.entries@[a] == if a < i { s0[a] } else { s0[a + 1] });
                        assert(self.entries@[b] == if b < i { s0[b] } else { s0[b + 1] });
                    }
                    assert forall|j: int| 0 <= j < self.entries@.len() implies self.entries@[j].0@
                        != domain@ by {
                        assert(self.entries@[j] == if j < i { s0[j] } else { s0[j + 1] });
                    }
                }
                let ghost s1 = self.entries@;
                self.entries.push((domain, services));
                proof {
                    assert(self.entries@.drop_last() =~= s1);
                    assert(map_of(self.entries@) =~= map_of(s0).insert(
                        self.entries@.last().0@,
                        services_view(self.entries@.last().1@),
                    ));
                }
            },
            None => {
                self.entries.push((domain, services));
                proof {
                    lemma_map_of_dom(s0, self.entries@.last().0@);
                    assert(self.entries@.drop_last() =~= s0);
                }
            },
        }
    }

    /// A consistent read-only copy of the full mapping, row for row, for the
    /// renderer. The caller copies under the lock and renders after releasing
    /// it; the copy models the same map as the registry, so no partially
    /// updated service list can be observed.
    pub fn snapshot(&self) -> (r: Vec<(String, Vec<(String, String)>)>)
        requires
            self.wf(),
        ensures
            domains_unique(r@),
            map_of(r@) == self@,
    {
        let mut r: Vec<(String, Vec<(String, String)>)> = Vec::new();
        let mut i: usize = 0;
        while i < self.entries.len()
            invariant
                i <= self.entries@.len(),
                r@.len() == i,
                forall|j: int| 0 <= j < i ==> r@[j].0@ == self.entries@[j].0@,
                map_of(r@) == map_of(self.entries@.take(i as int)),
                self.wf(),
            decreases self.entries@.len() - i,
        {
            let ghost r0 = r@;
            let dom = self.entries[i].0.clone();
            let svcs = clone_services(&self.entries[i].1);
            r.push((dom, svcs));
            proof {
                assert(r@.drop_last() =~= r0);
                assert(self.entries@.take(i as int + 1).drop_last() =~= self.entries@.take(
                    i as int,
                ));
                assert(self.entries@.take(i as int + 1).last() == self.entries@[i as int]);
            }
            i = i + 1;
        }
        proof {
            assert(self.entries@.take(self.entries@.len() as int) =~= self.entries@);
        }
        r
    }

    /// The registered service list of `domain`: `Some` exactly when the
    /// domain is registered, and then the full list from its last
    /// registration.
    pub fn get(&self, domain: &String) -> (r: Option<&Vec<(String, String)>>)
        requires
            self.wf(),
        ensures
            match r {
                Some(v) => self@.dom().contains(domain@) && services_view(v@) == self@[domain@],
                None => !self@.dom().contains(domain@),
            },
    {
        proof {
            lemma_map_of_dom(self.entries@, domain@);
        }
        match self.find_index(domain) {
            Some(i) => {
                proof {
                    lemma_map_of_index(self.entries@, i as int);
                }
                Some(&self.entries[i].1)
            },
            None => None,
        }
    }
}

/// A serialized sequence of registrations applied to a registry model, in
/// lock-acquisition order: each op inserts its domain's whole list, as
/// [`Registry::register`] does.
pub open spec fn apply_registrations(
    m: Map<Seq<char>, Seq<EntryView>>,
    ops: Seq<(Seq<char>, Seq<EntryView>)>,
) -> Map<Seq<char>, Seq<EntryView>>
    decreases ops.len(),
{
    if ops.len() == 0 {
        m
    } else {
        apply_registrations(m, ops.drop_last()).insert(ops.last().0, ops.last().1)
    }
}

/// Registering a domain with `l1` and then with `l2` leaves the registry
/// holding exactly `l2` for that domain — never a merge of the two lists,
/// and never both.
pub proof fn lemma_overwrite_replaces(
    m: Map<Seq<char>, Seq<EntryView>>,
    d: Seq<char>,
    l1: Seq<EntryView>,
    l2: Seq<EntryView>,
)
    ensures
        m.insert(d, l1).insert(d, l2) == m.insert(d, l2),
        m.insert(d, l1).insert(d, l2)[d] == l2,
{
    assert(m.insert(d, l1).insert(d, l2) =~= m.insert(d, l2));
}

/// Registering one domain never mutates or removes any other domain's entry:
/// presence and value of every other key are untouched.
pub proof fn lemma_domains_isolated(
    m: Map<Seq<char>, Seq<EntryView>>,
    d: Seq<char>,
    l: Seq<EntryView>,
    other: Seq<char>,
)
    requires
        other != d,
    ensures
        m.insert(d, l).dom().contains(other) == m.dom().contains(other),
        m.dom().contains(other) ==> m.insert(d, l)[other] == m[other],
{
}

/// Any number of registrations for the same domain, serialized in some
/// order, leave the registry exactly as one registration with the last
/// payload would: whichever write serialized last wins, whole, with no
/// interleaved entry.
pub proof fn lemma_last_writer_wins(
    m: Map<Seq<char>, Seq<EntryView>>,
    ops: Seq<(Seq<char>, Seq<EntryView>)>,
    d: Seq<char>,
)
    requires
        ops.len() > 0,
        forall|i: int| 0 <= i < ops.len() ==> ops[i].0 == d,
    ensures
        apply_registrations(m, ops) == m.insert(d, ops.last().1),
    decreases ops.len(),
{
    assert(ops[ops.len() - 1].0 == d);
    if ops.len() == 1 {
        assert(ops.drop_last().len() == 0);
        assert(apply_registrations(m, ops.drop_last()) == m);
    } else {
        assert forall|i: int| 0 <= i < ops.drop_last().len() implies ops.drop_last()[i].0 == d by {
            assert(ops.drop_last()[i] == ops[i]);
        }
        lemma_last_writer_wins(m, ops.drop_last(), d);
        assert(m.insert(d, ops.drop_last().last().1).insert(d, ops.last().1) =~= m.insert(
            d,
            ops.last().1,
        ));
    }
}

/// Registrations for pairwise distinct domains, serialized in any order,
/// leave every one of those domains holding exactly the full list from its
/// own registration: a read after any such serialization (and any prefix of
/// one is itself such a serialization) sees each domain's list all-or-nothing.
pub proof fn lemma_distinct_domains_complete(
    m: Map<Seq<char>, Seq<EntryView>>,
    ops: Seq<(Seq<char>, Seq<EntryView>)>,
)
    requires
        forall|i: int, j: int| 0 <= i < j < ops.len() ==> ops[i].0 != ops[j].0,
    ensures
        forall|k: int|
            0 <= k < ops.len() ==> apply_registrations(m, ops).dom().contains(ops[k].0)
                && apply_registrations(m, ops)[ops[k].0] == ops[k].1,
    decreases ops.len(),
{
    if ops.len() > 0 {
        assert forall|i: int, j: int|
            0 <= i < j < ops.drop_last().len() implies ops.drop_last()[i].0
            != ops.drop_last()[j].0 by {
            assert(ops.drop_last()[i] == ops[i]);
            assert(ops.drop_last()[j] == ops[j]);
        }
        lemma_distinct_domains_complete(m, ops.drop_last());
        assert forall|k: int|
            0 <= k < ops.len() implies apply_registrations(m, ops).dom().contains(ops[k].0)
            && apply_registrations(m, ops)[ops[k].0] == ops[k].1 by {
            if k < ops.len() - 1 {
                assert(ops.drop_last()[k] == ops[k]);
                assert(ops[k].0 != ops[ops.len() - 1].0);
            } else {
                assert(ops[k] == ops.last());
            }
        }
    }
}

} // verus!
