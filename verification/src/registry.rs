//! The registry of peers, keyed by authenticated name.
//!
//! Each peer is `Unknown` until contacted, `Down` after a failed contact,
//! or `Up` with its live connection handle. The registry is generic in the
//! handle type: the verified logic never looks inside a handle, it only
//! stores and replaces it. Lookup of a never-seen name yields `Unknown`.

use crate::scheme::str_eq;
use vstd::prelude::*;

verus! {

/// The standing of one peer.
pub enum NodeStatus<C> {
    Down,
    Unknown,
    Up(C),
}

impl<C> NodeStatus<C> {
    pub open spec fn spec_is_up(&self) -> bool {
        self is Up
    }

    /// True exactly for `Up` entries.
    pub fn is_up(&self) -> (r: bool)
        ensures
            r == self.spec_is_up(),
    {
        match self {
            NodeStatus::Up(_) => true,
            _ => false,
        }
    }
}

/// What a name maps to in a list of registry entries: the last entry with
/// that name, or `Unknown` when there is none.
pub open spec fn lookup<C>(s: Seq<(String, NodeStatus<C>)>, name: Seq<char>) -> NodeStatus<C>
    decreases s.len(),
{
    if s.len() == 0 {
        NodeStatus::Unknown
    } else if s.last().0@ == name {
        s.last().1
    } else {
        lookup(s.drop_last(), name)
    }
}

/// No name occurs twice.
pub open spec fn unique_names<C>(s: Seq<(String, NodeStatus<C>)>) -> bool {
    forall|i: int, j: int| 0 <= i < j < s.len() ==> (#[trigger] s[i]).0@ != (#[trigger] s[j]).0@
}

/// The names of the `Up` entries, in registry order.
pub open spec fn spec_connected<C>(s: Seq<(String, NodeStatus<C>)>) -> Seq<Seq<char>>
    decreases s.len(),
{
    if s.len() == 0 {
        Seq::empty()
    } else if s.last().1 is Up {
        spec_connected(s.drop_last()) + seq![s.last().0@]
    } else {
        spec_connected(s.drop_last())
    }
}

proof fn lemma_lookup_found<C>(s: Seq<(String, NodeStatus<C>)>, i: int, name: Seq<char>)
    requires
        unique_names(s),
        0 <= i < s.len(),
        s[i].0@ == name,
    ensures
        lookup(s, name) == s[i].1,
    decreases s.len(),
{
    if i == s.len() - 1 {
    } else {
        assert(s.last().0@ != name);
        assert(unique_names(s.drop_last())) by {
            assert(forall|x: int, y: int|
                0 <= x < y < s.drop_last().len() ==> (#[trigger] s.drop_last()[x]).0@ != (
                #[trigger] s.drop_last()[y]).0@);
        }
        assert(s.drop_last()[i] == s[i]);
        lemma_lookup_found(s.drop_last(), i, name);
    }
}

proof fn lemma_lookup_absent<C>(s: Seq<(String, NodeStatus<C>)>, name: Seq<char>)
    requires
        forall|i: int| 0 <= i < s.len() ==> (#[trigger] s[i]).0@ != name,
    ensures
        lookup(s, name) is Unknown,
    decreases s.len(),
{
    if s.len() == 0 {
    } else {
        assert(forall|i: int|
            0 <= i < s.drop_last().len() ==> (#[trigger] s.drop_last()[i]).0@ != name);
        lemma_lookup_absent(s.drop_last(), name);
    }
}

proof fn lemma_lookup_push<C>(s: Seq<(String, NodeStatus<C>)>, e: (String, NodeStatus<C>), name: Seq<char>)
    ensures
        e.0@ == name ==> lookup(s.push(e), name) == e.1,
        e.0@ != name ==> lookup(s.push(e), name) == lookup(s, name),
{
    assert(s.push(e).drop_last() =~= s);
    assert(s.push(e).last() == e);
}

proof fn lemma_lookup_update<C>(
    s: Seq<(String, NodeStatus<C>)>,
    i: int,
    e: (String, NodeStatus<C>),
    name: Seq<char>,
)
    requires
        unique_names(s),
        0 <= i < s.len(),
        s[i].0@ == e.0@,
    ensures
        e.0@ == name ==> lookup(s.update(i, e), name) == e.1,
        e.0@ != name ==> lookup(s.update(i, e), name) == lookup(s, name),
    decreases s.len(),
{
    let t = s.update(i, e);
    if i == s.len() - 1 {
        assert(t.last() == e);
        assert(t.drop_last() =~= s.drop_last());
        if e.0@ != name {
            assert(s.last().0@ == e.0@);
        }
    } else {
        assert(t.last() == s.last());
        assert(t.drop_last() =~= s.drop_last().update(i, e));
        assert(unique_names(s.drop_last())) by {
            assert(forall|x: int, y: int|
                0 <= x < y < s.drop_last().len() ==> (#[trigger] s.drop_last()[x]).0@ != (
                #[trigger] s.drop_last()[y]).0@);
        }
        assert(s.drop_last()[i] == s[i]);
        lemma_lookup_update(s.drop_last(), i, e, name);
        assert(s.last().0@ != e.0@);
    }
}

/// Registry of peers. Holds one entry per name.
pub struct NodeManager<C> {
    nodes: Vec<(String, NodeStatus<C>)>,
    unknown: NodeStatus<C>,
}

impl<C> NodeManager<C> {
    /// One entry per name, and the spare status used for absent lookups
    /// really is `Unknown`.
    pub closed spec fn wf(&self) -> bool {
        unique_names(self.nodes@) && self.unknown is Unknown
    }

    /// What this registry knows about a name.
    pub closed spec fn spec_get(&self, name: Seq<char>) -> NodeStatus<C> {
        lookup(self.nodes@, name)
    }

    /// The registry's entries, by view.
    pub closed spec fn entries(&self) -> Seq<(String, NodeStatus<C>)> {
        self.nodes@
    }

    /// An empty registry: every name is `Unknown`.
    pub fn new() -> (r: NodeManager<C>)
        ensures
            r.wf(),
            forall|n: Seq<char>| r.spec_get(n) is Unknown,
            r.entries() == Seq::<(String, NodeStatus<C>)>::empty(),
    {
        NodeManager { nodes: Vec::new(), unknown: NodeStatus::Unknown }
    }

    /// The status recorded for `key`; `Unknown` for a never-seen name.
    pub fn get<'a>(&'a self, key: &str) -> (r: &'a NodeStatus<C>)
        requires
            self.wf(),
        ensures
            *r == self.spec_get(key@),
    {
        let mut i: usize = 0;
        while i < self.nodes.len()
            invariant
                i <= self.nodes@.len(),
                self.wf(),
                forall|j: int| 0 <= j < i ==> (#[trigger] self.nodes@[j]).0@ != key@,
            decreases self.nodes@.len() - i,
        {
            if str_eq(self.nodes[i].0.as_str(), key) {
                proof {
                    lemma_lookup_found(self.nodes@, i as int, key@);
                }
                return &self.nodes[i].1;
            }
            i = i + 1;
        }
        proof {
            lemma_lookup_absent(self.nodes@, key@);
        }
        &self.unknown
    }

    fn set_status(&mut self, key: String, st: NodeStatus<C>)
        requires
            old(self).wf(),
        ensures
            final(self).wf(),
            final(self).spec_get(key@) == st,
            forall|n: Seq<char>| n != key@ ==> final(self).spec_get(n) == old(self).spec_get(n),
    {
        let ghost s0 = self.nodes@;
        let mut i: usize = 0;
        while i < self.nodes.len()
            invariant
                i <= self.nodes@.len(),
                *self == *old(self),
                self.nodes@ == s0,
                unique_names(s0),
                self.unknown is Unknown,
                forall|j: int| 0 <= j < i ==> (#[trigger] s0[j]).0@ != key@,
            decreases self.nodes@.len() - i,
        {
            if str_eq(self.nodes[i].0.as_str(), key.as_str()) {
                proof {
                    lemma_lookup_update(s0, i as int, (key, st), key@);
                    assert forall|n: Seq<char>| n != key@ implies lookup(
                        s0.update(i as int, (key, st)),
                        n,
                    ) == lookup(s0, n) by {
                        lemma_lookup_update(s0, i as int, (key, st), n);
                    }
                }
                self.nodes.set(i, (key, st));
                proof {
                    assert(unique_names(self.nodes@)) by {
                        assert(forall|x: int|
                            0 <= x < self.nodes@.len() && x != i ==> (#[trigger] self.nodes@[x])
                                == s0[x]);
                    }
                }
                return;
            }
            i = i + 1;
        }
        proof {
            lemma_lookup_push(s0, (key, st), key@);
            assert forall|n: Seq<char>| n != key@ implies lookup(s0.push((key, st)), n) == lookup(
                s0,
                n,
            ) by {
                lemma_lookup_push(s0, (key, st), n);
            }
            assert(unique_names(s0.push((key, st)))) by {
                assert(forall|x: int|
                    0 <= x < s0.len() ==> (#[trigger] s0.push((key, st))[x]) == s0[x]);
            }
        }
        self.nodes.push((key, st));
    }

    /// Marks a peer as failed.
    pub fn down(&mut self, key: String)
        requires
            old(self).wf(),
        ensures
            final(self).wf(),
            final(self).spec_get(key@) is Down,
            forall|n: Seq<char>| n != key@ ==> final(self).spec_get(n) == old(self).spec_get(n),
    {
        self.set_status(key, NodeStatus::Down);
    }

    /// Registers a live connection, replacing any prior entry for the name.
    pub fn up(&mut self, key: String, connection: C)
        requires
            old(self).wf(),
        ensures
            final(self).wf(),
            final(self).spec_get(key@) == NodeStatus::Up(connection),
            forall|n: Seq<char>| n != key@ ==> final(self).spec_get(n) == old(self).spec_get(n),
    {
        self.set_status(key, NodeStatus::Up(connection));
    }

    /// The names currently `Up`, in registry order.
    pub fn connected(&self) -> (r: Vec<String>)
        requires
            self.wf(),
        ensures
            r@.map_values(|s: String| s@) == spec_connected(self.entries()),
            forall|k: int|
                0 <= k < r@.len() ==> self.spec_get((#[trigger] r@[k])@) is Up,
    {
        let mut r: Vec<String> = Vec::new();
        let mut i: usize = 0;
        while i < self.nodes.len()
            invariant
                i <= self.nodes@.len(),
                r@.map_values(|s: String| s@) == spec_connected(self.nodes@.take(i as int)),
            decreases self.nodes@.len() - i,
        {
            let ghost pre = self.nodes@.take(i as int);
            let up_now = self.nodes[i].1.is_up();
            if up_now {
                let name = self.nodes[i].0.clone();
                proof {
                    assert(self.nodes@.take(i + 1 as int).drop_last() =~= pre);
                    assert(self.nodes@.take(i + 1 as int).last() == self.nodes@[i as int]);
                    assert((r@.push(name)).map_values(|s: String| s@) =~= r@.map_values(
                        |s: String| s@,
                    ) + seq![name@]);
                }
                r.push(name);
            } else {
                proof {
                    assert(self.nodes@.take(i + 1 as int).drop_last() =~= pre);
                    assert(self.nodes@.take(i + 1 as int).last() == self.nodes@[i as int]);
                }
            }
            i = i + 1;
        }
        proof {
            assert(self.nodes@.take(self.nodes@.len() as int) =~= self.nodes@);
            assert forall|k: int| 0 <= k < r@.len() implies self.spec_get(
                (#[trigger] r@[k])@,
            ) is Up by {
                assert(r@[k]@ == r@.map_values(|s: String| s@)[k]);
                lemma_connected_are_up(self.nodes@, k);
            }
        }
        r
    }

    /// Every entry, for the status listing.
    pub fn nodes(&self) -> (r: &Vec<(String, NodeStatus<C>)>)
        ensures
            r@ == self.entries(),
    {
        &self.nodes
    }
}

/// A name an up-to-date registry reports as connected is indeed `Up`.
pub proof fn lemma_connected_are_up<C>(s: Seq<(String, NodeStatus<C>)>, k: int)
    requires
        unique_names(s),
        0 <= k < spec_connected(s).len(),
    ensures
        lookup(s, spec_connected(s)[k]) is Up,
    decreases s.len(),
{
    if s.len() == 0 {
    } else {
        assert(unique_names(s.drop_last())) by {
            assert(forall|x: int, y: int|
                0 <= x < y < s.drop_last().len() ==> (#[trigger] s.drop_last()[x]).0@ != (
                #[trigger] s.drop_last()[y]).0@);
        }
        if s.last().1 is Up && k == spec_connected(s).len() - 1 {
            assert(spec_connected(s)[k] == s.last().0@);
        } else {
            lemma_connected_are_up(s.drop_last(), k);
            let n = spec_connected(s.drop_last())[k];
            lemma_connected_names_in(s.drop_last(), k);
            let i = choose|i: int| 0 <= i < s.drop_last().len() && (#[trigger] s.drop_last()[i]).0@ == n;
            assert(s[i] == s.drop_last()[i]);
            assert(s.last().0@ != n);
            assert(lookup(s, n) == lookup(s.drop_last(), n));
        }
    }
}

/// Every connected name comes from some registry entry.
pub proof fn lemma_connected_names_in<C>(s: Seq<(String, NodeStatus<C>)>, k: int)
    requires
        0 <= k < spec_connected(s).len(),
    ensures
        exists|i: int| 0 <= i < s.len() && (#[trigger] s[i]).0@ == spec_connected(s)[k],
    decreases s.len(),
{
    if s.len() == 0 {
    } else {
        if s.last().1 is Up && k == spec_connected(s).len() - 1 {
            assert(s[s.len() - 1].0@ == spec_connected(s)[k]);
        } else {
            lemma_connected_names_in(s.drop_last(), k);
            let i = choose|i: int|
                0 <= i < s.drop_last().len() && (#[trigger] s.drop_last()[i]).0@ == spec_connected(
                    s.drop_last(),
                )[k];
            assert(s[i] == s.drop_last()[i]);
        }
    }
}


/// One registry step of `up`: what the ensures of `up` states, as a
/// relation between the registry before and after.
pub open spec fn up_transition<C>(
    before: NodeManager<C>,
    after: NodeManager<C>,
    name: Seq<char>,
    c: C,
) -> bool {
    &&& after.wf()
    &&& after.spec_get(name) == NodeStatus::Up(c)
    &&& forall|n: Seq<char>| n != name ==> after.spec_get(n) == before.spec_get(n)
}

/// Registering a connection under a name twice keeps only the second:
/// after `up(name, c1)` and then `up(name, c2)`, the name maps to `c2`,
/// and no other name changed. (The first connection's receiver is not
/// cancelled by this; it ends only with its own stream.)
pub proof fn lemma_up_twice_replaces<C>(
    m0: NodeManager<C>,
    m1: NodeManager<C>,
    m2: NodeManager<C>,
    name: Seq<char>,
    c1: C,
    c2: C,
)
    requires
        up_transition(m0, m1, name, c1),
        up_transition(m1, m2, name, c2),
    ensures
        m2.spec_get(name) == NodeStatus::Up(c2),
        forall|n: Seq<char>| n != name ==> m2.spec_get(n) == m0.spec_get(n),
{
}

} // verus!
