//! Who gossips to whom: each node's list of neighbours.

use crate::message::NodeId;
use vstd::prelude::*;

verus! {

/// What `entries` says of `node`: the neighbours of the last entry under
/// that name, if there is one.
pub open spec fn lookup(entries: Seq<(NodeId, Vec<NodeId>)>, node: Seq<char>) -> Option<
    Seq<Seq<char>>,
>
    decreases entries.len(),
{
    if entries.len() == 0 {
        None
    } else if entries.last().0@ == node {
        Some(entries.last().1.deep_view())
    } else {
        lookup(entries.drop_last(), node)
    }
}

/// The neighbours `topology` gives `node`; none where it does not name the
/// node.
pub open spec fn neighbors_of(topology: Map<Seq<char>, Seq<Seq<char>>>, node: Seq<char>) -> Seq<
    Seq<char>,
> {
    if topology.contains_key(node) {
        topology[node]
    } else {
        Seq::empty()
    }
}

/// Replacing the last entry under a name changes what is said of that name
/// and of no other.
proof fn lemma_lookup_update(
    entries: Seq<(NodeId, Vec<NodeId>)>,
    at: int,
    entry: (NodeId, Vec<NodeId>),
    node: Seq<char>,
)
    requires
        0 <= at < entries.len(),
        entries[at].0@ == entry.0@,
        forall|j: int| at < j < entries.len() ==> entries[j].0@ != entry.0@,
    ensures
        lookup(entries.update(at, entry), node) == if node == entry.0@ {
            Some(entry.1.deep_view())
        } else {
            lookup(entries, node)
        },
    decreases entries.len(),
{
    let updated = entries.update(at, entry);
    if at == entries.len() - 1 {
        assert(updated.drop_last() =~= entries.drop_last());
    } else {
        assert(updated.drop_last() =~= entries.drop_last().update(at, entry));
        lemma_lookup_update(entries.drop_last(), at, entry, node);
    }
}

/// A name has an entry exactly when something is said of it.
proof fn lemma_lookup_some(entries: Seq<(NodeId, Vec<NodeId>)>, node: Seq<char>)
    ensures
        lookup(entries, node) is Some <==> exists|i: int|
            0 <= i < entries.len() && #[trigger] entries[i].0@ == node,
    decreases entries.len(),
{
    if entries.len() > 0 {
        lemma_lookup_some(entries.drop_last(), node);
        if entries.last().0@ != node && lookup(entries.drop_last(), node) is None {
            if exists|i: int| 0 <= i < entries.len() && #[trigger] entries[i].0@ == node {
                let i: int = choose|i: int|
                    0 <= i < entries.len() && #[trigger] entries[i].0@ == node;
                assert(entries.drop_last()[i].0@ == node);
            }
        }
    }
}

/// A map from node to neighbours. A topology message replaces the whole map.
#[derive(Debug)]
pub struct Topology {
    entries: Vec<(NodeId, Vec<NodeId>)>,
}

impl View for Topology {
    type V = Map<Seq<char>, Seq<Seq<char>>>;

    closed spec fn view(&self) -> Map<Seq<char>, Seq<Seq<char>>> {
        Map::new(
            |node: Seq<char>| lookup(self.entries@, node) is Some,
            |node: Seq<char>| lookup(self.entries@, node)->0,
        )
    }
}

impl Topology {
    /// The topology that names no node.
    pub fn new() -> (topology: Self)
        ensures
            topology@ == Map::<Seq<char>, Seq<Seq<char>>>::empty(),
    {
        Topology { entries: Vec::new() }
    }

    /// Where the last entry under `node` stands.
    fn position(&self, node: &NodeId) -> (at: Option<usize>)
        ensures
            match at {
                Some(i) => {
                    &&& i < self.entries@.len()
                    &&& self.entries@[i as int].0@ == node@
                    &&& forall|j: int| i < j < self.entries@.len() ==> self.entries@[j].0@ != node@
                    &&& lookup(self.entries@, node@) == Some(self.entries@[i as int].1.deep_view())
                },
                None => lookup(self.entries@, node@) is None,
            },
    {
        let mut i: usize = self.entries.len();
        assert(self.entries@.take(i as int) =~= self.entries@);
        while i > 0
            invariant
                i <= self.entries@.len(),
                forall|j: int| i <= j < self.entries@.len() ==> self.entries@[j].0@ != node@,
                lookup(self.entries@, node@) == lookup(self.entries@.take(i as int), node@),
            decreases i,
        {
            i -= 1;
            assert(self.entries@.take(i + 1).drop_last() =~= self.entries@.take(i as int));
            if self.entries[i].0 == *node {
                return Some(i);
            }
        }
        None
    }

    /// Sets the neighbours of `node`, in place of any it had.
    pub fn insert(&mut self, node: NodeId, neighbors: Vec<NodeId>)
        ensures
            final(self)@ == old(self)@.insert(node@, neighbors.deep_view()),
    {
        let ghost before = self.entries@;
        let ghost entry = (node, neighbors);
        match self.position(&node) {
            Some(at) => {
                self.entries.set(at, (node, neighbors));
                assert forall|other: Seq<char>|
                    lookup(self.entries@, other) == if other == entry.0@ {
                        Some(entry.1.deep_view())
                    } else {
                        lookup(before, other)
                    } by {
                    lemma_lookup_update(before, at as int, entry, other);
                }
            },
            None => {
                self.entries.push((node, neighbors));
                assert(self.entries@.drop_last() =~= before);
            },
        }
    }

    /// Whether the topology names `node`.
    pub fn contains_node(&self, node: &NodeId) -> (found: bool)
        ensures
            found == self@.contains_key(node@),
    {
        self.position(node).is_some()
    }

    /// The neighbours of `node`; none where the topology does not name it.
    pub fn neighbors(&self, node: &NodeId) -> (list: Vec<NodeId>)
        ensures
            list.deep_view() == neighbors_of(self@, node@),
    {
        match self.position(node) {
            Some(at) => self.entries[at].1.clone(),
            None => Vec::new(),
        }
    }

    /// The nodes the topology names.
    pub fn nodes(&self) -> (names: Vec<NodeId>)
        ensures
            names.deep_view().to_set() == self@.dom(),
    {
        let mut names: Vec<NodeId> = Vec::new();
        let mut i: usize = 0;
        while i < self.entries.len()
            invariant
                i <= self.entries@.len(),
                names@.len() == i,
                forall|j: int| 0 <= j < i ==> names@[j]@ == self.entries@[j].0@,
            decreases self.entries@.len() - i,
        {
            names.push(self.entries[i].0.clone());
            i += 1;
        }
        proof {
            let keys = names.deep_view();
            assert forall|node: Seq<char>| keys.to_set().contains(node) <==> self@.dom().contains(
                node,
            ) by {
                lemma_lookup_some(self.entries@, node);
                if lookup(self.entries@, node) is Some {
                    let j: int = choose|j: int|
                        0 <= j < self.entries@.len() && #[trigger] self.entries@[j].0@ == node;
                    assert(keys[j] == node);
                }
            }
        }
        names
    }
}

/// Whether two lists hold the same names in the same order.
pub fn same_names(left: &Vec<NodeId>, right: &Vec<NodeId>) -> (same: bool)
    ensures
        same == (left.deep_view() == right.deep_view()),
{
    if left.len() != right.len() {
        assert(left.deep_view().len() != right.deep_view().len());
        return false;
    }
    let mut i: usize = 0;
    while i < left.len()
        invariant
            i <= left@.len(),
            left@.len() == right@.len(),
            forall|j: int| 0 <= j < i ==> left@[j]@ == right@[j]@,
        decreases left@.len() - i,
    {
        if left[i] != right[i] {
            assert(left.deep_view()[i as int] != right.deep_view()[i as int]);
            return false;
        }
        i += 1;
    }
    assert(left.deep_view() =~= right.deep_view());
    true
}

impl Topology {
    /// Whether `other` says of every node this topology names what this
    /// topology says of it.
    fn within(&self, other: &Topology) -> (all: bool)
        ensures
            all == forall|node: Seq<char>| #[trigger]
                self@.contains_key(node) ==> other@.contains_key(node) && other@[node]
                    == self@[node],
    {
        let mut i: usize = 0;
        while i < self.entries.len()
            invariant
                i <= self.entries@.len(),
                forall|j: int|
                    0 <= j < i ==> other@.contains_key(#[trigger] self.entries@[j].0@)
                        && other@[self.entries@[j].0@] == self@[self.entries@[j].0@],
            decreases self.entries@.len() - i,
        {
            let name = &self.entries[i].0;
            proof {
                lemma_lookup_some(self.entries@, name@);
            }
            let same = match (self.position(name), other.position(name)) {
                (Some(here), Some(there)) => same_names(
                    &self.entries[here].1,
                    &other.entries[there].1,
                ),
                _ => false,
            };
            if !same {
                assert(self@.contains_key(name@));
                return false;
            }
            i += 1;
        }
        proof {
            assert forall|node: Seq<char>| #[trigger]
                self@.contains_key(node) implies other@.contains_key(node) && other@[node]
                == self@[node] by {
                lemma_lookup_some(self.entries@, node);
            }
        }
        true
    }
}

impl PartialEq for Topology {
    /// Two topologies are equal when they give every node the same
    /// neighbours.
    fn eq(&self, other: &Self) -> (equal: bool) {
        let equal = self.within(other) && other.within(self);
        proof {
            if equal {
                assert(self@ =~= other@);
            }
        }
        equal
    }
}

impl vstd::std_specs::cmp::PartialEqSpecImpl for Topology {
    open spec fn obeys_eq_spec() -> bool {
        true
    }

    open spec fn eq_spec(&self, other: &Self) -> bool {
        self@ == other@
    }
}

impl Eq for Topology {

}

impl Clone for Topology {
    fn clone(&self) -> (copy: Self)
        ensures
            copy@ == self@,
    {
        let mut entries: Vec<(NodeId, Vec<NodeId>)> = Vec::new();
        let mut i: usize = 0;
        while i < self.entries.len()
            invariant
                i <= self.entries@.len(),
                entries@.len() == i,
                forall|j: int|
                    0 <= j < i ==> entries@[j].0@ == self.entries@[j].0@
                        && entries@[j].1.deep_view() == self.entries@[j].1.deep_view(),
            decreases self.entries@.len() - i,
        {
            entries.push((self.entries[i].0.clone(), self.entries[i].1.clone()));
            i += 1;
        }
        let copy = Topology { entries };
        proof {
            assert forall|node: Seq<char>|
                lookup(copy.entries@, node) == lookup(self.entries@, node) by {
                lemma_lookup_same(copy.entries@, self.entries@, node);
            }
        }
        copy
    }
}

/// Entries that agree name by name and list by list say the same of every
/// node.
proof fn lemma_lookup_same(
    left: Seq<(NodeId, Vec<NodeId>)>,
    right: Seq<(NodeId, Vec<NodeId>)>,
    node: Seq<char>,
)
    requires
        left.len() == right.len(),
        forall|j: int|
            0 <= j < left.len() ==> left[j].0@ == right[j].0@ && left[j].1.deep_view()
                == right[j].1.deep_view(),
    ensures
        lookup(left, node) == lookup(right, node),
    decreases left.len(),
{
    if left.len() > 0 {
        lemma_lookup_same(left.drop_last(), right.drop_last(), node);
    }
}

} // verus!
