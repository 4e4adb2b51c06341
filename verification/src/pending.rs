//! Broadcast values that some neighbour has yet to acknowledge.

use crate::message::{NodeId, NodeMessage};
use std::collections::HashMap;
use vstd::prelude::*;

verus! {

/// The test that a name is another than `excluded`.
pub open spec fn other_than(excluded: Seq<char>) -> spec_fn(Seq<char>) -> bool {
    |name: Seq<char>| name != excluded
}

/// `list` without any occurrence of `excluded`, the rest in order.
pub open spec fn without(list: Seq<Seq<char>>, excluded: Seq<char>) -> Seq<Seq<char>> {
    list.filter(other_than(excluded))
}

/// A list without a name does not hold the name, and holds nothing the list
/// did not.
pub proof fn lemma_without_excludes(list: Seq<Seq<char>>, excluded: Seq<char>)
    ensures
        !without(list, excluded).contains(excluded),
        forall|name: Seq<char>| #[trigger]
            without(list, excluded).contains(name) ==> list.contains(name),
{
    let keep = other_than(excluded);
    let rest = list.filter(keep);
    if rest.contains(excluded) {
        let i: int = choose|i: int| 0 <= i < rest.len() && rest[i] == excluded;
        list.lemma_filter_pred(keep, i);
    }
    assert forall|name: Seq<char>| #[trigger] rest.contains(name) implies list.contains(name) by {
        list.lemma_filter_contains_rev(keep, name);
    }
}

/// The records after `neighbor` has acknowledged `value`: the neighbour
/// leaves the record of that value, and a record left empty goes.
pub open spec fn acknowledged(
    records: Map<NodeMessage, Seq<Seq<char>>>,
    value: NodeMessage,
    neighbor: Seq<char>,
) -> Map<NodeMessage, Seq<Seq<char>>> {
    if !records.contains_key(value) {
        records
    } else if without(records[value], neighbor).len() == 0 {
        records.remove(value)
    } else {
        records.insert(value, without(records[value], neighbor))
    }
}

/// The neighbours that still owe an acknowledgment of `value`.
pub open spec fn unacked_of(records: Map<NodeMessage, Seq<Seq<char>>>, value: NodeMessage) -> Seq<
    Seq<char>,
> {
    if records.contains_key(value) {
        records[value]
    } else {
        Seq::empty()
    }
}

/// The names in `list` other than `excluded`, in order.
pub fn names_without(list: &Vec<NodeId>, excluded: &NodeId) -> (rest: Vec<NodeId>)
    ensures
        rest.deep_view() == without(list.deep_view(), excluded@),
{
    let ghost names = list.deep_view();
    let ghost keep = other_than(excluded@);
    let mut rest: Vec<NodeId> = Vec::new();
    let mut i: usize = 0;
    while i < list.len()
        invariant
            i <= list@.len(),
            names == list.deep_view(),
            keep == other_than(excluded@),
            rest.deep_view() == names.take(i as int).filter(keep),
        decreases list@.len() - i,
    {
        proof {
            assert(names.take(i + 1) =~= names.take(i as int).push(list@[i as int]@));
            names.take(i as int).lemma_filter_push(list@[i as int]@, keep);
        }
        if list[i] != *excluded {
            rest.push(list[i].clone());
        }
        i += 1;
    }
    assert(names.take(names.len() as int) =~= names);
    rest
}

/// For each value still being spread, the neighbours that have not
/// acknowledged it. A record is made when a new value is first fanned out,
/// loses a neighbour with each acknowledgment, and goes when none is left.
#[derive(Debug)]
pub struct PendingBroadcasts {
    records: HashMap<NodeMessage, Vec<NodeId>>,
}

impl View for PendingBroadcasts {
    type V = Map<NodeMessage, Seq<Seq<char>>>;

    closed spec fn view(&self) -> Map<NodeMessage, Seq<Seq<char>>> {
        self.records@.map_values(|list: Vec<NodeId>| list.deep_view())
    }
}

impl PendingBroadcasts {
    /// No value is being spread.
    pub fn new() -> (pending: Self)
        ensures
            pending@ == Map::<NodeMessage, Seq<Seq<char>>>::empty(),
    {
        PendingBroadcasts { records: HashMap::new() }
    }

    /// Whether some neighbour still owes an acknowledgment of `value`.
    pub fn is_pending(&self, value: NodeMessage) -> (found: bool)
        ensures
            found == self@.contains_key(value),
    {
        broadcast use vstd::std_specs::hash::group_hash_axioms;

        self.records.contains_key(&value)
    }

    /// The neighbours that still owe an acknowledgment of `value`.
    pub fn unacked(&self, value: NodeMessage) -> (list: Vec<NodeId>)
        ensures
            list.deep_view() == unacked_of(self@, value),
    {
        broadcast use vstd::std_specs::hash::group_hash_axioms;

        match self.records.get(&value) {
            Some(neighbors) => neighbors.clone(),
            None => Vec::new(),
        }
    }

    /// Opens the record of `value` with `neighbors`, in place of any it had.
    /// With no neighbour there is nothing to wait for, and no record.
    pub fn begin(&mut self, value: NodeMessage, neighbors: Vec<NodeId>)
        ensures
            final(self)@ == if neighbors@.len() == 0 {
                old(self)@.remove(value)
            } else {
                old(self)@.insert(value, neighbors.deep_view())
            },
    {
        broadcast use vstd::std_specs::hash::group_hash_axioms;

        if neighbors.len() == 0 {
            self.records.remove(&value);
        } else {
            self.records.insert(value, neighbors);
        }
    }

    /// Notes that `neighbor` has acknowledged `value`. Tells whether that
    /// closed the record: the value was pending and no neighbour is left.
    pub fn acknowledge(&mut self, value: NodeMessage, neighbor: &NodeId) -> (settled: bool)
        ensures
            final(self)@ == acknowledged(old(self)@, value, neighbor@),
            settled == (old(self)@.contains_key(value) && !final(self)@.contains_key(value)),
    {
        broadcast use vstd::std_specs::hash::group_hash_axioms;

        match self.records.remove(&value) {
            None => false,
            Some(neighbors) => {
                let rest = names_without(&neighbors, neighbor);
                if rest.len() == 0 {
                    true
                } else {
                    self.records.insert(value, rest);
                    false
                }
            },
        }
    }
}

} // verus!
