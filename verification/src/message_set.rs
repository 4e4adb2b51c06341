//! The grow-only set of values a node has learned.

use crate::message::NodeMessage;
use std::collections::HashSet;
use vstd::prelude::*;
use vstd::std_specs::hash::spec_hash_keys_iter;
use vstd::std_specs::iter::IteratorSpec;

verus! {

/// Whether `list` holds every value of `set` once and nothing else.
pub open spec fn lists(list: Seq<NodeMessage>, set: Set<NodeMessage>) -> bool {
    list.no_duplicates() && list.to_set() == set
}

/// A grow-only set: values are added, never removed, and two sets merge by
/// union.
#[derive(Debug)]
pub struct MessageSet {
    items: HashSet<NodeMessage>,
}

impl View for MessageSet {
    type V = Set<NodeMessage>;

    closed spec fn view(&self) -> Set<NodeMessage> {
        self.items@
    }
}

impl MessageSet {
    /// The empty set.
    pub fn new() -> (set: Self)
        ensures
            set@ == Set::<NodeMessage>::empty(),
    {
        MessageSet { items: HashSet::new() }
    }

    /// Adds `value`; tells whether it was new.
    pub fn add(&mut self, value: NodeMessage) -> (inserted: bool)
        ensures
            final(self)@ == old(self)@.insert(value),
            inserted == !old(self)@.contains(value),
    {
        broadcast use vstd::std_specs::hash::group_hash_axioms;

        self.items.insert(value)
    }

    /// Whether `value` is in the set.
    pub fn contains(&self, value: NodeMessage) -> (found: bool)
        ensures
            found == self@.contains(value),
    {
        broadcast use vstd::std_specs::hash::group_hash_axioms;

        self.items.contains(&value)
    }

    /// How many values the set holds.
    pub fn len(&self) -> (count: usize)
        ensures
            count == self@.len(),
            self@.finite(),
    {
        broadcast use vstd::std_specs::hash::group_hash_axioms;

        proof {
            vstd::seq_lib::seq_to_set_is_finite(
                spec_hash_keys_iter(&self.items).remaining().unref(),
            );
        }
        self.items.len()
    }

    /// The values of the set at this moment, each once, in no particular
    /// order.
    pub fn to_vec(&self) -> (list: Vec<NodeMessage>)
        ensures
            lists(list@, self@),
    {
        broadcast use vstd::std_specs::hash::group_hash_axioms;

        let ghost keys = spec_hash_keys_iter(&self.items).remaining();
        let mut list: Vec<NodeMessage> = Vec::new();
        for value in iter: self.items.iter()
            invariant
                iter.seq() == keys,
                list@.len() == iter.index(),
                forall|j: int| 0 <= j < list@.len() ==> list@[j] == *keys[j],
        {
            list.push(*value);
        }
        assert(list@ =~= keys.unref());
        list
    }

    /// Takes in every value of `other`.
    pub fn merge(&mut self, other: &MessageSet)
        ensures
            final(self)@ == old(self)@.union(other@),
    {
        broadcast use vstd::std_specs::hash::group_hash_axioms;

        let ghost keys = spec_hash_keys_iter(&other.items).remaining();
        for value in iter: other.items.iter()
            invariant
                iter.seq() == keys,
                keys.unref().to_set() == other@,
                self@ == old(self)@.union(keys.unref().take(iter.index()).to_set()),
        {
            let ghost seen = keys.unref().take(iter.index());
            let ghost grown = keys.unref().take(iter.index() + 1);
            assert(grown =~= seen.push(*value));
            assert(grown.to_set() =~= seen.to_set().insert(*value)) by {
                seen.lemma_push_to_set_commute(*value);
            }
            self.items.insert(*value);
        }
        assert(keys.unref().take(keys.len() as int) =~= keys.unref());
    }
}

/// Adding is idempotent: a value added twice leaves the set that adding it
/// once leaves.
pub proof fn lemma_add_idempotent(set: Set<NodeMessage>, value: NodeMessage)
    ensures
        set.insert(value).insert(value) == set.insert(value),
{
}

/// Merging is commutative: it does not matter which of two sets takes in
/// the other.
pub proof fn lemma_merge_commutative(left: Set<NodeMessage>, right: Set<NodeMessage>)
    ensures
        left.union(right) == right.union(left),
{
}

/// Merging is associative: three sets merge to the same set in either
/// grouping.
pub proof fn lemma_merge_associative(
    first: Set<NodeMessage>,
    second: Set<NodeMessage>,
    third: Set<NodeMessage>,
)
    ensures
        first.union(second).union(third) == first.union(second.union(third)),
{
}

/// Merging is idempotent, and never loses a value: a set merged with itself
/// is itself, and each side is part of the merge.
pub proof fn lemma_merge_grows(left: Set<NodeMessage>, right: Set<NodeMessage>)
    ensures
        left.union(left) == left,
        left.subset_of(left.union(right)),
        right.subset_of(left.union(right)),
{
}

} // verus!
