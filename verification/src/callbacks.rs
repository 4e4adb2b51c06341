//! Requests that await a reply, each with what to do when the reply comes.

use crate::message::MsgId;
use std::collections::HashMap;
use vstd::prelude::*;

verus! {

/// A table from the id of an outstanding request to its continuation. An
/// entry is made when the request is sent and leaves with the first reply
/// that quotes its id; without a reply it stays.
#[derive(Debug)]
pub struct CallbackTable<C> {
    entries: HashMap<MsgId, C>,
}

impl<C> View for CallbackTable<C> {
    type V = Map<MsgId, C>;

    closed spec fn view(&self) -> Map<MsgId, C> {
        self.entries@
    }
}

impl<C> CallbackTable<C> {
    /// The table with no outstanding request.
    pub fn new() -> (table: Self)
        ensures
            table@ == Map::<MsgId, C>::empty(),
    {
        CallbackTable { entries: HashMap::new() }
    }

    /// Whether request `id` awaits a reply.
    pub fn contains(&self, id: MsgId) -> (found: bool)
        ensures
            found == self@.contains_key(id),
    {
        broadcast use vstd::std_specs::hash::group_hash_axioms;

        self.entries.contains_key(&id)
    }

    /// How many requests await a reply.
    pub fn len(&self) -> (count: usize)
        ensures
            count == self@.len(),
            self@.dom().finite(),
    {
        broadcast use vstd::std_specs::hash::group_hash_axioms;

        self.entries.len()
    }

    /// Files `continuation` under `id` and gives back what was filed there
    /// before, if anything was.
    pub fn register(&mut self, id: MsgId, continuation: C) -> (displaced: Option<C>)
        ensures
            final(self)@ == old(self)@.insert(id, continuation),
            displaced == if old(self)@.contains_key(id) {
                Some(old(self)@[id])
            } else {
                None::<C>
            },
    {
        broadcast use vstd::std_specs::hash::group_hash_axioms;

        self.entries.insert(id, continuation)
    }

    /// Takes out the continuation filed under `id`, if there is one. A second
    /// reply to the same request therefore finds nothing.
    pub fn resolve(&mut self, id: MsgId) -> (continuation: Option<C>)
        ensures
            final(self)@ == old(self)@.remove(id),
            continuation == if old(self)@.contains_key(id) {
                Some(old(self)@[id])
            } else {
                None::<C>
            },
    {
        broadcast use vstd::std_specs::hash::group_hash_axioms;

        self.entries.remove(&id)
    }
}

/// A continuation runs at most once: after the reply to `id` has been
/// resolved, resolving `id` again finds nothing, whatever was filed.
pub proof fn lemma_resolve_at_most_once<C>(table: Map<MsgId, C>, id: MsgId)
    ensures
        !table.remove(id).contains_key(id),
        table.remove(id).remove(id) == table.remove(id),
{
}

/// A reply reaches only the continuation filed under the id it quotes:
/// resolving another id leaves the entry of `id` where it was.
pub proof fn lemma_resolve_only_matching<C>(table: Map<MsgId, C>, id: MsgId, other: MsgId)
    requires
        other != id,
    ensures
        table.remove(other).contains_key(id) == table.contains_key(id),
        table.contains_key(id) ==> table.remove(other)[id] == table[id],
{
}

} // verus!
