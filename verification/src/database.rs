//! Identity allocation: a single counter that mints unique, strictly
//! increasing client identities. The counter is meant to be co-located with
//! the connection registry under one exclusive-access scope, so that
//! "allocate an identity" and "that identity is now a registry key" are
//! atomic with respect to all other connection handlers.

use vstd::prelude::*;

verus! {

/// The shared allocator state: the last identity handed out. Identities are
/// never reused, even after the connection they were issued to has closed.
pub struct Database {
    next_client_id: u64,
}

/// Holds when one call of the allocator turns state `pre` into state `post`
/// and issues `id`: the counter advances by exactly one and the issued
/// identity is the new counter value.
pub open spec fn allocation_of(pre: Database, post: Database, id: u64) -> bool {
    &&& pre.last_issued() < u64::MAX
    &&& post.last_issued() == pre.last_issued() + 1
    &&& id == post.last_issued()
}

/// Holds when `ids` is the exact sequence of identities issued by a run of
/// the allocator through the successive states `states`.
pub open spec fn allocation_trace(states: Seq<Database>, ids: Seq<u64>) -> bool {
    &&& states.len() == ids.len() + 1
    &&& forall|i: int|
        0 <= i < ids.len() ==> allocation_of(states[i], states[i + 1], ids[i])
}

impl Database {
    /// The value of the internal counter: the last identity issued, or 0 if
    /// none has been issued yet.
    pub closed spec fn last_issued(self) -> u64 {
        self.next_client_id
    }

    /// A fresh allocator that has issued no identity yet.
    pub fn new() -> (r: Database)
        ensures
            r.last_issued() == 0,
    {
        Database { next_client_id: 0 }
    }

    /// Whether the counter has reached its ceiling; while this is false,
    /// `next_client_id` may be called.
    pub fn exhausted(&self) -> (r: bool)
        ensures
            r == (self.last_issued() == u64::MAX),
    {
        self.next_client_id == u64::MAX
    }

    /// Mint the next client identity. The first identity issued is 1.
    pub fn next_client_id(&mut self) -> (id: u64)
        requires
            old(self).last_issued() < u64::MAX,
        ensures
            allocation_of(*old(self), *final(self), id),
            id == old(self).last_issued() + 1,
    {
        self.next_client_id = self.next_client_id + 1;
        self.next_client_id
    }
}

impl Default for Database {
    /// Same state as `Database::new`: nothing issued yet.
    fn default() -> (r: Database)
        ensures
            r.last_issued() == 0,
    {
        Database { next_client_id: 0 }
    }
}

/// Along any allocation trace the counter never decreases.
proof fn lemma_counter_monotonic(states: Seq<Database>, ids: Seq<u64>, i: int, j: int)
    requires
        allocation_trace(states, ids),
        0 <= i <= j < states.len(),
    ensures
        states[i].last_issued() <= states[j].last_issued(),
    decreases j - i,
{
    if i < j {
        assert(allocation_of(states[i], states[i + 1], ids[i]));
        lemma_counter_monotonic(states, ids, i + 1, j);
    }
}

/// Uniqueness of identities: in any sequence of successful allocations the
/// issued identities are strictly increasing in issuance order, hence
/// pairwise distinct.
pub proof fn lemma_identities_strictly_increasing(
    states: Seq<Database>,
    ids: Seq<u64>,
    i: int,
    j: int,
)
    requires
        allocation_trace(states, ids),
        0 <= i < j < ids.len(),
    ensures
        ids[i] < ids[j],
{
    lemma_counter_monotonic(states, ids, i + 1, j);
}

} // verus!
