//! The shared state of the gateway: the identity allocator co-located with
//! the connection registry, mutated only under one exclusive-access scope.
//! Keeping the two together makes "allocate an identity" and "that identity
//! is a registry key" atomic with respect to every other handler, and the
//! well-formedness invariant proves that a freshly allocated identity can
//! never collide with a registered one.

use vstd::prelude::*;
use crate::database::Database;
use crate::database::allocation_of;
use crate::registry::Registry;

verus! {

/// Allocator and registry under one roof; every identity in the table was
/// issued by the allocator, so registration never sees a duplicate.
pub struct Gateway<T> {
    database: Database,
    registry: Registry<T>,
}

impl<T> Gateway<T> {
    /// The last identity the allocator issued.
    pub closed spec fn last_issued(self) -> u64 {
        self.database.last_issued()
    }

    /// The live sessions, as the map identity -> session handle.
    pub closed spec fn sessions(self) -> Map<u64, T> {
        self.registry@
    }

    /// Well-formedness: the table holds no duplicate identity, and every
    /// registered identity was issued by the allocator (it is at least 1
    /// and at most the counter).
    pub closed spec fn wf(self) -> bool {
        &&& self.registry.wf()
        &&& forall|k: u64|
            #[trigger] self.registry@.contains_key(k) ==> 1 <= k <= self.database.last_issued()
    }

    /// A fresh gateway: no identity issued, no session registered.
    pub fn new() -> (r: Gateway<T>)
        ensures
            r.wf(),
            r.last_issued() == 0,
            r.sessions() == Map::<u64, T>::empty(),
    {
        Gateway { database: Database::new(), registry: Registry::new() }
    }

    /// Under the exclusive scope: allocate the next identity and register
    /// the session under it. The identity is fresh — it was never in the
    /// table — so the insertion cannot fail.
    pub fn register(&mut self, session: T) -> (id: u64)
        requires
            old(self).wf(),
            old(self).last_issued() < u64::MAX,
        ensures
            final(self).wf(),
            allocation_of(old(self).database(), final(self).database(), id),
            id == old(self).last_issued() + 1,
            final(self).last_issued() == id,
            !old(self).sessions().contains_key(id),
            final(self).sessions() == old(self).sessions().insert(id, session),
    {
        let id = self.database.next_client_id();
        let r = self.registry.insert(id, session);
        proof {
            assert(r is Ok);
        }
        id
    }

    /// The allocator state, for stating `allocation_of` traces.
    pub closed spec fn database(self) -> Database {
        self.database
    }

    /// Whether the allocator has run out of identities; while this is
    /// false, `register` may be called.
    pub fn exhausted(&self) -> (r: bool)
        ensures
            r == (self.last_issued() == u64::MAX),
    {
        self.database.exhausted()
    }

    /// Deregister `id`; idempotent, and the counter is untouched, so the
    /// identity is never reused.
    pub fn deregister(&mut self, id: u64)
        requires
            old(self).wf(),
        ensures
            final(self).wf(),
            final(self).last_issued() == old(self).last_issued(),
            final(self).sessions() == old(self).sessions().remove(id),
            !final(self).sessions().contains_key(id),
    {
        self.registry.remove(id);
    }

    /// Look a live session up; absent if unknown or already removed.
    pub fn get(&self, id: u64) -> (r: Option<&T>)
        requires
            self.wf(),
        ensures
            match r {
                Some(v) => self.sessions().contains_key(id) && *v == self.sessions()[id],
                None => !self.sessions().contains_key(id),
            },
    {
        self.registry.get(id)
    }

    /// Whether `id` is currently registered.
    pub fn contains(&self, id: u64) -> (r: bool)
        ensures
            r == self.sessions().contains_key(id),
    {
        self.registry.contains(id)
    }

    /// How many sessions are live.
    pub fn len(&self) -> (n: usize)
        requires
            self.wf(),
        ensures
            n == self.sessions().dom().len(),
    {
        self.registry.len()
    }

    /// The recipients of a broadcast, excluding an optional originator.
    pub fn broadcast_targets(&self, exclude: Option<u64>) -> (r: Vec<u64>)
        requires
            self.wf(),
        ensures
            r@.no_duplicates(),
            forall|k: u64|
                #[trigger] r@.contains(k) <==> (self.sessions().contains_key(k) && exclude != Some(
                    k,
                )),
    {
        self.registry.broadcast_targets(exclude)
    }

    /// Evict every identity whose send failed during a broadcast; all other
    /// entries are left exactly as they were.
    pub fn remove_all(&mut self, failed: &Vec<u64>)
        requires
            old(self).wf(),
        ensures
            final(self).wf(),
            final(self).last_issued() == old(self).last_issued(),
            forall|k: u64|
                #[trigger] final(self).sessions().contains_key(k) <==> (old(
                    self,
                ).sessions().contains_key(k) && !failed@.contains(k)),
            forall|k: u64|
                #[trigger] final(self).sessions().contains_key(k) ==> final(self).sessions()[k]
                    == old(self).sessions()[k],
    {
        self.registry.remove_all(failed);
    }
}

} // verus!
