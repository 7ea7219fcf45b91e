//! The connection registry: a mapping from client identity to the session
//! handle of a live connection. All operations are meant to run under one
//! exclusive-access scope shared with the identity allocator, so no two
//! handlers mutate the table concurrently.
//!
//! The table is stored as a vector of (identity, handle) pairs with pairwise
//! distinct identities; its mathematical view is the finite map from
//! identities to handles.

use vstd::prelude::*;

verus! {

/// Error of `Registry::insert`: the identity is already registered. With
/// the allocator co-located under the same exclusive scope this never
/// happens.
#[derive(Clone, Copy, Debug, PartialEq, Eq, Structural)]
pub enum RegistryError {
    DuplicateIdentity,
}

/// The shared table of live sessions.
pub struct Registry<T> {
    entries: Vec<(u64, T)>,
}

/// The finite map described by a sequence of (identity, handle) pairs;
/// later pairs win, though the registry never stores a duplicate identity.
pub closed spec fn map_of<T>(s: Seq<(u64, T)>) -> Map<u64, T>
    decreases s.len(),
{
    if s.len() == 0 {
        Map::empty()
    } else {
        map_of(s.drop_last()).insert(s.last().0, s.last().1)
    }
}

/// Pairwise distinct identities in a sequence of pairs.
pub closed spec fn keys_distinct<T>(s: Seq<(u64, T)>) -> bool {
    forall|i: int, j: int| 0 <= i < j < s.len() ==> s[i].0 != s[j].0
}

/// An identity is in the map exactly when some pair of the sequence holds it.
proof fn lemma_map_of_contains<T>(s: Seq<(u64, T)>)
    ensures
        forall|k: u64|
            #[trigger] map_of(s).contains_key(k) <==> (exists|i: int|
                0 <= i < s.len() && s[i].0 == k),
    decreases s.len(),
{
    if s.len() > 0 {
        lemma_map_of_contains(s.drop_last());
        assert forall|k: u64|
            #[trigger] map_of(s).contains_key(k) <==> (exists|i: int|
                0 <= i < s.len() && s[i].0 == k) by {
            if map_of(s).contains_key(k) {
                if k == s.last().0 {
                    assert(s[s.len() - 1].0 == k);
                } else {
                    assert(map_of(s.drop_last()).contains_key(k));
                    let i = choose|i: int|
                        0 <= i < s.drop_last().len() && s.drop_last()[i].0 == k;
                    assert(s.drop_last()[i] == s[i]);
                    assert(s[i].0 == k);
                }
            }
            if exists|i: int| 0 <= i < s.len() && s[i].0 == k {
                let i = choose|i: int| 0 <= i < s.len() && s[i].0 == k;
                if i < s.len() - 1 {
                    assert(s.drop_last()[i].0 == k);
                    assert(map_of(s.drop_last()).contains_key(k));
                }
            }
        }
    }
}

/// With distinct identities, the map sends each pair's identity to its handle.
proof fn lemma_map_of_index<T>(s: Seq<(u64, T)>)
    requires
        keys_distinct(s),
    ensures
        forall|i: int|
            0 <= i < s.len() ==> map_of(s).contains_key(#[trigger] s[i].0) && map_of(s)[s[i].0]
                == s[i].1,
    decreases s.len(),
{
    if s.len() > 0 {
        assert(keys_distinct(s.drop_last())) by {
            assert forall|i: int, j: int|
                0 <= i < j < s.drop_last().len() implies s.drop_last()[i].0
                != s.drop_last()[j].0 by {
                assert(s[i].0 != s[j].0);
            }
        }
        lemma_map_of_index(s.drop_last());
        assert forall|i: int|
            0 <= i < s.len() implies map_of(s).contains_key(#[trigger] s[i].0) && map_of(s)[s[i].0]
            == s[i].1 by {
            if i < s.len() - 1 {
                assert(s.drop_last()[i] == s[i]);
                assert(s[i].0 != s.last().0);
            }
        }
    }
}

/// The map of a sequence of pairs is finite, with one key per pair when the
/// identities are distinct.
proof fn lemma_map_of_len<T>(s: Seq<(u64, T)>)
    requires
        keys_distinct(s),
    ensures
        map_of(s).dom().finite(),
        map_of(s).dom().len() == s.len(),
    decreases s.len(),
{
    if s.len() > 0 {
        assert(keys_distinct(s.drop_last())) by {
            assert forall|i: int, j: int|
                0 <= i < j < s.drop_last().len() implies s.drop_last()[i].0
                != s.drop_last()[j].0 by {
                assert(s[i].0 != s[j].0);
            }
        }
        lemma_map_of_len(s.drop_last());
        lemma_map_of_contains(s.drop_last());
        assert(!map_of(s.drop_last()).contains_key(s.last().0)) by {
            if map_of(s.drop_last()).contains_key(s.last().0) {
                let i = choose|i: int|
                    0 <= i < s.drop_last().len() && s.drop_last()[i].0 == s.last().0;
                assert(s[i].0 == s[s.len() - 1].0);
            }
        }
        assert(map_of(s).dom() =~= map_of(s.drop_last()).dom().insert(s.last().0));
    }
}

impl<T> View for Registry<T> {
    type V = Map<u64, T>;

    /// The registry viewed as the finite map identity -> session handle.
    closed spec fn view(&self) -> Map<u64, T> {
        map_of(self.entries@)
    }
}

impl<T> Registry<T> {
    /// Well-formedness: no two stored pairs share an identity.
    pub closed spec fn wf(self) -> bool {
        keys_distinct(self.entries@)
    }

    /// An empty registry.
    pub fn new() -> (r: Registry<T>)
        ensures
            r.wf(),
            r@ == Map::<u64, T>::empty(),
    {
        Registry { entries: Vec::new() }
    }

    /// How many sessions are currently registered.
    pub fn len(&self) -> (n: usize)
        requires
            self.wf(),
        ensures
            n == self@.dom().len(),
            self@.dom().finite(),
    {
        proof {
            lemma_map_of_len(self.entries@);
        }
        self.entries.len()
    }

    /// Position of the pair holding `id`, if any.
    fn index_of(&self, id: u64) -> (r: Option<usize>)
        ensures
            match r {
                Some(i) => i < self.entries@.len() && self.entries@[i as int].0 == id,
                None => forall|j: int| 0 <= j < self.entries@.len() ==> self.entries@[j].0 != id,
            },
    {
        let n = self.entries.len();
        let mut i: usize = 0;
        while i < n
            invariant
                n == self.entries@.len(),
                0 <= i <= n,
                forall|j: int| 0 <= j < i ==> self.entries@[j].0 != id,
            decreases n - i,
        {
            if self.entries[i].0 == id {
                return Some(i);
            }
            i += 1;
        }
        None
    }

    /// Whether `id` is currently registered.
    pub fn contains(&self, id: u64) -> (r: bool)
        ensures
            r == self@.contains_key(id),
    {
        proof {
            lemma_map_of_contains(self.entries@);
        }
        self.index_of(id).is_some()
    }

    /// Look a session up; absent if the identity is unknown or was removed.
    pub fn get(&self, id: u64) -> (r: Option<&T>)
        requires
            self.wf(),
        ensures
            match r {
                Some(v) => self@.contains_key(id) && *v == self@[id],
                None => !self@.contains_key(id),
            },
    {
        proof {
            lemma_map_of_contains(self.entries@);
            lemma_map_of_index(self.entries@);
        }
        match self.index_of(id) {
            Some(i) => Some(&self.entries[i].1),
            None => None,
        }
    }

    /// Register a session under `id`. Fails, leaving the table unchanged,
    /// exactly when `id` is already present.
    pub fn insert(&mut self, id: u64, session: T) -> (r: Result<(), RegistryError>)
        requires
            old(self).wf(),
        ensures
            final(self).wf(),
            match r {
                Ok(()) => !old(self)@.contains_key(id) && final(self)@ == old(self)@.insert(
                    id,
                    session,
                ),
                Err(e) => old(self)@.contains_key(id) && final(self)@ == old(self)@ && (e
                    == RegistryError::DuplicateIdentity),
            },
    {
        proof {
            lemma_map_of_contains(self.entries@);
        }
        if self.contains(id) {
            return Err(RegistryError::DuplicateIdentity);
        }
        let ghost prior = self.entries@;
        self.entries.push((id, session));
        proof {
            assert(self.entries@.drop_last() =~= prior);
            assert forall|i: int, j: int|
                0 <= i < j < self.entries@.len() implies self.entries@[i].0
                != self.entries@[j].0 by {
                if j < self.entries@.len() - 1 {
                    assert(prior[i].0 != prior[j].0);
                } else {
                    assert(!map_of(prior).contains_key(id));
                    assert(prior[i].0 != id);
                }
            }
        }
        Ok(())
    }

    /// Deregister `id`. Idempotent: if the identity is absent, the table is
    /// unchanged, and afterwards `id` is absent either way.
    pub fn remove(&mut self, id: u64)
        requires
            old(self).wf(),
        ensures
            final(self).wf(),
            final(self)@ == old(self)@.remove(id),
            !final(self)@.contains_key(id),
    {
        proof {
            lemma_map_of_contains(self.entries@);
        }
        match self.index_of(id) {
            Some(i) => {
                let ghost prior = self.entries@;
                self.entries.remove(i);
                proof {
                    lemma_map_of_remove_at(prior, i as int);
                    lemma_map_of_contains(self.entries@);
                }
            },
            None => {
                proof {
                    assert(!self@.contains_key(id));
                    assert(self@ =~= self@.remove(id));
                }
            },
        }
    }

    /// The identities a broadcast delivers to: every currently registered
    /// identity, except an optional originator. Which sends later succeed
    /// plays no part here, so no recipient's membership depends on another's
    /// failure.
    pub fn broadcast_targets(&self, exclude: Option<u64>) -> (r: Vec<u64>)
        requires
            self.wf(),
        ensures
            r@.no_duplicates(),
            forall|k: u64|
                #[trigger] r@.contains(k) <==> (self@.contains_key(k) && exclude != Some(k)),
    {
        proof {
            lemma_map_of_contains(self.entries@);
        }
        let n = self.entries.len();
        let mut out: Vec<u64> = Vec::new();
        let mut i: usize = 0;
        #[verifier::loop_isolation(false)]
        while i < n
            invariant
                0 <= i <= n,
                out@.no_duplicates(),
                forall|k: u64|
                    #[trigger] out@.contains(k) <==> ((exists|j: int|
                        0 <= j < i && self.entries@[j].0 == k) && exclude != Some(k)),
            decreases n - i,
        {
            let ek = self.entries[i].0;
            let keep = match exclude {
                Some(x) => x != ek,
                None => true,
            };
            let ghost prev = out@;
            if keep {
                out.push(ek);
                proof {
                    assert forall|k: u64| #[trigger] out@.contains(k) implies ((exists|j: int|
                        0 <= j < i + 1 && self.entries@[j].0 == k) && exclude != Some(k)) by {
                        let idx = choose|idx: int| 0 <= idx < out@.len() && out@[idx] == k;
                        if idx < prev.len() {
                            assert(prev[idx] == k);
                            assert(prev.contains(k));
                        } else {
                            assert(k == ek);
                            assert(self.entries@[i as int].0 == k);
                        }
                    }
                    assert forall|k: u64|
                        ((exists|j: int| 0 <= j < i + 1 && self.entries@[j].0 == k) && exclude
                            != Some(k)) implies #[trigger] out@.contains(k) by {
                        let j = choose|j: int| 0 <= j < i + 1 && self.entries@[j].0 == k;
                        if j < i {
                            assert(prev.contains(k));
                            let idx = choose|idx: int|
                                0 <= idx < prev.len() && prev[idx] == k;
                            assert(out@[idx] == k);
                        } else {
                            assert(out@[prev.len() as int] == ek);
                        }
                    }
                    assert(!prev.contains(ek)) by {
                        if prev.contains(ek) {
                            let j = choose|j: int| 0 <= j < i && self.entries@[j].0 == ek;
                            assert(self.entries@[j].0 == self.entries@[i as int].0);
                        }
                    }
                    assert(out@.no_duplicates()) by {
                        assert forall|p: int, q: int|
                            0 <= p < q < out@.len() implies out@[p] != out@[q] by {
                            if q < prev.len() {
                                assert(prev[p] != prev[q]);
                            } else {
                                assert(out@[q] == ek);
                                if out@[p] == ek {
                                    assert(prev[p] == ek);
                                    assert(prev.contains(ek));
                                }
                            }
                        }
                    }
                }
            } else {
                proof {
                    assert forall|k: u64| #[trigger] out@.contains(k) implies ((exists|j: int|
                        0 <= j < i + 1 && self.entries@[j].0 == k) && exclude != Some(k)) by {
                        assert(prev.contains(k));
                        let j = choose|j: int| 0 <= j < i && self.entries@[j].0 == k;
                        assert(0 <= j < i + 1 && self.entries@[j].0 == k);
                    }
                    assert forall|k: u64|
                        ((exists|j: int| 0 <= j < i + 1 && self.entries@[j].0 == k) && exclude
                            != Some(k)) implies #[trigger] out@.contains(k) by {
                        let j = choose|j: int| 0 <= j < i + 1 && self.entries@[j].0 == k;
                        if j == i {
                            assert(k == ek);
                            assert(exclude == Some(ek));
                        } else {
                            assert(prev.contains(k));
                        }
                    }
                }
            }
            i += 1;
        }
        out
    }

    /// Deregister every identity in `failed`, presumed dead after a send
    /// failure. Every other entry is left exactly as it was.
    pub fn remove_all(&mut self, failed: &Vec<u64>)
        requires
            old(self).wf(),
        ensures
            final(self).wf(),
            forall|k: u64|
                #[trigger] final(self)@.contains_key(k) <==> (old(self)@.contains_key(k)
                    && !failed@.contains(k)),
            forall|k: u64|
                #[trigger] final(self)@.contains_key(k) ==> final(self)@[k] == old(self)@[k],
    {
        let n = failed.len();
        let mut i: usize = 0;
        #[verifier::loop_isolation(false)]
        while i < n
            invariant
                0 <= i <= n,
                self.wf(),
                forall|k: u64|
                    #[trigger] self@.contains_key(k) <==> (old(self)@.contains_key(k) && !failed@
                        .take(i as int).contains(k)),
                forall|k: u64| #[trigger] self@.contains_key(k) ==> self@[k] == old(self)@[k],
            decreases n - i,
        {
            let ghost prev = self@;
            let id = failed[i];
            self.remove(id);
            proof {
                let ghost ext = failed@.take(i + 1);
                assert forall|k: u64| #[trigger] ext.contains(k) implies (failed@.take(
                    i as int,
                ).contains(k) || k == failed@[i as int]) by {
                    let j = choose|j: int| 0 <= j < ext.len() && ext[j] == k;
                    if j < i {
                        assert(failed@.take(i as int)[j] == k);
                    }
                }
                assert forall|k: u64|
                    (failed@.take(i as int).contains(k) || k == failed@[i as int]) implies #[trigger]
                    ext.contains(k) by {
                    if k == failed@[i as int] {
                        assert(ext[i as int] == k);
                    } else {
                        let j = choose|j: int| 0 <= j < i && failed@.take(i as int)[j] == k;
                        assert(ext[j] == k);
                    }
                }
            }
            i += 1;
        }
        proof {
            assert(failed@.take(n as int) =~= failed@);
        }
    }
}

/// No leak: once an identity has been deregistered, a lookup finds it
/// absent. Together with `Registry::remove`'s contract this says that after
/// a connection closes (cleanly or via error) its identity is gone from the
/// table and `get` returns `None`.
pub proof fn lemma_removed_absent<T>(m: Map<u64, T>, id: u64)
    ensures
        !m.remove(id).contains_key(id),
{
}

/// Idempotent removal: deregistering the same identity twice leaves the
/// table exactly as deregistering it once does. With `Registry::remove`'s
/// contract, a second `remove(id)` call observes a table without `id` and
/// changes nothing.
pub proof fn lemma_remove_idempotent<T>(m: Map<u64, T>, id: u64)
    ensures
        m.remove(id).remove(id) == m.remove(id),
{
    assert(m.remove(id).remove(id) =~= m.remove(id));
}

/// Broadcast isolation: a failed send to recipient `r` during a broadcast
/// neither keeps any other live recipient `rp` out of that broadcast's
/// target list, nor evicts `rp` afterwards. `targets` is constrained as
/// `broadcast_targets` ensures, `after` as `remove_all` leaves the view.
pub proof fn lemma_broadcast_isolation<T>(
    before: Map<u64, T>,
    after: Map<u64, T>,
    targets: Seq<u64>,
    failed: Seq<u64>,
    sender: u64,
    r: u64,
    rp: u64,
)
    requires
        forall|k: u64| #[trigger] targets.contains(k) <==> (before.contains_key(k) && Some(sender) != Some(k)),
        forall|k: u64|
            #[trigger] after.contains_key(k) <==> (before.contains_key(k) && !failed.contains(k)),
        failed.contains(r),
        rp != r,
        !failed.contains(rp),
        before.contains_key(rp),
        rp != sender,
    ensures
        targets.contains(rp),
        after.contains_key(rp),
{
}

/// Removing the pair at position `i` removes exactly that identity from the
/// map, when identities are distinct.
proof fn lemma_map_of_remove_at<T>(s: Seq<(u64, T)>, i: int)
    requires
        keys_distinct(s),
        0 <= i < s.len(),
    ensures
        keys_distinct(s.remove(i)),
        map_of(s.remove(i)) == map_of(s).remove(s[i].0),
    decreases s.len(),
{
    assert(keys_distinct(s.remove(i))) by {
        assert forall|p: int, q: int|
            0 <= p < q < s.remove(i).len() implies s.remove(i)[p].0 != s.remove(i)[q].0 by {
            let p0 = if p < i {
                p
            } else {
                p + 1
            };
            let q0 = if q < i {
                q
            } else {
                q + 1
            };
            assert(s.remove(i)[p] == s[p0]);
            assert(s.remove(i)[q] == s[q0]);
            assert(s[p0].0 != s[q0].0);
        }
    }
    lemma_map_of_contains(s.drop_last());
    if i == s.len() - 1 {
        assert(s.remove(i) =~= s.drop_last());
        assert(!map_of(s.drop_last()).contains_key(s[i].0)) by {
            if map_of(s.drop_last()).contains_key(s[i].0) {
                let j = choose|j: int|
                    0 <= j < s.drop_last().len() && s.drop_last()[j].0 == s[i].0;
                assert(s[j].0 == s[i].0);
            }
        }
        assert(map_of(s.drop_last()) =~= map_of(s.drop_last()).insert(s.last().0, s.last().1).remove(
            s[i].0,
        ));
    } else {
        assert(keys_distinct(s.drop_last())) by {
            assert forall|p: int, q: int|
                0 <= p < q < s.drop_last().len() implies s.drop_last()[p].0
                != s.drop_last()[q].0 by {
                assert(s[p].0 != s[q].0);
            }
        }
        lemma_map_of_remove_at(s.drop_last(), i);
        assert(s.remove(i).drop_last() =~= s.drop_last().remove(i));
        assert(s.remove(i).last() == s.last());
        assert(s.drop_last()[i] == s[i]);
        assert(s[i].0 != s.last().0);
        assert(map_of(s.remove(i)) == map_of(s.drop_last().remove(i)).insert(
            s.last().0,
            s.last().1,
        ));
        assert(map_of(s.drop_last()).remove(s[i].0).insert(s.last().0, s.last().1) =~= map_of(
            s.drop_last(),
        ).insert(s.last().0, s.last().1).remove(s[i].0));
    }
}

} // verus!
