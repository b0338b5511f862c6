//! Registry of owned callback entries addressed by stable numeric handles.
//!
//! The manager keeps a table of entries keyed by `CallbackId` together with a
//! counter for the next handle to hand out. Handles grow strictly and are
//! never reused, even across removals and clears. The abstract model of a
//! manager is the map from live handles to their entries (`self@`) plus the
//! counter (`self.counter()`).

use vstd::prelude::*;

verus! {

/// Handle identifying one registered callback entry.
pub type CallbackId = u64;

/// Table of callback entries keyed by id, plus the next id to assign.
///
/// The entry type `C` is arbitrary: callers store their own owned callable
/// values (for instance boxed asynchronous functions) and retrieve them for
/// dispatch through `get_callback` or `callbacks`.
pub struct AsyncCallbackManager<C> {
    /// Entries ordered by strictly increasing id.
    entries: Vec<(CallbackId, C)>,
    /// Next callback id to assign.
    next_id: CallbackId,
}

/// The map described by a sequence of key/value pairs.
spec fn entries_map<C>(s: Seq<(CallbackId, C)>) -> Map<CallbackId, C>
    decreases s.len(),
{
    if s.len() == 0 {
        Map::empty()
    } else {
        entries_map(s.drop_last()).insert(s.last().0, s.last().1)
    }
}

/// No two pairs of the sequence share a key.
spec fn distinct_ids<C>(s: Seq<(CallbackId, C)>) -> bool {
    forall|i: int, j: int| 0 <= i < j < s.len() ==> s[i].0 != s[j].0
}

impl<C> View for AsyncCallbackManager<C> {
    type V = Map<CallbackId, C>;

    closed spec fn view(&self) -> Map<CallbackId, C> {
        entries_map(self.entries@)
    }
}

impl<C> AsyncCallbackManager<C> {
    /// The next id the manager will assign.
    pub closed spec fn counter(&self) -> CallbackId {
        self.next_id
    }

    /// Well-formedness: ids strictly increase along the table and every live
    /// id is below the counter, so a fresh id can never collide.
    pub closed spec fn wf(&self) -> bool {
        &&& forall|i: int, j: int|
            0 <= i < j < self.entries@.len() ==> self.entries@[i].0 < self.entries@[j].0
        &&& forall|i: int| 0 <= i < self.entries@.len() ==> self.entries@[i].0 < self.next_id
    }

    /// Create a new callback manager: empty, with the counter at zero.
    pub fn new() -> (r: Self)
        ensures
            r.wf(),
            r@ =~= Map::<CallbackId, C>::empty(),
            r.counter() == 0,
    {
        AsyncCallbackManager { entries: Vec::new(), next_id: 0 }
    }

    /// Generate a new unique callback id.
    fn next_id(&mut self) -> (id: CallbackId)
        requires
            old(self).counter() < CallbackId::MAX,
        ensures
            id == old(self).counter(),
            final(self).counter() == id + 1,
            final(self).entries@ == old(self).entries@,
            final(self)@ == old(self)@,
    {
        let id = self.next_id;
        self.next_id = self.next_id + 1;
        id
    }

    /// Add a callback entry and return its id.
    ///
    /// The returned id is the current counter value, fresh by construction,
    /// and the counter moves strictly past it, so later `add` calls return
    /// strictly larger ids.
    pub fn add(&mut self, callback: C) -> (id: CallbackId)
        requires
            old(self).wf(),
            old(self).counter() < CallbackId::MAX,
        ensures
            final(self).wf(),
            id == old(self).counter(),
            !old(self)@.contains_key(id),
            final(self)@ =~= old(self)@.insert(id, callback),
            final(self).counter() == id + 1,
    {
        let id = self.next_id();
        proof {
            lemma_entries_map_dom(self.entries@);
        }
        self.entries.push((id, callback));
        proof {
            assert(self.entries@.drop_last() =~= old(self).entries@);
        }
        id
    }
}

impl<C> AsyncCallbackManager<C> {
    /// Strictly increasing ids are in particular pairwise distinct.
    proof fn lemma_wf_distinct(&self)
        requires
            self.wf(),
        ensures
            distinct_ids(self.entries@),
    {
        assert forall|i: int, j: int|
            0 <= i < j < self.entries@.len() implies self.entries@[i].0 != self.entries@[j].0 by {
            assert(self.entries@[i].0 < self.entries@[j].0);
        }
    }

    /// Remove the callback entry for `id` if present.
    ///
    /// Returns true exactly when an entry was found and removed; a second
    /// call with the same id therefore returns false. The counter is left
    /// alone, so the id is never assigned again.
    #[verifier::loop_isolation(false)]
    pub fn remove(&mut self, id: CallbackId) -> (found: bool)
        requires
            old(self).wf(),
        ensures
            final(self).wf(),
            found == old(self)@.contains_key(id),
            final(self)@ =~= old(self)@.remove(id),
            final(self).counter() == old(self).counter(),
    {
        proof {
            lemma_entries_map_dom(self.entries@);
            self.lemma_wf_distinct();
        }
        let ghost s = self.entries@;
        let mut i: usize = 0;
        while i < self.entries.len()
            invariant
                *self == *old(self),
                0 <= i <= s.len(),
                forall|j: int| 0 <= j < i ==> s[j].0 != id,
            decreases s.len() - i,
        {
            if self.entries[i].0 == id {
                proof {
                    assert((i as int) < s.len() && s[i as int].0 == id);
                    lemma_entries_map_remove(s, i as int);
                    s.remove_ensures(i as int);
                }
                self.entries.remove(i);
                proof {
                    assert forall|p: int, q: int|
                        0 <= p < q < self.entries@.len() implies self.entries@[p].0
                        < self.entries@[q].0 by {
                        assert(self.entries@[p] == (if p < i as int { s[p] } else { s[p + 1] }));
                        assert(self.entries@[q] == (if q < i as int { s[q] } else { s[q + 1] }));
                    }
                    assert forall|p: int| 0 <= p < self.entries@.len() implies self.entries@[p].0
                        < self.next_id by {
                        assert(self.entries@[p] == (if p < i as int { s[p] } else { s[p + 1] }));
                    }
                }
                return true;
            }
            i = i + 1;
        }
        proof {
            assert(!old(self)@.contains_key(id));
            assert(self@ =~= old(self)@.remove(id));
        }
        false
    }

    /// Remove every callback entry, leaving the id counter untouched.
    ///
    /// Later `add` calls continue from the current counter value, so ids
    /// issued before the clear are never issued again.
    pub fn clear(&mut self)
        ensures
            final(self).wf(),
            final(self)@ =~= Map::<CallbackId, C>::empty(),
            final(self).counter() == old(self).counter(),
    {
        self.entries.clear();
    }

    /// The number of currently registered callback entries.
    pub fn count(&self) -> (n: usize)
        requires
            self.wf(),
        ensures
            n == self@.len(),
    {
        proof {
            self.lemma_wf_distinct();
            lemma_entries_map_len(self.entries@);
        }
        self.entries.len()
    }

    /// Whether a callback entry with the given id is registered.
    #[verifier::loop_isolation(false)]
    pub fn has_callback(&self, id: CallbackId) -> (r: bool)
        requires
            self.wf(),
        ensures
            r == self@.contains_key(id),
    {
        proof {
            lemma_entries_map_dom(self.entries@);
        }
        let ghost s = self.entries@;
        let mut i: usize = 0;
        while i < self.entries.len()
            invariant
                self.entries@ == s,
                0 <= i <= s.len(),
                forall|j: int| 0 <= j < i ==> s[j].0 != id,
            decreases s.len() - i,
        {
            if self.entries[i].0 == id {
                proof {
                    assert((i as int) < s.len() && s[i as int].0 == id);
                }
                return true;
            }
            i = i + 1;
        }
        false
    }

    /// The ids of all currently registered entries, in increasing order.
    ///
    /// The result is a snapshot: it lists exactly the keys of `self@`, each
    /// once, and later mutation of the manager does not change it.
    #[verifier::loop_isolation(false)]
    pub fn callback_ids(&self) -> (ids: Vec<CallbackId>)
        requires
            self.wf(),
        ensures
            ids@.len() == self@.len(),
            forall|k: CallbackId| #[trigger] ids@.contains(k) <==> self@.contains_key(k),
            forall|i: int, j: int| 0 <= i < j < ids@.len() ==> ids@[i] < ids@[j],
    {
        proof {
            lemma_entries_map_dom(self.entries@);
            self.lemma_wf_distinct();
            lemma_entries_map_len(self.entries@);
        }
        let ghost s = self.entries@;
        let mut ids: Vec<CallbackId> = Vec::new();
        let mut i: usize = 0;
        while i < self.entries.len()
            invariant
                self.entries@ == s,
                0 <= i <= s.len(),
                ids@.len() == i,
                forall|j: int| 0 <= j < i ==> ids@[j] == s[j].0,
            decreases s.len() - i,
        {
            ids.push(self.entries[i].0);
            i = i + 1;
        }
        proof {
            assert forall|k: CallbackId| #[trigger] ids@.contains(k) implies self@.contains_key(
                k,
            ) by {
                let j = choose|j: int| 0 <= j < ids@.len() && ids@[j] == k;
                assert(s[j].0 == k);
            }
            assert forall|k: CallbackId| self@.contains_key(k) implies ids@.contains(k) by {
                let j = choose|j: int| 0 <= j < s.len() && s[j].0 == k;
                assert(ids@[j] == k);
            }
        }
        ids
    }

    /// Look up the callback entry registered under `id`, if any.
    #[verifier::loop_isolation(false)]
    pub fn get_callback(&self, id: CallbackId) -> (r: Option<&C>)
        requires
            self.wf(),
        ensures
            match r {
                Some(c) => self@.contains_key(id) && *c == self@[id],
                None => !self@.contains_key(id),
            },
    {
        proof {
            lemma_entries_map_dom(self.entries@);
        }
        let ghost s = self.entries@;
        let mut i: usize = 0;
        while i < self.entries.len()
            invariant
                self.entries@ == s,
                0 <= i <= s.len(),
                forall|j: int| 0 <= j < i ==> s[j].0 != id,
            decreases s.len() - i,
        {
            if self.entries[i].0 == id {
                proof {
                    self.lemma_wf_distinct();
                    lemma_entries_map_index(s, i as int);
                }
                return Some(&self.entries[i].1);
            }
            i = i + 1;
        }
        None
    }

    /// Read-only access to the table of entries, a snapshot for dispatch.
    ///
    /// The pairs carry exactly the keys of `self@`, each once and in
    /// increasing id order, with the entry registered under that key.
    pub fn callbacks(&self) -> (r: &Vec<(CallbackId, C)>)
        requires
            self.wf(),
        ensures
            r@.len() == self@.len(),
            forall|i: int|
                0 <= i < r@.len() ==> self@.contains_key(#[trigger] r@[i].0) && r@[i].1
                    == self@[r@[i].0],
            forall|k: CallbackId|
                self@.contains_key(k) ==> exists|i: int| 0 <= i < r@.len() && #[trigger] r@[i].0
                    == k,
            forall|i: int, j: int| 0 <= i < j < r@.len() ==> r@[i].0 < r@[j].0,
    {
        proof {
            lemma_entries_map_dom(self.entries@);
            self.lemma_wf_distinct();
            lemma_entries_map_len(self.entries@);
            assert forall|i: int|
                0 <= i < self.entries@.len() implies self@.contains_key(
                #[trigger] self.entries@[i].0,
            ) && self.entries@[i].1 == self@[self.entries@[i].0] by {
                lemma_entries_map_index(self.entries@, i);
            }
        }
        &self.entries
    }
}

impl<C> Default for AsyncCallbackManager<C> {
    /// An empty manager with the counter at zero, as `new` builds it.
    fn default() -> (r: Self)
        ensures
            r.wf(),
            r@ =~= Map::<CallbackId, C>::empty(),
            r.counter() == 0,
    {
        Self::new()
    }
}

/// Monotonic unique ids: `add` returns the counter at the time of the call
/// and leaves the counter strictly past it, and no operation ever lowers the
/// counter (`remove` and `clear` keep it, `add` raises it). So across any
/// sequence of operations, the id of an earlier `add` is strictly below the
/// id of a later one: ids strictly increase and never repeat.
pub proof fn lemma_monotonic_unique_ids<C>(
    pre1: AsyncCallbackManager<C>,
    post1: AsyncCallbackManager<C>,
    id1: CallbackId,
    pre2: AsyncCallbackManager<C>,
    post2: AsyncCallbackManager<C>,
    id2: CallbackId,
)
    requires
        id1 == pre1.counter(),
        post1.counter() == id1 + 1,
        post1.counter() <= pre2.counter(),
        id2 == pre2.counter(),
        post2.counter() == id2 + 1,
    ensures
        id1 < id2,
{
}

/// Add/remove round trip: after `add` returns a fresh id, that id is
/// registered and the count grew by one; removing it succeeds (the id is a
/// key, so `remove` reports true), leaves the registry exactly as before the
/// `add`, and brings the count back down; a second `remove` of the same id
/// reports false, since the id is no longer a key.
pub proof fn lemma_add_remove_round_trip<C>(
    m0: AsyncCallbackManager<C>,
    m1: AsyncCallbackManager<C>,
    m2: AsyncCallbackManager<C>,
    id: CallbackId,
    callback: C,
)
    requires
        m0.wf(),
        !m0@.contains_key(id),
        m1@ == m0@.insert(id, callback),
        m2@ == m1@.remove(id),
    ensures
        m1@.contains_key(id),
        m1@.len() == m0@.len() + 1,
        !m2@.contains_key(id),
        m2@ =~= m0@,
        m2@.len() == m0@.len(),
{
    broadcast use vstd::set::axiom_set_insert_len;
    broadcast use vstd::set::axiom_set_remove_len;

    m0.lemma_wf_distinct();
    lemma_entries_map_len(m0.entries@);
    assert(m1@.dom() =~= m0@.dom().insert(id));
    assert(m2@ =~= m0@);
}

/// Clearing empties the registry without resetting the id counter: after
/// `clear` the registry holds nothing, and the next `add` still returns an id
/// strictly larger than every id issued before the clear.
pub proof fn lemma_clear_keeps_ids_fresh<C>(
    m0: AsyncCallbackManager<C>,
    m1: AsyncCallbackManager<C>,
    issued: CallbackId,
    next: CallbackId,
)
    requires
        issued < m0.counter(),
        m1@ == Map::<CallbackId, C>::empty(),
        m1.counter() == m0.counter(),
        next == m1.counter(),
    ensures
        m1@.len() == 0,
        next > issued,
{
    assert(m1@.dom() =~= Set::<CallbackId>::empty());
}

/// Idempotent clear: `clear` on an already-empty registry is a no-op — the
/// registry stays empty and the counter stays where it was.
pub proof fn lemma_clear_idempotent<C>(m0: AsyncCallbackManager<C>, m1: AsyncCallbackManager<C>)
    requires
        m0@ == Map::<CallbackId, C>::empty(),
        m1@ == Map::<CallbackId, C>::empty(),
        m1.counter() == m0.counter(),
    ensures
        m1@ =~= m0@,
        m1@.len() == 0,
        m1.counter() == m0.counter(),
{
    assert(m1@.dom() =~= Set::<CallbackId>::empty());
}

/// A key is in the map of a pair sequence exactly when some pair carries it.
proof fn lemma_entries_map_dom<C>(s: Seq<(CallbackId, C)>)
    ensures
        forall|k: CallbackId|
            entries_map(s).contains_key(k) <==> exists|i: int| 0 <= i < s.len() && s[i].0 == k,
    decreases s.len(),
{
    if s.len() > 0 {
        lemma_entries_map_dom(s.drop_last());
        assert(entries_map(s) == entries_map(s.drop_last()).insert(s.last().0, s.last().1));
        assert forall|k: CallbackId| entries_map(s).contains_key(k) implies exists|i: int|
            0 <= i < s.len() && s[i].0 == k by {
            if k == s.last().0 {
                assert(s[s.len() - 1].0 == k);
            } else {
                assert(entries_map(s.drop_last()).contains_key(k));
                let i = choose|i: int| 0 <= i < s.drop_last().len() && s.drop_last()[i].0 == k;
                assert(s[i].0 == k);
            }
        }
        assert forall|k: CallbackId|
            (exists|i: int| 0 <= i < s.len() && s[i].0 == k) implies entries_map(
            s,
        ).contains_key(k) by {
            let i = choose|i: int| 0 <= i < s.len() && s[i].0 == k;
            if i < s.len() - 1 {
                assert(s.drop_last()[i].0 == k);
            }
        }
    }
}

/// With distinct keys, the map sends each pair's key to that pair's value.
proof fn lemma_entries_map_index<C>(s: Seq<(CallbackId, C)>, i: int)
    requires
        distinct_ids(s),
        0 <= i < s.len(),
    ensures
        entries_map(s).contains_key(s[i].0),
        entries_map(s)[s[i].0] == s[i].1,
    decreases s.len(),
{
    if i == s.len() - 1 {
        assert(entries_map(s) == entries_map(s.drop_last()).insert(s.last().0, s.last().1));
    } else {
        assert(s.drop_last()[i] == s[i]);
        lemma_entries_map_index(s.drop_last(), i);
        assert(s[i].0 != s.last().0);
    }
}

/// With distinct keys, the map has exactly one entry per pair.
proof fn lemma_entries_map_len<C>(s: Seq<(CallbackId, C)>)
    requires
        distinct_ids(s),
    ensures
        entries_map(s).dom().finite(),
        entries_map(s).len() == s.len(),
    decreases s.len(),
{
    broadcast use vstd::set::axiom_set_insert_len;

    if s.len() > 0 {
        lemma_entries_map_len(s.drop_last());
        lemma_entries_map_dom(s.drop_last());
        assert(!entries_map(s.drop_last()).contains_key(s.last().0)) by {
            if entries_map(s.drop_last()).contains_key(s.last().0) {
                let i = choose|i: int|
                    0 <= i < s.drop_last().len() && s.drop_last()[i].0 == s.last().0;
                assert(s[i].0 == s[s.len() - 1].0);
            }
        }
        assert(entries_map(s).dom() =~= entries_map(s.drop_last()).dom().insert(s.last().0));
    }
}

/// With distinct keys, removing a pair from the sequence removes exactly its
/// key from the map.
proof fn lemma_entries_map_remove<C>(s: Seq<(CallbackId, C)>, i: int)
    requires
        distinct_ids(s),
        0 <= i < s.len(),
    ensures
        entries_map(s.remove(i)) =~= entries_map(s).remove(s[i].0),
    decreases s.len(),
{
    s.remove_ensures(i);
    lemma_entries_map_dom(s.drop_last());
    if i == s.len() - 1 {
        assert(s.remove(i) =~= s.drop_last());
        assert(!entries_map(s.drop_last()).contains_key(s.last().0)) by {
            if entries_map(s.drop_last()).contains_key(s.last().0) {
                let j = choose|j: int|
                    0 <= j < s.drop_last().len() && s.drop_last()[j].0 == s.last().0;
                assert(s[j].0 == s[s.len() - 1].0);
            }
        }
        assert(entries_map(s.remove(i)) =~= entries_map(s).remove(s[i].0));
    } else {
        let t = s.remove(i);
        assert(t.drop_last() =~= s.drop_last().remove(i));
        assert(t.last() == s.last());
        lemma_entries_map_remove(s.drop_last(), i);
        assert(s.drop_last()[i] == s[i]);
        assert(entries_map(t) == entries_map(s.drop_last().remove(i)).insert(
            s.last().0,
            s.last().1,
        ));
        assert(s[i].0 != s.last().0);
        assert(entries_map(s.drop_last().remove(i)).insert(s.last().0, s.last().1) =~= entries_map(
            s.drop_last(),
        ).remove(s[i].0).insert(s.last().0, s.last().1));
        assert(entries_map(s.drop_last()).remove(s[i].0).insert(s.last().0, s.last().1)
            =~= entries_map(s.drop_last()).insert(s.last().0, s.last().1).remove(s[i].0));
    }
}

} // verus!
