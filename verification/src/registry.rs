//! The registry proper: an identity-to-controller table together with the
//! counter that issues identities.
//!
//! The table is kept as a vector of `(identity, controller)` pairs whose
//! identities are pairwise distinct and strictly below the counter, so an
//! identity is issued at most once for the lifetime of a registry and is never
//! reused after its entry is removed.

use vstd::prelude::*;

verus! {

/// The identity assigned to one registered controller: unique per registry,
/// issued monotonically from zero and never reused.
pub type Id = u64;

/// The controllers of a sequence of entries, in order.
pub open spec fn controllers_of<C>(s: Seq<(Id, C)>) -> Seq<C> {
    s.map_values(|p: (Id, C)| p.1)
}

/// No two entries carry the same identity.
pub open spec fn distinct_ids<C>(s: Seq<(Id, C)>) -> bool {
    forall|i: int, j: int| 0 <= i < j < s.len() ==> s[i].0 != s[j].0
}

/// Every identity in the sequence is below `bound`.
pub open spec fn ids_below<C>(s: Seq<(Id, C)>, bound: Id) -> bool {
    forall|i: int| 0 <= i < s.len() ==> s[i].0 < bound
}

/// Some entry carries the identity `id`.
pub open spec fn contains_id<C>(s: Seq<(Id, C)>, id: Id) -> bool {
    exists|i: int| 0 <= i < s.len() && s[i].0 == id
}

/// The sequence with the entry for `id` removed (and unchanged when no entry
/// carries `id`).
pub open spec fn without_id<C>(s: Seq<(Id, C)>, id: Id) -> Seq<(Id, C)> {
    s.filter(|p: (Id, C)| p.0 != id)
}

/// The identity-to-controller table and its issuing counter.  All access goes
/// through the lock owned by the `Tracker`s sharing it.
pub struct Registry<C> {
    pub(crate) entries: Vec<(Id, C)>,
    pub(crate) next_id: Id,
}

impl<C> View for Registry<C> {
    type V = Seq<(Id, C)>;

    /// A registry is abstractly its sequence of live entries, in iteration
    /// order.
    closed spec fn view(&self) -> Seq<(Id, C)> {
        self.entries@
    }
}

impl<C> Registry<C> {
    /// The value the issuing counter stands at: the identity the next
    /// registration will receive.
    pub closed spec fn counter(self) -> Id {
        self.next_id
    }

    /// Well-formedness: identities are pairwise distinct and strictly below
    /// the counter, so the counter value itself is always fresh.
    pub open spec fn wf(self) -> bool {
        distinct_ids(self@) && ids_below(self@, self.counter())
    }

    /// A fresh registry: no entries, counter at zero.
    pub(crate) fn empty() -> (r: Registry<C>)
        ensures
            r.wf(),
            r@ == Seq::<(Id, C)>::empty(),
            r.counter() == 0,
    {
        Registry { entries: Vec::new(), next_id: 0 }
    }

    /// Assigns the next identity, stores the controller under it, and
    /// advances the counter.
    pub(crate) fn register(&mut self, controller: C) -> (id: Id)
        requires
            old(self).wf(),
            old(self).counter() < Id::MAX,
        ensures
            final(self).wf(),
            id == old(self).counter(),
            final(self).counter() == id + 1,
            final(self)@ == old(self)@.push((id, controller)),
    {
        let id = self.next_id;
        self.next_id = self.next_id + 1;
        self.entries.push((id, controller));
        id
    }

    /// The counter's current value.
    pub(crate) fn counter_value(&self) -> (v: Id)
        ensures
            v == self.counter(),
    {
        self.next_id
    }

    /// The number of live entries.
    pub(crate) fn entry_count(&self) -> (n: usize)
        ensures
            n == self@.len(),
    {
        self.entries.len()
    }

    /// The controller stored at position `i`.
    pub(crate) fn controller_at(&self, i: usize) -> (c: &C)
        requires
            i < self@.len(),
        ensures
            *c == self@[i as int].1,
    {
        &self.entries[i].1
    }

    /// The entries, for borrowing traversal.
    pub(crate) fn entries_ref(&self) -> (v: &Vec<(Id, C)>)
        ensures
            v@ == self@,
    {
        &self.entries
    }

    /// Removes the entry carrying `id`; removing an absent identity is a
    /// silent no-op.
    pub(crate) fn unregister(&mut self, id: Id)
        requires
            old(self).wf(),
        ensures
            final(self).wf(),
            final(self).counter() == old(self).counter(),
            final(self)@ == without_id(old(self)@, id),
            !contains_id(final(self)@, id),
            contains_id(old(self)@, id) ==> final(self)@.len() == old(self)@.len() - 1,
            !contains_id(old(self)@, id) ==> final(self)@ == old(self)@,
    {
        let n = self.entries.len();
        let mut i: usize = 0;
        while i < n
            invariant
                old(self).wf(),
                n == self.entries.len(),
                *self == *old(self),
                0 <= i <= n,
                forall|j: int| 0 <= j < i ==> self.entries@[j].0 != id,
            decreases n - i,
        {
            if self.entries[i].0 == id {
                proof {
                    let s = old(self).entries@;
                    let k: int = i as int;
                    assert forall|j: int| 0 <= j < s.len() && j != k implies s[j].0 != id by {
                        if j < k {
                            assert(s[j].0 != s[k].0);
                        } else {
                            assert(s[k].0 != s[j].0);
                        }
                    }
                    lemma_remove_is_without_id(s, id, k);
                    lemma_remove_keeps_wf(s, k, old(self).next_id);
                    lemma_without_id_cases(s, id);
                    assert(contains_id(s, id));
                }
                self.entries.remove(i);
                return ;
            }
            i += 1;
        }
        proof {
            lemma_without_id_absent(self.entries@, id);
        }
    }
}

/// Removing the entries for `id` from a sequence that holds none of them
/// changes nothing.
pub proof fn lemma_without_id_absent<C>(s: Seq<(Id, C)>, id: Id)
    requires
        forall|j: int| 0 <= j < s.len() ==> s[j].0 != id,
    ensures
        without_id(s, id) == s,
    decreases s.len(),
{
    reveal(Seq::filter);
    if s.len() == 0 {
        assert(without_id(s, id) =~= s);
    } else {
        lemma_without_id_absent(s.drop_last(), id);
        assert(without_id(s, id) =~= s.drop_last().push(s.last()));
        assert(s.drop_last().push(s.last()) =~= s);
    }
}

/// When exactly the entry at position `k` carries `id`, removing the entries
/// for `id` is removing position `k`.
pub proof fn lemma_remove_is_without_id<C>(s: Seq<(Id, C)>, id: Id, k: int)
    requires
        0 <= k < s.len(),
        s[k].0 == id,
        forall|j: int| 0 <= j < s.len() && j != k ==> s[j].0 != id,
    ensures
        without_id(s, id) == s.remove(k),
    decreases s.len(),
{
    reveal(Seq::filter);
    if k == s.len() - 1 {
        lemma_without_id_absent(s.drop_last(), id);
        assert(without_id(s, id) =~= s.drop_last());
        assert(s.remove(k) =~= s.drop_last());
    } else {
        lemma_remove_is_without_id(s.drop_last(), id, k);
        assert(without_id(s, id) =~= s.drop_last().remove(k).push(s.last()));
        assert(s.drop_last().remove(k).push(s.last()) =~= s.remove(k));
    }
}

/// Removing one position keeps distinctness and every bound on the
/// identities.
pub proof fn lemma_remove_keeps_wf<C>(s: Seq<(Id, C)>, k: int, bound: Id)
    requires
        0 <= k < s.len(),
        distinct_ids(s),
        ids_below(s, bound),
    ensures
        distinct_ids(s.remove(k)),
        ids_below(s.remove(k), bound),
{
    let r = s.remove(k);
    assert forall|i: int, j: int| 0 <= i < j < r.len() implies r[i].0 != r[j].0 by {
        let si: int = if i < k { i } else { i + 1 };
        let sj: int = if j < k { j } else { j + 1 };
        assert(r[i] == s[si]);
        assert(r[j] == s[sj]);
    }
    assert forall|i: int| 0 <= i < r.len() implies r[i].0 < bound by {
        let si: int = if i < k { i } else { i + 1 };
        assert(r[i] == s[si]);
    }
}

/// Under distinctness, removing the entries for an identity either removes
/// one position (when the identity is present) or nothing, and afterwards the
/// identity is absent.
pub proof fn lemma_without_id_cases<C>(s: Seq<(Id, C)>, id: Id)
    requires
        distinct_ids(s),
    ensures
        contains_id(s, id) ==> exists|k: int|
            0 <= k < s.len() && s[k].0 == id && without_id(s, id) == s.remove(k),
        !contains_id(s, id) ==> without_id(s, id) == s,
        !contains_id(without_id(s, id), id),
{
    if contains_id(s, id) {
        let k = choose|k: int| 0 <= k < s.len() && s[k].0 == id;
        assert forall|j: int| 0 <= j < s.len() && j != k implies s[j].0 != id by {
            if j < k {
                assert(s[j].0 != s[k].0);
            } else {
                assert(s[k].0 != s[j].0);
            }
        }
        lemma_remove_is_without_id(s, id, k);
        assert forall|i: int| 0 <= i < without_id(s, id).len() implies without_id(s, id)[i].0
            != id by {
            let si: int = if i < k { i } else { i + 1 };
            assert(without_id(s, id)[i] == s[si]);
        }
    } else {
        lemma_without_id_absent(s, id);
    }
}

} // verus!

