//! The lifecycle laws of a registry.
//!
//! A registry evolves by two transitions: a registration appends an entry
//! carrying the counter value and advances the counter ([`step`] mirrors the
//! `ensures` of `Registry::register`), and a deregistration removes the entry
//! carrying one identity (mirroring `Registry::unregister`).  The proof
//! functions here state what holds of every sequence of such transitions:
//! counts add up, identities are never reused, a removed identity is
//! permanently absent, and one iteration pass visits every live controller
//! exactly once.

use vstd::prelude::*;

use crate::registry::contains_id;
use crate::registry::controllers_of;
use crate::registry::distinct_ids;
use crate::registry::ids_below;
use crate::registry::lemma_remove_keeps_wf;
use crate::registry::lemma_without_id_cases;
use crate::registry::without_id;
use crate::registry::Id;
use crate::tracker::Tracker;

verus! {

/// One lifecycle transition of a registry.
pub enum Op<C> {
    /// `track` stores this controller under a fresh identity.
    Register(C),
    /// Dropping a handle removes the entry carrying this identity.
    Unregister(Id),
}

/// The state after one transition: registering appends an entry carrying the
/// counter value and advances the counter; deregistering removes the entry
/// carrying the identity and leaves the counter alone.
pub open spec fn step<C>(entries: Seq<(Id, C)>, counter: Id, op: Op<C>) -> (Seq<(Id, C)>, Id) {
    match op {
        Op::Register(c) => (entries.push((counter, c)), ((counter + 1) as Id)),
        Op::Unregister(id) => (without_id(entries, id), counter),
    }
}

/// The state after a sequence of transitions, applied in order.
pub open spec fn run<C>(entries: Seq<(Id, C)>, counter: Id, ops: Seq<Op<C>>) -> (Seq<(Id, C)>, Id)
    decreases ops.len(),
{
    if ops.len() == 0 {
        (entries, counter)
    } else {
        let prev = run(entries, counter, ops.drop_last());
        step(prev.0, prev.1, ops.last())
    }
}

/// How many of the transitions are registrations.
pub open spec fn register_count<C>(ops: Seq<Op<C>>) -> int
    decreases ops.len(),
{
    if ops.len() == 0 {
        0
    } else {
        register_count(ops.drop_last()) + if ops.last() is Register {
            1int
        } else {
            0int
        }
    }
}

/// The counter value after the first `k` transitions: the identity a
/// registration at position `k` would be issued.
pub open spec fn counter_after<C>(
    entries: Seq<(Id, C)>,
    counter: Id,
    ops: Seq<Op<C>>,
    k: int,
) -> Id {
    run(entries, counter, ops.take(k)).1
}

/// There are never fewer than zero registrations.
pub proof fn lemma_register_count_nonneg<C>(ops: Seq<Op<C>>)
    ensures
        0 <= register_count(ops),
    decreases ops.len(),
{
    if ops.len() > 0 {
        lemma_register_count_nonneg(ops.drop_last());
    }
}

/// Counting registrations distributes over taking one more transition.
pub proof fn lemma_register_count_take_succ<C>(ops: Seq<Op<C>>, k: int)
    requires
        0 <= k < ops.len(),
    ensures
        register_count(ops.take(k + 1)) == register_count(ops.take(k)) + if ops[k] is Register {
            1int
        } else {
            0int
        },
{
    assert(ops.take(k + 1).drop_last() =~= ops.take(k));
    assert(ops.take(k + 1).last() == ops[k]);
}

/// Taking more transitions never lowers the registration count.
pub proof fn lemma_register_count_take_monotone<C>(ops: Seq<Op<C>>, k: int, l: int)
    requires
        0 <= k <= l <= ops.len(),
    ensures
        register_count(ops.take(k)) <= register_count(ops.take(l)),
    decreases l - k,
{
    if k < l {
        lemma_register_count_take_succ(ops, l - 1);
        lemma_register_count_take_monotone(ops, k, l - 1);
    }
}

/// The counter advances by exactly the number of registrations, whatever the
/// entries hold (stated below the point where the identity space would be
/// exhausted).
pub proof fn lemma_run_counter<C>(entries: Seq<(Id, C)>, counter: Id, ops: Seq<Op<C>>)
    requires
        counter + register_count(ops) <= Id::MAX,
    ensures
        run(entries, counter, ops).1 == counter + register_count(ops),
    decreases ops.len(),
{
    lemma_register_count_nonneg(ops);
    if ops.len() > 0 {
        lemma_register_count_nonneg(ops.drop_last());
        lemma_run_counter(entries, counter, ops.drop_last());
    }
}

/// Well-formedness is preserved by every sequence of transitions: identities
/// stay pairwise distinct and strictly below the counter.
pub proof fn lemma_run_wf<C>(entries: Seq<(Id, C)>, counter: Id, ops: Seq<Op<C>>)
    requires
        distinct_ids(entries),
        ids_below(entries, counter),
        counter + register_count(ops) <= Id::MAX,
    ensures
        distinct_ids(run(entries, counter, ops).0),
        ids_below(run(entries, counter, ops).0, run(entries, counter, ops).1),
    decreases ops.len(),
{
    lemma_register_count_nonneg(ops);
    if ops.len() > 0 {
        let prefix = ops.drop_last();
        lemma_register_count_nonneg(prefix);
        lemma_run_wf(entries, counter, prefix);
        lemma_run_counter(entries, counter, prefix);
        let prev = run(entries, counter, prefix);
        match ops.last() {
            Op::Register(c) => {
                let pushed = prev.0.push((prev.1, c));
                assert forall|i: int, j: int| 0 <= i < j < pushed.len() implies pushed[i].0
                    != pushed[j].0 by {
                    if j < pushed.len() - 1 {
                        assert(pushed[i] == prev.0[i]);
                        assert(pushed[j] == prev.0[j]);
                    } else {
                        assert(pushed[i] == prev.0[i]);
                        assert(prev.0[i].0 < prev.1);
                    }
                }
                assert(ids_below(pushed, ((prev.1 + 1) as Id)));
            },
            Op::Unregister(id) => {
                lemma_without_id_cases(prev.0, id);
                if contains_id(prev.0, id) {
                    let k = choose|k: int|
                        0 <= k < prev.0.len() && prev.0[k].0 == id && without_id(prev.0, id)
                            == prev.0.remove(k);
                    lemma_remove_keeps_wf(prev.0, k, prev.1);
                }
            },
        }
    }
}

/// Law: without deregistrations, the live-entry count equals the number of
/// registrations made — one `track` call, one live entry (stated below the
/// point where the identity space would be exhausted, where every `track`
/// call registers).
pub proof fn lemma_registrations_add_up<C>(entries: Seq<(Id, C)>, counter: Id, ops: Seq<Op<C>>)
    requires
        forall|k: int| 0 <= k < ops.len() ==> ops[k] is Register,
        counter + ops.len() <= Id::MAX,
    ensures
        run(entries, counter, ops).0.len() == entries.len() + ops.len(),
    decreases ops.len(),
{
    if ops.len() > 0 {
        let prefix = ops.drop_last();
        assert(forall|k: int| 0 <= k < prefix.len() ==> prefix[k] == ops[k]);
        lemma_registrations_add_up(entries, counter, prefix);
        assert(ops.last() == ops[ops.len() - 1]);
    }
}

/// Law: deregistering a live identity removes exactly one entry, leaves the
/// counter alone, and the identity is absent afterwards.
pub proof fn lemma_unregister_removes_exactly_one<C>(entries: Seq<(Id, C)>, counter: Id, id: Id)
    requires
        distinct_ids(entries),
        contains_id(entries, id),
    ensures
        step(entries, counter, Op::Unregister(id)).0.len() == entries.len() - 1,
        !contains_id(step(entries, counter, Op::Unregister(id)).0, id),
        step(entries, counter, Op::Unregister(id)).1 == counter,
{
    lemma_without_id_cases(entries, id);
    let k = choose|k: int|
        0 <= k < entries.len() && entries[k].0 == id && without_id(entries, id) == entries.remove(
            k,
        );
    assert(without_id(entries, id).len() == entries.len() - 1);
}

/// Law: an identity that has been retired — issued once and no longer live —
/// stays absent through every further registration and deregistration, so it
/// can never reappear in an iteration.
pub proof fn lemma_retired_id_stays_absent<C>(
    entries: Seq<(Id, C)>,
    counter: Id,
    ops: Seq<Op<C>>,
    id: Id,
)
    requires
        distinct_ids(entries),
        ids_below(entries, counter),
        !contains_id(entries, id),
        id < counter,
        counter + register_count(ops) <= Id::MAX,
    ensures
        !contains_id(run(entries, counter, ops).0, id),
    decreases ops.len(),
{
    lemma_register_count_nonneg(ops);
    if ops.len() > 0 {
        let prefix = ops.drop_last();
        lemma_register_count_nonneg(prefix);
        lemma_retired_id_stays_absent(entries, counter, prefix, id);
        lemma_run_wf(entries, counter, prefix);
        lemma_run_counter(entries, counter, prefix);
        let prev = run(entries, counter, prefix);
        match ops.last() {
            Op::Register(c) => {
                let pushed = prev.0.push((prev.1, c));
                assert forall|i: int| 0 <= i < pushed.len() implies pushed[i].0 != id by {
                    if i < pushed.len() - 1 {
                        assert(pushed[i] == prev.0[i]);
                    }
                }
            },
            Op::Unregister(other) => {
                lemma_without_id_cases(prev.0, other);
                if contains_id(prev.0, other) {
                    let k = choose|k: int|
                        0 <= k < prev.0.len() && prev.0[k].0 == other && without_id(prev.0, other)
                            == prev.0.remove(k);
                    assert forall|i: int|
                        0 <= i < without_id(prev.0, other).len() implies without_id(prev.0, other)[i].0
                        != id by {
                        let si: int = if i < k {
                            i
                        } else {
                            i + 1
                        };
                        assert(without_id(prev.0, other)[i] == prev.0[si]);
                    }
                }
            },
        }
    }
}

/// Law: identities issued by one registry are pairwise distinct for its
/// lifetime — two registrations at different positions of the same run are
/// issued different identities (stated below the point where the identity
/// space would be exhausted).
pub proof fn lemma_issued_ids_distinct<C>(
    entries: Seq<(Id, C)>,
    counter: Id,
    ops: Seq<Op<C>>,
    i: int,
    j: int,
)
    requires
        0 <= i < j < ops.len(),
        ops[i] is Register,
        ops[j] is Register,
        counter + register_count(ops) <= Id::MAX,
    ensures
        counter_after(entries, counter, ops, i) != counter_after(entries, counter, ops, j),
{
    lemma_register_count_nonneg(ops);
    lemma_register_count_take_succ(ops, i);
    lemma_register_count_take_monotone(ops, i + 1, j);
    lemma_register_count_take_monotone(ops, j, ops.len() as int);
    assert(ops.take(ops.len() as int) =~= ops);
    lemma_register_count_nonneg(ops.take(i));
    lemma_run_counter(entries, counter, ops.take(i));
    lemma_run_counter(entries, counter, ops.take(j));
}

/// Law: one iteration pass over a well-formed registry visits every live
/// controller exactly once — position `k` yields the controller of entry `k`,
/// there are no other positions, and no identity appears at two positions.
pub proof fn lemma_iteration_exact<C>(entries: Seq<(Id, C)>)
    requires
        distinct_ids(entries),
    ensures
        controllers_of(entries).len() == entries.len(),
        forall|k: int| 0 <= k < entries.len() ==> controllers_of(entries)[k] == entries[k].1,
        forall|k: int, l: int|
            0 <= k < entries.len() && 0 <= l < entries.len() && entries[k].0 == entries[l].0 ==> k
                == l,
{
    assert forall|k: int, l: int|
        0 <= k < entries.len() && 0 <= l < entries.len() && entries[k].0
            == entries[l].0 implies k == l by {
        if k < l {
            assert(entries[k].0 != entries[l].0);
        } else if l < k {
            assert(entries[l].0 != entries[k].0);
        }
    }
}

/// Law: sharing a registry is an equivalence between trackers, so a
/// registration through any clone is observable through any other — in
/// particular through the tracker it was cloned from.
pub proof fn lemma_shares_equivalence<C>(a: Tracker<C>, b: Tracker<C>, c: Tracker<C>)
    ensures
        a.shares(a),
        a.shares(b) ==> b.shares(a),
        a.shares(b) && b.shares(c) ==> a.shares(c),
{
}

} // verus!
