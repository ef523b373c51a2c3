//! The shared tracker and its handles.
//!
//! A [`Tracker`] owns a reference-counted, lock-protected [`Registry`].
//! Clones of a tracker share the registry, so a controller registered through
//! any clone is visible to iteration through every other.  [`Tracker::track`]
//! stores a controller and wraps the paired object in a [`TrackedHandle`];
//! dropping the handle removes the controller again.  [`Tracker::lock`] gives
//! a [`TrackerGuard`] for iterating over the live controllers.
//!
//! The registry sits behind a reader-writer lock whose invariant is
//! [`Registry::wf`]: every critical section in this crate is verified to
//! preserve it, so any holder of the lock may rely on it.

use std::sync::Arc;
use vstd::prelude::*;
use vstd::rwlock::RwLock;
use vstd::rwlock::RwLockPredicate;
use vstd::rwlock::WriteHandle;

use crate::registry::controllers_of;
use crate::registry::distinct_ids;
use crate::registry::ids_below;
use crate::registry::Id;
use crate::registry::Registry;

verus! {

/// The invariant of the registry lock: whatever value is stored in the lock
/// is a well-formed registry.
pub struct RegistryPred;

impl<C> RwLockPredicate<Registry<C>> for RegistryPred {
    open spec fn inv(self, v: Registry<C>) -> bool {
        v.wf()
    }
}

/// A cloneable handle sharing ownership of one lock-protected registry.
///
/// Cloning is cheap (a reference-count increment) and every clone operates on
/// the same registry.  The registry lives as long as any tracker clone or any
/// [`TrackedHandle`] still refers to it.
pub struct Tracker<C> {
    shared: Arc<RwLock<Registry<C>, RegistryPred>>,
}

/// Relies on std's `Arc::clone`: the clone is another handle to the same
/// allocation, so it carries the same value as the original.
#[verifier::external_body]
fn clone_shared<C>(v: &Arc<RwLock<Registry<C>, RegistryPred>>) -> (r: Arc<
    RwLock<Registry<C>, RegistryPred>,
>)
    ensures
        r == *v,
{
    Arc::clone(v)
}

impl<C> Tracker<C> {
    /// The lock this tracker operates through, for stating which trackers
    /// share a registry.
    pub closed spec fn lock_ref(self) -> RwLock<Registry<C>, RegistryPred> {
        *self.shared
    }

    /// Two trackers share one registry: registrations through either are
    /// visible to iteration through the other.
    pub open spec fn shares(self, other: Tracker<C>) -> bool {
        self.lock_ref() == other.lock_ref()
    }

    /// Creates a tracker owning a fresh, empty registry with its counter at
    /// zero.
    ///
    /// The contents of the registry are deliberately not part of a tracker's
    /// value: they live behind the shared lock and may be changed by any
    /// clone, so nothing about them can be promised here.  What every lock
    /// holder may rely on is stated by [`Registry::wf`].
    pub fn new() -> (t: Tracker<C>) {
        Tracker { shared: Arc::new(RwLock::new(Registry::empty(), Ghost(RegistryPred))) }
    }

    /// Registers `controller` under a fresh identity and wraps `object` in a
    /// handle that deregisters it again when dropped.
    ///
    /// Blocks while another clone holds the lock.  In the unreachable case
    /// that the identity space is exhausted, the controller is not stored and
    /// the returned handle's removal is a no-op; identities are never reused.
    pub fn track<T>(&self, object: T, controller: C) -> (h: TrackedHandle<T, C>)
        ensures
            h.tracker().shares(*self),
            h@ == object,
    {
        let (mut registry, handle) = self.shared.acquire_write();
        let id: Id = if registry.counter_value() < Id::MAX {
            registry.register(controller)
        } else {
            Id::MAX
        };
        handle.release_write(registry);
        TrackedHandle { object, id, tracker: Tracker { shared: clone_shared(&self.shared) } }
    }

    /// Registers an object-controller pair: `track` applied to the pair's
    /// two components.
    pub fn track_pair<T>(&self, pair: (T, C)) -> (h: TrackedHandle<T, C>)
        ensures
            h.tracker().shares(*self),
            h@ == pair.0,
    {
        let (object, controller) = pair;
        self.track(object, controller)
    }

    /// Acquires exclusive access to the registry, blocking until it is free.
    ///
    /// The guard does not release the lock by going out of scope: call
    /// [`TrackerGuard::unlock`] when done, or the next acquisition will block
    /// forever.
    pub fn lock<'a>(&'a self) -> (g: TrackerGuard<'a, C>)
        ensures
            g.wf(),
    {
        let (registry, handle) = self.shared.acquire_write();
        TrackerGuard { registry, handle }
    }

    /// Calls `f` once per registered controller, in iteration order, holding
    /// the lock for the whole pass.
    ///
    /// `f` must not register through this tracker or drop one of its handles:
    /// both would re-acquire the held lock and deadlock.  A failure inside
    /// `f` is fatal for the shared registry: the lock is never released, so
    /// every later acquisition blocks instead of proceeding with state whose
    /// consistency can no longer be relied on.
    pub fn for_each<F: Fn(&C)>(&self, f: F)
        requires
            forall|c: &C| #[trigger] call_requires(f, (c,)),
    {
        let (registry, handle) = self.shared.acquire_write();
        let n = registry.entry_count();
        let mut i: usize = 0;
        while i < n
            invariant
                registry.wf(),
                n == registry@.len(),
                0 <= i <= n,
                forall|c: &C| #[trigger] call_requires(f, (c,)),
            decreases n - i,
        {
            f(registry.controller_at(i));
            i += 1;
        }
        handle.release_write(registry);
    }
}

impl<C> Clone for Tracker<C> {
    /// Returns a new tracker sharing the same registry.
    fn clone(&self) -> (r: Tracker<C>)
        ensures
            r.shares(*self),
    {
        Tracker { shared: clone_shared(&self.shared) }
    }
}

impl<C> Default for Tracker<C> {
    /// Same as [`Tracker::new`].
    fn default() -> (t: Tracker<C>) {
        Tracker::new()
    }
}

/// Owner of one tracked object.
///
/// The handle behaves like the object it wraps (see [`TrackedHandle::object`]
/// and [`TrackedHandle::object_mut`]); dropping it removes the paired
/// controller from the registry, so a controller is visible to iteration
/// exactly while its object is alive.
pub struct TrackedHandle<T, C> {
    object: T,
    id: Id,
    tracker: Tracker<C>,
}

impl<T, C> View for TrackedHandle<T, C> {
    type V = T;

    /// A handle is abstractly the object it wraps.
    closed spec fn view(&self) -> T {
        self.object
    }
}

impl<T, C> TrackedHandle<T, C> {
    /// The tracker this handle deregisters through.
    pub closed spec fn tracker(self) -> Tracker<C> {
        self.tracker
    }

    /// The identity the paired controller is stored under.
    pub closed spec fn id(self) -> Id {
        self.id
    }

    /// Read access to the wrapped object.
    pub fn object(&self) -> (r: &T)
        ensures
            *r == self@,
    {
        &self.object
    }

    /// Write access to the wrapped object.
    pub fn object_mut(&mut self) -> (r: &mut T)
        ensures
            *r == old(self)@,
            final(self)@ == *final(r),
            final(self).id() == old(self).id(),
            final(self).tracker() == old(self).tracker(),
    {
        &mut self.object
    }
}

/// Locks the registry shared through `tracker` and removes the entry carrying
/// `id`; removing an identity that is absent (never stored, or already
/// removed) is a no-op.
fn deregister<C>(tracker: &Tracker<C>, id: Id) {
    let (mut registry, handle) = tracker.shared.acquire_write();
    registry.unregister(id);
    handle.release_write(registry);
}

impl<T, C> Drop for TrackedHandle<T, C> {
    /// Removes this handle's controller from the registry, however the
    /// handle's scope ends.
    ///
    /// Verus requires a verified `Drop` to open no invariants, and acquiring
    /// the registry lock opens one, so this body stands outside verification;
    /// it only forwards to [`deregister`], which is verified.
    #[verifier::external_body]
    fn drop(&mut self)
        opens_invariants none
        no_unwind
    {
        deregister(&self.tracker, self.id);
    }
}

/// Scoped exclusive access to the registry, created by [`Tracker::lock`].
///
/// Iteration borrows from the guard, so the registry cannot change while the
/// controllers are being visited.  Release the lock with
/// [`TrackerGuard::unlock`]; it is not released by dropping the guard.
pub struct TrackerGuard<'a, C> {
    registry: Registry<C>,
    handle: WriteHandle<'a, Registry<C>, RegistryPred>,
}

impl<'a, C> TrackerGuard<'a, C> {
    #[verifier::type_invariant]
    spec fn type_inv(self) -> bool {
        self.registry.wf()
    }

    /// The live entries of the locked registry, in iteration order.
    pub closed spec fn entries(self) -> Seq<(Id, C)> {
        self.registry@
    }

    /// The issuing counter of the locked registry.
    pub closed spec fn counter(self) -> Id {
        self.registry.counter()
    }

    /// The live controllers, in iteration order.
    pub open spec fn controllers(self) -> Seq<C> {
        controllers_of(self.entries())
    }

    /// The number of live entries.
    pub open spec fn live_count(self) -> nat {
        self.entries().len()
    }

    /// What any lock holder may rely on: identities are pairwise distinct
    /// and strictly below the counter.
    pub open spec fn wf(self) -> bool {
        distinct_ids(self.entries()) && ids_below(self.entries(), self.counter())
    }

    /// Creates an iterator over the controllers registered at the time the
    /// lock was taken.  A fresh call is required for a new pass.
    pub fn iter<'b>(&'b self) -> (it: Iter<'b, C>)
        ensures
            it.entries() == self.entries(),
            it.pos() == 0,
    {
        Iter { entries: self.registry.entries_ref(), pos: 0 }
    }

    /// The number of live entries.
    pub fn count(&self) -> (n: usize)
        ensures
            n == self.live_count(),
    {
        self.registry.entry_count()
    }

    /// Releases the lock.
    pub fn unlock(self) {
        proof {
            use_type_invariant(&self);
        }
        let TrackerGuard { registry, handle } = self;
        handle.release_write(registry);
    }
}

/// A lazy traversal over the controllers in a locked registry, created by
/// [`TrackerGuard::iter`]; valid only while the guard is held.
pub struct Iter<'a, C> {
    entries: &'a Vec<(Id, C)>,
    pos: usize,
}

impl<'a, C> Iter<'a, C> {
    #[verifier::type_invariant]
    spec fn type_inv(self) -> bool {
        self.pos <= self.entries@.len()
    }

    /// The entries being traversed.
    pub closed spec fn entries(self) -> Seq<(Id, C)> {
        self.entries@
    }

    /// How many entries have been yielded so far.
    pub closed spec fn pos(self) -> int {
        self.pos as int
    }

    /// The controllers not yet yielded, in order.
    pub open spec fn remaining(self) -> Seq<C> {
        controllers_of(self.entries()).skip(self.pos())
    }

    /// Yields a reference to the next controller, or `None` once every
    /// controller has been visited exactly once.
    pub fn next(&mut self) -> (r: Option<&'a C>)
        ensures
            final(self).entries() == old(self).entries(),
            old(self).pos() < old(self).entries().len() ==> {
                &&& final(self).pos() == old(self).pos() + 1
                &&& r matches Some(c) && *c == old(self).entries()[old(self).pos()].1
            },
            old(self).pos() >= old(self).entries().len() ==> {
                &&& r is None
                &&& final(self).pos() == old(self).pos()
            },
    {
        if self.pos < self.entries.len() {
            let c: &'a C = &self.entries[self.pos].1;
            self.pos = self.pos + 1;
            Some(c)
        } else {
            None
        }
    }

    /// How many controllers are left to visit; consumes the iterator.
    pub fn count(self) -> (n: usize)
        ensures
            n == self.remaining().len(),
    {
        proof {
            use_type_invariant(&self);
        }
        self.entries.len() - self.pos
    }
}

} // verus!
