//! A registry that pairs long-lived objects with lightweight controllers.
//!
//! A [`Tracker`](tracker::Tracker) hands out [`TrackedHandle`](tracker::TrackedHandle)s:
//! each handle owns an object, while the controller it was registered with stays
//! inside the shared registry.  Any clone of the tracker can lock the registry and
//! iterate over every live controller (for example, to request cancellation).
//! When a handle is dropped, its controller leaves the registry.
//!
//! The [`laws`] module proves what the lifecycle guarantees: counts add up,
//! identities are pairwise distinct and never reused, and one iteration pass
//! visits every live controller exactly once.

pub mod laws;
pub mod registry;
pub mod tracker;

pub use tracker::Iter;
pub use tracker::TrackedHandle;
pub use tracker::Tracker;
pub use tracker::TrackerGuard;
