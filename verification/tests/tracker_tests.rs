use std::cell::Cell;

use object_controller_tracker::Tracker;

#[test]
fn test1() {
    let tracker = Tracker::new();
    let obj = tracker.track((), 5);
    let guard = tracker.lock();
    let mut it = guard.iter();
    while let Some(c) = it.next() {
        assert_eq!(c, &5);
    }
    guard.unlock();
    let guard = tracker.lock();
    assert_eq!(guard.iter().count(), 1);
    guard.unlock();
    drop(obj);
    let guard = tracker.lock();
    assert_eq!(guard.iter().count(), 0);
    guard.unlock();
}

#[test]
fn test2() {
    let tracker = Tracker::new();
    let obj1 = tracker.track((), 1);
    let obj2 = tracker.track((), 2);
    let obj3 = tracker.track((), 3);
    let guard = tracker.lock();
    assert_eq!(guard.iter().count(), 3);
    guard.unlock();
    let sum = Cell::new(0);
    tracker.for_each(|x| sum.set(sum.get() + x));
    assert_eq!(sum.get(), 6);
    drop(obj2);
    sum.set(0);
    tracker.for_each(|x| sum.set(sum.get() + x));
    assert_eq!(sum.get(), 4);
    let guard = tracker.lock();
    assert_eq!(guard.iter().count(), 2);
    guard.unlock();
    drop(obj3);
    drop(obj1);
    sum.set(0);
    tracker.for_each(|x| sum.set(sum.get() + x));
    assert_eq!(sum.get(), 0);
}

#[test]
fn fresh_tracker_has_no_controllers() {
    let tracker: Tracker<u32> = Tracker::new();
    let guard = tracker.lock();
    assert_eq!(guard.count(), 0);
    let mut it = guard.iter();
    assert!(it.next().is_none());
    guard.unlock();
    let calls = Cell::new(0u32);
    tracker.for_each(|_| calls.set(calls.get() + 1));
    assert_eq!(calls.get(), 0);
}

#[test]
fn live_count_equals_tracks_minus_drops() {
    let tracker = Tracker::new();
    let n: usize = 8;
    let mut handles = Vec::new();
    for k in 0..n {
        handles.push(tracker.track(k, k as u64));
        let guard = tracker.lock();
        assert_eq!(guard.count(), k + 1);
        guard.unlock();
    }
    let mut dropped: usize = 0;
    while let Some(handle) = handles.pop() {
        drop(handle);
        dropped += 1;
        let guard = tracker.lock();
        let live = guard.count();
        assert!(live <= n);
        assert_eq!(live, n - dropped);
        guard.unlock();
    }
}

#[test]
fn dropped_controller_never_reappears() {
    let tracker = Tracker::new();
    let keep = tracker.track((), 1u32);
    let gone = tracker.track((), 2u32);
    drop(gone);
    let later = tracker.track((), 3u32);
    let seen = Cell::new(0u32);
    let twos = Cell::new(0u32);
    tracker.for_each(|c| {
        seen.set(seen.get() + 1);
        if *c == 2 {
            twos.set(twos.get() + 1);
        }
    });
    assert_eq!(seen.get(), 2);
    assert_eq!(twos.get(), 0);
    drop(keep);
    drop(later);
}

#[test]
fn iteration_visits_each_controller_once() {
    let tracker = Tracker::new();
    let _h1 = tracker.track((), 10u64);
    let _h2 = tracker.track((), 20u64);
    let _h3 = tracker.track((), 30u64);
    let guard = tracker.lock();
    let mut seen = Vec::new();
    let mut it = guard.iter();
    while let Some(c) = it.next() {
        seen.push(*c);
    }
    guard.unlock();
    seen.sort();
    assert_eq!(seen, vec![10, 20, 30]);
}

#[test]
fn clone_shares_the_registry() {
    let original = Tracker::new();
    let clone = original.clone();
    let handle = clone.track("job", 7u8);
    let guard = original.lock();
    assert_eq!(guard.count(), 1);
    let mut it = guard.iter();
    assert_eq!(it.next(), Some(&7u8));
    assert!(it.next().is_none());
    guard.unlock();
    drop(handle);
    let guard = clone.lock();
    assert_eq!(guard.count(), 0);
    guard.unlock();
}

#[test]
fn track_pair_stores_both_parts() {
    let tracker = Tracker::new();
    let handle = tracker.track_pair(("payload", 42u32));
    assert_eq!(*handle.object(), "payload");
    let guard = tracker.lock();
    let mut it = guard.iter();
    assert_eq!(it.next(), Some(&42u32));
    assert!(it.next().is_none());
    guard.unlock();
}

#[test]
fn handle_gives_access_to_the_object() {
    let tracker = Tracker::new();
    let mut handle = tracker.track(String::from("work"), 0u8);
    assert_eq!(*handle.object(), "work");
    handle.object_mut().push_str("load");
    assert_eq!(*handle.object(), "workload");
}

#[test]
fn default_tracker_is_empty() {
    let tracker: Tracker<i64> = Tracker::default();
    let guard = tracker.lock();
    assert_eq!(guard.count(), 0);
    guard.unlock();
}

fn require_send<T: Send>() {}

fn require_sync<T: Sync>() {}

#[test]
fn tracker_can_cross_threads() {
    require_send::<Tracker<u64>>();
    require_sync::<Tracker<u64>>();
    require_send::<object_controller_tracker::TrackedHandle<u64, u64>>();
}

#[test]
fn iterator_needs_a_fresh_pass() {
    let tracker = Tracker::new();
    let _h = tracker.track((), 9i32);
    let guard = tracker.lock();
    let mut it = guard.iter();
    assert_eq!(it.next(), Some(&9i32));
    assert!(it.next().is_none());
    assert!(it.next().is_none());
    let mut again = guard.iter();
    assert_eq!(again.next(), Some(&9i32));
    guard.unlock();
}
