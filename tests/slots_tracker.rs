use fastlane::{SlotEvent, SlotsTracker};

fn tracker_from_slots(slots: Vec<u64>) -> SlotsTracker {
    let mut tracker = SlotsTracker::new();
    for slot in slots {
        tracker.record_start(slot);
        tracker.record_end(slot);
    }
    tracker
}

#[test]
fn test_estimate_with_sequential_slots() {
    let tracker = tracker_from_slots((1..=12).collect());
    assert_eq!(tracker.current_slot(), 13);
}

#[test]
fn test_estimate_with_reverse_order() {
    let tracker = tracker_from_slots((1..=12).rev().collect());
    assert_eq!(tracker.current_slot(), 13);
}

#[test]
fn test_record_updates_estimate() {
    let mut tracker = SlotsTracker::new();
    assert_eq!(tracker.record_start(13), 13);
    assert_eq!(tracker.current_slot(), 13);
    assert_eq!(tracker.record_start(14), 14);
    assert_eq!(tracker.current_slot(), 14);
}

#[test]
fn test_outlier_rejection() {
    let tracker = tracker_from_slots(vec![1, 100]);
    assert_eq!(tracker.current_slot(), 2);

    let tracker = tracker_from_slots(vec![1, 2, 100]);
    assert_eq!(tracker.current_slot(), 3);
}

#[test]
fn sequential_start_end_events_give_next_slot() {
    let mut tracker = SlotsTracker::new();
    for slot in 1..=12u64 {
        tracker.record(SlotEvent::Start(slot));
        tracker.record(SlotEvent::End(slot));
    }
    assert_eq!(tracker.current_slot(), 13);
}

#[test]
fn far_future_outlier_is_ignored() {
    let mut tracker = SlotsTracker::new();
    tracker.record(SlotEvent::Start(1));
    tracker.record(SlotEvent::End(1));
    tracker.record(SlotEvent::Start(100));
    assert_eq!(tracker.record(SlotEvent::End(100)), 2);
}

#[test]
fn new_tracker_starts_at_zero() {
    assert_eq!(SlotsTracker::new().current_slot(), 0);
    assert_eq!(SlotsTracker::default().current_slot(), 0);
}

#[test]
fn end_event_at_largest_slot_saturates() {
    let mut tracker = SlotsTracker::new();
    assert_eq!(tracker.record_end(u64::MAX), u64::MAX);
}

#[test]
fn single_end_event_means_next_slot() {
    let mut tracker = SlotsTracker::new();
    assert_eq!(tracker.record_end(41), 42);
}

#[test]
fn start_sorts_before_end_of_same_slot() {
    let mut tracker = SlotsTracker::new();
    tracker.record_end(7);
    // Sorted: Start(7), End(7); median index 0, cap 7 + 1 + 48; the last event wins.
    assert_eq!(tracker.record_start(7), 8);
}

#[test]
fn ring_keeps_only_recent_events() {
    let mut tracker = SlotsTracker::new();
    // Sixty early events, then forty-eight later ones push them all out.
    for _ in 0..60 {
        tracker.record_start(5);
    }
    for slot in 1000..1048u64 {
        tracker.record_start(slot);
    }
    assert_eq!(tracker.current_slot(), 1047);
}

#[test]
fn monotonic_ignores_older_slots() {
    let mut tracker = SlotsTracker::new();
    assert_eq!(tracker.record_monotonic(500), 500);
    assert_eq!(tracker.record_monotonic(400), 500);
    assert_eq!(tracker.record_monotonic(500), 500);
    assert_eq!(tracker.current_slot(), 500);
    assert_eq!(tracker.record_monotonic(501), 501);
}

#[test]
fn monotonic_replaces_the_ring() {
    let mut tracker = SlotsTracker::new();
    tracker.record_start(10);
    tracker.record_start(11);
    tracker.record_monotonic(300);
    // The ring now holds Start(300) alone; a start at 301 moves on by one.
    assert_eq!(tracker.record_start(301), 301);
}

#[test]
fn slot_event_accessors() {
    assert_eq!(SlotEvent::Start(9).slot(), 9);
    assert_eq!(SlotEvent::End(9).slot(), 9);
    assert!(SlotEvent::Start(9).is_start());
    assert!(!SlotEvent::End(9).is_start());
}
