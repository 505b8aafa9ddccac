use std::collections::HashMap;

use fastlane::{ClusterNode, LeaderTracker, ScheduleTracker, SlotEvent};

fn node(pubkey: &str, gossip: bool, tpu: Option<&str>, fwd: Option<&str>) -> ClusterNode {
    ClusterNode {
        pubkey: pubkey.to_string(),
        gossip: if gossip { Some("9.9.9.9:8001".to_string()) } else { None },
        tpu_quic: tpu.map(|s| s.to_string()),
        tpu_forwards_quic: fwd.map(|s| s.to_string()),
    }
}

/// Epoch [0, 432); L0 leads slots 100..=103, L1 104..=107.
fn tracker_at(slot: u64) -> LeaderTracker {
    let mut curr = HashMap::new();
    for i in 100..104usize {
        curr.insert(i, "L0".to_string());
    }
    for i in 104..108usize {
        curr.insert(i, "L1".to_string());
    }
    let schedule = ScheduleTracker::new(100, 100, 432, curr, HashMap::new()).unwrap();
    let mut tracker = LeaderTracker::new(
        "http://rpc".to_string(),
        "ws://ws".to_string(),
        None,
        None,
        schedule,
    );
    tracker.update_leader_sockets(vec![
        node("L0", true, Some("1.1.1.1:8009"), Some("1.1.1.1:8010")),
        node("L1", true, Some("2.2.2.2:8009"), None),
    ]);
    tracker.handle_monotonic_slot(slot);
    tracker
}

fn identities(leaders: &[fastlane::LeaderInfo]) -> Vec<String> {
    leaders.iter().map(|l| l.identity.clone()).collect()
}

#[test]
fn test_get_slot_position_basic_cycle() {
    assert_eq!(LeaderTracker::get_slot_position(0), 0);
    assert_eq!(LeaderTracker::get_slot_position(1), 1);
    assert_eq!(LeaderTracker::get_slot_position(2), 2);
    assert_eq!(LeaderTracker::get_slot_position(3), 3);
}

#[test]
fn test_get_slot_position_wraps_correctly() {
    assert_eq!(LeaderTracker::get_slot_position(4), 0);
    assert_eq!(LeaderTracker::get_slot_position(5), 1);
    assert_eq!(LeaderTracker::get_slot_position(6), 2);
    assert_eq!(LeaderTracker::get_slot_position(7), 3);
    assert_eq!(LeaderTracker::get_slot_position(8), 0);
}

#[test]
fn test_get_slot_position_large_slots() {
    assert_eq!(LeaderTracker::get_slot_position(100), 0);
    assert_eq!(LeaderTracker::get_slot_position(101), 1);
    assert_eq!(LeaderTracker::get_slot_position(102), 2);
    assert_eq!(LeaderTracker::get_slot_position(103), 3);

    assert_eq!(LeaderTracker::get_slot_position(300_000_000), 0);
    assert_eq!(LeaderTracker::get_slot_position(300_000_001), 1);
    assert_eq!(LeaderTracker::get_slot_position(300_000_002), 2);
    assert_eq!(LeaderTracker::get_slot_position(300_000_003), 3);
}

#[test]
fn test_get_slot_position_hedge_slot() {
    assert_eq!(LeaderTracker::get_slot_position(3), 3);
    assert_eq!(LeaderTracker::get_slot_position(7), 3);
    assert_eq!(LeaderTracker::get_slot_position(11), 3);
    assert_eq!(LeaderTracker::get_slot_position(99), 3);
}

#[test]
fn slot_position_of_largest_slot() {
    assert_eq!(LeaderTracker::get_slot_position(u64::MAX), 3);
}

#[test]
fn slot_aware_policy_current_leader_only() {
    let tracker = tracker_at(100);
    let (leaders, pos) = tracker.get_slot_aware_leaders();
    assert_eq!(pos, 0);
    assert_eq!(identities(&leaders), vec!["L0".to_string()]);
    assert_eq!(leaders[0].tpu_socket, "1.1.1.1:8010");
    assert_eq!(leaders[0].slot, 100);
}

#[test]
fn slot_aware_policy_hedges_on_last_slot() {
    let tracker = tracker_at(103);
    let (leaders, pos) = tracker.get_slot_aware_leaders();
    assert_eq!(pos, 3);
    assert_eq!(identities(&leaders), vec!["L0".to_string(), "L1".to_string()]);
}

#[test]
fn slot_aware_policy_middle_slots() {
    for slot in 101..103u64 {
        let tracker = tracker_at(slot);
        let (leaders, pos) = tracker.get_slot_aware_leaders();
        assert_eq!(pos as u64, slot % 4);
        assert_eq!(identities(&leaders), vec!["L0".to_string()]);
    }
}

#[test]
fn slot_aware_policy_before_first_slot() {
    let tracker = tracker_at(0);
    let (leaders, pos) = tracker.get_slot_aware_leaders();
    assert!(leaders.is_empty());
    assert_eq!(pos, 0);
}

#[test]
fn fanout_deduplicates_leader_window() {
    let tracker = tracker_at(100);
    let leaders = tracker.get_leaders_with_fanout(1);
    assert_eq!(identities(&leaders), vec!["L0".to_string()]);

    let tracker = tracker_at(101);
    let leaders = tracker.get_leaders_with_fanout(1);
    assert_eq!(identities(&leaders), vec!["L0".to_string(), "L1".to_string()]);
}

#[test]
fn future_leaders_have_no_duplicates() {
    let tracker = tracker_at(100);
    let leaders = tracker.get_future_leaders(0, 64);
    assert_eq!(identities(&leaders), vec!["L0".to_string(), "L1".to_string()]);
    let leaders = tracker.get_leaders();
    assert_eq!(identities(&leaders), vec!["L0".to_string(), "L1".to_string()]);
}

#[test]
fn future_leaders_prefer_forwards_socket() {
    let tracker = tracker_at(100);
    let leaders = tracker.get_future_leaders(0, 8);
    assert_eq!(leaders[0].tpu_socket, "1.1.1.1:8010");
    assert_eq!(leaders[1].tpu_socket, "2.2.2.2:8009");
}

#[test]
fn future_leaders_offsets() {
    let tracker = tracker_at(100);
    let leaders = tracker.get_future_leaders(4, 8);
    assert_eq!(identities(&leaders), vec!["L1".to_string()]);
    assert!(tracker.get_future_leaders(8, 4).is_empty());
}

#[test]
fn leaders_without_sockets_are_skipped() {
    let mut tracker = tracker_at(100);
    tracker.update_leader_sockets(vec![node("L1", true, Some("2.2.2.2:8009"), None)]);
    let leaders = tracker.get_future_leaders(0, 8);
    assert_eq!(identities(&leaders), vec!["L1".to_string()]);
}

#[test]
fn socket_refresh_keeps_usable_nodes_only() {
    let mut tracker = tracker_at(100);
    tracker.update_leader_sockets(vec![
        node("L0", false, Some("1.1.1.1:8009"), None),
        node("L1", true, None, None),
        node("L2", true, None, Some("3.3.3.3:8010")),
    ]);
    assert_eq!(tracker.validator_count(), 1);
    assert!(tracker.get_future_leaders(0, 8).is_empty());
}

#[test]
fn socket_refresh_last_node_wins() {
    let mut tracker = tracker_at(100);
    tracker.update_leader_sockets(vec![
        node("L0", true, Some("1.1.1.1:8009"), None),
        node("L0", true, Some("4.4.4.4:8009"), None),
    ]);
    assert_eq!(tracker.validator_count(), 1);
    let leaders = tracker.get_future_leaders(0, 4);
    assert_eq!(leaders[0].tpu_socket, "4.4.4.4:8009");
}

#[test]
fn future_leaders_stop_at_epoch_end() {
    let mut curr = HashMap::new();
    curr.insert(431usize, "Last".to_string());
    let mut next = HashMap::new();
    next.insert(0usize, "First".to_string());
    let schedule = ScheduleTracker::new(431, 431, 432, curr, next).unwrap();
    let mut tracker = LeaderTracker::new("r".to_string(), "w".to_string(), None, None, schedule);
    tracker.update_leader_sockets(vec![
        node("Last", true, Some("5.5.5.5:1"), None),
        node("First", true, Some("6.6.6.6:1"), None),
    ]);
    assert!(!tracker.handle_monotonic_slot(431));
    assert_eq!(identities(&tracker.get_future_leaders(0, 8)), vec!["Last".to_string()]);
    // Crossing into the next epoch rotates the schedule.
    assert!(tracker.handle_monotonic_slot(432));
    assert_eq!(tracker.schedule_tracker().current_epoch_slot_start(), 432);
    assert_eq!(identities(&tracker.get_future_leaders(0, 8)), vec!["First".to_string()]);
}

#[test]
fn slot_outside_epoch_gives_no_leaders() {
    let tracker = tracker_at(500);
    assert!(tracker.get_future_leaders(0, 8).is_empty());
}

#[test]
fn slot_events_drive_the_estimate() {
    let mut tracker = tracker_at(0);
    assert!(!tracker.is_ready());
    tracker.set_ready();
    assert!(tracker.is_ready());
    assert!(!tracker.handle_slot_event(SlotEvent::Start(103)));
    assert_eq!(tracker.current_slot(), 103);
    assert_eq!(tracker.refresh_slot_from_rpc(104), 104);
    let (leaders, pos) = tracker.get_slot_aware_leaders();
    assert_eq!(pos, 0);
    assert_eq!(identities(&leaders), vec!["L1".to_string()]);
}

#[test]
fn send_leaders_fall_back_to_fanout() {
    let tracker = tracker_at(0);
    assert!(tracker.get_send_leaders(4).is_empty());
    let tracker = tracker_at(103);
    assert_eq!(identities(&tracker.get_send_leaders(1)), vec!["L0".to_string(), "L1".to_string()]);
}

#[test]
fn tracker_endpoints() {
    let tracker = tracker_at(0);
    assert_eq!(tracker.rpc_url(), "http://rpc");
    assert_eq!(tracker.ws_url(), "ws://ws");
    assert_eq!(tracker.grpc_url(), &None);
    assert_eq!(tracker.validator_count(), 2);
}
