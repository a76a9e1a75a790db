use peer_observer::top_k::NANOS_PER_SEC;
use peer_observer::TopKTracker;
use std::collections::HashSet;

fn sample(k: usize) -> TopKTracker {
    let mut t = TopKTracker::new(k, 30);
    for _ in 0..3 {
        t.record_unsolicited(1, "a".to_string());
    }
    t.record_unsolicited(2, "b".to_string());
    for _ in 0..2 {
        t.record_unsolicited(3, "c".to_string());
    }
    t.record_unannounced(2, "b2".to_string());
    t
}

#[test]
fn counts_are_recorded_per_peer() {
    let t = sample(2);
    assert_eq!(t.unsolicited_count(1), 3);
    assert_eq!(t.unsolicited_count(2), 1);
    assert_eq!(t.unsolicited_count(3), 2);
    assert_eq!(t.unsolicited_count(4), 0);
    assert_eq!(t.unannounced_count(2), 1);
    assert_eq!(t.unannounced_count(1), 0);
}

#[test]
fn report_ranks_highest_first_and_fills_k_slots() {
    let t = sample(2);
    let r = t.top_k_report();
    assert_eq!(r.unsolicited.ranking, vec![(1, 3), (3, 2), (2, 1)]);
    assert_eq!(r.unsolicited.gauges, vec![3, 2]);
    let notable: Vec<(usize, u64, String, u64)> = r
        .unsolicited
        .notable
        .iter()
        .map(|n| (n.rank, n.peer_id, n.address.clone(), n.count))
        .collect();
    assert_eq!(notable, vec![(1, 1, "a".to_string(), 3), (2, 3, "c".to_string(), 2)]);
    // The address map is shared: the last recorded address of peer 2 is "b2".
    assert_eq!(r.unannounced.ranking, vec![(2, 1)]);
    assert_eq!(r.unannounced.gauges, vec![1, 0]);
    assert_eq!(r.unannounced.notable.len(), 1);
    assert_eq!(r.unannounced.notable[0].address, "b2");
}

#[test]
fn report_pads_missing_ranks_with_zero_and_logs_top_three() {
    let t = sample(5);
    let r = t.top_k_report();
    assert_eq!(r.unsolicited.gauges, vec![3, 2, 1, 0, 0]);
    assert_eq!(r.unsolicited.notable.len(), 3);
    assert_eq!(r.unsolicited.notable[2].rank, 3);
    assert_eq!(r.unsolicited.notable[2].peer_id, 2);
}

#[test]
fn report_with_k_zero_publishes_nothing() {
    let t = sample(0);
    let r = t.top_k_report();
    assert!(r.unsolicited.gauges.is_empty());
    assert!(r.unsolicited.notable.is_empty());
    assert_eq!(r.unsolicited.ranking.len(), 3);
}

#[test]
fn updates_are_paced_by_the_interval() {
    let mut t = sample(2);
    assert!(t.maybe_update_metrics_at(0).is_none());
    assert!(t.maybe_update_metrics_at(30 * NANOS_PER_SEC - 1).is_none());
    let r = t.maybe_update_metrics_at(30 * NANOS_PER_SEC).expect("due");
    assert_eq!(r.unsolicited.gauges, vec![3, 2]);
    assert!(t.maybe_update_metrics_at(30 * NANOS_PER_SEC + 1).is_none());
    assert!(t.maybe_update_metrics_at(60 * NANOS_PER_SEC).is_some());
    // A clock reading before the last update counts as no time elapsed.
    assert!(t.maybe_update_metrics_at(0).is_none());
}

#[test]
fn zero_interval_is_always_due() {
    let mut t = TopKTracker::new(1, 0);
    assert!(t.maybe_update_metrics_at(0).is_some());
    assert!(t.maybe_update_metrics_at(0).is_some());
}

#[test]
fn fresh_tracker_is_not_due_immediately() {
    let mut t = TopKTracker::new(10, 3600);
    assert!(t.maybe_update_metrics().is_none());
}

#[test]
fn remove_peer_forgets_all_counts() {
    let mut t = sample(2);
    t.remove_peer(2);
    assert_eq!(t.unsolicited_count(2), 0);
    assert_eq!(t.unannounced_count(2), 0);
    let r = t.top_k_report();
    assert_eq!(r.unsolicited.ranking, vec![(1, 3), (3, 2)]);
    assert!(r.unannounced.ranking.is_empty());
}

#[test]
fn cleanup_keeps_only_active_peers() {
    let mut t = sample(3);
    let active: HashSet<u64> = [3u64, 9].into_iter().collect();
    t.cleanup_stale_peers(&active);
    assert_eq!(t.unsolicited_count(1), 0);
    assert_eq!(t.unsolicited_count(2), 0);
    assert_eq!(t.unsolicited_count(3), 2);
    let r = t.top_k_report();
    assert_eq!(r.unsolicited.ranking, vec![(3, 2)]);
    assert_eq!(r.unsolicited.notable.len(), 1);
    assert_eq!(r.unsolicited.notable[0].address, "c");
}

#[test]
fn ties_publish_the_same_values() {
    let mut t = TopKTracker::new(3, 30);
    for p in [5u64, 6, 7] {
        t.record_unsolicited(p, format!("p{}", p));
        t.record_unsolicited(p, format!("p{}", p));
    }
    let r = t.top_k_report();
    assert_eq!(r.unsolicited.gauges, vec![2, 2, 2]);
    let mut peers: Vec<u64> = r.unsolicited.ranking.iter().map(|e| e.0).collect();
    peers.sort();
    assert_eq!(peers, vec![5, 6, 7]);
}
