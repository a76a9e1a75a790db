use peer_observer::messages::{InventoryItem, InventoryItemKind, Transaction, Tx};
use peer_observer::tx_tracker::{
    TxId, TxRelayTracker, TxStatus, CLEANUP_INTERVAL_NANOS, MAX_TXS_PER_PEER, PEER_TIMEOUT_NANOS,
};

fn txid(s: &str) -> TxId {
    TxId::from_txid(s.as_bytes().to_vec())
}

fn wtxid(s: &str) -> TxId {
    TxId::from_wtxid(s.as_bytes().to_vec())
}

#[test]
fn announced_by_wtxid() {
    let mut t = TxRelayTracker::new();
    t.track_inv(3, wtxid("w"));
    assert_eq!(t.process_transaction(3, txid("t"), wtxid("w"), false), Some(TxStatus::Announced));
}

#[test]
fn id_kind_matters() {
    let mut t = TxRelayTracker::new();
    t.track_getdata(3, wtxid("abc"));
    // Same bytes, but a txid is not a wtxid.
    assert_eq!(
        t.process_transaction(3, txid("abc"), wtxid("zzz"), true),
        Some(TxStatus::Unsolicited)
    );
}

#[test]
fn directions_are_independent() {
    let mut t = TxRelayTracker::new();
    t.track_inv(1, txid("a"));
    assert_eq!(t.process_transaction(1, txid("a"), wtxid("a"), true), Some(TxStatus::Unsolicited));
    t.track_getdata(2, txid("b"));
    assert_eq!(t.process_transaction(2, txid("b"), wtxid("b"), false), Some(TxStatus::Unannounced));
}

#[test]
fn peers_are_independent() {
    let mut t = TxRelayTracker::new();
    t.track_inv(1, txid("a"));
    assert_eq!(t.process_transaction(2, txid("a"), wtxid("a"), false), Some(TxStatus::Unannounced));
    assert_eq!(t.tracked_peers_count(), 2);
}

#[test]
fn history_drops_only_the_oldest() {
    let mut t = TxRelayTracker::new();
    for i in 0..(MAX_TXS_PER_PEER + 1) {
        t.track_inv_at(1, txid(&format!("tx{}", i)), 5);
    }
    assert_eq!(t.process_transaction_at(1, txid("tx0"), wtxid("-"), false, 6), Some(TxStatus::Unannounced));
    assert_eq!(t.process_transaction_at(1, txid("tx1"), wtxid("-"), false, 6), Some(TxStatus::Announced));
    let last = format!("tx{}", MAX_TXS_PER_PEER);
    assert_eq!(t.process_transaction_at(1, txid(&last), wtxid("-"), false, 6), Some(TxStatus::Announced));
}

#[test]
fn cleanup_removes_peers_inactive_for_the_timeout() {
    let mut t = TxRelayTracker::new();
    t.track_inv_at(1, txid("a"), 0);
    t.track_inv_at(2, txid("a"), 10);
    t.cleanup_old_data_at(PEER_TIMEOUT_NANOS - 1);
    assert_eq!(t.tracked_peers_count(), 2);
    t.cleanup_old_data_at(PEER_TIMEOUT_NANOS);
    assert_eq!(t.tracked_peers_count(), 1);
    assert_eq!(t.get_peer_address(1), None);
    assert!(t.get_peer_address(2).is_some());
}

#[test]
fn processing_cleans_up_when_due() {
    let mut t = TxRelayTracker::new();
    t.track_inv_at(1, txid("a"), 0);
    // Not due yet: the peer stays even though the reading is late.
    assert_eq!(
        t.process_transaction_at(2, txid("x"), wtxid("x"), true, CLEANUP_INTERVAL_NANOS),
        Some(TxStatus::Unsolicited)
    );
    assert_eq!(t.tracked_peers_count(), 2);
    // Due, and peer 1 has been silent for the whole timeout: it goes, peer 3 comes.
    assert_eq!(
        t.process_transaction_at(3, txid("a"), wtxid("a"), false, PEER_TIMEOUT_NANOS),
        Some(TxStatus::Unannounced)
    );
    assert_eq!(t.tracked_peers_count(), 2);
    assert_eq!(t.get_peer_address(1), None);
    // Its history went with it.
    assert_eq!(
        t.process_transaction_at(1, txid("a"), wtxid("a"), false, PEER_TIMEOUT_NANOS),
        Some(TxStatus::Unannounced)
    );
}

#[test]
fn activity_keeps_a_peer() {
    let mut t = TxRelayTracker::new();
    t.track_inv_at(1, txid("a"), 0);
    t.track_inv_at(1, txid("b"), PEER_TIMEOUT_NANOS);
    t.cleanup_old_data_at(PEER_TIMEOUT_NANOS + 1);
    assert_eq!(t.tracked_peers_count(), 1);
}

#[test]
fn register_and_get_address() {
    let mut t = TxRelayTracker::new();
    assert_eq!(t.get_peer_address(5), None);
    t.register_peer_address(5, "1.2.3.4:8333".to_string());
    assert_eq!(t.get_peer_address(5), Some("1.2.3.4:8333".to_string()));
    t.register_peer_address(5, "5.6.7.8:8333".to_string());
    assert_eq!(t.get_peer_address(5), Some("5.6.7.8:8333".to_string()));
    assert_eq!(t.tracked_peers_count(), 1);
}

#[test]
fn processing_creates_a_peer_without_address() {
    let mut t = TxRelayTracker::new();
    t.process_transaction(9, txid("a"), wtxid("a"), true);
    assert_eq!(t.get_peer_address(9), Some(String::new()));
}

#[test]
fn registering_keeps_history() {
    let mut t = TxRelayTracker::new();
    t.track_inv(4, txid("a"));
    t.register_peer_address(4, "addr".to_string());
    assert_eq!(t.process_transaction(4, txid("a"), wtxid("a"), false), Some(TxStatus::Announced));
}

#[test]
fn remove_peer_forgets_top_k_counts() {
    let mut t = TxRelayTracker::new();
    t.record_unsolicited_tx(1, "a".to_string());
    t.record_unannounced_tx(1, "a".to_string());
    t.record_unsolicited_tx(2, "b".to_string());
    assert_eq!(t.top_k_tracker().unsolicited_count(1), 1);
    t.remove_peer(1);
    assert_eq!(t.top_k_tracker().unsolicited_count(1), 0);
    assert_eq!(t.top_k_tracker().unannounced_count(1), 0);
    assert_eq!(t.top_k_tracker().unsolicited_count(2), 1);
}

#[test]
fn fresh_tracker_publishes_nothing_at_once() {
    let mut t = TxRelayTracker::new();
    assert!(t.update_top_k_metrics().is_none());
}

fn item(kind: Option<InventoryItemKind>) -> InventoryItem {
    InventoryItem { item: kind }
}

#[test]
fn inv_message_tracks_transaction_entries_only() {
    let mut t = TxRelayTracker::new();
    let items = vec![
        item(Some(InventoryItemKind::Wtx(b"a".to_vec()))),
        item(Some(InventoryItemKind::Transaction(b"b".to_vec()))),
        item(Some(InventoryItemKind::WitnessTransaction(b"c".to_vec()))),
        item(Some(InventoryItemKind::Other)),
        item(None),
    ];
    t.handle_inv_message(7, &items);
    assert_eq!(t.process_transaction(7, txid("-"), wtxid("a"), false), Some(TxStatus::Announced));
    assert_eq!(t.process_transaction(7, txid("b"), wtxid("-"), false), Some(TxStatus::Announced));
    assert_eq!(t.process_transaction(7, txid("-"), wtxid("c"), false), Some(TxStatus::Announced));
    assert_eq!(t.process_transaction(7, txid("a"), wtxid("b"), false), Some(TxStatus::Unannounced));
    assert_eq!(t.process_transaction(7, txid("-"), wtxid("a"), true), Some(TxStatus::Unsolicited));
}

#[test]
fn message_without_transactions_creates_no_peer() {
    let mut t = TxRelayTracker::new();
    t.handle_inv_message(7, &[item(Some(InventoryItemKind::Other)), item(None)]);
    t.handle_getdata_message(8, &[]);
    assert_eq!(t.tracked_peers_count(), 0);
}

#[test]
fn getdata_message_then_tx_message_is_solicited() {
    let mut t = TxRelayTracker::new();
    t.handle_getdata_message(7, &[item(Some(InventoryItemKind::Wtx(b"w1".to_vec())))]);
    let tx = Tx { tx: Transaction { txid: b"t1".to_vec(), wtxid: b"w1".to_vec() } };
    assert_eq!(t.handle_tx_message(7, &tx, true), Some(TxStatus::Solicited));
    let other = Tx { tx: Transaction { txid: b"t2".to_vec(), wtxid: b"w2".to_vec() } };
    assert_eq!(t.handle_tx_message(7, &other, true), Some(TxStatus::Unsolicited));
    assert_eq!(t.handle_tx_message_at(7, &tx, false, 1), Some(TxStatus::Unannounced));
}

#[test]
fn history_restarts_after_a_drop() {
    let mut t = TxRelayTracker::new();
    t.track_inv_at(1, txid("a"), 0);
    t.register_peer_address_at(1, "addr".to_string(), 0);
    t.cleanup_old_data_at(PEER_TIMEOUT_NANOS);
    t.track_inv_at(1, txid("b"), PEER_TIMEOUT_NANOS);
    assert_eq!(t.get_peer_address(1), Some(String::new()));
    assert_eq!(
        t.process_transaction_at(1, txid("a"), wtxid("-"), false, PEER_TIMEOUT_NANOS + 1),
        Some(TxStatus::Unannounced)
    );
    assert_eq!(
        t.process_transaction_at(1, txid("b"), wtxid("-"), false, PEER_TIMEOUT_NANOS + 1),
        Some(TxStatus::Announced)
    );
}
