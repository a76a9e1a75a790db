use peer_observer::tx_tracker::{TxId, TxRelayTracker, TxStatus, MAX_TXS_PER_PEER};

#[test]
fn test_unsolicited_detection() {
    let mut tracker = TxRelayTracker::new();
    let peer_id = 1;
    let txid = TxId::from_txid(b"test_txid".to_vec());
    let wtxid = TxId::from_wtxid(b"test_wtxid".to_vec());

    // Simulate receiving TX without prior GETDATA
    let status = tracker.process_transaction(peer_id, txid.clone(), wtxid.clone(), true);
    assert_eq!(status, Some(TxStatus::Unsolicited));
}

#[test]
fn test_solicited_detection() {
    let mut tracker = TxRelayTracker::new();
    let peer_id = 1;
    let txid = TxId::from_txid(b"test_txid".to_vec());
    let wtxid = TxId::from_wtxid(b"test_wtxid".to_vec());

    // First request the transaction
    tracker.track_getdata(peer_id, txid.clone());

    // Then receive it
    let status = tracker.process_transaction(peer_id, txid.clone(), wtxid.clone(), true);
    assert_eq!(status, Some(TxStatus::Solicited));
}

#[test]
fn test_unannounced_detection() {
    let mut tracker = TxRelayTracker::new();
    let peer_id = 1;
    let txid = TxId::from_txid(b"test_txid".to_vec());
    let wtxid = TxId::from_wtxid(b"test_wtxid".to_vec());

    // Simulate peer requesting TX without us announcing it
    let status = tracker.process_transaction(peer_id, txid.clone(), wtxid.clone(), false);
    assert_eq!(status, Some(TxStatus::Unannounced));
}

#[test]
fn test_announced_detection() {
    let mut tracker = TxRelayTracker::new();
    let peer_id = 1;
    let txid = TxId::from_txid(b"test_txid".to_vec());
    let wtxid = TxId::from_wtxid(b"test_wtxid".to_vec());

    // First announce the transaction
    tracker.track_inv(peer_id, txid.clone());

    // Then peer requests it
    let status = tracker.process_transaction(peer_id, txid.clone(), wtxid.clone(), false);
    assert_eq!(status, Some(TxStatus::Announced));
}

#[test]
fn test_memory_limits() {
    let mut tracker = TxRelayTracker::new();
    let peer_id = 1;

    // Add more than the limit
    for i in 0..(MAX_TXS_PER_PEER + 100) {
        let txid = TxId::from_txid(format!("txid_{}", i).into_bytes());
        tracker.track_inv(peer_id, txid);
    }

    // Verify limit is respected (check via cleanup or indirect means)
    assert!(tracker.tracked_peers_count() <= 1);
}

#[test]
fn test_peer_cleanup() {
    let mut tracker = TxRelayTracker::new();
    let peer_id = 1;
    let txid = TxId::from_txid(b"test_txid".to_vec());

    tracker.track_inv(peer_id, txid);
    assert_eq!(tracker.tracked_peers_count(), 1);

    tracker.remove_peer(peer_id);
    assert_eq!(tracker.tracked_peers_count(), 0);
}
