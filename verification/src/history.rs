//! The tracker's state after any sequence of calls since `TxRelayTracker::new`,
//! described by the calls themselves: which peers are tracked, what each
//! peer's histories hold, which address it reports, and how a transaction
//! is then classified.

use vstd::prelude::*;

use crate::laws::{keep_last, lemma_push_keep_last};
use crate::tx_tracker::{
    after_cleanup, after_process, after_record_unannounced, after_record_unsolicited,
    after_register, after_remove_peer, after_track_getdata, after_track_inv, cleanup_due,
    history_has, initial_tracker, is_active, peer_wf, process_status, push_bounded, tracker_wf,
    TrackerView, TxIdView, TxStatus, MAX_TXS_PER_PEER,
};

verus! {

/// One call on a tracker, with the clock reading it used.
pub enum TrackerOp {
    /// `track_inv` / `track_inv_at`
    TrackInv { peer: u64, id: TxIdView, now: u64 },
    /// `track_getdata` / `track_getdata_at`
    TrackGetdata { peer: u64, id: TxIdView, now: u64 },
    /// `process_transaction` / `process_transaction_at`
    Process { peer: u64, txid: TxIdView, wtxid: TxIdView, inbound: bool, now: u64 },
    /// `register_peer_address` / `register_peer_address_at`
    Register { peer: u64, address: Seq<char>, now: u64 },
    /// `remove_peer`
    Remove { peer: u64 },
    /// `cleanup_old_data` / `cleanup_old_data_at`
    Cleanup { now: u64 },
    /// `record_unsolicited_tx`
    RecordUnsolicited { peer: u64, address: Seq<char> },
    /// `record_unannounced_tx`
    RecordUnannounced { peer: u64, address: Seq<char> },
}

/// The state after one call, as the call's contract states it.
pub open spec fn apply(v: TrackerView, op: TrackerOp) -> TrackerView {
    match op {
        TrackerOp::TrackInv { peer, id, now } => after_track_inv(v, peer, id, now),
        TrackerOp::TrackGetdata { peer, id, now } => after_track_getdata(v, peer, id, now),
        TrackerOp::Process { peer, now, .. } => after_process(v, peer, now),
        TrackerOp::Register { peer, address, now } => after_register(v, peer, address, now),
        TrackerOp::Remove { peer } => after_remove_peer(v, peer),
        TrackerOp::Cleanup { now } => after_cleanup(v, now),
        TrackerOp::RecordUnsolicited { peer, address } => after_record_unsolicited(v, peer, address),
        TrackerOp::RecordUnannounced { peer, address } => after_record_unannounced(v, peer, address),
    }
}

/// The state after `ops`, in order, on a new tracker.
pub open spec fn run(ops: Seq<TrackerOp>) -> TrackerView
    decreases ops.len(),
{
    if ops.len() == 0 {
        initial_tracker()
    } else {
        apply(run(ops.drop_last()), ops.last())
    }
}

/// Whether `op`, on state `v`, drops the state of peer `p`: `remove_peer(p)`,
/// or a cleanup (forced, or due while processing) that finds `p` inactive.
pub open spec fn drops(v: TrackerView, op: TrackerOp, p: u64) -> bool {
    match op {
        TrackerOp::Process { now, .. } => cleanup_due(v, now) && v.peers.contains_key(p)
            && !is_active(v.peers[p], now),
        TrackerOp::Cleanup { now } => v.peers.contains_key(p) && !is_active(v.peers[p], now),
        TrackerOp::Remove { peer } => peer == p,
        _ => false,
    }
}

/// Whether `op` names peer `p` in a call that keeps or creates its state.
pub open spec fn touches(op: TrackerOp, p: u64) -> bool {
    match op {
        TrackerOp::TrackInv { peer, .. } => peer == p,
        TrackerOp::TrackGetdata { peer, .. } => peer == p,
        TrackerOp::Process { peer, .. } => peer == p,
        TrackerOp::Register { peer, .. } => peer == p,
        _ => false,
    }
}

/// Whether `p` has been named by a tracking, processing or registering call
/// and not dropped since.
pub open spec fn is_followed(ops: Seq<TrackerOp>, p: u64) -> bool
    decreases ops.len(),
{
    if ops.len() == 0 {
        false
    } else {
        let prev = ops.drop_last();
        touches(ops.last(), p) || (is_followed(prev, p) && !drops(run(prev), ops.last(), p))
    }
}

/// The INVs sent to `p` (ID and time) since its state was last dropped.
pub open spec fn inv_log(ops: Seq<TrackerOp>, p: u64) -> Seq<(TxIdView, u64)>
    decreases ops.len(),
{
    if ops.len() == 0 {
        Seq::empty()
    } else {
        let prev = ops.drop_last();
        let kept = if drops(run(prev), ops.last(), p) {
            Seq::empty()
        } else {
            inv_log(prev, p)
        };
        match ops.last() {
            TrackerOp::TrackInv { peer, id, now } => if peer == p {
                kept.push((id, now))
            } else {
                kept
            },
            _ => kept,
        }
    }
}

/// The GETDATAs sent to `p` (ID and time) since its state was last dropped.
pub open spec fn getdata_log(ops: Seq<TrackerOp>, p: u64) -> Seq<(TxIdView, u64)>
    decreases ops.len(),
{
    if ops.len() == 0 {
        Seq::empty()
    } else {
        let prev = ops.drop_last();
        let kept = if drops(run(prev), ops.last(), p) {
            Seq::empty()
        } else {
            getdata_log(prev, p)
        };
        match ops.last() {
            TrackerOp::TrackGetdata { peer, id, now } => if peer == p {
                kept.push((id, now))
            } else {
                kept
            },
            _ => kept,
        }
    }
}

/// The address last registered for `p` since its state was last dropped,
/// or the empty address where there was none.
pub open spec fn address_log(ops: Seq<TrackerOp>, p: u64) -> Seq<char>
    decreases ops.len(),
{
    if ops.len() == 0 {
        Seq::empty()
    } else {
        let prev = ops.drop_last();
        let kept = if drops(run(prev), ops.last(), p) {
            Seq::empty()
        } else {
            address_log(prev, p)
        };
        match ops.last() {
            TrackerOp::Register { peer, address, .. } => if peer == p {
                address
            } else {
                kept
            },
            _ => kept,
        }
    }
}

/// Every call keeps the histories within the bound and the peer map finite.
pub proof fn lemma_apply_wf(v: TrackerView, op: TrackerOp)
    requires
        tracker_wf(v),
    ensures
        tracker_wf(apply(v, op)),
{
    let w = apply(v, op);
    match op {
        TrackerOp::Process { peer, now, .. } => {
            let c = if cleanup_due(v, now) {
                after_cleanup(v, now)
            } else {
                v
            };
            assert(c.peers.dom().subset_of(v.peers.dom()));
            vstd::set_lib::lemma_set_subset_finite(v.peers.dom(), c.peers.dom());
        },
        TrackerOp::Cleanup { now } => {
            assert(w.peers.dom().subset_of(v.peers.dom()));
            vstd::set_lib::lemma_set_subset_finite(v.peers.dom(), w.peers.dom());
        },
        _ => {},
    }
    assert forall|q: u64| #[trigger] w.peers.contains_key(q) implies peer_wf(w.peers[q]) by {
        if v.peers.contains_key(q) {
            assert(peer_wf(v.peers[q]));
        }
    }
}

/// The state after any calls is well formed.
pub proof fn lemma_run_wf(ops: Seq<TrackerOp>)
    ensures
        tracker_wf(run(ops)),
    decreases ops.len(),
{
    if ops.len() == 0 {
        assert(run(ops).peers =~= Map::empty());
    } else {
        lemma_run_wf(ops.drop_last());
        lemma_apply_wf(run(ops.drop_last()), ops.last());
    }
}

/// What the state after `ops` holds for peer `p`, in terms of the calls.
pub proof fn lemma_run_peer(ops: Seq<TrackerOp>, p: u64)
    ensures
        run(ops).peers.contains_key(p) == is_followed(ops, p),
        run(ops).peers.contains_key(p) ==> {
            &&& run(ops).peers[p].invs == keep_last(inv_log(ops, p), MAX_TXS_PER_PEER as nat)
            &&& run(ops).peers[p].getdata == keep_last(
                getdata_log(ops, p),
                MAX_TXS_PER_PEER as nat,
            )
            &&& run(ops).peers[p].address == address_log(ops, p)
        },
        !run(ops).peers.contains_key(p) ==> {
            &&& inv_log(ops, p) == Seq::<(TxIdView, u64)>::empty()
            &&& getdata_log(ops, p) == Seq::<(TxIdView, u64)>::empty()
            &&& address_log(ops, p) == Seq::<char>::empty()
        },
    decreases ops.len(),
{
    if ops.len() > 0 {
        let prev = ops.drop_last();
        lemma_run_peer(prev, p);
        let v = run(prev);
        let op = ops.last();
        let w = run(ops);
        assert(w == apply(v, op));
        let e: Seq<(TxIdView, u64)> = Seq::empty();
        assert(keep_last(e, MAX_TXS_PER_PEER as nat) == e);
        match op {
            TrackerOp::TrackInv { peer, id, now } => {
                if peer == p {
                    lemma_push_keep_last(inv_log(prev, p), (id, now));
                }
            },
            TrackerOp::TrackGetdata { peer, id, now } => {
                if peer == p {
                    lemma_push_keep_last(getdata_log(prev, p), (id, now));
                }
            },
            _ => {},
        }
    }
}

/// The classification of a transaction from `p`, given the call that
/// processes it appended to `ops`: by the last (at most 1000) GETDATAs or
/// INVs sent to `p` since its state was last dropped, counting a drop by
/// the cleanup that this very call may run.
pub open spec fn status_by_history(
    ops: Seq<TrackerOp>,
    p: u64,
    txid: TxIdView,
    wtxid: TxIdView,
    inbound: bool,
) -> TxStatus {
    let requested = keep_last(getdata_log(ops, p), MAX_TXS_PER_PEER as nat);
    let announced = keep_last(inv_log(ops, p), MAX_TXS_PER_PEER as nat);
    if inbound {
        if history_has(requested, txid) || history_has(requested, wtxid) {
            TxStatus::Solicited
        } else {
            TxStatus::Unsolicited
        }
    } else {
        if history_has(announced, txid) || history_has(announced, wtxid) {
            TxStatus::Announced
        } else {
            TxStatus::Unannounced
        }
    }
}

/// After any calls, a transaction exchanged with `p` is solicited
/// (announced) exactly when its txid or wtxid is among the last 1000
/// GETDATAs (INVs) sent to `p` since `p` was last dropped, by
/// `remove_peer` or by a cleanup, including one that this call runs.
pub proof fn law_classified_by_history(
    ops: Seq<TrackerOp>,
    p: u64,
    txid: TxIdView,
    wtxid: TxIdView,
    inbound: bool,
    now: u64,
)
    ensures
        ({
            let call = TrackerOp::Process { peer: p, txid, wtxid, inbound, now };
            process_status(run(ops), p, txid, wtxid, inbound, now) == status_by_history(
                ops.push(call),
                p,
                txid,
                wtxid,
                inbound,
            )
        }),
{
    let call = TrackerOp::Process { peer: p, txid, wtxid, inbound, now };
    let ops2 = ops.push(call);
    assert(ops2.drop_last() =~= ops);
    assert(ops2.last() == call);
    lemma_run_peer(ops2, p);
    assert(run(ops2) == after_process(run(ops), p, now));
}

/// After any calls, the tracked peers are exactly those named by a tracking,
/// processing or registering call and not dropped since; there are finitely
/// many, and `tracked_peers_count` reports how many.
pub proof fn law_tracked_peers(ops: Seq<TrackerOp>)
    ensures
        run(ops).peers.dom() == Set::new(|p: u64| is_followed(ops, p)),
        run(ops).peers.dom().finite(),
        run(ops).peers.len() == Set::new(|p: u64| is_followed(ops, p)).len(),
{
    lemma_run_wf(ops);
    assert forall|p: u64| #[trigger] run(ops).peers.dom().contains(p) == is_followed(ops, p) by {
        lemma_run_peer(ops, p);
    }
    assert(run(ops).peers.dom() =~= Set::new(|p: u64| is_followed(ops, p)));
}

/// After any calls, a tracked peer reports the address last registered for
/// it since it was last dropped, or the empty address if none was.
pub proof fn law_address_by_history(ops: Seq<TrackerOp>, p: u64)
    ensures
        run(ops).peers.contains_key(p) ==> run(ops).peers[p].address == address_log(ops, p),
        !run(ops).peers.contains_key(p) ==> !is_followed(ops, p),
{
    lemma_run_peer(ops, p);
}

} // verus!
