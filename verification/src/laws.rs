//! Properties of the library that relate several operations.

use vstd::prelude::*;

use crate::messages::{InventoryItem, InventoryItemKind};
use crate::ranking::{gauge_values, is_ranking, notable_peers, notable_upto, ranks_peer, NotableView};
use crate::top_k::{bump, update_due, TopKView, NANOS_PER_SEC};
use crate::tx_tracker::{
    after_cleanup, after_maybe_cleanup, after_process, after_remove_peer, cleanup_due, is_active,
    after_register, after_track_getdata, inventory_id, inventory_ids, lemma_tracked_time,
    after_track_getdatas, after_track_inv, after_track_invs, history_has, peer_or_fresh,
    process_status, push_bounded, tracker_wf, TrackerView, TxIdView, TxStatus,
    CLEANUP_INTERVAL_NANOS, MAX_TXS_PER_PEER, PEER_TIMEOUT_NANOS,
};

verus! {

/// The last `n` entries of `s` (all of `s` where it is shorter).
pub open spec fn keep_last<A>(s: Seq<A>, n: nat) -> Seq<A> {
    if s.len() > n {
        s.subrange(s.len() - n, s.len() as int)
    } else {
        s
    }
}

/// The entries that a batch of IDs sent at `now` adds to a history.
pub open spec fn stamped(ids: Seq<TxIdView>, now: u64) -> Seq<(TxIdView, u64)> {
    ids.map_values(|id: TxIdView| (id, now))
}

/// Appending to the bounded tail of a history gives the bounded tail of the
/// longer history.
pub proof fn lemma_push_keep_last<A>(t: Seq<A>, x: A)
    ensures
        push_bounded(keep_last(t, MAX_TXS_PER_PEER as nat), x) == keep_last(
            t.push(x),
            MAX_TXS_PER_PEER as nat,
        ),
{
    let m = MAX_TXS_PER_PEER as nat;
    assert(push_bounded(keep_last(t, m), x) =~= keep_last(t.push(x), m));
}

/// A peer's INV history holds exactly the most recent [`MAX_TXS_PER_PEER`]
/// INVs sent to it: the bound on memory drops only the oldest entries.
pub proof fn law_inv_history_keeps_most_recent(
    v: TrackerView,
    p: u64,
    ids: Seq<TxIdView>,
    now: u64,
)
    requires
        tracker_wf(v),
    ensures
        peer_or_fresh(after_track_invs(v, p, ids, now), p, now).invs == keep_last(
            peer_or_fresh(v, p, now).invs + stamped(ids, now),
            MAX_TXS_PER_PEER as nat,
        ),
    decreases ids.len(),
{
    let base = peer_or_fresh(v, p, now).invs;
    if ids.len() == 0 {
        assert(base + stamped(ids, now) =~= base);
    } else {
        let prev = ids.drop_last();
        law_inv_history_keeps_most_recent(v, p, prev, now);
        lemma_push_keep_last(base + stamped(prev, now), (ids.last(), now));
        assert((base + stamped(prev, now)).push((ids.last(), now)) =~= base + stamped(ids, now));
    }
}

/// A peer's GETDATA history holds exactly the most recent
/// [`MAX_TXS_PER_PEER`] GETDATAs sent to it.
pub proof fn law_getdata_history_keeps_most_recent(
    v: TrackerView,
    p: u64,
    ids: Seq<TxIdView>,
    now: u64,
)
    requires
        tracker_wf(v),
    ensures
        peer_or_fresh(after_track_getdatas(v, p, ids, now), p, now).getdata == keep_last(
            peer_or_fresh(v, p, now).getdata + stamped(ids, now),
            MAX_TXS_PER_PEER as nat,
        ),
    decreases ids.len(),
{
    let base = peer_or_fresh(v, p, now).getdata;
    if ids.len() == 0 {
        assert(base + stamped(ids, now) =~= base);
    } else {
        let prev = ids.drop_last();
        law_getdata_history_keeps_most_recent(v, p, prev, now);
        lemma_push_keep_last(base + stamped(prev, now), (ids.last(), now));
        assert((base + stamped(prev, now)).push((ids.last(), now)) =~= base + stamped(ids, now));
    }
}

proof fn lemma_pushed_is_held(s: Seq<(TxIdView, u64)>, id: TxIdView, t: u64)
    ensures
        history_has(push_bounded(s, (id, t)), id),
{
    let h = push_bounded(s, (id, t));
    assert(h[h.len() - 1].0 == id);
}

/// Adding an ID to a history within the bound keeps the history within the
/// bound, and the ID just added is always held.
pub proof fn law_pushed_id_is_kept(s: Seq<(TxIdView, u64)>, id: TxIdView, t: u64)
    requires
        s.len() <= MAX_TXS_PER_PEER,
    ensures
        push_bounded(s, (id, t)).len() <= MAX_TXS_PER_PEER,
        history_has(push_bounded(s, (id, t)), id),
{
    lemma_pushed_is_held(s, id, t);
}

/// A transaction we announced to a peer is classified as announced when the
/// peer then requests it by txid or wtxid, as long as the peer has not been
/// inactive for [`PEER_TIMEOUT_NANOS`] in between.
pub proof fn law_announced_after_inv(
    v: TrackerView,
    p: u64,
    id: TxIdView,
    sent: u64,
    txid: TxIdView,
    wtxid: TxIdView,
    now: u64,
)
    requires
        id == txid || id == wtxid,
        now < sent + PEER_TIMEOUT_NANOS,
    ensures
        process_status(after_track_inv(v, p, id, sent), p, txid, wtxid, false, now)
            == TxStatus::Announced,
{
    let s = peer_or_fresh(v, p, sent);
    lemma_pushed_is_held(s.invs, id, sent);
    let w = after_track_inv(v, p, id, sent);
    assert(after_process(w, p, now).peers[p].invs == w.peers[p].invs);
}

/// A transaction we requested from a peer is classified as solicited when the
/// peer then sends it, identified by txid or wtxid, as long as the peer has
/// not been inactive for [`PEER_TIMEOUT_NANOS`] in between.
pub proof fn law_solicited_after_getdata(
    v: TrackerView,
    p: u64,
    id: TxIdView,
    sent: u64,
    txid: TxIdView,
    wtxid: TxIdView,
    now: u64,
)
    requires
        id == txid || id == wtxid,
        now < sent + PEER_TIMEOUT_NANOS,
    ensures
        process_status(after_track_getdata(v, p, id, sent), p, txid, wtxid, true, now)
            == TxStatus::Solicited,
{
    let s = peer_or_fresh(v, p, sent);
    lemma_pushed_is_held(s.getdata, id, sent);
    let w = after_track_getdata(v, p, id, sent);
    assert(after_process(w, p, now).peers[p].getdata == w.peers[p].getdata);
}

/// With a peer we have no record of, every transaction it sends is
/// unsolicited and every transaction it requests is unannounced.
pub proof fn law_unknown_peer(
    v: TrackerView,
    p: u64,
    txid: TxIdView,
    wtxid: TxIdView,
    now: u64,
)
    requires
        !v.peers.contains_key(p),
    ensures
        process_status(v, p, txid, wtxid, true, now) == TxStatus::Unsolicited,
        process_status(v, p, txid, wtxid, false, now) == TxStatus::Unannounced,
{
}

/// The address registered for a peer is the address then reported for it,
/// and no other peer's state changes.
pub proof fn law_registered_address(v: TrackerView, p: u64, address: Seq<char>, now: u64)
    ensures
        after_register(v, p, address, now).peers.contains_key(p),
        after_register(v, p, address, now).peers[p].address == address,
        forall|q: u64|
            q != p ==> (#[trigger] after_register(v, p, address, now).peers.contains_key(q)
                == v.peers.contains_key(q) && (v.peers.contains_key(q) ==> after_register(
                v,
                p,
                address,
                now,
            ).peers[q] == v.peers[q])),
{
}

/// After a cleanup at `now`, processing a transaction cleans up again only
/// once more than [`CLEANUP_INTERVAL_NANOS`] have passed.
pub proof fn law_cleanup_pacing(v: TrackerView, now: u64, later: u64)
    requires
        now <= later <= now + CLEANUP_INTERVAL_NANOS,
    ensures
        after_maybe_cleanup(after_cleanup(v, now), later) == after_cleanup(v, now),
{
}

/// Removing a peer that was unknown before its INV was tracked leaves the
/// other peers exactly as they were.
pub proof fn law_remove_undoes_new_peer(v: TrackerView, p: u64, id: TxIdView, now: u64)
    requires
        !v.peers.contains_key(p),
    ensures
        after_track_inv(v, p, id, now).peers.remove(p) == v.peers,
{
    assert(after_track_inv(v, p, id, now).peers.remove(p) =~= v.peers);
}

/// A peer removed from the counters appears in no ranking of them.
pub proof fn law_removed_peer_not_ranked(s: Seq<(u64, u64)>, m: Map<u64, u64>, p: u64)
    requires
        is_ranking(s, m.remove(p)),
    ensures
        !ranks_peer(s, p),
{
    if ranks_peer(s, p) {
        let w = choose|x: int| 0 <= x < s.len() && #[trigger] s[x].0 == p;
        assert(m.remove(p).contains_key(s[w].0));
    }
}

/// After a metrics update at `now`, the next one is due exactly when the
/// update interval has passed again.
pub proof fn law_update_pacing(v: TopKView, now: u64, later: u64)
    requires
        now <= later,
    ensures
        update_due(TopKView { last_update: now, ..v }, later) == (later - now
            >= v.update_interval_secs * NANOS_PER_SEC),
{
}

/// Removing the first entry of a ranking, and its peer from the map, leaves a
/// ranking; so does removing any entry.
proof fn lemma_ranking_without(s: Seq<(u64, u64)>, m: Map<u64, u64>, j: int)
    requires
        is_ranking(s, m),
        0 <= j < s.len(),
    ensures
        is_ranking(s.remove(j), m.remove(s[j].0)),
{
    let t = s.remove(j);
    let m2 = m.remove(s[j].0);
    assert forall|a: int| 0 <= a < t.len() implies #[trigger] m2.contains_key(t[a].0) && m2[t[a].0]
        == t[a].1 by {
        if a < j {
            assert(s[a].0 != s[j].0);
            assert(m.contains_key(s[a].0));
        } else {
            assert(s[a + 1].0 != s[j].0);
            assert(m.contains_key(s[a + 1].0));
        }
    }
    assert forall|a: int, b: int| 0 <= a < b < t.len() implies #[trigger] t[a].0
        != #[trigger] t[b].0 by {
        let a2 = if a < j { a } else { a + 1 };
        let b2 = if b < j { b } else { b + 1 };
        assert(s[a2].0 != s[b2].0);
    }
    assert forall|a: int, b: int| 0 <= a < b < t.len() implies #[trigger] t[a].1
        >= #[trigger] t[b].1 by {
        let a2 = if a < j { a } else { a + 1 };
        let b2 = if b < j { b } else { b + 1 };
        assert(s[a2].1 >= s[b2].1);
    }
    assert forall|q: u64| #[trigger] m2.contains_key(q) implies ranks_peer(t, q) by {
        assert(m.contains_key(q));
        let w = choose|x: int| 0 <= x < s.len() && #[trigger] s[x].0 == q;
        if w < j {
            assert(t[w].0 == q);
        } else {
            assert(w != j);
            assert(t[w - 1].0 == q);
        }
    }
}

/// The first entry of a ranking has the highest count of the map.
proof fn lemma_ranking_first_is_max(s: Seq<(u64, u64)>, m: Map<u64, u64>, q: u64)
    requires
        is_ranking(s, m),
        m.contains_key(q),
    ensures
        s.len() > 0,
        s[0].1 >= m[q],
{
    let w = choose|x: int| 0 <= x < s.len() && #[trigger] s[x].0 == q;
    assert(m.contains_key(s[w].0));
    if w > 0 {
        assert(s[0].1 >= s[w].1);
    }
}

/// Any two rankings of the same counters list the same counts rank by rank,
/// so the published top-K values do not depend on how peers with equal
/// counts are ordered (which follows the hash map's iteration order).
pub proof fn law_ranked_counts_unique(s1: Seq<(u64, u64)>, s2: Seq<(u64, u64)>, m: Map<u64, u64>, k: nat)
    requires
        is_ranking(s1, m),
        is_ranking(s2, m),
    ensures
        s1.len() == s2.len(),
        forall|i: int| 0 <= i < s1.len() ==> #[trigger] s1[i].1 == s2[i].1,
        gauge_values(s1, k) == gauge_values(s2, k),
    decreases s1.len(),
{
    if s1.len() == 0 {
        if s2.len() > 0 {
            assert(m.contains_key(s2[0].0));
            lemma_ranking_first_is_max(s1, m, s2[0].0);
        }
    } else {
        let a = s1[0];
        assert(m.contains_key(a.0));
        let j = choose|x: int| 0 <= x < s2.len() && #[trigger] s2[x].0 == a.0;
        assert(m.contains_key(s2[j].0));
        assert(m.contains_key(s2[0].0));
        lemma_ranking_first_is_max(s1, m, s2[0].0);
        if j > 0 {
            assert(s2[0].1 >= s2[j].1);
        }
        lemma_ranking_without(s1, m, 0);
        lemma_ranking_without(s2, m, j);
        let t1 = s1.remove(0);
        let t2 = s2.remove(j);
        law_ranked_counts_unique(t1, t2, m.remove(a.0), k);
        assert forall|i: int| 0 <= i < s1.len() implies #[trigger] s1[i].1 == s2[i].1 by {
            if i == 0 {
            } else if i <= j {
                assert(s2[0].1 >= s2[i].1);
                assert(s2[i].1 >= s2[j].1);
                assert(t2[i - 1] == s2[i - 1]);
                assert(s2[0].1 >= s2[i - 1].1);
                assert(s2[i - 1].1 >= s2[j].1);
                assert(t1[i - 1] == s1[i]);
            } else {
                assert(t2[i - 1] == s2[i]);
                assert(t1[i - 1] == s1[i]);
            }
        }
    }
    assert(gauge_values(s1, k) =~= gauge_values(s2, k));
}

/// An INV sent to `p` changes nothing that can be observed of other peers,
/// nor the top-K counters; `p` becomes tracked, keeps its address (a new
/// peer has the empty one), and the number of tracked peers grows by one
/// exactly when `p` was not tracked. Transactions later received from `p`
/// are classified as before, except where the INV itself keeps `p` from
/// being dropped as inactive by the cleanup of that later call, or is
/// already [`PEER_TIMEOUT_NANOS`] old at it.
pub proof fn law_inv_frame(
    v: TrackerView,
    p: u64,
    id: TxIdView,
    sent: u64,
    q: u64,
    txid: TxIdView,
    wtxid: TxIdView,
    inbound: bool,
    now: u64,
)
    requires
        tracker_wf(v),
    ensures
        ({
            let w = after_track_inv(v, p, id, sent);
            &&& q != p ==> process_status(w, q, txid, wtxid, inbound, now) == process_status(
                v,
                q,
                txid,
                wtxid,
                inbound,
                now,
            )
            &&& (now < sent + PEER_TIMEOUT_NANOS && !(v.peers.contains_key(p) && cleanup_due(v, now)
                && !is_active(v.peers[p], now))) ==> process_status(w, p, txid, wtxid, true, now)
                == process_status(v, p, txid, wtxid, true, now)
            &&& w.peers.contains_key(p)
            &&& w.peers[p].address == (if v.peers.contains_key(p) {
                v.peers[p].address
            } else {
                Seq::empty()
            })
            &&& forall|r: u64|
                r != p ==> (#[trigger] w.peers.contains_key(r) == v.peers.contains_key(r) && (
                w.peers.contains_key(r) ==> w.peers[r] == v.peers[r]))
            &&& w.peers.len() == v.peers.len() + (if v.peers.contains_key(p) {
                0int
            } else {
                1int
            })
            &&& w.top_k == v.top_k
        }),
{
    let w = after_track_inv(v, p, id, sent);
    if q != p {
        assert(after_process(w, q, now).peers[q] == after_process(v, q, now).peers[q]);
    }
    if now < sent + PEER_TIMEOUT_NANOS && !(v.peers.contains_key(p) && cleanup_due(v, now)
        && !is_active(v.peers[p], now)) {
        assert(after_process(w, p, now).peers[p].getdata == after_process(v, p, now).peers[
            p
        ].getdata);
    }
    assert(w.peers.dom() == v.peers.dom().insert(p));
}

/// A GETDATA sent to `p` changes nothing that can be observed of other
/// peers, nor the top-K counters; `p` becomes tracked, keeps its address,
/// and the number of tracked peers grows by one exactly when `p` was not
/// tracked. Requests for transactions from `p` are classified as before,
/// with the same exceptions as for an INV (see [`law_inv_frame`]).
pub proof fn law_getdata_frame(
    v: TrackerView,
    p: u64,
    id: TxIdView,
    sent: u64,
    q: u64,
    txid: TxIdView,
    wtxid: TxIdView,
    inbound: bool,
    now: u64,
)
    requires
        tracker_wf(v),
    ensures
        ({
            let w = after_track_getdata(v, p, id, sent);
            &&& q != p ==> process_status(w, q, txid, wtxid, inbound, now) == process_status(
                v,
                q,
                txid,
                wtxid,
                inbound,
                now,
            )
            &&& (now < sent + PEER_TIMEOUT_NANOS && !(v.peers.contains_key(p) && cleanup_due(v, now)
                && !is_active(v.peers[p], now))) ==> process_status(w, p, txid, wtxid, false, now)
                == process_status(v, p, txid, wtxid, false, now)
            &&& w.peers.contains_key(p)
            &&& w.peers[p].address == (if v.peers.contains_key(p) {
                v.peers[p].address
            } else {
                Seq::empty()
            })
            &&& forall|r: u64|
                r != p ==> (#[trigger] w.peers.contains_key(r) == v.peers.contains_key(r) && (
                w.peers.contains_key(r) ==> w.peers[r] == v.peers[r]))
            &&& w.peers.len() == v.peers.len() + (if v.peers.contains_key(p) {
                0int
            } else {
                1int
            })
            &&& w.top_k == v.top_k
        }),
{
    let w = after_track_getdata(v, p, id, sent);
    if q != p {
        assert(after_process(w, q, now).peers[q] == after_process(v, q, now).peers[q]);
    }
    if now < sent + PEER_TIMEOUT_NANOS && !(v.peers.contains_key(p) && cleanup_due(v, now)
        && !is_active(v.peers[p], now)) {
        assert(after_process(w, p, now).peers[p].invs == after_process(v, p, now).peers[p].invs);
    }
    assert(w.peers.dom() == v.peers.dom().insert(p));
}

/// Removing a peer: it is no longer tracked, reports no address, has no
/// history left (whatever it sends is unsolicited, whatever it requests is
/// unannounced), the number of tracked peers drops by one exactly when it
/// was tracked, and no other peer changes.
pub proof fn law_remove_peer(
    v: TrackerView,
    p: u64,
    txid: TxIdView,
    wtxid: TxIdView,
    now: u64,
)
    requires
        tracker_wf(v),
    ensures
        ({
            let w = after_remove_peer(v, p);
            &&& !w.peers.contains_key(p)
            &&& w.peers.len() == v.peers.len() - (if v.peers.contains_key(p) {
                1int
            } else {
                0int
            })
            &&& process_status(w, p, txid, wtxid, true, now) == TxStatus::Unsolicited
            &&& process_status(w, p, txid, wtxid, false, now) == TxStatus::Unannounced
            &&& forall|r: u64|
                r != p ==> (#[trigger] w.peers.contains_key(r) == v.peers.contains_key(r) && (
                w.peers.contains_key(r) ==> w.peers[r] == v.peers[r]))
        }),
{
    let w = after_remove_peer(v, p);
    law_unknown_peer(w, p, txid, wtxid, now);
}

/// Every rank `1..=k` gets a published value: the count ranked there as an
/// `i64` where that many peers are ranked, and 0 for the ranks beyond.
pub proof fn law_gauge_per_rank(s: Seq<(u64, u64)>, k: nat)
    ensures
        gauge_values(s, k).len() == k,
        forall|r: int| 0 <= r < k && r < s.len() ==> #[trigger] gauge_values(s, k)[r] == s[r].1 as i64,
        forall|r: int| 0 <= r < k && r >= s.len() ==> #[trigger] gauge_values(s, k)[r] == 0i64,
{
}

/// Recording raises the peer's count by exactly one (a peer not yet counted
/// gets 1) and leaves every other peer's count as it was.
pub proof fn law_bump_adds_one(m: Map<u64, u64>, p: u64)
    requires
        !m.contains_key(p) || m[p] < u64::MAX,
    ensures
        bump(m, p).contains_key(p),
        bump(m, p)[p] == (if m.contains_key(p) { m[p] as int } else { 0int }) + 1,
        forall|q: u64|
            q != p ==> (#[trigger] bump(m, p).contains_key(q) == m.contains_key(q) && (
            m.contains_key(q) ==> bump(m, p)[q] == m[q])),
{
}

/// A cleanup at `now` keeps exactly the peers whose last message is less
/// than [`PEER_TIMEOUT_NANOS`] old, unchanged, whatever their histories hold.
pub proof fn law_cleanup_keeps_recent(v: TrackerView, now: u64)
    ensures
        forall|p: u64| #[trigger]
            after_cleanup(v, now).peers.contains_key(p) == (v.peers.contains_key(p)
                && v.peers[p].last_message_time + PEER_TIMEOUT_NANOS > now),
        forall|p: u64| #[trigger]
            after_cleanup(v, now).peers.contains_key(p) ==> after_cleanup(v, now).peers[p]
                == v.peers[p],
        after_cleanup(v, now).last_cleanup == now,
        after_cleanup(v, now).top_k == v.top_k,
{
}

/// Processing a transaction with `p` at `now` records activity: `p` is then
/// tracked with last message time `now`, so a later cleanup less than
/// [`PEER_TIMEOUT_NANOS`] after `now` keeps it. Its histories and address are
/// those it had, unless the cleanup that processing runs dropped it, in
/// which case they are empty.
pub proof fn law_process_records_activity(v: TrackerView, p: u64, now: u64, later: u64)
    requires
        later < now + PEER_TIMEOUT_NANOS,
    ensures
        after_process(v, p, now).peers.contains_key(p),
        after_process(v, p, now).peers[p].last_message_time == now,
        after_cleanup(after_process(v, p, now), later).peers.contains_key(p),
        (v.peers.contains_key(p) && !(cleanup_due(v, now) && v.peers[p].last_message_time
            + PEER_TIMEOUT_NANOS <= now)) ==> {
            &&& after_process(v, p, now).peers[p].invs == v.peers[p].invs
            &&& after_process(v, p, now).peers[p].getdata == v.peers[p].getdata
            &&& after_process(v, p, now).peers[p].address == v.peers[p].address
        },
        !(v.peers.contains_key(p) && !(cleanup_due(v, now) && v.peers[p].last_message_time
            + PEER_TIMEOUT_NANOS <= now)) ==> {
            &&& after_process(v, p, now).peers[p].invs.len() == 0
            &&& after_process(v, p, now).peers[p].getdata.len() == 0
            &&& after_process(v, p, now).peers[p].address.len() == 0
        },
{
}

/// Which transaction ID an inventory entry refers to: an MSG_TX entry is the
/// txid with exactly its bytes, MSG_WTX and MSG_WITNESS_TX entries are the
/// wtxid with exactly their bytes, and any other entry refers to none.
pub proof fn law_inventory_entry_ids(item: InventoryItem)
    ensures
        item.item matches Some(InventoryItemKind::Transaction(h)) ==> inventory_id(item) == Some(
            TxIdView::Txid(h@),
        ),
        item.item matches Some(InventoryItemKind::Wtx(h)) ==> inventory_id(item) == Some(
            TxIdView::Wtxid(h@),
        ),
        item.item matches Some(InventoryItemKind::WitnessTransaction(h)) ==> inventory_id(item)
            == Some(TxIdView::Wtxid(h@)),
        (item.item is None || item.item == Some(InventoryItemKind::Other)) ==> inventory_id(
            item,
        ) is None,
{
}

/// The IDs of a message are those of its entries, in order: there are at
/// most as many as entries, and each entry that refers to an ID contributes
/// it.
proof fn lemma_inventory_ids_hold(items: Seq<InventoryItem>, i: int)
    requires
        0 <= i < items.len(),
        inventory_id(items[i]) is Some,
    ensures
        inventory_ids(items).contains(inventory_id(items[i])->0),
        inventory_ids(items).len() <= items.len(),
    decreases items.len(),
{
    let prev = items.drop_last();
    let ids = inventory_ids(items);
    if i < items.len() - 1 {
        assert(prev[i] == items[i]);
        lemma_inventory_ids_hold(prev, i);
        let w = choose|x: int| 0 <= x < inventory_ids(prev).len() && inventory_ids(prev)[x]
            == inventory_id(items[i])->0;
        assert(ids[w] == inventory_id(items[i])->0);
    } else {
        lemma_inventory_ids_len(prev);
        assert(ids[ids.len() - 1] == inventory_id(items[i])->0);
    }
}

proof fn lemma_inventory_ids_len(items: Seq<InventoryItem>)
    ensures
        inventory_ids(items).len() <= items.len(),
    decreases items.len(),
{
    if items.len() > 0 {
        lemma_inventory_ids_len(items.drop_last());
    }
}

/// After an INV message of at most [`MAX_TXS_PER_PEER`] entries was sent to
/// `p`, a request from `p` for any transaction that one of its entries
/// names is classified as announced, as long as `p` has not been inactive
/// for [`PEER_TIMEOUT_NANOS`] since.
pub proof fn law_inv_message_announces(
    v: TrackerView,
    p: u64,
    items: Seq<InventoryItem>,
    i: int,
    sent: u64,
    other: TxIdView,
    now: u64,
)
    requires
        tracker_wf(v),
        0 <= i < items.len(),
        items.len() <= MAX_TXS_PER_PEER,
        inventory_id(items[i]) is Some,
        now < sent + PEER_TIMEOUT_NANOS,
    ensures
        process_status(
            after_track_invs(v, p, inventory_ids(items), sent),
            p,
            inventory_id(items[i])->0,
            other,
            false,
            now,
        ) == TxStatus::Announced,
        process_status(
            after_track_invs(v, p, inventory_ids(items), sent),
            p,
            other,
            inventory_id(items[i])->0,
            false,
            now,
        ) == TxStatus::Announced,
{
    let id = inventory_id(items[i])->0;
    let ids = inventory_ids(items);
    lemma_inventory_ids_hold(items, i);
    lemma_tracked_time(v, p, ids, sent);
    law_inv_history_keeps_most_recent(v, p, ids, sent);
    let w = after_track_invs(v, p, ids, sent);
    let base = peer_or_fresh(v, p, sent).invs;
    let all = base + stamped(ids, sent);
    let j = choose|x: int| 0 <= x < ids.len() && ids[x] == id;
    assert(all[base.len() + j] == (id, sent));
    let h = keep_last(all, MAX_TXS_PER_PEER as nat);
    if all.len() > MAX_TXS_PER_PEER {
        let k = base.len() + j - (all.len() - MAX_TXS_PER_PEER);
        assert(h[k] == all[base.len() + j]);
        assert(h[k].0 == id);
        assert(history_has(h, id));
    } else {
        assert(h[base.len() + j] == (id, sent));
        assert(h[base.len() + j].0 == id);
        assert(history_has(h, id));
    }
    assert(w.peers.contains_key(p));
    assert(after_process(w, p, now).peers[p].invs == w.peers[p].invs);
}

/// Processing at `now` cleans up exactly when the clock reads more than
/// [`CLEANUP_INTERVAL_NANOS`] past the last cleanup.
pub proof fn law_cleanup_due_when(v: TrackerView, now: u64)
    ensures
        cleanup_due(v, now) == (now >= v.last_cleanup && now - v.last_cleanup
            > CLEANUP_INTERVAL_NANOS),
        cleanup_due(v, now) ==> after_maybe_cleanup(v, now) == after_cleanup(v, now),
        !cleanup_due(v, now) ==> after_maybe_cleanup(v, now) == v,
{
}

/// The entries of `notable_upto(s, addrs, n)`: one per rank `r + 1 <= n`
/// whose peer is ranked and has a known address, in rank order.
proof fn lemma_notable_upto(s: Seq<(u64, u64)>, addrs: Map<u64, Seq<char>>, n: nat)
    ensures
        notable_upto(s, addrs, n).len() <= n,
        forall|j: int| 0 <= j < notable_upto(s, addrs, n).len() ==> {
            let e = #[trigger] notable_upto(s, addrs, n)[j];
            &&& 1 <= e.rank <= n
            &&& e.rank - 1 < s.len()
            &&& addrs.contains_key(s[e.rank - 1].0)
            &&& e == NotableView {
                rank: e.rank,
                peer_id: s[e.rank - 1].0,
                address: addrs[s[e.rank - 1].0],
                count: s[e.rank - 1].1,
            }
        },
        forall|a: int, b: int|
            0 <= a < b < notable_upto(s, addrs, n).len() ==> #[trigger] notable_upto(
                s,
                addrs,
                n,
            )[a].rank < #[trigger] notable_upto(s, addrs, n)[b].rank,
        forall|r: int|
            0 <= r < n && r < s.len() && #[trigger] addrs.contains_key(s[r].0) ==> exists|j: int|
                0 <= j < notable_upto(s, addrs, n).len() && #[trigger] notable_upto(
                    s,
                    addrs,
                    n,
                )[j].rank == r + 1,
    decreases n,
{
    if n > 0 {
        let m = (n - 1) as nat;
        lemma_notable_upto(s, addrs, m);
        let prev = notable_upto(s, addrs, m);
        let cur = notable_upto(s, addrs, n);
        assert forall|r: int|
            0 <= r < n && r < s.len() && #[trigger] addrs.contains_key(s[r].0) implies exists|j: int|
            0 <= j < cur.len() && #[trigger] cur[j].rank == r + 1 by {
            if r < m {
                let j = choose|j: int| 0 <= j < prev.len() && #[trigger] prev[j].rank == r + 1;
                assert(cur[j] == prev[j]);
            } else {
                assert(cur[cur.len() - 1].rank == r + 1);
            }
        }
    }
}

/// The peers logged with a ranking are exactly those at ranks `1..=min(k, 3)`
/// whose address is known, each with its rank, address and count, in rank
/// order.
pub proof fn law_notable_peers(s: Seq<(u64, u64)>, addrs: Map<u64, Seq<char>>, k: nat)
    ensures
        notable_peers(s, addrs, k).len() <= 3,
        forall|j: int| 0 <= j < notable_peers(s, addrs, k).len() ==> {
            let e = #[trigger] notable_peers(s, addrs, k)[j];
            &&& 1 <= e.rank <= 3 && e.rank <= k
            &&& e.rank - 1 < s.len()
            &&& addrs.contains_key(s[e.rank - 1].0)
            &&& e.peer_id == s[e.rank - 1].0
            &&& e.address == addrs[s[e.rank - 1].0]
            &&& e.count == s[e.rank - 1].1
        },
        forall|a: int, b: int|
            0 <= a < b < notable_peers(s, addrs, k).len() ==> #[trigger] notable_peers(
                s,
                addrs,
                k,
            )[a].rank < #[trigger] notable_peers(s, addrs, k)[b].rank,
        forall|r: int|
            0 <= r < 3 && r < k && r < s.len() && #[trigger] addrs.contains_key(s[r].0) ==> exists|
                j: int,
            |
                0 <= j < notable_peers(s, addrs, k).len() && #[trigger] notable_peers(
                    s,
                    addrs,
                    k,
                )[j].rank == r + 1,
{
    let n = if k < 3 {
        k
    } else {
        3nat
    };
    lemma_notable_upto(s, addrs, n);
    assert(notable_peers(s, addrs, k) == notable_upto(s, addrs, n));
}

} // verus!
