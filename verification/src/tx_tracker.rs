//! Tracks, per peer, which transactions we announced (INV) and requested
//! (GETDATA), and classifies transactions exchanged with that peer.

use std::collections::{HashMap, VecDeque};
use vstd::prelude::*;

use crate::clock::Clock;
use crate::map_ops::keys_of;
use crate::messages::{clone_bytes, InventoryItem, InventoryItemKind, Tx};
use crate::top_k::{can_bump, elapsed_since, TopKReport, TopKTracker, TopKView};

verus! {

broadcast use vstd::std_specs::hash::group_hash_axioms;

/// Maximum number of transaction IDs to track per peer to prevent memory overflow.
pub const MAX_TXS_PER_PEER: usize = 1000;

/// Transaction ID type - can be either txid or wtxid.
#[derive(Debug, Clone, PartialEq, Eq, Hash)]
pub enum TxId {
    Txid(Vec<u8>),
    Wtxid(Vec<u8>),
}

/// The mathematical value of a [`TxId`]: its kind and its bytes.
pub enum TxIdView {
    Txid(Seq<u8>),
    Wtxid(Seq<u8>),
}

impl View for TxId {
    type V = TxIdView;

    open spec fn view(&self) -> TxIdView {
        match self {
            TxId::Txid(b) => TxIdView::Txid(b@),
            TxId::Wtxid(b) => TxIdView::Wtxid(b@),
        }
    }
}

/// Byte-wise equality of two byte strings.
fn bytes_equal(a: &Vec<u8>, b: &Vec<u8>) -> (r: bool)
    ensures
        r == (a@ == b@),
{
    if a.len() != b.len() {
        return false;
    }
    let mut i: usize = 0;
    while i < a.len()
        invariant
            a.len() == b.len(),
            i <= a.len(),
            forall|j: int| 0 <= j < i ==> a@[j] == b@[j],
        decreases a.len() - i,
    {
        if a[i] != b[i] {
            return false;
        }
        i += 1;
    }
    assert(a@ =~= b@);
    true
}

impl TxId {
    pub fn from_txid(txid: Vec<u8>) -> (id: Self)
        ensures
            id@ == TxIdView::Txid(txid@),
    {
        TxId::Txid(txid)
    }

    pub fn from_wtxid(wtxid: Vec<u8>) -> (id: Self)
        ensures
            id@ == TxIdView::Wtxid(wtxid@),
    {
        TxId::Wtxid(wtxid)
    }

    /// Whether two IDs are of the same kind and hold the same bytes.
    pub fn same_as(&self, other: &TxId) -> (r: bool)
        ensures
            r == (self@ == other@),
    {
        match self {
            TxId::Txid(a) => match other {
                TxId::Txid(b) => bytes_equal(a, b),
                TxId::Wtxid(_) => false,
            },
            TxId::Wtxid(a) => match other {
                TxId::Txid(_) => false,
                TxId::Wtxid(b) => bytes_equal(a, b),
            },
        }
    }
}

/// Transaction status after processing.
#[derive(Debug, PartialEq, Eq)]
pub enum TxStatus {
    /// Transaction was requested via GETDATA
    Solicited,
    /// Transaction was announced via INV
    Announced,
    /// Transaction received without prior GETDATA request
    Unsolicited,
    /// Transaction requested without prior INV announcement
    Unannounced,
}

/// A bounded history: `x` appended, and the oldest entry dropped when the
/// history would exceed [`MAX_TXS_PER_PEER`] entries.
pub open spec fn push_bounded<A>(s: Seq<A>, x: A) -> Seq<A> {
    let p = s.push(x);
    if p.len() > MAX_TXS_PER_PEER {
        p.drop_first()
    } else {
        p
    }
}

/// Whether a history holds an entry for `id`.
pub open spec fn history_has(h: Seq<(TxIdView, u64)>, id: TxIdView) -> bool {
    exists|i: int| 0 <= i < h.len() && #[trigger] h[i].0 == id
}

/// The model of one peer's tracking state.
pub struct PeerView {
    pub address: Seq<char>,
    /// INVs we sent, oldest first, each with the time it was recorded.
    pub invs: Seq<(TxIdView, u64)>,
    /// GETDATAs we sent, oldest first, each with the time it was recorded.
    pub getdata: Seq<(TxIdView, u64)>,
    pub last_message_time: u64,
}

/// The state of a peer seen for the first time at `now`.
pub open spec fn fresh_peer(address: Seq<char>, now: u64) -> PeerView {
    PeerView { address, invs: Seq::empty(), getdata: Seq::empty(), last_message_time: now }
}

/// Per-peer transaction tracking state.
#[derive(Debug)]
struct PeerTxState {
    /// Peer's IP address for metrics labeling
    address: String,
    /// Recent INVs we sent to this peer
    recent_invs: VecDeque<(TxId, u64)>,
    /// Recent GETDATAs we sent to this peer
    recent_getdata: VecDeque<(TxId, u64)>,
    /// Last message time for cleanup purposes
    last_message_time: u64,
}

pub open spec fn history_view(h: Seq<(TxId, u64)>) -> Seq<(TxIdView, u64)> {
    h.map_values(|e: (TxId, u64)| (e.0@, e.1))
}

impl View for PeerTxState {
    type V = PeerView;

    closed spec fn view(&self) -> PeerView {
        PeerView {
            address: self.address@,
            invs: history_view(self.recent_invs@),
            getdata: history_view(self.recent_getdata@),
            last_message_time: self.last_message_time,
        }
    }
}

/// Both histories are within the per-peer bound.
pub open spec fn peer_wf(p: PeerView) -> bool {
    p.invs.len() <= MAX_TXS_PER_PEER && p.getdata.len() <= MAX_TXS_PER_PEER
}

impl PeerTxState {
    fn new(address: String, now: u64) -> (s: Self)
        ensures
            s@ == fresh_peer(address@, now),
    {
        let s = PeerTxState {
            address,
            recent_invs: VecDeque::new(),
            recent_getdata: VecDeque::new(),
            last_message_time: now,
        };
        assert(history_view(s.recent_invs@) =~= Seq::empty());
        assert(history_view(s.recent_getdata@) =~= Seq::empty());
        s
    }

    /// Add a transaction ID to the INV list
    fn add_inv(&mut self, txid: TxId, now: u64)
        requires
            peer_wf(old(self)@),
        ensures
            final(self)@ == (PeerView {
                invs: push_bounded(old(self)@.invs, (txid@, now)),
                last_message_time: now,
                ..old(self)@
            }),
            peer_wf(final(self)@),
    {
        let ghost id = txid@;
        self.recent_invs.push_back((txid, now));
        self.last_message_time = now;
        assert(history_view(self.recent_invs@) =~= history_view(old(self).recent_invs@).push((id, now)));
        // Limit list size
        if self.recent_invs.len() > MAX_TXS_PER_PEER {
            let ghost before = self.recent_invs@;
            self.recent_invs.pop_front();
            assert(history_view(self.recent_invs@) =~= history_view(before).drop_first());
        }
    }

    /// Add a transaction ID to the GETDATA list
    fn add_getdata(&mut self, txid: TxId, now: u64)
        requires
            peer_wf(old(self)@),
        ensures
            final(self)@ == (PeerView {
                getdata: push_bounded(old(self)@.getdata, (txid@, now)),
                last_message_time: now,
                ..old(self)@
            }),
            peer_wf(final(self)@),
    {
        let ghost id = txid@;
        self.recent_getdata.push_back((txid, now));
        self.last_message_time = now;
        assert(history_view(self.recent_getdata@) =~= history_view(old(self).recent_getdata@).push((id, now)));
        // Limit list size
        if self.recent_getdata.len() > MAX_TXS_PER_PEER {
            let ghost before = self.recent_getdata@;
            self.recent_getdata.pop_front();
            assert(history_view(self.recent_getdata@) =~= history_view(before).drop_first());
        }
    }

    /// Check if we announced this transaction to the peer
    fn was_announced(&self, txid: &TxId) -> (r: bool)
        ensures
            r == history_has(self@.invs, txid@),
    {
        let mut i: usize = 0;
        while i < self.recent_invs.len()
            invariant
                i <= self.recent_invs@.len(),
                forall|j: int| 0 <= j < i ==> self.recent_invs@[j].0@ != txid@,
            decreases self.recent_invs@.len() - i,
        {
            if self.recent_invs[i].0.same_as(txid) {
                assert(history_view(self.recent_invs@)[i as int].0 == txid@);
                return true;
            }
            i += 1;
        }
        false
    }

    /// Check if we requested this transaction from the peer
    fn was_requested(&self, txid: &TxId) -> (r: bool)
        ensures
            r == history_has(self@.getdata, txid@),
    {
        let mut i: usize = 0;
        while i < self.recent_getdata.len()
            invariant
                i <= self.recent_getdata@.len(),
                forall|j: int| 0 <= j < i ==> self.recent_getdata@[j].0@ != txid@,
            decreases self.recent_getdata@.len() - i,
        {
            if self.recent_getdata[i].0.same_as(txid) {
                assert(history_view(self.recent_getdata@)[i as int].0 == txid@);
                return true;
            }
            i += 1;
        }
        false
    }
}

/// Interval for cleaning up old data: 5 minutes, in nanoseconds.
pub const CLEANUP_INTERVAL_NANOS: u64 = 300_000_000_000;

/// Maximum time to keep inactive peer data: 30 minutes, in nanoseconds.
pub const PEER_TIMEOUT_NANOS: u64 = 1_800_000_000_000;

/// Size of the top-K rankings kept by a [`TxRelayTracker`].
pub const TOP_K: usize = 10;

/// Seconds between two top-K metric updates of a [`TxRelayTracker`].
pub const TOP_K_UPDATE_SECS: u64 = 30;

/// The model of a [`TxRelayTracker`].
pub struct TrackerView {
    /// Per-peer tracking state
    pub peers: Map<u64, PeerView>,
    /// Top-K tracker for bounded cardinality metrics
    pub top_k: TopKView,
    /// Clock reading (nanoseconds) of the last cleanup
    pub last_cleanup: u64,
}

/// Every peer's histories are within the per-peer bound.
pub open spec fn tracker_wf(v: TrackerView) -> bool {
    &&& v.peers.dom().finite()
    &&& forall|p: u64| #[trigger] v.peers.contains_key(p) ==> peer_wf(v.peers[p])
}

/// The state of peer `p`, or the state of a peer first seen at `now`.
pub open spec fn peer_or_fresh(v: TrackerView, p: u64, now: u64) -> PeerView {
    if v.peers.contains_key(p) {
        v.peers[p]
    } else {
        fresh_peer(Seq::empty(), now)
    }
}

/// After an INV for `id` was sent to `p` at `now`.
pub open spec fn after_track_inv(v: TrackerView, p: u64, id: TxIdView, now: u64) -> TrackerView {
    let s = peer_or_fresh(v, p, now);
    TrackerView {
        peers: v.peers.insert(
            p,
            PeerView { invs: push_bounded(s.invs, (id, now)), last_message_time: now, ..s },
        ),
        ..v
    }
}

/// After a GETDATA for `id` was sent to `p` at `now`.
pub open spec fn after_track_getdata(v: TrackerView, p: u64, id: TxIdView, now: u64) -> TrackerView {
    let s = peer_or_fresh(v, p, now);
    TrackerView {
        peers: v.peers.insert(
            p,
            PeerView { getdata: push_bounded(s.getdata, (id, now)), last_message_time: now, ..s },
        ),
        ..v
    }
}

/// A peer is kept at `now` while its last message is less than
/// [`PEER_TIMEOUT_NANOS`] old.
pub open spec fn is_active(s: PeerView, now: u64) -> bool {
    s.last_message_time + PEER_TIMEOUT_NANOS > now
}

/// After a cleanup at `now`: inactive peers are gone.
pub open spec fn after_cleanup(v: TrackerView, now: u64) -> TrackerView {
    TrackerView {
        peers: Map::new(
            |p: u64| v.peers.contains_key(p) && is_active(v.peers[p], now),
            |p: u64| v.peers[p],
        ),
        last_cleanup: now,
        ..v
    }
}

/// Whether, at `now`, a cleanup is due.
pub open spec fn cleanup_due(v: TrackerView, now: u64) -> bool {
    elapsed_since(v.last_cleanup, now) > CLEANUP_INTERVAL_NANOS
}

/// A cleanup at `now` where one is due.
pub open spec fn after_maybe_cleanup(v: TrackerView, now: u64) -> TrackerView {
    if cleanup_due(v, now) {
        after_cleanup(v, now)
    } else {
        v
    }
}

/// How a transaction exchanged with a peer in state `s` is classified.
pub open spec fn status_of(s: PeerView, txid: TxIdView, wtxid: TxIdView, inbound: bool) -> TxStatus {
    if inbound {
        if history_has(s.getdata, txid) || history_has(s.getdata, wtxid) {
            TxStatus::Solicited
        } else {
            TxStatus::Unsolicited
        }
    } else {
        if history_has(s.invs, txid) || history_has(s.invs, wtxid) {
            TxStatus::Announced
        } else {
            TxStatus::Unannounced
        }
    }
}

/// The state after a transaction with `p` is processed at `now`.
pub open spec fn after_process(v: TrackerView, p: u64, now: u64) -> TrackerView {
    let c = after_maybe_cleanup(v, now);
    let s = peer_or_fresh(c, p, now);
    TrackerView { peers: c.peers.insert(p, PeerView { last_message_time: now, ..s }), ..c }
}

/// The classification of a transaction with `p` processed at `now`.
pub open spec fn process_status(
    v: TrackerView,
    p: u64,
    txid: TxIdView,
    wtxid: TxIdView,
    inbound: bool,
    now: u64,
) -> TxStatus {
    status_of(after_process(v, p, now).peers[p], txid, wtxid, inbound)
}

/// After the address of `p` was registered at `now`.
pub open spec fn after_register(v: TrackerView, p: u64, address: Seq<char>, now: u64) -> TrackerView {
    TrackerView {
        peers: v.peers.insert(
            p,
            if v.peers.contains_key(p) {
                PeerView { address, ..v.peers[p] }
            } else {
                fresh_peer(address, now)
            },
        ),
        ..v
    }
}

/// After a peer was removed: its state and its top-K counters are gone.
pub open spec fn after_remove_peer(v: TrackerView, p: u64) -> TrackerView {
    TrackerView {
        peers: v.peers.remove(p),
        top_k: TopKView {
            unsolicited: v.top_k.unsolicited.remove(p),
            unannounced: v.top_k.unannounced.remove(p),
            addresses: v.top_k.addresses.remove(p),
            ..v.top_k
        },
        ..v
    }
}

/// After an unsolicited transaction from `p`, at `address`, was counted.
pub open spec fn after_record_unsolicited(v: TrackerView, p: u64, address: Seq<char>) -> TrackerView {
    TrackerView {
        top_k: TopKView {
            unsolicited: crate::top_k::bump(v.top_k.unsolicited, p),
            addresses: v.top_k.addresses.insert(p, address),
            ..v.top_k
        },
        ..v
    }
}

/// After an unannounced transaction request from `p`, at `address`, was counted.
pub open spec fn after_record_unannounced(v: TrackerView, p: u64, address: Seq<char>) -> TrackerView {
    TrackerView {
        top_k: TopKView {
            unannounced: crate::top_k::bump(v.top_k.unannounced, p),
            addresses: v.top_k.addresses.insert(p, address),
            ..v.top_k
        },
        ..v
    }
}

/// The transaction ID an inventory entry refers to, if it refers to one.
pub open spec fn inventory_id(item: InventoryItem) -> Option<TxIdView> {
    match item.item {
        Some(InventoryItemKind::Wtx(h)) => Some(TxIdView::Wtxid(h@)),
        Some(InventoryItemKind::Transaction(h)) => Some(TxIdView::Txid(h@)),
        Some(InventoryItemKind::WitnessTransaction(h)) => Some(TxIdView::Wtxid(h@)),
        _ => None,
    }
}

/// The transaction IDs that `items` refer to, in order.
pub open spec fn inventory_ids(items: Seq<InventoryItem>) -> Seq<TxIdView>
    decreases items.len(),
{
    if items.len() == 0 {
        Seq::empty()
    } else {
        let prev = inventory_ids(items.drop_last());
        match inventory_id(items.last()) {
            Some(id) => prev.push(id),
            None => prev,
        }
    }
}

/// After INVs for each of `ids`, in order, were sent to `p` at `now`.
pub open spec fn after_track_invs(v: TrackerView, p: u64, ids: Seq<TxIdView>, now: u64) -> TrackerView
    decreases ids.len(),
{
    if ids.len() == 0 {
        v
    } else {
        after_track_inv(after_track_invs(v, p, ids.drop_last(), now), p, ids.last(), now)
    }
}

/// After GETDATAs for each of `ids`, in order, were sent to `p` at `now`.
pub open spec fn after_track_getdatas(v: TrackerView, p: u64, ids: Seq<TxIdView>, now: u64) -> TrackerView
    decreases ids.len(),
{
    if ids.len() == 0 {
        v
    } else {
        after_track_getdata(after_track_getdatas(v, p, ids.drop_last(), now), p, ids.last(), now)
    }
}

/// After INVs or GETDATAs for at least one ID, the peer's last message time
/// is the time they were sent.
pub proof fn lemma_tracked_time(v: TrackerView, p: u64, ids: Seq<TxIdView>, now: u64)
    requires
        ids.len() > 0,
    ensures
        after_track_invs(v, p, ids, now).peers[p].last_message_time == now,
        after_track_getdatas(v, p, ids, now).peers[p].last_message_time == now,
{
}

/// Per-peer state, top-K counters and cleanup pacing.
#[derive(Debug)]
struct TxRelayTrackerInner {
    /// Per-peer tracking state
    peer_states: HashMap<u64, PeerTxState>,
    /// Top-K tracker for bounded cardinality metrics
    top_k_tracker: TopKTracker,
    /// Last cleanup time
    last_cleanup: u64,
}

spec fn peers_view(m: Map<u64, PeerTxState>) -> Map<u64, PeerView> {
    m.map_values(|s: PeerTxState| s@)
}

impl View for TxRelayTrackerInner {
    type V = TrackerView;

    closed spec fn view(&self) -> TrackerView {
        TrackerView {
            peers: peers_view(self.peer_states@),
            top_k: self.top_k_tracker@,
            last_cleanup: self.last_cleanup,
        }
    }
}

impl TxRelayTrackerInner {
    /// Force cleanup of old data
    fn cleanup_old_data(&mut self, now: u64)
        requires
            tracker_wf(old(self)@),
        ensures
            final(self)@ == after_cleanup(old(self)@, now),
            tracker_wf(final(self)@),
    {
        let keys = keys_of(&self.peer_states);
        let ghost old_states = self.peer_states@;
        let mut i: usize = 0;
        // Remove peers that haven't had activity recently
        while i < keys.len()
            invariant
                i <= keys@.len(),
                self.top_k_tracker == old(self).top_k_tracker,
                keys@.to_set() == old_states.dom(),
                keys@.no_duplicates(),
                forall|k: u64| #[trigger] self.peer_states@.contains_key(k) <==> (
                    old_states.contains_key(k) && (is_active(old_states[k]@, now)
                        || !keys@.take(i as int).contains(k))),
                forall|k: u64| #[trigger] self.peer_states@.contains_key(k) ==> self.peer_states@[k]
                    == old_states[k],
            decreases keys@.len() - i,
        {
            let k = keys[i];
            proof {
                assert(keys@.to_set().contains(k));
            }
            let stale = match self.peer_states.get(&k) {
                Some(state) => state.last_message_time as u128 + PEER_TIMEOUT_NANOS as u128
                    <= now as u128,
                None => false,
            };
            if stale {
                self.peer_states.remove(&k);
            }
            proof {
                let before = keys@.take(i as int);
                let after = keys@.take(i + 1);
                assert(after =~= before.push(k));
                assert forall|j: u64| #[trigger] after.contains(j) == (before.contains(j) || j == k) by {
                    if before.contains(j) {
                        let w = choose|x: int| 0 <= x < before.len() && before[x] == j;
                        assert(after[w] == j);
                    }
                    if after.contains(j) && j != k {
                        let w = choose|x: int| 0 <= x < after.len() && after[x] == j;
                        assert(before[w] == j);
                    }
                    if j == k {
                        assert(after[i as int] == j);
                    }
                }
            }
            i += 1;
        }
        self.last_cleanup = now;
        proof {
            assert(keys@.take(keys@.len() as int) =~= keys@);
            assert forall|k: u64| old_states.contains_key(k) implies keys@.contains(k) by {
                assert(keys@.to_set().contains(k));
            }
            assert(peers_view(self.peer_states@) =~= after_cleanup(old(self)@, now).peers);
            assert(peers_view(self.peer_states@).dom() =~= self.peer_states@.dom());
        }
    }

    /// Clean up old data if enough time has passed
    fn maybe_cleanup(&mut self, now: u64)
        requires
            tracker_wf(old(self)@),
        ensures
            final(self)@ == after_maybe_cleanup(old(self)@, now),
            tracker_wf(final(self)@),
    {
        if now >= self.last_cleanup && now - self.last_cleanup > CLEANUP_INTERVAL_NANOS {
            self.cleanup_old_data(now);
        }
    }
}

/// The state of a tracker that has seen nothing yet.
pub open spec fn initial_tracker() -> TrackerView {
    TrackerView {
        peers: Map::empty(),
        top_k: TopKView {
            unsolicited: Map::empty(),
            unannounced: Map::empty(),
            addresses: Map::empty(),
            k: TOP_K,
            last_update: 0,
            update_interval_secs: TOP_K_UPDATE_SECS,
        },
        last_cleanup: 0,
    }
}

/// Main transaction tracker. Times are readings of the tracker's own clock,
/// in nanoseconds since the tracker was created.
#[derive(Debug)]
pub struct TxRelayTracker {
    inner: TxRelayTrackerInner,
    clock: Clock,
}

impl View for TxRelayTracker {
    type V = TrackerView;

    closed spec fn view(&self) -> TrackerView {
        self.inner@
    }
}

impl TxRelayTracker {
    pub fn new() -> (t: Self)
        ensures
            t@ == initial_tracker(),
            tracker_wf(t@),
    {
        let t = TxRelayTracker {
            inner: TxRelayTrackerInner {
                peer_states: HashMap::new(),
                top_k_tracker: TopKTracker::new(TOP_K, TOP_K_UPDATE_SECS),
                last_cleanup: 0,
            },
            clock: Clock::start(),
        };
        assert(t@.peers =~= Map::empty());
        t
    }

    /// The state of `peer_id`, taken out of the map, or a fresh one.
    fn take_peer(&mut self, peer_id: u64, now: u64) -> (s: PeerTxState)
        requires
            tracker_wf(old(self)@),
        ensures
            s@ == peer_or_fresh(old(self)@, peer_id, now),
            peer_wf(s@),
            final(self)@ == (TrackerView { peers: old(self)@.peers.remove(peer_id), ..old(self)@ }),
            tracker_wf(final(self)@),
            final(self).clock == old(self).clock,
    {
        let taken = self.inner.peer_states.remove(&peer_id);
        proof {
            assert(peers_view(self.inner.peer_states@) =~= old(self)@.peers.remove(peer_id));
        }
        match taken {
            Some(s) => s,
            None => PeerTxState::new(String::new(), now),
        }
    }

    /// Puts the state of `peer_id` back into the map.
    fn put_peer(&mut self, peer_id: u64, s: PeerTxState)
        requires
            tracker_wf(old(self)@),
            peer_wf(s@),
        ensures
            final(self)@ == (TrackerView { peers: old(self)@.peers.insert(peer_id, s@), ..old(self)@ }),
            tracker_wf(final(self)@),
            final(self).clock == old(self).clock,
    {
        let ghost sv = s@;
        self.inner.peer_states.insert(peer_id, s);
        proof {
            assert(peers_view(self.inner.peer_states@) =~= old(self)@.peers.insert(peer_id, sv));
        }
    }

    /// Track, at clock reading `now`, an INV message we sent to a peer.
    pub fn track_inv_at(&mut self, peer_id: u64, txid: TxId, now: u64)
        requires
            tracker_wf(old(self)@),
        ensures
            final(self)@ == after_track_inv(old(self)@, peer_id, txid@, now),
            tracker_wf(final(self)@),
    {
        let mut state = self.take_peer(peer_id, now);
        state.add_inv(txid, now);
        self.put_peer(peer_id, state);
        assert(self@.peers =~= after_track_inv(old(self)@, peer_id, txid@, now).peers);
    }

    /// Track an INV message we sent to a peer; the time recorded is the
    /// clock reading at the call.
    pub fn track_inv(&mut self, peer_id: u64, txid: TxId)
        requires
            tracker_wf(old(self)@),
        ensures
            final(self)@ == after_track_inv(
                old(self)@,
                peer_id,
                txid@,
                final(self)@.peers[peer_id].last_message_time,
            ),
            tracker_wf(final(self)@),
    {
        let now = self.clock.now_nanos();
        self.track_inv_at(peer_id, txid, now);
    }

    /// Track, at clock reading `now`, a GETDATA message we sent to a peer.
    pub fn track_getdata_at(&mut self, peer_id: u64, txid: TxId, now: u64)
        requires
            tracker_wf(old(self)@),
        ensures
            final(self)@ == after_track_getdata(old(self)@, peer_id, txid@, now),
            tracker_wf(final(self)@),
    {
        let mut state = self.take_peer(peer_id, now);
        state.add_getdata(txid, now);
        self.put_peer(peer_id, state);
        assert(self@.peers =~= after_track_getdata(old(self)@, peer_id, txid@, now).peers);
    }

    /// Track a GETDATA message we sent to a peer; the time recorded is the
    /// clock reading at the call.
    pub fn track_getdata(&mut self, peer_id: u64, txid: TxId)
        requires
            tracker_wf(old(self)@),
        ensures
            final(self)@ == after_track_getdata(
                old(self)@,
                peer_id,
                txid@,
                final(self)@.peers[peer_id].last_message_time,
            ),
            tracker_wf(final(self)@),
    {
        let now = self.clock.now_nanos();
        self.track_getdata_at(peer_id, txid, now);
    }

    /// Process, at clock reading `now`, a transaction exchanged with a peer
    /// and determine its status: `inbound` for a transaction the peer sent
    /// us, otherwise a request for a transaction from the peer.
    pub fn process_transaction_at(
        &mut self,
        peer_id: u64,
        txid: TxId,
        wtxid: TxId,
        inbound: bool,
        now: u64,
    ) -> (status: Option<TxStatus>)
        requires
            tracker_wf(old(self)@),
        ensures
            final(self)@ == after_process(old(self)@, peer_id, now),
            status == Some(process_status(old(self)@, peer_id, txid@, wtxid@, inbound, now)),
            tracker_wf(final(self)@),
    {
        // Perform cleanup if needed
        self.inner.maybe_cleanup(now);
        let mut state = self.take_peer(peer_id, now);
        state.last_message_time = now;
        let status = if inbound {
            // Transaction received from peer:
            // check if we requested it (either by txid or wtxid)
            if state.was_requested(&txid) || state.was_requested(&wtxid) {
                TxStatus::Solicited
            } else {
                TxStatus::Unsolicited
            }
        } else {
            // Transaction request from peer:
            // check if we announced it (either by txid or wtxid)
            if state.was_announced(&txid) || state.was_announced(&wtxid) {
                TxStatus::Announced
            } else {
                TxStatus::Unannounced
            }
        };
        self.put_peer(peer_id, state);
        assert(self@.peers =~= after_process(old(self)@, peer_id, now).peers);
        Some(status)
    }

    /// Process a transaction exchanged with a peer and determine its status;
    /// the time recorded is the clock reading at the call.
    pub fn process_transaction(
        &mut self,
        peer_id: u64,
        txid: TxId,
        wtxid: TxId,
        inbound: bool,
    ) -> (status: Option<TxStatus>)
        requires
            tracker_wf(old(self)@),
        ensures
            ({
                let now = final(self)@.peers[peer_id].last_message_time;
                &&& final(self)@ == after_process(old(self)@, peer_id, now)
                &&& status == Some(process_status(old(self)@, peer_id, txid@, wtxid@, inbound, now))
            }),
            tracker_wf(final(self)@),
    {
        let now = self.clock.now_nanos();
        self.process_transaction_at(peer_id, txid, wtxid, inbound, now)
    }

    /// Register, at clock reading `now`, a peer's address for metrics labeling.
    pub fn register_peer_address_at(&mut self, peer_id: u64, address: String, now: u64)
        requires
            tracker_wf(old(self)@),
        ensures
            final(self)@ == after_register(old(self)@, peer_id, address@, now),
            tracker_wf(final(self)@),
    {
        let ghost addr = address@;
        let mut state = match self.inner.peer_states.remove(&peer_id) {
            Some(s) => s,
            None => PeerTxState::new(address.clone(), now),
        };
        proof {
            assert(peers_view(self.inner.peer_states@) =~= old(self)@.peers.remove(peer_id));
        }
        state.address = address;
        self.put_peer(peer_id, state);
        assert(self@.peers =~= after_register(old(self)@, peer_id, addr, now).peers);
    }

    /// Register peer address for metrics labeling. A peer seen for the first
    /// time is recorded with the clock reading at the call.
    pub fn register_peer_address(&mut self, peer_id: u64, address: String)
        requires
            tracker_wf(old(self)@),
        ensures
            final(self)@ == after_register(
                old(self)@,
                peer_id,
                address@,
                final(self)@.peers[peer_id].last_message_time,
            ),
            tracker_wf(final(self)@),
    {
        let now = self.clock.now_nanos();
        self.register_peer_address_at(peer_id, address, now);
    }

    /// Get peer address for metrics labeling
    pub fn get_peer_address(&self, peer_id: u64) -> (address: Option<String>)
        ensures
            match address {
                Some(a) => self@.peers.contains_key(peer_id) && a@ == self@.peers[peer_id].address,
                None => !self@.peers.contains_key(peer_id),
            },
    {
        match self.inner.peer_states.get(&peer_id) {
            Some(state) => Some(state.address.clone()),
            None => None,
        }
    }

    /// Remove a disconnected peer from tracking
    pub fn remove_peer(&mut self, peer_id: u64)
        requires
            tracker_wf(old(self)@),
        ensures
            final(self)@ == after_remove_peer(old(self)@, peer_id),
            tracker_wf(final(self)@),
    {
        self.inner.peer_states.remove(&peer_id);
        self.inner.top_k_tracker.remove_peer(peer_id);
        assert(self@.peers =~= old(self)@.peers.remove(peer_id));
    }

    /// Get the number of tracked peers
    pub fn tracked_peers_count(&self) -> (n: usize)
        ensures
            n == self@.peers.len(),
    {
        proof {
            assert(self@.peers.dom() =~= self.inner.peer_states@.dom());
        }
        self.inner.peer_states.len()
    }

    /// The top-K tracker, for inspection.
    pub fn top_k_tracker(&self) -> (t: &TopKTracker)
        ensures
            t@ == self@.top_k,
    {
        &self.inner.top_k_tracker
    }

    /// Record an unsolicited transaction for top-K tracking
    pub fn record_unsolicited_tx(&mut self, peer_id: u64, peer_addr: String)
        requires
            tracker_wf(old(self)@),
            can_bump(old(self)@.top_k.unsolicited, peer_id),
        ensures
            final(self)@ == after_record_unsolicited(old(self)@, peer_id, peer_addr@),
            tracker_wf(final(self)@),
    {
        self.inner.top_k_tracker.record_unsolicited(peer_id, peer_addr);
    }

    /// Record an unannounced transaction for top-K tracking
    pub fn record_unannounced_tx(&mut self, peer_id: u64, peer_addr: String)
        requires
            tracker_wf(old(self)@),
            can_bump(old(self)@.top_k.unannounced, peer_id),
        ensures
            final(self)@ == after_record_unannounced(old(self)@, peer_id, peer_addr@),
            tracker_wf(final(self)@),
    {
        self.inner.top_k_tracker.record_unannounced(peer_id, peer_addr);
    }

    /// Update top-K metrics if enough time has passed: returns what to
    /// publish when an update is due at the clock reading of the call, which
    /// then becomes the time of the last update. With a zero interval an
    /// update is always due; otherwise the outcome depends on the time of the
    /// call.
    pub fn update_top_k_metrics(&mut self) -> (r: Option<TopKReport>)
        requires
            tracker_wf(old(self)@),
        ensures
            r is Some ==> crate::top_k::reports_top_k(r->0, old(self)@.top_k) && final(self)@
                == (TrackerView {
                top_k: TopKView { last_update: final(self)@.top_k.last_update, ..old(self)@.top_k },
                ..old(self)@
            }),
            r is Some ==> crate::top_k::update_due(old(self)@.top_k, final(self)@.top_k.last_update),
            r is None ==> final(self)@ == old(self)@,
            old(self)@.top_k.update_interval_secs == 0 ==> r is Some,
            tracker_wf(final(self)@),
    {
        let r = self.inner.top_k_tracker.maybe_update_metrics();
        assert(self@.peers == old(self)@.peers);
        r
    }

    /// Force cleanup of old data at clock reading `now`.
    pub fn cleanup_old_data_at(&mut self, now: u64)
        requires
            tracker_wf(old(self)@),
        ensures
            final(self)@ == after_cleanup(old(self)@, now),
            tracker_wf(final(self)@),
    {
        self.inner.cleanup_old_data(now);
    }

    /// Force cleanup of old data, at the clock reading of the call.
    pub fn cleanup_old_data(&mut self)
        requires
            tracker_wf(old(self)@),
        ensures
            final(self)@ == after_cleanup(old(self)@, final(self)@.last_cleanup),
            tracker_wf(final(self)@),
    {
        let now = self.clock.now_nanos();
        self.inner.cleanup_old_data(now);
    }

    /// The transaction ID an inventory entry refers to, if any.
    fn inventory_txid(item: &InventoryItem) -> (id: Option<TxId>)
        ensures
            match id {
                Some(t) => inventory_id(*item) == Some(t@),
                None => inventory_id(*item) is None,
            },
    {
        match &item.item {
            Some(InventoryItemKind::Wtx(wtx_hash)) => Some(TxId::from_wtxid(clone_bytes(wtx_hash))),
            Some(InventoryItemKind::Transaction(tx_hash)) => Some(
                TxId::from_txid(clone_bytes(tx_hash)),
            ),
            Some(InventoryItemKind::WitnessTransaction(wtx_hash)) => Some(
                TxId::from_wtxid(clone_bytes(wtx_hash)),
            ),
            _ => None,
        }
    }

    /// Handle, at clock reading `now`, an INV message we sent to a peer:
    /// every transaction entry is tracked as announced, in order.
    pub fn handle_inv_message_at(&mut self, peer_id: u64, inv_items: &[InventoryItem], now: u64)
        requires
            tracker_wf(old(self)@),
        ensures
            final(self)@ == after_track_invs(old(self)@, peer_id, inventory_ids(inv_items@), now),
            tracker_wf(final(self)@),
    {
        let mut i: usize = 0;
        while i < inv_items.len()
            invariant
                i <= inv_items@.len(),
                tracker_wf(self@),
                self@ == after_track_invs(
                    old(self)@,
                    peer_id,
                    inventory_ids(inv_items@.take(i as int)),
                    now,
                ),
            decreases inv_items@.len() - i,
        {
            let ghost prev_ids = inventory_ids(inv_items@.take(i as int));
            proof {
                assert(inv_items@.take(i + 1).drop_last() =~= inv_items@.take(i as int));
            }
            match Self::inventory_txid(&inv_items[i]) {
                Some(txid) => {
                    let ghost id = txid@;
                    self.track_inv_at(peer_id, txid, now);
                    proof {
                        assert(prev_ids.push(id).drop_last() =~= prev_ids);
                    }
                },
                None => {},
            }
            i += 1;
        }
        proof {
            assert(inv_items@.take(inv_items@.len() as int) =~= inv_items@);
        }
    }

    /// Handle an INV message we sent to a peer, at the clock reading of the call.
    pub fn handle_inv_message(&mut self, peer_id: u64, inv_items: &[InventoryItem])
        requires
            tracker_wf(old(self)@),
        ensures
            inventory_ids(inv_items@).len() == 0 ==> final(self)@ == old(self)@,
            inventory_ids(inv_items@).len() > 0 ==> final(self)@ == after_track_invs(
                old(self)@,
                peer_id,
                inventory_ids(inv_items@),
                final(self)@.peers[peer_id].last_message_time,
            ),
            tracker_wf(final(self)@),
    {
        let now = self.clock.now_nanos();
        proof {
            if inventory_ids(inv_items@).len() > 0 {
                lemma_tracked_time(old(self)@, peer_id, inventory_ids(inv_items@), now);
            }
        }
        self.handle_inv_message_at(peer_id, inv_items, now);
    }

    /// Handle, at clock reading `now`, a GETDATA message we sent to a peer:
    /// every transaction entry is tracked as requested, in order.
    pub fn handle_getdata_message_at(
        &mut self,
        peer_id: u64,
        getdata_items: &[InventoryItem],
        now: u64,
    )
        requires
            tracker_wf(old(self)@),
        ensures
            final(self)@ == after_track_getdatas(
                old(self)@,
                peer_id,
                inventory_ids(getdata_items@),
                now,
            ),
            tracker_wf(final(self)@),
    {
        let mut i: usize = 0;
        while i < getdata_items.len()
            invariant
                i <= getdata_items@.len(),
                tracker_wf(self@),
                self@ == after_track_getdatas(
                    old(self)@,
                    peer_id,
                    inventory_ids(getdata_items@.take(i as int)),
                    now,
                ),
            decreases getdata_items@.len() - i,
        {
            let ghost prev_ids = inventory_ids(getdata_items@.take(i as int));
            proof {
                assert(getdata_items@.take(i + 1).drop_last() =~= getdata_items@.take(i as int));
            }
            match Self::inventory_txid(&getdata_items[i]) {
                Some(txid) => {
                    let ghost id = txid@;
                    self.track_getdata_at(peer_id, txid, now);
                    proof {
                        assert(prev_ids.push(id).drop_last() =~= prev_ids);
                    }
                },
                None => {},
            }
            i += 1;
        }
        proof {
            assert(getdata_items@.take(getdata_items@.len() as int) =~= getdata_items@);
        }
    }

    /// Handle a GETDATA message we sent to a peer, at the clock reading of the call.
    pub fn handle_getdata_message(&mut self, peer_id: u64, getdata_items: &[InventoryItem])
        requires
            tracker_wf(old(self)@),
        ensures
            inventory_ids(getdata_items@).len() == 0 ==> final(self)@ == old(self)@,
            inventory_ids(getdata_items@).len() > 0 ==> final(self)@ == after_track_getdatas(
                old(self)@,
                peer_id,
                inventory_ids(getdata_items@),
                final(self)@.peers[peer_id].last_message_time,
            ),
            tracker_wf(final(self)@),
    {
        let now = self.clock.now_nanos();
        proof {
            if inventory_ids(getdata_items@).len() > 0 {
                lemma_tracked_time(old(self)@, peer_id, inventory_ids(getdata_items@), now);
            }
        }
        self.handle_getdata_message_at(peer_id, getdata_items, now);
    }

    /// Handle a TX message and return its status, at clock reading `now`.
    pub fn handle_tx_message_at(
        &mut self,
        peer_id: u64,
        tx: &Tx,
        inbound: bool,
        now: u64,
    ) -> (status: Option<TxStatus>)
        requires
            tracker_wf(old(self)@),
        ensures
            final(self)@ == after_process(old(self)@, peer_id, now),
            status == Some(
                process_status(
                    old(self)@,
                    peer_id,
                    TxIdView::Txid(tx.tx.txid@),
                    TxIdView::Wtxid(tx.tx.wtxid@),
                    inbound,
                    now,
                ),
            ),
            tracker_wf(final(self)@),
    {
        let txid = TxId::from_txid(clone_bytes(&tx.tx.txid));
        let wtxid = TxId::from_wtxid(clone_bytes(&tx.tx.wtxid));
        self.process_transaction_at(peer_id, txid, wtxid, inbound, now)
    }

    /// Handle a TX message and return its status, at the clock reading of the call.
    pub fn handle_tx_message(
        &mut self,
        peer_id: u64,
        tx: &Tx,
        inbound: bool,
    ) -> (status: Option<TxStatus>)
        requires
            tracker_wf(old(self)@),
        ensures
            ({
                let now = final(self)@.peers[peer_id].last_message_time;
                &&& final(self)@ == after_process(old(self)@, peer_id, now)
                &&& status == Some(
                    process_status(
                        old(self)@,
                        peer_id,
                        TxIdView::Txid(tx.tx.txid@),
                        TxIdView::Wtxid(tx.tx.wtxid@),
                        inbound,
                        now,
                    ),
                )
            }),
            tracker_wf(final(self)@),
    {
        let txid = TxId::from_txid(clone_bytes(&tx.tx.txid));
        let wtxid = TxId::from_wtxid(clone_bytes(&tx.tx.wtxid));
        self.process_transaction(peer_id, txid, wtxid, inbound)
    }
}

} // verus!
