//! Per-peer violation counters with bounded-cardinality (top-K) reporting.

use std::collections::{HashMap, HashSet};
use vstd::prelude::*;

use crate::clock::Clock;
use crate::map_ops::retain_keys_in;
use crate::ranking::{
    address_view, gauge_values, gauges_for, is_ranking, notable_for, notable_peers, rank_by_count,
    NotablePeer,
};

verus! {

broadcast use vstd::std_specs::hash::group_hash_axioms;

/// Nanoseconds in one second.
pub const NANOS_PER_SEC: u64 = 1_000_000_000;

/// The model of a [`TopKTracker`].
pub struct TopKView {
    /// peer_id -> number of unsolicited transactions
    pub unsolicited: Map<u64, u64>,
    /// peer_id -> number of unannounced transaction requests
    pub unannounced: Map<u64, u64>,
    /// peer_id -> address, for logging
    pub addresses: Map<u64, Seq<char>>,
    /// Top-K size
    pub k: usize,
    /// Clock reading (nanoseconds) of the last metrics update
    pub last_update: u64,
    /// How often metrics are published, in seconds
    pub update_interval_secs: u64,
}

/// `m` with the count of `peer` raised by one (a peer not yet counted gets 1).
pub open spec fn bump(m: Map<u64, u64>, peer: u64) -> Map<u64, u64> {
    m.insert(peer, if m.contains_key(peer) { (m[peer] + 1) as u64 } else { 1u64 })
}

/// The count of `peer` in `m`, 0 where it has none.
pub open spec fn count_of(m: Map<u64, u64>, peer: u64) -> u64 {
    if m.contains_key(peer) {
        m[peer]
    } else {
        0
    }
}

/// Whether `bump(m, peer)` stays within `u64`.
pub open spec fn can_bump(m: Map<u64, u64>, peer: u64) -> bool {
    count_of(m, peer) < u64::MAX
}

/// Time elapsed from `since` to `now`, zero where the clock reads earlier.
pub open spec fn elapsed_since(since: u64, now: u64) -> nat {
    if now >= since {
        (now - since) as nat
    } else {
        0
    }
}

/// Whether, at `now`, a metrics update is due.
pub open spec fn update_due(v: TopKView, now: u64) -> bool {
    elapsed_since(v.last_update, now) >= v.update_interval_secs * NANOS_PER_SEC
}

/// What a top-K metric publishes for one counter.
pub struct RankingReport {
    /// Every counted peer, highest count first
    pub ranking: Vec<(u64, u64)>,
    /// The value for each rank `1..=k`
    pub gauges: Vec<i64>,
    /// The peers at ranks `1..=min(k, 3)` whose address is known
    pub notable: Vec<NotablePeer>,
}

/// Both rankings that a metrics update publishes.
pub struct TopKReport {
    pub unsolicited: RankingReport,
    pub unannounced: RankingReport,
}

/// `r` is what the top-K metric publishes for `counts`.
pub open spec fn reports(
    r: RankingReport,
    counts: Map<u64, u64>,
    addrs: Map<u64, Seq<char>>,
    k: usize,
) -> bool {
    &&& is_ranking(r.ranking@, counts)
    &&& r.gauges@ == gauge_values(r.ranking@, k as nat)
    &&& r.notable@.map_values(|p: NotablePeer| p@) == notable_peers(r.ranking@, addrs, k as nat)
}

/// `r` is what a metrics update publishes for a tracker in state `v`.
pub open spec fn reports_top_k(r: TopKReport, v: TopKView) -> bool {
    &&& reports(r.unsolicited, v.unsolicited, v.addresses, v.k)
    &&& reports(r.unannounced, v.unannounced, v.addresses, v.k)
}

/// Builds what the top-K metric publishes for one counter.
fn ranking_report(counts: &HashMap<u64, u64>, addresses: &HashMap<u64, String>, k: usize) -> (r:
    RankingReport)
    ensures
        reports(r, counts@, address_view(addresses@), k),
{
    let ranking = rank_by_count(counts);
    let gauges = gauges_for(&ranking, k);
    let notable = notable_for(&ranking, addresses, k);
    RankingReport { ranking, gauges, notable }
}

/// Top-K tracker for managing bounded-cardinality metrics.
#[derive(Debug)]
pub struct TopKTracker {
    /// Separate counters for each violation type (independent rankings)
    unsolicited_counts: HashMap<u64, u64>,
    unannounced_counts: HashMap<u64, u64>,
    /// Peer metadata for logging
    peer_addresses: HashMap<u64, String>,
    /// Top-K size
    k: usize,
    /// Time source for update pacing
    clock: Clock,
    last_update: u64,
    update_interval_secs: u64,
}

impl View for TopKTracker {
    type V = TopKView;

    closed spec fn view(&self) -> TopKView {
        TopKView {
            unsolicited: self.unsolicited_counts@,
            unannounced: self.unannounced_counts@,
            addresses: address_view(self.peer_addresses@),
            k: self.k,
            last_update: self.last_update,
            update_interval_secs: self.update_interval_secs,
        }
    }
}

impl TopKTracker {
    pub fn new(k: usize, update_interval_secs: u64) -> (t: Self)
        ensures
            t@ == (TopKView {
                unsolicited: Map::empty(),
                unannounced: Map::empty(),
                addresses: Map::empty(),
                k,
                last_update: 0,
                update_interval_secs,
            }),
    {
        let t = TopKTracker {
            unsolicited_counts: HashMap::new(),
            unannounced_counts: HashMap::new(),
            peer_addresses: HashMap::new(),
            k,
            clock: Clock::start(),
            last_update: 0,
            update_interval_secs,
        };
        assert(address_view(t.peer_addresses@) =~= Map::empty());
        t
    }

    /// The number of unsolicited transactions counted for `peer_id`.
    pub fn unsolicited_count(&self, peer_id: u64) -> (c: u64)
        ensures
            c == count_of(self@.unsolicited, peer_id),
    {
        match self.unsolicited_counts.get(&peer_id) {
            Some(c) => *c,
            None => 0,
        }
    }

    /// The number of unannounced transaction requests counted for `peer_id`.
    pub fn unannounced_count(&self, peer_id: u64) -> (c: u64)
        ensures
            c == count_of(self@.unannounced, peer_id),
    {
        match self.unannounced_counts.get(&peer_id) {
            Some(c) => *c,
            None => 0,
        }
    }

    /// Record an unsolicited transaction from a peer
    pub fn record_unsolicited(&mut self, peer_id: u64, peer_addr: String)
        requires
            can_bump(old(self)@.unsolicited, peer_id),
        ensures
            final(self)@ == (TopKView {
                unsolicited: bump(old(self)@.unsolicited, peer_id),
                addresses: old(self)@.addresses.insert(peer_id, peer_addr@),
                ..old(self)@
            }),
    {
        let c = self.unsolicited_count(peer_id);
        self.unsolicited_counts.insert(peer_id, c + 1);
        self.peer_addresses.insert(peer_id, peer_addr);
        assert(address_view(self.peer_addresses@) =~= address_view(
            old(self).peer_addresses@,
        ).insert(peer_id, peer_addr@));
        assert(self.unsolicited_counts@ =~= bump(old(self)@.unsolicited, peer_id));
    }

    /// Record an unannounced transaction request from a peer
    pub fn record_unannounced(&mut self, peer_id: u64, peer_addr: String)
        requires
            can_bump(old(self)@.unannounced, peer_id),
        ensures
            final(self)@ == (TopKView {
                unannounced: bump(old(self)@.unannounced, peer_id),
                addresses: old(self)@.addresses.insert(peer_id, peer_addr@),
                ..old(self)@
            }),
    {
        let c = self.unannounced_count(peer_id);
        self.unannounced_counts.insert(peer_id, c + 1);
        self.peer_addresses.insert(peer_id, peer_addr);
        assert(address_view(self.peer_addresses@) =~= address_view(
            old(self).peer_addresses@,
        ).insert(peer_id, peer_addr@));
        assert(self.unannounced_counts@ =~= bump(old(self)@.unannounced, peer_id));
    }

    /// What a metrics update publishes now: both rankings with their top-K values.
    pub fn top_k_report(&self) -> (r: TopKReport)
        ensures
            reports_top_k(r, self@),
    {
        TopKReport {
            unsolicited: ranking_report(&self.unsolicited_counts, &self.peer_addresses, self.k),
            unannounced: ranking_report(&self.unannounced_counts, &self.peer_addresses, self.k),
        }
    }

    /// At clock reading `now`: if an update is due, returns what to publish
    /// and records `now` as the time of the last update; otherwise returns
    /// `None` and changes nothing.
    pub fn maybe_update_metrics_at(&mut self, now: u64) -> (r: Option<TopKReport>)
        ensures
            update_due(old(self)@, now) ==> r is Some && reports_top_k(r->0, old(self)@)
                && final(self)@ == (TopKView { last_update: now, ..old(self)@ }),
            !update_due(old(self)@, now) ==> r is None && final(self)@ == old(self)@,
    {
        let elapsed: u64 = if now >= self.last_update {
            now - self.last_update
        } else {
            0
        };
        if (elapsed as u128) >= (self.update_interval_secs as u128) * (NANOS_PER_SEC as u128) {
            let report = self.top_k_report();
            self.last_update = now;
            Some(report)
        } else {
            None
        }
    }

    /// Update metrics if enough time has passed: returns what to publish
    /// when an update is due at the clock reading of the call, which then
    /// becomes the time of the last update. With a zero interval an update
    /// is always due; otherwise the outcome depends on the time of the call.
    pub fn maybe_update_metrics(&mut self) -> (r: Option<TopKReport>)
        ensures
            r is Some ==> reports_top_k(r->0, old(self)@) && final(self)@ == (TopKView {
                last_update: final(self)@.last_update,
                ..old(self)@
            }),
            r is Some ==> update_due(old(self)@, final(self)@.last_update),
            r is None ==> final(self)@ == old(self)@,
            old(self)@.update_interval_secs == 0 ==> r is Some,
    {
        let now = self.clock.now_nanos();
        self.maybe_update_metrics_at(now)
    }

    /// Remove a peer from tracking (called when peer disconnects)
    pub fn remove_peer(&mut self, peer_id: u64)
        ensures
            final(self)@ == (TopKView {
                unsolicited: old(self)@.unsolicited.remove(peer_id),
                unannounced: old(self)@.unannounced.remove(peer_id),
                addresses: old(self)@.addresses.remove(peer_id),
                ..old(self)@
            }),
    {
        self.unsolicited_counts.remove(&peer_id);
        self.unannounced_counts.remove(&peer_id);
        self.peer_addresses.remove(&peer_id);
        assert(address_view(self.peer_addresses@) =~= address_view(
            old(self).peer_addresses@,
        ).remove(peer_id));
    }

    /// Cleanup stale peers: keep only the peers in `active_peers`.
    pub fn cleanup_stale_peers(&mut self, active_peers: &HashSet<u64>)
        ensures
            final(self)@ == (TopKView {
                unsolicited: old(self)@.unsolicited.restrict(active_peers@),
                unannounced: old(self)@.unannounced.restrict(active_peers@),
                addresses: old(self)@.addresses.restrict(active_peers@),
                ..old(self)@
            }),
    {
        retain_keys_in(&mut self.unsolicited_counts, active_peers);
        retain_keys_in(&mut self.unannounced_counts, active_peers);
        retain_keys_in(&mut self.peer_addresses, active_peers);
        assert(address_view(self.peer_addresses@) =~= address_view(
            old(self).peer_addresses@,
        ).restrict(active_peers@));
    }
}

} // verus!
