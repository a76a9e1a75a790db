//! Ranking of per-peer counters, highest count first, and the values that a
//! top-K metric publishes from such a ranking.

use std::collections::HashMap;
use vstd::prelude::*;

use crate::map_ops::keys_of;

verus! {

broadcast use vstd::std_specs::hash::group_hash_axioms;

/// Each entry of `s` is a (peer, count) pair of `m`.
pub open spec fn entries_of(s: Seq<(u64, u64)>, m: Map<u64, u64>) -> bool {
    forall|a: int| 0 <= a < s.len() ==> #[trigger] m.contains_key(s[a].0) && m[s[a].0] == s[a].1
}

/// No peer occurs twice in `s`.
pub open spec fn distinct_peers(s: Seq<(u64, u64)>) -> bool {
    forall|a: int, b: int| 0 <= a < b < s.len() ==> #[trigger] s[a].0 != #[trigger] s[b].0
}

/// Whether `s` holds an entry for peer `p`.
pub open spec fn ranks_peer(s: Seq<(u64, u64)>, p: u64) -> bool {
    exists|a: int| 0 <= a < s.len() && #[trigger] s[a].0 == p
}

/// Counts never increase along `s`.
pub open spec fn by_count_desc(s: Seq<(u64, u64)>) -> bool {
    forall|a: int, b: int| 0 <= a < b < s.len() ==> #[trigger] s[a].1 >= #[trigger] s[b].1
}

/// `s` lists every entry of `m` exactly once, highest count first. Peers with
/// equal counts may come in any order.
pub open spec fn is_ranking(s: Seq<(u64, u64)>, m: Map<u64, u64>) -> bool {
    &&& entries_of(s, m)
    &&& distinct_peers(s)
    &&& forall|p: u64| #[trigger] m.contains_key(p) ==> ranks_peer(s, p)
    &&& by_count_desc(s)
}

/// Lists the entries of `counts` by count, highest first; peers with equal
/// counts keep the order in which the map yields them.
pub fn rank_by_count(counts: &HashMap<u64, u64>) -> (ranking: Vec<(u64, u64)>)
    ensures
        is_ranking(ranking@, counts@),
        ranking@.len() == counts@.dom().len(),
{
    let keys = keys_of(counts);
    let mut ranking: Vec<(u64, u64)> = Vec::new();
    let mut i: usize = 0;
    while i < keys.len()
        invariant
            i <= keys@.len(),
            keys@.to_set() == counts@.dom(),
            keys@.no_duplicates(),
            ranking@.len() == i,
            entries_of(ranking@, counts@),
            distinct_peers(ranking@),
            by_count_desc(ranking@),
            forall|a: int| 0 <= a < ranking@.len() ==> keys@.take(i as int).contains(#[trigger] ranking@[a].0),
            forall|p: u64| #[trigger] keys@.take(i as int).contains(p) ==> ranks_peer(ranking@, p),
        decreases keys@.len() - i,
    {
        let k = keys[i];
        proof {
            assert(keys@.to_set().contains(k));
        }
        let c = *counts.get(&k).unwrap();
        let mut j: usize = 0;
        while j < ranking.len() && ranking[j].1 >= c
            invariant
                j <= ranking@.len(),
                forall|a: int| 0 <= a < j ==> #[trigger] ranking@[a].1 >= c,
            decreases ranking@.len() - j,
        {
            j += 1;
        }
        let ghost before = ranking@;
        let ghost seen = keys@.take(i as int);
        ranking.insert(j, (k, c));
        proof {
            let after = ranking@;
            let seen2 = keys@.take(i + 1);
            assert(seen2 =~= seen.push(k));
            assert(!seen.contains(k)) by {
                if seen.contains(k) {
                    let w = choose|x: int| 0 <= x < seen.len() && seen[x] == k;
                    assert(keys@[w] == keys@[i as int]);
                }
            }
            assert forall|a: int| 0 <= a < after.len() implies {
                &&& seen2.contains(#[trigger] after[a].0)
                &&& counts@.contains_key(after[a].0) && counts@[after[a].0] == after[a].1
            } by {
                if a < j {
                    assert(after[a] == before[a]);
                    assert(counts@.contains_key(before[a].0));
                    assert(seen.contains(before[a].0));
                    let w = choose|x: int| 0 <= x < seen.len() && seen[x] == before[a].0;
                    assert(seen2[w] == before[a].0);
                } else if a == j {
                    assert(seen2[i as int] == k);
                    assert(counts@.contains_key(k) && counts@[k] == c);
                } else {
                    assert(after[a] == before[a - 1]);
                    assert(counts@.contains_key(before[a - 1].0));
                    assert(seen.contains(before[a - 1].0));
                    let w = choose|x: int| 0 <= x < seen.len() && seen[x] == before[a - 1].0;
                    assert(seen2[w] == before[a - 1].0);
                }
            }
            assert forall|a: int, b: int| 0 <= a < b < after.len() implies #[trigger] after[a].0
                != #[trigger] after[b].0 by {
                if b == j {
                    assert(seen.contains(before[a].0));
                } else if a == j {
                    assert(seen.contains(before[b - 1].0));
                } else if b < j {
                } else if a < j {
                    assert(before[a].0 != before[b - 1].0);
                } else {
                    assert(before[a - 1].0 != before[b - 1].0);
                }
            }
            assert forall|a: int, b: int| 0 <= a < b < after.len() implies #[trigger] after[a].1
                >= #[trigger] after[b].1 by {
                if j < before.len() {
                    assert(before[j as int].1 < c);
                }
                if a < j && b == j {
                } else if a < j && b > j {
                    assert(before[a].1 >= before[b - 1].1);
                } else if a == j {
                    assert(before[j as int].1 >= before[b - 1].1);
                } else if b < j {
                    assert(before[a].1 >= before[b].1);
                } else {
                    assert(before[a - 1].1 >= before[b - 1].1);
                }
            }
            assert forall|p: u64| #[trigger] seen2.contains(p) implies ranks_peer(after, p) by {
                if p == k {
                    assert(after[j as int].0 == p);
                } else {
                    assert(seen.contains(p)) by {
                        let w = choose|x: int| 0 <= x < seen2.len() && seen2[x] == p;
                        assert(seen[w] == p);
                    }
                    let w = choose|x: int| 0 <= x < before.len() && #[trigger] before[x].0 == p;
                    if w < j {
                        assert(after[w].0 == p);
                    } else {
                        assert(after[w + 1].0 == p);
                    }
                }
            }
        }
        i += 1;
    }
    proof {
        assert(keys@.take(keys@.len() as int) =~= keys@);
        assert forall|p: u64| #[trigger] counts@.contains_key(p) implies ranks_peer(ranking@, p) by {
            assert(keys@.to_set().contains(p));
            assert(keys@.take(keys@.len() as int).contains(p));
        }
        keys@.unique_seq_to_set();
    }
    ranking
}

/// The value published for each rank `1..=k`: the count ranked there, or 0
/// where fewer than `rank` peers are ranked.
pub open spec fn gauge_values(s: Seq<(u64, u64)>, k: nat) -> Seq<i64> {
    Seq::new(k, |r: int| if r < s.len() { s[r].1 as i64 } else { 0i64 })
}

/// The values to publish for ranks `1..=k` of `ranking`.
pub fn gauges_for(ranking: &Vec<(u64, u64)>, k: usize) -> (gauges: Vec<i64>)
    ensures
        gauges@ == gauge_values(ranking@, k as nat),
{
    let mut gauges: Vec<i64> = Vec::new();
    let mut r: usize = 0;
    while r < k
        invariant
            r <= k,
            gauges@ == gauge_values(ranking@, k as nat).take(r as int),
        decreases k - r,
    {
        let v: i64 = if r < ranking.len() {
            ranking[r].1 as i64
        } else {
            0
        };
        proof {
            assert(gauge_values(ranking@, k as nat).take(r + 1) =~= gauge_values(
                ranking@,
                k as nat,
            ).take(r as int).push(v));
        }
        gauges.push(v);
        r += 1;
    }
    proof {
        assert(gauge_values(ranking@, k as nat).take(k as int) =~= gauge_values(ranking@, k as nat));
    }
    gauges
}

/// How many leading ranks are reported peer by peer.
pub const NOTABLE_RANKS: usize = 3;

/// A peer among the leading ranks whose address is known.
pub struct NotablePeer {
    pub rank: usize,
    pub peer_id: u64,
    pub address: String,
    pub count: u64,
}

/// The model of a [`NotablePeer`].
pub struct NotableView {
    pub rank: nat,
    pub peer_id: u64,
    pub address: Seq<char>,
    pub count: u64,
}

impl View for NotablePeer {
    type V = NotableView;

    open spec fn view(&self) -> NotableView {
        NotableView {
            rank: self.rank as nat,
            peer_id: self.peer_id,
            address: self.address@,
            count: self.count,
        }
    }
}

/// The ranked peers among ranks `1..=n` whose address is in `addrs`, by rank.
pub open spec fn notable_upto(s: Seq<(u64, u64)>, addrs: Map<u64, Seq<char>>, n: nat) -> Seq<
    NotableView,
>
    decreases n,
{
    if n == 0 {
        Seq::empty()
    } else {
        let prev = notable_upto(s, addrs, (n - 1) as nat);
        let r = n - 1;
        if r < s.len() && addrs.contains_key(s[r].0) {
            prev.push(
                NotableView { rank: n, peer_id: s[r].0, address: addrs[s[r].0], count: s[r].1 },
            )
        } else {
            prev
        }
    }
}

pub open spec fn min_nat(a: nat, b: nat) -> nat {
    if a < b {
        a
    } else {
        b
    }
}

/// The peers at ranks `1..=min(k, 3)` whose address is known.
pub open spec fn notable_peers(s: Seq<(u64, u64)>, addrs: Map<u64, Seq<char>>, k: nat) -> Seq<
    NotableView,
> {
    notable_upto(s, addrs, min_nat(k, NOTABLE_RANKS as nat))
}

/// The view of a map of addresses.
pub open spec fn address_view(m: Map<u64, String>) -> Map<u64, Seq<char>> {
    m.map_values(|a: String| a@)
}

/// The peers at ranks `1..=min(k, 3)` of `ranking` whose address is known.
pub fn notable_for(
    ranking: &Vec<(u64, u64)>,
    addresses: &HashMap<u64, String>,
    k: usize,
) -> (notable: Vec<NotablePeer>)
    ensures
        notable@.map_values(|p: NotablePeer| p@) == notable_peers(
            ranking@,
            address_view(addresses@),
            k as nat,
        ),
{
    let ghost addrs = address_view(addresses@);
    let last: usize = if k < NOTABLE_RANKS {
        k
    } else {
        NOTABLE_RANKS
    };
    let mut notable: Vec<NotablePeer> = Vec::new();
    let mut rank: usize = 1;
    while rank <= last
        invariant
            1 <= rank <= last + 1,
            last <= NOTABLE_RANKS,
            last as nat == min_nat(k as nat, NOTABLE_RANKS as nat),
            addrs == address_view(addresses@),
            notable@.map_values(|p: NotablePeer| p@) == notable_upto(
                ranking@,
                addrs,
                (rank - 1) as nat,
            ),
        decreases last + 1 - rank,
    {
        let ghost prev = notable@;
        if rank - 1 < ranking.len() {
            let (peer_id, count) = ranking[rank - 1];
            match addresses.get(&peer_id) {
                Some(addr) => {
                    notable.push(NotablePeer { rank, peer_id, address: addr.clone(), count });
                    proof {
                        assert(notable@.map_values(|p: NotablePeer| p@) =~= prev.map_values(
                            |p: NotablePeer| p@,
                        ).push(notable@[notable@.len() - 1]@));
                    }
                },
                None => {},
            }
        }
        rank += 1;
    }
    notable
}

} // verus!
