# peer_observer

Verified core of two peer-observer tools, written in Verus.

- `src/tx_tracker.rs` — the transaction-relay tracker: per-peer bounded
  histories of the INVs and GETDATAs we sent, classification of transactions
  (solicited, announced, unsolicited, unannounced), peer addresses, and
  cleanup of inactive peers. Every operation states its effect on a
  mathematical model (`TrackerView`).
- `src/top_k.rs`, `src/ranking.rs` — per-peer violation counters and the
  top-K values published from them.
- `src/alerter.rs` — alerts and their one-line rendering.
- `src/messages.rs` — the parts of INV/GETDATA/TX messages the tracker reads.
- `src/clock.rs`, `src/map_ops.rs` — a monotonic clock and hash-map helpers.
- `src/laws.rs` — properties that relate several operations.
- `src/history.rs` — the tracker's state after any sequence of calls,
  described by the calls themselves (what each peer's histories and address
  hold, which peers are tracked, how transactions are classified).

Times are nanoseconds read from a clock owned by each tracker; every
operation that reads the clock has a variant ending in `_at` that takes the
reading as an argument.

`app/` holds what Verus does not check: logging of alerts, a mutex-shared
tracker with its periodic cleanup task, and publication of top-K values to
Prometheus gauges.
