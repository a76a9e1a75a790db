//! Verified core of the peer-observer tools: the transaction-relay tracker of
//! the metrics tool and the alert model of the alerts tool.

pub mod alerter;
pub mod clock;
pub mod history;
pub mod laws;
pub mod map_ops;
pub mod messages;
pub mod ranking;
pub mod top_k;
pub mod tx_tracker;

pub use alerter::{Alert, Alerter, SpammerKind};
pub use top_k::{RankingReport, TopKReport, TopKTracker};
pub use tx_tracker::{TxId, TxRelayTracker, TxStatus};
