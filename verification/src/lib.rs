//! Analytics and fee / rebalance planning for a Lightning Network routing node.
//!
//! The crate works on snapshots of the node's state that the caller has
//! already loaded: it derives per-channel metrics from them and plans
//! `setchannel` and `sling` actions. It performs no I/O of its own.

pub mod closed;
pub mod cmd;
pub mod common;
pub mod dashboard;
pub mod datastore;
pub mod fees;
pub mod graph;
pub mod history;
pub mod htlc;
pub mod ledger;
pub mod lnplus;
pub mod metrics;
pub mod nodefees;
pub mod order;
pub mod pages;
pub mod ratio;
pub mod routes;
pub mod seqs;
pub mod sling;
pub mod store;
pub mod tally;
pub mod text;
pub mod time;
pub mod timeline;
