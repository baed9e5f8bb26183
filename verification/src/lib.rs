//! The core of a bridge action executor.
//!
//! A bridge node settles cross-chain transfers in two stages. The signing
//! stage collects the committee's signatures on an action; the execution
//! stage submits the certified action to the destination chain. Every
//! action that the node has accepted is kept in a pending log until it is
//! settled, so that nothing is lost when the node stops and starts again.
//!
//! This crate holds the decisions of the executor and nothing else. It
//! sends no request and keeps no time: a task of either stage takes what
//! came back from outside as an event and answers with a command for its
//! caller to carry out. What the tasks decide is therefore a matter of
//! plain values, and is proved for every sequence of events.
//!
//! - [`types`]: the data that the executor reads.
//! - [`backoff`]: the retry limits and the delay between attempts.
//! - [`pending_log`]: the map of actions that are not settled yet.
//! - [`committee`]: the count of voting power that certifies an action.
//! - [`status_oracle`]: the poll for an action's status on chain.
//! - [`signing`] and [`execution`]: the tasks of the two stages.
//! - [`executor`]: the executor's settings and the entry to its queues.
//! - [`history`]: what holds of every run of a task.

pub mod backoff;
pub mod committee;
pub mod execution;
pub mod executor;
pub mod history;
pub mod pending_log;
pub mod signing;
pub mod status_oracle;
pub mod types;
