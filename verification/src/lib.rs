//! An in-memory ledger that replays a stream of client transactions.
//!
//! Deposits, withdrawals, disputes, resolves and chargebacks are applied to
//! per-client accounts; illegal or out-of-order transitions are rejected with
//! a diagnostic message instead of aborting the run.

pub mod client;
pub mod message;
pub mod process;
pub mod transaction;
pub mod transaction_engine;
