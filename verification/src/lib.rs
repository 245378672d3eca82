//! A single-pass ledger engine: it replays deposits, withdrawals, disputes,
//! resolutions and chargebacks against per-client accounts, with exact
//! fixed-point balances and a checked dispute lifecycle.
//!
//! - [`amount`]: money as a count of ten-thousandths.
//! - [`account`]: one client's balances and the dispute state of its
//!   transactions, with the five operations on them.
//! - [`history`]: what holds of an account after any sequence of requests.
//! - [`reader`]: the fields of a row read into a typed record.
//! - [`processor`]: the accounts of all clients, and the run over the
//!   records. A run fails fast: the first row or record that fails ends it.
//! - [`error`]: the failures that end a run.
//! - [`settings`]: the size of the input buffer.
//!
//! Balances are held in 64 bits. An operation that would take a balance out
//! of that range is outside its precondition; `TransactionProcessor::in_range`
//! and `TransactionProcessor::feed` tell beforehand.

pub mod account;
pub mod amount;
pub mod error;
pub mod history;
pub mod processor;
pub mod reader;
pub mod settings;
