//! Reserve-balance monitoring: the decisions of one polling tick.
//!
//! A tick reads the balances of a fixed list of reserve addresses and the
//! latest ingested ledger of two status endpoints, then sends one chat
//! notification per reserve whose balance has fallen below a tenth of a
//! unit. Everything here is pure; fetching and sending happen in the
//! binary that drives the timer.

pub mod balance;
pub mod notify;
pub mod reserves;
pub mod status;
