//! Accounting core of a pay-to-play arcade: a bounded leaderboard, an escrowed
//! prize pool with a reserve floor, and the admin-gated operations on them.
//!
//! `model` states the ledger as a state machine and `laws` proves what holds of
//! it; `ledger` holds the record and the operations, each proved to do what the
//! model says; `registry`, `escrow` and `leaderboard` are its parts;
//! `transfers` turns the payments that the operations call for into
//! instructions to the system program.

pub mod error;
pub mod principal;
pub mod leaderboard;
pub mod escrow;
pub mod registry;
pub mod model;
pub mod laws;
pub mod ledger;
pub mod transfers;
