//! A small in-memory ledger: a fixed set of accounts, each with a credit
//! limit, that takes credits and debits and never lets a balance fall below
//! the negative of its limit.

pub mod client;
pub mod clock;
pub mod error;
pub mod ident;
pub mod laws;
pub mod state;
pub mod transaction;
