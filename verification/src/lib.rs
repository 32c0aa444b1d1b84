//! A two-party conditional asset swap. A maker deposits one asset into a
//! vault that no key controls and names the asset and amount wanted in return;
//! any taker may settle the offer, or the maker may take the deposit back.
//!
//! `escrow` holds the three operations on a ledger kept in memory, `model`
//! says what they do, `laws` proves what follows from that, and `program`
//! plans the ledger steps of each operation from the accounts it is given.

pub mod address;
pub mod authority;
pub mod escrow;
pub mod laws;
pub mod ledger;
pub mod model;
pub mod program;
pub mod record;
pub mod store;
pub mod supply;

pub use crate::address::Address;
pub use crate::escrow::{cancel, exchange, initialize, Escrow};
pub use crate::ledger::LedgerError;
pub use crate::program::{Cancel, EscrowError, Exchange, Initialize};
pub use crate::record::EscrowAccount;
