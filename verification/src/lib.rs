//! An event-sourced ledger: an append-only log of transactions from which
//! account balances are derived on demand, together with a differential
//! test harness that checks the ledger against an independently implemented
//! reference model over random sequences of operations.

pub mod harness;
pub mod laws;
pub mod ledger;
pub mod model;
pub mod state;
pub mod txn;

pub use harness::{RawStep, Transition, accepts, check_balances, generate, run_trial, run_walk};
pub use ledger::Bank;
pub use model::{ModelAccount, RefModel};
pub use txn::{AccountFlags, LedgerError, Transaction};
