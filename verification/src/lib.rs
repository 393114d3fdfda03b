//! Replays a log of deposits, withdrawals, disputes, resolves and chargebacks on the
//! accounts of the clients it names, and reports the accounts and the transactions that
//! could not be applied.

pub mod account;
pub mod account_repository;
pub mod amount;
pub mod cached_amounts;
pub mod decimal;
pub mod engine;
pub mod engine_extended;
pub mod engine_simple;
pub mod failure;
pub mod laws;
pub mod ledger;
pub mod rules;
pub mod transaction;
