//! Reconciliation of exchange trade history into canonical trades and
//! fiat-referenced ledger rows.

pub mod api;
pub mod cli;
pub mod coinbase;
pub mod data;
pub mod decimal;
pub mod export;
pub mod mexc;
pub mod reconcile;
pub mod signing;
pub mod store;
pub mod text;
pub mod time;
