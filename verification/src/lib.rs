//! A verified transaction ledger.
//!
//! The ledger replays a sequential stream of financial transactions
//! (deposit, withdrawal, dispute, resolve, chargeback) against per-client
//! accounts. Monetary values are fixed-point integers with four fractional
//! digits, so all arithmetic is exact.
//!
//! The behaviour of [`state::State::handle_tx`] is pinned down by the
//! mathematical transition function [`model::spec_apply`]; the laws in
//! [`laws`] prove the ledger invariants over that transition function.

pub mod account;
pub mod laws;
pub mod model;
pub mod state;
pub mod tx;
