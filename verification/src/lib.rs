//! Settlement rules for tokenized intellectual-property assets: a registry of
//! assets and listings, a royalty splitter and a marketplace engine.
//!
//! Balances live in ledgers outside this library. The engines decide what has
//! to move and what the registry records; the caller moves it and reports back.

pub mod types;
pub mod splitter;
pub mod registry;
pub mod marketplace;
pub mod receipt;
pub mod ledger;
