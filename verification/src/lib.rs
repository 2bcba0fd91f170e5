//! A small ledger of payment intents, invoices and per-provider
//! configuration.
//!
//! The ledger is one owned value, [`store::StableState`]. Every operation
//! takes it explicitly, together with the current timestamp where one is
//! needed, and is specified against the mathematical model in [`model`].

pub mod ident;
pub mod laws;
pub mod model;
pub mod store;
pub mod types;
