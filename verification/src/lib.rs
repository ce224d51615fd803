//! Consolidation of order-book snapshots from several trading venues into one
//! ranked view.
//!
//! Every function here is a pure decision: the connection to a venue, the
//! decoding of its frames and all floating-point arithmetic belong to the
//! caller, who hands this crate plain values and acts on what it returns.
//! Prices and amounts are IEEE-754 binary64 numbers carried as their bit
//! patterns.

pub mod binance;
pub mod bitstamp;
pub mod common;
pub mod runtime;
