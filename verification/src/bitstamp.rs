//! The Bitstamp adapter: a venue that is told by control frames which
//! channel to send, and that wraps every snapshot in an envelope.
//!
//! The adapter holds no connection. Its connector, which does, writes and
//! reads what the adapter tells it to and hands it what was read.

pub mod handshake;
pub mod orderbook;
pub mod provider;
pub mod response;

pub use provider::Bitstamp;
