//! What the venue adapters and the runtime share.

pub mod config;
pub mod error;
pub mod inbound;
pub mod orderbook;
pub mod provider;

pub use config::Config;
pub use config::ConfigRef;
pub use error::Error;
pub use inbound::Inbound;
pub use provider::Provider;
