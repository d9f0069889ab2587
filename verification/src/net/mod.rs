//! Networking: TLS buffer sizing and the TLS codec.
pub mod capacities;
pub mod codec;
