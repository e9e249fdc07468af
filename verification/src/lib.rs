//! Client-side DNS transaction layer: transport-kind configuration values
//! (UDP, multicast, DNS-over-HTTPS), a multiplexer that correlates outbound
//! queries with inbound responses by transaction identifier, and an exchange
//! state machine that drives one live transport.

pub mod addr;
pub mod codec;
pub mod connection;
pub mod error;
pub mod exchange;
pub mod mux;
pub mod tls;
