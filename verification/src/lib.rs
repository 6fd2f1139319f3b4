//! An HTTP(S) CONNECT tunneling proxy library.
//!
//! The crate holds the verified core of the proxy: the CONNECT handshake
//! codec with target admission, the relay rate/timeout policy and its
//! per-iteration decisions, the caching DNS resolver, and the tunnel
//! controller's decisions. Socket I/O, TLS setup, configuration loading
//! and logging live outside the library and call into it with plain
//! values.

pub mod configuration;
pub mod http_tunnel_codec;
pub mod pattern;
pub mod proxy_target;
pub mod relay;
mod rng;
pub mod scan;
pub mod tunnel;
