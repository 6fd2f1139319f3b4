//! Proxy configuration snapshots.
//!
//! A configuration is immutable after it is built and cheaply cloned
//! into each connection task. Loading it — command line, YAML file, TLS
//! identity — happens outside the library; what arrives here are plain
//! values. All durations are in milliseconds.

use vstd::prelude::*;

use crate::pattern::Allowlist;
use crate::relay::{RelayPolicy, NO_BANDWIDTH_LIMIT, NO_TIMEOUT_MILLIS};

verus! {

/// Limits on the client side of a tunnel.
#[derive(Clone, Copy, PartialEq, Eq, Structural, Debug)]
pub struct ClientConnectionConfig {
    /// Budget for the whole handshake, in milliseconds.
    pub initiation_timeout_millis: u64,
    pub relay_policy: RelayPolicy,
}

/// Limits and admission rules on the target side of a tunnel.
pub struct TargetConnectionConfig {
    /// How long a DNS answer set stays fresh, in milliseconds.
    pub dns_cache_ttl_millis: u64,
    /// Only targets matching this pattern are admitted.
    pub allowed_targets: Allowlist,
    /// Budget for dialing the target, in milliseconds.
    pub connect_timeout_millis: u64,
    pub relay_policy: RelayPolicy,
}

impl Clone for TargetConnectionConfig {
    fn clone(&self) -> (r: Self)
        ensures
            r.dns_cache_ttl_millis == self.dns_cache_ttl_millis,
            r.allowed_targets@ == self.allowed_targets@,
            r.connect_timeout_millis == self.connect_timeout_millis,
            r.relay_policy == self.relay_policy,
    {
        TargetConnectionConfig {
            dns_cache_ttl_millis: self.dns_cache_ttl_millis,
            allowed_targets: self.allowed_targets.clone(),
            connect_timeout_millis: self.connect_timeout_millis,
            relay_policy: self.relay_policy,
        }
    }
}

/// The per-tunnel configuration: one half for the client connection, one
/// for the target connection.
pub struct TunnelConfig {
    pub client_connection: ClientConnectionConfig,
    pub target_connection: TargetConnectionConfig,
}

impl Clone for TunnelConfig {
    fn clone(&self) -> (r: Self)
        ensures
            r.client_connection == self.client_connection,
            r.target_connection.dns_cache_ttl_millis
                == self.target_connection.dns_cache_ttl_millis,
            r.target_connection.allowed_targets@ == self.target_connection.allowed_targets@,
            r.target_connection.connect_timeout_millis
                == self.target_connection.connect_timeout_millis,
            r.target_connection.relay_policy == self.target_connection.relay_policy,
    {
        TunnelConfig {
            client_connection: self.client_connection,
            target_connection: self.target_connection.clone(),
        }
    }
}

impl Default for TunnelConfig {
    /// The configuration used when no file is given: every timeout at
    /// five minutes (which disables the idle timeout), no rate bounds,
    /// and every target admitted.
    fn default() -> (r: Self)
        ensures
            r.client_connection.initiation_timeout_millis == NO_TIMEOUT_MILLIS,
            r.client_connection.relay_policy == (RelayPolicy {
                idle_timeout_millis: NO_TIMEOUT_MILLIS,
                min_rate_bpm: 0,
                max_rate_bpm: NO_BANDWIDTH_LIMIT,
            }),
            r.target_connection.dns_cache_ttl_millis == NO_TIMEOUT_MILLIS,
            r.target_connection.allowed_targets@ == ".*"@,
            r.target_connection.connect_timeout_millis == NO_TIMEOUT_MILLIS,
            r.target_connection.relay_policy == (RelayPolicy {
                idle_timeout_millis: NO_TIMEOUT_MILLIS,
                min_rate_bpm: 0,
                max_rate_bpm: NO_BANDWIDTH_LIMIT,
            }),
    {
        TunnelConfig {
            client_connection: ClientConnectionConfig {
                initiation_timeout_millis: NO_TIMEOUT_MILLIS,
                relay_policy: RelayPolicy {
                    idle_timeout_millis: NO_TIMEOUT_MILLIS,
                    min_rate_bpm: 0,
                    max_rate_bpm: NO_BANDWIDTH_LIMIT,
                },
            },
            target_connection: TargetConnectionConfig {
                dns_cache_ttl_millis: NO_TIMEOUT_MILLIS,
                allowed_targets: Allowlist::allow_all(),
                connect_timeout_millis: NO_TIMEOUT_MILLIS,
                relay_policy: RelayPolicy {
                    idle_timeout_millis: NO_TIMEOUT_MILLIS,
                    min_rate_bpm: 0,
                    max_rate_bpm: NO_BANDWIDTH_LIMIT,
                },
            },
        }
    }
}

} // verus!
