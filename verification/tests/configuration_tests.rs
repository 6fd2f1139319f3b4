use httptunnel::configuration::TunnelConfig;
use httptunnel::pattern::Allowlist;
use httptunnel::relay::{NO_BANDWIDTH_LIMIT, NO_TIMEOUT_MILLIS};

#[test]
fn defaults_disable_every_limit_and_admit_everything() {
    let c = TunnelConfig::default();
    assert_eq!(c.client_connection.initiation_timeout_millis, NO_TIMEOUT_MILLIS);
    assert_eq!(c.client_connection.relay_policy.idle_timeout_millis, NO_TIMEOUT_MILLIS);
    assert_eq!(c.client_connection.relay_policy.min_rate_bpm, 0);
    assert_eq!(c.client_connection.relay_policy.max_rate_bpm, NO_BANDWIDTH_LIMIT);
    assert_eq!(c.target_connection.dns_cache_ttl_millis, NO_TIMEOUT_MILLIS);
    assert_eq!(c.target_connection.connect_timeout_millis, NO_TIMEOUT_MILLIS);
    assert_eq!(c.target_connection.relay_policy.min_rate_bpm, 0);
    assert!(c.target_connection.allowed_targets.is_match("anything-at-all:1"));
}

#[test]
fn cloned_configuration_keeps_every_field() {
    let c = TunnelConfig::default();
    let d = c.clone();
    assert_eq!(
        d.client_connection.initiation_timeout_millis,
        c.client_connection.initiation_timeout_millis
    );
    assert_eq!(
        d.target_connection.connect_timeout_millis,
        c.target_connection.connect_timeout_millis
    );
    assert!(d.target_connection.allowed_targets.is_match("x:1"));
}

#[test]
fn invalid_patterns_do_not_compile() {
    assert!(Allowlist::new("(unclosed").is_none());
}

#[test]
fn patterns_admit_and_refuse() {
    let a = Allowlist::new("^[a-z]+\\.example\\.com:443$").expect("pattern compiles");
    assert!(a.is_match("host.example.com:443"));
    assert!(!a.is_match("host.example.com:80"));
    assert!(!a.is_match("HOST.example.com:443"));
    let b = a.clone();
    assert!(b.is_match("other.example.com:443"));
}
