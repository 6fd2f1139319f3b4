use httptunnel::relay::{
    ReadOutcome, Relay, RelayPolicy, RelayProgress, RelayShutdownReasons, WriteOutcome,
    NO_BANDWIDTH_LIMIT, NO_TIMEOUT_MILLIS,
};
use httptunnel::tunnel::TunnelCtx;

fn relay(policy: RelayPolicy) -> Relay {
    Relay::new("Downstream", policy, TunnelCtx::new(7))
}

fn open_policy() -> RelayPolicy {
    RelayPolicy {
        idle_timeout_millis: NO_TIMEOUT_MILLIS,
        min_rate_bpm: 0,
        max_rate_bpm: NO_BANDWIDTH_LIMIT,
    }
}

#[test]
fn disabled_policy_never_stops_a_transfer() {
    let p = open_policy();
    assert_eq!(p.check_transimission_rates(1_000_000, usize::MAX), Ok(()));
    assert_eq!(p.check_transimission_rates(0, 0), Ok(()));
}

#[test]
fn fast_client_is_stopped_after_five_seconds() {
    let p = RelayPolicy {
        idle_timeout_millis: 5_000,
        min_rate_bpm: 0,
        max_rate_bpm: 1_000,
    };
    // 7000 bytes over 6 whole seconds: 1166 bytes/second > 1000.
    assert_eq!(
        p.check_transimission_rates(6_000, 7_000),
        Err(RelayShutdownReasons::TooFast)
    );
    // Same rate, but the five-second window has not yet passed.
    assert_eq!(p.check_transimission_rates(5_000, 7_000), Ok(()));
    // Below the bound: 5000 bytes over 6 seconds is 833 bytes/second.
    assert_eq!(p.check_transimission_rates(6_000, 5_000), Ok(()));
}

#[test]
fn slow_client_is_stopped_after_thirty_seconds() {
    let p = RelayPolicy {
        idle_timeout_millis: 5_000,
        min_rate_bpm: 1_000,
        max_rate_bpm: NO_BANDWIDTH_LIMIT,
    };
    // The historical check compares (bytes per second) / 60 against the
    // bound: over 30 seconds it demands at least 1000 * 30 * 60 = 1.8
    // million bytes.
    assert_eq!(
        p.check_transimission_rates(30_000, 100),
        Err(RelayShutdownReasons::TooSlow)
    );
    // The same trickle is tolerated before the thirty-second mark.
    assert_eq!(p.check_transimission_rates(29_999, 100), Ok(()));
    // Exactly at the bound is not below it.
    assert_eq!(p.check_transimission_rates(30_000, 1_800_000), Ok(()));
    // One byte under the bound.
    assert_eq!(
        p.check_transimission_rates(30_000, 1_799_999),
        Err(RelayShutdownReasons::TooSlow)
    );
}

#[test]
fn timeout_sentinel_disables_idle_timeout() {
    assert!(open_policy().timeout_disabled());
    let p = RelayPolicy {
        idle_timeout_millis: 299_999,
        min_rate_bpm: 0,
        max_rate_bpm: NO_BANDWIDTH_LIMIT,
    };
    assert!(!p.timeout_disabled());
}

#[test]
fn read_outcomes_map_to_shutdown_reasons() {
    let r = relay(open_policy());
    assert_eq!(
        r.on_read(&ReadOutcome::TimedOut),
        Err(RelayShutdownReasons::ReaderTimeout)
    );
    assert_eq!(
        r.on_read(&ReadOutcome::Data(0)),
        Err(RelayShutdownReasons::GracefulShutdown)
    );
    assert_eq!(r.on_read(&ReadOutcome::Data(512)), Ok(512));
    assert_eq!(
        r.on_read(&ReadOutcome::Failed),
        Err(RelayShutdownReasons::ReadError)
    );
}

#[test]
fn write_outcomes_map_to_shutdown_reasons() {
    let r = relay(open_policy());
    assert_eq!(
        r.on_write(&WriteOutcome::TimedOut),
        Err(RelayShutdownReasons::WriterTimeout)
    );
    assert_eq!(r.on_write(&WriteOutcome::Written), Ok(()));
    assert_eq!(
        r.on_write(&WriteOutcome::Failed),
        Err(RelayShutdownReasons::WriteError)
    );
}

#[test]
fn progress_accumulates_bytes_and_events() {
    let mut p = RelayProgress::new();
    p.record(16384);
    p.record(100);
    assert_eq!(p.total_bytes, 16484);
    assert_eq!(p.event_count, 2);
}

#[test]
fn stats_carry_the_final_counters() {
    let r = relay(open_policy());
    let mut p = RelayProgress::new();
    p.record(2048);
    let stats = r.stats(RelayShutdownReasons::GracefulShutdown, &p, 1500);
    assert_eq!(stats.shutdown_reason, RelayShutdownReasons::GracefulShutdown);
    assert_eq!(stats.total_bytes, 2048);
    assert_eq!(stats.event_count, 1);
    assert_eq!(stats.duration_millis, 1500);
}
