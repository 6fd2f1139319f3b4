use httptunnel::http_tunnel_codec::HttpTunnelTarget;
use httptunnel::relay::{RelayShutdownReasons, RelayStats};
use httptunnel::tunnel::{
    connect_phase, establish_verdict, handshake_phase, response_required, ConnectOutcome,
    EstablishTunnelResult, HandshakeEvent, TunnelCtx, TunnelStats,
};

#[test]
fn handshake_timeout_aborts_with_request_timeout() {
    let r = handshake_phase::<HttpTunnelTarget>(HandshakeEvent::TimedOut);
    assert_eq!(r.err(), Some(EstablishTunnelResult::RequestTimeout));
}

#[test]
fn closed_stream_aborts_with_bad_request() {
    let r = handshake_phase::<HttpTunnelTarget>(HandshakeEvent::Closed);
    assert_eq!(r.err(), Some(EstablishTunnelResult::BadRequest));
}

#[test]
fn codec_rejection_is_passed_through() {
    let r = handshake_phase::<HttpTunnelTarget>(HandshakeEvent::Rejected(
        EstablishTunnelResult::Forbidden,
    ));
    assert_eq!(r.err(), Some(EstablishTunnelResult::Forbidden));
}

#[test]
fn decoded_target_proceeds() {
    let t = HttpTunnelTarget {
        target: String::from("en.wikipedia.org:443"),
        nugget: None,
    };
    let r = handshake_phase(HandshakeEvent::Decoded(t));
    assert_eq!(r.expect("decoded target proceeds").target, "en.wikipedia.org:443");
}

#[test]
fn connection_success_depends_on_the_nugget() {
    assert_eq!(
        connect_phase(false, ConnectOutcome::Connected),
        EstablishTunnelResult::Established
    );
    assert_eq!(
        connect_phase(true, ConnectOutcome::Connected),
        EstablishTunnelResult::OkWithNugget
    );
}

#[test]
fn connect_timeout_maps_to_gateway_timeout() {
    assert_eq!(
        connect_phase(false, ConnectOutcome::TimedOut),
        EstablishTunnelResult::GatewayTimeout
    );
    assert_eq!(
        connect_phase(false, ConnectOutcome::Failed { timed_out: true }),
        EstablishTunnelResult::GatewayTimeout
    );
}

#[test]
fn connect_failure_maps_to_bad_gateway() {
    assert_eq!(
        connect_phase(false, ConnectOutcome::Failed { timed_out: false }),
        EstablishTunnelResult::BadGateway
    );
    assert_eq!(
        EstablishTunnelResult::from_connect_error(false),
        EstablishTunnelResult::BadGateway
    );
    assert_eq!(
        EstablishTunnelResult::from_connect_error(true),
        EstablishTunnelResult::GatewayTimeout
    );
}

#[test]
fn only_the_nugget_path_suppresses_the_response() {
    assert!(!response_required(&EstablishTunnelResult::OkWithNugget));
    assert!(response_required(&EstablishTunnelResult::Established));
    assert!(response_required(&EstablishTunnelResult::Forbidden));
    assert!(response_required(&EstablishTunnelResult::BadGateway));
}

#[test]
fn establishment_verdicts() {
    assert_eq!(
        establish_verdict(EstablishTunnelResult::Established, false, true),
        Err(EstablishTunnelResult::RequestTimeout)
    );
    assert_eq!(
        establish_verdict(EstablishTunnelResult::Forbidden, true, false),
        Err(EstablishTunnelResult::Forbidden)
    );
    assert_eq!(
        establish_verdict(EstablishTunnelResult::Established, true, true),
        Ok(())
    );
}

#[test]
fn failure_stats_carry_the_context_and_no_relay_stats() {
    let ctx = TunnelCtx::new(42);
    let stats = TunnelStats::failure(ctx, EstablishTunnelResult::RequestTimeout);
    assert_eq!(stats.tunnel_ctx.id, 42);
    assert_eq!(stats.result, EstablishTunnelResult::RequestTimeout);
    assert!(stats.upstream_stats.is_none());
    assert!(stats.downstream_stats.is_none());
}

#[test]
fn both_relay_outcomes_present_report_success() {
    let ctx = TunnelCtx::new(42);
    let up = RelayStats {
        shutdown_reason: RelayShutdownReasons::GracefulShutdown,
        total_bytes: 10,
        event_count: 1,
        duration_millis: 5,
    };
    let down = RelayStats {
        shutdown_reason: RelayShutdownReasons::WriteError,
        total_bytes: 20,
        event_count: 2,
        duration_millis: 6,
    };
    let stats = TunnelStats::from_relay_outcomes(ctx, Some(up), Some(down));
    assert_eq!(stats.tunnel_ctx.id, 42);
    assert_eq!(stats.result, EstablishTunnelResult::Established);
    assert_eq!(stats.upstream_stats.unwrap().total_bytes, 10);
    assert_eq!(stats.downstream_stats.unwrap().total_bytes, 20);
}

#[test]
fn an_aborted_relay_task_reports_a_server_error() {
    let ctx = TunnelCtx::new(42);
    let down = RelayStats {
        shutdown_reason: RelayShutdownReasons::GracefulShutdown,
        total_bytes: 20,
        event_count: 2,
        duration_millis: 6,
    };
    let stats = TunnelStats::from_relay_outcomes(ctx, None, Some(down));
    assert_eq!(stats.result, EstablishTunnelResult::ServerError);
    assert!(stats.upstream_stats.is_none());
    assert_eq!(stats.downstream_stats.unwrap().total_bytes, 20);
}

#[test]
fn generated_contexts_are_constructed() {
    let a = TunnelCtx::generate();
    let b = TunnelCtx::new(a.id);
    assert_eq!(a, b);
}
