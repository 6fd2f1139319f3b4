//! Tunnel lifecycle: context, establishment results, statistics, and the
//! decisions the controller takes between handshake, target connection
//! and relaying.
//!
//! The controller's I/O — framing the client stream, awaiting the
//! handshake, dialing the target, spawning the two relays — happens
//! outside the library; each step hands its outcome to a function here
//! and follows the returned decision.

use vstd::prelude::*;

use crate::proxy_target::Nugget;
use crate::relay::RelayStats;

verus! {

/// Per-connection 128-bit correlation identifier, assigned at accept
/// time, copied into every statistics record.
#[derive(Clone, Copy, PartialEq, Eq, Structural, Debug)]
pub struct TunnelCtx {
    pub id: u128,
}

impl TunnelCtx {
    pub fn new(id: u128) -> (r: Self)
        ensures
            r.id == id,
    {
        TunnelCtx { id }
    }

    /// A fresh identifier drawn from the process-wide generator.
    pub fn generate() -> Self {
        TunnelCtx { id: crate::rng::random_u128() }
    }
}

/// How establishing a tunnel ended. The variants carry the wire status
/// codes 200, 400, 403, 405, 408, 429, 500, 502 and 504 in the response
/// the codec encodes.
#[derive(Clone, Copy, PartialEq, Eq, Structural, Debug)]
pub enum EstablishTunnelResult {
    /// Successfully connected to the target.
    Established,
    /// Successfully connected, and a nugget is pending: the target's own
    /// response will be relayed, so no response is synthesized.
    OkWithNugget,
    /// Malformed request.
    BadRequest,
    /// Target is not allowed.
    Forbidden,
    /// Valid for the protocol, but not a supported operation.
    OperationNotAllowed,
    /// The client failed to send a tunnel request timely.
    RequestTimeout,
    /// Cannot connect to the target.
    BadGateway,
    /// The connection attempt timed out.
    GatewayTimeout,
    /// Busy; try again later.
    TooManyRequests,
    /// Any other error, e.g. an abrupt I/O error.
    ServerError,
}

impl EstablishTunnelResult {
    /// Classification of an I/O error from the target dial: a timed-out
    /// connect maps to `GatewayTimeout`, every other error to
    /// `BadGateway`.
    pub fn from_connect_error(timed_out: bool) -> (r: Self)
        ensures
            r == if timed_out {
                EstablishTunnelResult::GatewayTimeout
            } else {
                EstablishTunnelResult::BadGateway
            },
    {
        if timed_out {
            EstablishTunnelResult::GatewayTimeout
        } else {
            EstablishTunnelResult::BadGateway
        }
    }
}

/// Statistics of one accepted connection; no sensitive information.
pub struct TunnelStats {
    pub tunnel_ctx: TunnelCtx,
    pub result: EstablishTunnelResult,
    pub upstream_stats: Option<RelayStats>,
    pub downstream_stats: Option<RelayStats>,
}

impl TunnelStats {
    /// The record for a connection that never reached the relaying
    /// phase.
    pub fn failure(tunnel_ctx: TunnelCtx, result: EstablishTunnelResult) -> (r: Self)
        ensures
            r.tunnel_ctx == tunnel_ctx,
            r.result == result,
            r.upstream_stats is None,
            r.downstream_stats is None,
    {
        TunnelStats { tunnel_ctx, result, upstream_stats: None, downstream_stats: None }
    }

    /// The record after both relay directions were awaited. A direction
    /// whose task aborted (panic or cancellation) yields no statistics,
    /// and the whole tunnel is then reported as a server error with the
    /// partial statistics kept.
    pub fn from_relay_outcomes(
        tunnel_ctx: TunnelCtx,
        upstream_stats: Option<RelayStats>,
        downstream_stats: Option<RelayStats>,
    ) -> (r: Self)
        ensures
            r.tunnel_ctx == tunnel_ctx,
            r.result == if upstream_stats is Some && downstream_stats is Some {
                EstablishTunnelResult::Established
            } else {
                EstablishTunnelResult::ServerError
            },
            r.upstream_stats == upstream_stats,
            r.downstream_stats == downstream_stats,
    {
        let result = if upstream_stats.is_some() && downstream_stats.is_some() {
            EstablishTunnelResult::Established
        } else {
            EstablishTunnelResult::ServerError
        };
        TunnelStats { tunnel_ctx, result, upstream_stats, downstream_stats }
    }
}

/// A proxy target obtained from the handshake: somewhere to connect to,
/// and possibly a nugget to forward first.
pub trait TunnelTarget {
    type Addr: View;

    /// Whether a nugget is attached.
    spec fn spec_has_nugget(&self) -> bool;

    /// The bytes of the attached nugget.
    spec fn spec_nugget(&self) -> Seq<u8>;

    /// The address to connect to, as the abstract value of `Addr`.
    spec fn spec_target_addr(&self) -> <Self::Addr as View>::V;

    fn target_addr(&self) -> (a: Self::Addr)
        ensures
            a@ == self.spec_target_addr(),
    ;

    fn has_nugget(&self) -> (b: bool)
        ensures
            b == self.spec_has_nugget(),
    ;

    fn nugget(&self) -> (n: &Nugget)
        requires
            self.spec_has_nugget(),
        ensures
            n@ == self.spec_nugget(),
    ;
}

/// What awaiting one decoded handshake message produced, within the
/// initiation timeout.
pub enum HandshakeEvent<T> {
    /// The budget elapsed before a complete request arrived.
    TimedOut,
    /// The stream ended before a complete request arrived.
    Closed,
    /// The codec decoded a validated target.
    Decoded(T),
    /// The codec rejected the request with the given result.
    Rejected(EstablishTunnelResult),
}

/// The handshake decision: only a decoded target lets the connection
/// proceed; a timeout, a closed stream and a rejection abort it with
/// `RequestTimeout`, `BadRequest`, and the codec's own result.
pub fn handshake_phase<T>(event: HandshakeEvent<T>) -> (r: Result<T, EstablishTunnelResult>)
    ensures
        match event {
            HandshakeEvent::TimedOut => r == Err::<T, _>(EstablishTunnelResult::RequestTimeout),
            HandshakeEvent::Closed => r == Err::<T, _>(EstablishTunnelResult::BadRequest),
            HandshakeEvent::Decoded(t) => r == Ok::<T, EstablishTunnelResult>(t),
            HandshakeEvent::Rejected(e) => r == Err::<T, _>(e),
        },
{
    match event {
        HandshakeEvent::TimedOut => Err(EstablishTunnelResult::RequestTimeout),
        HandshakeEvent::Closed => Err(EstablishTunnelResult::BadRequest),
        HandshakeEvent::Decoded(t) => Ok(t),
        HandshakeEvent::Rejected(e) => Err(e),
    }
}

/// What dialing the target produced, as the controller saw it.
#[derive(Clone, Copy, PartialEq, Eq, Structural, Debug)]
pub enum ConnectOutcome {
    /// The connection stands.
    Connected,
    /// The connect budget elapsed first.
    TimedOut,
    /// The dial failed with an I/O error; `timed_out` tells whether its
    /// kind was a timeout.
    Failed { timed_out: bool },
}

/// The connection decision: a standing connection succeeds — with
/// `OkWithNugget` when a nugget is pending, so that no response is
/// synthesized — while timeouts and failures map to `GatewayTimeout` and
/// `BadGateway`.
pub fn connect_phase(has_nugget: bool, outcome: ConnectOutcome) -> (r: EstablishTunnelResult)
    ensures
        r == match outcome {
            ConnectOutcome::Connected => if has_nugget {
                EstablishTunnelResult::OkWithNugget
            } else {
                EstablishTunnelResult::Established
            },
            ConnectOutcome::TimedOut => EstablishTunnelResult::GatewayTimeout,
            ConnectOutcome::Failed { timed_out } => if timed_out {
                EstablishTunnelResult::GatewayTimeout
            } else {
                EstablishTunnelResult::BadGateway
            },
        },
{
    match outcome {
        ConnectOutcome::Connected => if has_nugget {
            EstablishTunnelResult::OkWithNugget
        } else {
            EstablishTunnelResult::Established
        },
        ConnectOutcome::TimedOut => EstablishTunnelResult::GatewayTimeout,
        ConnectOutcome::Failed { timed_out } => EstablishTunnelResult::from_connect_error(
            timed_out,
        ),
    }
}

/// Whether a response line must be sent for this result. Only
/// `OkWithNugget` suppresses it: the target's own response is relayed
/// instead.
pub fn response_required(result: &EstablishTunnelResult) -> (b: bool)
    ensures
        b == (*result != EstablishTunnelResult::OkWithNugget),
{
    match *result {
        EstablishTunnelResult::OkWithNugget => false,
        _ => true,
    }
}

/// The establishment verdict, once the response send was attempted: a
/// send that missed the initiation budget aborts with `RequestTimeout`;
/// without a target the response itself is the failure; otherwise
/// relaying may begin.
pub fn establish_verdict(
    response: EstablishTunnelResult,
    response_sent: bool,
    has_target: bool,
) -> (r: Result<(), EstablishTunnelResult>)
    ensures
        r == if !response_sent {
            Err::<(), _>(EstablishTunnelResult::RequestTimeout)
        } else if !has_target {
            Err::<(), _>(response)
        } else {
            Ok::<(), EstablishTunnelResult>(())
        },
{
    if !response_sent {
        Err(EstablishTunnelResult::RequestTimeout)
    } else if !has_target {
        Err(response)
    } else {
        Ok(())
    }
}

} // verus!
