//! Relay policy and the per-iteration decisions of the byte pump.
//!
//! A relay copies bytes in one direction between two stream halves. The
//! surrounding I/O loop reads and writes; every decision it takes — how a
//! read or write outcome maps to a shutdown reason, how totals are
//! accumulated, and when the rate policy stops the transfer — is made by
//! the verified functions here. All durations are in milliseconds.

use vstd::prelude::*;

use crate::tunnel::TunnelCtx;

verus! {

/// Idle timeouts at or above this many milliseconds disable the per-read
/// and per-write timeout.
pub const NO_TIMEOUT_MILLIS: u64 = 300_000;

/// Rate bounds at or above this value disable the upper rate check.
pub const NO_BANDWIDTH_LIMIT: u64 = 1_000_000_000_000;

/// Why a relay direction stopped pumping bytes.
#[derive(Clone, Copy, PartialEq, Eq, Structural, Debug)]
pub enum RelayShutdownReasons {
    /// The reader connection was gracefully closed (zero-byte read).
    GracefulShutdown,
    ReadError,
    WriteError,
    ReaderTimeout,
    WriterTimeout,
    TooSlow,
    TooFast,
}

/// Idle timeout and rate window limits for one relay direction.
#[derive(Clone, Copy, PartialEq, Eq, Structural, Debug)]
pub struct RelayPolicy {
    /// Bound on each individual read or write, in milliseconds.
    pub idle_timeout_millis: u64,
    /// Lower bound, in bytes per minute; `0` disables it.
    pub min_rate_bpm: u64,
    /// Upper bound; compared against bytes per second, despite the name,
    /// to reproduce the historical behaviour of the rate window.
    pub max_rate_bpm: u64,
}

/// Both rate bounds are switched off.
pub open spec fn spec_rates_disabled(p: RelayPolicy) -> bool {
    p.min_rate_bpm == 0 && p.max_rate_bpm >= NO_BANDWIDTH_LIMIT
}

/// The upper bound is violated: more than five seconds in, and the mean
/// rate in bytes per whole elapsed second exceeds `max_rate_bpm`.
pub open spec fn spec_too_fast(p: RelayPolicy, elapsed_millis: u64, total_bytes: usize) -> bool {
    elapsed_millis > 5000 && total_bytes as int / (elapsed_millis as int / 1000) > p.max_rate_bpm
}

/// The lower bound is violated: thirty seconds in, and the mean rate in
/// bytes per minute is below `min_rate_bpm`. The comparison
/// `total_bytes / elapsed_seconds / 60 < min_rate_bpm` is taken exactly,
/// cross-multiplied over the integers.
pub open spec fn spec_too_slow(p: RelayPolicy, elapsed_millis: u64, total_bytes: usize) -> bool {
    elapsed_millis >= 30000 && total_bytes as int * 1000 < p.min_rate_bpm as int * elapsed_millis as int
        * 60
}

/// The full rate check: disabled policies always pass; otherwise the
/// upper bound is tested before the lower one.
pub open spec fn spec_check_rates(p: RelayPolicy, elapsed_millis: u64, total_bytes: usize) -> Result<
    (),
    RelayShutdownReasons,
> {
    if spec_rates_disabled(p) {
        Ok(())
    } else if spec_too_fast(p, elapsed_millis, total_bytes) {
        Err(RelayShutdownReasons::TooFast)
    } else if spec_too_slow(p, elapsed_millis, total_bytes) {
        Err(RelayShutdownReasons::TooSlow)
    } else {
        Ok(())
    }
}

impl RelayPolicy {
    /// An idle timeout of `NO_TIMEOUT_MILLIS` or more stands for "no
    /// timeout": the I/O loop then awaits reads and writes unboundedly.
    pub fn timeout_disabled(&self) -> (r: bool)
        ensures
            r == (self.idle_timeout_millis >= NO_TIMEOUT_MILLIS),
    {
        self.idle_timeout_millis >= NO_TIMEOUT_MILLIS
    }

    /// Rate limiting over the window since the relay started: too-fast
    /// detection guards against bandwidth abuse, too-slow detection
    /// against slow-drip connections that hold resources open.
    pub fn check_transimission_rates(&self, elapsed_millis: u64, total_bytes: usize) -> (r: Result<
        (),
        RelayShutdownReasons,
    >)
        ensures
            r == spec_check_rates(*self, elapsed_millis, total_bytes),
    {
        if self.min_rate_bpm == 0 && self.max_rate_bpm >= NO_BANDWIDTH_LIMIT {
            return Ok(());
        }
        let elapsed_secs: u64 = elapsed_millis / 1000;
        if elapsed_millis > 5000 && (total_bytes as u64) / elapsed_secs > self.max_rate_bpm {
            Err(RelayShutdownReasons::TooFast)
        } else {
            let scaled_bytes: u128 = (total_bytes as u128) * 1000 / 60;
            proof {
                assert(self.min_rate_bpm as int * elapsed_millis as int <= u64::MAX as int
                    * u64::MAX as int) by (nonlinear_arith)
                    requires
                        self.min_rate_bpm <= u64::MAX,
                        elapsed_millis <= u64::MAX,
                ;
            }
            let floor_rate: u128 = (self.min_rate_bpm as u128) * (elapsed_millis as u128);
            if elapsed_millis >= 30000 && scaled_bytes < floor_rate {
                proof {
                    assert(total_bytes as int * 1000 / 60 < self.min_rate_bpm as int
                        * elapsed_millis as int ==> total_bytes as int * 1000
                        < self.min_rate_bpm as int * elapsed_millis as int * 60)
                        by (nonlinear_arith);
                }
                Err(RelayShutdownReasons::TooSlow)
            } else {
                proof {
                    assert(total_bytes as int * 1000 / 60 >= self.min_rate_bpm as int
                        * elapsed_millis as int ==> total_bytes as int * 1000
                        >= self.min_rate_bpm as int * elapsed_millis as int * 60)
                        by (nonlinear_arith);
                }
                Ok(())
            }
        }
    }
}

/// A client that streams faster than the configured upper bound for more
/// than five seconds is stopped with `TooFast`, whenever any rate bound
/// is configured at all.
pub proof fn lemma_fast_client_stopped(p: RelayPolicy, elapsed_millis: u64, total_bytes: usize)
    requires
        !spec_rates_disabled(p),
        elapsed_millis > 5000,
        total_bytes as int / (elapsed_millis as int / 1000) > p.max_rate_bpm,
    ensures
        spec_check_rates(p, elapsed_millis, total_bytes) == Err::<(), _>(
            RelayShutdownReasons::TooFast,
        ),
{
}

/// A client that streams below the configured minimum bytes-per-minute
/// rate for thirty seconds or more is stopped with `TooSlow`, provided
/// it has not already been stopped for exceeding the upper bound.
pub proof fn lemma_slow_client_stopped(p: RelayPolicy, elapsed_millis: u64, total_bytes: usize)
    requires
        p.min_rate_bpm > 0,
        elapsed_millis >= 30000,
        total_bytes as int * 1000 < p.min_rate_bpm as int * elapsed_millis as int * 60,
        !spec_too_fast(p, elapsed_millis, total_bytes),
    ensures
        spec_check_rates(p, elapsed_millis, total_bytes) == Err::<(), _>(
            RelayShutdownReasons::TooSlow,
        ),
{
}

/// What one policed read attempt produced, as the I/O loop saw it.
#[derive(Clone, Copy, PartialEq, Eq, Structural, Debug)]
pub enum ReadOutcome {
    /// The idle timeout elapsed before any bytes arrived.
    TimedOut,
    /// The read returned `n` bytes; zero means an orderly end of stream.
    Data(usize),
    /// The read failed with an I/O error.
    Failed,
}

/// What one policed write attempt produced.
#[derive(Clone, Copy, PartialEq, Eq, Structural, Debug)]
pub enum WriteOutcome {
    /// The idle timeout elapsed before the bytes were accepted.
    TimedOut,
    /// The whole slice was written.
    Written,
    /// The write failed with an I/O error.
    Failed,
}

/// Byte and event counters of one relay direction, updated once per
/// successfully relayed chunk.
#[derive(Clone, Copy, PartialEq, Eq, Structural, Debug)]
pub struct RelayProgress {
    pub total_bytes: usize,
    pub event_count: usize,
}

impl RelayProgress {
    pub fn new() -> (r: Self)
        ensures
            r.total_bytes == 0,
            r.event_count == 0,
    {
        RelayProgress { total_bytes: 0, event_count: 0 }
    }

    /// Account one relayed chunk of `n` bytes.
    pub fn record(&mut self, n: usize)
        requires
            old(self).total_bytes + n <= usize::MAX,
            old(self).event_count + 1 <= usize::MAX,
        ensures
            final(self).total_bytes == old(self).total_bytes + n,
            final(self).event_count == old(self).event_count + 1,
    {
        self.total_bytes = self.total_bytes + n;
        self.event_count = self.event_count + 1;
    }
}

/// Statistics reported when a relay direction closes.
#[derive(Clone, Copy, PartialEq, Eq, Structural, Debug)]
pub struct RelayStats {
    pub shutdown_reason: RelayShutdownReasons,
    pub total_bytes: usize,
    pub event_count: usize,
    pub duration_millis: u64,
}

/// One direction of a tunnel: its label, the policy that governs it, and
/// the connection's correlation identifier.
#[derive(Clone, Copy)]
pub struct Relay {
    pub name: &'static str,
    pub relay_policy: RelayPolicy,
    pub tunnel_ctx: TunnelCtx,
}

impl Relay {
    pub fn new(name: &'static str, relay_policy: RelayPolicy, tunnel_ctx: TunnelCtx) -> (r: Self)
        ensures
            r.name == name,
            r.relay_policy == relay_policy,
            r.tunnel_ctx == tunnel_ctx,
    {
        Relay { name, relay_policy, tunnel_ctx }
    }

    /// How a read outcome advances the pump: a timeout, an error or an
    /// orderly close each stop it with the matching reason; data keeps it
    /// running.
    pub fn on_read(&self, outcome: &ReadOutcome) -> (r: Result<usize, RelayShutdownReasons>)
        ensures
            r == match *outcome {
                ReadOutcome::TimedOut => Err::<usize, _>(RelayShutdownReasons::ReaderTimeout),
                ReadOutcome::Data(n) => if n == 0 {
                    Err::<usize, _>(RelayShutdownReasons::GracefulShutdown)
                } else {
                    Ok::<_, RelayShutdownReasons>(n)
                },
                ReadOutcome::Failed => Err::<usize, _>(RelayShutdownReasons::ReadError),
            },
    {
        match *outcome {
            ReadOutcome::TimedOut => Err(RelayShutdownReasons::ReaderTimeout),
            ReadOutcome::Data(n) => if n == 0 {
                Err(RelayShutdownReasons::GracefulShutdown)
            } else {
                Ok(n)
            },
            ReadOutcome::Failed => Err(RelayShutdownReasons::ReadError),
        }
    }

    /// How a write outcome advances the pump.
    pub fn on_write(&self, outcome: &WriteOutcome) -> (r: Result<(), RelayShutdownReasons>)
        ensures
            r == match *outcome {
                WriteOutcome::TimedOut => Err::<(), _>(RelayShutdownReasons::WriterTimeout),
                WriteOutcome::Written => Ok::<(), RelayShutdownReasons>(()),
                WriteOutcome::Failed => Err::<(), _>(RelayShutdownReasons::WriteError),
            },
    {
        match *outcome {
            WriteOutcome::TimedOut => Err(RelayShutdownReasons::WriterTimeout),
            WriteOutcome::Written => Ok(()),
            WriteOutcome::Failed => Err(RelayShutdownReasons::WriteError),
        }
    }

    /// The statistics record for a finished direction.
    pub fn stats(
        &self,
        shutdown_reason: RelayShutdownReasons,
        progress: &RelayProgress,
        duration_millis: u64,
    ) -> (r: RelayStats)
        ensures
            r.shutdown_reason == shutdown_reason,
            r.total_bytes == progress.total_bytes,
            r.event_count == progress.event_count,
            r.duration_millis == duration_millis,
    {
        RelayStats {
            shutdown_reason,
            total_bytes: progress.total_bytes,
            event_count: progress.event_count,
            duration_millis,
        }
    }
}

} // verus!
