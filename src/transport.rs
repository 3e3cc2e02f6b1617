//! The reconnecting transport's decisions, as a state machine driven by
//! socket, timer and caller events. Whoever owns the socket and the timers
//! feeds each event to `Transport::step` and performs the action it returns.

use vstd::prelude::*;
use vstd::arithmetic::power::pow;
use crate::backoff::{backoff_delay, min_int, BackoffPolicy};

verus! {

/// The transport's lifecycle.
#[derive(Clone, Copy, Debug, PartialEq, Eq, Structural)]
pub enum ConnectionState {
    Disconnected,
    Connecting,
    Connected,
    Reconnecting,
}

/// Something that happened to the transport. Times are in milliseconds of
/// the caller's clock.
#[derive(Clone, Copy, Debug, PartialEq, Eq, Structural)]
pub enum TransportEvent {
    /// The caller asks for a connection (start, or explicit reconnect).
    Connect,
    /// The handshake of the pending attempt completed.
    HandshakeSucceeded { now: u64 },
    /// The pending attempt failed or timed out.
    HandshakeFailed,
    /// The open socket errored or closed abnormally.
    SocketLost,
    /// The backoff timer fired.
    BackoffElapsed,
    /// A frame (data or heartbeat, well-formed or not) arrived.
    FrameReceived { now: u64 },
    /// A periodic clock tick, for keepalive and staleness.
    Tick { now: u64 },
    /// The caller shuts the transport down for good.
    Disconnect,
}

/// What the owner of the socket and timers must do next.
#[derive(Clone, Copy, Debug, PartialEq, Eq, Structural)]
pub enum TransportAction {
    Nothing,
    /// Start a connection attempt.
    OpenSocket,
    /// Release any socket and start the backoff timer for `delay_ms`
    /// (before jitter).
    StartBackoff { delay_ms: u64 },
    /// Send an outbound keepalive.
    SendPing,
    /// Cancel any timer and pending attempt and release the socket.
    Shutdown,
}

/// Client configuration of the transport.
#[derive(Clone, Copy, Debug, PartialEq, Eq, Structural)]
pub struct TransportConfig {
    pub backoff: BackoffPolicy,
    /// Keepalive period; also the unit of the staleness limit.
    pub heartbeat_ms: u64,
    /// A connection with no inbound frame for more than
    /// `heartbeat_ms * stale_after` is treated as dead.
    pub stale_after: u64,
}

/// The transport's state.
#[derive(Clone, Copy, Debug, PartialEq, Eq, Structural)]
pub struct Transport {
    pub state: ConnectionState,
    /// Consecutive failed attempts since the last successful connection.
    pub failures: u64,
    /// When the last inbound frame (or the handshake) arrived.
    pub last_seen: u64,
    /// When the last keepalive went out (or the handshake completed).
    pub last_ping: u64,
    /// Set by `Disconnect`; the instance then ignores every event.
    pub shut_down: bool,
    pub config: TransportConfig,
}

/// No frame has arrived for longer than the staleness limit.
pub open spec fn is_stale(t: Transport, now: u64) -> bool {
    now > t.last_seen && now - t.last_seen > t.config.heartbeat_ms * t.config.stale_after
}

/// The transition on a transport fault: count the failure (saturating) and
/// back off for the delay that the new count gives.
pub open spec fn after_failure(t: Transport) -> (Transport, TransportAction) {
    let n: u64 = if t.failures < u64::MAX { (t.failures + 1) as u64 } else { u64::MAX };
    (
        Transport { state: ConnectionState::Reconnecting, failures: n, ..t },
        TransportAction::StartBackoff {
            delay_ms: backoff_delay(t.config.backoff.base_ms, t.config.backoff.factor, t.config.backoff.max_ms, n as nat) as u64,
        },
    )
}

/// The transport's transition function: the next state and the action to
/// perform. Events that do not apply in the current state change nothing.
pub open spec fn next(t: Transport, e: TransportEvent) -> (Transport, TransportAction) {
    if t.shut_down {
        (t, TransportAction::Nothing)
    } else {
        match e {
            TransportEvent::Connect =>
                if t.state == ConnectionState::Disconnected {
                    (Transport { state: ConnectionState::Connecting, ..t }, TransportAction::OpenSocket)
                } else {
                    (t, TransportAction::Nothing)
                },
            TransportEvent::HandshakeSucceeded { now } =>
                if t.state == ConnectionState::Connecting {
                    (Transport { state: ConnectionState::Connected, failures: 0, last_seen: now, last_ping: now, ..t },
                     TransportAction::Nothing)
                } else {
                    (t, TransportAction::Nothing)
                },
            TransportEvent::HandshakeFailed =>
                if t.state == ConnectionState::Connecting { after_failure(t) } else { (t, TransportAction::Nothing) },
            TransportEvent::SocketLost =>
                if t.state == ConnectionState::Connected { after_failure(t) } else { (t, TransportAction::Nothing) },
            TransportEvent::BackoffElapsed =>
                if t.state == ConnectionState::Reconnecting {
                    (Transport { state: ConnectionState::Connecting, ..t }, TransportAction::OpenSocket)
                } else {
                    (t, TransportAction::Nothing)
                },
            TransportEvent::FrameReceived { now } =>
                if t.state == ConnectionState::Connected {
                    (Transport { last_seen: now, ..t }, TransportAction::Nothing)
                } else {
                    (t, TransportAction::Nothing)
                },
            TransportEvent::Tick { now } =>
                if t.state != ConnectionState::Connected {
                    (t, TransportAction::Nothing)
                } else if is_stale(t, now) {
                    after_failure(t)
                } else if now >= t.last_ping && now - t.last_ping >= t.config.heartbeat_ms {
                    (Transport { last_ping: now, ..t }, TransportAction::SendPing)
                } else {
                    (t, TransportAction::Nothing)
                },
            TransportEvent::Disconnect =>
                (Transport { state: ConnectionState::Disconnected, shut_down: true, ..t }, TransportAction::Shutdown),
        }
    }
}

/// `t` after `k` rounds of a failed attempt followed by its backoff timer.
pub open spec fn retried(t: Transport, k: nat) -> Transport
    decreases k,
{
    if k == 0 {
        t
    } else {
        next(next(retried(t, (k - 1) as nat), TransportEvent::HandshakeFailed).0, TransportEvent::BackoffElapsed).0
    }
}

/// Backoff growth: starting from a fresh attempt, the `(k + 1)`-th
/// consecutive failure backs off for `min(base * factor^k, max)`.
pub proof fn lemma_backoff_growth(t: Transport, k: nat)
    requires
        t.wf(),
        !t.shut_down,
        t.state == ConnectionState::Connecting,
        t.failures == 0,
        k < u64::MAX,
    ensures
        retried(t, k).state == ConnectionState::Connecting,
        retried(t, k).failures == k,
        retried(t, k).config == t.config,
        !retried(t, k).shut_down,
        next(retried(t, k), TransportEvent::HandshakeFailed).1 == (TransportAction::StartBackoff {
            delay_ms: min_int(t.config.backoff.base_ms * pow(t.config.backoff.factor as int, k),
                t.config.backoff.max_ms as int) as u64,
        }),
    decreases k,
{
    if k > 0 {
        lemma_backoff_growth(t, (k - 1) as nat);
    }
}

/// Backoff reset: once an attempt succeeds, the next failure backs off for
/// `min(base, max)` again, whatever came before.
pub proof fn lemma_backoff_resets(t: Transport, now: u64)
    requires
        t.wf(),
        !t.shut_down,
        t.state == ConnectionState::Connecting,
    ensures
        next(t, TransportEvent::HandshakeSucceeded { now }).0.state == ConnectionState::Connected,
        next(t, TransportEvent::HandshakeSucceeded { now }).0.failures == 0,
        next(next(t, TransportEvent::HandshakeSucceeded { now }).0, TransportEvent::SocketLost).1
            == (TransportAction::StartBackoff {
                delay_ms: min_int(t.config.backoff.base_ms as int, t.config.backoff.max_ms as int) as u64,
            }),
{
    vstd::arithmetic::power::lemma_pow0(t.config.backoff.factor as int);
}

/// A transport reaches `Connecting` only on the caller's `Connect` from
/// `Disconnected`, or when the backoff timer fires in `Reconnecting`; losing
/// the socket while `Connected` moves to `Reconnecting` and starts that timer.
pub proof fn lemma_reconnect_waits_for_timer(t: Transport, e: TransportEvent)
    requires
        t.wf(),
    ensures
        next(t, e).0.state == ConnectionState::Connecting && t.state != ConnectionState::Connecting ==> {
            ||| t.state == ConnectionState::Disconnected && e == TransportEvent::Connect
            ||| t.state == ConnectionState::Reconnecting && e == TransportEvent::BackoffElapsed
        },
        t.state == ConnectionState::Connected && e == TransportEvent::SocketLost ==> {
            &&& next(t, e).0.state == ConnectionState::Reconnecting
            &&& next(t, e).1 is StartBackoff
        },
{
}

impl Transport {
    /// A transport with `config` that has not started yet.
    pub open spec fn new_spec(config: TransportConfig) -> Transport {
        Transport {
            state: ConnectionState::Disconnected,
            failures: 0,
            last_seen: 0,
            last_ping: 0,
            shut_down: false,
            config,
        }
    }

    /// The backoff policy is usable and a shut-down transport stays
    /// disconnected.
    pub open spec fn wf(&self) -> bool {
        &&& self.config.backoff.wf()
        &&& self.shut_down ==> self.state == ConnectionState::Disconnected
    }

    /// A transport that has not started yet.
    pub fn new(config: TransportConfig) -> (r: Transport)
        requires
            config.backoff.wf(),
        ensures
            r.wf(),
            r == Transport::new_spec(config),
    {
        Transport {
            state: ConnectionState::Disconnected,
            failures: 0,
            last_seen: 0,
            last_ping: 0,
            shut_down: false,
            config,
        }
    }

    fn fail(&mut self) -> (r: TransportAction)
        requires
            old(self).wf(),
        ensures
            (*final(self), r) == after_failure(*old(self)),
    {
        if self.failures < u64::MAX {
            self.failures = self.failures + 1;
        }
        self.state = ConnectionState::Reconnecting;
        let delay_ms = self.config.backoff.delay(self.failures);
        TransportAction::StartBackoff { delay_ms }
    }

    fn stale(&self, now: u64) -> (r: bool)
        ensures
            r == is_stale(*self, now),
    {
        if now <= self.last_seen {
            return false;
        }
        let hb = self.config.heartbeat_ms as u128;
        let k = self.config.stale_after as u128;
        assert(hb * k <= 0xffff_ffff_ffff_ffff * 0xffff_ffff_ffff_ffff) by (nonlinear_arith)
            requires hb <= 0xffff_ffff_ffff_ffff, k <= 0xffff_ffff_ffff_ffff;
        (now - self.last_seen) as u128 > hb * k
    }

    /// Takes one event and returns what to do about it; see `next`.
    pub fn step(&mut self, e: TransportEvent) -> (r: TransportAction)
        requires
            old(self).wf(),
        ensures
            final(self).wf(),
            (*final(self), r) == next(*old(self), e),
    {
        if self.shut_down {
            return TransportAction::Nothing;
        }
        match e {
            TransportEvent::Connect => {
                if self.state == ConnectionState::Disconnected {
                    self.state = ConnectionState::Connecting;
                    TransportAction::OpenSocket
                } else {
                    TransportAction::Nothing
                }
            },
            TransportEvent::HandshakeSucceeded { now } => {
                if self.state == ConnectionState::Connecting {
                    self.state = ConnectionState::Connected;
                    self.failures = 0;
                    self.last_seen = now;
                    self.last_ping = now;
                }
                TransportAction::Nothing
            },
            TransportEvent::HandshakeFailed => {
                if self.state == ConnectionState::Connecting { self.fail() } else { TransportAction::Nothing }
            },
            TransportEvent::SocketLost => {
                if self.state == ConnectionState::Connected { self.fail() } else { TransportAction::Nothing }
            },
            TransportEvent::BackoffElapsed => {
                if self.state == ConnectionState::Reconnecting {
                    self.state = ConnectionState::Connecting;
                    TransportAction::OpenSocket
                } else {
                    TransportAction::Nothing
                }
            },
            TransportEvent::FrameReceived { now } => {
                if self.state == ConnectionState::Connected {
                    self.last_seen = now;
                }
                TransportAction::Nothing
            },
            TransportEvent::Tick { now } => {
                if self.state != ConnectionState::Connected {
                    TransportAction::Nothing
                } else if self.stale(now) {
                    self.fail()
                } else if now >= self.last_ping && now - self.last_ping >= self.config.heartbeat_ms {
                    self.last_ping = now;
                    TransportAction::SendPing
                } else {
                    TransportAction::Nothing
                }
            },
            TransportEvent::Disconnect => {
                self.state = ConnectionState::Disconnected;
                self.shut_down = true;
                TransportAction::Shutdown
            },
        }
    }
}

} // verus!
