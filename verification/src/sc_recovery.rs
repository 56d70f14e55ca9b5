//! Reconnect policy of the BACnet/SC transport after its hub connection drops.
//!
//! The asynchronous recovery loop sleeps, dials and handshakes; every choice
//! it makes between those steps is taken here: which hub the next attempt
//! targets, how long it waits first, whether a failed dial or handshake is
//! retried, and whether the primary's exhaustion falls back to the failover
//! hub. Delays double after each failure up to the configured maximum.

use vstd::prelude::*;
use vstd::arithmetic::power2::{lemma_pow2_pos, lemma_pow2_unfold, pow2};
use crate::error::{error_text, Error};

verus! {

/// Hub a BACnet/SC node is (or is to be) connected to.
#[derive(Clone, Copy, Debug, PartialEq, Eq, Structural)]
pub enum ActiveHub {
    /// The primary hub.
    Primary,
    /// The failover hub.
    Failover,
}

/// The other hub.
pub open spec fn other_hub(h: ActiveHub) -> ActiveHub {
    match h {
        ActiveHub::Primary => ActiveHub::Failover,
        ActiveHub::Failover => ActiveHub::Primary,
    }
}

impl ActiveHub {
    /// The other hub.
    pub fn other(self) -> (r: ActiveHub)
        ensures
            r == other_hub(self),
    {
        match self {
            ActiveHub::Primary => ActiveHub::Failover,
            ActiveHub::Failover => ActiveHub::Primary,
        }
    }

    /// Label of the hub in health reports.
    pub fn label(self) -> (r: &'static str)
        ensures
            self == ActiveHub::Primary ==> r@ == "primary"@,
            self == ActiveHub::Failover ==> r@ == "failover"@,
    {
        match self {
            ActiveHub::Primary => "primary",
            ActiveHub::Failover => "failover",
        }
    }
}

/// Reconnect settings.
#[derive(Clone, Copy, Debug, PartialEq, Eq, Structural)]
pub struct ScReconnectConfig {
    /// Delay before the first attempt, in milliseconds.
    pub initial_delay_ms: u64,
    /// Largest delay between attempts, in milliseconds.
    pub max_delay_ms: u64,
    /// Attempts before giving up, unless retrying forever.
    pub max_retries: u32,
    /// Retry without limit, alternating hubs when both are configured.
    pub retry_forever: bool,
}

/// Hub targeted by attempt number `attempt` (counted from one).
pub open spec fn attempt_target(config: ScReconnectConfig, active: ActiveHub, alternate_available: bool, attempt: u64) -> ActiveHub {
    if config.retry_forever && alternate_available && attempt % 2 == 0 {
        other_hub(active)
    } else {
        active
    }
}

/// Delay after a failure: doubled, capped at `max`.
pub open spec fn doubled_backoff(backoff: u64, max: u64) -> u64 {
    if 2 * backoff <= max {
        (2 * backoff) as u64
    } else {
        max
    }
}

/// How an attempt reaches its hub.
#[derive(Clone, Copy, Debug, PartialEq, Eq, Structural)]
pub enum DialRoute {
    /// Use the preconfigured failover socket or the failover connector.
    FreshFailover,
    /// Redial the hub through its connector.
    Redial(ActiveHub),
}

/// One planned reconnect attempt.
#[derive(Clone, Copy, Debug, PartialEq, Eq, Structural)]
pub struct AttemptPlan {
    /// Attempt number, counted from one.
    pub attempt: u64,
    /// Hub the attempt targets.
    pub target_hub: ActiveHub,
    /// Delay to wait before dialing, in milliseconds.
    pub delay_ms: u64,
}

/// What dialing produced.
#[derive(Clone, Copy, Debug, PartialEq, Eq, Structural)]
pub enum DialOutcome {
    /// A fresh socket.
    Connected,
    /// No connector could produce a fresh socket.
    NoConnector,
    /// The dial failed.
    Failed,
}

/// What to do after dialing.
#[derive(Clone, Copy, Debug, PartialEq, Eq, Structural)]
pub enum DialDecision {
    /// Handshake on the fresh socket, or on the current one when `reuse_current`.
    Handshake {
        /// Handshake on the socket the node already has.
        reuse_current: bool,
    },
    /// Plan the next attempt.
    Retry,
    /// Stop the attempt loop.
    GiveUp,
}

/// What to do after a handshake.
#[derive(Clone, Copy, Debug, PartialEq, Eq, Structural)]
pub enum HandshakeDecision {
    /// Connected to the hub.
    Connected(ActiveHub),
    /// Plan the next attempt.
    Retry,
    /// Stop the attempt loop.
    GiveUp,
}

/// State of one recovery after a disconnect.
#[derive(Clone, Copy, Debug)]
pub struct ReconnectPlanner {
    config: ScReconnectConfig,
    active_hub: ActiveHub,
    alternate_available: bool,
    current_reusable: bool,
    attempt: u64,
    backoff_ms: u64,
    target: ActiveHub,
}

/// Largest delay a recovery ever waits.
pub open spec fn backoff_bound(config: ScReconnectConfig) -> u64 {
    if config.initial_delay_ms >= config.max_delay_ms {
        config.initial_delay_ms
    } else {
        config.max_delay_ms
    }
}

impl ReconnectPlanner {
    /// Settings.
    pub closed spec fn config_view(&self) -> ScReconnectConfig {
        self.config
    }

    /// Hub the node was connected to.
    pub closed spec fn active_view(&self) -> ActiveHub {
        self.active_hub
    }

    /// Whether the other hub can be reached.
    pub closed spec fn alternate_view(&self) -> bool {
        self.alternate_available
    }

    /// Whether the current socket may be handshaken again.
    pub closed spec fn reusable_view(&self) -> bool {
        self.current_reusable
    }

    /// Attempts planned so far.
    pub closed spec fn attempt_view(&self) -> u64 {
        self.attempt
    }

    /// Delay before the next attempt.
    pub closed spec fn backoff_view(&self) -> u64 {
        self.backoff_ms
    }

    /// Hub of the current attempt.
    pub closed spec fn target_view(&self) -> ActiveHub {
        self.target
    }

    #[verifier::type_invariant]
    closed spec fn inv(&self) -> bool {
        &&& self.backoff_ms <= backoff_bound(self.config)
        &&& (!self.config.retry_forever ==> self.attempt <= self.config.max_retries)
    }

    /// A recovery from `active_hub`, before its first attempt.
    pub fn new(config: ScReconnectConfig, active_hub: ActiveHub, alternate_available: bool, current_reusable: bool) -> (r: ReconnectPlanner)
        ensures
            r.config_view() == config,
            r.active_view() == active_hub,
            r.alternate_view() == alternate_available,
            r.reusable_view() == current_reusable,
            r.attempt_view() == 0,
            r.backoff_view() == config.initial_delay_ms,
            r.target_view() == active_hub,
    {
        ReconnectPlanner {
            config,
            active_hub,
            alternate_available,
            current_reusable,
            attempt: 0,
            backoff_ms: config.initial_delay_ms,
            target: active_hub,
        }
    }

    /// The delay never exceeds the larger of the initial and maximum delays,
    /// and a bounded recovery plans at most `max_retries` attempts.
    pub fn bounds(&self) -> (r: (u64, u64))
        ensures
            r == (self.backoff_view(), self.attempt_view()),
            self.backoff_view() <= backoff_bound(self.config_view()),
            !self.config_view().retry_forever ==> self.attempt_view() <= self.config_view().max_retries,
    {
        proof {
            use_type_invariant(self);
        }
        (self.backoff_ms, self.attempt)
    }

    /// Plans the next attempt: `None` once a bounded recovery has used all
    /// its attempts. The attempt waits the current delay and targets the
    /// other hub on every even attempt of an endless recovery that has one.
    pub fn next_attempt(&mut self) -> (r: Option<AttemptPlan>)
        ensures
            r is None <==> (!old(self).config_view().retry_forever && old(self).attempt_view()
                >= old(self).config_view().max_retries),
            r is None ==> *final(self) == *old(self),
            r matches Some(p) ==> {
                &&& p.attempt == final(self).attempt_view()
                &&& final(self).attempt_view() == (if old(self).attempt_view() == u64::MAX {
                    u64::MAX
                } else {
                    (old(self).attempt_view() + 1) as u64
                })
                &&& p.target_hub == attempt_target(
                    old(self).config_view(),
                    old(self).active_view(),
                    old(self).alternate_view(),
                    p.attempt,
                )
                &&& p.delay_ms == old(self).backoff_view()
                &&& final(self).target_view() == p.target_hub
                &&& final(self).backoff_view() == old(self).backoff_view()
                &&& final(self).config_view() == old(self).config_view()
                &&& final(self).active_view() == old(self).active_view()
                &&& final(self).alternate_view() == old(self).alternate_view()
                &&& final(self).reusable_view() == old(self).reusable_view()
            },
    {
        proof {
            use_type_invariant(&*self);
        }
        if !self.config.retry_forever && self.attempt >= self.config.max_retries as u64 {
            return None;
        }
        self.attempt = self.attempt.saturating_add(1);
        let target = if self.config.retry_forever && self.alternate_available && self.attempt % 2 == 0 {
            self.active_hub.other()
        } else {
            self.active_hub
        };
        self.target = target;
        Some(AttemptPlan { attempt: self.attempt, target_hub: target, delay_ms: self.backoff_ms })
    }

    /// After the delay: `None` when the hub's last answer forbids retrying,
    /// else how to dial the target hub (a fresh failover connection when the
    /// attempt switches to the failover hub).
    pub fn dial_route(&self, retry_allowed: bool) -> (r: Option<DialRoute>)
        ensures
            !retry_allowed ==> r is None,
            retry_allowed && self.target_view() == ActiveHub::Failover && self.target_view() != self.active_view()
                ==> r == Some(DialRoute::FreshFailover),
            retry_allowed && !(self.target_view() == ActiveHub::Failover && self.target_view() != self.active_view())
                ==> r == Some(DialRoute::Redial(self.target_view())),
    {
        if !retry_allowed {
            None
        } else if self.target == ActiveHub::Failover && self.target != self.active_hub {
            Some(DialRoute::FreshFailover)
        } else {
            Some(DialRoute::Redial(self.target))
        }
    }

    /// Doubles the delay, capped at the maximum.
    fn back_off(&mut self)
        ensures
            final(self).backoff_view() == doubled_backoff(old(self).backoff_view(), old(self).config_view().max_delay_ms),
            final(self).attempt_view() == old(self).attempt_view(),
            final(self).target_view() == old(self).target_view(),
            final(self).config_view() == old(self).config_view(),
            final(self).active_view() == old(self).active_view(),
            final(self).alternate_view() == old(self).alternate_view(),
            final(self).reusable_view() == old(self).reusable_view(),
    {
        proof {
            use_type_invariant(&*self);
        }
        let max = self.config.max_delay_ms;
        self.backoff_ms = if self.backoff_ms <= max / 2 {
            self.backoff_ms * 2
        } else {
            max
        };
    }

    /// Decision after dialing: handshake on a fresh socket, on the current
    /// socket when no fresh one exists but it may be reused for its own hub,
    /// otherwise retry after backing off (a missing connector ends a bounded
    /// recovery).
    pub fn after_dial(&mut self, outcome: DialOutcome) -> (r: DialDecision)
        ensures
            outcome == DialOutcome::Connected ==> r == (DialDecision::Handshake { reuse_current: false }),
            outcome == DialOutcome::NoConnector && old(self).target_view() == old(self).active_view()
                && old(self).reusable_view() ==> r == (DialDecision::Handshake { reuse_current: true }),
            outcome == DialOutcome::NoConnector && !(old(self).target_view() == old(self).active_view()
                && old(self).reusable_view()) ==> r == (if old(self).config_view().retry_forever {
                DialDecision::Retry
            } else {
                DialDecision::GiveUp
            }),
            outcome == DialOutcome::Failed ==> r == DialDecision::Retry,
            r == DialDecision::Retry ==> final(self).backoff_view() == doubled_backoff(
                old(self).backoff_view(),
                old(self).config_view().max_delay_ms,
            ),
            r != DialDecision::Retry ==> final(self).backoff_view() == old(self).backoff_view(),
            final(self).attempt_view() == old(self).attempt_view(),
            final(self).target_view() == old(self).target_view(),
            final(self).config_view() == old(self).config_view(),
            final(self).active_view() == old(self).active_view(),
            final(self).alternate_view() == old(self).alternate_view(),
            final(self).reusable_view() == old(self).reusable_view(),
    {
        match outcome {
            DialOutcome::Connected => DialDecision::Handshake { reuse_current: false },
            DialOutcome::NoConnector => {
                if self.target == self.active_hub && self.current_reusable {
                    DialDecision::Handshake { reuse_current: true }
                } else if self.config.retry_forever {
                    self.back_off();
                    DialDecision::Retry
                } else {
                    DialDecision::GiveUp
                }
            },
            DialOutcome::Failed => {
                self.back_off();
                DialDecision::Retry
            },
        }
    }

    /// Decision after a handshake: connected to the target hub, or retry
    /// after backing off unless the hub forbids retrying.
    pub fn after_handshake(&mut self, succeeded: bool, retry_allowed: bool) -> (r: HandshakeDecision)
        ensures
            succeeded ==> r == HandshakeDecision::Connected(old(self).target_view()),
            !succeeded && !retry_allowed ==> r == HandshakeDecision::GiveUp,
            !succeeded && retry_allowed ==> r == HandshakeDecision::Retry,
            r == HandshakeDecision::Retry ==> final(self).backoff_view() == doubled_backoff(
                old(self).backoff_view(),
                old(self).config_view().max_delay_ms,
            ),
            r != HandshakeDecision::Retry ==> final(self).backoff_view() == old(self).backoff_view(),
            final(self).attempt_view() == old(self).attempt_view(),
            final(self).target_view() == old(self).target_view(),
            final(self).config_view() == old(self).config_view(),
            final(self).active_view() == old(self).active_view(),
            final(self).alternate_view() == old(self).alternate_view(),
            final(self).reusable_view() == old(self).reusable_view(),
    {
        if succeeded {
            HandshakeDecision::Connected(self.target)
        } else if !retry_allowed {
            HandshakeDecision::GiveUp
        } else {
            self.back_off();
            HandshakeDecision::Retry
        }
    }

    /// Whether, after the attempt loop ends, a bounded recovery from the
    /// primary hub tries the failover hub once.
    pub fn tries_failover_after_exhaustion(&self, retry_allowed: bool) -> (r: bool)
        ensures
            r == (!self.config_view().retry_forever && self.active_view() == ActiveHub::Primary && retry_allowed),
    {
        !self.config.retry_forever && self.active_hub == ActiveHub::Primary && retry_allowed
    }

    /// Attempt number reported for the failover attempt after exhaustion.
    pub fn exhaustion_attempt(&self) -> (r: u64)
        ensures
            r == (if self.attempt_view() == u64::MAX {
                u64::MAX
            } else {
                (self.attempt_view() + 1) as u64
            }),
    {
        self.attempt.saturating_add(1)
    }
}

/// An endless recovery with a reachable alternate hub alternates: each
/// attempt targets the other hub than the attempt before it, starting with
/// the hub it was connected to.
pub proof fn lemma_endless_recovery_alternates(config: ScReconnectConfig, active: ActiveHub, attempt: u64)
    requires
        config.retry_forever,
        1 <= attempt < u64::MAX,
    ensures
        attempt_target(config, active, true, 1) == active,
        attempt_target(config, active, true, (attempt + 1) as u64) == other_hub(
            attempt_target(config, active, true, attempt),
        ),
{
    assert(attempt % 2 == 0 ==> (attempt + 1) % 2 == 1);
    assert(attempt % 2 == 1 ==> (attempt + 1) % 2 == 0);
}

/// Without an alternate hub, or when bounded, every attempt targets the hub
/// the node was connected to.
pub proof fn lemma_single_hub_recovery_stays(config: ScReconnectConfig, active: ActiveHub, alternate_available: bool, attempt: u64)
    requires
        !config.retry_forever || !alternate_available,
    ensures
        attempt_target(config, active, alternate_available, attempt) == active,
{
}

/// Backing off never shortens a delay that is within the maximum, and never
/// exceeds the maximum.
pub proof fn lemma_backoff_grows_to_cap(backoff: u64, max: u64)
    requires
        backoff <= max,
    ensures
        backoff <= doubled_backoff(backoff, max) <= max,
{
}

/// Delay before attempt `n` (counted from one) of a recovery in which every
/// attempt so far failed: the initial delay, doubled after each failure up to
/// the maximum, as [`ReconnectPlanner::after_dial`] and
/// [`ReconnectPlanner::after_handshake`] back off.
pub open spec fn attempt_delay(config: ScReconnectConfig, n: nat) -> u64
    decreases n,
{
    if n <= 1 {
        config.initial_delay_ms
    } else {
        doubled_backoff(attempt_delay(config, (n - 1) as nat), config.max_delay_ms)
    }
}

/// The delays of a failing recovery: attempt `n` waits
/// `min(initial_delay_ms * 2^(n-1), max_delay_ms)`.
pub proof fn lemma_attempt_delays(config: ScReconnectConfig, n: nat)
    requires
        n >= 1,
        config.initial_delay_ms <= config.max_delay_ms,
    ensures
        attempt_delay(config, n) as int == (if config.initial_delay_ms * pow2((n - 1) as nat)
            <= config.max_delay_ms {
            config.initial_delay_ms * pow2((n - 1) as nat)
        } else {
            config.max_delay_ms as int
        }),
    decreases n,
{
    let i = config.initial_delay_ms as int;
    let m = config.max_delay_ms as int;
    if n == 1 {
        assert(pow2(0) == 1) by {
            lemma_pow2_unfold_zero();
        }
        assert(i * pow2(0) == i) by (nonlinear_arith)
            requires
                pow2(0) == 1,
        ;
    } else {
        lemma_attempt_delays(config, (n - 1) as nat);
        let e = (n - 2) as nat;
        let p = pow2(e) as int;
        lemma_pow2_unfold((n - 1) as nat);
        lemma_pow2_pos(e);
        assert(pow2((n - 1) as nat) == 2 * p);
        assert(i * (2 * p) == 2 * (i * p)) by (nonlinear_arith);
        assert(i * p >= 0) by (nonlinear_arith)
            requires
                i >= 0,
                p > 0,
        ;
    }
}

/// The schedule of an endless recovery in which every attempt fails:
/// attempt `n` (counted from one) dials the other hub exactly when an
/// alternate hub exists and `n` is even, and otherwise the hub the node was
/// connected to; it waits `min(initial_delay_ms * 2^(n-1), max_delay_ms)`
/// milliseconds first; and the back-off after its failure is the delay of
/// attempt `n + 1`.
pub proof fn lemma_failing_recovery_schedule(
    config: ScReconnectConfig,
    active: ActiveHub,
    alternate_available: bool,
    n: nat,
)
    requires
        config.retry_forever,
        1 <= n < u64::MAX,
        config.initial_delay_ms <= config.max_delay_ms,
    ensures
        (attempt_target(config, active, alternate_available, n as u64) == other_hub(active)) <==> (
        alternate_available && n % 2 == 0),
        !(alternate_available && n % 2 == 0) ==> attempt_target(config, active, alternate_available, n as u64)
            == active,
        attempt_delay(config, n) as int == (if config.initial_delay_ms * pow2((n - 1) as nat)
            <= config.max_delay_ms {
            config.initial_delay_ms * pow2((n - 1) as nat)
        } else {
            config.max_delay_ms as int
        }),
        doubled_backoff(attempt_delay(config, n), config.max_delay_ms) == attempt_delay(config, n + 1),
{
    lemma_attempt_delays(config, n);
    assert(other_hub(active) != active);
}

proof fn lemma_pow2_unfold_zero()
    ensures
        pow2(0) == 1,
{
    vstd::arithmetic::power2::lemma2_to64();
}

/// The connection a BACnet/SC node starts with.
pub enum InitialScWebSocket<W> {
    /// The primary hub answered.
    Connected(W),
    /// The primary hub did not answer; recovery starts from the failover
    /// hub. Carries the detail text of the primary's failure.
    Unavailable(String),
}

/// The starting connection: the primary's socket when it connected; when it
/// did not, an unavailable start if a failover hub exists, else the
/// primary's error.
pub fn select_initial_sc_websocket<W>(primary: Result<W, Error>, has_failover: bool) -> (r: Result<
    InitialScWebSocket<W>,
    Error,
>)
    ensures
        primary is Ok ==> (r matches Ok(InitialScWebSocket::Connected(w)) && w == primary->Ok_0),
        primary is Err && has_failover ==> (r matches Ok(InitialScWebSocket::Unavailable(m))
            && m@ == error_text(primary->Err_0)),
        primary is Err && !has_failover ==> (r matches Err(e) && e == primary->Err_0),
{
    match primary {
        Ok(ws) => Ok(InitialScWebSocket::Connected(ws)),
        Err(error) => if has_failover {
            Ok(InitialScWebSocket::Unavailable(error.message()))
        } else {
            Err(error)
        },
    }
}

} // verus!
