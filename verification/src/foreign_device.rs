//! Telemetry of a managed BACnet/IP foreign-device registration.
//!
//! The background worker registers with the BBMD every half TTL and records
//! each answer (or its absence) here; readers get a point-in-time status. A
//! registration that is not renewed within its TTL expires. Time is supplied
//! in monotonic milliseconds.

use vstd::prelude::*;
use crate::bvlc::{BvlcResultCode, bvlc_result_raw};

verus! {

/// Live state of a managed foreign-device registration.
#[derive(Clone, Copy, Debug, PartialEq, Eq, Structural)]
pub enum ForeignDeviceRegistrationState {
    /// No conclusive response has been received yet.
    Pending,
    /// The BBMD accepted the most recent registration.
    Registered,
    /// The BBMD explicitly rejected the most recent registration.
    Rejected,
    /// The last successful registration has exceeded its TTL.
    Expired,
}

/// Point-in-time view of a managed foreign-device registration.
#[derive(Clone, Copy, Debug, PartialEq, Eq)]
pub struct ForeignDeviceRegistrationStatus {
    /// Current managed-registration state.
    pub state: ForeignDeviceRegistrationState,
    /// Most recently received BVLC result code.
    pub last_result_code: Option<BvlcResultCode>,
    /// Rounded-up whole seconds until the next renewal attempt.
    pub seconds_to_renewal: Option<u64>,
}

/// Milliseconds between registrations for a TTL of `ttl` seconds: half the
/// lifetime, at least one millisecond.
pub open spec fn renewal_interval_spec(ttl: u16) -> u64 {
    if ttl as int * 1000 / 2 >= 1 {
        (ttl as int * 1000 / 2) as u64
    } else {
        1
    }
}

/// Milliseconds between registrations for a TTL of `ttl` seconds.
pub fn renewal_interval_ms(ttl: u16) -> (r: u64)
    ensures
        r == renewal_interval_spec(ttl),
{
    let half = (ttl as u64) * 1000 / 2;
    if half >= 1 {
        half
    } else {
        1
    }
}

/// `a + b`, saturating at `u64::MAX`.
pub open spec fn sat_add(a: u64, b: u64) -> u64 {
    if a + b > u64::MAX {
        u64::MAX
    } else {
        (a + b) as u64
    }
}

/// Whether a registration in `state` has lapsed at `now`.
pub open spec fn lapses(state: ForeignDeviceRegistrationState, expires_at: u64, now: u64) -> bool {
    state != ForeignDeviceRegistrationState::Expired && now >= expires_at
}

/// Whole seconds, rounded up, from `now` until `deadline` (zero once passed).
pub open spec fn seconds_until(deadline: u64, now: u64) -> u64 {
    if deadline <= now {
        0
    } else {
        let ms = deadline - now;
        (ms / 1000 + if ms % 1000 != 0 {
            1int
        } else {
            0int
        }) as u64
    }
}

/// The seconds reported until a deadline are the remaining time rounded up
/// to whole seconds: they cover the remaining milliseconds, and one second
/// less would not.
pub proof fn lemma_seconds_until_rounds_up(deadline: u64, now: u64)
    ensures
        deadline <= now ==> seconds_until(deadline, now) == 0,
        deadline > now ==> seconds_until(deadline, now) as int * 1000 >= deadline - now,
        deadline > now ==> (seconds_until(deadline, now) as int - 1) * 1000 < deadline - now,
{
    if deadline > now {
        let ms = (deadline - now) as int;
        assert(ms == (ms / 1000) * 1000 + ms % 1000) by (nonlinear_arith);
        assert(0 <= ms % 1000 < 1000) by (nonlinear_arith);
    }
}

/// Registration telemetry.
#[derive(Clone, Copy, Debug)]
pub struct ForeignDeviceRegistration {
    state: ForeignDeviceRegistrationState,
    last_result_code: Option<BvlcResultCode>,
    expires_at: u64,
    next_renewal: u64,
    ttl_ms: u64,
}

impl ForeignDeviceRegistration {
    /// Registration state.
    pub closed spec fn state_view(&self) -> ForeignDeviceRegistrationState {
        self.state
    }

    /// Last result code received.
    pub closed spec fn last_code_view(&self) -> Option<BvlcResultCode> {
        self.last_result_code
    }

    /// When the registration lapses.
    pub closed spec fn expires_view(&self) -> u64 {
        self.expires_at
    }

    /// When the next registration is sent.
    pub closed spec fn renewal_view(&self) -> u64 {
        self.next_renewal
    }

    /// Registration lifetime in milliseconds.
    pub closed spec fn ttl_view(&self) -> u64 {
        self.ttl_ms
    }

    /// Telemetry of a registration with a TTL of `ttl` seconds that starts
    /// at `now`: pending, lapsing one TTL from now, first renewal due now.
    pub fn new(ttl: u16, now: u64) -> (r: ForeignDeviceRegistration)
        ensures
            r.state_view() == ForeignDeviceRegistrationState::Pending,
            r.last_code_view() is None,
            r.ttl_view() == ttl as int * 1000,
            r.expires_view() == sat_add(now, (ttl as u64 * 1000) as u64),
            r.renewal_view() == now,
    {
        let ttl_ms = (ttl as u64) * 1000;
        ForeignDeviceRegistration {
            state: ForeignDeviceRegistrationState::Pending,
            last_result_code: None,
            expires_at: now.saturating_add(ttl_ms),
            next_renewal: now,
            ttl_ms,
        }
    }

    /// Marks the registration expired when it has lapsed at `now`.
    fn expire_if_lapsed(&mut self, now: u64)
        ensures
            final(self).state_view() == (if lapses(old(self).state_view(), old(self).expires_view(), now) {
                ForeignDeviceRegistrationState::Expired
            } else {
                old(self).state_view()
            }),
            final(self).last_code_view() == old(self).last_code_view(),
            final(self).expires_view() == old(self).expires_view(),
            final(self).renewal_view() == old(self).renewal_view(),
            final(self).ttl_view() == old(self).ttl_view(),
    {
        if self.state != ForeignDeviceRegistrationState::Expired && now >= self.expires_at {
            self.state = ForeignDeviceRegistrationState::Expired;
        }
    }

    /// Status at `now`; a lapsed registration becomes expired. Seconds to
    /// renewal are reported only while pending or registered.
    pub fn status_at(&mut self, now: u64) -> (r: ForeignDeviceRegistrationStatus)
        ensures
            final(self).state_view() == (if lapses(old(self).state_view(), old(self).expires_view(), now) {
                ForeignDeviceRegistrationState::Expired
            } else {
                old(self).state_view()
            }),
            final(self).last_code_view() == old(self).last_code_view(),
            final(self).expires_view() == old(self).expires_view(),
            final(self).renewal_view() == old(self).renewal_view(),
            final(self).ttl_view() == old(self).ttl_view(),
            r.state == final(self).state_view(),
            r.last_result_code == old(self).last_code_view(),
            r.seconds_to_renewal == (if final(self).state_view() == ForeignDeviceRegistrationState::Pending
                || final(self).state_view() == ForeignDeviceRegistrationState::Registered {
                Some(seconds_until(old(self).renewal_view(), now))
            } else {
                None
            }),
    {
        self.expire_if_lapsed(now);
        let seconds_to_renewal = match self.state {
            ForeignDeviceRegistrationState::Pending | ForeignDeviceRegistrationState::Registered => {
                let ms = if self.next_renewal <= now {
                    0
                } else {
                    self.next_renewal - now
                };
                Some(ms / 1000 + if ms % 1000 != 0 {
                    1
                } else {
                    0
                })
            },
            _ => None,
        };
        ForeignDeviceRegistrationStatus {
            state: self.state,
            last_result_code: self.last_result_code,
            seconds_to_renewal,
        }
    }

    /// Records the BBMD's answer `code` received at `now`; the next renewal
    /// is due `renewal_interval_ms` later. Success registers for one TTL from
    /// now; any other code rejects.
    pub fn record_result(&mut self, code: BvlcResultCode, now: u64, renewal_interval_ms: u64)
        ensures
            final(self).last_code_view() == Some(code),
            final(self).renewal_view() == sat_add(now, renewal_interval_ms),
            bvlc_result_raw(code) == 0 ==> final(self).state_view() == ForeignDeviceRegistrationState::Registered
                && final(self).expires_view() == sat_add(now, old(self).ttl_view()),
            bvlc_result_raw(code) != 0 ==> final(self).state_view() == ForeignDeviceRegistrationState::Rejected
                && final(self).expires_view() == old(self).expires_view(),
            final(self).ttl_view() == old(self).ttl_view(),
    {
        self.last_result_code = Some(code);
        self.next_renewal = now.saturating_add(renewal_interval_ms);
        if code.to_raw() == 0 {
            self.state = ForeignDeviceRegistrationState::Registered;
            self.expires_at = now.saturating_add(self.ttl_ms);
        } else {
            self.state = ForeignDeviceRegistrationState::Rejected;
        }
    }

    /// Records that no answer came for the registration sent before `now`;
    /// the next renewal is due `renewal_interval_ms` later and a lapsed
    /// registration expires.
    pub fn record_no_response(&mut self, now: u64, renewal_interval_ms: u64)
        ensures
            final(self).renewal_view() == sat_add(now, renewal_interval_ms),
            final(self).state_view() == (if lapses(old(self).state_view(), old(self).expires_view(), now) {
                ForeignDeviceRegistrationState::Expired
            } else {
                old(self).state_view()
            }),
            final(self).last_code_view() == old(self).last_code_view(),
            final(self).expires_view() == old(self).expires_view(),
            final(self).ttl_view() == old(self).ttl_view(),
    {
        self.next_renewal = now.saturating_add(renewal_interval_ms);
        self.expire_if_lapsed(now);
    }
}

/// A success answer keeps the registration valid for a full TTL: until a
/// TTL has passed, reading the status reports it registered.
pub proof fn lemma_success_holds_for_ttl(expires_at: u64, ttl: u64, answered: u64, now: u64)
    requires
        expires_at == sat_add(answered, ttl),
        answered + ttl <= u64::MAX,
        answered <= now,
        now < answered + ttl,
    ensures
        !lapses(ForeignDeviceRegistrationState::Registered, expires_at, now),
{
}

/// Registration is renewed halfway through its lifetime: every `ttl`
/// seconds' registration is renewed after `ttl * 500` milliseconds (one
/// millisecond for a zero TTL).
pub proof fn lemma_renewal_at_half_ttl(ttl: u16)
    ensures
        ttl >= 1 ==> renewal_interval_spec(ttl) == ttl as int * 500,
        ttl == 0 ==> renewal_interval_spec(ttl) == 1,
{
}

/// Renewal comes strictly before expiry: the renewal interval is under the
/// TTL whenever the TTL is at least one second.
pub proof fn lemma_renewal_precedes_expiry(ttl: u16)
    requires
        ttl >= 1,
    ensures
        renewal_interval_spec(ttl) < ttl as int * 1000,
{
}

} // verus!
