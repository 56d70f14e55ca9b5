//! Bounded inbound BBMD management rate limiter.
//!
//! A fixed one-second window admits at most 16 covered management requests
//! per source IPv4 address and at most 256 overall, tracking at most 256
//! distinct sources. Rejected requests change no accounting. Time is supplied
//! by the caller in monotonic milliseconds.

use vstd::prelude::*;

verus! {

/// Fixed window length in milliseconds.
pub const MANAGEMENT_RATE_WINDOW_MS: u64 = 1000;

/// Maximum covered requests admitted per source IPv4 address per window.
pub const MANAGEMENT_RATE_PER_SOURCE_IP: u32 = 16;

/// Maximum covered requests admitted globally per window.
pub const MANAGEMENT_RATE_GLOBAL: u32 = 256;

/// Maximum distinct source addresses tracked per window.
pub const MANAGEMENT_RATE_MAX_SOURCES: usize = 256;

/// Whether a window that began at `start` has elapsed at `now`.
pub open spec fn window_elapsed(start: u64, now: u64) -> bool {
    now >= start && now - start >= MANAGEMENT_RATE_WINDOW_MS
}

/// Position of the tracked entry for `ip`, if any.
pub open spec fn tracks(entries: Seq<([u8; 4], u32)>, ip: [u8; 4], i: int) -> bool {
    0 <= i < entries.len() && entries[i].0 == ip
}

/// Position of the entry for `ip` (meaningful when one is tracked).
pub open spec fn source_index(entries: Seq<([u8; 4], u32)>, ip: [u8; 4]) -> int {
    choose|i: int| tracks(entries, ip, i)
}

/// Whether the window that started at `start` restarts at `now`.
pub open spec fn window_resets(start: Option<u64>, now: u64) -> bool {
    match start {
        None => false,
        Some(s) => window_elapsed(s, now),
    }
}

/// Tracked entries after the window check at `now`.
pub open spec fn window_entries(start: Option<u64>, entries: Seq<([u8; 4], u32)>, now: u64) -> Seq<([u8; 4], u32)> {
    if window_resets(start, now) {
        Seq::empty()
    } else {
        entries
    }
}

/// Outcome of one check: admitted or not, then the new window start,
/// admitted count and tracked entries.
pub open spec fn check_outcome(
    start: Option<u64>,
    admitted: nat,
    entries: Seq<([u8; 4], u32)>,
    ip: [u8; 4],
    now: u64,
) -> (bool, Option<u64>, nat, Seq<([u8; 4], u32)>) {
    let new_start = match start {
        None => now,
        Some(s) => if window_resets(start, now) {
            now
        } else {
            s
        },
    };
    let admitted0 = if window_resets(start, now) {
        0
    } else {
        admitted
    };
    let entries0 = window_entries(start, entries, now);
    if admitted0 >= MANAGEMENT_RATE_GLOBAL {
        (false, Some(new_start), admitted0, entries0)
    } else if exists|i: int| tracks(entries0, ip, i) {
        let i = source_index(entries0, ip);
        if entries0[i].1 >= MANAGEMENT_RATE_PER_SOURCE_IP {
            (false, Some(new_start), admitted0, entries0)
        } else {
            (true, Some(new_start), admitted0 + 1, entries0.update(i, (ip, (entries0[i].1 + 1) as u32)))
        }
    } else if entries0.len() >= MANAGEMENT_RATE_MAX_SOURCES {
        (false, Some(new_start), admitted0, entries0)
    } else {
        (true, Some(new_start), admitted0 + 1, entries0.push((ip, 1u32)))
    }
}

/// Within a running window, a refused request changes no accounting and an
/// admitted one adds exactly one to the window's count.
pub proof fn lemma_refusal_changes_no_accounting(
    start: u64,
    admitted: nat,
    entries: Seq<([u8; 4], u32)>,
    ip: [u8; 4],
    now: u64,
)
    requires
        !window_elapsed(start, now),
    ensures
        !check_outcome(Some(start), admitted, entries, ip, now).0 ==> check_outcome(
            Some(start),
            admitted,
            entries,
            ip,
            now,
        ).1 == Some(start) && check_outcome(Some(start), admitted, entries, ip, now).2 == admitted
            && check_outcome(Some(start), admitted, entries, ip, now).3 == entries,
        check_outcome(Some(start), admitted, entries, ip, now).0 ==> check_outcome(
            Some(start),
            admitted,
            entries,
            ip,
            now,
        ).2 == admitted + 1,
{
}

/// A check made once the window has elapsed (at least 1000 ms after it
/// began) behaves as on a fresh limiter, whatever was counted before: the
/// request is admitted, a new window begins at `now`, one request is
/// counted, and the caller is the only source tracked, with one request.
pub proof fn lemma_elapsed_window_starts_afresh(
    start: u64,
    admitted: nat,
    entries: Seq<([u8; 4], u32)>,
    ip: [u8; 4],
    now: u64,
)
    requires
        now >= start,
        now - start >= 1000,
    ensures
        check_outcome(Some(start), admitted, entries, ip, now) == (true, Some(now), 1nat, seq![(ip, 1u32)]),
        check_outcome(None, 0, Seq::empty(), ip, now) == (true, Some(now), 1nat, seq![(ip, 1u32)]),
{
    assert(!exists|i: int| tracks(Seq::<([u8; 4], u32)>::empty(), ip, i));
    assert(Seq::<([u8; 4], u32)>::empty().push((ip, 1u32)) =~= seq![(ip, 1u32)]);
}

/// Within a window, a source is admitted at most 16 times: once its count
/// has reached 16, every further request of that window is refused and
/// changes nothing; below 16, a request is admitted unless the window's
/// overall count has reached 256, and raises the source's count by one.
pub proof fn lemma_per_source_quota(
    start: u64,
    admitted: nat,
    entries: Seq<([u8; 4], u32)>,
    ip: [u8; 4],
    i: int,
    now: u64,
)
    requires
        !window_elapsed(start, now),
        tracks(entries, ip, i),
        forall|a: int, b: int| 0 <= a < b < entries.len() ==> (#[trigger] entries[a]).0 != (#[trigger] entries[b]).0,
    ensures
        entries[i].1 >= 16 ==> check_outcome(Some(start), admitted, entries, ip, now) == (false, Some(start), admitted, entries),
        entries[i].1 < 16 && admitted < 256 ==> check_outcome(Some(start), admitted, entries, ip, now) == (
            true,
            Some(start),
            admitted + 1,
            entries.update(i, (ip, (entries[i].1 + 1) as u32)),
        ),
        admitted >= 256 ==> !check_outcome(Some(start), admitted, entries, ip, now).0,
{
    let j = source_index(entries, ip);
    assert(tracks(entries, ip, j));
    if j != i {
        if j < i {
            assert(entries[j].0 != entries[i].0);
        } else {
            assert(entries[i].0 != entries[j].0);
        }
    }
}

/// Fixed-window, strictly bounded management quota.
#[derive(Debug)]
pub struct ManagementRateLimiter {
    origin: std::time::Instant,
    window_start: Option<u64>,
    admitted: u32,
    entries: Vec<([u8; 4], u32)>,
}

impl ManagementRateLimiter {
    /// Start of the current window, if any request was seen.
    pub closed spec fn window_start_view(&self) -> Option<u64> {
        self.window_start
    }

    /// Requests admitted in the current window.
    pub closed spec fn admitted_view(&self) -> nat {
        self.admitted as nat
    }

    /// Tracked sources and their admitted counts in the current window.
    pub closed spec fn entries_view(&self) -> Seq<([u8; 4], u32)> {
        self.entries@
    }

    #[verifier::type_invariant]
    closed spec fn well_formed(&self) -> bool {
        &&& self.admitted <= MANAGEMENT_RATE_GLOBAL
        &&& self.entries@.len() <= MANAGEMENT_RATE_MAX_SOURCES
        &&& forall|i: int|
            0 <= i < self.entries@.len() ==> 1 <= (#[trigger] self.entries@[i]).1
                <= MANAGEMENT_RATE_PER_SOURCE_IP
        &&& forall|i: int, j: int|
            0 <= i < self.entries@.len() && 0 <= j < self.entries@.len() && i != j ==> (
            #[trigger] self.entries@[i]).0 != (#[trigger] self.entries@[j]).0
    }

    /// A limiter with no window and no accounting.
    pub fn new() -> (r: ManagementRateLimiter)
        ensures
            r.window_start_view() is None,
            r.admitted_view() == 0,
            r.entries_view().len() == 0,
    {
        ManagementRateLimiter { origin: instant_now(), window_start: None, admitted: 0, entries: Vec::new() }
    }

    /// Admit (`true`) or silently discard (`false`) one covered request from
    /// `ip` at monotonic time `now`.
    ///
    /// The window starts at the first request and restarts, clearing all
    /// accounting, once it has lasted a full window. A request is admitted
    /// when the global quota is not spent, and either the source is tracked
    /// with quota left or a tracking slot is free; admission counts it once
    /// globally and once for the source. A rejection changes no accounting.
    pub fn check(&mut self, ip: [u8; 4], now: u64) -> (r: bool)
        ensures
            check_outcome(
                old(self).window_start_view(),
                old(self).admitted_view(),
                old(self).entries_view(),
                ip,
                now,
            ) == (
                r,
                final(self).window_start_view(),
                final(self).admitted_view(),
                final(self).entries_view(),
            ),
            final(self).admitted_view() <= MANAGEMENT_RATE_GLOBAL,
            final(self).entries_view().len() <= MANAGEMENT_RATE_MAX_SOURCES,
            forall|i: int|
                0 <= i < final(self).entries_view().len()
                    ==> (#[trigger] final(self).entries_view()[i]).1 <= MANAGEMENT_RATE_PER_SOURCE_IP,
    {
        proof {
            use_type_invariant(&*self);
        }
        match self.window_start {
            None => {
                self.window_start = Some(now);
            },
            Some(start) => {
                if now >= start && now - start >= MANAGEMENT_RATE_WINDOW_MS {
                    self.window_start = Some(now);
                    self.admitted = 0;
                    self.entries = Vec::new();
                }
            },
        }
        if self.admitted >= MANAGEMENT_RATE_GLOBAL {
            return false;
        }
        let ghost entries0 = self.entries@;
        assert(entries0 == window_entries(old(self).window_start_view(), old(self).entries_view(), now));
        let n = self.entries.len();
        if let Some(i) = find_source(&self.entries, ip) {
            proof {
                assert forall|j: int| tracks(entries0, ip, j) implies j == i by {
                    if j != i {
                        assert(entries0[j].0 != entries0[i as int].0);
                    }
                }
                assert(tracks(entries0, ip, i as int));
                assert(source_index(entries0, ip) == i);
            }
            if self.entries[i].1 >= MANAGEMENT_RATE_PER_SOURCE_IP {
                return false;
            }
            self.bump(i);
            proof {
                use_type_invariant(&*self);
            }
            return true;
        }
        assert(!exists|j: int| tracks(entries0, ip, j));
        if n >= MANAGEMENT_RATE_MAX_SOURCES {
            return false;
        }
        self.track_new(ip);
        proof {
            use_type_invariant(&*self);
        }
        true
    }

    /// Counts one more admission for the tracked source at `i`.
    fn bump(&mut self, i: usize)
        requires
            i < old(self).entries_view().len(),
            old(self).entries_view()[i as int].1 < MANAGEMENT_RATE_PER_SOURCE_IP,
            old(self).admitted_view() < MANAGEMENT_RATE_GLOBAL,
        ensures
            final(self).window_start_view() == old(self).window_start_view(),
            final(self).admitted_view() == old(self).admitted_view() + 1,
            final(self).entries_view() == old(self).entries_view().update(
                i as int,
                (old(self).entries_view()[i as int].0, (old(self).entries_view()[i as int].1
                    + 1) as u32),
            ),
    {
        proof {
            use_type_invariant(&*self);
        }
        let mut entries: Vec<([u8; 4], u32)> = Vec::new();
        std::mem::swap(&mut entries, &mut self.entries);
        let (addr, count) = entries[i];
        entries.set(i, (addr, count + 1));
        self.admitted = self.admitted + 1;
        self.entries = entries;
    }

    /// Starts tracking `ip` with one admission.
    fn track_new(&mut self, ip: [u8; 4])
        requires
            old(self).entries_view().len() < MANAGEMENT_RATE_MAX_SOURCES,
            old(self).admitted_view() < MANAGEMENT_RATE_GLOBAL,
            !exists|j: int| tracks(old(self).entries_view(), ip, j),
        ensures
            final(self).window_start_view() == old(self).window_start_view(),
            final(self).admitted_view() == old(self).admitted_view() + 1,
            final(self).entries_view() == old(self).entries_view().push((ip, 1u32)),
    {
        proof {
            use_type_invariant(&*self);
        }
        let mut entries: Vec<([u8; 4], u32)> = Vec::new();
        std::mem::swap(&mut entries, &mut self.entries);
        let ghost e0 = entries@;
        entries.push((ip, 1));
        proof {
            assert forall|a: int, b: int|
                0 <= a < entries@.len() && 0 <= b < entries@.len() && a != b implies (
                #[trigger] entries@[a]).0 != (#[trigger] entries@[b]).0 by {
                if a == e0.len() {
                    assert(!tracks(e0, ip, b));
                } else if b == e0.len() {
                    assert(!tracks(e0, ip, a));
                }
            }
        }
        self.admitted = self.admitted + 1;
        self.entries = entries;
    }

    /// Number of distinct sources tracked in the current window.
    pub fn tracked_source_count(&self) -> (r: usize)
        ensures
            r == self.entries_view().len(),
    {
        self.entries.len()
    }

    /// Requests admitted in the current window.
    pub fn admitted_in_window(&self) -> (r: u32)
        ensures
            r == self.admitted_view(),
    {
        self.admitted
    }

    /// [`Self::check`] at the current reading of the monotonic clock, in
    /// milliseconds since the limiter was created.
    pub fn check_now(&mut self, ip: [u8; 4]) -> (r: bool)
        ensures
            exists|now: u64|
                check_outcome(
                    old(self).window_start_view(),
                    old(self).admitted_view(),
                    old(self).entries_view(),
                    ip,
                    now,
                ) == (
                    r,
                    final(self).window_start_view(),
                    final(self).admitted_view(),
                    final(self).entries_view(),
                ),
    {
        let now = millis_since(&self.origin);
        self.check(ip, now)
    }
}

/// Position of the tracked entry for `ip`.
fn find_source(entries: &Vec<([u8; 4], u32)>, ip: [u8; 4]) -> (r: Option<usize>)
    ensures
        r matches Some(i) ==> tracks(entries@, ip, i as int),
        r is None ==> forall|j: int| !tracks(entries@, ip, j),
{
    let n = entries.len();
    let mut i: usize = 0;
    while i < n
        invariant
            n == entries@.len(),
            i <= n,
            forall|j: int| 0 <= j < i ==> !tracks(entries@, ip, j),
        decreases n - i,
    {
        let addr = entries[i].0;
        if addr[0] == ip[0] && addr[1] == ip[1] && addr[2] == ip[2] && addr[3] == ip[3] {
            assert(addr =~= ip);
            return Some(i);
        }
        i = i + 1;
    }
    None
}

/// The monotonic clock type of std.
#[verifier::external_type_specification]
#[verifier::external_body]
pub struct ExInstant(std::time::Instant);

/// The current instant of the monotonic clock.
///
/// Trusted: calls std's `Instant::now`; nothing is stated of the value.
#[verifier::external_body]
fn instant_now() -> std::time::Instant {
    std::time::Instant::now()
}

/// Whole milliseconds elapsed since `origin` on the monotonic clock.
///
/// Trusted: calls std's `Instant::elapsed`; nothing is stated of the value,
/// which depends on the time of the call.
#[verifier::external_body]
fn millis_since(origin: &std::time::Instant) -> u64 {
    origin.elapsed().as_millis() as u64
}

} // verus!
