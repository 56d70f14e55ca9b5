//! Exact in-flight confirmed-request duplicate detection (Clause 5.3.5.3).
//!
//! A confirmed request is a duplicate while an identical request from the
//! same canonical requester with the same Invoke ID is still being handled.
//! Completion releases the entry at once, so the Invoke ID can be reused.
//! The table holds at most [`MAX_TRACKED_REQUESTS`] pending requests; when it
//! is full, or a request is too large to compare, the request is served
//! untracked.

use std::collections::VecDeque;
use vstd::prelude::*;
use crate::address::{bytes_eq, copy_mac, NpduAddress};

verus! {

/// Pending requests tracked at most.
pub const MAX_TRACKED_REQUESTS: usize = 256;

/// Largest service request, in bytes, that is tracked.
pub const MAX_TRACKED_SERVICE_REQUEST_BYTES: usize = 65536;

/// A decoded BACnet-Confirmed-Request-PDU.
#[derive(Clone, Debug)]
pub struct ConfirmedRequest {
    /// Segmented message.
    pub segmented: bool,
    /// More segments follow.
    pub more_follows: bool,
    /// The client accepts a segmented response.
    pub segmented_response_accepted: bool,
    /// Maximum segments accepted.
    pub max_segments: Option<u8>,
    /// Maximum APDU length accepted.
    pub max_apdu_length: u16,
    /// Invoke ID.
    pub invoke_id: u8,
    /// Segment sequence number.
    pub sequence_number: Option<u8>,
    /// Proposed window size.
    pub proposed_window_size: Option<u8>,
    /// Confirmed service choice.
    pub service_choice: u8,
    /// Encoded service request.
    pub service_request: Vec<u8>,
}

/// The value of a confirmed request.
pub struct ConfirmedRequestView {
    /// Header fields other than the service request.
    pub header: (bool, bool, bool, Option<u8>, u16, u8, Option<u8>, Option<u8>, u8),
    /// Encoded service request.
    pub body: Seq<u8>,
}

impl View for ConfirmedRequest {
    type V = ConfirmedRequestView;

    open spec fn view(&self) -> ConfirmedRequestView {
        ConfirmedRequestView {
            header: (
                self.segmented,
                self.more_follows,
                self.segmented_response_accepted,
                self.max_segments,
                self.max_apdu_length,
                self.invoke_id,
                self.sequence_number,
                self.proposed_window_size,
                self.service_choice,
            ),
            body: self.service_request@,
        }
    }
}

fn opt_u8_eq(a: Option<u8>, b: Option<u8>) -> (r: bool)
    ensures
        r == (a == b),
{
    match (a, b) {
        (Some(x), Some(y)) => x == y,
        (None, None) => true,
        _ => false,
    }
}

impl ConfirmedRequest {
    /// Field-by-field equality.
    pub fn same_as(&self, other: &ConfirmedRequest) -> (r: bool)
        ensures
            r == (self@ == other@),
    {
        let r = self.segmented == other.segmented && self.more_follows == other.more_follows
            && self.segmented_response_accepted == other.segmented_response_accepted && opt_u8_eq(
            self.max_segments,
            other.max_segments,
        ) && self.max_apdu_length == other.max_apdu_length && self.invoke_id == other.invoke_id && opt_u8_eq(
            self.sequence_number,
            other.sequence_number,
        ) && opt_u8_eq(self.proposed_window_size, other.proposed_window_size) && self.service_choice
            == other.service_choice && bytes_eq(self.service_request.as_slice(), other.service_request.as_slice());
        r
    }
}

/// Canonical identity of the device that issued a request.
#[derive(Clone, Debug)]
pub struct CanonicalRequester {
    network: Option<u16>,
    mac: Vec<u8>,
}

impl View for CanonicalRequester {
    type V = (Option<u16>, Seq<u8>);

    closed spec fn view(&self) -> (Option<u16>, Seq<u8>) {
        (self.network, self.mac@)
    }
}

/// Whether `network` can be a routed source network (not 0, not global
/// broadcast).
pub open spec fn routable_network(network: u16) -> bool {
    network != 0 && network != 0xFFFF
}

/// Canonical requester: the routed origin when the source network is a
/// valid one, else the link-layer source.
pub open spec fn requester_of(mac: Seq<u8>, network: Option<(u16, Seq<u8>)>) -> (Option<u16>, Seq<u8>) {
    match network {
        Some(origin) => if routable_network(origin.0) {
            (Some(origin.0), origin.1)
        } else {
            (None, mac)
        },
        None => (None, mac),
    }
}

impl CanonicalRequester {
    /// Canonical requester of a request from `source_mac`, routed from
    /// `source_network` when given.
    pub fn new(source_mac: &[u8], source_network: Option<&NpduAddress>) -> (r: CanonicalRequester)
        ensures
            r@ == requester_of(source_mac@, match source_network {
                Some(a) => Some(a@),
                None => None::<(u16, Seq<u8>)>,
            }),
    {
        match source_network {
            Some(a) => if a.network != 0 && a.network != 0xFFFF {
                CanonicalRequester { network: Some(a.network), mac: copy_mac(a.mac_address.as_slice()) }
            } else {
                CanonicalRequester { network: None, mac: copy_mac(source_mac) }
            },
            None => CanonicalRequester { network: None, mac: copy_mac(source_mac) },
        }
    }

    /// Equality of identities.
    pub fn same(&self, other: &CanonicalRequester) -> (r: bool)
        ensures
            r == (self@ == other@),
    {
        self.network == other.network && bytes_eq(self.mac.as_slice(), other.mac.as_slice())
    }
}

/// Outcome of admitting a confirmed request.
#[derive(Clone, Copy, Debug, PartialEq, Eq, Structural)]
pub enum ConfirmedRequestAdmission {
    /// An identical request is still pending: discard this one.
    Duplicate,
    /// Serve the request; complete it with this ticket (`None` when it is
    /// served untracked).
    New(Option<u64>),
}

struct TrackedEntry {
    id: u64,
    requester: CanonicalRequester,
    request: ConfirmedRequest,
}

/// A pending request: ticket, requester, Invoke ID and request.
pub type PendingView = (u64, (Option<u16>, Seq<u8>), ConfirmedRequestView);

spec fn entry_view(e: TrackedEntry) -> PendingView {
    (e.id, e.requester@, e.request@)
}

/// Whether a pending entry matches `requester` and `request` exactly (the
/// request carries the Invoke ID).
pub open spec fn matches_pending(e: PendingView, requester: (Option<u16>, Seq<u8>), request: ConfirmedRequestView) -> bool {
    e.1 == requester && e.2 == request
}

/// Whether some pending entry matches.
pub open spec fn is_pending(entries: Seq<PendingView>, requester: (Option<u16>, Seq<u8>), request: ConfirmedRequestView) -> bool {
    exists|i: int| 0 <= i < entries.len() && matches_pending(#[trigger] entries[i], requester, request)
}

/// Entries other than the one with ticket `id`.
pub open spec fn other_tickets(id: u64) -> spec_fn(PendingView) -> bool {
    |e: PendingView| e.0 != id
}

/// Bounded duplicate tracker.
pub struct ConfirmedRequestTracker {
    next_id: u64,
    entries: VecDeque<TrackedEntry>,
}

impl ConfirmedRequestTracker {
    /// Pending requests, oldest first.
    pub closed spec fn pending(&self) -> Seq<PendingView> {
        self.entries@.map_values(|e: TrackedEntry| entry_view(e))
    }

    /// Ticket of the next tracked request.
    pub closed spec fn next_ticket(&self) -> u64 {
        self.next_id
    }

    #[verifier::type_invariant]
    closed spec fn inv(&self) -> bool {
        self.entries@.len() <= MAX_TRACKED_REQUESTS
    }

    /// An empty tracker.
    pub fn new() -> (r: ConfirmedRequestTracker)
        ensures
            r.pending().len() == 0,
            r.next_ticket() == 0,
    {
        let r = ConfirmedRequestTracker { next_id: 0, entries: VecDeque::new() };
        assert(r.pending() =~= Seq::<PendingView>::empty());
        r
    }

    /// Number of pending tracked requests, never above the bound.
    pub fn pending_count(&self) -> (r: usize)
        ensures
            r == self.pending().len(),
            r <= MAX_TRACKED_REQUESTS,
    {
        proof {
            use_type_invariant(self);
        }
        self.entries.len()
    }

    fn find(&self, requester: &CanonicalRequester, request: &ConfirmedRequest) -> (r: bool)
        ensures
            r == is_pending(self.pending(), requester@, request@),
    {
        let mut i: usize = 0;
        while i < self.entries.len()
            invariant
                i <= self.entries@.len(),
                forall|k: int| 0 <= k < i ==> !matches_pending(#[trigger] self.pending()[k], requester@, request@),
            decreases self.entries@.len() - i,
        {
            let e = &self.entries[i];
            if e.requester.same(requester) && e.request.same_as(request) {
                assert(matches_pending(self.pending()[i as int], requester@, request@));
                return true;
            }
            i = i + 1;
        }
        false
    }

    /// Admits a confirmed request from `source_mac` (routed from
    /// `source_network` when given). A request larger than
    /// [`MAX_TRACKED_SERVICE_REQUEST_BYTES`] is served untracked; an exact
    /// pending duplicate is refused; with every slot pending the request is
    /// served untracked; otherwise it is tracked under a new ticket.
    pub fn begin(
        &mut self,
        source_mac: &[u8],
        source_network: Option<&NpduAddress>,
        request: ConfirmedRequest,
    ) -> (r: ConfirmedRequestAdmission)
        ensures
            ({
                let requester = requester_of(source_mac@, match source_network {
                    Some(a) => Some(a@),
                    None => None::<(u16, Seq<u8>)>,
                });
                let old_pending = old(self).pending();
                if request.service_request@.len() > MAX_TRACKED_SERVICE_REQUEST_BYTES {
                    r == ConfirmedRequestAdmission::New(None) && final(self).pending() == old_pending
                        && final(self).next_ticket() == old(self).next_ticket()
                } else if is_pending(old_pending, requester, request@) {
                    r == ConfirmedRequestAdmission::Duplicate && final(self).pending() == old_pending
                        && final(self).next_ticket() == old(self).next_ticket()
                } else if old_pending.len() >= MAX_TRACKED_REQUESTS {
                    r == ConfirmedRequestAdmission::New(None) && final(self).pending() == old_pending
                        && final(self).next_ticket() == old(self).next_ticket()
                } else {
                    &&& r == ConfirmedRequestAdmission::New(Some(old(self).next_ticket()))
                    &&& final(self).pending() == old_pending.push((old(self).next_ticket(), requester, request@))
                    &&& final(self).next_ticket() == (if old(self).next_ticket() == u64::MAX {
                        0
                    } else {
                        (old(self).next_ticket() + 1) as u64
                    })
                }
            }),
    {
        proof {
            use_type_invariant(&*self);
        }
        if request.service_request.len() > MAX_TRACKED_SERVICE_REQUEST_BYTES {
            return ConfirmedRequestAdmission::New(None);
        }
        let requester = CanonicalRequester::new(source_mac, source_network);
        if self.find(&requester, &request) {
            return ConfirmedRequestAdmission::Duplicate;
        }
        if self.entries.len() >= MAX_TRACKED_REQUESTS {
            return ConfirmedRequestAdmission::New(None);
        }
        let id = self.next_id;
        let ghost before = self.pending();
        let ghost rv = request@;
        let mut entries = VecDeque::new();
        std::mem::swap(&mut entries, &mut self.entries);
        entries.push_back(TrackedEntry { id, requester, request });
        proof {
            assert(entries@.map_values(|e: TrackedEntry| entry_view(e)) =~= before.push((id, requester_of(source_mac@, match source_network {
                Some(a) => Some(a@),
                None => None::<(u16, Seq<u8>)>,
            }), rv)));
        }
        self.entries = entries;
        self.next_id = if id == u64::MAX {
            0
        } else {
            id + 1
        };
        ConfirmedRequestAdmission::New(Some(id))
    }

    /// Releases the request tracked under `ticket` (nothing for an
    /// untracked one), whether it completed or was cancelled.
    pub fn complete(&mut self, ticket: Option<u64>)
        ensures
            ticket is None ==> final(self).pending() == old(self).pending(),
            ticket matches Some(id) ==> final(self).pending() == old(self).pending().filter(other_tickets(id)),
            final(self).next_ticket() == old(self).next_ticket(),
    {
        proof {
            use_type_invariant(&*self);
        }
        let id = match ticket {
            Some(id) => id,
            None => return,
        };
        let mut entries = VecDeque::new();
        std::mem::swap(&mut entries, &mut self.entries);
        let ghost all = entries@.map_values(|e: TrackedEntry| entry_view(e));
        let ghost p = other_tickets(id);
        let mut kept: VecDeque<TrackedEntry> = VecDeque::new();
        while entries.len() > 0
            invariant
                all.len() <= MAX_TRACKED_REQUESTS,
                p == other_tickets(id),
                kept@.map_values(|e: TrackedEntry| entry_view(e)) + entries@.map_values(|e: TrackedEntry| entry_view(e)).filter(p)
                    == all.filter(p),
                kept@.len() + entries@.len() <= all.len(),
            decreases entries@.len(),
        {
            let ghost ev = entries@.map_values(|e: TrackedEntry| entry_view(e));
            let ghost kv = kept@.map_values(|e: TrackedEntry| entry_view(e));
            let e = entries.pop_front().unwrap();
            proof {
                let rest = entries@.map_values(|e: TrackedEntry| entry_view(e));
                assert(ev =~= seq![entry_view(e)] + rest);
                rest.lemma_filter_prepend(entry_view(e), p);
            }
            if e.id != id {
                kept.push_back(e);
                proof {
                    assert(kept@.map_values(|e: TrackedEntry| entry_view(e)) =~= kv + seq![entry_view(e)]);
                    assert(kv + seq![entry_view(e)] + entries@.map_values(|e: TrackedEntry| entry_view(e)).filter(p)
                        =~= kv + (seq![entry_view(e)] + entries@.map_values(|e: TrackedEntry| entry_view(e)).filter(p)));
                }
            } else {
                proof {
                    assert(Seq::<PendingView>::empty() + entries@.map_values(|e: TrackedEntry| entry_view(e)).filter(p)
                        =~= entries@.map_values(|e: TrackedEntry| entry_view(e)).filter(p));
                }
            }
        }
        proof {
            assert(entries@.map_values(|e: TrackedEntry| entry_view(e)) =~= Seq::<PendingView>::empty());
            reveal(Seq::filter);
            assert(kept@.map_values(|e: TrackedEntry| entry_view(e)) + Seq::<PendingView>::empty()
                =~= kept@.map_values(|e: TrackedEntry| entry_view(e)));
        }
        self.entries = kept;
    }
}


/// A request tracked by `begin` is a duplicate for as long as its entry is
/// pending: an identical request right after is refused.
pub proof fn lemma_tracked_request_is_duplicate(
    pending: Seq<PendingView>,
    ticket: u64,
    requester: (Option<u16>, Seq<u8>),
    request: ConfirmedRequestView,
)
    ensures
        is_pending(pending.push((ticket, requester, request)), requester, request),
{
    let p = pending.push((ticket, requester, request));
    assert(matches_pending(p[pending.len() as int], requester, request));
}

/// Completion releases a request: once the entries of its ticket are gone,
/// an identical request that only that ticket matched is no longer a
/// duplicate, so the Invoke ID can be reused.
pub proof fn lemma_completion_releases_request(
    pending: Seq<PendingView>,
    ticket: u64,
    requester: (Option<u16>, Seq<u8>),
    request: ConfirmedRequestView,
)
    requires
        forall|i: int| 0 <= i < pending.len() && matches_pending(#[trigger] pending[i], requester, request) ==> pending[i].0 == ticket,
    ensures
        !is_pending(pending.filter(other_tickets(ticket)), requester, request),
{
    let f = pending.filter(other_tickets(ticket));
    if is_pending(f, requester, request) {
        let i = choose|i: int| 0 <= i < f.len() && matches_pending(#[trigger] f[i], requester, request);
        pending.lemma_filter_pred(other_tickets(ticket), i);
        assert(f.contains(f[i]));
        pending.lemma_filter_contains_rev(other_tickets(ticket), f[i]);
        let k = choose|k: int| 0 <= k < pending.len() && pending[k] == f[i];
        assert(matches_pending(pending[k], requester, request));
    }
}

} // verus!
