//! One BVLC management exchange at a time.
//!
//! A BVLC-Result carries no transaction identifier, so a B/IP transport keeps
//! at most one management request outstanding, hands an inbound message to it
//! only when it comes from the request's target and answers its kind, and,
//! after a request was abandoned (timed out or cancelled), keeps the target
//! quiet for one response timeout so that a late Result cannot be taken for
//! the answer to the next request.

use vstd::prelude::*;
use crate::bbmd::{decode_bdt, decode_fdt, encode_bdt, encode_fdt, BdtEntry, FdtEntryWire};
use crate::bvlc::{
    bvlc_result_error, bvlc_result_raw, response_accepts, result_code_of, BvlcFunction, BvlcResponseKind,
    BvllMessage,
};
use crate::error::Error;

verus! {

/// How long a management request waits for its response, in milliseconds.
pub const BVLC_RESPONSE_TIMEOUT_MS: u64 = 3000;

/// A B/IP endpoint: IPv4 address and UDP port.
pub type BipEndpoint = ([u8; 4], u16);

/// The outstanding management request.
#[derive(Clone, Copy, Debug)]
pub struct PendingBvlc {
    /// Request number.
    pub id: u64,
    /// Endpoint the request was sent to.
    pub target: BipEndpoint,
    /// Response the request waits for.
    pub expected: BvlcResponseKind,
}

/// What starting a management request decided.
#[derive(Clone, Copy, Debug, PartialEq, Eq, Structural)]
pub enum BeginOutcome {
    /// The target is quiet until this monotonic millisecond; try again then.
    Wait { until: u64 },
    /// Another request is outstanding; the request fails.
    Busy,
    /// The request is outstanding under this number; send it now.
    Started { id: u64 },
}

/// The quiet deadlines of a list of (endpoint, deadline) entries; a later
/// entry for the same endpoint overrides an earlier one.
pub open spec fn deadlines(q: Seq<(BipEndpoint, u64)>) -> Map<BipEndpoint, u64>
    decreases q.len(),
{
    if q.len() == 0 {
        Map::empty()
    } else {
        deadlines(q.drop_last()).insert(q.last().0, q.last().1)
    }
}

/// `q` without the entries of `t`.
pub open spec fn without(q: Seq<(BipEndpoint, u64)>, t: BipEndpoint) -> Seq<(BipEndpoint, u64)>
    decreases q.len(),
{
    if q.len() == 0 {
        q
    } else if q.last().0 == t {
        without(q.drop_last(), t)
    } else {
        without(q.drop_last(), t).push(q.last())
    }
}

proof fn lemma_without(q: Seq<(BipEndpoint, u64)>, t: BipEndpoint)
    ensures
        deadlines(without(q, t)) == deadlines(q).remove(t),
    decreases q.len(),
{
    if q.len() > 0 {
        lemma_without(q.drop_last(), t);
        if q.last().0 == t {
            assert(deadlines(q).remove(t) =~= deadlines(q.drop_last()).remove(t));
        } else {
            let w = without(q.drop_last(), t).push(q.last());
            assert(w.drop_last() == without(q.drop_last(), t));
            assert(deadlines(w) =~= deadlines(q).remove(t));
        }
    }
}

fn endpoint_eq(a: BipEndpoint, b: BipEndpoint) -> (r: bool)
    ensures
        r == (a == b),
{
    let r = a.0[0] == b.0[0] && a.0[1] == b.0[1] && a.0[2] == b.0[2] && a.0[3] == b.0[3] && a.1 == b.1;
    if r {
        assert(a.0 =~= b.0);
    }
    r
}

/// Whether `t` is quiet at `now` under `quiet`.
pub open spec fn is_quiet(quiet: Map<BipEndpoint, u64>, t: BipEndpoint, now: u64) -> bool {
    quiet.dom().contains(t) && quiet[t] > now
}

/// The request number after `id`, wrapping.
pub open spec fn next_request_id(id: u64) -> u64 {
    if id == u64::MAX {
        0
    } else {
        (id + 1) as u64
    }
}

/// The end of the quiet period that an abandonment at `now` starts.
pub open spec fn quiet_end(now: u64) -> u64 {
    if now + BVLC_RESPONSE_TIMEOUT_MS > u64::MAX {
        u64::MAX
    } else {
        (now + BVLC_RESPONSE_TIMEOUT_MS) as u64
    }
}

/// An abandoned request keeps its target quiet for three seconds: at every
/// time before `now + 3000` ms the target is quiet, and, unless it was
/// already quiet for longer, it is quiet no more from `now + 3000` ms on.
pub proof fn lemma_abandonment_quiets_three_seconds(
    quiet: Map<BipEndpoint, u64>,
    target: BipEndpoint,
    now: u64,
    t: u64,
)
    requires
        now + 3000 <= u64::MAX,
    ensures
        quiet_end(now) == now + 3000,
        now <= t < now + 3000 ==> is_quiet(quiet_after_finish(quiet, target, true, now), target, t),
        t >= now + 3000 && !(quiet.dom().contains(target) && quiet[target] > now + 3000) ==> !is_quiet(
            quiet_after_finish(quiet, target, true, now),
            target,
            t,
        ),
{
}

/// Quiet deadlines after the request to `target` ended at `now`: an
/// abandoned request keeps its target quiet until `quiet_end(now)`, or
/// longer when it already was.
pub open spec fn quiet_after_finish(
    quiet: Map<BipEndpoint, u64>,
    target: BipEndpoint,
    abandoned: bool,
    now: u64,
) -> Map<BipEndpoint, u64> {
    if abandoned {
        if quiet.dom().contains(target) && quiet[target] > quiet_end(now) {
            quiet
        } else {
            quiet.insert(target, quiet_end(now))
        }
    } else {
        quiet
    }
}

/// Whether `msg` from `sender` answers `pending`.
pub open spec fn answers(pending: PendingBvlc, sender: BipEndpoint, msg: BvllMessage) -> bool {
    pending.target == sender && response_accepts(pending.expected, msg)
}

/// The management-exchange state of one B/IP transport.
pub struct BvlcExchange {
    pending: Option<PendingBvlc>,
    quiet: Vec<(BipEndpoint, u64)>,
    next_id: u64,
}

impl BvlcExchange {
    /// The outstanding request.
    pub closed spec fn pending_view(&self) -> Option<PendingBvlc> {
        self.pending
    }

    /// Quiet deadlines of recently abandoned targets.
    pub closed spec fn quiet_view(&self) -> Map<BipEndpoint, u64> {
        deadlines(self.quiet@)
    }

    /// Number the next request gets.
    pub closed spec fn next_id_view(&self) -> u64 {
        self.next_id
    }

    /// No request outstanding, no quiet target; requests are numbered from 1.
    pub fn new() -> (r: BvlcExchange)
        ensures
            r.pending_view() is None,
            r.quiet_view() == Map::<BipEndpoint, u64>::empty(),
            r.next_id_view() == 1,
    {
        BvlcExchange { pending: None, quiet: Vec::new(), next_id: 1 }
    }

    /// The outstanding request.
    pub fn pending(&self) -> (r: Option<PendingBvlc>)
        ensures
            r == self.pending_view(),
    {
        self.pending
    }

    /// When `target` stops being quiet, if it is quiet at `now`.
    pub fn quiet_until(&self, target: BipEndpoint, now: u64) -> (r: Option<u64>)
        ensures
            r == (if is_quiet(self.quiet_view(), target, now) {
                Some(self.quiet_view()[target])
            } else {
                None::<u64>
            }),
    {
        let mut found: Option<u64> = None;
        let mut i: usize = 0;
        while i < self.quiet.len()
            invariant
                i <= self.quiet@.len(),
                found == (if deadlines(self.quiet@.take(i as int)).dom().contains(target) {
                    Some(deadlines(self.quiet@.take(i as int))[target])
                } else {
                    None::<u64>
                }),
            decreases self.quiet@.len() - i,
        {
            assert(self.quiet@.take(i + 1).drop_last() =~= self.quiet@.take(i as int));
            if endpoint_eq(self.quiet[i].0, target) {
                found = Some(self.quiet[i].1);
            }
            i = i + 1;
        }
        assert(self.quiet@.take(i as int) =~= self.quiet@);
        match found {
            Some(d) => if d > now {
                Some(d)
            } else {
                None
            },
            None => None,
        }
    }

    fn forget(&mut self, target: BipEndpoint)
        ensures
            final(self).quiet_view() == old(self).quiet_view().remove(target),
            final(self).pending_view() == old(self).pending_view(),
            final(self).next_id_view() == old(self).next_id_view(),
    {
        let mut kept: Vec<(BipEndpoint, u64)> = Vec::new();
        let mut i: usize = 0;
        while i < self.quiet.len()
            invariant
                i <= self.quiet@.len(),
                kept@ == without(self.quiet@.take(i as int), target),
            decreases self.quiet@.len() - i,
        {
            assert(self.quiet@.take(i + 1).drop_last() =~= self.quiet@.take(i as int));
            if !endpoint_eq(self.quiet[i].0, target) {
                kept.push(self.quiet[i]);
            }
            i = i + 1;
        }
        assert(self.quiet@.take(i as int) =~= self.quiet@);
        proof {
            lemma_without(self.quiet@, target);
        }
        self.quiet = kept;
    }

    /// Starts a management request to `target` waiting for `expected`. A
    /// target that is still quiet makes the caller wait; otherwise its quiet
    /// period is over, the request takes the next number, and it becomes the
    /// outstanding one unless another request already is.
    pub fn begin(&mut self, target: BipEndpoint, expected: BvlcResponseKind, now: u64) -> (r:
        BeginOutcome)
        ensures
            is_quiet(old(self).quiet_view(), target, now) ==> r == (BeginOutcome::Wait {
                until: old(self).quiet_view()[target],
            }) && final(self).pending_view() == old(self).pending_view() && final(self).quiet_view()
                == old(self).quiet_view() && final(self).next_id_view() == old(self).next_id_view(),
            !is_quiet(old(self).quiet_view(), target, now) ==> final(self).quiet_view() == old(
                self,
            ).quiet_view().remove(target) && final(self).next_id_view() == next_request_id(
                old(self).next_id_view(),
            ),
            !is_quiet(old(self).quiet_view(), target, now) && old(self).pending_view() is Some ==> r
                == BeginOutcome::Busy && final(self).pending_view() == old(self).pending_view(),
            !is_quiet(old(self).quiet_view(), target, now) && old(self).pending_view() is None ==> r
                == (BeginOutcome::Started { id: old(self).next_id_view() }) && final(self).pending_view()
                == Some(PendingBvlc { id: old(self).next_id_view(), target, expected }),
    {
        if let Some(until) = self.quiet_until(target, now) {
            return BeginOutcome::Wait { until };
        }
        self.forget(target);
        let id = self.next_id;
        self.next_id = if self.next_id == u64::MAX {
            0
        } else {
            self.next_id + 1
        };
        if self.pending.is_some() {
            return BeginOutcome::Busy;
        }
        self.pending = Some(PendingBvlc { id, target, expected });
        BeginOutcome::Started { id }
    }

    /// Hands `msg` from `sender` to the outstanding request when it answers
    /// it; the request is then no longer outstanding. Returns the number of
    /// the request answered.
    pub fn take_response(&mut self, sender: BipEndpoint, msg: &BvllMessage) -> (r: Option<u64>)
        ensures
            match old(self).pending_view() {
                Some(p) => if answers(p, sender, *msg) {
                    r == Some(p.id) && final(self).pending_view() is None
                } else {
                    r is None && final(self).pending_view() == old(self).pending_view()
                },
                None => r is None && final(self).pending_view() is None,
            },
            final(self).quiet_view() == old(self).quiet_view(),
            final(self).next_id_view() == old(self).next_id_view(),
    {
        match self.pending {
            Some(p) => {
                if endpoint_eq(p.target, sender) && p.expected.accepts(msg) {
                    self.pending = None;
                    Some(p.id)
                } else {
                    None
                }
            },
            None => None,
        }
    }

    /// Ends request `id` to `target` at `now`: it is no longer outstanding
    /// (if it still was), and when it was abandoned without an answer its
    /// target stays quiet for one response timeout.
    pub fn finish(&mut self, id: u64, target: BipEndpoint, abandoned: bool, now: u64)
        ensures
            final(self).pending_view() == (match old(self).pending_view() {
                Some(p) => if p.id == id {
                    None
                } else {
                    Some(p)
                },
                None => None,
            }),
            final(self).quiet_view() == quiet_after_finish(old(self).quiet_view(), target, abandoned, now),
            final(self).next_id_view() == old(self).next_id_view(),
    {
        if let Some(p) = self.pending {
            if p.id == id {
                self.pending = None;
            }
        }
        if abandoned {
            let end = now.saturating_add(BVLC_RESPONSE_TIMEOUT_MS);
            let current = self.quiet_until(target, end);
            match current {
                Some(_) => {},
                None => {
                    self.forget(target);
                    let ghost kept = self.quiet@;
                    self.quiet.push((target, end));
                    proof {
                        let q = old(self).quiet_view();
                        assert(self.quiet@.drop_last() == kept);
                        assert(self.quiet_view() =~= q.remove(target).insert(target, end));
                        assert(q.remove(target).insert(target, end) =~= q.insert(target, end));
                    }
                },
            }
        }
    }
}

/// After a request to `target` is abandoned at `now`, every request to that
/// target started before the quiet period ends has to wait.
pub proof fn lemma_abandoned_target_stays_quiet(
    quiet: Map<BipEndpoint, u64>,
    target: BipEndpoint,
    now: u64,
    later: u64,
)
    requires
        now <= later < quiet_end(now),
    ensures
        is_quiet(quiet_after_finish(quiet, target, true, now), target, later),
{
}

/// A request that ended with its answer leaves every target's quiet period
/// as it was, and frees the exchange for the next request.
pub proof fn lemma_answered_request_frees_the_exchange(
    quiet: Map<BipEndpoint, u64>,
    target: BipEndpoint,
    other: BipEndpoint,
    now: u64,
)
    ensures
        quiet_after_finish(quiet, target, false, now) == quiet,
        is_quiet(quiet_after_finish(quiet, target, false, now), other, now) == is_quiet(
            quiet,
            other,
            now,
        ),
{
}

/// The entries of a Read-Broadcast-Distribution-Table answer: a BVLC-Result
/// is the read's NAK (or a malformed Result), any other message must be the
/// Ack, whose payload is the table.
pub fn read_bdt_response(msg: &BvllMessage) -> (r: Result<Vec<BdtEntry>, Error>)
    ensures
        msg.function == BvlcFunction::BVLC_RESULT ==> match result_code_of(*msg) {
            Some(c) => r == Err::<Vec<BdtEntry>, Error>(Error::Bvlc { result_code: bvlc_result_raw(c) }),
            None => r matches Err(e) && e is Encoding,
        },
        msg.function != BvlcFunction::BVLC_RESULT && msg.function
            != BvlcFunction::READ_BROADCAST_DISTRIBUTION_TABLE_ACK ==> (r matches Err(e) && e is Encoding),
        msg.function == BvlcFunction::READ_BROADCAST_DISTRIBUTION_TABLE_ACK ==> (r is Ok <==> msg.payload@.len()
            % 10 == 0) && (r matches Ok(v) ==> encode_bdt(v@) == msg.payload@),
{
    if msg.function == BvlcFunction::BVLC_RESULT {
        return Err(bvlc_result_error(msg));
    }
    crate::bvlc::expect_bvlc_function(msg, BvlcFunction::READ_BROADCAST_DISTRIBUTION_TABLE_ACK)?;
    decode_bdt(msg.payload.as_slice())
}

/// The entries of a Read-Foreign-Device-Table answer, as for
/// [`read_bdt_response`].
pub fn read_fdt_response(msg: &BvllMessage) -> (r: Result<Vec<FdtEntryWire>, Error>)
    ensures
        msg.function == BvlcFunction::BVLC_RESULT ==> match result_code_of(*msg) {
            Some(c) => r == Err::<Vec<FdtEntryWire>, Error>(Error::Bvlc { result_code: bvlc_result_raw(c) }),
            None => r matches Err(e) && e is Encoding,
        },
        msg.function != BvlcFunction::BVLC_RESULT && msg.function
            != BvlcFunction::READ_FOREIGN_DEVICE_TABLE_ACK ==> (r matches Err(e) && e is Encoding),
        msg.function == BvlcFunction::READ_FOREIGN_DEVICE_TABLE_ACK ==> (r is Ok <==> msg.payload@.len()
            % 10 == 0) && (r matches Ok(v) ==> encode_fdt(v@) == msg.payload@),
{
    if msg.function == BvlcFunction::BVLC_RESULT {
        return Err(bvlc_result_error(msg));
    }
    crate::bvlc::expect_bvlc_function(msg, BvlcFunction::READ_FOREIGN_DEVICE_TABLE_ACK)?;
    decode_fdt(msg.payload.as_slice())
}

} // verus!
