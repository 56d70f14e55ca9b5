//! Bounded four-lane runtime work scheduler.
//!
//! Each lane is FIFO. Foreground work preempts the lower lanes, but after
//! `max_foreground_burst` consecutive foreground dispatches a waiting lower
//! lane is served, so foreground traffic cannot starve polling, discovery or
//! background work. Deadlines are monotonic milliseconds supplied by the
//! caller; an item whose deadline has passed is handed back as expired.

use std::collections::VecDeque;
use vstd::prelude::*;

use vstd::string::StringExecFns;
use crate::error::{ErrorCode, RuntimeError};
use crate::hub_url::{decimal, decimal_string};

verus! {

/// Runtime work priority independent of one transport's wire encoding.
#[derive(Clone, Copy, Debug, PartialEq, Eq, Structural)]
pub enum WorkPriority {
    /// Interactive commands and writes.
    Foreground,
    /// Due polling reads.
    Poll,
    /// Discovery and topology work.
    Discovery,
    /// Bulk scans and maintenance.
    Background,
}

/// Monotonic operation identity used for cancellation and observability.
#[derive(Clone, Copy, Debug, PartialEq, Eq, Hash, PartialOrd, Ord, Structural)]
pub struct OperationId(pub u64);

/// Result of requesting cancellation for one operation.
#[derive(Clone, Copy, Debug, PartialEq, Eq, Structural)]
pub struct CancelReport {
    /// Requested identity.
    pub id: OperationId,
    /// Operation was removed before dispatch.
    pub queued: bool,
    /// Cancellation was signalled to an executing operation.
    pub in_flight: bool,
}

impl CancelReport {
    /// Whether queued or in-flight work was found.
    pub fn found(&self) -> (r: bool)
        ensures
            r == (self.queued || self.in_flight),
    {
        self.queued || self.in_flight
    }
}

/// One accepted scheduler item.
#[derive(Debug)]
pub struct Scheduled<T> {
    /// Stable operation identity.
    pub id: OperationId,
    /// Runtime lane.
    pub priority: WorkPriority,
    /// Absolute deadline in monotonic milliseconds, checked before dispatch.
    pub deadline: u64,
    /// Caller payload.
    pub payload: T,
}

/// Result of selecting the next item.
#[derive(Debug)]
pub enum Dispatch<T> {
    /// Item may execute before its deadline.
    Ready(Scheduled<T>),
    /// Item expired in the queue and must not execute.
    Expired(Scheduled<T>),
}

/// The item carried by a dispatch result.
pub open spec fn dispatch_item<T>(d: Dispatch<T>) -> Scheduled<T> {
    match d {
        Dispatch::Ready(item) => item,
        Dispatch::Expired(item) => item,
    }
}

/// Lane of a priority: 0 foreground, 1 poll, 2 discovery, 3 background.
pub open spec fn lane_index(priority: WorkPriority) -> int {
    match priority {
        WorkPriority::Foreground => 0,
        WorkPriority::Poll => 1,
        WorkPriority::Discovery => 2,
        WorkPriority::Background => 3,
    }
}

/// The lanes in priority order: foreground first, then poll, discovery and
/// background.
pub proof fn lemma_lane_numbers()
    ensures
        lane_index(WorkPriority::Foreground) == 0,
        lane_index(WorkPriority::Poll) == 1,
        lane_index(WorkPriority::Discovery) == 2,
        lane_index(WorkPriority::Background) == 3,
{
}

/// Whether any of the three lower lanes holds work.
pub open spec fn lower_waiting<T>(lanes: Seq<Seq<Scheduled<T>>>) -> bool {
    lanes[1].len() > 0 || lanes[2].len() > 0 || lanes[3].len() > 0
}

/// Whether the next dispatch serves the foreground lane.
pub open spec fn foreground_selected<T>(lanes: Seq<Seq<Scheduled<T>>>, burst: nat, max_burst: nat) -> bool {
    lanes[0].len() > 0 && (!lower_waiting(lanes) || burst < max_burst)
}

/// The lane the next dispatch pops from (lane 0 when every lane is empty).
pub open spec fn selected_lane<T>(lanes: Seq<Seq<Scheduled<T>>>, burst: nat, max_burst: nat) -> int {
    if foreground_selected(lanes, burst, max_burst) {
        0
    } else if lanes[1].len() > 0 {
        1
    } else if lanes[2].len() > 0 {
        2
    } else if lanes[3].len() > 0 {
        3
    } else {
        0
    }
}

/// Foreground burst counter after the next dispatch (saturating).
pub open spec fn next_burst<T>(lanes: Seq<Seq<Scheduled<T>>>, burst: nat, max_burst: nat) -> nat {
    if foreground_selected(lanes, burst, max_burst) {
        if burst < usize::MAX {
            (burst + 1) as nat
        } else {
            burst
        }
    } else {
        0
    }
}

/// Whether some item of `s` has identity `id`.
pub open spec fn seq_has_id<T>(s: Seq<Scheduled<T>>, id: OperationId) -> bool {
    exists|j: int| 0 <= j < s.len() && (#[trigger] s[j]).id == id
}

/// `i` is the first position of `s` holding identity `id`.
pub open spec fn is_first_match<T>(s: Seq<Scheduled<T>>, id: OperationId, i: int) -> bool {
    &&& 0 <= i < s.len()
    &&& s[i].id == id
    &&& forall|j: int| 0 <= j < i ==> (#[trigger] s[j]).id != id
}

/// First lane that holds identity `id` (4 when no lane does).
pub open spec fn lane_of_id<T>(lanes: Seq<Seq<Scheduled<T>>>, id: OperationId) -> int {
    if seq_has_id(lanes[0], id) {
        0
    } else if seq_has_id(lanes[1], id) {
        1
    } else if seq_has_id(lanes[2], id) {
        2
    } else if seq_has_id(lanes[3], id) {
        3
    } else {
        4
    }
}

/// Total number of queued items over the four lanes.
pub open spec fn queued_count<T>(lanes: Seq<Seq<Scheduled<T>>>) -> nat {
    lanes[0].len() + lanes[1].len() + lanes[2].len() + lanes[3].len()
}

/// Identity issued after `id` (wrapping from `u64::MAX` to 1).
pub open spec fn successor_id(id: u64) -> u64 {
    if id == u64::MAX {
        1
    } else {
        (id + 1) as u64
    }
}

/// Lanes and foreground burst after one dispatch, exactly as
/// [`WorkScheduler::next`] changes them.
pub open spec fn dispatch_state<T>(lanes: Seq<Seq<Scheduled<T>>>, burst: nat, max_burst: nat) -> (
    Seq<Seq<Scheduled<T>>>,
    nat,
) {
    let k = selected_lane(lanes, burst, max_burst);
    (
        if lanes[k].len() > 0 {
            lanes.update(k, lanes[k].drop_first())
        } else {
            lanes
        },
        next_burst(lanes, burst, max_burst),
    )
}

/// Dispatch order: foreground work goes first while its burst allows or no
/// lower work waits; otherwise poll work goes before discovery work, and
/// discovery work before background work.
pub proof fn lemma_dispatch_priority_order<T>(lanes: Seq<Seq<Scheduled<T>>>, burst: nat, max_burst: nat)
    requires
        lanes.len() == 4,
    ensures
        lanes[lane_index(WorkPriority::Foreground)].len() > 0 && (burst < max_burst || !lower_waiting(lanes))
            ==> selected_lane(lanes, burst, max_burst) == lane_index(WorkPriority::Foreground),
        !foreground_selected(lanes, burst, max_burst) && lanes[lane_index(WorkPriority::Poll)].len() > 0
            ==> selected_lane(lanes, burst, max_burst) == lane_index(WorkPriority::Poll),
        !foreground_selected(lanes, burst, max_burst) && lanes[lane_index(WorkPriority::Poll)].len() == 0
            && lanes[lane_index(WorkPriority::Discovery)].len() > 0 ==> selected_lane(lanes, burst, max_burst)
            == lane_index(WorkPriority::Discovery),
        !foreground_selected(lanes, burst, max_burst) && lanes[lane_index(WorkPriority::Poll)].len() == 0
            && lanes[lane_index(WorkPriority::Discovery)].len() == 0 && lanes[lane_index(
            WorkPriority::Background,
        )].len() > 0 ==> selected_lane(lanes, burst, max_burst) == lane_index(WorkPriority::Background),
{
}

/// Lanes and burst after `n` consecutive dispatches with no new work.
pub open spec fn dispatch_states<T>(
    lanes: Seq<Seq<Scheduled<T>>>,
    burst: nat,
    max_burst: nat,
    n: nat,
) -> (Seq<Seq<Scheduled<T>>>, nat)
    decreases n,
{
    if n == 0 {
        (lanes, burst)
    } else {
        let (l, b) = dispatch_state(lanes, burst, max_burst);
        dispatch_states(l, b, max_burst, (n - 1) as nat)
    }
}

/// Dispatches that may still serve the foreground lane before a waiting
/// lower lane must be served.
pub open spec fn foreground_allowance(burst: nat, max_burst: nat) -> nat {
    if burst >= max_burst {
        0
    } else {
        (max_burst - burst) as nat
    }
}

/// Foreground work cannot starve the lower lanes: when a lower lane holds
/// work and nothing new is enqueued, one of the next
/// `max_foreground_burst - foreground_burst + 1` dispatches (at most
/// `max_foreground_burst + 1`) serves a lower lane.
pub proof fn lemma_foreground_cannot_starve_lower_lanes<T>(
    lanes: Seq<Seq<Scheduled<T>>>,
    burst: nat,
    max_burst: nat,
)
    requires
        lanes.len() == 4,
        lower_waiting(lanes),
        max_burst <= usize::MAX,
    ensures
        exists|n: nat|
            #![trigger dispatch_states(lanes, burst, max_burst, n)]
            {
                let (l, b) = dispatch_states(lanes, burst, max_burst, n);
                &&& n <= foreground_allowance(burst, max_burst)
                &&& selected_lane(l, b, max_burst) != 0
                &&& l[selected_lane(l, b, max_burst)].len() > 0
            },
    decreases foreground_allowance(burst, max_burst),
{
    if foreground_selected(lanes, burst, max_burst) {
        let (l, b) = dispatch_state(lanes, burst, max_burst);
        assert(l[1] == lanes[1] && l[2] == lanes[2] && l[3] == lanes[3]);
        assert(b == burst + 1);
        lemma_foreground_cannot_starve_lower_lanes(l, b, max_burst);
        let n2 = choose|n: nat|
            #![trigger dispatch_states(l, b, max_burst, n)]
            {
                let (l2, b2) = dispatch_states(l, b, max_burst, n);
                &&& n <= foreground_allowance(b, max_burst)
                &&& selected_lane(l2, b2, max_burst) != 0
                &&& l2[selected_lane(l2, b2, max_burst)].len() > 0
            };
        assert(dispatch_states(lanes, burst, max_burst, n2 + 1) == dispatch_states(
            l,
            b,
            max_burst,
            n2,
        ));
    } else {
        assert(dispatch_states(lanes, burst, max_burst, 0) == (lanes, burst));
    }
}

proof fn lemma_foreground_run_raises_burst<T>(
    lanes: Seq<Seq<Seq<Scheduled<T>>>>,
    bursts: Seq<nat>,
    max_burst: nat,
    i: int,
)
    requires
        0 <= i < bursts.len(),
        lanes.len() == bursts.len(),
        max_burst <= usize::MAX,
        forall|j: int| 0 <= j < i ==> #[trigger] foreground_selected(lanes[j], bursts[j], max_burst),
        forall|j: int| 0 <= j < i ==> lower_waiting(#[trigger] lanes[j]),
        forall|j: int|
            0 <= j < bursts.len() - 1 ==> bursts[j + 1] == #[trigger] next_burst(lanes[j], bursts[j], max_burst),
    ensures
        bursts[i] >= i,
    decreases i,
{
    if i > 0 {
        lemma_foreground_run_raises_burst(lanes, bursts, max_burst, i - 1);
        assert(foreground_selected(lanes[i - 1], bursts[i - 1], max_burst));
        assert(lower_waiting(lanes[i - 1]));
        assert(bursts[i] == next_burst(lanes[i - 1], bursts[i - 1], max_burst));
    }
}

/// Foreground work cannot starve the lower lanes, whatever is enqueued or
/// cancelled between dispatches: over `max_burst + 1` consecutive dispatches
/// before each of which some lower lane holds work, one serves a lower lane.
/// Between dispatches only enqueues and cancellations happen, which leave the
/// foreground burst counter as it is, so each dispatch starts from the burst
/// the previous one left (`bursts[i + 1] == next_burst(..)`); the lanes
/// before each dispatch are arbitrary.
pub proof fn lemma_foreground_cannot_starve_interleaved<T>(
    lanes: Seq<Seq<Seq<Scheduled<T>>>>,
    bursts: Seq<nat>,
    max_burst: nat,
)
    requires
        max_burst <= usize::MAX,
        lanes.len() == max_burst + 1,
        bursts.len() == max_burst + 1,
        forall|j: int| 0 <= j < lanes.len() ==> lower_waiting(#[trigger] lanes[j]),
        forall|j: int|
            0 <= j < bursts.len() - 1 ==> bursts[j + 1] == #[trigger] next_burst(lanes[j], bursts[j], max_burst),
    ensures
        exists|j: int| 0 <= j < lanes.len() && !#[trigger] foreground_selected(lanes[j], bursts[j], max_burst),
{
    if forall|j: int| 0 <= j < lanes.len() ==> #[trigger] foreground_selected(lanes[j], bursts[j], max_burst) {
        let m = max_burst as int;
        lemma_foreground_run_raises_burst(lanes, bursts, max_burst, m);
        assert(foreground_selected(lanes[m], bursts[m], max_burst));
        assert(lower_waiting(lanes[m]));
    }
}

/// Foreground work cannot starve the lower lanes, stated over the
/// scheduler itself: take `max_foreground_burst + 1` consecutive calls of
/// [`WorkScheduler::next`], where `before[j]` and `after[j]` are the
/// scheduler just before and just after call `j`, each call changes the
/// burst as `next` states, only `enqueue` and `cancel` (which keep the
/// burst) happen between calls, and some lower lane holds work before every
/// call. Then one of the calls serves a lower lane.
pub proof fn lemma_dispatch_calls_cannot_starve_lower_lanes<T>(
    before: Seq<WorkScheduler<T>>,
    after: Seq<WorkScheduler<T>>,
)
    requires
        before.len() == after.len(),
        before.len() == before[0].max_foreground_burst() + 1,
        forall|j: int| 0 <= j < before.len() ==> (#[trigger] before[j]).max_foreground_burst()
            == before[0].max_foreground_burst(),
        forall|j: int|
            0 <= j < before.len() ==> (#[trigger] after[j]).foreground_burst() == next_burst(
                before[j].lanes(),
                before[j].foreground_burst(),
                before[j].max_foreground_burst(),
            ),
        forall|j: int|
            0 <= j < before.len() - 1 ==> (#[trigger] before[j + 1]).foreground_burst()
                == after[j].foreground_burst(),
        forall|j: int| 0 <= j < before.len() ==> lower_waiting((#[trigger] before[j]).lanes()),
    ensures
        exists|j: int|
            0 <= j < before.len() && !foreground_selected(
                (#[trigger] before[j]).lanes(),
                before[j].foreground_burst(),
                before[j].max_foreground_burst(),
            ),
{
    let n = before.len();
    let max = before[0].max_foreground_burst();
    let lanes = Seq::new(n, |j: int| before[j].lanes());
    let bursts = Seq::new(n, |j: int| before[j].foreground_burst());
    assert forall|j: int| 0 <= j < lanes.len() implies lower_waiting(#[trigger] lanes[j]) by {
        assert(lanes[j] == before[j].lanes());
        assert(lower_waiting(before[j].lanes()));
    }
    assert forall|j: int| 0 <= j < bursts.len() - 1 implies bursts[j + 1] == #[trigger] next_burst(
        lanes[j],
        bursts[j],
        max,
    ) by {
        assert(before[j].max_foreground_burst() == max);
        assert(after[j].foreground_burst() == next_burst(before[j].lanes(), before[j].foreground_burst(), max));
        assert(before[j + 1].foreground_burst() == after[j].foreground_burst());
    }
    lemma_foreground_cannot_starve_interleaved(lanes, bursts, max);
    let j = choose|j: int| 0 <= j < lanes.len() && !#[trigger] foreground_selected(lanes[j], bursts[j], max);
    assert(before[j].max_foreground_burst() == max);
    assert(!foreground_selected(before[j].lanes(), before[j].foreground_burst(), before[j].max_foreground_burst()));
}

/// Lower lanes are served ahead of waiting foreground work only once the
/// foreground burst is used up: then the burst counter, which counts the
/// consecutive foreground dispatches just before (see [`next_burst`]), has
/// reached its bound, and the dispatch resets it.
pub proof fn lemma_lower_lane_waits_for_full_burst<T>(
    lanes: Seq<Seq<Scheduled<T>>>,
    burst: nat,
    max_burst: nat,
)
    requires
        lanes.len() == 4,
        lanes[0].len() > 0,
        selected_lane(lanes, burst, max_burst) != 0,
    ensures
        burst >= max_burst,
        next_burst(lanes, burst, max_burst) == 0,
{
}

/// Bounded four-lane scheduler with FIFO lanes and starvation prevention.
pub struct WorkScheduler<T> {
    foreground: VecDeque<Scheduled<T>>,
    poll: VecDeque<Scheduled<T>>,
    discovery: VecDeque<Scheduled<T>>,
    background: VecDeque<Scheduled<T>>,
    capacity: usize,
    max_foreground_burst: usize,
    foreground_burst: usize,
    next_id: u64,
    accepted: Ghost<nat>,
    cancelled: Ghost<nat>,
    dispatched: Ghost<nat>,
    drained: Ghost<nat>,
}

impl<T> WorkScheduler<T> {
    /// The four lanes in priority order.
    pub closed spec fn lanes(&self) -> Seq<Seq<Scheduled<T>>> {
        seq![self.foreground@, self.poll@, self.discovery@, self.background@]
    }

    /// Aggregate capacity over all lanes.
    pub closed spec fn capacity(&self) -> nat {
        self.capacity as nat
    }

    /// Maximum consecutive foreground dispatches while lower work waits.
    pub closed spec fn max_foreground_burst(&self) -> nat {
        self.max_foreground_burst as nat
    }

    /// Consecutive foreground dispatches so far.
    pub closed spec fn foreground_burst(&self) -> nat {
        self.foreground_burst as nat
    }

    /// Identity the next accepted item receives.
    pub closed spec fn next_id(&self) -> u64 {
        self.next_id
    }

    /// Number of queued items.
    pub open spec fn queued(&self) -> nat {
        queued_count(self.lanes())
    }

    /// Items accepted by `enqueue` so far.
    pub closed spec fn accepted_count(&self) -> nat {
        self.accepted@
    }

    /// Items removed by `cancel` so far.
    pub closed spec fn cancelled_count(&self) -> nat {
        self.cancelled@
    }

    /// Items handed out by `next` so far.
    pub closed spec fn dispatched_count(&self) -> nat {
        self.dispatched@
    }

    /// Items handed back by `drain` so far.
    pub closed spec fn drained_count(&self) -> nat {
        self.drained@
    }

    /// The four counts of the scheduler's history.
    pub open spec fn history(&self) -> (nat, nat, nat, nat) {
        (self.accepted_count(), self.cancelled_count(), self.dispatched_count(), self.drained_count())
    }

    /// The queued items are exactly those accepted and not yet cancelled,
    /// dispatched or drained.
    pub open spec fn history_balanced(&self) -> bool {
        self.queued() + self.cancelled_count() + self.dispatched_count() + self.drained_count()
            == self.accepted_count()
    }

    /// A scheduler always has its four lanes.
    pub proof fn lemma_four_lanes(&self)
        ensures
            self.lanes().len() == 4,
    {
    }

    #[verifier::type_invariant]
    closed spec fn well_formed(&self) -> bool {
        &&& self.capacity > 0
        &&& self.max_foreground_burst > 0
        &&& self.next_id >= 1
        &&& queued_count(self.lanes()) <= self.capacity
        &&& forall|k: int, j: int|
            0 <= k < 4 && 0 <= j < self.lanes()[k].len() ==> lane_index(
                #[trigger] self.lanes()[k][j].priority,
            ) == k
    }

    /// Creates a scheduler with one aggregate capacity and a foreground burst bound.
    pub fn new(capacity: usize, max_foreground_burst: usize) -> (r: Result<Self, RuntimeError>)
        ensures
            (capacity == 0 || max_foreground_burst == 0) <==> r is Err,
            r matches Err(e) ==> e.code == ErrorCode::InvalidConfig && !e.retryable
                && e.attachment_id is None,
            r matches Ok(s) ==> {
                &&& s.capacity() == capacity
                &&& s.max_foreground_burst() == max_foreground_burst
                &&& s.foreground_burst() == 0
                &&& s.next_id() == 1
                &&& s.history() == (0nat, 0nat, 0nat, 0nat)
                &&& s.lanes() == seq![
                    Seq::<Scheduled<T>>::empty(),
                    Seq::<Scheduled<T>>::empty(),
                    Seq::<Scheduled<T>>::empty(),
                    Seq::<Scheduled<T>>::empty(),
                ]
            },
    {
        if capacity == 0 || max_foreground_burst == 0 {
            return Err(
                RuntimeError::invalid_config(
                    "scheduler capacity and max_foreground_burst must be non-zero",
                ),
            );
        }
        Ok(WorkScheduler {
            foreground: VecDeque::new(),
            poll: VecDeque::new(),
            discovery: VecDeque::new(),
            background: VecDeque::new(),
            capacity,
            max_foreground_burst,
            foreground_burst: 0,
            next_id: 1,
            accepted: Ghost(0),
            cancelled: Ghost(0),
            dispatched: Ghost(0),
            drained: Ghost(0),
        })
    }

    /// Current queued work count, never above the capacity: the accepted
    /// items less those cancelled, dispatched and drained.
    pub fn len(&self) -> (r: usize)
        ensures
            r == self.queued(),
            self.history_balanced() ==> r == self.accepted_count() - self.cancelled_count()
                - self.dispatched_count() - self.drained_count(),
            r <= self.capacity(),
            self.lanes().len() == 4,
    {
        proof {
            use_type_invariant(self);
        }
        self.foreground.len() + self.poll.len() + self.discovery.len() + self.background.len()
    }

    /// Moves lane `k` out of the scheduler, leaving it empty.
    fn take_lane(&mut self, k: usize) -> (q: VecDeque<Scheduled<T>>)
        requires
            k < 4,
        ensures
            q@ == old(self).lanes()[k as int],
            final(self).lanes() == old(self).lanes().update(k as int, Seq::empty()),
            final(self).history() == old(self).history(),
            final(self).capacity() == old(self).capacity(),
            final(self).max_foreground_burst() == old(self).max_foreground_burst(),
            final(self).foreground_burst() == old(self).foreground_burst(),
            final(self).next_id() == old(self).next_id(),
    {
        proof {
            use_type_invariant(&*self);
        }
        let mut q: VecDeque<Scheduled<T>> = VecDeque::new();
        let ghost lanes = self.lanes();
        proof {
            assert(queued_count(lanes.update(k as int, Seq::empty())) <= queued_count(lanes));
            assert forall|k2: int, j: int|
                0 <= k2 < 4 && 0 <= j < lanes.update(k as int, Seq::empty())[k2].len() implies lane_index(
                    #[trigger] lanes.update(k as int, Seq::empty())[k2][j].priority,
                ) == k2 by {
                assert(lanes.update(k as int, Seq::empty())[k2] == lanes[k2]);
            }
        }
        if k == 0 {
            std::mem::swap(&mut q, &mut self.foreground);
        } else if k == 1 {
            std::mem::swap(&mut q, &mut self.poll);
        } else if k == 2 {
            std::mem::swap(&mut q, &mut self.discovery);
        } else {
            std::mem::swap(&mut q, &mut self.background);
        }
        assert(self.lanes() =~= lanes.update(k as int, Seq::empty()));
        q
    }

    /// Puts `q` back as lane `k`, which must be empty.
    fn put_lane(&mut self, k: usize, q: VecDeque<Scheduled<T>>)
        requires
            k < 4,
            old(self).lanes()[k as int].len() == 0,
            old(self).queued() + q@.len() <= old(self).capacity(),
            forall|j: int| 0 <= j < q@.len() ==> lane_index((#[trigger] q@[j]).priority) == k,
        ensures
            final(self).lanes() == old(self).lanes().update(k as int, q@),
            final(self).history() == old(self).history(),
            final(self).capacity() == old(self).capacity(),
            final(self).max_foreground_burst() == old(self).max_foreground_burst(),
            final(self).foreground_burst() == old(self).foreground_burst(),
            final(self).next_id() == old(self).next_id(),
    {
        proof {
            use_type_invariant(&*self);
        }
        let mut q = q;
        let ghost lanes = self.lanes();
        let ghost qs = q@;
        proof {
            assert(queued_count(lanes.update(k as int, qs)) == queued_count(lanes) + qs.len());
            assert forall|k2: int, j: int|
                0 <= k2 < 4 && 0 <= j < lanes.update(k as int, qs)[k2].len() implies lane_index(
                    #[trigger] lanes.update(k as int, qs)[k2][j].priority,
                ) == k2 by {
                if k2 != k {
                    assert(lanes.update(k as int, qs)[k2] == lanes[k2]);
                }
            }
        }
        if k == 0 {
            std::mem::swap(&mut q, &mut self.foreground);
        } else if k == 1 {
            std::mem::swap(&mut q, &mut self.poll);
        } else if k == 2 {
            std::mem::swap(&mut q, &mut self.discovery);
        } else {
            std::mem::swap(&mut q, &mut self.background);
        }
        assert(self.lanes() =~= lanes.update(k as int, qs));
    }

    /// Enqueues without waiting; saturation is explicit backpressure.
    pub fn enqueue(&mut self, priority: WorkPriority, deadline: u64, payload: T) -> (r: Result<
        OperationId,
        RuntimeError,
    >)
        ensures
            (old(self).queued() >= old(self).capacity()) <==> r is Err,
            final(self).capacity() == old(self).capacity(),
            final(self).max_foreground_burst() == old(self).max_foreground_burst(),
            final(self).foreground_burst() == old(self).foreground_burst(),
            r matches Err(e) ==> {
                &&& e.code == ErrorCode::Backpressure
                &&& e.message@ == capacity_full_text(old(self).capacity())
                &&& e.retryable
                &&& e.attachment_id is None
                &&& final(self).lanes() == old(self).lanes()
                &&& final(self).next_id() == old(self).next_id()
            },
            final(self).lanes().len() == 4,
            r is Ok ==> final(self).queued() == old(self).queued() + 1,
            final(self).history() == (if r is Ok {
                (old(self).accepted_count() + 1, old(self).cancelled_count(), old(self).dispatched_count(),
                    old(self).drained_count())
            } else {
                old(self).history()
            }),
            old(self).history_balanced() ==> final(self).history_balanced(),
            r matches Ok(id) ==> {
                &&& id.0 == old(self).next_id()
                &&& final(self).next_id() == successor_id(old(self).next_id())
                &&& final(self).lanes() == old(self).lanes().update(
                    lane_index(priority),
                    old(self).lanes()[lane_index(priority)].push(
                        (Scheduled { id, priority, deadline, payload }),
                    ),
                )
            },
    {
        proof {
            use_type_invariant(&*self);
        }
        if self.len() >= self.capacity {
            return Err(
                RuntimeError {
                    code: ErrorCode::Backpressure,
                    retryable: true,
                    attachment_id: None,
                    message: capacity_full_message(self.capacity),
                },
            );
        }
        let id = OperationId(self.next_id);
        self.next_id = match self.next_id.checked_add(1) {
            Some(n) => n,
            None => 1,
        };
        let item = Scheduled { id, priority, deadline, payload };
        let k = lane(priority);
        let ghost lanes = self.lanes();
        let mut q = self.take_lane(k);
        q.push_back(item);
        self.put_lane(k, q);
        assert(self.lanes() =~= lanes.update(k as int, lanes[k as int].push(item)));
        proof {
            self.accepted@ = self.accepted@ + 1;
        }
        Ok(id)
    }

    /// Removes queued work. In-flight cancellation is handled by its task token.
    ///
    /// Lanes are searched in priority order and the first matching item of
    /// the first lane holding the identity is removed.
    pub fn cancel(&mut self, id: OperationId) -> (r: Option<Scheduled<T>>)
        ensures
            r is None <==> lane_of_id(old(self).lanes(), id) == 4,
            r is None ==> final(self).lanes() == old(self).lanes(),
            final(self).lanes().len() == 4,
            r is Some ==> final(self).queued() + 1 == old(self).queued(),
            final(self).history() == (if r is Some {
                (old(self).accepted_count(), old(self).cancelled_count() + 1, old(self).dispatched_count(),
                    old(self).drained_count())
            } else {
                old(self).history()
            }),
            old(self).history_balanced() ==> final(self).history_balanced(),
            r matches Some(item) ==> {
                let k = lane_of_id(old(self).lanes(), id);
                exists|i: int|
                    {
                        &&& is_first_match(old(self).lanes()[k], id, i)
                        &&& item == old(self).lanes()[k][i]
                        &&& final(self).lanes() == old(self).lanes().update(
                            k,
                            old(self).lanes()[k].remove(i),
                        )
                    }
            },
            final(self).capacity() == old(self).capacity(),
            final(self).max_foreground_burst() == old(self).max_foreground_burst(),
            final(self).foreground_burst() == old(self).foreground_burst(),
            final(self).next_id() == old(self).next_id(),
    {
        let r = self.cancel_queued(id);
        if r.is_some() {
            proof {
                use_type_invariant(&*self);
                self.cancelled@ = self.cancelled@ + 1;
            }
        }
        r
    }

    /// Removes the first item with identity `id` of the first lane holding it.
    fn cancel_queued(&mut self, id: OperationId) -> (r: Option<Scheduled<T>>)
        ensures
            r is None <==> lane_of_id(old(self).lanes(), id) == 4,
            r is None ==> final(self).lanes() == old(self).lanes(),
            final(self).lanes().len() == 4,
            r is Some ==> final(self).queued() + 1 == old(self).queued(),
            final(self).history() == old(self).history(),
            r matches Some(item) ==> {
                let k = lane_of_id(old(self).lanes(), id);
                exists|i: int|
                    {
                        &&& is_first_match(old(self).lanes()[k], id, i)
                        &&& item == old(self).lanes()[k][i]
                        &&& final(self).lanes() == old(self).lanes().update(
                            k,
                            old(self).lanes()[k].remove(i),
                        )
                    }
            },
            final(self).capacity() == old(self).capacity(),
            final(self).max_foreground_burst() == old(self).max_foreground_burst(),
            final(self).foreground_burst() == old(self).foreground_burst(),
            final(self).next_id() == old(self).next_id(),
    {
        proof {
            use_type_invariant(&*self);
        }
        let ghost lanes = self.lanes();
        let r0 = self.remove_from_lane(0, id);
        if r0.is_some() {
            return r0;
        }
        assert(!seq_has_id(lanes[0], id));
        let r1 = self.remove_from_lane(1, id);
        if r1.is_some() {
            assert(lane_of_id(lanes, id) == 1);
            return r1;
        }
        assert(!seq_has_id(lanes[1], id));
        let r2 = self.remove_from_lane(2, id);
        if r2.is_some() {
            assert(lane_of_id(lanes, id) == 2);
            return r2;
        }
        assert(!seq_has_id(lanes[2], id));
        self.remove_from_lane(3, id)
    }

    /// Removes the first item of lane `k` with identity `id`, if any.
    fn remove_from_lane(&mut self, k: usize, id: OperationId) -> (r: Option<Scheduled<T>>)
        requires
            k < 4,
        ensures
            r is None <==> !seq_has_id(old(self).lanes()[k as int], id),
            r is None ==> final(self).lanes() == old(self).lanes(),
            final(self).history() == old(self).history(),
            r matches Some(item) ==> exists|i: int|
                {
                    &&& is_first_match(old(self).lanes()[k as int], id, i)
                    &&& item == old(self).lanes()[k as int][i]
                    &&& final(self).lanes() == old(self).lanes().update(
                        k as int,
                        old(self).lanes()[k as int].remove(i),
                    )
                },
            final(self).capacity() == old(self).capacity(),
            final(self).max_foreground_burst() == old(self).max_foreground_burst(),
            final(self).foreground_burst() == old(self).foreground_burst(),
            final(self).next_id() == old(self).next_id(),
    {
        proof {
            use_type_invariant(&*self);
        }
        let ghost lanes = self.lanes();
        let mut q = self.take_lane(k);
        match position_of(&q, id) {
            Some(i) => {
                let item = q.remove(i);
                proof {
                    assert forall|j: int| 0 <= j < q@.len() implies lane_index(
                        (#[trigger] q@[j]).priority,
                    ) == k by {
                        if j < i {
                            assert(q@[j] == lanes[k as int][j]);
                        } else {
                            assert(q@[j] == lanes[k as int][j + 1]);
                        }
                    }
                }
                self.put_lane(k, q);
                item
            },
            None => {
                self.put_lane(k, q);
                assert(self.lanes() =~= lanes);
                None
            },
        }
    }

    /// Selects the next item, forcing a waiting lower lane after a foreground burst.
    pub fn next(&mut self, now: u64) -> (r: Option<Dispatch<T>>)
        ensures
            final(self).foreground_burst() == next_burst(
                old(self).lanes(),
                old(self).foreground_burst(),
                old(self).max_foreground_burst(),
            ),
            r is None <==> old(self).queued() == 0,
            r is None ==> final(self).lanes() == old(self).lanes(),
            final(self).lanes().len() == 4,
            r is Some ==> final(self).queued() + 1 == old(self).queued(),
            final(self).history() == (if r is Some {
                (old(self).accepted_count(), old(self).cancelled_count(), old(self).dispatched_count() + 1,
                    old(self).drained_count())
            } else {
                old(self).history()
            }),
            old(self).history_balanced() ==> final(self).history_balanced(),
            r matches Some(d) ==> {
                let k = selected_lane(
                    old(self).lanes(),
                    old(self).foreground_burst(),
                    old(self).max_foreground_burst(),
                );
                &&& old(self).lanes()[k].len() > 0
                &&& dispatch_item(d) == old(self).lanes()[k][0]
                &&& lane_index(dispatch_item(d).priority) == k
                &&& final(self).lanes() == old(self).lanes().update(
                    k,
                    old(self).lanes()[k].drop_first(),
                )
                &&& (d is Expired <==> now >= old(self).lanes()[k][0].deadline)
            },
            final(self).capacity() == old(self).capacity(),
            final(self).max_foreground_burst() == old(self).max_foreground_burst(),
            final(self).next_id() == old(self).next_id(),
    {
        proof {
            use_type_invariant(&*self);
        }
        let ghost lanes = self.lanes();
        let lower = self.poll.len() > 0 || self.discovery.len() > 0 || self.background.len() > 0;
        let k: usize = if self.foreground.len() > 0 && (!lower || self.foreground_burst
            < self.max_foreground_burst) {
            self.foreground_burst = self.foreground_burst.saturating_add(1);
            0
        } else {
            self.foreground_burst = 0;
            if self.poll.len() > 0 {
                1
            } else if self.discovery.len() > 0 {
                2
            } else if self.background.len() > 0 {
                3
            } else {
                0
            }
        };
        let mut q = self.take_lane(k);
        let popped = q.pop_front();
        proof {
            assert forall|j: int| 0 <= j < q@.len() implies lane_index(
                (#[trigger] q@[j]).priority,
            ) == k by {
                assert(q@[j] == lanes[k as int][j + 1]);
            }
        }
        self.put_lane(k, q);
        match popped {
            Some(item) => {
                proof {
                    self.dispatched@ = self.dispatched@ + 1;
                }
                if now >= item.deadline {
                    Some(Dispatch::Expired(item))
                } else {
                    Some(Dispatch::Ready(item))
                }
            },
            None => {
                assert(self.lanes() =~= lanes);
                None
            },
        }
    }

    /// Removes and returns every queued item, lanes in priority order.
    pub fn drain(&mut self) -> (r: Vec<Scheduled<T>>)
        ensures
            r@ == old(self).lanes()[0] + old(self).lanes()[1] + old(self).lanes()[2]
                + old(self).lanes()[3],
            final(self).queued() == 0,
            final(self).history() == (old(self).accepted_count(), old(self).cancelled_count(),
                old(self).dispatched_count(), old(self).drained_count() + r@.len()),
            old(self).history_balanced() ==> final(self).history_balanced(),
            final(self).foreground_burst() == 0,
            final(self).capacity() == old(self).capacity(),
            final(self).max_foreground_burst() == old(self).max_foreground_burst(),
            final(self).next_id() == old(self).next_id(),
    {
        proof {
            use_type_invariant(&*self);
        }
        self.foreground_burst = 0;
        let mut out: Vec<Scheduled<T>> = Vec::new();
        let ghost lanes = self.lanes();
        let mut q0 = self.take_lane(0);
        drain_lane(&mut q0, &mut out);
        let mut q1 = self.take_lane(1);
        drain_lane(&mut q1, &mut out);
        let mut q2 = self.take_lane(2);
        drain_lane(&mut q2, &mut out);
        let mut q3 = self.take_lane(3);
        drain_lane(&mut q3, &mut out);
        assert(out@ =~= lanes[0] + lanes[1] + lanes[2] + lanes[3]);
        proof {
            self.drained@ = self.drained@ + out@.len();
        }
        out
    }

    /// Whether no work is queued.
    pub fn is_empty(&self) -> (r: bool)
        ensures
            r == (self.queued() == 0),
    {
        self.foreground.len() == 0 && self.poll.len() == 0 && self.discovery.len() == 0
            && self.background.len() == 0
    }
}

/// Lane index of a priority.
fn lane(priority: WorkPriority) -> (r: usize)
    ensures
        r == lane_index(priority),
        r < 4,
{
    match priority {
        WorkPriority::Foreground => 0,
        WorkPriority::Poll => 1,
        WorkPriority::Discovery => 2,
        WorkPriority::Background => 3,
    }
}

/// Message reported when the scheduler rejects work at capacity.
pub open spec fn capacity_full_text(capacity: nat) -> Seq<char> {
    "runtime scheduler capacity "@ + decimal(capacity) + " is full"@
}

/// Message reported when the scheduler rejects work at capacity.
fn capacity_full_message(capacity: usize) -> (r: String)
    ensures
        r@ == capacity_full_text(capacity as nat),
{
    let mut m = "runtime scheduler capacity ".to_owned();
    m.append(decimal_string(capacity as u64).as_str());
    m.append(" is full");
    m
}

/// First position of `q` holding identity `id`.
fn position_of<T>(q: &VecDeque<Scheduled<T>>, id: OperationId) -> (r: Option<usize>)
    ensures
        r matches Some(i) ==> is_first_match(q@, id, i as int),
        r is None ==> !seq_has_id(q@, id),
{
    let n = q.len();
    let mut i: usize = 0;
    while i < n
        invariant
            n == q@.len(),
            i <= n,
            forall|j: int| 0 <= j < i ==> (#[trigger] q@[j]).id != id,
        decreases n - i,
    {
        if q[i].id == id {
            return Some(i);
        }
        i = i + 1;
    }
    None
}

/// Moves every item of `q` to the end of `out`, preserving order.
fn drain_lane<T>(q: &mut VecDeque<Scheduled<T>>, out: &mut Vec<Scheduled<T>>)
    ensures
        final(out)@ == old(out)@ + old(q)@,
        final(q)@.len() == 0,
{
    let ghost start = out@;
    let ghost all = q@;
    while q.len() > 0
        invariant
            start + all == out@ + q@,
        decreases q@.len(),
    {
        let ghost before = q@;
        let item = q.pop_front().unwrap();
        out.push(item);
        assert(before == seq![item] + q@);
        assert(out@ + q@ =~= (out@.drop_last() + seq![item]) + q@);
    }
    assert(q@ =~= Seq::<Scheduled<T>>::empty());
    assert(out@ =~= start + all);
}

} // verus!
