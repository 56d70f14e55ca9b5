//! B/IP topology snapshots and the breadth-first walk over BBMDs that
//! collects them.
//!
//! The walk starts from the seed BBMDs, reads each reachable BBMD's
//! Broadcast Distribution Table (and, when asked, its Foreign Device Table)
//! and queues the BDT peers it has not visited. It visits no BBMD twice and
//! at most `max_bbmds` of them; hitting that bound marks the result
//! truncated. The reads themselves are I/O and happen outside.

use vstd::prelude::*;
use crate::address::bytes_eq;
use crate::error::{AttachmentId, ErrorCode, RuntimeError};

verus! {

/// One explicit BBMD seed for a topology walk.
#[derive(Clone, Debug)]
pub struct BbmdTarget {
    /// Attachment used to reach the BBMD.
    pub attachment_id: AttachmentId,
    /// Six-byte B/IP MAC, including the exact UDP port.
    pub mac: Vec<u8>,
}

/// Coarse B/IP topology request.
#[derive(Clone, Debug)]
pub struct TopologyRequest {
    /// Attachments to query; empty means all B/IP attachments.
    pub attachment_ids: Vec<AttachmentId>,
    /// Initial BBMDs. BDT peers are walked recursively.
    pub bbmd_seeds: Vec<BbmdTarget>,
    /// Read FDT state for every reachable BBMD.
    pub include_fdt: bool,
    /// Per-attachment safety bound for recursively discovered BBMDs.
    pub max_bbmds_per_attachment: usize,
}

/// Default per-attachment BBMD bound of a topology request.
pub const DEFAULT_MAX_BBMDS_PER_ATTACHMENT: usize = 256;

impl Default for TopologyRequest {
    fn default() -> (r: TopologyRequest)
        ensures
            r.attachment_ids@.len() == 0,
            r.bbmd_seeds@.len() == 0,
            r.include_fdt,
            r.max_bbmds_per_attachment == DEFAULT_MAX_BBMDS_PER_ATTACHMENT,
    {
        TopologyRequest {
            attachment_ids: Vec::new(),
            bbmd_seeds: Vec::new(),
            include_fdt: true,
            max_bbmds_per_attachment: DEFAULT_MAX_BBMDS_PER_ATTACHMENT,
        }
    }
}

/// One BDT peer with exact wire address and broadcast mask.
#[derive(Clone, Copy, Debug, PartialEq, Eq)]
pub struct BdtRecord {
    /// IPv4 address bytes.
    pub ip: [u8; 4],
    /// UDP port.
    pub port: u16,
    /// Broadcast mask bytes.
    pub broadcast_mask: [u8; 4],
}

/// The six-byte B/IP MAC of an IPv4 endpoint: the address, then the port
/// in network byte order.
pub open spec fn bip_mac(ip: [u8; 4], port: u16) -> Seq<u8> {
    seq![ip[0], ip[1], ip[2], ip[3], (port / 256) as u8, (port % 256) as u8]
}

impl BdtRecord {
    /// The peer's six-byte B/IP MAC.
    pub fn mac(&self) -> (r: Vec<u8>)
        ensures
            r@ == bip_mac(self.ip, self.port),
    {
        let mut mac: Vec<u8> = Vec::with_capacity(6);
        mac.push(self.ip[0]);
        mac.push(self.ip[1]);
        mac.push(self.ip[2]);
        mac.push(self.ip[3]);
        mac.push((self.port / 256) as u8);
        mac.push((self.port % 256) as u8);
        assert(mac@ =~= bip_mac(self.ip, self.port));
        mac
    }
}

/// One FDT registration with live wire expiry state.
#[derive(Clone, Copy, Debug, PartialEq, Eq)]
pub struct FdtRecord {
    /// Foreign-device IPv4 bytes.
    pub ip: [u8; 4],
    /// Foreign-device UDP port.
    pub port: u16,
    /// Registered TTL in seconds.
    pub ttl: u16,
    /// Seconds remaining reported by the BBMD.
    pub seconds_remaining: u16,
}

/// Tables read from one reachable BBMD.
#[derive(Clone, Debug)]
pub struct BbmdSnapshot {
    /// Exact BBMD B/IP MAC queried.
    pub mac: Vec<u8>,
    /// Broadcast Distribution Table.
    pub bdt: Vec<BdtRecord>,
    /// Foreign Device Table, empty when not requested.
    pub fdt: Vec<FdtRecord>,
}

/// Topology owned by one attachment; `R` is the client's record of an
/// observed router.
#[derive(Clone, Debug)]
pub struct AttachmentTopology<R> {
    /// Owning attachment.
    pub attachment_id: AttachmentId,
    /// Exact local transport MAC.
    pub local_mac: Vec<u8>,
    /// Reachable BBMD tables in deterministic walk order.
    pub bbmds: Vec<BbmdSnapshot>,
    /// Latest router observations retained by the client.
    pub routers: Vec<R>,
    /// True when the BBMD safety bound stopped the walk.
    pub truncated: bool,
}

/// Aggregated runtime topology snapshot.
#[derive(Clone, Debug)]
pub struct RuntimeTopology<R> {
    /// Runtime generation used for the query.
    pub generation: u64,
    /// Per-attachment topology in configuration/request order.
    pub attachments: Vec<AttachmentTopology<R>>,
    /// Partial per-attachment/BBMD failures.
    pub errors: Vec<RuntimeError>,
}

// ----------------------------------------------------------------------------
// The walk
// ----------------------------------------------------------------------------

/// Views of a sequence of MACs.
pub open spec fn mac_views(v: Seq<Vec<u8>>) -> Seq<Seq<u8>> {
    v.map_values(|m: Vec<u8>| m@)
}

/// No MAC occurs twice.
pub open spec fn distinct_macs(s: Seq<Seq<u8>>) -> bool {
    forall|i: int, j: int| 0 <= i < j < s.len() ==> #[trigger] s[i] != #[trigger] s[j]
}

/// The queue after dropping its leading MACs that were already visited.
pub open spec fn skip_visited(queue: Seq<Seq<u8>>, visited: Seq<Seq<u8>>) -> Seq<Seq<u8>>
    decreases queue.len(),
{
    if queue.len() > 0 && visited.contains(queue[0]) {
        skip_visited(queue.drop_first(), visited)
    } else {
        queue
    }
}

/// MACs of the BDT peers, in table order, that were not yet visited.
pub open spec fn unvisited_peers(bdt: Seq<BdtRecord>, visited: Seq<Seq<u8>>) -> Seq<Seq<u8>> {
    bdt.map_values(|p: BdtRecord| bip_mac(p.ip, p.port)).filter(|m: Seq<u8>| !visited.contains(m))
}

/// State of one attachment's BBMD walk.
#[derive(Debug)]
pub struct TopologyWalk {
    queue: Vec<Vec<u8>>,
    head: usize,
    visited: Vec<Vec<u8>>,
    bbmds: Vec<BbmdSnapshot>,
    include_fdt: bool,
    max_bbmds: usize,
    truncated: bool,
    stopped: bool,
    awaiting_visit: bool,
}

/// A recorded snapshot as plain values: MAC, BDT, FDT.
pub open spec fn snapshot_view(s: BbmdSnapshot) -> (Seq<u8>, Seq<BdtRecord>, Seq<FdtRecord>) {
    (s.mac@, s.bdt@, s.fdt@)
}

/// The MACs of recorded snapshots, in order.
pub open spec fn snapshot_macs(s: Seq<(Seq<u8>, Seq<BdtRecord>, Seq<FdtRecord>)>) -> Seq<Seq<u8>> {
    s.map_values(|t: (Seq<u8>, Seq<BdtRecord>, Seq<FdtRecord>)| t.0)
}

/// Whether every MAC of `sub` occurs in `all`, at increasing positions.
pub open spec fn in_visit_order(sub: Seq<Seq<u8>>, all: Seq<Seq<u8>>) -> bool {
    exists|pos: Seq<int>|
        #![trigger pos.len()]
        pos.len() == sub.len() && (forall|i: int| 0 <= i < sub.len() ==> 0 <= #[trigger] pos[i] < all.len() && all[pos[i]] == sub[i])
            && (forall|i: int, j: int| 0 <= i < j < sub.len() ==> #[trigger] pos[i] < #[trigger] pos[j])
}

impl TopologyWalk {
    /// MACs still queued, front first.
    pub closed spec fn queue_view(&self) -> Seq<Seq<u8>> {
        mac_views(self.queue@).skip(self.head as int)
    }

    /// MACs visited, in visiting order.
    pub closed spec fn visited_view(&self) -> Seq<Seq<u8>> {
        mac_views(self.visited@)
    }

    /// Number of snapshots collected.
    pub closed spec fn snapshot_count(&self) -> nat {
        self.bbmds@.len()
    }

    /// Snapshots collected, in walk order.
    pub closed spec fn snapshots_view(&self) -> Seq<(Seq<u8>, Seq<BdtRecord>, Seq<FdtRecord>)> {
        self.bbmds@.map_values(|b: BbmdSnapshot| snapshot_view(b))
    }

    /// Whether the target returned last by `next_target` still awaits its
    /// tables.
    pub closed spec fn awaiting_visit_view(&self) -> bool {
        self.awaiting_visit
    }

    /// Whether FDTs are read.
    pub closed spec fn include_fdt_view(&self) -> bool {
        self.include_fdt
    }

    /// Bound on visited BBMDs.
    pub closed spec fn max_view(&self) -> usize {
        self.max_bbmds
    }

    /// Whether the bound stopped the walk.
    pub closed spec fn truncated_view(&self) -> bool {
        self.truncated
    }

    /// Whether the walk has ended.
    pub closed spec fn stopped_view(&self) -> bool {
        self.stopped
    }

    /// Well-formedness: visited MACs are distinct and within the bound.
    pub closed spec fn wf(&self) -> bool {
        &&& self.head <= self.queue@.len()
        &&& distinct_macs(mac_views(self.visited@))
        &&& self.visited@.len() <= self.max_bbmds
        &&& self.bbmds@.len() <= self.visited@.len()
        &&& self.truncated ==> self.stopped
        &&& distinct_macs(snapshot_macs(self.snapshots_view()))
        &&& in_visit_order(snapshot_macs(self.snapshots_view()), mac_views(self.visited@))
        &&& self.awaiting_visit ==> {
            &&& self.visited@.len() > 0
            &&& self.bbmds@.len() < self.visited@.len()
            &&& !snapshot_macs(self.snapshots_view()).contains(mac_views(self.visited@).last())
        }
    }

    /// What a well-formed walk guarantees of its snapshots: their MACs are
    /// distinct, were visited, and come in visiting order.
    pub proof fn lemma_snapshots_follow_visits(&self)
        requires
            self.wf(),
        ensures
            distinct_macs(snapshot_macs(self.snapshots_view())),
            in_visit_order(snapshot_macs(self.snapshots_view()), self.visited_view()),
            self.snapshots_view().len() == self.snapshot_count(),
    {
    }

    /// A walk from `seeds`, in order.
    pub fn new(seeds: Vec<Vec<u8>>, include_fdt: bool, max_bbmds: usize) -> (r: TopologyWalk)
        ensures
            r.queue_view() == mac_views(seeds@),
            r.visited_view().len() == 0,
            r.snapshot_count() == 0,
            r.snapshots_view().len() == 0,
            !r.awaiting_visit_view(),
            r.include_fdt_view() == include_fdt,
            r.max_view() == max_bbmds,
            !r.truncated_view(),
            !r.stopped_view(),
            r.wf(),
    {
        let r = TopologyWalk {
            queue: seeds,
            head: 0,
            visited: Vec::new(),
            bbmds: Vec::new(),
            include_fdt,
            max_bbmds,
            truncated: false,
            stopped: false,
            awaiting_visit: false,
        };
        assert(mac_views(r.queue@).skip(0) =~= mac_views(r.queue@));
        proof {
            let pos = Seq::<int>::empty();
            assert(pos.len() == snapshot_macs(r.snapshots_view()).len());
        }
        r
    }

    /// Whether the FDT of each BBMD is to be read.
    pub fn include_fdt(&self) -> (r: bool)
        ensures
            r == self.include_fdt_view(),
    {
        self.include_fdt
    }

    /// Whether the bound stopped the walk.
    pub fn truncated(&self) -> (r: bool)
        ensures
            r == self.truncated_view(),
    {
        self.truncated
    }

    /// Visited BBMDs never repeat and never exceed the bound.
    pub fn visited_count(&self) -> (r: usize)
        requires
            self.wf(),
        ensures
            r == self.visited_view().len(),
            r <= self.max_view(),
            distinct_macs(self.visited_view()),
            self.snapshot_count() <= r,
    {
        self.visited.len()
    }

    fn is_visited(&self, mac: &Vec<u8>) -> (r: bool)
        ensures
            r == self.visited_view().contains(mac@),
    {
        let mut i: usize = 0;
        while i < self.visited.len()
            invariant
                i <= self.visited@.len(),
                forall|k: int| 0 <= k < i ==> (#[trigger] self.visited@[k])@ != mac@,
            decreases self.visited@.len() - i,
        {
            if bytes_eq(self.visited[i].as_slice(), mac.as_slice()) {
                assert(mac_views(self.visited@)[i as int] == mac@);
                return true;
            }
            i = i + 1;
        }
        proof {
            if self.visited_view().contains(mac@) {
                let k = choose|k: int| 0 <= k < self.visited_view().len() && self.visited_view()[k] == mac@;
                assert(self.visited@[k]@ == mac@);
            }
        }
        false
    }

    /// The next BBMD to read: the first queued MAC not yet visited, now
    /// marked visited. `None` when the queue is exhausted, or when the bound
    /// is reached, which ends the walk as truncated.
    pub fn next_target(&mut self) -> (r: Option<Vec<u8>>)
        requires
            old(self).wf(),
        ensures
            final(self).wf(),
            old(self).stopped_view() ==> r is None && *final(self) == *old(self),
            !old(self).stopped_view() ==> ({
                let rest = skip_visited(old(self).queue_view(), old(self).visited_view());
                &&& rest.len() == 0 ==> r is None && final(self).stopped_view() && !final(self).truncated_view()
                &&& rest.len() > 0 && old(self).visited_view().len() >= old(self).max_view() ==> r is None
                    && final(self).stopped_view() && final(self).truncated_view()
                &&& rest.len() > 0 && old(self).visited_view().len() < old(self).max_view() ==> {
                    &&& r matches Some(m) && m@ == rest[0]
                    &&& final(self).visited_view() == old(self).visited_view().push(rest[0])
                    &&& final(self).queue_view() == rest.drop_first()
                    &&& !final(self).stopped_view()
                }
                &&& rest.len() == 0 || old(self).visited_view().len() >= old(self).max_view()
                    ==> final(self).visited_view() == old(self).visited_view()
            }),
            final(self).snapshot_count() == old(self).snapshot_count(),
            final(self).snapshots_view() == old(self).snapshots_view(),
            r is Some ==> final(self).awaiting_visit_view(),
            r is None && !old(self).stopped_view() ==> !final(self).awaiting_visit_view(),
            final(self).include_fdt_view() == old(self).include_fdt_view(),
            final(self).max_view() == old(self).max_view(),
    {
        if self.stopped {
            return None;
        }
        let ghost q0 = self.queue_view();
        let ghost vis = self.visited_view();
        loop
            invariant
                self.head <= self.queue@.len(),
                !self.stopped,
                self.visited_view() == vis,
                q0 == old(self).queue_view(),
                vis == old(self).visited_view(),
                !old(self).stopped_view(),
                skip_visited(self.queue_view(), vis) == skip_visited(q0, vis),
                distinct_macs(mac_views(self.visited@)),
                self.visited@.len() <= self.max_bbmds,
                self.bbmds@.len() <= self.visited@.len(),
                !self.truncated,
                self.snapshot_count() == old(self).snapshot_count(),
                self.bbmds@ == old(self).bbmds@,
                self.awaiting_visit == old(self).awaiting_visit,
                old(self).wf(),
                self.include_fdt_view() == old(self).include_fdt_view(),
                self.max_view() == old(self).max_view(),
            decreases self.queue@.len() - self.head,
        {
            if self.head >= self.queue.len() {
                proof {
                    assert(self.queue_view().len() == 0);
                }
                self.stopped = true;
                self.awaiting_visit = false;
                return None;
            }
            let ghost qv = self.queue_view();
            proof {
                assert(qv[0] == mac_views(self.queue@)[self.head as int]);
                assert(qv.drop_first() =~= mac_views(self.queue@).skip(self.head as int + 1));
            }
            let seen = self.is_visited(&self.queue[self.head]);
            assert(self.queue@[self.head as int]@ == qv[0]);
            if seen {
                self.head = self.head + 1;
                assert(self.queue_view() =~= qv.drop_first());
            } else {
                if self.visited.len() >= self.max_bbmds {
                    self.truncated = true;
                    self.stopped = true;
                    self.awaiting_visit = false;
                    return None;
                }
                let target = self.queue[self.head].clone();
                let ghost vs = self.visited@;
                self.visited.push(self.queue[self.head].clone());
                self.head = self.head + 1;
                self.awaiting_visit = true;
                proof {
                    lemma_order_extends(snapshot_macs(self.snapshots_view()), mac_views(vs), qv[0]);
                    assert(mac_views(self.visited@) =~= mac_views(vs).push(qv[0]));
                    if snapshot_macs(self.snapshots_view()).contains(qv[0]) {
                        let k = choose|k: int| 0 <= k < snapshot_macs(self.snapshots_view()).len()
                            && snapshot_macs(self.snapshots_view())[k] == qv[0];
                        assert(mac_views(vs).contains(snapshot_macs(self.snapshots_view())[k]));
                    }
                    assert(self.queue_view() =~= qv.drop_first());
                    assert(mac_views(self.visited@) =~= mac_views(vs).push(qv[0]));
                    let u = mac_views(self.visited@);
                    assert forall|i: int, j: int| 0 <= i < j < u.len() implies #[trigger] u[i] != #[trigger] u[j] by {
                        if j == u.len() - 1 {
                            assert(u[i] == mac_views(vs)[i]);
                            assert(mac_views(vs).contains(u[i]));
                        } else {
                            assert(u[i] == mac_views(vs)[i] && u[j] == mac_views(vs)[j]);
                        }
                    }
                }
                return Some(target);
            }
        }
    }

    /// Records the tables read from `target` (the MAC [`next_target`]
    /// returned last) and queues its BDT peers that were not yet visited;
    /// the FDT is kept only when FDTs are read.
    pub fn visit(&mut self, target: Vec<u8>, bdt: Vec<BdtRecord>, fdt: Vec<FdtRecord>)
        requires
            old(self).wf(),
            old(self).awaiting_visit_view(),
            target@ == old(self).visited_view().last(),
        ensures
            final(self).wf(),
            final(self).queue_view() == old(self).queue_view() + unvisited_peers(bdt@, old(self).visited_view()),
            final(self).visited_view() == old(self).visited_view(),
            final(self).snapshot_count() == old(self).snapshot_count() + 1,
            final(self).snapshots_view() == old(self).snapshots_view().push(
                (
                    target@,
                    bdt@,
                    if old(self).include_fdt_view() {
                        fdt@
                    } else {
                        Seq::<FdtRecord>::empty()
                    },
                ),
            ),
            !final(self).awaiting_visit_view(),
            final(self).include_fdt_view() == old(self).include_fdt_view(),
            final(self).max_view() == old(self).max_view(),
            final(self).truncated_view() == old(self).truncated_view(),
            final(self).stopped_view() == old(self).stopped_view(),
    {
        let ghost vis = self.visited_view();
        let ghost q0 = self.queue_view();
        let ghost macs = bdt@.map_values(|p: BdtRecord| bip_mac(p.ip, p.port));
        let ghost keep = |m: Seq<u8>| !vis.contains(m);
        let mut i: usize = 0;
        while i < bdt.len()
            invariant
                i <= bdt@.len(),
                self.head <= self.queue@.len(),
                self.visited_view() == vis,
                distinct_macs(mac_views(self.visited@)),
                self.visited@.len() <= self.max_bbmds,
                self.bbmds@.len() < self.visited@.len(),
                self.truncated ==> self.stopped,
                macs == bdt@.map_values(|p: BdtRecord| bip_mac(p.ip, p.port)),
                keep == (|m: Seq<u8>| !vis.contains(m)),
                self.queue_view() == q0 + macs.take(i as int).filter(keep),
                self.bbmds@ == old(self).bbmds@,
                self.awaiting_visit == old(self).awaiting_visit,
                old(self).wf(),
                self.include_fdt_view() == old(self).include_fdt_view(),
                self.max_view() == old(self).max_view(),
                self.truncated_view() == old(self).truncated_view(),
                self.stopped_view() == old(self).stopped_view(),
            decreases bdt@.len() - i,
        {
            let mac = bdt[i].mac();
            assert(mac@ == macs[i as int]);
            proof {
                assert(macs.take(i as int + 1) =~= macs.take(i as int).push(macs[i as int]));
                macs.take(i as int).lemma_filter_push(macs[i as int], keep);
            }
            let seen = self.is_visited(&mac);
            if !seen {
                let ghost qv = self.queue@;
                self.queue.push(mac);
                proof {
                    assert(mac_views(self.queue@) =~= mac_views(qv).push(macs[i as int]));
                    assert(mac_views(self.queue@).skip(self.head as int) =~= mac_views(qv).skip(self.head as int).push(
                        macs[i as int],
                    ));
                    assert(self.queue_view() =~= q0 + macs.take(i as int + 1).filter(keep));
                }
            }
            i = i + 1;
        }
        proof {
            assert(macs.take(i as int) =~= macs);
        }
        let fdt = if self.include_fdt {
            fdt
        } else {
            Vec::new()
        };
        let ghost before = self.snapshots_view();
        let ghost tv = target@;
        self.bbmds.push(BbmdSnapshot { mac: target, bdt, fdt });
        self.awaiting_visit = false;
        proof {
            assert(self.snapshots_view() =~= before.push((tv, bdt@, fdt@)));
            assert(snapshot_macs(self.snapshots_view()) =~= snapshot_macs(before).push(tv));
            lemma_order_push_last(snapshot_macs(before), mac_views(self.visited@));
            let u = snapshot_macs(self.snapshots_view());
            assert forall|i: int, j: int| 0 <= i < j < u.len() implies #[trigger] u[i] != #[trigger] u[j] by {
                if j == u.len() - 1 {
                    assert(u[i] == snapshot_macs(before)[i]);
                    assert(snapshot_macs(before).contains(u[i]));
                } else {
                    assert(u[i] == snapshot_macs(before)[i] && u[j] == snapshot_macs(before)[j]);
                }
            }
        }
    }

    /// Ends the walk: the snapshots in walk order and whether the bound
    /// stopped it.
    pub fn finish(self) -> (r: (Vec<BbmdSnapshot>, bool))
        ensures
            r.0@.len() == self.snapshot_count(),
            r.0@.map_values(|b: BbmdSnapshot| snapshot_view(b)) == self.snapshots_view(),
            r.1 == self.truncated_view(),
    {
        (self.bbmds, self.truncated)
    }
}

proof fn lemma_order_extends(sub: Seq<Seq<u8>>, all: Seq<Seq<u8>>, x: Seq<u8>)
    requires
        in_visit_order(sub, all),
    ensures
        in_visit_order(sub, all.push(x)),
        forall|i: int| 0 <= i < sub.len() ==> all.contains(#[trigger] sub[i]),
{
    let pos = choose|pos: Seq<int>|
        #![trigger pos.len()]
        pos.len() == sub.len() && (forall|i: int| 0 <= i < sub.len() ==> 0 <= #[trigger] pos[i] < all.len() && all[pos[i]] == sub[i])
            && (forall|i: int, j: int| 0 <= i < j < sub.len() ==> #[trigger] pos[i] < #[trigger] pos[j]);
    assert(pos.len() == sub.len());
    assert forall|i: int| 0 <= i < sub.len() implies all.contains(#[trigger] sub[i]) by {
        assert(all[pos[i]] == sub[i]);
    }
    assert forall|i: int| 0 <= i < sub.len() implies 0 <= #[trigger] pos[i] < all.push(x).len() && all.push(x)[pos[i]]
        == sub[i] by {
        assert(all.push(x)[pos[i]] == all[pos[i]]);
    }
}

proof fn lemma_order_push_last(sub: Seq<Seq<u8>>, all: Seq<Seq<u8>>)
    requires
        in_visit_order(sub, all),
        all.len() > 0,
        !sub.contains(all.last()),
    ensures
        in_visit_order(sub.push(all.last()), all),
{
    let pos = choose|pos: Seq<int>|
        #![trigger pos.len()]
        pos.len() == sub.len() && (forall|i: int| 0 <= i < sub.len() ==> 0 <= #[trigger] pos[i] < all.len() && all[pos[i]] == sub[i])
            && (forall|i: int, j: int| 0 <= i < j < sub.len() ==> #[trigger] pos[i] < #[trigger] pos[j]);
    assert(pos.len() == sub.len());
    let last = all.len() - 1;
    let p2 = pos.push(last);
    let s2 = sub.push(all.last());
    assert forall|i: int| 0 <= i < sub.len() implies #[trigger] pos[i] < last by {
        if pos[i] == last {
            assert(sub[i] == all.last());
        }
    }
    assert forall|i: int| 0 <= i < s2.len() implies 0 <= #[trigger] p2[i] < all.len() && all[p2[i]] == s2[i] by {
        if i < sub.len() {
            assert(p2[i] == pos[i]);
        }
    }
    assert forall|i: int, j: int| 0 <= i < j < s2.len() implies #[trigger] p2[i] < #[trigger] p2[j] by {
        if j == sub.len() {
            assert(p2[i] == pos[i]);
        } else {
            assert(p2[i] == pos[i] && p2[j] == pos[j]);
        }
    }
    assert(p2.len() == s2.len());
}

/// Topology of an attachment that is not B/IP: no BBMDs and no routers,
/// never truncated. Asking it for BBMD seeds or foreign-device tables is a
/// configuration error of the attachment, reported beside the empty result.
pub fn non_bip_topology<R>(
    attachment_id: AttachmentId,
    local_mac: Vec<u8>,
    seeds: &Vec<Vec<u8>>,
    include_fdt: bool,
) -> (r: (AttachmentTopology<R>, Vec<RuntimeError>))
    ensures
        r.0.attachment_id == attachment_id,
        r.0.local_mac@ == local_mac@,
        r.0.bbmds@.len() == 0,
        r.0.routers@.len() == 0,
        !r.0.truncated,
        r.1@.len() == (if seeds@.len() > 0 || include_fdt {
            1int
        } else {
            0int
        }),
        r.1@.len() == 1 ==> {
            &&& r.1@[0].code == ErrorCode::InvalidConfig
            &&& !r.1@[0].retryable
            &&& r.1@[0].attachment_id == Some(attachment_id)
            &&& r.1@[0].message@ == "BBMD/FDT topology operations are only available on B/IP attachments"@
        },
{
    let mut errors: Vec<RuntimeError> = Vec::new();
    if seeds.len() > 0 || include_fdt {
        errors.push(
            RuntimeError::invalid_attachment_config(
                attachment_id,
                "BBMD/FDT topology operations are only available on B/IP attachments",
            ),
        );
    }
    (
        AttachmentTopology {
            attachment_id,
            local_mac,
            bbmds: Vec::new(),
            routers: Vec::new(),
            truncated: false,
        },
        errors,
    )
}

} // verus!
