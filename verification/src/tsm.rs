//! Server transaction state for confirmed notifications: Invoke ID
//! allocation per peer, pending results, and the learned-router cache
//! (Clause 6.5.3 method 4).
//!
//! A pending transaction holds a completion handle `S` (the channel its
//! result is delivered through); recording a result hands that handle back
//! to the caller.

use vstd::prelude::*;
use crate::address::{bytes_eq, copy_mac, NpduAddress, opt_address_eq, duplicate_opt_address, opt_address_view};

verus! {

/// Result of a confirmed COV notification from the subscriber's perspective.
#[derive(Clone, Copy, Debug, PartialEq, Eq, Structural)]
pub enum CovAckResult {
    /// SimpleAck received: the subscriber accepted the notification.
    Ack,
    /// Error, Reject or Abort received: the subscriber rejected it.
    Error,
}

/// Learned routers kept at most; a full cache only means later networks keep
/// using the broadcast form of Clause 6.5.3.
pub const MAX_LEARNED_ROUTERS: usize = 64;

/// Identity of a pending transaction: peer MAC, routed peer, Invoke ID.
pub type TsmKeyView = (Seq<u8>, Option<(u16, Seq<u8>)>, u8);

struct PendingTransaction<S> {
    mac: Vec<u8>,
    network: Option<NpduAddress>,
    invoke_id: u8,
    handle: S,
}

spec fn pending_key<S>(p: PendingTransaction<S>) -> TsmKeyView {
    (p.mac@, opt_address_view(p.network), p.invoke_id)
}

struct LearnedRouter {
    network: u16,
    mac: Vec<u8>,
}

/// Whether some pending transaction has identity `k`.
pub open spec fn key_pending(keys: Seq<TsmKeyView>, k: TsmKeyView) -> bool {
    keys.contains(k)
}

/// Whether `network` has a learned router.
pub open spec fn router_known(routers: Seq<(u16, Seq<u8>)>, network: u16) -> bool {
    exists|i: int| 0 <= i < routers.len() && (#[trigger] routers[i]).0 == network
}

/// Router cache after learning `router` for `network`.
pub open spec fn after_learning(routers: Seq<(u16, Seq<u8>)>, network: u16, router: Seq<u8>) -> Seq<(u16, Seq<u8>)> {
    if router.len() == 0 {
        routers
    } else if router_known(routers, network) {
        routers.update(choose|i: int| 0 <= i < routers.len() && (#[trigger] routers[i]).0 == network, (network, router))
    } else if routers.len() >= MAX_LEARNED_ROUTERS {
        routers
    } else {
        routers.push((network, router))
    }
}

/// Learning a router: an empty router address changes nothing; a network
/// already known keeps the cache's size; an unknown network is added at the
/// end while fewer than 64 are known, and ignored once 64 are.
pub proof fn lemma_router_learning(routers: Seq<(u16, Seq<u8>)>, network: u16, router: Seq<u8>)
    ensures
        router.len() == 0 ==> after_learning(routers, network, router) == routers,
        router.len() > 0 && router_known(routers, network) ==> after_learning(routers, network, router).len()
            == routers.len(),
        router.len() > 0 && !router_known(routers, network) && routers.len() < 64 ==> after_learning(
            routers,
            network,
            router,
        ) == routers.push((network, router)),
        router.len() > 0 && !router_known(routers, network) && routers.len() >= 64 ==> after_learning(
            routers,
            network,
            router,
        ) == routers,
{
}

/// Transaction state of the server.
pub struct ServerTsm<S> {
    next_invoke_id: u8,
    pending: Vec<PendingTransaction<S>>,
    routers: Vec<LearnedRouter>,
}

impl<S> ServerTsm<S> {
    /// Identities of the pending transactions, oldest first.
    pub closed spec fn pending_keys(&self) -> Seq<TsmKeyView> {
        self.pending@.map_values(|p: PendingTransaction<S>| pending_key(p))
    }

    /// Completion handles of the pending transactions, in the same order.
    pub closed spec fn pending_handles(&self) -> Seq<S> {
        self.pending@.map_values(|p: PendingTransaction<S>| p.handle)
    }

    /// Learned routers: network and router MAC.
    pub closed spec fn routers_view(&self) -> Seq<(u16, Seq<u8>)> {
        self.routers@.map_values(|r: LearnedRouter| (r.network, r.mac@))
    }

    /// Invoke ID tried first by the next allocation.
    pub closed spec fn next_invoke_view(&self) -> u8 {
        self.next_invoke_id
    }

    /// Well-formedness: identities and router networks are unique and the
    /// router cache is bounded.
    pub closed spec fn wf(&self) -> bool {
        &&& forall|i: int, j: int| 0 <= i < j < self.pending@.len() ==> pending_key(#[trigger] self.pending@[i]) != pending_key(#[trigger] self.pending@[j])
        &&& forall|i: int, j: int| 0 <= i < j < self.routers@.len() ==> (#[trigger] self.routers@[i]).network != (#[trigger] self.routers@[j]).network
        &&& self.routers@.len() <= MAX_LEARNED_ROUTERS
    }

    /// Empty state.
    pub fn new() -> (r: ServerTsm<S>)
        ensures
            r.wf(),
            r.pending_keys().len() == 0,
            r.routers_view().len() == 0,
            r.next_invoke_view() == 0,
    {
        let r = ServerTsm { next_invoke_id: 0, pending: Vec::new(), routers: Vec::new() };
        assert(r.pending_keys() =~= Seq::<TsmKeyView>::empty());
        assert(r.routers_view() =~= Seq::<(u16, Seq<u8>)>::empty());
        r
    }

    fn find(&self, mac: &[u8], network: Option<&NpduAddress>, invoke_id: u8) -> (r: Option<usize>)
        requires
            self.wf(),
        ensures
            r is None <==> !key_pending(self.pending_keys(), (mac@, opt_ref(network), invoke_id)),
            r matches Some(i) ==> i < self.pending@.len() && self.pending_keys()[i as int] == (mac@, opt_ref(network), invoke_id),
    {
        let ghost k = (mac@, opt_ref(network), invoke_id);
        let mut i: usize = 0;
        while i < self.pending.len()
            invariant
                i <= self.pending@.len(),
                k == (mac@, opt_ref(network), invoke_id),
                forall|j: int| 0 <= j < i ==> self.pending_keys()[j] != k,
            decreases self.pending@.len() - i,
        {
            let p = &self.pending[i];
            if p.invoke_id == invoke_id && opt_address_eq(p.network.as_ref(), network) && bytes_eq(p.mac.as_slice(), mac) {
                assert(self.pending_keys()[i as int] == k);
                return Some(i);
            }
            i = i + 1;
        }
        proof {
            if self.pending_keys().contains(k) {
                let j = choose|j: int| 0 <= j < self.pending_keys().len() && self.pending_keys()[j] == k;
                assert(self.pending_keys()[j] != k);
            }
        }
        None
    }

    /// Registers `handle` for the transaction with `invoke_id` to the peer,
    /// replacing the handle of a pending one with the same identity.
    pub fn register(&mut self, mac: &[u8], network: Option<&NpduAddress>, invoke_id: u8, handle: S)
        requires
            old(self).wf(),
        ensures
            final(self).wf(),
            key_pending(final(self).pending_keys(), (mac@, opt_ref(network), invoke_id)),
            key_pending(old(self).pending_keys(), (mac@, opt_ref(network), invoke_id)) ==> final(self).pending_keys()
                == old(self).pending_keys(),
            !key_pending(old(self).pending_keys(), (mac@, opt_ref(network), invoke_id)) ==> final(self).pending_keys()
                == old(self).pending_keys().push((mac@, opt_ref(network), invoke_id)),
            final(self).routers_view() == old(self).routers_view(),
            final(self).next_invoke_view() == old(self).next_invoke_view(),
    {
        let ghost k = (mac@, opt_ref(network), invoke_id);
        let ghost before = self.pending_keys();
        match self.find(mac, network, invoke_id) {
            Some(i) => {
                let old_entry = self.pending.remove(i);
                let ghost mid = self.pending@;
                self.pending.insert(i, PendingTransaction { mac: old_entry.mac, network: old_entry.network, invoke_id, handle });
                proof {
                    assert(self.pending_keys() =~= before);
                    assert(self.pending_keys().contains(k) == before.contains(k));
                    assert forall|a: int, b: int| 0 <= a < b < self.pending@.len() implies pending_key(#[trigger] self.pending@[a]) != pending_key(#[trigger] self.pending@[b]) by {
                        assert(pending_key(self.pending@[a]) == before[a]);
                        assert(pending_key(self.pending@[b]) == before[b]);
                        assert(pending_key(old(self).pending@[a]) == before[a]);
                        assert(pending_key(old(self).pending@[b]) == before[b]);
                    }
                    assert(before[i as int] == k);
                }
            },
            None => {
                self.pending.push(PendingTransaction {
                    mac: copy_mac(mac),
                    network: duplicate_opt_address(network),
                    invoke_id,
                    handle,
                });
                proof {
                    assert(self.pending_keys() =~= before.push(k));
                    assert forall|a: int, b: int| 0 <= a < b < self.pending@.len() implies pending_key(#[trigger] self.pending@[a]) != pending_key(#[trigger] self.pending@[b]) by {
                        if b == self.pending@.len() - 1 {
                            assert(pending_key(self.pending@[a]) == before[a]);
                            assert(before.contains(before[a]));
                        } else {
                            assert(self.pending@[a] == old(self).pending@[a]);
                            assert(self.pending@[b] == old(self).pending@[b]);
                        }
                    }
                    assert(self.pending_keys()[before.len() as int] == k);
                }
            },
        }
    }

    /// Allocates the first Invoke ID, from the next one on and wrapping, that
    /// has no pending transaction to the peer, and registers `handle` for it;
    /// the following allocation starts after it. `None` when all 256 are
    /// pending.
    pub fn allocate(&mut self, mac: &[u8], network: Option<&NpduAddress>, handle: S) -> (r: Option<u8>)
        requires
            old(self).wf(),
        ensures
            final(self).wf(),
            r is None ==> final(self).pending_keys() == old(self).pending_keys()
                && final(self).next_invoke_view() == old(self).next_invoke_view()
                && forall|id: u8| key_pending(old(self).pending_keys(), (mac@, opt_ref(network), id)),
            r matches Some(id) ==> {
                &&& !key_pending(old(self).pending_keys(), (mac@, opt_ref(network), id))
                &&& final(self).pending_keys() == old(self).pending_keys().push((mac@, opt_ref(network), id))
                &&& final(self).next_invoke_view() == (if id == 255 { 0 } else { (id + 1) as u8 })
                &&& forall|o: int| 0 <= o < (if id >= old(self).next_invoke_view() {
                    id - old(self).next_invoke_view()
                } else {
                    id + 256 - old(self).next_invoke_view()
                }) ==> #[trigger] key_pending(old(self).pending_keys(), (mac@, opt_ref(network), ((old(self).next_invoke_view() + o) % 256) as u8))
            },
            final(self).routers_view() == old(self).routers_view(),
    {
        let start = self.next_invoke_id;
        let mut offset: u16 = 0;
        while offset <= 255
            invariant
                offset <= 256,
                self.wf(),
                *self == *old(self),
                start == old(self).next_invoke_view(),
                forall|o: int| 0 <= o < offset ==> #[trigger] key_pending(self.pending_keys(), (mac@, opt_ref(network), ((start + o) % 256) as u8)),
            decreases 256 - offset,
        {
            let id: u8 = start.wrapping_add(offset as u8);
            assert(id == ((start + offset) % 256) as u8);
            if self.find(mac, network, id).is_none() {
                self.register(mac, network, id, handle);
                self.next_invoke_id = id.wrapping_add(1);
                proof {
                    if id >= start {
                        assert(id - start == offset);
                    } else {
                        assert(id + 256 - start == offset);
                    }
                }
                return Some(id);
            }
            offset = offset + 1;
        }
        proof {
            assert forall|id: u8| key_pending(old(self).pending_keys(), (mac@, opt_ref(network), id)) by {
                let o: int = if id >= start { id - start } else { id + 256 - start };
                assert(((start + o) % 256) as u8 == id);
                assert(key_pending(self.pending_keys(), (mac@, opt_ref(network), ((start + o) % 256) as u8)));
            }
        }
        None
    }

    /// Removes the pending transaction with the given identity and hands back
    /// its completion handle, through which the result is delivered.
    pub fn record_result(&mut self, mac: &[u8], network: Option<&NpduAddress>, invoke_id: u8) -> (r: Option<S>)
        requires
            old(self).wf(),
        ensures
            final(self).wf(),
            r is Some <==> key_pending(old(self).pending_keys(), (mac@, opt_ref(network), invoke_id)),
            r matches Some(h) ==> exists|i: int| 0 <= i < old(self).pending_keys().len()
                && old(self).pending_keys()[i] == (mac@, opt_ref(network), invoke_id)
                && old(self).pending_handles()[i] == h
                && final(self).pending_keys() == old(self).pending_keys().remove(i),
            r is None ==> final(self).pending_keys() == old(self).pending_keys(),
            !key_pending(final(self).pending_keys(), (mac@, opt_ref(network), invoke_id)),
            final(self).routers_view() == old(self).routers_view(),
            final(self).next_invoke_view() == old(self).next_invoke_view(),
    {
        let ghost before = self.pending_keys();
        let ghost handles = self.pending_handles();
        match self.find(mac, network, invoke_id) {
            Some(i) => {
                let p = self.pending.remove(i);
                proof {
                    assert(self.pending_keys() =~= before.remove(i as int));
                    assert(handles[i as int] == p.handle);
                    assert forall|a: int, b: int| 0 <= a < b < self.pending@.len() implies pending_key(#[trigger] self.pending@[a]) != pending_key(#[trigger] self.pending@[b]) by {
                        if b < i {
                            assert(self.pending@[a] == old(self).pending@[a] && self.pending@[b] == old(self).pending@[b]);
                        } else if a < i {
                            assert(self.pending@[a] == old(self).pending@[a] && self.pending@[b] == old(self).pending@[b + 1]);
                        } else {
                            assert(self.pending@[a] == old(self).pending@[a + 1] && self.pending@[b] == old(self).pending@[b + 1]);
                        }
                    }
                    if self.pending_keys().contains((mac@, opt_ref(network), invoke_id)) {
                        let j = choose|j: int| 0 <= j < self.pending_keys().len() && self.pending_keys()[j] == (mac@, opt_ref(network), invoke_id);
                        if j < i {
                            assert(pending_key(old(self).pending@[j]) == pending_key(old(self).pending@[i as int]));
                        } else {
                            assert(pending_key(old(self).pending@[j + 1]) == pending_key(old(self).pending@[i as int]));
                        }
                    }
                }
                Some(p.handle)
            },
            None => None,
        }
    }

    /// Removes a pending transaction (cleanup on completion or exhaustion).
    pub fn remove(&mut self, mac: &[u8], network: Option<&NpduAddress>, invoke_id: u8)
        requires
            old(self).wf(),
        ensures
            final(self).wf(),
            !key_pending(final(self).pending_keys(), (mac@, opt_ref(network), invoke_id)),
            final(self).routers_view() == old(self).routers_view(),
            final(self).next_invoke_view() == old(self).next_invoke_view(),
    {
        let _h = self.record_result(mac, network, invoke_id);
    }

    fn find_router(&self, network: u16) -> (r: Option<usize>)
        requires
            self.wf(),
        ensures
            r is None <==> !router_known(self.routers_view(), network),
            r matches Some(i) ==> i < self.routers@.len() && self.routers_view()[i as int].0 == network,
    {
        let mut i: usize = 0;
        while i < self.routers.len()
            invariant
                i <= self.routers@.len(),
                forall|j: int| 0 <= j < i ==> self.routers_view()[j].0 != network,
            decreases self.routers@.len() - i,
        {
            if self.routers[i].network == network {
                assert(self.routers_view()[i as int].0 == network);
                return Some(i);
            }
            i = i + 1;
        }
        None
    }

    /// Caches `router` as the way to reach `network`; an empty MAC is
    /// ignored, and a full cache learns no new network.
    pub fn learn_router(&mut self, network: u16, router: &[u8])
        requires
            old(self).wf(),
        ensures
            final(self).wf(),
            final(self).routers_view() == after_learning(old(self).routers_view(), network, router@),
            final(self).pending_keys() == old(self).pending_keys(),
            final(self).pending_handles() == old(self).pending_handles(),
            final(self).next_invoke_view() == old(self).next_invoke_view(),
    {
        let ghost before = self.routers_view();
        if router.len() == 0 {
            return;
        }
        match self.find_router(network) {
            Some(i) => {
                proof {
                    let c = choose|c: int| 0 <= c < before.len() && (#[trigger] before[c]).0 == network;
                    if c != i as int {
                        if c < i as int {
                            assert(self.routers@[c].network != self.routers@[i as int].network);
                        } else {
                            assert(self.routers@[i as int].network != self.routers@[c].network);
                        }
                    }
                }
                self.routers.set(i, LearnedRouter { network, mac: copy_mac(router) });
                proof {
                    assert(self.routers_view() =~= before.update(i as int, (network, router@)));
                    assert forall|a: int, b: int| 0 <= a < b < self.routers@.len() implies (#[trigger] self.routers@[a]).network != (#[trigger] self.routers@[b]).network by {
                        assert(self.routers@[a].network == old(self).routers@[a].network);
                        assert(self.routers@[b].network == old(self).routers@[b].network);
                    }
                }
            },
            None => {
                if self.routers.len() >= MAX_LEARNED_ROUTERS {
                    return;
                }
                self.routers.push(LearnedRouter { network, mac: copy_mac(router) });
                proof {
                    assert(self.routers_view() =~= before.push((network, router@)));
                    assert forall|a: int, b: int| 0 <= a < b < self.routers@.len() implies (#[trigger] self.routers@[a]).network != (#[trigger] self.routers@[b]).network by {
                        if b == self.routers@.len() - 1 {
                            assert(self.routers_view()[a] == before[a]);
                        } else {
                            assert(self.routers@[a] == old(self).routers@[a] && self.routers@[b] == old(self).routers@[b]);
                        }
                    }
                }
            },
        }
    }

    /// The learned router MAC for `network`, if any.
    pub fn cached_router(&self, network: u16) -> (r: Option<Vec<u8>>)
        requires
            self.wf(),
        ensures
            r is None <==> !router_known(self.routers_view(), network),
            r matches Some(m) ==> exists|i: int| 0 <= i < self.routers_view().len() && self.routers_view()[i] == (network, m@),
    {
        match self.find_router(network) {
            Some(i) => Some(copy_mac(self.routers[i].mac.as_slice())),
            None => None,
        }
    }

    /// Correlates a response with the transaction awaiting it: first as the
    /// sender registered it, then in the router-unknown form (empty MAC with
    /// the routed identity), then as the legacy wildcard (empty MAC, not
    /// routed). A hit on a routed response teaches the router cache that the
    /// response's source MAC reaches its network.
    pub fn record_result_correlated(&mut self, source_mac: &[u8], source_network: Option<&NpduAddress>, invoke_id: u8) -> (r: Option<S>)
        requires
            old(self).wf(),
        ensures
            final(self).wf(),
            r is Some <==> (key_pending(old(self).pending_keys(), (source_mac@, opt_ref(source_network), invoke_id))
                || (source_network is Some && key_pending(old(self).pending_keys(), (Seq::<u8>::empty(), opt_ref(source_network), invoke_id)))
                || key_pending(old(self).pending_keys(), (Seq::<u8>::empty(), None::<(u16, Seq<u8>)>, invoke_id))),
            r is None ==> final(self).routers_view() == old(self).routers_view(),
            r is Some && source_network is None ==> final(self).routers_view() == old(self).routers_view(),
            r is Some ==> (source_network matches Some(a) ==> final(self).routers_view() == after_learning(old(self).routers_view(), a.network, source_mac@)),
            final(self).next_invoke_view() == old(self).next_invoke_view(),
    {
        let empty: Vec<u8> = Vec::new();
        assert(empty@ =~= Seq::<u8>::empty());
        let mut hit = self.record_result(source_mac, source_network, invoke_id);
        if hit.is_none() && source_network.is_some() {
            hit = self.record_result(empty.as_slice(), source_network, invoke_id);
        }
        if hit.is_none() {
            hit = self.record_result(empty.as_slice(), None, invoke_id);
        }
        if hit.is_some() {
            if let Some(address) = source_network {
                self.learn_router(address.network, source_mac);
            }
        }
        hit
    }
}

/// View of an optional borrowed routed address.
pub open spec fn opt_ref(a: Option<&NpduAddress>) -> Option<(u16, Seq<u8>)> {
    match a {
        Some(x) => Some(x@),
        None => None,
    }
}

} // verus!
