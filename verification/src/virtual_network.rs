//! Named, in-process BACnet virtual networks: the membership registry and
//! the delivery decisions.
//!
//! A member joins a named network with a one-byte MAC; networks with
//! different names are isolated. Each membership carries a generation, so a
//! stale handle can never remove or impersonate a newer member that rejoined
//! with the same MAC. Unicast goes to exactly one member; broadcast is
//! offered once to every other member and never looped back. The queues
//! (`Tx`) are owned by the registry; sending on them is I/O done outside.

use vstd::prelude::*;
use crate::error::{Error, TransportErrorKind};
use crate::runtime_config::{is_blank, text_is_blank};

verus! {

/// Default number of queued NPDUs per member.
pub const VIRTUAL_NETWORK_QUEUE_CAPACITY: usize = 256;

/// Maximum configurable queue capacity for one member.
pub const MAX_VIRTUAL_NETWORK_QUEUE_CAPACITY: usize = 65_536;

/// Snapshot of delivery outcomes produced by one member.
#[derive(Clone, Copy, Debug, PartialEq, Eq, Structural)]
pub struct VirtualNetworkStats {
    /// Successfully delivered unicast NPDUs.
    pub unicast_delivered: u64,
    /// Successfully delivered broadcast copies (one count per recipient).
    pub broadcast_copies_delivered: u64,
    /// Unicasts dropped because the destination MAC was not registered.
    pub unknown_destination_drops: u64,
    /// Delivery attempts dropped because a recipient queue was full.
    pub full_member_drops: u64,
    /// Delivery attempts dropped because a recipient receiver was closed.
    pub closed_member_drops: u64,
}

impl Default for VirtualNetworkStats {
    fn default() -> (r: VirtualNetworkStats)
        ensures
            r == (VirtualNetworkStats {
                unicast_delivered: 0,
                broadcast_copies_delivered: 0,
                unknown_destination_drops: 0,
                full_member_drops: 0,
                closed_member_drops: 0,
            }),
    {
        VirtualNetworkStats {
            unicast_delivered: 0,
            broadcast_copies_delivered: 0,
            unknown_destination_drops: 0,
            full_member_drops: 0,
            closed_member_drops: 0,
        }
    }
}

/// `x + n`, wrapping at `u64::MAX`.
pub open spec fn wrapping(x: u64, n: u64) -> u64 {
    if x + n > u64::MAX {
        (x + n - 0x1_0000_0000_0000_0000) as u64
    } else {
        (x + n) as u64
    }
}

/// Outcome of one delivery attempt into a member queue.
#[derive(Clone, Copy, Debug, PartialEq, Eq, Structural)]
pub enum Delivery {
    /// Queued.
    Delivered,
    /// The queue was full.
    Full,
    /// The receiver was closed.
    Closed,
}

impl VirtualNetworkStats {
    /// Records a unicast that found no destination.
    pub fn note_unknown_destination(&mut self)
        ensures
            *final(self) == (VirtualNetworkStats {
                unknown_destination_drops: wrapping(old(self).unknown_destination_drops, 1),
                ..*old(self)
            }),
    {
        self.unknown_destination_drops = self.unknown_destination_drops.wrapping_add(1);
    }

    /// Records the outcome of a unicast delivery attempt.
    pub fn note_unicast(&mut self, outcome: Delivery)
        ensures
            outcome == Delivery::Delivered ==> *final(self) == (VirtualNetworkStats {
                unicast_delivered: wrapping(old(self).unicast_delivered, 1),
                ..*old(self)
            }),
            outcome == Delivery::Full ==> *final(self) == (VirtualNetworkStats {
                full_member_drops: wrapping(old(self).full_member_drops, 1),
                ..*old(self)
            }),
            outcome == Delivery::Closed ==> *final(self) == (VirtualNetworkStats {
                closed_member_drops: wrapping(old(self).closed_member_drops, 1),
                ..*old(self)
            }),
    {
        match outcome {
            Delivery::Delivered => self.unicast_delivered = self.unicast_delivered.wrapping_add(1),
            Delivery::Full => self.full_member_drops = self.full_member_drops.wrapping_add(1),
            Delivery::Closed => self.closed_member_drops = self.closed_member_drops.wrapping_add(1),
        }
    }

    /// Records the outcomes of one broadcast: copies delivered, full
    /// queues and closed receivers.
    pub fn note_broadcast(&mut self, delivered: u64, full: u64, closed: u64)
        ensures
            *final(self) == (VirtualNetworkStats {
                broadcast_copies_delivered: wrapping(old(self).broadcast_copies_delivered, delivered),
                full_member_drops: wrapping(old(self).full_member_drops, full),
                closed_member_drops: wrapping(old(self).closed_member_drops, closed),
                ..*old(self)
            }),
    {
        self.broadcast_copies_delivered = self.broadcast_copies_delivered.wrapping_add(delivered);
        self.full_member_drops = self.full_member_drops.wrapping_add(full);
        self.closed_member_drops = self.closed_member_drops.wrapping_add(closed);
    }
}

/// Error of a broadcast with `full` full and `closed` closed recipients:
/// none when every copy was delivered; otherwise `WouldBlock` when some
/// queue was full, else `NotConnected`.
pub fn broadcast_result(full: u64, closed: u64) -> (r: Option<TransportErrorKind>)
    ensures
        full == 0 && closed == 0 <==> r is None,
        full != 0 ==> r == Some(TransportErrorKind::WouldBlock),
        full == 0 && closed != 0 ==> r == Some(TransportErrorKind::NotConnected),
{
    if full != 0 {
        Some(TransportErrorKind::WouldBlock)
    } else if closed != 0 {
        Some(TransportErrorKind::NotConnected)
    } else {
        None
    }
}

/// Error of a unicast whose delivery into the destination queue had the
/// given outcome: none when it was queued, `WouldBlock` for a full queue
/// and `NotConnected` for a closed receiver.
pub fn unicast_result(outcome: Delivery) -> (r: Option<TransportErrorKind>)
    ensures
        outcome == Delivery::Delivered <==> r is None,
        outcome == Delivery::Full ==> r == Some(TransportErrorKind::WouldBlock),
        outcome == Delivery::Closed ==> r == Some(TransportErrorKind::NotConnected),
{
    match outcome {
        Delivery::Delivered => None,
        Delivery::Full => Some(TransportErrorKind::WouldBlock),
        Delivery::Closed => Some(TransportErrorKind::NotConnected),
    }
}

/// Checks the arguments of a join: a name with more than white space and
/// a queue capacity in `1..=65536`.
pub fn validate_join(network_name: &str, queue_capacity: usize) -> (r: Result<(), Error>)
    ensures
        r is Ok <==> !is_blank(network_name@) && 1 <= queue_capacity <= MAX_VIRTUAL_NETWORK_QUEUE_CAPACITY,
        r matches Err(e) ==> e is OutOfRange,
{
    if text_is_blank(network_name) {
        return Err(Error::OutOfRange("virtual network name must not be empty".to_owned()));
    }
    if queue_capacity < 1 || queue_capacity > MAX_VIRTUAL_NETWORK_QUEUE_CAPACITY {
        return Err(Error::OutOfRange("virtual network queue capacity must be 1..=65536".to_owned()));
    }
    Ok(())
}

/// Lifecycle of one member handle.
#[derive(Clone, Copy, Debug, PartialEq, Eq, Structural)]
pub enum MemberState {
    /// Joined; the receive queue has not been taken.
    Joined,
    /// Started; sends are allowed.
    Started,
    /// Stopped; terminal.
    Stopped,
}

/// Starting a member: only a joined member starts.
pub fn start_member(state: MemberState) -> (r: Result<MemberState, Error>)
    ensures
        state == MemberState::Joined <==> r is Ok,
        r matches Ok(s) ==> s == MemberState::Started,
        state == MemberState::Stopped ==> (r matches Err(e) && e is Transport
            && e->Transport_kind == TransportErrorKind::NotConnected),
        state == MemberState::Started ==> (r matches Err(e) && e is Encoding),
{
    match state {
        MemberState::Joined => Ok(MemberState::Started),
        MemberState::Stopped => Err(Error::Transport {
            kind: TransportErrorKind::NotConnected,
            message: "virtual network transport is stopped".to_owned(),
        }),
        MemberState::Started => Err(Error::Encoding("virtual network transport already started".to_owned())),
    }
}

/// Sending requires a started member.
pub fn require_started(state: MemberState) -> (r: Result<(), Error>)
    ensures
        r is Ok <==> state == MemberState::Started,
        r matches Err(e) ==> e is Transport && e->Transport_kind == TransportErrorKind::NotConnected,
{
    match state {
        MemberState::Started => Ok(()),
        MemberState::Stopped => Err(Error::Transport {
            kind: TransportErrorKind::NotConnected,
            message: "virtual network transport is stopped".to_owned(),
        }),
        MemberState::Joined => Err(Error::Transport {
            kind: TransportErrorKind::NotConnected,
            message: "virtual network transport has not been started".to_owned(),
        }),
    }
}

// ----------------------------------------------------------------------------
// Registry
// ----------------------------------------------------------------------------

struct Member<Tx> {
    mac: u8,
    generation: u64,
    tx: Tx,
}

struct NamedNetwork<Tx> {
    name: String,
    members: Vec<Member<Tx>>,
}

/// A network's members: MAC and generation, in joining order.
pub type MembersView = Seq<(u8, u64)>;

spec fn members_view<Tx>(n: NamedNetwork<Tx>) -> MembersView {
    n.members@.map_values(|m: Member<Tx>| (m.mac, m.generation))
}

/// No MAC occurs twice.
pub open spec fn macs_distinct(m: MembersView) -> bool {
    forall|i: int, j: int| 0 <= i < j < m.len() ==> (#[trigger] m[i]).0 != (#[trigger] m[j]).0
}

/// Whether `mac` is a member.
pub open spec fn has_mac(m: MembersView, mac: u8) -> bool {
    exists|i: int| 0 <= i < m.len() && (#[trigger] m[i]).0 == mac
}

/// Registry of all named networks.
pub struct VirtualNetworkRegistry<Tx> {
    networks: Vec<NamedNetwork<Tx>>,
    next_generation: u64,
}

impl<Tx> VirtualNetworkRegistry<Tx> {
    /// Networks: name and members.
    pub closed spec fn networks_view(&self) -> Seq<(Seq<char>, MembersView)> {
        self.networks@.map_values(|n: NamedNetwork<Tx>| (n.name@, members_view(n)))
    }

    /// Generation the next join takes.
    pub closed spec fn next_generation_view(&self) -> u64 {
        self.next_generation
    }

    /// Well-formedness: names are distinct, no network is empty, and MACs
    /// are distinct within a network.
    pub closed spec fn wf(&self) -> bool {
        &&& forall|i: int, j: int| 0 <= i < j < self.networks@.len() ==> (#[trigger] self.networks@[i]).name@ != (#[trigger] self.networks@[j]).name@
        &&& forall|i: int| 0 <= i < self.networks@.len() ==> macs_distinct(members_view(#[trigger] self.networks@[i]))
        &&& forall|i: int| 0 <= i < self.networks@.len() ==> (#[trigger] self.networks@[i]).members@.len() > 0
    }

    /// An empty registry; generations start at one.
    pub fn new() -> (r: VirtualNetworkRegistry<Tx>)
        ensures
            r.wf(),
            r.networks_view().len() == 0,
            r.next_generation_view() == 1,
    {
        let r = VirtualNetworkRegistry { networks: Vec::new(), next_generation: 1 };
        assert(r.networks_view() =~= Seq::<(Seq<char>, MembersView)>::empty());
        r
    }

    fn find_network(&self, name: &String) -> (r: Option<usize>)
        requires
            self.wf(),
        ensures
            r is None ==> forall|i: int| 0 <= i < self.networks_view().len() ==> (#[trigger] self.networks_view()[i]).0 != name@,
            r matches Some(i) ==> i < self.networks_view().len() && self.networks_view()[i as int].0 == name@,
    {
        let mut i: usize = 0;
        while i < self.networks.len()
            invariant
                i <= self.networks@.len(),
                forall|k: int| 0 <= k < i ==> (#[trigger] self.networks_view()[k]).0 != name@,
            decreases self.networks@.len() - i,
        {
            if self.networks[i].name == *name {
                assert(self.networks_view()[i as int].0 == name@);
                return Some(i);
            }
            i = i + 1;
        }
        None
    }

    fn find_member(members: &Vec<Member<Tx>>, mac: u8) -> (r: Option<usize>)
        ensures
            r is None ==> forall|k: int| 0 <= k < members@.len() ==> (#[trigger] members@[k]).mac != mac,
            r matches Some(k) ==> k < members@.len() && members@[k as int].mac == mac,
    {
        let mut k: usize = 0;
        while k < members.len()
            invariant
                k <= members@.len(),
                forall|j: int| 0 <= j < k ==> (#[trigger] members@[j]).mac != mac,
            decreases members@.len() - k,
        {
            if members[k].mac == mac {
                return Some(k);
            }
            k = k + 1;
        }
        None
    }

    /// The members of `name` (empty when the network does not exist).
    pub fn members(&self, name: &String) -> (r: Vec<(u8, u64)>)
        requires
            self.wf(),
        ensures
            (exists|i: int| 0 <= i < self.networks_view().len() && (#[trigger] self.networks_view()[i]).0 == name@ && r@
                == self.networks_view()[i].1) || ((forall|i: int| 0 <= i < self.networks_view().len() ==> (#[trigger] self.networks_view()[i]).0 != name@) && r@.len() == 0),
    {
        match self.find_network(name) {
            Some(i) => {
                let members = &self.networks[i].members;
                let mut out: Vec<(u8, u64)> = Vec::new();
                let mut k: usize = 0;
                while k < members.len()
                    invariant
                        k <= members@.len(),
                        out@ == members@.map_values(|m: Member<Tx>| (m.mac, m.generation)).take(k as int),
                    decreases members@.len() - k,
                {
                    out.push((members[k].mac, members[k].generation));
                    k = k + 1;
                    assert(out@ =~= members@.map_values(|m: Member<Tx>| (m.mac, m.generation)).take(k as int));
                }
                assert(out@ =~= members@.map_values(|m: Member<Tx>| (m.mac, m.generation)));
                assert(self.networks_view()[i as int].0 == name@);
                out
            },
            None => Vec::new(),
        }
    }
}


/// Members of the network called `name` in `nets` (none when absent).
pub open spec fn members_of(nets: Seq<(Seq<char>, MembersView)>, name: Seq<char>) -> MembersView {
    if exists|i: int| 0 <= i < nets.len() && (#[trigger] nets[i]).0 == name {
        nets[choose|i: int| 0 <= i < nets.len() && (#[trigger] nets[i]).0 == name].1
    } else {
        Seq::empty()
    }
}

/// Generation of `mac` among `m`, if it is a member.
pub open spec fn generation_of(m: MembersView, mac: u8) -> Option<u64> {
    if has_mac(m, mac) {
        Some(m[choose|i: int| 0 <= i < m.len() && (#[trigger] m[i]).0 == mac].1)
    } else {
        None
    }
}

/// Members other than `mac` with generation `generation`.
pub open spec fn not_generation(mac: u8, generation: u64) -> spec_fn((u8, u64)) -> bool {
    |e: (u8, u64)| !(e.0 == mac && e.1 == generation)
}

/// Members after removing `mac` when it has generation `generation`.
pub open spec fn without_generation(m: MembersView, mac: u8, generation: u64) -> MembersView {
    m.filter(not_generation(mac, generation))
}

impl<Tx> VirtualNetworkRegistry<Tx> {
    proof fn lemma_members_of_at(&self, i: int)
        requires
            self.wf(),
            0 <= i < self.networks@.len(),
        ensures
            members_of(self.networks_view(), self.networks_view()[i].0) == self.networks_view()[i].1,
            self.networks_view()[i].1.len() > 0,
            macs_distinct(self.networks_view()[i].1),
    {
        let nets = self.networks_view();
        let name = nets[i].0;
        assert(nets[i] == (self.networks@[i].name@, members_view(self.networks@[i])));
        let c = choose|c: int| 0 <= c < nets.len() && (#[trigger] nets[c]).0 == name;
        if c != i {
            assert(nets[c].0 == self.networks@[c].name@);
            if c < i {
                assert(self.networks@[c].name@ != self.networks@[i].name@);
            } else {
                assert(self.networks@[i].name@ != self.networks@[c].name@);
            }
        }
        assert(members_view(self.networks@[i]).len() == self.networks@[i].members@.len());
    }

    /// Members of the network called `name`.
    pub closed spec fn members_view_of(&self, name: Seq<char>) -> MembersView {
        members_of(self.networks_view(), name)
    }

    /// Generation of `mac` in network `name`, if it is a member.
    pub fn member_generation(&self, name: &String, mac: u8) -> (r: Option<u64>)
        requires
            self.wf(),
        ensures
            r == generation_of(self.members_view_of(name@), mac),
    {
        match self.find_network(name) {
            Some(i) => {
                proof {
                    self.lemma_members_of_at(i as int);
                }
                let ghost m = self.networks_view()[i as int].1;
                match Self::find_member(&self.networks[i].members, mac) {
                    Some(k) => {
                        proof {
                            assert(m[k as int].0 == mac);
                            let c = choose|c: int| 0 <= c < m.len() && (#[trigger] m[c]).0 == mac;
                            if c != k as int {
                                if c < k as int {
                                    assert(m[c].0 != m[k as int].0);
                                } else {
                                    assert(m[k as int].0 != m[c].0);
                                }
                            }
                        }
                        Some(self.networks[i].members[k].generation)
                    },
                    None => {
                        proof {
                            if has_mac(m, mac) {
                                let c = choose|c: int| 0 <= c < m.len() && (#[trigger] m[c]).0 == mac;
                                assert(self.networks@[i as int].members@[c].mac == mac);
                            }
                        }
                        None
                    },
                }
            },
            None => None,
        }
    }

    /// The queue of `mac` in network `name`, if it is a member.
    pub fn sender(&self, name: &String, mac: u8) -> (r: Option<&Tx>)
        requires
            self.wf(),
        ensures
            r is Some <==> generation_of(self.members_view_of(name@), mac) is Some,
    {
        match self.find_network(name) {
            Some(i) => {
                proof {
                    self.lemma_members_of_at(i as int);
                }
                let ghost m = self.networks_view()[i as int].1;
                match Self::find_member(&self.networks[i].members, mac) {
                    Some(k) => {
                        assert(m[k as int].0 == mac);
                        Some(&self.networks[i].members[k].tx)
                    },
                    None => {
                        proof {
                            if has_mac(m, mac) {
                                let c = choose|c: int| 0 <= c < m.len() && (#[trigger] m[c]).0 == mac;
                                assert(self.networks@[i as int].members@[c].mac == mac);
                            }
                        }
                        None
                    },
                }
            },
            None => None,
        }
    }
}


/// Network names are distinct.
pub open spec fn names_distinct(nets: Seq<(Seq<char>, MembersView)>) -> bool {
    forall|i: int, j: int| 0 <= i < j < nets.len() ==> (#[trigger] nets[i]).0 != (#[trigger] nets[j]).0
}

proof fn lemma_members_of_index(nets: Seq<(Seq<char>, MembersView)>, i: int)
    requires
        names_distinct(nets),
        0 <= i < nets.len(),
    ensures
        members_of(nets, nets[i].0) == nets[i].1,
{
    let c = choose|c: int| 0 <= c < nets.len() && (#[trigger] nets[c]).0 == nets[i].0;
    if c != i {
        if c < i {
            assert(nets[c].0 != nets[i].0);
        } else {
            assert(nets[i].0 != nets[c].0);
        }
    }
}

proof fn lemma_members_of_update(nets: Seq<(Seq<char>, MembersView)>, i: int, m: MembersView, n: Seq<char>)
    requires
        names_distinct(nets),
        0 <= i < nets.len(),
    ensures
        names_distinct(nets.update(i, (nets[i].0, m))),
        members_of(nets.update(i, (nets[i].0, m)), n) == (if n == nets[i].0 {
            m
        } else {
            members_of(nets, n)
        }),
{
    let u = nets.update(i, (nets[i].0, m));
    assert forall|a: int, b: int| 0 <= a < b < u.len() implies (#[trigger] u[a]).0 != (#[trigger] u[b]).0 by {
        assert(u[a].0 == nets[a].0 && u[b].0 == nets[b].0);
    }
    if n == nets[i].0 {
        lemma_members_of_index(u, i);
    } else if exists|k: int| 0 <= k < nets.len() && (#[trigger] nets[k]).0 == n {
        let k = choose|k: int| 0 <= k < nets.len() && (#[trigger] nets[k]).0 == n;
        lemma_members_of_index(nets, k);
        assert(u[k] == nets[k]);
        lemma_members_of_index(u, k);
    } else {
        assert forall|k: int| 0 <= k < u.len() implies (#[trigger] u[k]).0 != n by {
            assert(u[k].0 == nets[k].0);
        }
    }
}

proof fn lemma_members_of_push(nets: Seq<(Seq<char>, MembersView)>, name: Seq<char>, m: MembersView, n: Seq<char>)
    requires
        names_distinct(nets),
        forall|k: int| 0 <= k < nets.len() ==> (#[trigger] nets[k]).0 != name,
    ensures
        names_distinct(nets.push((name, m))),
        members_of(nets.push((name, m)), n) == (if n == name {
            m
        } else {
            members_of(nets, n)
        }),
{
    let u = nets.push((name, m));
    assert forall|a: int, b: int| 0 <= a < b < u.len() implies (#[trigger] u[a]).0 != (#[trigger] u[b]).0 by {
        if b == nets.len() {
            assert(u[a] == nets[a]);
        } else {
            assert(u[a] == nets[a] && u[b] == nets[b]);
        }
    }
    if n == name {
        lemma_members_of_index(u, nets.len() as int);
    } else if exists|k: int| 0 <= k < nets.len() && (#[trigger] nets[k]).0 == n {
        let k = choose|k: int| 0 <= k < nets.len() && (#[trigger] nets[k]).0 == n;
        lemma_members_of_index(nets, k);
        assert(u[k] == nets[k]);
        lemma_members_of_index(u, k);
    } else {
        assert forall|k: int| 0 <= k < u.len() implies (#[trigger] u[k]).0 != n by {
            if k < nets.len() {
                assert(u[k] == nets[k]);
            }
        }
    }
}

proof fn lemma_members_of_remove(nets: Seq<(Seq<char>, MembersView)>, i: int, n: Seq<char>)
    requires
        names_distinct(nets),
        0 <= i < nets.len(),
    ensures
        names_distinct(nets.remove(i)),
        members_of(nets.remove(i), n) == (if n == nets[i].0 {
            Seq::<(u8, u64)>::empty()
        } else {
            members_of(nets, n)
        }),
{
    let u = nets.remove(i);
    assert forall|a: int, b: int| 0 <= a < b < u.len() implies (#[trigger] u[a]).0 != (#[trigger] u[b]).0 by {
        if b < i {
            assert(u[a] == nets[a] && u[b] == nets[b]);
        } else if a < i {
            assert(u[a] == nets[a] && u[b] == nets[b + 1]);
        } else {
            assert(u[a] == nets[a + 1] && u[b] == nets[b + 1]);
        }
    }
    if n == nets[i].0 {
        assert forall|k: int| 0 <= k < u.len() implies (#[trigger] u[k]).0 != n by {
            if k < i {
                assert(u[k] == nets[k]);
            } else {
                assert(u[k] == nets[k + 1]);
            }
        }
    } else if exists|k: int| 0 <= k < nets.len() && (#[trigger] nets[k]).0 == n {
        let k = choose|k: int| 0 <= k < nets.len() && (#[trigger] nets[k]).0 == n;
        lemma_members_of_index(nets, k);
        if k < i {
            assert(u[k] == nets[k]);
            lemma_members_of_index(u, k);
        } else {
            assert(u[k - 1] == nets[k]);
            lemma_members_of_index(u, k - 1);
        }
    } else {
        assert forall|k: int| 0 <= k < u.len() implies (#[trigger] u[k]).0 != n by {
            if k < i {
                assert(u[k] == nets[k]);
            } else {
                assert(u[k] == nets[k + 1]);
            }
        }
    }
}


impl<Tx> VirtualNetworkRegistry<Tx> {
    proof fn lemma_wf_names(&self)
        requires
            self.wf(),
        ensures
            names_distinct(self.networks_view()),
    {
        assert forall|a: int, b: int| 0 <= a < b < self.networks_view().len() implies (#[trigger] self.networks_view()[a]).0
            != (#[trigger] self.networks_view()[b]).0 by {
            assert(self.networks_view()[a].0 == self.networks@[a].name@);
            assert(self.networks_view()[b].0 == self.networks@[b].name@);
        }
    }

    /// Joins network `name` with MAC `mac` and receive queue `tx`, whose
    /// capacity is `queue_capacity`. Invalid arguments are refused before a
    /// generation is taken; a MAC already joined to the network is refused
    /// with `AddrInUse`. On success returns the new member's generation.
    pub fn join(&mut self, name: String, mac: u8, queue_capacity: usize, tx: Tx) -> (r: Result<u64, Error>)
        requires
            old(self).wf(),
        ensures
            final(self).wf(),
            (is_blank(name@) || !(1 <= queue_capacity <= MAX_VIRTUAL_NETWORK_QUEUE_CAPACITY)) ==> (r matches Err(e)
                && e is OutOfRange) && final(self).next_generation_view() == old(self).next_generation_view()
                && forall|n: Seq<char>| #[trigger] final(self).members_view_of(n) == old(self).members_view_of(n),
            !(is_blank(name@) || !(1 <= queue_capacity <= MAX_VIRTUAL_NETWORK_QUEUE_CAPACITY)) ==> {
                &&& final(self).next_generation_view() == wrapping(old(self).next_generation_view(), 1)
                &&& has_mac(old(self).members_view_of(name@), mac) ==> (r matches Err(e) && e is Transport
                    && e->Transport_kind == TransportErrorKind::AddrInUse)
                    && forall|n: Seq<char>| #[trigger] final(self).members_view_of(n) == old(self).members_view_of(n)
                &&& !has_mac(old(self).members_view_of(name@), mac) ==> r == Ok::<u64, Error>(old(self).next_generation_view())
                    && final(self).members_view_of(name@) == old(self).members_view_of(name@).push(
                    (mac, old(self).next_generation_view()),
                ) && forall|n: Seq<char>| n != name@ ==> #[trigger] final(self).members_view_of(n)
                    == old(self).members_view_of(n)
            },
    {
        validate_join(name.as_str(), queue_capacity)?;
        let generation = self.next_generation;
        self.next_generation = self.next_generation.wrapping_add(1);
        let ghost nets = self.networks_view();
        proof {
            self.lemma_wf_names();
        }
        match self.find_network(&name) {
            Some(i) => {
                proof {
                    self.lemma_members_of_at(i as int);
                    lemma_members_of_index(nets, i as int);
                }
                let ghost m = nets[i as int].1;
                if let Some(k) = Self::find_member(&self.networks[i].members, mac) {
                    assert(m[k as int].0 == mac);
                    return Err(Error::Transport {
                        kind: TransportErrorKind::AddrInUse,
                        message: "MAC is already joined to this virtual network".to_owned(),
                    });
                }
                proof {
                    if has_mac(m, mac) {
                        let c = choose|c: int| 0 <= c < m.len() && (#[trigger] m[c]).0 == mac;
                        assert(self.networks@[i as int].members@[c].mac == mac);
                    }
                }
                let mut net = self.networks.remove(i);
                let ghost before = net.members@;
                net.members.push(Member { mac, generation, tx });
                proof {
                    assert(members_view(net) =~= m.push((mac, generation)));
                    assert forall|a: int, b: int| 0 <= a < b < members_view(net).len() implies (#[trigger] members_view(net)[a]).0
                        != (#[trigger] members_view(net)[b]).0 by {
                        if b == m.len() {
                            assert(members_view(net)[a] == m[a]);
                            if m[a].0 == mac {
                                assert(has_mac(m, mac));
                            }
                        } else {
                            assert(members_view(net)[a] == m[a] && members_view(net)[b] == m[b]);
                        }
                    }
                }
                self.networks.insert(i, net);
                proof {
                    assert(self.networks_view() =~= nets.update(i as int, (nets[i as int].0, m.push((mac, generation)))));
                    assert forall|n: Seq<char>| #[trigger] self.members_view_of(n) == (if n == name@ {
                        m.push((mac, generation))
                    } else {
                        members_of(nets, n)
                    }) by {
                        lemma_members_of_update(nets, i as int, m.push((mac, generation)), n);
                    }
                    assert forall|a: int, b: int| 0 <= a < b < self.networks@.len() implies (#[trigger] self.networks@[a]).name@
                        != (#[trigger] self.networks@[b]).name@ by {
                        assert(self.networks@[a].name@ == self.networks_view()[a].0);
                        assert(self.networks@[b].name@ == self.networks_view()[b].0);
                        lemma_members_of_update(nets, i as int, m.push((mac, generation)), name@);
                    }
                    assert forall|a: int| 0 <= a < self.networks@.len() implies macs_distinct(members_view(#[trigger] self.networks@[a])) && self.networks@[a].members@.len() > 0 by {
                        if a != i as int {
                            assert(self.networks@[a] == old(self).networks@[a]);
                        }
                    }
                }
                Ok(generation)
            },
            None => {
                let mut members: Vec<Member<Tx>> = Vec::new();
                members.push(Member { mac, generation, tx });
                let net = NamedNetwork { name, members };
                proof {
                    assert(members_view(net) =~= seq![(mac, generation)]);
                    assert(members_of(nets, net.name@) =~= Seq::<(u8, u64)>::empty());
                }
                self.networks.push(net);
                proof {
                    let nm = self.networks@[self.networks@.len() - 1].name@;
                    assert(self.networks_view() =~= nets.push((nm, seq![(mac, generation)])));
                    assert forall|n: Seq<char>| #[trigger] self.members_view_of(n) == (if n == nm {
                        seq![(mac, generation)]
                    } else {
                        members_of(nets, n)
                    }) by {
                        lemma_members_of_push(nets, nm, seq![(mac, generation)], n);
                    }
                    assert(Seq::<(u8, u64)>::empty().push((mac, generation)) =~= seq![(mac, generation)]);
                    assert forall|a: int, b: int| 0 <= a < b < self.networks@.len() implies (#[trigger] self.networks@[a]).name@
                        != (#[trigger] self.networks@[b]).name@ by {
                        assert(self.networks@[a].name@ == self.networks_view()[a].0);
                        assert(self.networks@[b].name@ == self.networks_view()[b].0);
                        lemma_members_of_push(nets, nm, seq![(mac, generation)], nm);
                    }
                    assert forall|a: int| 0 <= a < self.networks@.len() implies macs_distinct(members_view(#[trigger] self.networks@[a])) && self.networks@[a].members@.len() > 0 by {
                        if a < nets.len() {
                            assert(self.networks@[a] == old(self).networks@[a]);
                        }
                    }
                }
                Ok(generation)
            },
        }
    }

    /// Removes `mac` from network `name` when its generation is
    /// `generation`, so a stale handle never removes a newer member; a
    /// network left empty is removed.
    pub fn unregister(&mut self, name: &String, mac: u8, generation: u64)
        requires
            old(self).wf(),
        ensures
            final(self).wf(),
            final(self).members_view_of(name@) == (if generation_of(old(self).members_view_of(name@), mac) == Some(generation) {
                without_generation(old(self).members_view_of(name@), mac, generation)
            } else {
                old(self).members_view_of(name@)
            }),
            forall|n: Seq<char>| n != name@ ==> #[trigger] final(self).members_view_of(n) == old(self).members_view_of(n),
            final(self).next_generation_view() == old(self).next_generation_view(),
    {
        let ghost nets = self.networks_view();
        proof {
            self.lemma_wf_names();
        }
        let i = match self.find_network(name) {
            Some(i) => i,
            None => return,
        };
        proof {
            self.lemma_members_of_at(i as int);
            lemma_members_of_index(nets, i as int);
        }
        let ghost m = nets[i as int].1;
        let k = match Self::find_member(&self.networks[i].members, mac) {
            Some(k) => k,
            None => {
                proof {
                    if has_mac(m, mac) {
                        let c = choose|c: int| 0 <= c < m.len() && (#[trigger] m[c]).0 == mac;
                        assert(self.networks@[i as int].members@[c].mac == mac);
                    }
                }
                return;
            },
        };
        proof {
            assert(m[k as int].0 == mac);
            let c = choose|c: int| 0 <= c < m.len() && (#[trigger] m[c]).0 == mac;
            if c != k as int {
                if c < k as int {
                    assert(m[c].0 != m[k as int].0);
                } else {
                    assert(m[k as int].0 != m[c].0);
                }
            }
        }
        if self.networks[i].members[k].generation != generation {
            return;
        }
        let mut net = self.networks.remove(i);
        let _gone = net.members.remove(k);
        proof {
            let p = not_generation(mac, generation);
            assert(members_view(net) =~= m.remove(k as int));
            assert(without_generation(m, mac, generation) == m.remove(k as int)) by {
                let a = m.take(k as int);
                let b = m.skip(k as int + 1);
                let x = m[k as int];
                assert forall|j: int| 0 <= j < m.len() && j != k implies p(#[trigger] m[j]) by {
                    if m[j].0 == mac {
                        if j < k {
                            assert(m[j].0 != m[k as int].0);
                        } else {
                            assert(m[k as int].0 != m[j].0);
                        }
                    }
                }
                assert forall|j: int| 0 <= j < a.len() implies p(#[trigger] a[j]) by {
                    assert(a[j] == m[j]);
                }
                assert forall|j: int| 0 <= j < b.len() implies p(#[trigger] b[j]) by {
                    assert(b[j] == m[j + k + 1]);
                }
                lemma_filter_all(a, p);
                lemma_filter_all(b, p);
                assert(m =~= a.push(x) + b);
                Seq::filter_distributes_over_add(a.push(x), b, p);
                a.lemma_filter_push(x, p);
                assert(m.remove(k as int) =~= a + b);
            }
            assert forall|a: int, b: int| 0 <= a < b < members_view(net).len() implies (#[trigger] members_view(net)[a]).0
                != (#[trigger] members_view(net)[b]).0 by {
                if b < k {
                    assert(members_view(net)[a] == m[a] && members_view(net)[b] == m[b]);
                } else if a < k {
                    assert(members_view(net)[a] == m[a] && members_view(net)[b] == m[b + 1]);
                } else {
                    assert(members_view(net)[a] == m[a + 1] && members_view(net)[b] == m[b + 1]);
                }
            }
        }
        if net.members.len() == 0 {
            proof {
                assert(without_generation(m, mac, generation) =~= Seq::<(u8, u64)>::empty());
                assert(self.networks_view() =~= nets.remove(i as int));
                assert forall|n: Seq<char>| #[trigger] self.members_view_of(n) == (if n == nets[i as int].0 {
                    Seq::<(u8, u64)>::empty()
                } else {
                    members_of(nets, n)
                }) by {
                    lemma_members_of_remove(nets, i as int, n);
                }
                assert forall|a: int, b: int| 0 <= a < b < self.networks@.len() implies (#[trigger] self.networks@[a]).name@
                    != (#[trigger] self.networks@[b]).name@ by {
                    assert(self.networks@[a].name@ == self.networks_view()[a].0);
                    assert(self.networks@[b].name@ == self.networks_view()[b].0);
                    lemma_members_of_remove(nets, i as int, name@);
                }
                assert forall|a: int| 0 <= a < self.networks@.len() implies macs_distinct(members_view(#[trigger] self.networks@[a])) && self.networks@[a].members@.len() > 0 by {
                    if a < i as int {
                        assert(self.networks@[a] == old(self).networks@[a]);
                    } else {
                        assert(self.networks@[a] == old(self).networks@[a + 1]);
                    }
                }
            }
            return;
        }
        let ghost m2 = members_view(net);
        self.networks.insert(i, net);
        proof {
            assert(self.networks_view() =~= nets.update(i as int, (nets[i as int].0, m2)));
            assert forall|n: Seq<char>| #[trigger] self.members_view_of(n) == (if n == nets[i as int].0 {
                m2
            } else {
                members_of(nets, n)
            }) by {
                lemma_members_of_update(nets, i as int, m2, n);
            }
            assert forall|a: int, b: int| 0 <= a < b < self.networks@.len() implies (#[trigger] self.networks@[a]).name@
                != (#[trigger] self.networks@[b]).name@ by {
                assert(self.networks@[a].name@ == self.networks_view()[a].0);
                assert(self.networks@[b].name@ == self.networks_view()[b].0);
                lemma_members_of_update(nets, i as int, m2, name@);
            }
            assert forall|a: int| 0 <= a < self.networks@.len() implies macs_distinct(members_view(#[trigger] self.networks@[a])) && self.networks@[a].members@.len() > 0 by {
                if a != i as int {
                    assert(self.networks@[a] == old(self).networks@[a]);
                }
            }
        }
    }
}

/// Filtering by a predicate every element meets changes nothing.
proof fn lemma_filter_all(s: Seq<(u8, u64)>, p: spec_fn((u8, u64)) -> bool)
    requires
        forall|j: int| 0 <= j < s.len() ==> p(#[trigger] s[j]),
    ensures
        s.filter(p) == s,
    decreases s.len(),
{
    reveal(Seq::filter);
    if s.len() > 0 {
        lemma_filter_all(s.drop_last(), p);
        assert(s.drop_last().push(s.last()) =~= s);
    }
}


/// Members other than `mac`.
pub open spec fn others_than(mac: u8) -> spec_fn((u8, u64)) -> bool {
    |e: (u8, u64)| e.0 != mac
}

impl<Tx> VirtualNetworkRegistry<Tx> {
    /// Confirms that the handle `(name, mac, generation)` is still the
    /// current member; `receiver_closed` tells whether the current member's
    /// receiver has closed. A current member with a closed receiver is pruned;
    /// a handle that is not current is refused with `NotConnected` and must
    /// become terminal.
    pub fn check_membership(&mut self, name: &String, mac: u8, generation: u64, receiver_closed: bool) -> (r: Result<(), Error>)
        requires
            old(self).wf(),
        ensures
            final(self).wf(),
            r is Ok <==> (generation_of(old(self).members_view_of(name@), mac) == Some(generation) && !receiver_closed),
            r matches Err(e) ==> e is Transport && e->Transport_kind == TransportErrorKind::NotConnected,
            generation_of(old(self).members_view_of(name@), mac) == Some(generation) && receiver_closed
                ==> final(self).members_view_of(name@) == without_generation(old(self).members_view_of(name@), mac, generation),
            !(generation_of(old(self).members_view_of(name@), mac) == Some(generation) && receiver_closed)
                ==> final(self).members_view_of(name@) == old(self).members_view_of(name@),
            forall|n: Seq<char>| n != name@ ==> #[trigger] final(self).members_view_of(n) == old(self).members_view_of(n),
            final(self).next_generation_view() == old(self).next_generation_view(),
    {
        let current = self.member_generation(name, mac);
        match current {
            Some(g) => {
                if g == generation {
                    if !receiver_closed {
                        return Ok(());
                    }
                    self.unregister(name, mac, generation);
                }
            },
            None => {},
        }
        Err(Error::Transport {
            kind: TransportErrorKind::NotConnected,
            message: "virtual network membership is no longer current".to_owned(),
        })
    }

    /// Destination of a unicast from a current member of `name` to the MAC
    /// `destination`: its generation. A MAC that is not one byte is refused
    /// as out of range; a missing network or destination is `NotFound` and
    /// counted as an unknown-destination drop.
    pub fn unicast_target(&self, name: &String, destination: &[u8], stats: &mut VirtualNetworkStats) -> (r: Result<u64, Error>)
        requires
            self.wf(),
        ensures
            destination@.len() != 1 ==> (r matches Err(e) && e is OutOfRange) && *final(stats) == *old(stats),
            destination@.len() == 1 ==> match generation_of(self.members_view_of(name@), destination@[0]) {
                Some(g) => r == Ok::<u64, Error>(g) && *final(stats) == *old(stats),
                None => (r matches Err(e) && e is Transport && e->Transport_kind == TransportErrorKind::NotFound)
                    && *final(stats) == (VirtualNetworkStats {
                    unknown_destination_drops: wrapping(old(stats).unknown_destination_drops, 1),
                    ..*old(stats)
                }),
            },
    {
        if destination.len() != 1 {
            return Err(Error::OutOfRange("virtual network destination MAC must be exactly one byte".to_owned()));
        }
        match self.member_generation(name, destination[0]) {
            Some(g) => Ok(g),
            None => {
                stats.note_unknown_destination();
                Err(Error::Transport {
                    kind: TransportErrorKind::NotFound,
                    message: "virtual network destination MAC is not joined".to_owned(),
                })
            },
        }
    }

    /// Completes a unicast to `destination` of network `name`, found with
    /// generation `generation`, whose delivery had the given outcome: the
    /// outcome is counted; a closed receiver is removed from the network
    /// when it is still that generation; the error is `unicast_result`'s.
    pub fn finish_unicast(
        &mut self,
        name: &String,
        destination: u8,
        generation: u64,
        outcome: Delivery,
        stats: &mut VirtualNetworkStats,
    ) -> (r: Option<TransportErrorKind>)
        requires
            old(self).wf(),
        ensures
            final(self).wf(),
            outcome == Delivery::Delivered <==> r is None,
            outcome == Delivery::Full ==> r == Some(TransportErrorKind::WouldBlock),
            outcome == Delivery::Closed ==> r == Some(TransportErrorKind::NotConnected),
            outcome == Delivery::Delivered ==> *final(stats) == (VirtualNetworkStats {
                unicast_delivered: wrapping(old(stats).unicast_delivered, 1),
                ..*old(stats)
            }),
            outcome == Delivery::Full ==> *final(stats) == (VirtualNetworkStats {
                full_member_drops: wrapping(old(stats).full_member_drops, 1),
                ..*old(stats)
            }),
            outcome == Delivery::Closed ==> *final(stats) == (VirtualNetworkStats {
                closed_member_drops: wrapping(old(stats).closed_member_drops, 1),
                ..*old(stats)
            }),
            outcome == Delivery::Closed ==> final(self).members_view_of(name@) == (
            if generation_of(old(self).members_view_of(name@), destination) == Some(generation) {
                without_generation(old(self).members_view_of(name@), destination, generation)
            } else {
                old(self).members_view_of(name@)
            }),
            outcome != Delivery::Closed ==> final(self).members_view_of(name@) == old(self).members_view_of(name@),
            forall|n: Seq<char>| n != name@ ==> #[trigger] final(self).members_view_of(n) == old(self).members_view_of(n),
            final(self).next_generation_view() == old(self).next_generation_view(),
    {
        stats.note_unicast(outcome);
        if outcome == Delivery::Closed {
            self.unregister(name, destination, generation);
        }
        unicast_result(outcome)
    }

    /// Recipients of a broadcast by member `mac` of `name`: every other
    /// member, in joining order. `NotConnected` when the network is gone.
    pub fn broadcast_recipients(&self, name: &String, mac: u8) -> (r: Result<Vec<(u8, u64)>, Error>)
        requires
            self.wf(),
        ensures
            self.members_view_of(name@).len() == 0 ==> (r matches Err(e) && e is Transport
                && e->Transport_kind == TransportErrorKind::NotConnected),
            self.members_view_of(name@).len() > 0 ==> (r matches Ok(v) && v@ == self.members_view_of(name@).filter(others_than(mac))),
    {
        proof {
            self.lemma_wf_names();
        }
        let members = self.members(name);
        proof {
            if exists|i: int| 0 <= i < self.networks_view().len() && (#[trigger] self.networks_view()[i]).0 == name@ {
                let i = choose|i: int| 0 <= i < self.networks_view().len() && (#[trigger] self.networks_view()[i]).0 == name@;
                lemma_members_of_index(self.networks_view(), i);
                self.lemma_members_of_at(i);
            }
        }
        if members.len() == 0 {
            return Err(Error::Transport {
                kind: TransportErrorKind::NotConnected,
                message: "virtual network no longer exists".to_owned(),
            });
        }
        let ghost all = members@;
        let mut out: Vec<(u8, u64)> = Vec::new();
        let mut k: usize = 0;
        while k < members.len()
            invariant
                k <= members@.len(),
                all == members@,
                out@ == all.take(k as int).filter(others_than(mac)),
            decreases members@.len() - k,
        {
            proof {
                assert(all.take(k as int + 1) =~= all.take(k as int).push(all[k as int]));
                all.take(k as int).lemma_filter_push(all[k as int], others_than(mac));
            }
            if members[k].0 != mac {
                out.push(members[k]);
            }
            k = k + 1;
        }
        assert(all.take(k as int) =~= all);
        Ok(out)
    }
}

/// A stale handle cannot remove a newer member: after a MAC rejoins with a
/// new generation, it is the current member, and unregistering with the
/// old generation leaves the network as it is.
pub proof fn lemma_rejoin_survives_stale_unregister(m: MembersView, mac: u8, stale: u64, fresh: u64)
    requires
        macs_distinct(m),
        !has_mac(m, mac),
        stale != fresh,
    ensures
        generation_of(m.push((mac, fresh)), mac) == Some(fresh),
        (if generation_of(m.push((mac, fresh)), mac) == Some(stale) {
            without_generation(m.push((mac, fresh)), mac, stale)
        } else {
            m.push((mac, fresh))
        }) == m.push((mac, fresh)),
{
    let u = m.push((mac, fresh));
    assert(u[m.len() as int].0 == mac);
    let c = choose|c: int| 0 <= c < u.len() && (#[trigger] u[c]).0 == mac;
    if c < m.len() {
        assert(u[c] == m[c]);
    }
}

} // verus!
