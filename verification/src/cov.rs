//! COV subscription engine: tracks SubscribeCOV subscriptions, their
//! lifetimes and the per-peer and global admission quotas.
//!
//! A subscription is identified by its subscriber endpoint (MAC and routed
//! source address), process identifier, monitored object and monitored
//! property, so whole-object and per-property subscriptions coexist. Time is
//! supplied by the caller in monotonic milliseconds; a subscription whose
//! expiry is at or before `now` is expired.

use vstd::prelude::*;
use crate::address::{bytes_eq, copy_mac, NpduAddress, ObjectIdentifier, opt_address_view, duplicate_opt_address, opt_address_eq};
use crate::error::{Error, ERROR_CLASS_SERVICES, ERROR_CLASS_RESOURCES, ERROR_CODE_OPTIONAL_FUNCTIONALITY_NOT_SUPPORTED, ERROR_CODE_NO_SPACE_TO_ADD_LIST_ELEMENT};

verus! {

// ----------------------------------------------------------------------------
// Peer identity
// ----------------------------------------------------------------------------

/// Canonical identity of a subscribing peer: its MAC on the local link, or
/// the network number and MAC of a routed source.
#[derive(Clone, Debug)]
pub struct CovPeerKey {
    network: Option<u16>,
    mac: Vec<u8>,
}

impl View for CovPeerKey {
    type V = (Option<u16>, Seq<u8>);

    closed spec fn view(&self) -> (Option<u16>, Seq<u8>) {
        (self.network, self.mac@)
    }
}

/// Canonical peer of a subscriber endpoint: the routed source when there is
/// one, else the local MAC.
pub open spec fn endpoint_peer(mac: Seq<u8>, network: Option<(u16, Seq<u8>)>) -> (Option<u16>, Seq<u8>) {
    match network {
        Some(source) => (Some(source.0), source.1),
        None => (None, mac),
    }
}

impl CovPeerKey {
    /// A peer on the local link.
    pub fn direct(mac: Vec<u8>) -> (r: CovPeerKey)
        ensures
            r@ == (None::<u16>, mac@),
    {
        CovPeerKey { network: None, mac }
    }

    /// A peer behind a router, on `network`.
    pub fn routed(network: u16, mac: Vec<u8>) -> (r: CovPeerKey)
        ensures
            r@ == (Some(network), mac@),
    {
        CovPeerKey { network: Some(network), mac }
    }

    /// Canonical peer of the endpoint `mac` with optional routed source.
    pub fn from_endpoint(mac: &[u8], network: Option<&NpduAddress>) -> (r: CovPeerKey)
        ensures
            r@ == endpoint_peer(mac@, match network {
                Some(a) => Some(a@),
                None => None::<(u16, Seq<u8>)>,
            }),
    {
        match network {
            Some(a) => CovPeerKey { network: Some(a.network), mac: copy_mac(a.mac_address.as_slice()) },
            None => CovPeerKey { network: None, mac: copy_mac(mac) },
        }
    }

    /// Network number of a routed peer.
    pub fn network(&self) -> (r: Option<u16>)
        ensures
            r == self@.0,
    {
        self.network
    }

    /// MAC address of the peer.
    pub fn mac(&self) -> (r: &[u8])
        ensures
            r@ == self@.1,
    {
        self.mac.as_slice()
    }

    /// Equality of canonical identities.
    pub fn same_peer(&self, other: &CovPeerKey) -> (r: bool)
        ensures
            r == (self@ == other@),
    {
        self.network == other.network && bytes_eq(self.mac.as_slice(), other.mac.as_slice())
    }
}

// ----------------------------------------------------------------------------
// Policy
// ----------------------------------------------------------------------------

/// COV quota policy.
#[derive(Clone, Debug)]
pub struct CovPolicy {
    /// Subscriptions the table holds at most.
    pub max_subscriptions_global: usize,
    /// Subscriptions one peer holds at most.
    pub max_subscriptions_per_peer: usize,
    /// Subscriptions without an expiry one peer holds at most.
    pub max_indefinite_per_peer: usize,
    /// Whether subscriptions without an expiry are accepted at all.
    pub allow_indefinite_subscriptions: bool,
    /// Capacity held back for reserved peers.
    pub reserved_capacity: usize,
    /// MAC addresses of directly connected reserved peers.
    pub reserved_peers: Vec<Vec<u8>>,
    /// Canonical identities of reserved peers.
    pub reserved_peer_keys: Vec<CovPeerKey>,
}

/// Default global capacity.
pub const DEFAULT_MAX_SUBSCRIPTIONS_GLOBAL: usize = 1024;

/// Default per-peer capacity.
pub const DEFAULT_MAX_SUBSCRIPTIONS_PER_PEER: usize = 64;

/// Default per-peer capacity for subscriptions without an expiry.
pub const DEFAULT_MAX_INDEFINITE_PER_PEER: usize = 16;

/// Whether some reserved peer is configured.
pub open spec fn has_reserved_peers(p: CovPolicy) -> bool {
    p.reserved_peers@.len() > 0 || p.reserved_peer_keys@.len() > 0
}

/// Capacity open to peers that are not reserved.
pub open spec fn unreserved_capacity(p: CovPolicy) -> int {
    if p.reserved_capacity > 0 && has_reserved_peers(p) {
        if p.max_subscriptions_global >= p.reserved_capacity {
            p.max_subscriptions_global - p.reserved_capacity
        } else {
            0
        }
    } else {
        p.max_subscriptions_global as int
    }
}

/// Whether `peer` is reserved: a direct peer whose MAC is listed, or a listed
/// canonical identity.
pub open spec fn reserves(p: CovPolicy, peer: (Option<u16>, Seq<u8>)) -> bool {
    (peer.0 is None && exists|i: int| 0 <= i < p.reserved_peers@.len() && (#[trigger] p.reserved_peers@[i])@ == peer.1)
    || exists|j: int| 0 <= j < p.reserved_peer_keys@.len() && (#[trigger] p.reserved_peer_keys@[j])@ == peer
}

impl Default for CovPolicy {
    fn default() -> (r: CovPolicy)
        ensures
            r.max_subscriptions_global == DEFAULT_MAX_SUBSCRIPTIONS_GLOBAL,
            r.max_subscriptions_per_peer == DEFAULT_MAX_SUBSCRIPTIONS_PER_PEER,
            r.max_indefinite_per_peer == DEFAULT_MAX_INDEFINITE_PER_PEER,
            r.allow_indefinite_subscriptions,
            r.reserved_capacity == 0,
            r.reserved_peers@.len() == 0,
            r.reserved_peer_keys@.len() == 0,
    {
        CovPolicy {
            max_subscriptions_global: DEFAULT_MAX_SUBSCRIPTIONS_GLOBAL,
            max_subscriptions_per_peer: DEFAULT_MAX_SUBSCRIPTIONS_PER_PEER,
            max_indefinite_per_peer: DEFAULT_MAX_INDEFINITE_PER_PEER,
            allow_indefinite_subscriptions: true,
            reserved_capacity: 0,
            reserved_peers: Vec::new(),
            reserved_peer_keys: Vec::new(),
        }
    }
}

impl CovPolicy {
    /// Capacity open to peers that are not reserved: the global capacity,
    /// less the reserved capacity when some reserved peer is configured.
    pub fn effective_unreserved_capacity(&self) -> (r: usize)
        ensures
            r == unreserved_capacity(*self),
    {
        if self.reserved_capacity > 0 && (self.reserved_peers.len() > 0 || self.reserved_peer_keys.len() > 0) {
            self.max_subscriptions_global.saturating_sub(self.reserved_capacity)
        } else {
            self.max_subscriptions_global
        }
    }

    /// Whether `peer` is reserved.
    pub fn is_peer_reserved(&self, peer: &CovPeerKey) -> (r: bool)
        ensures
            r == reserves(*self, peer@),
    {
        if peer.network.is_none() {
            let mut i: usize = 0;
            while i < self.reserved_peers.len()
                invariant
                    i <= self.reserved_peers@.len(),
                    peer@.0 is None,
                    forall|k: int| 0 <= k < i ==> (#[trigger] self.reserved_peers@[k])@ != peer@.1,
                decreases self.reserved_peers@.len() - i,
            {
                if bytes_eq(self.reserved_peers[i].as_slice(), peer.mac.as_slice()) {
                    return true;
                }
                i = i + 1;
            }
        }
        let mut j: usize = 0;
        while j < self.reserved_peer_keys.len()
            invariant
                j <= self.reserved_peer_keys@.len(),
                !(peer@.0 is None && exists|i: int| 0 <= i < self.reserved_peers@.len() && (#[trigger] self.reserved_peers@[i])@ == peer@.1),
                forall|k: int| 0 <= k < j ==> (#[trigger] self.reserved_peer_keys@[k])@ != peer@,
            decreases self.reserved_peer_keys@.len() - j,
        {
            if self.reserved_peer_keys[j].same_peer(peer) {
                return true;
            }
            j = j + 1;
        }
        false
    }
}


// ----------------------------------------------------------------------------
// Subscriptions
// ----------------------------------------------------------------------------

/// COV notification service family of a stored subscription.
#[derive(Clone, Copy, Debug, PartialEq, Eq, Structural)]
pub enum CovNotificationKind {
    /// COVNotification / ConfirmedCOVNotification.
    Single,
    /// COVNotificationMultiple / ConfirmedCOVNotificationMultiple.
    Multiple,
}

/// An active COV subscription.
#[derive(Debug)]
pub struct CovSubscription {
    /// MAC address of the subscriber (the delivering router for a routed one).
    pub subscriber_mac: Vec<u8>,
    /// Routed source address when the subscriber is behind a router.
    pub subscriber_network: Option<NpduAddress>,
    /// Process identifier chosen by the subscriber.
    pub subscriber_process_identifier: u32,
    /// The object being monitored.
    pub monitored_object_identifier: ObjectIdentifier,
    /// Whether to send confirmed (true) or unconfirmed notifications.
    pub issue_confirmed_notifications: bool,
    /// Monotonic millisecond at which the subscription expires; `None` for an
    /// indefinite lifetime.
    pub expires_at: Option<u64>,
    /// Property-level filter (SubscribeCOVProperty only).
    pub monitored_property: Option<u32>,
    /// Array index within the monitored property (SubscribeCOVProperty only).
    pub monitored_property_array_index: Option<u32>,
    /// Notification service family used for this subscription.
    pub notification_kind: CovNotificationKind,
    /// Whether COVNotificationMultiple values include timeOfChange.
    pub timestamped: bool,
}

/// The value of a subscription, with addresses taken by their views.
#[verifier::ext_equal]
pub struct CovSubscriptionView {
    /// Subscriber MAC.
    pub subscriber_mac: Seq<u8>,
    /// Routed source address.
    pub subscriber_network: Option<(u16, Seq<u8>)>,
    /// Subscriber process identifier.
    pub subscriber_process_identifier: u32,
    /// Monitored object.
    pub monitored_object_identifier: ObjectIdentifier,
    /// Confirmed notifications.
    pub issue_confirmed_notifications: bool,
    /// Expiry.
    pub expires_at: Option<u64>,
    /// Monitored property.
    pub monitored_property: Option<u32>,
    /// Monitored array index.
    pub monitored_property_array_index: Option<u32>,
    /// Notification family.
    pub notification_kind: CovNotificationKind,
    /// Timestamped notifications.
    pub timestamped: bool,
}

impl View for CovSubscription {
    type V = CovSubscriptionView;

    open spec fn view(&self) -> CovSubscriptionView {
        CovSubscriptionView {
            subscriber_mac: self.subscriber_mac@,
            subscriber_network: opt_address_view(self.subscriber_network),
            subscriber_process_identifier: self.subscriber_process_identifier,
            monitored_object_identifier: self.monitored_object_identifier,
            issue_confirmed_notifications: self.issue_confirmed_notifications,
            expires_at: self.expires_at,
            monitored_property: self.monitored_property,
            monitored_property_array_index: self.monitored_property_array_index,
            notification_kind: self.notification_kind,
            timestamped: self.timestamped,
        }
    }
}

/// Identity of a subscription in the table.
pub open spec fn sub_key(s: CovSubscriptionView) -> (Seq<u8>, Option<(u16, Seq<u8>)>, u32, ObjectIdentifier, Option<u32>) {
    (s.subscriber_mac, s.subscriber_network, s.subscriber_process_identifier, s.monitored_object_identifier, s.monitored_property)
}

/// Canonical peer of a subscription.
pub open spec fn sub_peer(s: CovSubscriptionView) -> (Option<u16>, Seq<u8>) {
    endpoint_peer(s.subscriber_mac, s.subscriber_network)
}

/// Whether a subscription has expired at `now`.
pub open spec fn is_expired(s: CovSubscriptionView, now: u64) -> bool {
    s.expires_at matches Some(e) && e <= now
}

impl CovSubscription {
    /// Canonical peer identity of the subscriber.
    pub fn peer_key(&self) -> (r: CovPeerKey)
        ensures
            r@ == sub_peer(self@),
    {
        CovPeerKey::from_endpoint(self.subscriber_mac.as_slice(), self.subscriber_network.as_ref())
    }

    /// A copy of the subscription.
    pub fn duplicate(&self) -> (r: CovSubscription)
        ensures
            r@ == self@,
    {
        CovSubscription {
            subscriber_mac: copy_mac(self.subscriber_mac.as_slice()),
            subscriber_network: duplicate_opt_address(self.subscriber_network.as_ref()),
            subscriber_process_identifier: self.subscriber_process_identifier,
            monitored_object_identifier: self.monitored_object_identifier,
            issue_confirmed_notifications: self.issue_confirmed_notifications,
            expires_at: self.expires_at,
            monitored_property: self.monitored_property,
            monitored_property_array_index: self.monitored_property_array_index,
            notification_kind: self.notification_kind,
            timestamped: self.timestamped,
        }
    }

    /// Whether this subscription has the identity given by the parts.
    fn has_key(
        &self,
        mac: &[u8],
        network: Option<&NpduAddress>,
        process_id: u32,
        monitored_object: ObjectIdentifier,
        monitored_property: Option<u32>,
    ) -> (r: bool)
        ensures
            r == (sub_key(self@) == (mac@, opt_ref_view(network), process_id, monitored_object, monitored_property)),
    {
        self.subscriber_process_identifier == process_id
            && self.monitored_object_identifier == monitored_object
            && opt_u32_eq(self.monitored_property, monitored_property)
            && opt_address_eq(self.subscriber_network.as_ref(), network)
            && bytes_eq(self.subscriber_mac.as_slice(), mac)
    }
}

/// View of an optional borrowed routed address.
pub open spec fn opt_ref_view(a: Option<&NpduAddress>) -> Option<(u16, Seq<u8>)> {
    match a {
        Some(x) => Some(x@),
        None => None,
    }
}

fn opt_u32_eq(a: Option<u32>, b: Option<u32>) -> (r: bool)
    ensures
        r == (a == b),
{
    match (a, b) {
        (Some(x), Some(y)) => x == y,
        (None, None) => true,
        _ => false,
    }
}

/// Counters of subscription activity; each wraps at `u64::MAX`.
#[derive(Clone, Copy, Debug, PartialEq, Eq, Structural)]
pub struct CovCounters {
    /// Subscriptions added under a new identity.
    pub subscriptions_created: u64,
    /// Subscriptions in the table after the last change.
    pub subscriptions_active: u64,
    /// Subscriptions removed on request.
    pub subscriptions_cancelled: u64,
    /// Subscriptions removed because they expired.
    pub subscriptions_purged: u64,
    /// Requests refused for an indefinite lifetime.
    pub subscriptions_rejected_indefinite: u64,
    /// Requests refused by the per-peer quota.
    pub subscriptions_rejected_quota: u64,
    /// Requests refused by the global or unreserved capacity.
    pub subscriptions_rejected_capacity: u64,
}

/// `x + n` wrapping at `u64::MAX`.
pub open spec fn wrap_add(x: u64, n: u64) -> u64 {
    if x + n > u64::MAX {
        (x + n - 0x1_0000_0000_0000_0000) as u64
    } else {
        (x + n) as u64
    }
}

impl CovCounters {
    /// All counters at zero.
    pub fn new() -> (r: CovCounters)
        ensures
            r == zero_counters(),
    {
        CovCounters {
            subscriptions_created: 0,
            subscriptions_active: 0,
            subscriptions_cancelled: 0,
            subscriptions_purged: 0,
            subscriptions_rejected_indefinite: 0,
            subscriptions_rejected_quota: 0,
            subscriptions_rejected_capacity: 0,
        }
    }
}

/// Counters at zero.
pub open spec fn zero_counters() -> CovCounters {
    CovCounters {
        subscriptions_created: 0,
        subscriptions_active: 0,
        subscriptions_cancelled: 0,
        subscriptions_purged: 0,
        subscriptions_rejected_indefinite: 0,
        subscriptions_rejected_quota: 0,
        subscriptions_rejected_capacity: 0,
    }
}

// ----------------------------------------------------------------------------
// Table model
// ----------------------------------------------------------------------------

/// No two subscriptions share an identity.
pub open spec fn keys_unique(subs: Seq<CovSubscriptionView>) -> bool {
    forall|i: int, j: int| 0 <= i < j < subs.len() ==> sub_key(#[trigger] subs[i]) != sub_key(#[trigger] subs[j])
}

/// Whether position `i` holds identity `k`.
pub open spec fn key_at(subs: Seq<CovSubscriptionView>, k: (Seq<u8>, Option<(u16, Seq<u8>)>, u32, ObjectIdentifier, Option<u32>), i: int) -> bool {
    0 <= i < subs.len() && sub_key(subs[i]) == k
}

/// Whether some subscription has identity `k`.
pub open spec fn has_key(subs: Seq<CovSubscriptionView>, k: (Seq<u8>, Option<(u16, Seq<u8>)>, u32, ObjectIdentifier, Option<u32>)) -> bool {
    exists|i: int| key_at(subs, k, i)
}

/// Position of identity `k` (meaningful when present).
pub open spec fn key_index(subs: Seq<CovSubscriptionView>, k: (Seq<u8>, Option<(u16, Seq<u8>)>, u32, ObjectIdentifier, Option<u32>)) -> int {
    choose|i: int| key_at(subs, k, i)
}

/// Table after adding or replacing `s`.
pub open spec fn after_subscribe(subs: Seq<CovSubscriptionView>, s: CovSubscriptionView) -> Seq<CovSubscriptionView> {
    if has_key(subs, sub_key(s)) {
        subs.update(key_index(subs, sub_key(s)), s)
    } else {
        subs.push(s)
    }
}

/// Table after removing identity `k`.
pub open spec fn after_remove(subs: Seq<CovSubscriptionView>, k: (Seq<u8>, Option<(u16, Seq<u8>)>, u32, ObjectIdentifier, Option<u32>)) -> Seq<CovSubscriptionView> {
    if has_key(subs, k) {
        subs.remove(key_index(subs, k))
    } else {
        subs
    }
}

/// Subscriptions still alive at `now`.
pub open spec fn live_at(now: u64) -> spec_fn(CovSubscriptionView) -> bool {
    |s: CovSubscriptionView| !is_expired(s, now)
}

/// Subscriptions of `peer`.
pub open spec fn of_peer(peer: (Option<u16>, Seq<u8>)) -> spec_fn(CovSubscriptionView) -> bool {
    |s: CovSubscriptionView| sub_peer(s) == peer
}

/// Subscriptions of other peers than `peer`.
pub open spec fn not_of_peer(peer: (Option<u16>, Seq<u8>)) -> spec_fn(CovSubscriptionView) -> bool {
    |s: CovSubscriptionView| sub_peer(s) != peer
}

/// Subscriptions of `peer` without an expiry.
pub open spec fn indefinite_of_peer(peer: (Option<u16>, Seq<u8>)) -> spec_fn(CovSubscriptionView) -> bool {
    |s: CovSubscriptionView| sub_peer(s) == peer && s.expires_at is None
}

/// Subscriptions monitoring `oid`.
pub open spec fn on_object(oid: ObjectIdentifier) -> spec_fn(CovSubscriptionView) -> bool {
    |s: CovSubscriptionView| s.monitored_object_identifier == oid
}

/// Subscriptions monitoring another object than `oid`.
pub open spec fn off_object(oid: ObjectIdentifier) -> spec_fn(CovSubscriptionView) -> bool {
    |s: CovSubscriptionView| s.monitored_object_identifier != oid
}

/// Whether `s` belongs to the COV-multiple subscriber context given by the
/// subscriber endpoint, process identifier and confirmation mode.
pub open spec fn in_multiple_context(
    s: CovSubscriptionView,
    mac: Seq<u8>,
    network: Option<(u16, Seq<u8>)>,
    process_id: u32,
    confirmed: bool,
) -> bool {
    &&& s.notification_kind == CovNotificationKind::Multiple
    &&& s.subscriber_mac == mac
    &&& s.subscriber_network == network
    &&& s.subscriber_process_identifier == process_id
    &&& s.issue_confirmed_notifications == confirmed
}

/// Subscriptions outside a COV-multiple subscriber context.
pub open spec fn outside_multiple_context(
    mac: Seq<u8>,
    network: Option<(u16, Seq<u8>)>,
    process_id: u32,
    confirmed: bool,
) -> spec_fn(CovSubscriptionView) -> bool {
    |s: CovSubscriptionView| !in_multiple_context(s, mac, network, process_id, confirmed)
}

/// Subscriptions other than one object property of a COV-multiple context.
pub open spec fn outside_multiple_property(
    mac: Seq<u8>,
    network: Option<(u16, Seq<u8>)>,
    process_id: u32,
    confirmed: bool,
    oid: ObjectIdentifier,
    property: u32,
) -> spec_fn(CovSubscriptionView) -> bool {
    |s: CovSubscriptionView|
        !(in_multiple_context(s, mac, network, process_id, confirmed) && s.monitored_object_identifier == oid
            && s.monitored_property == Some(property))
}

/// `s` with its expiry replaced when it belongs to the given context.
pub open spec fn refreshed(
    s: CovSubscriptionView,
    mac: Seq<u8>,
    network: Option<(u16, Seq<u8>)>,
    process_id: u32,
    confirmed: bool,
    expires_at: Option<u64>,
) -> CovSubscriptionView {
    if in_multiple_context(s, mac, network, process_id, confirmed) {
        CovSubscriptionView { expires_at: expires_at, ..s }
    } else {
        s
    }
}


/// Views of a sequence of subscriptions.
pub open spec fn views(v: Seq<CovSubscription>) -> Seq<CovSubscriptionView> {
    v.map_values(|s: CovSubscription| s@)
}

/// Filtering keeps identities unique.
proof fn lemma_filter_keeps_unique(subs: Seq<CovSubscriptionView>, p: spec_fn(CovSubscriptionView) -> bool)
    requires
        keys_unique(subs),
    ensures
        keys_unique(subs.filter(p)),
    decreases subs.len(),
{
    reveal(Seq::filter);
    if subs.len() > 0 {
        let d = subs.drop_last();
        assert(keys_unique(d)) by {
            assert forall|i: int, j: int| 0 <= i < j < d.len() implies sub_key(#[trigger] d[i]) != sub_key(#[trigger] d[j]) by {
                assert(d[i] == subs[i] && d[j] == subs[j]);
            }
        }
        lemma_filter_keeps_unique(d, p);
        let f = d.filter(p);
        if p(subs.last()) {
            assert forall|j: int| 0 <= j < f.len() implies sub_key(#[trigger] f[j]) != sub_key(subs.last()) by {
                assert(f.contains(f[j]));
                d.lemma_filter_contains_rev(p, f[j]);
                let k = choose|k: int| 0 <= k < d.len() && d[k] == f[j];
                assert(subs[k] == d[k]);
                assert(sub_key(subs[k]) != sub_key(subs[subs.len() - 1]));
            }
            let g = f.push(subs.last());
            assert(subs.filter(p) == g);
            assert forall|i: int, j: int| 0 <= i < j < g.len() implies sub_key(#[trigger] g[i]) != sub_key(#[trigger] g[j]) by {
                if j == g.len() - 1 {
                    assert(g[i] == f[i]);
                } else {
                    assert(g[i] == f[i] && g[j] == f[j]);
                }
            }
        } else {
            assert(subs.filter(p) == f);
        }
    }
}

/// Which subscriptions an internal pass selects.
enum Selector {
    Expired(u64),
    Object(ObjectIdentifier),
    Peer(CovPeerKey),
    PeerIndefinite(CovPeerKey),
    MultipleContext { mac: Vec<u8>, network: Option<NpduAddress>, process_id: u32, confirmed: bool },
    MultipleProperty {
        mac: Vec<u8>,
        network: Option<NpduAddress>,
        process_id: u32,
        confirmed: bool,
        oid: ObjectIdentifier,
        property: u32,
    },
}

spec fn selected(sel: Selector, s: CovSubscriptionView) -> bool {
    match sel {
        Selector::Expired(now) => is_expired(s, now),
        Selector::Object(oid) => s.monitored_object_identifier == oid,
        Selector::Peer(peer) => sub_peer(s) == peer@,
        Selector::PeerIndefinite(peer) => sub_peer(s) == peer@ && s.expires_at is None,
        Selector::MultipleContext { mac, network, process_id, confirmed } =>
            in_multiple_context(s, mac@, opt_address_view(network), process_id, confirmed),
        Selector::MultipleProperty { mac, network, process_id, confirmed, oid, property } =>
            in_multiple_context(s, mac@, opt_address_view(network), process_id, confirmed)
                && s.monitored_object_identifier == oid && s.monitored_property == Some(property),
    }
}

spec fn chosen(sel: Selector) -> spec_fn(CovSubscriptionView) -> bool {
    |s: CovSubscriptionView| selected(sel, s)
}

spec fn matching(sel: Selector, keep: bool) -> spec_fn(CovSubscriptionView) -> bool {
    |s: CovSubscriptionView| selected(sel, s) == keep
}

/// Whether `s` belongs to the COV-multiple subscriber context.
fn in_context(s: &CovSubscription, mac: &[u8], network: Option<&NpduAddress>, process_id: u32, confirmed: bool) -> (r: bool)
    ensures
        r == in_multiple_context(s@, mac@, opt_ref_view(network), process_id, confirmed),
{
    s.notification_kind == CovNotificationKind::Multiple && s.subscriber_process_identifier == process_id
        && s.issue_confirmed_notifications == confirmed && opt_address_eq(s.subscriber_network.as_ref(), network)
        && bytes_eq(s.subscriber_mac.as_slice(), mac)
}

fn is_selected(sel: &Selector, s: &CovSubscription) -> (r: bool)
    ensures
        r == selected(*sel, s@),
{
    match sel {
        Selector::Expired(now) => match s.expires_at {
            Some(e) => e <= *now,
            None => false,
        },
        Selector::Object(oid) => s.monitored_object_identifier == *oid,
        Selector::Peer(peer) => s.peer_key().same_peer(peer),
        Selector::PeerIndefinite(peer) => s.expires_at.is_none() && s.peer_key().same_peer(peer),
        Selector::MultipleContext { mac, network, process_id, confirmed } => in_context(
            s,
            mac.as_slice(),
            network.as_ref(),
            *process_id,
            *confirmed,
        ),
        Selector::MultipleProperty { mac, network, process_id, confirmed, oid, property } => in_context(
            s,
            mac.as_slice(),
            network.as_ref(),
            *process_id,
            *confirmed,
        ) && s.monitored_object_identifier == *oid && opt_u32_eq(s.monitored_property, Some(*property)),
    }
}

/// Number of subscriptions of `subs` that `sel` selects.
fn count_selected(subs: &Vec<CovSubscription>, sel: &Selector) -> (r: usize)
    ensures
        r == views(subs@).filter(chosen(*sel)).len(),
{
    let ghost all = views(subs@);
    let mut n: usize = 0;
    let mut i: usize = 0;
    while i < subs.len()
        invariant
            i <= subs@.len(),
            all == views(subs@),
            n == all.take(i as int).filter(chosen(*sel)).len(),
            n <= i,
        decreases subs@.len() - i,
    {
        proof {
            assert(all.take(i as int + 1) =~= all.take(i as int).push(all[i as int]));
            all.take(i as int).lemma_filter_push(all[i as int], chosen(*sel));
        }
        if is_selected(sel, &subs[i]) {
            n = n + 1;
        }
        i = i + 1;
    }
    assert(all.take(i as int) =~= all);
    n
}

/// Copies of the subscriptions of `subs` whose selection by `sel` equals
/// `keep`, in order, and how many were left out.
fn filter_by(subs: &Vec<CovSubscription>, sel: &Selector, keep: bool) -> (r: (Vec<CovSubscription>, usize))
    ensures
        views(r.0@) == views(subs@).filter(matching(*sel, keep)),
        r.1 == subs@.len() - r.0@.len(),
{
    let ghost all = views(subs@);
    let mut out: Vec<CovSubscription> = Vec::new();
    let mut i: usize = 0;
    while i < subs.len()
        invariant
            i <= subs@.len(),
            all == views(subs@),
            views(out@) == all.take(i as int).filter(matching(*sel, keep)),
            out@.len() <= i,
        decreases subs@.len() - i,
    {
        proof {
            assert(all.take(i as int + 1) =~= all.take(i as int).push(all[i as int]));
            all.take(i as int).lemma_filter_push(all[i as int], matching(*sel, keep));
        }
        if is_selected(sel, &subs[i]) == keep {
            let ghost before = out@;
            out.push(subs[i].duplicate());
            assert(views(out@) =~= views(before).push(all[i as int]));
        }
        i = i + 1;
    }
    assert(all.take(i as int) =~= all);
    let dropped = subs.len() - out.len();
    (out, dropped)
}

/// Position of the subscription with the given identity.
fn find_key(
    subs: &Vec<CovSubscription>,
    mac: &[u8],
    network: Option<&NpduAddress>,
    process_id: u32,
    monitored_object: ObjectIdentifier,
    monitored_property: Option<u32>,
) -> (r: Option<usize>)
    requires
        keys_unique(views(subs@)),
    ensures
        r is Some <==> has_key(views(subs@), (mac@, opt_ref_view(network), process_id, monitored_object, monitored_property)),
        r matches Some(i) ==> i == key_index(views(subs@), (mac@, opt_ref_view(network), process_id, monitored_object, monitored_property))
            && key_at(views(subs@), (mac@, opt_ref_view(network), process_id, monitored_object, monitored_property), i as int),
{
    let ghost k = (mac@, opt_ref_view(network), process_id, monitored_object, monitored_property);
    let ghost all = views(subs@);
    let mut i: usize = 0;
    while i < subs.len()
        invariant
            i <= subs@.len(),
            all == views(subs@),
            k == (mac@, opt_ref_view(network), process_id, monitored_object, monitored_property),
            keys_unique(all),
            forall|j: int| 0 <= j < i ==> sub_key(#[trigger] all[j]) != k,
        decreases subs@.len() - i,
    {
        if subs[i].has_key(mac, network, process_id, monitored_object, monitored_property) {
            proof {
                assert(key_at(all, k, i as int));
                let c = key_index(all, k);
                assert(key_at(all, k, c));
                if c < i as int {
                    assert(sub_key(all[c]) != sub_key(all[i as int]));
                } else if c > i as int {
                    assert(sub_key(all[i as int]) != sub_key(all[c]));
                }
            }
            return Some(i);
        }
        i = i + 1;
    }
    None
}


// ----------------------------------------------------------------------------
// The table
// ----------------------------------------------------------------------------

/// Outcome of an admission check.
#[derive(Clone, Copy, Debug, PartialEq, Eq, Structural)]
pub enum AdmissionVerdict {
    /// The request fits every quota.
    Admitted,
    /// Indefinite lifetimes are not accepted.
    IndefiniteUnsupported,
    /// The peer's indefinite quota would be exceeded.
    IndefiniteQuota,
    /// The peer's quota would be exceeded.
    PeerQuota,
    /// The table's global capacity would be exceeded.
    GlobalCapacity,
    /// The capacity open to unreserved peers would be exceeded.
    UnreservedCapacity,
}

/// Verdict on adding `new_count` subscriptions, `new_indefinite` of them
/// without an expiry, for `peer` to the live subscriptions `subs`.
pub open spec fn admission_verdict(
    subs: Seq<CovSubscriptionView>,
    policy: CovPolicy,
    peer: (Option<u16>, Seq<u8>),
    new_count: nat,
    new_indefinite: nat,
) -> AdmissionVerdict {
    if new_indefinite > 0 && !policy.allow_indefinite_subscriptions {
        AdmissionVerdict::IndefiniteUnsupported
    } else if new_indefinite > 0 && subs.filter(indefinite_of_peer(peer)).len() + new_indefinite
        > policy.max_indefinite_per_peer {
        AdmissionVerdict::IndefiniteQuota
    } else if new_count == 0 {
        AdmissionVerdict::Admitted
    } else if subs.filter(of_peer(peer)).len() + new_count > policy.max_subscriptions_per_peer {
        AdmissionVerdict::PeerQuota
    } else if subs.len() + new_count > policy.max_subscriptions_global {
        AdmissionVerdict::GlobalCapacity
    } else if !reserves(policy, peer) && subs.len() + new_count > unreserved_capacity(policy) {
        AdmissionVerdict::UnreservedCapacity
    } else {
        AdmissionVerdict::Admitted
    }
}

/// The error a refused admission is answered with.
pub open spec fn verdict_error(v: AdmissionVerdict) -> Error {
    if v == AdmissionVerdict::IndefiniteUnsupported {
        Error::Protocol { class: ERROR_CLASS_SERVICES, code: ERROR_CODE_OPTIONAL_FUNCTIONALITY_NOT_SUPPORTED }
    } else {
        Error::Protocol { class: ERROR_CLASS_RESOURCES, code: ERROR_CODE_NO_SPACE_TO_ADD_LIST_ELEMENT }
    }
}

/// Counters after an admission check with verdict `v`.
pub open spec fn counters_after_verdict(c: CovCounters, v: AdmissionVerdict) -> CovCounters {
    match v {
        AdmissionVerdict::Admitted => c,
        AdmissionVerdict::IndefiniteUnsupported | AdmissionVerdict::IndefiniteQuota => CovCounters {
            subscriptions_rejected_indefinite: wrap_add(c.subscriptions_rejected_indefinite, 1),
            ..c
        },
        AdmissionVerdict::PeerQuota => CovCounters {
            subscriptions_rejected_quota: wrap_add(c.subscriptions_rejected_quota, 1),
            ..c
        },
        AdmissionVerdict::GlobalCapacity | AdmissionVerdict::UnreservedCapacity => CovCounters {
            subscriptions_rejected_capacity: wrap_add(c.subscriptions_rejected_capacity, 1),
            ..c
        },
    }
}

/// Counters after `removed` subscriptions left a table of `len`, counted as
/// cancelled when `cancelled`.
pub open spec fn counters_after_removal(c: CovCounters, removed: nat, len: nat, cancelled: bool) -> CovCounters {
    if removed == 0 {
        c
    } else {
        CovCounters {
            subscriptions_cancelled: if cancelled {
                wrap_add(c.subscriptions_cancelled, removed as u64)
            } else {
                c.subscriptions_cancelled
            },
            subscriptions_active: len as u64,
            ..c
        }
    }
}

/// Counters after purging `removed` expired subscriptions from a table,
/// leaving `len`.
pub open spec fn counters_after_purge(c: CovCounters, removed: nat, len: nat) -> CovCounters {
    if removed == 0 {
        c
    } else {
        CovCounters {
            subscriptions_purged: wrap_add(c.subscriptions_purged, removed as u64),
            subscriptions_active: len as u64,
            ..c
        }
    }
}

/// Table of active COV subscriptions.
#[derive(Debug)]
pub struct CovSubscriptionTable {
    subs: Vec<CovSubscription>,
    policy: CovPolicy,
    counters: CovCounters,
    dispatch_turn: usize,
}

impl Default for CovSubscriptionTable {
    fn default() -> (r: CovSubscriptionTable)
        ensures
            r.entries().len() == 0,
            r.counters_view() == zero_counters(),
            r.turn_view() == 0,
            r.policy_view().max_subscriptions_global == DEFAULT_MAX_SUBSCRIPTIONS_GLOBAL,
            r.policy_view().max_subscriptions_per_peer == DEFAULT_MAX_SUBSCRIPTIONS_PER_PEER,
            r.policy_view().max_indefinite_per_peer == DEFAULT_MAX_INDEFINITE_PER_PEER,
            r.policy_view().allow_indefinite_subscriptions,
            r.policy_view().reserved_capacity == 0,
            r.policy_view().reserved_peers@.len() == 0,
            r.policy_view().reserved_peer_keys@.len() == 0,
    {
        CovSubscriptionTable::new()
    }
}

impl CovSubscriptionTable {
    #[verifier::type_invariant]
    closed spec fn well_formed(&self) -> bool {
        keys_unique(views(self.subs@))
    }

    /// The subscriptions, in the order they were first added.
    pub closed spec fn entries(&self) -> Seq<CovSubscriptionView> {
        views(self.subs@)
    }

    /// The quota policy.
    pub closed spec fn policy_view(&self) -> CovPolicy {
        self.policy
    }

    /// The activity counters.
    pub closed spec fn counters_view(&self) -> CovCounters {
        self.counters
    }

    /// The notification dispatch turn.
    pub closed spec fn turn_view(&self) -> usize {
        self.dispatch_turn
    }

    /// An empty table with the default policy.
    pub fn new() -> (r: CovSubscriptionTable)
        ensures
            r.entries().len() == 0,
            r.counters_view() == zero_counters(),
            r.turn_view() == 0,
            r.policy_view().max_subscriptions_global == DEFAULT_MAX_SUBSCRIPTIONS_GLOBAL,
            r.policy_view().max_subscriptions_per_peer == DEFAULT_MAX_SUBSCRIPTIONS_PER_PEER,
            r.policy_view().max_indefinite_per_peer == DEFAULT_MAX_INDEFINITE_PER_PEER,
            r.policy_view().allow_indefinite_subscriptions,
            r.policy_view().reserved_capacity == 0,
            r.policy_view().reserved_peers@.len() == 0,
            r.policy_view().reserved_peer_keys@.len() == 0,
    {
        CovSubscriptionTable::with_policy(CovPolicy::default())
    }

    /// An empty table with `policy`.
    pub fn with_policy(policy: CovPolicy) -> (r: CovSubscriptionTable)
        ensures
            r.entries().len() == 0,
            r.policy_view() == policy,
            r.counters_view() == zero_counters(),
            r.turn_view() == 0,
    {
        let r = CovSubscriptionTable { subs: Vec::new(), policy, counters: CovCounters::new(), dispatch_turn: 0 };
        assert(r.entries() =~= Seq::<CovSubscriptionView>::empty());
        r
    }

    /// The next notification dispatch turn; the counter wraps.
    pub fn next_dispatch_turn(&mut self) -> (r: usize)
        ensures
            r == old(self).turn_view(),
            final(self).turn_view() == (if old(self).turn_view() == usize::MAX {
                0
            } else {
                (old(self).turn_view() + 1) as usize
            }),
            final(self).entries() == old(self).entries(),
            final(self).policy_view() == old(self).policy_view(),
            final(self).counters_view() == old(self).counters_view(),
    {
        proof {
            use_type_invariant(&*self);
        }
        let turn = self.dispatch_turn;
        self.dispatch_turn = if turn == usize::MAX {
            0
        } else {
            turn + 1
        };
        turn
    }

    /// The active policy.
    pub fn policy(&self) -> (r: &CovPolicy)
        ensures
            *r == self.policy_view(),
    {
        &self.policy
    }

    /// A snapshot of the activity counters.
    pub fn counters(&self) -> (r: CovCounters)
        ensures
            r == self.counters_view(),
    {
        self.counters
    }

    /// Number of active subscriptions of `peer`.
    pub fn peer_subscription_count(&self, peer: &CovPeerKey) -> (r: usize)
        ensures
            r == self.entries().filter(of_peer(peer@)).len(),
    {
        let sel = Selector::Peer(CovPeerKey { network: peer.network, mac: copy_mac(peer.mac.as_slice()) });
        let r = count_selected(&self.subs, &sel);
        assert(chosen(sel) =~= of_peer(peer@));
        r
    }

    /// Number of active subscriptions of `peer` without an expiry.
    pub fn peer_indefinite_count(&self, peer: &CovPeerKey) -> (r: usize)
        ensures
            r == self.entries().filter(indefinite_of_peer(peer@)).len(),
    {
        let sel = Selector::PeerIndefinite(CovPeerKey { network: peer.network, mac: copy_mac(peer.mac.as_slice()) });
        let r = count_selected(&self.subs, &sel);
        assert(chosen(sel) =~= indefinite_of_peer(peer@));
        r
    }

    /// Number of active subscriptions.
    pub fn len(&self) -> (r: usize)
        ensures
            r == self.entries().len(),
    {
        self.subs.len()
    }

    /// Whether the table holds no subscription.
    pub fn is_empty(&self) -> (r: bool)
        ensures
            r == (self.entries().len() == 0),
    {
        self.subs.len() == 0
    }

    /// Moves the subscriptions out, leaving the table empty.
    fn take_subs(&mut self) -> (r: Vec<CovSubscription>)
        ensures
            views(r@) == old(self).entries(),
            keys_unique(views(r@)),
            final(self).entries().len() == 0,
            final(self).policy_view() == old(self).policy_view(),
            final(self).counters_view() == old(self).counters_view(),
            final(self).turn_view() == old(self).turn_view(),
    {
        proof {
            use_type_invariant(&*self);
        }
        let mut v: Vec<CovSubscription> = Vec::new();
        assert(views(v@) =~= Seq::<CovSubscriptionView>::empty());
        std::mem::swap(&mut v, &mut self.subs);
        v
    }

    /// Puts `v` in as the subscriptions.
    fn put_subs(&mut self, v: Vec<CovSubscription>)
        requires
            keys_unique(views(v@)),
        ensures
            final(self).entries() == views(v@),
            final(self).policy_view() == old(self).policy_view(),
            final(self).counters_view() == old(self).counters_view(),
            final(self).turn_view() == old(self).turn_view(),
    {
        self.subs = v;
    }
}


/// The subscriptions of `subs` still alive at `now`.
pub open spec fn purged(subs: Seq<CovSubscriptionView>, now: u64) -> Seq<CovSubscriptionView> {
    subs.filter(live_at(now))
}

/// Verdict on one subscription request: `existing` is the subscription the
/// request would replace, if any.
pub open spec fn single_verdict(
    subs: Seq<CovSubscriptionView>,
    policy: CovPolicy,
    peer: (Option<u16>, Seq<u8>),
    is_indefinite: bool,
    existing: Option<CovSubscriptionView>,
) -> AdmissionVerdict {
    if is_indefinite && !policy.allow_indefinite_subscriptions {
        AdmissionVerdict::IndefiniteUnsupported
    } else {
        match existing {
            Some(old) => admission_verdict(
                subs,
                policy,
                peer,
                0,
                if is_indefinite && old.expires_at is Some {
                    1
                } else {
                    0
                },
            ),
            None => admission_verdict(
                subs,
                policy,
                peer,
                1,
                if is_indefinite {
                    1
                } else {
                    0
                },
            ),
        }
    }
}

impl CovSubscriptionTable {
    /// Adds `sub`, or replaces the subscription with the same identity.
    pub fn subscribe(&mut self, sub: CovSubscription)
        ensures
            final(self).entries() == after_subscribe(old(self).entries(), sub@),
            final(self).counters_view() == (CovCounters {
                subscriptions_created: if has_key(old(self).entries(), sub_key(sub@)) {
                    old(self).counters_view().subscriptions_created
                } else {
                    wrap_add(old(self).counters_view().subscriptions_created, 1)
                },
                subscriptions_active: final(self).entries().len() as u64,
                ..old(self).counters_view()
            }),
            final(self).policy_view() == old(self).policy_view(),
            final(self).turn_view() == old(self).turn_view(),
    {
        let ghost before = self.entries();
        let ghost sv = sub@;
        let mut subs = self.take_subs();
        let found = find_key(
            &subs,
            sub.subscriber_mac.as_slice(),
            sub.subscriber_network.as_ref(),
            sub.subscriber_process_identifier,
            sub.monitored_object_identifier,
            sub.monitored_property,
        );
        let created = found.is_none();
        match found {
            Some(i) => {
                let ghost vs = subs@;
                subs[i] = sub;
                proof {
                    assert(views(subs@) =~= views(vs).update(i as int, sv));
                    let u = views(subs@);
                    assert forall|a: int, b: int| 0 <= a < b < u.len() implies sub_key(#[trigger] u[a]) != sub_key(#[trigger] u[b]) by {
                        if a == i as int {
                            assert(sub_key(u[a]) == sub_key(before[a]));
                            assert(u[b] == before[b]);
                        } else if b == i as int {
                            assert(sub_key(u[b]) == sub_key(before[b]));
                            assert(u[a] == before[a]);
                        } else {
                            assert(u[a] == before[a] && u[b] == before[b]);
                        }
                    }
                }
            },
            None => {
                let ghost vs = subs@;
                subs.push(sub);
                proof {
                    assert(views(subs@) =~= views(vs).push(sv));
                    let u = views(subs@);
                    assert forall|a: int, b: int| 0 <= a < b < u.len() implies sub_key(#[trigger] u[a]) != sub_key(#[trigger] u[b]) by {
                        if b == u.len() - 1 {
                            assert(u[a] == before[a] && u[b] == sv);
                            assert(!key_at(before, sub_key(sv), a));
                        } else {
                            assert(u[a] == before[a] && u[b] == before[b]);
                        }
                    }
                }
            },
        }
        let active = subs.len() as u64;
        self.put_subs(subs);
        proof {
            use_type_invariant(&*self);
        }
        if created {
            self.counters.subscriptions_created = self.counters.subscriptions_created.wrapping_add(1);
        }
        self.counters.subscriptions_active = active;
    }

    /// The subscription with the given identity, if present.
    pub fn get_subscription(
        &self,
        mac: &[u8],
        network: Option<&NpduAddress>,
        process_id: u32,
        monitored_object: ObjectIdentifier,
        monitored_property: Option<u32>,
    ) -> (r: Option<&CovSubscription>)
        ensures
            r is Some <==> has_key(self.entries(), (mac@, opt_ref_view(network), process_id, monitored_object, monitored_property)),
            r matches Some(s) ==> s@ == self.entries()[key_index(
                self.entries(),
                (mac@, opt_ref_view(network), process_id, monitored_object, monitored_property),
            )],
    {
        proof {
            use_type_invariant(self);
        }
        match find_key(&self.subs, mac, network, process_id, monitored_object, monitored_property) {
            Some(i) => Some(&self.subs[i]),
            None => None,
        }
    }

    /// Whether a subscription with the given identity is present.
    pub fn contains(
        &self,
        mac: &[u8],
        network: Option<&NpduAddress>,
        process_id: u32,
        monitored_object: ObjectIdentifier,
        monitored_property: Option<u32>,
    ) -> (r: bool)
        ensures
            r == has_key(self.entries(), (mac@, opt_ref_view(network), process_id, monitored_object, monitored_property)),
    {
        self.get_subscription(mac, network, process_id, monitored_object, monitored_property).is_some()
    }

    /// Removes the subscription with the given identity; counts it as
    /// cancelled when `was_cancelled`.
    fn remove_internal(
        &mut self,
        mac: &[u8],
        network: Option<&NpduAddress>,
        process_id: u32,
        monitored_object: ObjectIdentifier,
        monitored_property: Option<u32>,
        was_cancelled: bool,
    ) -> (r: bool)
        ensures
            r == has_key(old(self).entries(), (mac@, opt_ref_view(network), process_id, monitored_object, monitored_property)),
            final(self).entries() == after_remove(
                old(self).entries(),
                (mac@, opt_ref_view(network), process_id, monitored_object, monitored_property),
            ),
            final(self).counters_view() == counters_after_removal(
                old(self).counters_view(),
                if r {
                    1
                } else {
                    0
                },
                final(self).entries().len(),
                was_cancelled,
            ),
            final(self).policy_view() == old(self).policy_view(),
            final(self).turn_view() == old(self).turn_view(),
    {
        let ghost before = self.entries();
        let mut subs = self.take_subs();
        match find_key(&subs, mac, network, process_id, monitored_object, monitored_property) {
            Some(i) => {
                let ghost vs = subs@;
                let _gone = subs.remove(i);
                proof {
                    assert(views(subs@) =~= views(vs).remove(i as int));
                    let u = views(subs@);
                    assert forall|a: int, b: int| 0 <= a < b < u.len() implies sub_key(#[trigger] u[a]) != sub_key(#[trigger] u[b]) by {
                        if b < i as int {
                            assert(u[a] == before[a] && u[b] == before[b]);
                        } else if a < i as int {
                            assert(u[a] == before[a] && u[b] == before[b + 1]);
                        } else {
                            assert(u[a] == before[a + 1] && u[b] == before[b + 1]);
                        }
                    }
                }
                let active = subs.len() as u64;
                self.put_subs(subs);
                proof {
                    use_type_invariant(&*self);
                }
                if was_cancelled {
                    self.counters.subscriptions_cancelled = self.counters.subscriptions_cancelled.wrapping_add(1);
                }
                self.counters.subscriptions_active = active;
                true
            },
            None => {
                self.put_subs(subs);
                false
            },
        }
    }

    /// Removes the whole-object subscription of a directly connected
    /// subscriber.
    pub fn unsubscribe(&mut self, mac: &[u8], process_id: u32, monitored_object: ObjectIdentifier) -> (r: bool)
        ensures
            r == has_key(old(self).entries(), (mac@, None::<(u16, Seq<u8>)>, process_id, monitored_object, None::<u32>)),
            final(self).entries() == after_remove(
                old(self).entries(),
                (mac@, None::<(u16, Seq<u8>)>, process_id, monitored_object, None::<u32>),
            ),
            final(self).counters_view() == counters_after_removal(
                old(self).counters_view(),
                if r {
                    1
                } else {
                    0
                },
                final(self).entries().len(),
                true,
            ),
            final(self).policy_view() == old(self).policy_view(),
            final(self).turn_view() == old(self).turn_view(),
    {
        self.unsubscribe_at(mac, None, process_id, monitored_object)
    }

    /// Removes the whole-object subscription of a subscriber endpoint.
    pub fn unsubscribe_at(
        &mut self,
        mac: &[u8],
        network: Option<&NpduAddress>,
        process_id: u32,
        monitored_object: ObjectIdentifier,
    ) -> (r: bool)
        ensures
            r == has_key(old(self).entries(), (mac@, opt_ref_view(network), process_id, monitored_object, None::<u32>)),
            final(self).entries() == after_remove(
                old(self).entries(),
                (mac@, opt_ref_view(network), process_id, monitored_object, None::<u32>),
            ),
            final(self).counters_view() == counters_after_removal(
                old(self).counters_view(),
                if r {
                    1
                } else {
                    0
                },
                final(self).entries().len(),
                true,
            ),
            final(self).policy_view() == old(self).policy_view(),
            final(self).turn_view() == old(self).turn_view(),
    {
        self.remove_internal(mac, network, process_id, monitored_object, None, true)
    }

    /// Removes the per-property subscription of a directly connected
    /// subscriber.
    pub fn unsubscribe_property(
        &mut self,
        mac: &[u8],
        process_id: u32,
        monitored_object: ObjectIdentifier,
        monitored_property: u32,
    ) -> (r: bool)
        ensures
            r == has_key(
                old(self).entries(),
                (mac@, None::<(u16, Seq<u8>)>, process_id, monitored_object, Some(monitored_property)),
            ),
            final(self).entries() == after_remove(
                old(self).entries(),
                (mac@, None::<(u16, Seq<u8>)>, process_id, monitored_object, Some(monitored_property)),
            ),
            final(self).counters_view() == counters_after_removal(
                old(self).counters_view(),
                if r {
                    1
                } else {
                    0
                },
                final(self).entries().len(),
                true,
            ),
            final(self).policy_view() == old(self).policy_view(),
            final(self).turn_view() == old(self).turn_view(),
    {
        self.unsubscribe_property_at(mac, None, process_id, monitored_object, monitored_property)
    }

    /// Removes the per-property subscription of a subscriber endpoint.
    pub fn unsubscribe_property_at(
        &mut self,
        mac: &[u8],
        network: Option<&NpduAddress>,
        process_id: u32,
        monitored_object: ObjectIdentifier,
        monitored_property: u32,
    ) -> (r: bool)
        ensures
            r == has_key(
                old(self).entries(),
                (mac@, opt_ref_view(network), process_id, monitored_object, Some(monitored_property)),
            ),
            final(self).entries() == after_remove(
                old(self).entries(),
                (mac@, opt_ref_view(network), process_id, monitored_object, Some(monitored_property)),
            ),
            final(self).counters_view() == counters_after_removal(
                old(self).counters_view(),
                if r {
                    1
                } else {
                    0
                },
                final(self).entries().len(),
                true,
            ),
            final(self).policy_view() == old(self).policy_view(),
            final(self).turn_view() == old(self).turn_view(),
    {
        self.remove_internal(mac, network, process_id, monitored_object, Some(monitored_property), true)
    }
}


impl CovSubscriptionTable {
    /// Removes every subscription that `sel` selects; returns how many.
    fn remove_selected(&mut self, sel: &Selector) -> (r: usize)
        ensures
            final(self).entries() == old(self).entries().filter(matching(*sel, false)),
            r == old(self).entries().len() - final(self).entries().len(),
            final(self).policy_view() == old(self).policy_view(),
            final(self).counters_view() == old(self).counters_view(),
            final(self).turn_view() == old(self).turn_view(),
    {
        let subs = self.take_subs();
        let (kept, removed) = filter_by(&subs, sel, false);
        proof {
            lemma_filter_keeps_unique(views(subs@), matching(*sel, false));
        }
        self.put_subs(kept);
        removed
    }

    /// Records `removed` removals in the counters.
    fn note_removals(&mut self, removed: usize, cancelled: bool)
        ensures
            final(self).counters_view() == counters_after_removal(
                old(self).counters_view(),
                removed as nat,
                old(self).entries().len(),
                cancelled,
            ),
            final(self).entries() == old(self).entries(),
            final(self).policy_view() == old(self).policy_view(),
            final(self).turn_view() == old(self).turn_view(),
    {
        proof {
            use_type_invariant(&*self);
        }
        if removed > 0 {
            if cancelled {
                self.counters.subscriptions_cancelled = self.counters.subscriptions_cancelled.wrapping_add(
                    removed as u64,
                );
            }
            self.counters.subscriptions_active = self.subs.len() as u64;
        }
    }

    /// Removes every COV-multiple subscription of a subscriber context.
    pub fn unsubscribe_cov_multiple_context(
        &mut self,
        mac: &[u8],
        network: Option<&NpduAddress>,
        process_id: u32,
        confirmed: bool,
    )
        ensures
            final(self).entries() == old(self).entries().filter(
                outside_multiple_context(mac@, opt_ref_view(network), process_id, confirmed),
            ),
            final(self).counters_view() == counters_after_removal(
                old(self).counters_view(),
                (old(self).entries().len() - final(self).entries().len()) as nat,
                final(self).entries().len(),
                true,
            ),
            final(self).policy_view() == old(self).policy_view(),
            final(self).turn_view() == old(self).turn_view(),
    {
        let sel = Selector::MultipleContext {
            mac: copy_mac(mac),
            network: duplicate_opt_address(network),
            process_id,
            confirmed,
        };
        let removed = self.remove_selected(&sel);
        assert(matching(sel, false) =~= outside_multiple_context(mac@, opt_ref_view(network), process_id, confirmed));
        self.note_removals(removed, true);
    }

    /// Removes one object property from a COV-multiple subscriber context.
    pub fn unsubscribe_cov_multiple_property_at(
        &mut self,
        mac: &[u8],
        network: Option<&NpduAddress>,
        process_id: u32,
        confirmed: bool,
        monitored_object: ObjectIdentifier,
        monitored_property: u32,
    )
        ensures
            final(self).entries() == old(self).entries().filter(
                outside_multiple_property(
                    mac@,
                    opt_ref_view(network),
                    process_id,
                    confirmed,
                    monitored_object,
                    monitored_property,
                ),
            ),
            final(self).counters_view() == counters_after_removal(
                old(self).counters_view(),
                (old(self).entries().len() - final(self).entries().len()) as nat,
                final(self).entries().len(),
                true,
            ),
            final(self).policy_view() == old(self).policy_view(),
            final(self).turn_view() == old(self).turn_view(),
    {
        let sel = Selector::MultipleProperty {
            mac: copy_mac(mac),
            network: duplicate_opt_address(network),
            process_id,
            confirmed,
            oid: monitored_object,
            property: monitored_property,
        };
        let removed = self.remove_selected(&sel);
        assert(matching(sel, false) =~= outside_multiple_property(
            mac@,
            opt_ref_view(network),
            process_id,
            confirmed,
            monitored_object,
            monitored_property,
        ));
        self.note_removals(removed, true);
    }

    /// Sets the expiry of every COV-multiple subscription of a subscriber
    /// context to `expires_at`.
    pub fn refresh_cov_multiple_context_lifetime(
        &mut self,
        mac: &[u8],
        network: Option<&NpduAddress>,
        process_id: u32,
        confirmed: bool,
        expires_at: Option<u64>,
    )
        ensures
            final(self).entries().len() == old(self).entries().len(),
            forall|i: int|
                0 <= i < old(self).entries().len() ==> #[trigger] final(self).entries()[i] == refreshed(
                    old(self).entries()[i],
                    mac@,
                    opt_ref_view(network),
                    process_id,
                    confirmed,
                    expires_at,
                ),
            final(self).counters_view() == old(self).counters_view(),
            final(self).policy_view() == old(self).policy_view(),
            final(self).turn_view() == old(self).turn_view(),
    {
        let ghost before = self.entries();
        let mut subs = self.take_subs();
        let mut i: usize = 0;
        while i < subs.len()
            invariant
                i <= subs@.len(),
                subs@.len() == before.len(),
                before == old(self).entries(),
                keys_unique(before),
                forall|k: int| 0 <= k < subs@.len() ==> sub_key(#[trigger] views(subs@)[k]) == sub_key(before[k]),
                forall|k: int| 0 <= k < i ==> #[trigger] views(subs@)[k] == refreshed(before[k], mac@, opt_ref_view(network), process_id, confirmed, expires_at),
                forall|k: int| i <= k < subs@.len() ==> #[trigger] views(subs@)[k] == before[k],
            decreases subs@.len() - i,
        {
            if in_context(&subs[i], mac, network, process_id, confirmed) {
                let mut s = subs[i].duplicate();
                s.expires_at = expires_at;
                let ghost vs = subs@;
                subs[i] = s;
                proof {
                    assert forall|k: int| 0 <= k < subs@.len() implies sub_key(#[trigger] views(subs@)[k]) == sub_key(before[k]) by {
                        if k != i as int {
                            assert(views(subs@)[k] == views(vs)[k]);
                        }
                    }
                    assert forall|k: int| 0 <= k < i + 1 implies #[trigger] views(subs@)[k] == refreshed(before[k], mac@, opt_ref_view(network), process_id, confirmed, expires_at) by {
                        if k != i as int {
                            assert(views(subs@)[k] == views(vs)[k]);
                        } else {
                            assert(views(subs@)[k] =~= refreshed(before[k], mac@, opt_ref_view(network), process_id, confirmed, expires_at));
                        }
                    }
                    assert forall|k: int| i + 1 <= k < subs@.len() implies #[trigger] views(subs@)[k] == before[k] by {
                        assert(views(subs@)[k] == views(vs)[k]);
                    }
                }
            } else {
                proof {
                    assert(views(subs@)[i as int] == refreshed(before[i as int], mac@, opt_ref_view(network), process_id, confirmed, expires_at));
                }
            }
            i = i + 1;
        }
        proof {
            let u = views(subs@);
            assert forall|a: int, b: int| 0 <= a < b < u.len() implies sub_key(#[trigger] u[a]) != sub_key(#[trigger] u[b]) by {
                assert(sub_key(u[a]) == sub_key(before[a]));
                assert(sub_key(u[b]) == sub_key(before[b]));
            }
        }
        self.put_subs(subs);
    }

    /// Removes every subscription of `oid` (the object was deleted).
    pub fn remove_for_object(&mut self, oid: ObjectIdentifier)
        ensures
            final(self).entries() == old(self).entries().filter(off_object(oid)),
            final(self).counters_view() == counters_after_removal(
                old(self).counters_view(),
                (old(self).entries().len() - final(self).entries().len()) as nat,
                final(self).entries().len(),
                false,
            ),
            final(self).policy_view() == old(self).policy_view(),
            final(self).turn_view() == old(self).turn_view(),
    {
        let sel = Selector::Object(oid);
        let removed = self.remove_selected(&sel);
        assert(matching(sel, false) =~= off_object(oid));
        self.note_removals(removed, false);
    }

    /// Removes every subscription of the peer at `mac` (routed through
    /// `network` when given) and returns how many there were.
    pub fn remove_peer_subscriptions(&mut self, mac: &[u8], network: Option<&NpduAddress>) -> (r: usize)
        ensures
            final(self).entries() == old(self).entries().filter(
                not_of_peer(endpoint_peer(mac@, opt_ref_view(network))),
            ),
            r == old(self).entries().len() - final(self).entries().len(),
            final(self).counters_view() == counters_after_removal(
                old(self).counters_view(),
                r as nat,
                final(self).entries().len(),
                true,
            ),
            final(self).policy_view() == old(self).policy_view(),
            final(self).turn_view() == old(self).turn_view(),
    {
        let target = CovPeerKey::from_endpoint(mac, network);
        let sel = Selector::Peer(target);
        let removed = self.remove_selected(&sel);
        assert(matching(sel, false) =~= not_of_peer(endpoint_peer(mac@, opt_ref_view(network))));
        self.note_removals(removed, true);
        removed
    }

    /// Removes every subscription expired at `now` and returns how many.
    pub fn purge_expired(&mut self, now: u64) -> (r: usize)
        ensures
            final(self).entries() == purged(old(self).entries(), now),
            r == old(self).entries().len() - final(self).entries().len(),
            final(self).counters_view() == counters_after_purge(
                old(self).counters_view(),
                r as nat,
                final(self).entries().len(),
            ),
            final(self).policy_view() == old(self).policy_view(),
            final(self).turn_view() == old(self).turn_view(),
    {
        let sel = Selector::Expired(now);
        let removed = self.remove_selected(&sel);
        assert(matching(sel, false) =~= live_at(now));
        proof {
            use_type_invariant(&*self);
        }
        if removed > 0 {
            self.counters.subscriptions_purged = self.counters.subscriptions_purged.wrapping_add(removed as u64);
            self.counters.subscriptions_active = self.subs.len() as u64;
        }
        removed
    }

    /// Purges what expired at `now`, then returns copies of the subscriptions
    /// monitoring `oid`, in table order.
    pub fn subscriptions_for(&mut self, oid: &ObjectIdentifier, now: u64) -> (r: Vec<CovSubscription>)
        ensures
            final(self).entries() == purged(old(self).entries(), now),
            views(r@) == final(self).entries().filter(on_object(*oid)),
            final(self).counters_view() == counters_after_purge(
                old(self).counters_view(),
                (old(self).entries().len() - final(self).entries().len()) as nat,
                final(self).entries().len(),
            ),
            final(self).policy_view() == old(self).policy_view(),
            final(self).turn_view() == old(self).turn_view(),
    {
        self.purge_expired(now);
        let sel = Selector::Object(*oid);
        let (found, _rest) = filter_by(&self.subs, &sel, true);
        assert(matching(sel, true) =~= on_object(*oid));
        found
    }
}


impl CovSubscriptionTable {
    /// Applies the quotas to the current subscriptions, counting a refusal.
    fn decide_admission(&mut self, peer: &CovPeerKey, new_count: usize, new_indefinite: usize) -> (r: Result<(), Error>)
        ensures
            r is Ok <==> admission_verdict(old(self).entries(), old(self).policy_view(), peer@, new_count as nat, new_indefinite as nat)
                == AdmissionVerdict::Admitted,
            r matches Err(e) ==> e == verdict_error(
                admission_verdict(old(self).entries(), old(self).policy_view(), peer@, new_count as nat, new_indefinite as nat),
            ),
            final(self).counters_view() == counters_after_verdict(
                old(self).counters_view(),
                admission_verdict(old(self).entries(), old(self).policy_view(), peer@, new_count as nat, new_indefinite as nat),
            ),
            final(self).entries() == old(self).entries(),
            final(self).policy_view() == old(self).policy_view(),
            final(self).turn_view() == old(self).turn_view(),
    {
        proof {
            use_type_invariant(&*self);
        }
        if new_indefinite > 0 {
            if !self.policy.allow_indefinite_subscriptions {
                self.counters.subscriptions_rejected_indefinite = self.counters.subscriptions_rejected_indefinite.wrapping_add(1);
                return Err(
                    Error::Protocol { class: ERROR_CLASS_SERVICES, code: ERROR_CODE_OPTIONAL_FUNCTIONALITY_NOT_SUPPORTED },
                );
            }
            let current_indefinite = self.peer_indefinite_count(peer);
            let max = self.policy.max_indefinite_per_peer;
            if new_indefinite > max || current_indefinite > max - new_indefinite {
                self.counters.subscriptions_rejected_indefinite = self.counters.subscriptions_rejected_indefinite.wrapping_add(1);
                return Err(
                    Error::Protocol { class: ERROR_CLASS_RESOURCES, code: ERROR_CODE_NO_SPACE_TO_ADD_LIST_ELEMENT },
                );
            }
        }
        if new_count == 0 {
            return Ok(());
        }
        let current_peer = self.peer_subscription_count(peer);
        let max_peer = self.policy.max_subscriptions_per_peer;
        if new_count > max_peer || current_peer > max_peer - new_count {
            self.counters.subscriptions_rejected_quota = self.counters.subscriptions_rejected_quota.wrapping_add(1);
            return Err(Error::Protocol { class: ERROR_CLASS_RESOURCES, code: ERROR_CODE_NO_SPACE_TO_ADD_LIST_ELEMENT });
        }
        let len = self.subs.len();
        let global = self.policy.max_subscriptions_global;
        if new_count > global || len > global - new_count {
            self.counters.subscriptions_rejected_capacity = self.counters.subscriptions_rejected_capacity.wrapping_add(1);
            return Err(Error::Protocol { class: ERROR_CLASS_RESOURCES, code: ERROR_CODE_NO_SPACE_TO_ADD_LIST_ELEMENT });
        }
        if !self.policy.is_peer_reserved(peer) {
            let unreserved = self.policy.effective_unreserved_capacity();
            if new_count > unreserved || len > unreserved - new_count {
                self.counters.subscriptions_rejected_capacity = self.counters.subscriptions_rejected_capacity.wrapping_add(1);
                return Err(
                    Error::Protocol { class: ERROR_CLASS_RESOURCES, code: ERROR_CODE_NO_SPACE_TO_ADD_LIST_ELEMENT },
                );
            }
        }
        Ok(())
    }

    /// Purges what expired at `now`, then checks whether `new_count` more
    /// subscriptions of `peer`, `new_indefinite` of them without an expiry,
    /// fit the policy's quotas. A refusal is counted and answered with the
    /// error of [`verdict_error`].
    pub fn check_admission_multiple(
        &mut self,
        peer: &CovPeerKey,
        new_count: usize,
        new_indefinite: usize,
        now: u64,
    ) -> (r: Result<(), Error>)
        ensures
            final(self).entries() == purged(old(self).entries(), now),
            r is Ok <==> admission_verdict(
                purged(old(self).entries(), now),
                old(self).policy_view(),
                peer@,
                new_count as nat,
                new_indefinite as nat,
            ) == AdmissionVerdict::Admitted,
            r matches Err(e) ==> e == verdict_error(
                admission_verdict(
                    purged(old(self).entries(), now),
                    old(self).policy_view(),
                    peer@,
                    new_count as nat,
                    new_indefinite as nat,
                ),
            ),
            final(self).counters_view() == counters_after_verdict(
                counters_after_purge(
                    old(self).counters_view(),
                    (old(self).entries().len() - final(self).entries().len()) as nat,
                    final(self).entries().len(),
                ),
                admission_verdict(
                    purged(old(self).entries(), now),
                    old(self).policy_view(),
                    peer@,
                    new_count as nat,
                    new_indefinite as nat,
                ),
            ),
            final(self).policy_view() == old(self).policy_view(),
            final(self).turn_view() == old(self).turn_view(),
    {
        self.purge_expired(now);
        self.decide_admission(peer, new_count, new_indefinite)
    }

    /// Purges what expired at `now`, then checks whether one subscription
    /// request of `peer` fits the policy; `existing` is the subscription it
    /// would replace, if any.
    pub fn check_admission(
        &mut self,
        peer: &CovPeerKey,
        is_indefinite: bool,
        existing: Option<&CovSubscription>,
        now: u64,
    ) -> (r: Result<(), Error>)
        ensures
            final(self).entries() == purged(old(self).entries(), now),
            r is Ok <==> single_verdict(
                purged(old(self).entries(), now),
                old(self).policy_view(),
                peer@,
                is_indefinite,
                match existing {
                    Some(x) => Some(x@),
                    None => None::<CovSubscriptionView>,
                },
            ) == AdmissionVerdict::Admitted,
            r matches Err(e) ==> e == verdict_error(
                single_verdict(
                    purged(old(self).entries(), now),
                    old(self).policy_view(),
                    peer@,
                    is_indefinite,
                    match existing {
                        Some(x) => Some(x@),
                        None => None::<CovSubscriptionView>,
                    },
                ),
            ),
            final(self).counters_view() == counters_after_verdict(
                counters_after_purge(
                    old(self).counters_view(),
                    (old(self).entries().len() - final(self).entries().len()) as nat,
                    final(self).entries().len(),
                ),
                single_verdict(
                    purged(old(self).entries(), now),
                    old(self).policy_view(),
                    peer@,
                    is_indefinite,
                    match existing {
                        Some(x) => Some(x@),
                        None => None::<CovSubscriptionView>,
                    },
                ),
            ),
            final(self).policy_view() == old(self).policy_view(),
            final(self).turn_view() == old(self).turn_view(),
    {
        self.purge_expired(now);
        proof {
            use_type_invariant(&*self);
        }
        if is_indefinite && !self.policy.allow_indefinite_subscriptions {
            self.counters.subscriptions_rejected_indefinite = self.counters.subscriptions_rejected_indefinite.wrapping_add(1);
            return Err(
                Error::Protocol { class: ERROR_CLASS_SERVICES, code: ERROR_CODE_OPTIONAL_FUNCTIONALITY_NOT_SUPPORTED },
            );
        }
        let (new_count, new_indefinite): (usize, usize) = match existing {
            Some(sub) => (0, if is_indefinite && sub.expires_at.is_some() {
                1
            } else {
                0
            }),
            None => (1, if is_indefinite {
                1
            } else {
                0
            }),
        };
        self.decide_admission(peer, new_count, new_indefinite)
    }
}


// ----------------------------------------------------------------------------
// Laws
// ----------------------------------------------------------------------------

/// Filtering twice by the same predicate filters once.
proof fn lemma_filter_idempotent(subs: Seq<CovSubscriptionView>, p: spec_fn(CovSubscriptionView) -> bool)
    ensures
        subs.filter(p).filter(p) == subs.filter(p),
    decreases subs.len(),
{
    reveal(Seq::filter);
    if subs.len() > 0 {
        let d = subs.drop_last();
        lemma_filter_idempotent(d, p);
        if p(subs.last()) {
            d.filter(p).lemma_filter_push(subs.last(), p);
        }
    }
}

/// Subscribing keeps identities unique; the table then holds the
/// subscription's identity, and grows by one exactly when the identity was
/// new (a re-subscription replaces in place).
pub proof fn lemma_subscribe_upserts(subs: Seq<CovSubscriptionView>, s: CovSubscriptionView)
    requires
        keys_unique(subs),
    ensures
        keys_unique(after_subscribe(subs, s)),
        has_key(after_subscribe(subs, s), sub_key(s)),
        after_subscribe(subs, s).len() == subs.len() + (if has_key(subs, sub_key(s)) {
            0int
        } else {
            1int
        }),
{
    let u = after_subscribe(subs, s);
    if has_key(subs, sub_key(s)) {
        let i = key_index(subs, sub_key(s));
        assert(key_at(subs, sub_key(s), i));
        assert(key_at(u, sub_key(s), i));
        assert forall|a: int, b: int| 0 <= a < b < u.len() implies sub_key(#[trigger] u[a]) != sub_key(#[trigger] u[b]) by {
            if a == i {
                assert(u[b] == subs[b]);
            } else if b == i {
                assert(u[a] == subs[a]);
            } else {
                assert(u[a] == subs[a] && u[b] == subs[b]);
            }
        }
    } else {
        assert(key_at(u, sub_key(s), subs.len() as int));
        assert forall|a: int, b: int| 0 <= a < b < u.len() implies sub_key(#[trigger] u[a]) != sub_key(#[trigger] u[b]) by {
            if b == subs.len() {
                assert(u[a] == subs[a]);
                assert(!key_at(subs, sub_key(s), a));
            } else {
                assert(u[a] == subs[a] && u[b] == subs[b]);
            }
        }
    }
}

/// Subscribing touches only its own identity: the table's subscription with
/// that identity is then exactly the new one, every other subscription stays,
/// and nothing else appears.
pub proof fn lemma_subscribe_replaces_only_its_identity(subs: Seq<CovSubscriptionView>, s: CovSubscriptionView)
    requires
        keys_unique(subs),
    ensures
        forall|i: int|
            0 <= i < after_subscribe(subs, s).len() && sub_key(#[trigger] after_subscribe(subs, s)[i]) == sub_key(s)
                ==> after_subscribe(subs, s)[i] == s,
        forall|x: CovSubscriptionView|
            #[trigger] subs.contains(x) && sub_key(x) != sub_key(s) ==> after_subscribe(subs, s).contains(x),
        forall|x: CovSubscriptionView|
            #[trigger] after_subscribe(subs, s).contains(x) ==> x == s || subs.contains(x),
{
    let u = after_subscribe(subs, s);
    lemma_subscribe_upserts(subs, s);
    if has_key(subs, sub_key(s)) {
        let k = key_index(subs, sub_key(s));
        assert(key_at(subs, sub_key(s), k));
        assert forall|i: int| 0 <= i < u.len() && sub_key(#[trigger] u[i]) == sub_key(s) implies u[i] == s by {
            if i != k {
                assert(u[i] == subs[i]);
            }
        }
        assert forall|x: CovSubscriptionView| #[trigger] subs.contains(x) && sub_key(x) != sub_key(s) implies u.contains(x) by {
            let j = choose|j: int| 0 <= j < subs.len() && subs[j] == x;
            assert(j != k);
            assert(u[j] == x);
        }
        assert forall|x: CovSubscriptionView| #[trigger] u.contains(x) implies x == s || subs.contains(x) by {
            let j = choose|j: int| 0 <= j < u.len() && u[j] == x;
            if j != k {
                assert(subs[j] == x);
            }
        }
    } else {
        assert forall|i: int| 0 <= i < u.len() && sub_key(#[trigger] u[i]) == sub_key(s) implies u[i] == s by {
            if i < subs.len() {
                assert(u[i] == subs[i]);
                assert(key_at(subs, sub_key(s), i));
            }
        }
        assert forall|x: CovSubscriptionView| #[trigger] subs.contains(x) && sub_key(x) != sub_key(s) implies u.contains(x) by {
            let j = choose|j: int| 0 <= j < subs.len() && subs[j] == x;
            assert(u[j] == x);
        }
        assert forall|x: CovSubscriptionView| #[trigger] u.contains(x) implies x == s || subs.contains(x) by {
            let j = choose|j: int| 0 <= j < u.len() && u[j] == x;
            if j < subs.len() {
                assert(subs[j] == x);
            }
        }
    }
}

/// Admission of `new_count` more subscriptions of `peer`, `new_indefinite`
/// of them without an expiry: admitted exactly when the indefinite ones are
/// allowed and fit the peer's indefinite quota, and the new ones fit the
/// peer's quota, the global capacity and, for a peer that is not reserved,
/// the capacity open to it. Refusing indefinite subscriptions outright takes
/// precedence over every quota.
pub proof fn lemma_batch_admission(
    subs: Seq<CovSubscriptionView>,
    policy: CovPolicy,
    peer: (Option<u16>, Seq<u8>),
    new_count: nat,
    new_indefinite: nat,
)
    ensures
        (admission_verdict(subs, policy, peer, new_count, new_indefinite) == AdmissionVerdict::Admitted) <==> {
            &&& new_indefinite > 0 ==> policy.allow_indefinite_subscriptions
            &&& new_indefinite > 0 ==> subs.filter(indefinite_of_peer(peer)).len() + new_indefinite
                <= policy.max_indefinite_per_peer
            &&& new_count > 0 ==> subs.filter(of_peer(peer)).len() + new_count <= policy.max_subscriptions_per_peer
            &&& new_count > 0 ==> subs.len() + new_count <= policy.max_subscriptions_global
            &&& new_count > 0 && !reserves(policy, peer) ==> subs.len() + new_count <= unreserved_capacity(policy)
        },
        new_indefinite > 0 && !policy.allow_indefinite_subscriptions ==> admission_verdict(
            subs,
            policy,
            peer,
            new_count,
            new_indefinite,
        ) == AdmissionVerdict::IndefiniteUnsupported,
{
}

/// Admission of a request that replaces `old`, the peer's existing
/// subscription with the same identity: it adds no subscription, so only the
/// indefinite quota can refuse it, and that quota is charged only when the
/// request turns a subscription with an expiry into one without. So a
/// renewal of a subscription that already has no expiry, or any request
/// for one with an expiry, is admitted whenever indefinite subscriptions
/// are allowed or none is asked for.
pub proof fn lemma_replacement_admission(
    subs: Seq<CovSubscriptionView>,
    policy: CovPolicy,
    peer: (Option<u16>, Seq<u8>),
    is_indefinite: bool,
    old: CovSubscriptionView,
)
    ensures
        is_indefinite && !policy.allow_indefinite_subscriptions ==> single_verdict(
            subs,
            policy,
            peer,
            is_indefinite,
            Some(old),
        ) == AdmissionVerdict::IndefiniteUnsupported,
        (single_verdict(subs, policy, peer, is_indefinite, Some(old)) == AdmissionVerdict::Admitted) <==> (
        (is_indefinite ==> policy.allow_indefinite_subscriptions) && (is_indefinite && old.expires_at is Some
            ==> subs.filter(indefinite_of_peer(peer)).len() + 1 <= policy.max_indefinite_per_peer)),
        !is_indefinite ==> single_verdict(subs, policy, peer, is_indefinite, Some(old))
            == AdmissionVerdict::Admitted,
        old.expires_at is None && (!is_indefinite || policy.allow_indefinite_subscriptions) ==> single_verdict(
            subs,
            policy,
            peer,
            is_indefinite,
            Some(old),
        ) == AdmissionVerdict::Admitted,
{
}

/// Admission of a request for a new subscription (no subscription with its
/// identity exists): it is admitted exactly when one more subscription fits
/// the peer's quota, the global capacity and, for a peer that is not
/// reserved, the capacity open to it, and, when it asks for no expiry,
/// indefinite subscriptions are allowed and one more fits the peer's
/// indefinite quota.
pub proof fn lemma_new_subscription_admission(
    subs: Seq<CovSubscriptionView>,
    policy: CovPolicy,
    peer: (Option<u16>, Seq<u8>),
    is_indefinite: bool,
)
    ensures
        (single_verdict(subs, policy, peer, is_indefinite, None) == AdmissionVerdict::Admitted) <==> {
            &&& is_indefinite ==> policy.allow_indefinite_subscriptions
            &&& is_indefinite ==> subs.filter(indefinite_of_peer(peer)).len() + 1 <= policy.max_indefinite_per_peer
            &&& subs.filter(of_peer(peer)).len() + 1 <= policy.max_subscriptions_per_peer
            &&& subs.len() + 1 <= policy.max_subscriptions_global
            &&& !reserves(policy, peer) ==> subs.len() + 1 <= unreserved_capacity(policy)
        },
        is_indefinite && !policy.allow_indefinite_subscriptions ==> single_verdict(
            subs,
            policy,
            peer,
            is_indefinite,
            None,
        ) == AdmissionVerdict::IndefiniteUnsupported,
{
}

/// A lookup right after subscribing finds the new subscription: the table
/// holds its identity, and the entry that `get_subscription` returns for it
/// is exactly the subscription just given.
pub proof fn lemma_subscribe_then_lookup(subs: Seq<CovSubscriptionView>, s: CovSubscriptionView)
    requires
        keys_unique(subs),
    ensures
        has_key(after_subscribe(subs, s), sub_key(s)),
        after_subscribe(subs, s)[key_index(after_subscribe(subs, s), sub_key(s))] == s,
{
    let u = after_subscribe(subs, s);
    lemma_subscribe_upserts(subs, s);
    lemma_subscribe_replaces_only_its_identity(subs, s);
    let i = key_index(u, sub_key(s));
    assert(key_at(u, sub_key(s), i));
    assert(sub_key(u[i]) == sub_key(s));
}

/// Removing the identity of a subscription that was newly added gives back
/// the table as it was before.
pub proof fn lemma_unsubscribe_undoes_subscribe(subs: Seq<CovSubscriptionView>, s: CovSubscriptionView)
    requires
        keys_unique(subs),
        !has_key(subs, sub_key(s)),
    ensures
        after_remove(after_subscribe(subs, s), sub_key(s)) == subs,
{
    let u = subs.push(s);
    assert(key_at(u, sub_key(s), subs.len() as int));
    let i = key_index(u, sub_key(s));
    assert(key_at(u, sub_key(s), i));
    if i < subs.len() {
        assert(u[i] == subs[i]);
        assert(key_at(subs, sub_key(s), i));
    }
    assert(i == subs.len());
    assert(u.remove(i) =~= subs);
}

/// An admitted request fits every quota it was checked against.
pub proof fn lemma_admission_respects_quotas(
    subs: Seq<CovSubscriptionView>,
    policy: CovPolicy,
    peer: (Option<u16>, Seq<u8>),
    new_count: nat,
    new_indefinite: nat,
)
    requires
        admission_verdict(subs, policy, peer, new_count, new_indefinite) == AdmissionVerdict::Admitted,
    ensures
        new_indefinite > 0 ==> policy.allow_indefinite_subscriptions
            && subs.filter(indefinite_of_peer(peer)).len() + new_indefinite <= policy.max_indefinite_per_peer,
        new_count > 0 ==> subs.filter(of_peer(peer)).len() + new_count <= policy.max_subscriptions_per_peer,
        new_count > 0 ==> subs.len() + new_count <= policy.max_subscriptions_global,
        new_count > 0 && !reserves(policy, peer) ==> subs.len() + new_count <= unreserved_capacity(policy),
{
}

/// After a purge at `now` nothing expired at `now` is left, and purging
/// again at `now` changes nothing.
pub proof fn lemma_purge_is_complete(subs: Seq<CovSubscriptionView>, now: u64)
    ensures
        forall|i: int| 0 <= i < purged(subs, now).len() ==> !is_expired(#[trigger] purged(subs, now)[i], now),
        purged(purged(subs, now), now) == purged(subs, now),
{
    assert forall|i: int| 0 <= i < purged(subs, now).len() implies !is_expired(#[trigger] purged(subs, now)[i], now) by {
        subs.lemma_filter_pred(live_at(now), i);
    }
    lemma_filter_idempotent(subs, live_at(now));
}

/// Purging at `now` keeps exactly the subscriptions without an expiry or
/// expiring after `now`, in their order: one that expires at or before `now`
/// is gone, and every other one stays.
pub proof fn lemma_purge_keeps_unexpired(subs: Seq<CovSubscriptionView>, now: u64)
    ensures
        forall|x: CovSubscriptionView| #[trigger] purged(subs, now).contains(x) <==> subs.contains(x) && (
        x.expires_at is None || x.expires_at->0 > now),
{
    assert forall|x: CovSubscriptionView| #[trigger] purged(subs, now).contains(x) <==> subs.contains(x) && (
    x.expires_at is None || x.expires_at->0 > now) by {
        subs.filter_lemma(live_at(now));
        let p = purged(subs, now);
        if p.contains(x) {
            subs.lemma_filter_contains_rev(live_at(now), x);
            let i = choose|i: int| 0 <= i < p.len() && p[i] == x;
            assert(live_at(now)(p[i]));
        }
        if subs.contains(x) && (x.expires_at is None || x.expires_at->0 > now) {
            let i = choose|i: int| 0 <= i < subs.len() && subs[i] == x;
            assert(live_at(now)(subs[i]));
            assert(p.contains(subs[i]));
        }
    }
}

/// Removing a peer's subscriptions leaves it none, so its whole quota is
/// available again.
pub proof fn lemma_peer_removal_releases_quota(subs: Seq<CovSubscriptionView>, peer: (Option<u16>, Seq<u8>))
    ensures
        subs.filter(not_of_peer(peer)).filter(of_peer(peer)).len() == 0,
        subs.filter(not_of_peer(peer)).filter(indefinite_of_peer(peer)).len() == 0,
{
    let rest = subs.filter(not_of_peer(peer));
    if rest.filter(of_peer(peer)).len() > 0 {
        rest.lemma_filter_pred(of_peer(peer), 0);
        assert(rest.filter(of_peer(peer)).contains(rest.filter(of_peer(peer))[0]));
        rest.lemma_filter_contains_rev(of_peer(peer), rest.filter(of_peer(peer))[0]);
        let k = choose|k: int| 0 <= k < rest.len() && rest[k] == rest.filter(of_peer(peer))[0];
        subs.lemma_filter_pred(not_of_peer(peer), k);
    }
    if rest.filter(indefinite_of_peer(peer)).len() > 0 {
        rest.lemma_filter_pred(indefinite_of_peer(peer), 0);
        assert(rest.filter(indefinite_of_peer(peer)).contains(rest.filter(indefinite_of_peer(peer))[0]));
        rest.lemma_filter_contains_rev(indefinite_of_peer(peer), rest.filter(indefinite_of_peer(peer))[0]);
        let k = choose|k: int| 0 <= k < rest.len() && rest[k] == rest.filter(indefinite_of_peer(peer))[0];
        subs.lemma_filter_pred(not_of_peer(peer), k);
    }
}

} // verus!
