use bacnet_stack::address::{NpduAddress, ObjectIdentifier};
use bacnet_stack::cov::{
    CovNotificationKind, CovPeerKey, CovPolicy, CovSubscription, CovSubscriptionTable,
};
use bacnet_stack::error::{
    Error, ERROR_CLASS_RESOURCES, ERROR_CLASS_SERVICES, ERROR_CODE_NO_SPACE_TO_ADD_LIST_ELEMENT,
    ERROR_CODE_OPTIONAL_FUNCTIONALITY_NOT_SUPPORTED,
};

const NOW: u64 = 1_000_000;
const ANALOG_INPUT: u16 = 0;
const PRESENT_VALUE: u32 = 85;
const STATUS_FLAGS: u32 = 111;

fn ai1() -> ObjectIdentifier {
    ObjectIdentifier::new(ANALOG_INPUT, 1).unwrap()
}

fn ai2() -> ObjectIdentifier {
    ObjectIdentifier::new(ANALOG_INPUT, 2).unwrap()
}

fn make_sub(mac: &[u8], process_id: u32, oid: ObjectIdentifier) -> CovSubscription {
    CovSubscription {
        subscriber_mac: mac.to_vec(),
        subscriber_network: None,
        subscriber_process_identifier: process_id,
        monitored_object_identifier: oid,
        issue_confirmed_notifications: false,
        expires_at: None,
        monitored_property: None,
        monitored_property_array_index: None,
        notification_kind: CovNotificationKind::Single,
        timestamped: false,
    }
}

fn no_space(result: Result<(), Error>) -> bool {
    matches!(result, Err(Error::Protocol { class, code })
        if class == ERROR_CLASS_RESOURCES && code == ERROR_CODE_NO_SPACE_TO_ADD_LIST_ELEMENT)
}

#[test]
fn effective_unreserved_capacity_respects_reserved_peers() {
    let mut policy = CovPolicy {
        max_subscriptions_global: 100,
        reserved_capacity: 20,
        reserved_peers: Vec::new(),
        ..Default::default()
    };
    // No reserved peers -> full global capacity available
    assert_eq!(policy.effective_unreserved_capacity(), 100);

    // With reserved peers -> reserved capacity is deducted
    policy.reserved_peers.push(vec![1, 2, 3]);
    assert_eq!(policy.effective_unreserved_capacity(), 80);

    // If reserved_capacity is 0 -> full global capacity
    policy.reserved_capacity = 0;
    assert_eq!(policy.effective_unreserved_capacity(), 100);
}

#[test]
fn is_peer_reserved_checks_canonical_peer_identity() {
    let direct_mac = vec![1u8, 2, 3];
    let policy = CovPolicy {
        reserved_peers: vec![direct_mac.clone()],
        reserved_peer_keys: vec![CovPeerKey::routed(10, direct_mac.clone())],
        ..Default::default()
    };

    // Direct peer matching reserved_peers is reserved
    assert!(policy.is_peer_reserved(&CovPeerKey::direct(direct_mac.clone())));

    // Routed peer on network 10 matching reserved_peer_keys is reserved
    assert!(policy.is_peer_reserved(&CovPeerKey::routed(10, direct_mac.clone())));

    // Routed peer on different network (20) with same MAC is NOT reserved
    assert!(!policy.is_peer_reserved(&CovPeerKey::routed(20, direct_mac.clone())));

    // Unconfigured direct peer is NOT reserved
    let other_mac = vec![4u8, 5, 6];
    assert!(!policy.is_peer_reserved(&CovPeerKey::direct(other_mac.clone())));
    assert!(!policy.is_peer_reserved(&CovPeerKey::routed(10, other_mac)));
}

#[test]
fn subscribe_and_lookup() {
    let mut table = CovSubscriptionTable::new();
    table.subscribe(make_sub(&[1, 2, 3], 1, ai1()));
    assert_eq!(table.len(), 1);
    assert_eq!(table.subscriptions_for(&ai1(), NOW).len(), 1);
    assert_eq!(table.subscriptions_for(&ai2(), NOW).len(), 0);
}

#[test]
fn unsubscribe() {
    let mut table = CovSubscriptionTable::new();
    table.subscribe(make_sub(&[1, 2, 3], 1, ai1()));
    assert!(table.unsubscribe(&[1, 2, 3], 1, ai1()));
    assert!(!table.unsubscribe(&[1, 2, 3], 1, ai1())); // already removed
    assert!(table.is_empty());
}

#[test]
fn expired_subscriptions_purged_on_lookup() {
    let mut table = CovSubscriptionTable::new();
    let mut sub = make_sub(&[1, 2, 3], 1, ai1());
    sub.expires_at = Some(NOW - 1_000); // already expired
    table.subscribe(sub);
    assert_eq!(table.subscriptions_for(&ai1(), NOW).len(), 0);
    assert!(table.is_empty());
}

#[test]
fn multiple_subscribers_same_object() {
    let mut table = CovSubscriptionTable::new();
    table.subscribe(make_sub(&[1, 2, 3], 1, ai1()));
    table.subscribe(make_sub(&[4, 5, 6], 2, ai1()));
    assert_eq!(table.subscriptions_for(&ai1(), NOW).len(), 2);
}

#[test]
fn upsert_replaces_existing() {
    let mut table = CovSubscriptionTable::new();
    let mut sub = make_sub(&[1, 2, 3], 1, ai1());
    sub.issue_confirmed_notifications = false;
    table.subscribe(sub);
    // Same (mac, process_id, object) key — replaces the existing entry
    let mut sub2 = make_sub(&[1, 2, 3], 1, ai1());
    sub2.issue_confirmed_notifications = true;
    table.subscribe(sub2);
    assert_eq!(table.len(), 1);
    let subs = table.subscriptions_for(&ai1(), NOW);
    assert!(subs[0].issue_confirmed_notifications);
}

#[test]
fn same_subscriber_different_objects_both_exist() {
    let mut table = CovSubscriptionTable::new();
    // Same (mac, process_id) but different monitored objects
    table.subscribe(make_sub(&[1, 2, 3], 1, ai1()));
    table.subscribe(make_sub(&[1, 2, 3], 1, ai2()));
    assert_eq!(table.len(), 2);
    assert_eq!(table.subscriptions_for(&ai1(), NOW).len(), 1);
    assert_eq!(table.subscriptions_for(&ai2(), NOW).len(), 1);
}

#[test]
fn purge_expired_removes_stale_subscriptions() {
    let mut table = CovSubscriptionTable::new();
    let mut sub1 = make_sub(&[1, 2, 3], 1, ai1());
    sub1.expires_at = Some(NOW - 10_000);
    table.subscribe(sub1);

    let mut sub2 = make_sub(&[4, 5, 6], 2, ai1());
    sub2.expires_at = None; // infinite lifetime
    table.subscribe(sub2);

    let purged = table.purge_expired(NOW);
    assert_eq!(purged, 1);
    assert_eq!(table.len(), 1);
}

#[test]
fn cov_multiple_context_lifetime_refreshes_and_expires() {
    let mut table = CovSubscriptionTable::new();
    let original_expiry = NOW + 30_000;
    let refreshed_expiry = NOW + 60_000;

    let mut present_value = make_sub(&[1, 2, 3], 1, ai1());
    present_value.notification_kind = CovNotificationKind::Multiple;
    present_value.monitored_property = Some(PRESENT_VALUE);
    present_value.expires_at = Some(original_expiry);
    table.subscribe(present_value);

    let mut status_flags = make_sub(&[1, 2, 3], 1, ai1());
    status_flags.notification_kind = CovNotificationKind::Multiple;
    status_flags.monitored_property = Some(STATUS_FLAGS);
    status_flags.expires_at = Some(original_expiry);
    table.subscribe(status_flags);

    let mut single = make_sub(&[1, 2, 3], 1, ai1());
    single.expires_at = Some(original_expiry);
    table.subscribe(single);

    table.refresh_cov_multiple_context_lifetime(&[1, 2, 3], None, 1, false, Some(refreshed_expiry));

    let all = table.subscriptions_for(&ai1(), NOW);
    let multiple_expiries: Vec<_> = all
        .iter()
        .filter(|sub| sub.notification_kind == CovNotificationKind::Multiple)
        .map(|sub| sub.expires_at)
        .collect();
    assert_eq!(
        multiple_expiries,
        vec![Some(refreshed_expiry), Some(refreshed_expiry)]
    );
    assert!(all
        .iter()
        .any(|sub| sub.notification_kind == CovNotificationKind::Single
            && sub.expires_at == Some(original_expiry)));

    table.refresh_cov_multiple_context_lifetime(&[1, 2, 3], None, 1, false, Some(NOW - 1_000));

    assert_eq!(table.purge_expired(NOW), 2);
    assert_eq!(table.len(), 1);
    assert!(table.subscriptions_for(&ai1(), NOW).iter().all(|sub| {
        sub.notification_kind == CovNotificationKind::Single
            && sub.expires_at == Some(original_expiry)
    }));
}

#[test]
fn purge_expired_returns_zero_when_none_expired() {
    let mut table = CovSubscriptionTable::new();
    table.subscribe(make_sub(&[1, 2, 3], 1, ai1()));
    let purged = table.purge_expired(NOW);
    assert_eq!(purged, 0);
    assert_eq!(table.len(), 1);
}

#[test]
fn default_policy_allows_1024th_subscription() {
    let mut table = CovSubscriptionTable::new();
    let oid = ai1();
    // 16 peers * 64 subscriptions each = 1024 subscriptions
    for peer_idx in 0..16u8 {
        let mac = [192, 168, 1, peer_idx];
        let peer_key = CovPeerKey::direct(mac.to_vec());
        for proc_id in 0..64u32 {
            table
                .check_admission(&peer_key, false, None, NOW)
                .expect("subscription admitted");
            let mut sub = make_sub(&mac, proc_id, oid);
            sub.expires_at = Some(NOW + 300_000);
            table.subscribe(sub);
        }
    }
    assert_eq!(table.len(), 1024);

    // 1025th subscription from a 17th peer fails due to global capacity
    let mac17 = [192, 168, 1, 17];
    let peer17 = CovPeerKey::direct(mac17.to_vec());
    assert!(table.check_admission(&peer17, false, None, NOW).is_err());
}

#[test]
fn expired_subscriptions_immediately_release_quota_on_admission() {
    let policy = CovPolicy {
        max_subscriptions_per_peer: 1,
        ..Default::default()
    };
    let mut table = CovSubscriptionTable::with_policy(policy);
    let peer = CovPeerKey::direct(vec![1, 2, 3]);

    // Create a subscription with an expiry in the past
    let mut sub = make_sub(&[1, 2, 3], 1, ai1());
    sub.expires_at = Some(NOW - 5_000);
    table.subscribe(sub);
    assert_eq!(table.len(), 1);

    // Admitting a new subscription from the same peer immediately purges the
    // expired subscription and succeeds, rather than being rejected by the
    // per-peer quota.
    assert!(table.check_admission(&peer, false, None, NOW).is_ok());
    assert_eq!(table.len(), 0);
}

#[test]
fn per_peer_quota_rejects_with_no_space_and_counts() {
    let policy = CovPolicy {
        max_subscriptions_per_peer: 2,
        ..Default::default()
    };
    let mut table = CovSubscriptionTable::with_policy(policy);
    let peer = CovPeerKey::direct(vec![9]);
    table.subscribe(make_sub(&[9], 1, ai1()));
    table.subscribe(make_sub(&[9], 2, ai1()));
    assert_eq!(table.peer_subscription_count(&peer), 2);
    assert!(no_space(table.check_admission(&peer, false, None, NOW)));
    assert_eq!(table.counters().subscriptions_rejected_quota, 1);
    // Re-subscribing an existing identity needs no new slot.
    let existing = make_sub(&[9], 1, ai1());
    assert!(table.check_admission(&peer, false, Some(&existing), NOW).is_ok());
}

#[test]
fn indefinite_lifetimes_follow_policy() {
    let policy = CovPolicy {
        allow_indefinite_subscriptions: false,
        ..Default::default()
    };
    let mut table = CovSubscriptionTable::with_policy(policy);
    let peer = CovPeerKey::direct(vec![7]);
    assert!(matches!(
        table.check_admission(&peer, true, None, NOW),
        Err(Error::Protocol { class, code })
            if class == ERROR_CLASS_SERVICES && code == ERROR_CODE_OPTIONAL_FUNCTIONALITY_NOT_SUPPORTED
    ));
    assert_eq!(table.counters().subscriptions_rejected_indefinite, 1);

    let policy = CovPolicy {
        max_indefinite_per_peer: 1,
        ..Default::default()
    };
    let mut table = CovSubscriptionTable::with_policy(policy);
    table.subscribe(make_sub(&[7], 1, ai1()));
    assert_eq!(table.peer_indefinite_count(&peer), 1);
    assert!(no_space(table.check_admission(&peer, true, None, NOW)));
    assert!(table.check_admission(&peer, false, None, NOW).is_ok());
}

#[test]
fn unreserved_peers_cannot_use_reserved_capacity() {
    let policy = CovPolicy {
        max_subscriptions_global: 3,
        reserved_capacity: 1,
        reserved_peers: vec![vec![1]],
        ..Default::default()
    };
    let mut table = CovSubscriptionTable::with_policy(policy);
    table.subscribe(make_sub(&[2], 1, ai1()));
    table.subscribe(make_sub(&[3], 1, ai1()));
    let outsider = CovPeerKey::direct(vec![4]);
    let reserved = CovPeerKey::direct(vec![1]);
    assert!(no_space(table.check_admission(&outsider, false, None, NOW)));
    assert_eq!(table.counters().subscriptions_rejected_capacity, 1);
    assert!(table.check_admission(&reserved, false, None, NOW).is_ok());
}

#[test]
fn routed_and_property_subscriptions_are_distinct_identities() {
    let mut table = CovSubscriptionTable::new();
    let mut routed = make_sub(&[1], 1, ai1());
    routed.subscriber_network = Some(NpduAddress::new(5, vec![0x10]));
    table.subscribe(routed);
    table.subscribe(make_sub(&[1], 1, ai1()));
    let mut property = make_sub(&[1], 1, ai1());
    property.monitored_property = Some(PRESENT_VALUE);
    table.subscribe(property);
    assert_eq!(table.len(), 3);

    let origin = NpduAddress::new(5, vec![0x10]);
    assert!(table.contains(&[1], Some(&origin), 1, ai1(), None));
    assert!(table.unsubscribe_property(&[1], 1, ai1(), PRESENT_VALUE));
    assert!(table.unsubscribe_at(&[1], Some(&origin), 1, ai1()));
    assert_eq!(table.len(), 1);
    assert_eq!(table.counters().subscriptions_cancelled, 2);
    assert_eq!(table.counters().subscriptions_created, 3);
}

#[test]
fn remove_peer_subscriptions_releases_quota() {
    let mut table = CovSubscriptionTable::new();
    table.subscribe(make_sub(&[1], 1, ai1()));
    table.subscribe(make_sub(&[1], 2, ai2()));
    table.subscribe(make_sub(&[2], 1, ai1()));
    assert_eq!(table.remove_peer_subscriptions(&[1], None), 2);
    assert_eq!(table.peer_subscription_count(&CovPeerKey::direct(vec![1])), 0);
    assert_eq!(table.len(), 1);
}

#[test]
fn remove_for_object_drops_only_that_object_without_cancelling() {
    let mut table = CovSubscriptionTable::new();
    table.subscribe(make_sub(&[1], 1, ai1()));
    table.subscribe(make_sub(&[2], 1, ai2()));
    table.remove_for_object(ai1());
    assert_eq!(table.len(), 1);
    assert_eq!(table.counters().subscriptions_cancelled, 0);
    assert_eq!(table.counters().subscriptions_active, 1);
}

#[test]
fn multiple_context_unsubscribe_removes_only_that_context() {
    let mut table = CovSubscriptionTable::new();
    for (property, confirmed) in [(PRESENT_VALUE, false), (STATUS_FLAGS, false), (PRESENT_VALUE, true)] {
        let mut sub = make_sub(&[1], 1, ai1());
        sub.notification_kind = CovNotificationKind::Multiple;
        sub.monitored_property = Some(property);
        sub.issue_confirmed_notifications = confirmed;
        if confirmed {
            sub.subscriber_process_identifier = 2;
        }
        table.subscribe(sub);
    }
    table.unsubscribe_cov_multiple_property_at(&[1], None, 1, false, ai1(), STATUS_FLAGS);
    assert_eq!(table.len(), 2);
    table.unsubscribe_cov_multiple_context(&[1], None, 1, false);
    assert_eq!(table.len(), 1);
    assert!(table.contains(&[1], None, 2, ai1(), Some(PRESENT_VALUE)));
}

#[test]
fn peer_key_of_routed_subscriber_is_its_origin() {
    let mut sub = make_sub(&[0xAA], 3, ai1());
    sub.subscriber_network = Some(NpduAddress::new(10, vec![1, 2, 3]));
    let key = sub.peer_key();
    assert_eq!(key.network(), Some(10));
    assert_eq!(key.mac(), &[1, 2, 3]);
    assert!(key.same_peer(&CovPeerKey::routed(10, vec![1, 2, 3])));
}

#[test]
fn dispatch_turn_counts_up() {
    let mut table = CovSubscriptionTable::new();
    assert_eq!(table.next_dispatch_turn(), 0);
    assert_eq!(table.next_dispatch_turn(), 1);
}
