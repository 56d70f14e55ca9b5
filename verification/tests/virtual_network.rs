use bacnet_stack::error::{Error, TransportErrorKind};
use bacnet_stack::virtual_network::{
    broadcast_result, require_started, unicast_result, start_member, validate_join, Delivery, MemberState,
    VirtualNetworkRegistry, VirtualNetworkStats, MAX_VIRTUAL_NETWORK_QUEUE_CAPACITY,
    VIRTUAL_NETWORK_QUEUE_CAPACITY,
};

fn kind(error: &Error) -> Option<TransportErrorKind> {
    error.transport_kind()
}

fn name(label: &str) -> String {
    format!("virtual-network-test-{label}")
}

#[test]
fn duplicate_live_mac_is_atomic_but_names_isolate_networks() {
    let mut registry: VirtualNetworkRegistry<()> = VirtualNetworkRegistry::new();
    let first_name = name("duplicate");
    let other_name = name("duplicate-other");
    registry.join(first_name.clone(), 7, VIRTUAL_NETWORK_QUEUE_CAPACITY, ()).unwrap();
    let duplicate = registry
        .join(first_name.clone(), 7, VIRTUAL_NETWORK_QUEUE_CAPACITY, ())
        .unwrap_err();
    assert_eq!(kind(&duplicate), Some(TransportErrorKind::AddrInUse));
    registry.join(other_name.clone(), 7, VIRTUAL_NETWORK_QUEUE_CAPACITY, ()).unwrap();
    assert_eq!(registry.members(&first_name).len(), 1);
    assert_eq!(registry.members(&other_name).len(), 1);
}

#[test]
fn stale_generation_cannot_unregister_rejoined_member() {
    let mut registry: VirtualNetworkRegistry<()> = VirtualNetworkRegistry::new();
    let network_name = name("aba");
    let stale_generation = registry.join(network_name.clone(), 9, 1, ()).unwrap();
    registry.unregister(&network_name, 9, stale_generation);
    assert!(registry.members(&network_name).is_empty());
    let replacement = registry.join(network_name.clone(), 9, 1, ()).unwrap();
    assert_ne!(replacement, stale_generation);

    registry.unregister(&network_name, 9, stale_generation);
    let duplicate = registry.join(network_name.clone(), 9, 1, ()).unwrap_err();
    assert_eq!(kind(&duplicate), Some(TransportErrorKind::AddrInUse));
    assert_eq!(registry.member_generation(&network_name, 9), Some(replacement));
}

#[test]
fn validates_name_and_capacity_bounds() {
    assert!(matches!(validate_join("  ", 1), Err(Error::OutOfRange(_))));
    assert!(matches!(validate_join("zero", 0), Err(Error::OutOfRange(_))));
    assert!(matches!(
        validate_join("too-large", MAX_VIRTUAL_NETWORK_QUEUE_CAPACITY + 1),
        Err(Error::OutOfRange(_))
    ));
    let mut registry: VirtualNetworkRegistry<()> = VirtualNetworkRegistry::new();
    assert!(matches!(registry.join("  ".to_owned(), 1, 1, ()), Err(Error::OutOfRange(_))));
    // A refused join takes no generation.
    assert_eq!(registry.join("ok".to_owned(), 1, 1, ()).unwrap(), 1);
}

#[test]
fn unicast_targets_and_unknown_destinations() {
    let mut registry: VirtualNetworkRegistry<&str> = VirtualNetworkRegistry::new();
    let net = name("unknown");
    let generation = registry.join(net.clone(), 1, 4, "rx1").unwrap();
    let mut stats = VirtualNetworkStats::default();
    let error = registry.unicast_target(&net, &[99], &mut stats).unwrap_err();
    assert_eq!(kind(&error), Some(TransportErrorKind::NotFound));
    assert_eq!(stats.unknown_destination_drops, 1);
    assert!(matches!(
        registry.unicast_target(&net, &[1, 2], &mut stats),
        Err(Error::OutOfRange(_))
    ));
    assert_eq!(registry.unicast_target(&net, &[1], &mut stats).unwrap(), generation);
    assert_eq!(registry.sender(&net, 1), Some(&"rx1"));
    let error = registry.unicast_target(&name("elsewhere"), &[1], &mut stats).unwrap_err();
    assert_eq!(kind(&error), Some(TransportErrorKind::NotFound));
}

#[test]
fn broadcast_reaches_every_other_member_and_never_echoes() {
    let mut registry: VirtualNetworkRegistry<()> = VirtualNetworkRegistry::new();
    let net = name("delivery");
    let g1 = registry.join(net.clone(), 1, 4, ()).unwrap();
    let g2 = registry.join(net.clone(), 2, 4, ()).unwrap();
    let g3 = registry.join(net.clone(), 3, 4, ()).unwrap();
    assert_eq!(registry.broadcast_recipients(&net, 1).unwrap(), vec![(2, g2), (3, g3)]);
    assert_eq!(registry.broadcast_recipients(&net, 3).unwrap(), vec![(1, g1), (2, g2)]);
    let gone = registry.broadcast_recipients(&name("gone"), 1).unwrap_err();
    assert_eq!(kind(&gone), Some(TransportErrorKind::NotConnected));
}

#[test]
fn membership_check_prunes_closed_and_refuses_stale() {
    let mut registry: VirtualNetworkRegistry<()> = VirtualNetworkRegistry::new();
    let net = name("stale-sender");
    let g1 = registry.join(net.clone(), 1, 4, ()).unwrap();
    registry.join(net.clone(), 2, 4, ()).unwrap();
    assert!(registry.check_membership(&net, 1, g1, false).is_ok());
    let error = registry.check_membership(&net, 1, g1, true).unwrap_err();
    assert_eq!(kind(&error), Some(TransportErrorKind::NotConnected));
    assert_eq!(registry.member_generation(&net, 1), None);
    let replacement = registry.join(net.clone(), 1, 4, ()).unwrap();
    let stale = registry.check_membership(&net, 1, g1, false).unwrap_err();
    assert_eq!(kind(&stale), Some(TransportErrorKind::NotConnected));
    assert_eq!(registry.member_generation(&net, 1), Some(replacement));
}

#[test]
fn abort_releases_membership_for_router_restart() {
    let mut registry: VirtualNetworkRegistry<()> = VirtualNetworkRegistry::new();
    let net = name("abort-rejoin");
    let first = registry.join(net.clone(), 8, 8, ()).unwrap();
    registry.unregister(&net, 8, first);
    let replacement = registry.join(net.clone(), 8, 8, ()).unwrap();
    registry.unregister(&net, 8, replacement);
    assert!(registry.members(&net).is_empty());
    assert!(registry.broadcast_recipients(&net, 8).is_err());
}

#[test]
fn member_lifecycle() {
    assert_eq!(start_member(MemberState::Joined).unwrap(), MemberState::Started);
    assert!(matches!(start_member(MemberState::Started), Err(Error::Encoding(_))));
    assert_eq!(
        kind(&start_member(MemberState::Stopped).unwrap_err()),
        Some(TransportErrorKind::NotConnected)
    );
    assert!(require_started(MemberState::Started).is_ok());
    assert_eq!(
        kind(&require_started(MemberState::Joined).unwrap_err()),
        Some(TransportErrorKind::NotConnected)
    );
}

#[test]
fn stats_and_broadcast_outcomes() {
    let mut stats = VirtualNetworkStats::default();
    stats.note_unicast(Delivery::Delivered);
    stats.note_broadcast(2, 0, 0);
    assert_eq!(
        stats,
        VirtualNetworkStats {
            unicast_delivered: 1,
            broadcast_copies_delivered: 2,
            ..VirtualNetworkStats::default()
        }
    );
    stats.note_unicast(Delivery::Full);
    stats.note_unicast(Delivery::Closed);
    assert_eq!(stats.full_member_drops, 1);
    assert_eq!(stats.closed_member_drops, 1);
    assert_eq!(broadcast_result(0, 0), None);
    assert_eq!(broadcast_result(1, 1), Some(TransportErrorKind::WouldBlock));
    assert_eq!(broadcast_result(0, 2), Some(TransportErrorKind::NotConnected));
}

#[test]
fn unicast_outcomes_map_to_transport_errors() {
    assert_eq!(unicast_result(Delivery::Delivered), None);
    assert_eq!(unicast_result(Delivery::Full), Some(TransportErrorKind::WouldBlock));
    assert_eq!(unicast_result(Delivery::Closed), Some(TransportErrorKind::NotConnected));
}

#[test]
fn closed_unicast_receiver_is_unregistered_and_counted() {
    let mut registry: VirtualNetworkRegistry<()> = VirtualNetworkRegistry::new();
    let network_name = name("closed-unicast");
    registry.join(network_name.clone(), 1, VIRTUAL_NETWORK_QUEUE_CAPACITY, ()).unwrap();
    let generation = registry.join(network_name.clone(), 2, VIRTUAL_NETWORK_QUEUE_CAPACITY, ()).unwrap();
    let mut stats = VirtualNetworkStats::default();

    let full = registry.finish_unicast(&network_name, 2, generation, Delivery::Full, &mut stats);
    assert_eq!(full, Some(TransportErrorKind::WouldBlock));
    assert_eq!(stats.full_member_drops, 1);
    assert_eq!(registry.member_generation(&network_name, 2), Some(generation));

    let delivered = registry.finish_unicast(&network_name, 2, generation, Delivery::Delivered, &mut stats);
    assert_eq!(delivered, None);
    assert_eq!(stats.unicast_delivered, 1);

    let closed = registry.finish_unicast(&network_name, 2, generation, Delivery::Closed, &mut stats);
    assert_eq!(closed, Some(TransportErrorKind::NotConnected));
    assert_eq!(stats.closed_member_drops, 1);
    assert_eq!(registry.member_generation(&network_name, 2), None);
    assert_eq!(registry.members(&network_name).len(), 1);
}
