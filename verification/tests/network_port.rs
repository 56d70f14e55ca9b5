use bacnet_stack::bbmd::{BdtEntry, FdtEntryWire};
use bacnet_stack::network_port::{
    activation_applies, bbmd_snapshot, is_bip_port, normal_mode_snapshot, ports_with_bip_identity,
    with_bip_identity, BbmdTables, NetworkPortSnapshot, IP_MODE_BBMD, IP_MODE_NORMAL,
};

fn baseline() -> NetworkPortSnapshot {
    NetworkPortSnapshot {
        network_type: 5,
        network_number: 42,
        mac_address: vec![192, 0, 2, 99, 0xBA, 0xC0],
        max_apdu_length_accepted: 1476,
        ip_address: vec![192, 0, 2, 99],
        ip_default_gateway: vec![192, 0, 2, 1],
        ip_subnet_mask: vec![255, 255, 255, 0],
        ip_udp_port: 0xBAC0,
        bacnet_ip_mode: IP_MODE_NORMAL,
        bbmd_accept_fd_registrations: false,
        bbmd_broadcast_distribution_table: Vec::new(),
        bbmd_foreign_device_table: Vec::new(),
    }
}

#[test]
fn live_identity_takes_the_transport_address() {
    let live = with_bip_identity(&baseline(), &[127, 0, 0, 1, 0xC3, 0x51], 1024);
    assert_eq!(live.mac_address, vec![127, 0, 0, 1, 0xC3, 0x51]);
    assert_eq!(live.ip_address, vec![127, 0, 0, 1]);
    assert_eq!(live.ip_udp_port, 0xC351);
    assert_eq!(live.max_apdu_length_accepted, 1024);
    assert_eq!(live.ip_default_gateway, vec![192, 0, 2, 1]);
    assert_eq!(live.network_number, 42);
    let all = ports_with_bip_identity(&vec![baseline(), baseline()], &[10, 0, 0, 2, 0, 1], 480);
    assert_eq!(all.len(), 2);
    assert_eq!(all[1].ip_udp_port, 1);
}

#[test]
fn only_ipv4_ports_bind_and_only_six_byte_macs_activate() {
    assert!(is_bip_port(&baseline()));
    let mut mstp = baseline();
    mstp.network_type = 2;
    assert!(!is_bip_port(&mstp));
    assert!(activation_applies(1, &[1, 2, 3, 4, 5, 6]));
    assert!(!activation_applies(0, &[1, 2, 3, 4, 5, 6]));
    assert!(!activation_applies(1, &[1]));
}

#[test]
fn bbmd_publication_carries_encoded_tables() {
    let tables = BbmdTables {
        accept_foreign_devices: true,
        bdt: vec![BdtEntry { ip: [192, 0, 2, 17], port: 47808, broadcast_mask: [255, 255, 255, 255] }],
        fdt: vec![FdtEntryWire { ip: [10, 0, 0, 9], port: 47809, ttl: 60, seconds_remaining: 75 }],
    };
    let published = bbmd_snapshot(&baseline(), &tables);
    assert_eq!(published.bacnet_ip_mode, IP_MODE_BBMD);
    assert!(published.bbmd_accept_fd_registrations);
    assert_eq!(
        published.bbmd_broadcast_distribution_table,
        vec![vec![192, 0, 2, 17, 0xBA, 0xC0, 255, 255, 255, 255]]
    );
    assert_eq!(published.bbmd_foreign_device_table, vec![vec![10, 0, 0, 9, 0xBA, 0xC1, 0, 60, 0, 75]]);
    let mut bbmd_mode = baseline();
    bbmd_mode.bacnet_ip_mode = IP_MODE_BBMD;
    assert_eq!(normal_mode_snapshot(&bbmd_mode).bacnet_ip_mode, IP_MODE_NORMAL);
}
