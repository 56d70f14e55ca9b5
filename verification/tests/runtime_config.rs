use bacnet_stack::error::{AttachmentId, ErrorCode};
use bacnet_stack::runtime_config::{
    classify_config, must_stop_before_replacement, plan_bip_start,
    sc_reconnect_config, text_has_wss_scheme, text_is_blank, validate_config, AttachmentConfig,
    BipConfig, ConfigFault, MstpConfig, ScConfig, TransportConfig,
};

fn bip(interface: &str) -> AttachmentConfig {
    AttachmentConfig {
        id: AttachmentId::from(1),
        label: "test-bip".to_owned(),
        transport: TransportConfig::Bip(BipConfig {
            interface: interface.to_owned(),
            port: 0,
            broadcast: Some("127.255.255.255".to_owned()),
            bbmd_address: None,
            foreign_device_ttl: None,
        }),
    }
}

fn mstp(device: &str) -> AttachmentConfig {
    AttachmentConfig {
        id: AttachmentId::from(9),
        label: "test-mstp".to_owned(),
        transport: TransportConfig::Mstp(MstpConfig {
            device: device.to_owned(),
            baud: 38_400,
            mac: 1,
            max_master: 127,
            max_info_frames: 1,
        }),
    }
}

fn sc() -> AttachmentConfig {
    AttachmentConfig {
        id: AttachmentId::from(10),
        label: "test-sc".to_owned(),
        transport: TransportConfig::Sc(ScConfig {
            primary_hub: "wss://primary.example.test".to_owned(),
            failover_hubs: vec!["wss://failover.example.test".to_owned()],
            local_vmac: [1, 2, 3, 4, 5, 6],
            ca_cert: Some("/missing/test-ca.pem".to_owned()),
            client_cert: Some("/missing/test-client.pem".to_owned()),
            client_key: Some("/missing/test-client.key".to_owned()),
            heartbeat_interval_ms: 30_000,
            heartbeat_timeout_ms: 60_000,
            reconnect_initial_delay_ms: 100,
            reconnect_max_delay_ms: 1_000,
            reconnect_max_retries: 3,
        }),
    }
}

#[test]
fn factory_rejects_invalid_ip_before_opening_transport() {
    let error = validate_config(&bip("definitely-not-an-ip")).unwrap_err();
    assert_eq!(error.code, ErrorCode::InvalidConfig);
    assert_eq!(error.attachment_id, Some(AttachmentId::from(1)));
}

#[test]
fn bip_foreign_device_config_requires_a_valid_paired_address_and_ttl() {
    let invalid_cases = [
        (Some("127.0.0.1:47808"), None),
        (None, Some(60)),
        (Some("127.0.0.1:47808"), Some(0)),
        (Some("not-a-bbmd"), Some(60)),
    ];
    for (address, ttl) in invalid_cases {
        let mut config = bip("127.0.0.1");
        let TransportConfig::Bip(value) = &mut config.transport else {
            unreachable!()
        };
        value.bbmd_address = address.map(str::to_owned);
        value.foreign_device_ttl = ttl;

        let error = validate_config(&config).unwrap_err();
        assert_eq!(error.code, ErrorCode::InvalidConfig);
        assert_eq!(error.attachment_id, Some(config.id));
    }
}

#[test]
fn bip_foreign_device_config_accepts_socket_address_and_nonzero_ttl() {
    let mut config = bip("127.0.0.1");
    let TransportConfig::Bip(value) = &mut config.transport else {
        unreachable!()
    };
    value.bbmd_address = Some("127.0.0.1:47808".to_owned());
    value.foreign_device_ttl = Some(60);

    validate_config(&config).unwrap();
}

#[test]
fn mstp_config_is_validated_before_serial_open() {
    let invalid_cases = [
        ("", 38_400, 1, 127, 1),
        ("/dev/null", 115_200, 1, 127, 1),
        ("/dev/null", 38_400, 128, 127, 1),
        ("/dev/null", 38_400, 2, 1, 1),
        ("/dev/null", 38_400, 1, 127, 0),
    ];
    for (device, baud, mac, max_master, max_info_frames) in invalid_cases {
        let mut config = mstp(device);
        let TransportConfig::Mstp(value) = &mut config.transport else {
            unreachable!()
        };
        value.baud = baud;
        value.mac = mac;
        value.max_master = max_master;
        value.max_info_frames = max_info_frames;
        let error = validate_config(&config).unwrap_err();
        assert_eq!(error.code, ErrorCode::InvalidConfig);
        assert_eq!(error.attachment_id, Some(config.id));
    }
}

#[test]
fn same_mstp_device_must_stop_before_replacement() {
    let current = mstp("/dev/ttyUSB0").transport;
    let mut desired = mstp("/dev/ttyUSB0").transport;
    let TransportConfig::Mstp(value) = &mut desired else {
        unreachable!()
    };
    value.baud = 76_800;
    assert!(must_stop_before_replacement(&current, &desired));
    assert!(!must_stop_before_replacement(
        &current,
        &mstp("/dev/ttyUSB1").transport,
    ));
}

#[test]
fn sc_config_rejects_each_invalid_public_boundary() {
    let cases: Vec<Box<dyn FnOnce(&mut ScConfig)>> = vec![
        Box::new(|value| value.primary_hub = "ws://insecure.example.test".to_owned()),
        Box::new(|value| {
            value
                .failover_hubs
                .push("wss://extra.example.test".to_owned())
        }),
        Box::new(|value| value.failover_hubs[0] = "https://wrong.example.test".to_owned()),
        Box::new(|value| value.local_vmac = [0; 6]),
        Box::new(|value| value.local_vmac = [0xff; 6]),
        Box::new(|value| value.ca_cert = None),
        Box::new(|value| value.client_key = None),
        Box::new(|value| value.heartbeat_interval_ms = 2_999),
        Box::new(|value| value.heartbeat_timeout_ms = 30_000),
        Box::new(|value| value.reconnect_initial_delay_ms = 0),
        Box::new(|value| value.reconnect_max_delay_ms = 99),
        Box::new(|value| value.reconnect_max_retries = 0),
    ];

    for mutate in cases {
        let mut config = sc();
        let TransportConfig::Sc(value) = &mut config.transport else {
            unreachable!()
        };
        mutate(value);
        let error = validate_config(&config).unwrap_err();
        assert_eq!(error.code, ErrorCode::InvalidConfig);
        assert_eq!(error.attachment_id, Some(config.id));
    }
}

#[test]
fn valid_configs_of_each_link_pass() {
    validate_config(&bip("127.0.0.1")).unwrap();
    validate_config(&mstp("/dev/ttyS0")).unwrap();
    validate_config(&sc()).unwrap();
}

#[test]
fn static_faults_carry_their_messages() {
    let error = validate_config(&mstp("   ")).unwrap_err();
    assert_eq!(error.message, "MS/TP serial device must not be empty");
    assert!(!error.retryable);

    let mut config = sc();
    let TransportConfig::Sc(value) = &mut config.transport else {
        unreachable!()
    };
    value.local_vmac = [0; 6];
    assert_eq!(
        validate_config(&config).unwrap_err().message,
        "BACnet/SC local VMAC must not be all-zero or broadcast"
    );

    let mut config = bip("127.0.0.1");
    let TransportConfig::Bip(value) = &mut config.transport else {
        unreachable!()
    };
    value.foreign_device_ttl = Some(30);
    assert_eq!(
        validate_config(&config).unwrap_err().message,
        "B/IP BBMD address and foreign-device TTL must both be provided or omitted"
    );
}

#[test]
fn classification_follows_rule_order() {
    let config = bip("127.0.0.1");
    assert_eq!(classify_config(&config, false, false, false), Some(ConfigFault::BipInterface));
    assert_eq!(classify_config(&config, true, false, false), Some(ConfigFault::BipBroadcast));
    assert_eq!(classify_config(&config, true, true, false), None);
    let mut paired = bip("127.0.0.1");
    let TransportConfig::Bip(value) = &mut paired.transport else {
        unreachable!()
    };
    value.bbmd_address = Some("x".to_owned());
    value.foreign_device_ttl = Some(0);
    assert_eq!(classify_config(&paired, true, true, false), Some(ConfigFault::BipBbmdAddress));
    assert_eq!(classify_config(&paired, true, true, true), Some(ConfigFault::BipTtlZero));
}

#[test]
fn text_helpers() {
    assert!(text_is_blank(""));
    assert!(text_is_blank(" \t\u{3000}"));
    assert!(!text_is_blank(" a "));
    assert!(text_has_wss_scheme("wss://hub"));
    assert!(!text_has_wss_scheme("ws://hub"));
    assert!(!text_has_wss_scheme("wss:/"));
}

#[test]
fn bip_start_plan_parses_addresses_and_registration() {
    let mut config = bip("192.168.1.20");
    if let TransportConfig::Bip(value) = &mut config.transport {
        value.port = 47808;
        value.broadcast = None;
        value.bbmd_address = Some("192.168.1.1:47809".to_owned());
        value.foreign_device_ttl = Some(60);
    }
    let TransportConfig::Bip(value) = &config.transport else {
        unreachable!()
    };
    let plan = plan_bip_start(&config, value).unwrap();
    assert_eq!(plan.interface, [192, 168, 1, 20]);
    assert_eq!(plan.port, 47808);
    assert_eq!(plan.broadcast, [255, 255, 255, 255]);
    assert_eq!(plan.foreign_device, Some(([192, 168, 1, 1], 47809, 60)));
}

#[test]
fn bip_interfaces_on_same_port_conflict() {
    assert!(must_stop_before_replacement(&bip("10.0.0.1").transport, &bip("10.0.0.1").transport));
    assert!(!must_stop_before_replacement(&bip("10.0.0.1").transport, &bip("10.0.0.2").transport));
    assert!(!must_stop_before_replacement(&bip("10.0.0.1").transport, &mstp("/dev/ttyS0").transport));
}

#[test]
fn sc_reconnect_settings_are_bounded() {
    let config = sc();
    let TransportConfig::Sc(value) = &config.transport else {
        unreachable!()
    };
    let reconnect = sc_reconnect_config(value);
    assert_eq!(reconnect.initial_delay_ms, 100);
    assert_eq!(reconnect.max_delay_ms, 1_000);
    assert_eq!(reconnect.max_retries, 3);
    assert!(!reconnect.retry_forever);
}

#[test]
fn address_faults_name_the_attachment_and_the_text() {
    let error = validate_config(&bip("definitely-not-an-ip")).unwrap_err();
    assert_eq!(
        error.message,
        "attachment 1 has invalid B/IP interface definitely-not-an-ip: invalid IPv4 address syntax"
    );
    let mut config = bip("127.0.0.1");
    let TransportConfig::Bip(value) = &mut config.transport else {
        unreachable!()
    };
    value.broadcast = Some("255.255.255.256".to_owned());
    let error = validate_config(&config).unwrap_err();
    assert_eq!(error.message, "attachment 1 has invalid B/IP broadcast: invalid IPv4 address syntax");
    let mut config = bip("127.0.0.1");
    let TransportConfig::Bip(value) = &mut config.transport else {
        unreachable!()
    };
    value.bbmd_address = Some("not-a-bbmd".to_owned());
    value.foreign_device_ttl = Some(60);
    let error = validate_config(&config).unwrap_err();
    assert_eq!(
        error.message,
        "attachment 1 has invalid B/IP BBMD address not-a-bbmd: invalid IPv4 socket address syntax"
    );
}
