use bacnet_stack::bbmd::{BdtEntry, MAX_FDT_ENTRIES};
use bacnet_stack::bip_transport::{unicast_frame, BipSettings};
use bacnet_stack::error::{Error, TransportErrorKind};

fn settings() -> BipSettings {
    BipSettings::new([127, 0, 0, 1], 0xBAC0, [192, 168, 1, 255])
}

#[test]
fn socket_options_are_fixed_at_start() {
    let mut s = settings();
    assert!(s.set_reuse_port(true).is_ok());
    assert!(s.commit_start().is_ok());
    match s.set_reuse_port(false) {
        Err(Error::Transport { kind, .. }) => assert_eq!(kind, TransportErrorKind::InvalidInput),
        other => panic!("unexpected {other:?}"),
    }
    assert!(matches!(s.commit_start(), Err(Error::Transport { .. })));
}

#[test]
fn zero_ttl_is_rejected_before_socket_or_registration_task_start() {
    let mut s = settings();
    s.register_as_foreign_device(([192, 0, 2, 1], 47808), 0);
    assert!(matches!(s.commit_start(), Err(Error::Encoding(_))));
    assert!(s.set_reuse_port(true).is_ok());
}

#[test]
fn bbmd_settings_require_bbmd_mode() {
    let mut s = settings();
    assert!(s.set_bbmd_accept_foreign_devices(false).unwrap_err().is_encoding());
    assert!(s.set_bbmd_max_fdt_entries(10).unwrap_err().is_encoding());
    s.set_bbmd_management_acl(vec![[10, 0, 0, 1]]);
    assert!(s.take_bbmd_config().is_none());

    let peer = BdtEntry { ip: [192, 0, 2, 17], port: 47808, broadcast_mask: [255, 255, 255, 255] };
    s.enable_bbmd(vec![peer]);
    assert!(s.set_bbmd_max_fdt_entries(0).unwrap_err().is_encoding());
    assert!(s.set_bbmd_max_fdt_entries(MAX_FDT_ENTRIES + 1).unwrap_err().is_encoding());
    assert!(s.set_bbmd_max_fdt_entries(32).is_ok());
    assert!(s.set_bbmd_accept_foreign_devices(false).is_ok());
    s.set_bbmd_management_acl(vec![[10, 0, 0, 1]]);
    let config = s.take_bbmd_config().unwrap();
    assert_eq!(config.initial_bdt, vec![peer]);
    assert_eq!(config.management_acl, vec![[10, 0, 0, 1]]);
    assert!(!config.accept_foreign_devices);
    assert_eq!(config.max_fdt_entries, 32);
    assert!(s.take_bbmd_config().is_none());
}

#[test]
fn enabled_bbmd_starts_open_with_full_capacity() {
    let mut s = settings();
    s.enable_bbmd(Vec::new());
    let config = s.take_bbmd_config().unwrap();
    assert!(config.management_acl.is_empty());
    assert!(config.accept_foreign_devices);
    assert_eq!(config.max_fdt_entries, MAX_FDT_ENTRIES);
}

#[test]
fn broadcasts_go_to_the_link_or_through_the_bbmd() {
    let mut s = settings();
    s.record_bound_port(0xBAC1);
    let (dest, frame) = s.broadcast_frame(&[1, 2]).unwrap();
    assert_eq!(dest, ([192, 168, 1, 255], 0xBAC1));
    assert_eq!(frame, vec![0x81, 0x0B, 0x00, 0x06, 1, 2]);
    s.register_as_foreign_device(([192, 0, 2, 1], 47808), 60);
    let (dest, frame) = s.broadcast_frame(&[1, 2]).unwrap();
    assert_eq!(dest, ([192, 0, 2, 1], 47808));
    assert_eq!(frame, vec![0x81, 0x09, 0x00, 0x06, 1, 2]);
}

#[test]
fn unicasts_need_a_six_byte_mac() {
    let (dest, frame) = unicast_frame(&[9], &[10, 0, 0, 7, 0xBA, 0xC0]).unwrap();
    assert_eq!(dest, ([10, 0, 0, 7], 0xBAC0));
    assert_eq!(frame, vec![0x81, 0x0A, 0x00, 0x05, 9]);
    assert!(unicast_frame(&[9], &[10, 0, 0, 7]).unwrap_err().is_encoding());
}
