use bacnet_stack::bbmd::{encode_bdt_entries, BbmdState, BdtEntry};
use bacnet_stack::bip_start::{
    check_bip_start, initial_bdt, is_broadcast_mac, start_bbmd, BbmdConfig,
};
use bacnet_stack::error::{Error, TransportErrorKind};

const LOCAL_IP: [u8; 4] = [192, 0, 2, 10];
const PORT: u16 = 47808;

fn peer(last: u8) -> BdtEntry {
    BdtEntry { ip: [192, 0, 2, last], port: PORT, broadcast_mask: [255, 255, 255, 255] }
}

fn committed(entries: Vec<BdtEntry>) -> Vec<BdtEntry> {
    let mut state = BbmdState::new(LOCAL_IP, PORT);
    state.set_bdt(entries).unwrap();
    state.bdt().to_vec()
}

fn config(initial_bdt: Vec<BdtEntry>) -> BbmdConfig {
    BbmdConfig {
        initial_bdt,
        management_acl: vec![[192, 0, 2, 50]],
        accept_foreign_devices: false,
        max_fdt_entries: 64,
    }
}

#[test]
fn start_refuses_a_second_start_and_a_zero_ttl() {
    match check_bip_start(true, None) {
        Err(Error::Transport { kind, .. }) => assert_eq!(kind, TransportErrorKind::AlreadyExists),
        other => panic!("unexpected {other:?}"),
    }
    assert!(matches!(check_bip_start(false, Some(0)), Err(Error::Encoding(_))));
    assert!(check_bip_start(false, Some(60)).is_ok());
    assert!(check_bip_start(false, None).is_ok());
}

#[test]
fn valid_persisted_table_wins_over_configuration() {
    let state = BbmdState::new(LOCAL_IP, PORT);
    let persisted = encode_bdt_entries(&[peer(20)]);
    let chosen = initial_bdt(&state, Some(&persisted), vec![peer(30)]);
    assert_eq!(chosen, committed(vec![peer(20)]));
    assert!(chosen.contains(&peer(20)));
    assert!(!chosen.contains(&peer(30)));
}

#[test]
fn unreadable_or_invalid_persisted_table_falls_back_to_configuration() {
    let state = BbmdState::new(LOCAL_IP, PORT);
    assert_eq!(initial_bdt(&state, None, vec![peer(30)]), vec![peer(30)]);
    assert_eq!(initial_bdt(&state, Some(&[1, 2, 3]), vec![peer(30)]), vec![peer(30)]);
    let zero_port = BdtEntry { ip: [192, 0, 2, 21], port: 0, broadcast_mask: [255, 255, 255, 255] };
    let invalid = encode_bdt_entries(&[zero_port]);
    assert_eq!(initial_bdt(&state, Some(&invalid), vec![peer(30)]), vec![peer(30)]);
}

#[test]
fn started_bbmd_takes_its_configuration() {
    let state = start_bbmd(LOCAL_IP, PORT, None, config(vec![peer(30)])).unwrap();
    assert_eq!(state.bdt(), committed(vec![peer(30)]).as_slice());
    assert_eq!(state.management_acl(), &[[192, 0, 2, 50]]);
    assert!(!state.accepts_foreign_devices());
    assert_eq!(state.max_fdt_entries(), 64);
}

#[test]
fn invalid_configured_table_fails_the_start() {
    let zero_port = BdtEntry { ip: [192, 0, 2, 21], port: 0, broadcast_mask: [255, 255, 255, 255] };
    let err = start_bbmd(LOCAL_IP, PORT, None, config(vec![zero_port])).unwrap_err();
    assert!(err.is_encoding());
    assert!(err.message().starts_with("BDT configuration error"));
}

#[test]
fn is_broadcast_mac_requires_configured_ip_and_port() {
    let broadcast = [192, 168, 1, 255];
    let port = 0xBAC0;
    assert!(is_broadcast_mac(broadcast, port, &[192, 168, 1, 255, 0xBA, 0xC0]));
    assert!(!is_broadcast_mac(broadcast, port, &[192, 168, 1, 255, 0xBA, 0xC1]));
    assert!(!is_broadcast_mac(broadcast, port, &[255, 255, 255, 255, 0xBA, 0xC0]));
    assert!(!is_broadcast_mac(broadcast, port, &[192, 168, 1, 7, 0xBA, 0xC0]));
    assert!(!is_broadcast_mac(broadcast, port, &[192, 168, 1, 255]));
}
