use bacnet_stack::address::NpduAddress;
use bacnet_stack::tsm::{CovAckResult, ServerTsm, MAX_LEARNED_ROUTERS};

#[test]
fn allocation_skips_pending_ids_and_wraps() {
    let mut tsm: ServerTsm<&'static str> = ServerTsm::new();
    assert_eq!(tsm.allocate(b"peer", None, "a"), Some(0));
    assert_eq!(tsm.allocate(b"peer", None, "b"), Some(1));
    tsm.register(b"peer", None, 2, "c");
    assert_eq!(tsm.allocate(b"peer", None, "d"), Some(3));
    // Another peer has its own identities.
    assert_eq!(tsm.allocate(b"other", None, "e"), Some(4));
    assert_eq!(tsm.record_result(b"peer", None, 1), Some("b"));
    assert_eq!(tsm.record_result(b"peer", None, 1), None);
}

#[test]
fn all_ids_pending_exhausts_allocation() {
    let mut tsm: ServerTsm<u16> = ServerTsm::new();
    for i in 0..256u16 {
        assert_eq!(tsm.allocate(b"p", None, i), Some(i as u8));
    }
    assert_eq!(tsm.allocate(b"p", None, 999), None);
    tsm.remove(b"p", None, 17);
    assert_eq!(tsm.allocate(b"p", None, 1000), Some(17));
}

#[test]
fn correlation_tries_router_unknown_form_and_learns_router() {
    let mut tsm: ServerTsm<CovAckResult> = ServerTsm::new();
    let origin = NpduAddress::new(20, vec![0x42]);
    tsm.register(b"", Some(&origin), 9, CovAckResult::Ack);
    assert_eq!(tsm.cached_router(20), None);
    assert_eq!(
        tsm.record_result_correlated(b"router-1", Some(&origin), 9),
        Some(CovAckResult::Ack)
    );
    assert_eq!(tsm.cached_router(20), Some(b"router-1".to_vec()));
    // A miss teaches nothing.
    assert_eq!(tsm.record_result_correlated(b"router-2", Some(&origin), 9), None);
    assert_eq!(tsm.cached_router(20), Some(b"router-1".to_vec()));
}

#[test]
fn legacy_wildcard_matches_last() {
    let mut tsm: ServerTsm<u8> = ServerTsm::new();
    tsm.register(b"", None, 3, 1);
    assert_eq!(tsm.record_result_correlated(b"any", None, 3), Some(1));
}

#[test]
fn router_cache_is_bounded_but_updates_known_networks() {
    let mut tsm: ServerTsm<u8> = ServerTsm::new();
    for network in 0..MAX_LEARNED_ROUTERS as u16 {
        tsm.learn_router(network, &[network as u8]);
    }
    tsm.learn_router(1000, &[9]);
    assert_eq!(tsm.cached_router(1000), None);
    tsm.learn_router(5, &[77]);
    assert_eq!(tsm.cached_router(5), Some(vec![77]));
    tsm.learn_router(6, &[]);
    assert_eq!(tsm.cached_router(6), Some(vec![6]));
}
