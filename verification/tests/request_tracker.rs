use bacnet_stack::address::NpduAddress;
use bacnet_stack::request_tracker::{
    ConfirmedRequest, ConfirmedRequestAdmission, ConfirmedRequestTracker, MAX_TRACKED_REQUESTS,
    MAX_TRACKED_SERVICE_REQUEST_BYTES,
};

const WRITE_PROPERTY: u8 = 15;
const DELETE_OBJECT: u8 = 11;

fn request(invoke_id: u8, body: &[u8]) -> ConfirmedRequest {
    ConfirmedRequest {
        segmented: false,
        more_follows: false,
        segmented_response_accepted: true,
        max_segments: Some(4),
        max_apdu_length: 480,
        invoke_id,
        sequence_number: None,
        proposed_window_size: None,
        service_choice: WRITE_PROPERTY,
        service_request: body.to_vec(),
    }
}

fn routed(network: u16, mac: &[u8]) -> NpduAddress {
    NpduAddress::new(network, mac.to_vec())
}

fn expect_new(admission: ConfirmedRequestAdmission) -> Option<u64> {
    match admission {
        ConfirmedRequestAdmission::New(ticket) => ticket,
        ConfirmedRequestAdmission::Duplicate => panic!("first request was a duplicate"),
    }
}

#[test]
fn exact_request_is_duplicate_only_while_pending() {
    let mut tracker = ConfirmedRequestTracker::new();
    let req = request(1, b"request");
    let pending = expect_new(tracker.begin(b"peer", None, req.clone()));
    assert!(matches!(
        tracker.begin(b"peer", None, req.clone()),
        ConfirmedRequestAdmission::Duplicate
    ));

    tracker.complete(pending);
    let reused = expect_new(tracker.begin(b"peer", None, req.clone()));
    assert!(matches!(
        tracker.begin(b"peer", None, req),
        ConfirmedRequestAdmission::Duplicate
    ));
    tracker.complete(reused);
}

#[test]
fn completion_allows_exact_and_changed_invoke_reuse() {
    let mut tracker = ConfirmedRequestTracker::new();
    let first = request(7, b"one");
    let ticket = expect_new(tracker.begin(b"peer", None, first.clone()));
    tracker.complete(ticket);

    let ticket = expect_new(tracker.begin(b"peer", None, first));
    tracker.complete(ticket);
    let ticket = expect_new(tracker.begin(b"peer", None, request(7, b"two")));
    tracker.complete(ticket);
    let mut changed_service = request(7, b"one");
    changed_service.service_choice = DELETE_OBJECT;
    assert!(matches!(
        tracker.begin(b"peer", None, changed_service),
        ConfirmedRequestAdmission::New(_)
    ));
}

#[test]
fn canonical_routed_origin_ignores_router_and_peers_remain_independent() {
    let mut tracker = ConfirmedRequestTracker::new();
    let req = request(2, b"same");
    let origin = routed(5, b"origin");
    let pending = expect_new(tracker.begin(b"router-a", Some(&origin), req.clone()));
    assert!(matches!(
        tracker.begin(b"router-b", Some(&origin), req.clone()),
        ConfirmedRequestAdmission::Duplicate
    ));
    assert!(matches!(
        tracker.begin(b"router-b", Some(&routed(6, b"origin")), req.clone()),
        ConfirmedRequestAdmission::New(_)
    ));
    assert!(matches!(
        tracker.begin(b"direct-a", None, req.clone()),
        ConfirmedRequestAdmission::New(_)
    ));
    assert!(matches!(
        tracker.begin(b"direct-b", None, req.clone()),
        ConfirmedRequestAdmission::New(_)
    ));
    tracker.complete(pending);

    let invalid = routed(0, b"claimed-origin");
    let invalid_pending = expect_new(tracker.begin(b"router-c", Some(&invalid), req.clone()));
    assert!(matches!(
        tracker.begin(b"router-d", Some(&invalid), req),
        ConfirmedRequestAdmission::New(_)
    ));
    tracker.complete(invalid_pending);
}

#[test]
fn sequential_completion_reclaims_capacity_across_invoke_id_wrap() {
    let mut tracker = ConfirmedRequestTracker::new();
    for index in 0..512usize {
        let invoke_id = index as u8;
        let body = [(index & 0xff) as u8, (index >> 8) as u8];
        let ticket = expect_new(tracker.begin(b"peer", None, request(invoke_id, &body)));
        tracker.complete(ticket);
        assert_eq!(tracker.pending_count(), 0);
    }

    let ticket = expect_new(tracker.begin(b"peer", None, request(0, &[0, 0])));
    tracker.complete(ticket);
}

#[test]
fn all_pending_capacity_and_oversize_requests_fall_back_untracked() {
    let mut tracker = ConfirmedRequestTracker::new();
    let mut pending = Vec::new();
    for index in 0..MAX_TRACKED_REQUESTS {
        pending.push(expect_new(tracker.begin(
            b"peer",
            None,
            request(4, &[index as u8, (index >> 8) as u8]),
        )));
    }
    assert!(matches!(
        tracker.begin(b"peer", None, request(4, &[0, 0])),
        ConfirmedRequestAdmission::Duplicate
    ));
    let fallback = expect_new(tracker.begin(b"peer", None, request(4, b"fallback")));
    assert!(fallback.is_none());
    assert_eq!(tracker.pending_count(), MAX_TRACKED_REQUESTS);
    tracker.complete(fallback);
    assert!(matches!(
        tracker.begin(b"peer", None, request(4, b"fallback")),
        ConfirmedRequestAdmission::New(_)
    ));
    for ticket in pending {
        tracker.complete(ticket);
    }

    let oversized = expect_new(tracker.begin(
        b"peer",
        None,
        request(5, &vec![0; MAX_TRACKED_SERVICE_REQUEST_BYTES + 1]),
    ));
    assert!(oversized.is_none());
}

#[test]
fn raii_drop_reclaims_cancelled_pending_and_restart_allows_service_again() {
    let mut tracker = ConfirmedRequestTracker::new();
    let req = request(6, b"cancelled");
    let pending = expect_new(tracker.begin(b"peer", None, req.clone()));
    tracker.complete(pending);
    assert!(matches!(
        tracker.begin(b"peer", None, req.clone()),
        ConfirmedRequestAdmission::New(_)
    ));

    let mut restarted = ConfirmedRequestTracker::new();
    assert!(matches!(
        restarted.begin(b"peer", None, req),
        ConfirmedRequestAdmission::New(_)
    ));
}
