use bacnet_stack::bvlc::BvlcResultCode;
use bacnet_stack::foreign_device::{
    renewal_interval_ms, ForeignDeviceRegistration, ForeignDeviceRegistrationState,
};

const START: u64 = 100_000;

#[test]
fn transitions_reject_expire_and_recover_without_losing_result() {
    let mut handle = ForeignDeviceRegistration::new(2, START);
    let start = START;
    assert_eq!(
        handle.status_at(start).state,
        ForeignDeviceRegistrationState::Pending
    );

    handle.record_result(BvlcResultCode::SUCCESSFUL_COMPLETION, start, 1_000);
    assert_eq!(
        handle.status_at(start).state,
        ForeignDeviceRegistrationState::Registered
    );

    handle.record_result(BvlcResultCode::REGISTER_FOREIGN_DEVICE_NAK, start + 1_000, 1_000);
    assert_eq!(
        handle.status_at(start + 1_000).state,
        ForeignDeviceRegistrationState::Rejected
    );

    handle.record_no_response(start + 2_000, 1_000);
    assert_eq!(
        handle.status_at(start + 2_000).state,
        ForeignDeviceRegistrationState::Expired
    );

    handle.record_result(BvlcResultCode::SUCCESSFUL_COMPLETION, start + 3_000, 1_000);
    let recovered = handle.status_at(start + 3_000);
    assert_eq!(recovered.state, ForeignDeviceRegistrationState::Registered);
    assert_eq!(
        recovered.last_result_code,
        Some(BvlcResultCode::SUCCESSFUL_COMPLETION)
    );
}

#[test]
fn renewal_is_half_the_ttl_and_at_least_one_millisecond() {
    assert_eq!(renewal_interval_ms(4), 2_000);
    assert_eq!(renewal_interval_ms(1), 500);
    assert_eq!(renewal_interval_ms(0), 1);
}

#[test]
fn seconds_to_renewal_round_up_and_vanish_when_rejected() {
    let mut handle = ForeignDeviceRegistration::new(60, START);
    handle.record_result(BvlcResultCode::SUCCESSFUL_COMPLETION, START, 30_000);
    assert_eq!(handle.status_at(START + 1).seconds_to_renewal, Some(30));
    assert_eq!(handle.status_at(START + 29_001).seconds_to_renewal, Some(1));
    assert_eq!(handle.status_at(START + 40_000).seconds_to_renewal, Some(0));
    handle.record_result(BvlcResultCode::REGISTER_FOREIGN_DEVICE_NAK, START + 40_000, 30_000);
    assert_eq!(handle.status_at(START + 40_000).seconds_to_renewal, None);
}

#[test]
fn pending_registration_expires_after_ttl_without_answer() {
    let mut handle = ForeignDeviceRegistration::new(5, START);
    assert_eq!(handle.status_at(START + 4_999).state, ForeignDeviceRegistrationState::Pending);
    assert_eq!(handle.status_at(START + 5_000).state, ForeignDeviceRegistrationState::Expired);
    assert_eq!(handle.status_at(START + 5_000).seconds_to_renewal, None);
}
