use std::sync::atomic::{AtomicUsize, Ordering};

use bacnet_stack::bvlc::{
    bvlc_result_error, combine_policy_verdict, decode_bvll, decode_bvlc_result_code, decode_forwarded_npdu, encode_bvlc_result,
    encode_bvll, encode_bvll_forwarded, evaluate_narrowing_policy, expect_bvlc_function,
    is_covered_management_request, narrow_verdict, valid_reject, BvlcFunction, BvlcResponseKind,
    BvlcResultCode, BvllMessage, BvllPolicy, BvllPolicyContext, BvllPolicyVerdict,
    EvaluatedBvllPolicy, POLICY_PAYLOAD_PREFIX_MAX,
};
use bacnet_stack::error::Error;

struct CountingPolicy(AtomicUsize, BvllPolicyVerdict);

impl BvllPolicy for CountingPolicy {
    fn evaluate(&self, _context: &BvllPolicyContext) -> BvllPolicyVerdict {
        self.0.fetch_add(1, Ordering::Relaxed);
        self.1
    }
}

fn result(payload: Vec<u8>) -> BvllMessage {
    BvllMessage { function: BvlcFunction::BVLC_RESULT, payload }
}

#[test]
fn hard_gate_denial_has_precedence_and_skips_extension() {
    let policy = CountingPolicy(AtomicUsize::new(0), BvllPolicyVerdict::Continue);
    let context = BvllPolicyContext::new(
        BvlcFunction::REGISTER_FOREIGN_DEVICE,
        [192, 0, 2, 1],
        47808,
        &[0; 400],
    );
    assert_eq!(context.payload_prefix.len(), POLICY_PAYLOAD_PREFIX_MAX);
    assert_eq!(
        evaluate_narrowing_policy(false, Some(&policy), &context),
        EvaluatedBvllPolicy::Drop
    );
    assert_eq!(policy.0.load(Ordering::Relaxed), 0);
}

#[test]
fn invalid_cross_function_rejection_fails_closed() {
    let policy = CountingPolicy(
        AtomicUsize::new(0),
        BvllPolicyVerdict::Reject(BvlcResultCode::READ_FOREIGN_DEVICE_TABLE_NAK),
    );
    let context =
        BvllPolicyContext::new(BvlcFunction::REGISTER_FOREIGN_DEVICE, [192, 0, 2, 1], 47808, &[]);
    assert_eq!(
        evaluate_narrowing_policy(true, Some(&policy), &context),
        EvaluatedBvllPolicy::Drop
    );
}

#[test]
fn own_nak_rejection_and_absent_policy_pass_through() {
    let policy = CountingPolicy(
        AtomicUsize::new(0),
        BvllPolicyVerdict::Reject(BvlcResultCode::REGISTER_FOREIGN_DEVICE_NAK),
    );
    let context =
        BvllPolicyContext::new(BvlcFunction::REGISTER_FOREIGN_DEVICE, [192, 0, 2, 1], 47808, &[1, 2]);
    assert_eq!(context.payload_len, 2);
    assert_eq!(context.payload_prefix, vec![1, 2]);
    assert_eq!(
        evaluate_narrowing_policy(true, Some(&policy), &context),
        EvaluatedBvllPolicy::Reject(BvlcResultCode::REGISTER_FOREIGN_DEVICE_NAK)
    );
    assert_eq!(policy.0.load(Ordering::Relaxed), 1);
    assert_eq!(
        evaluate_narrowing_policy::<CountingPolicy>(true, None, &context),
        EvaluatedBvllPolicy::Continue
    );
    assert_eq!(
        narrow_verdict(Some(BvllPolicyVerdict::Drop), BvlcFunction::ORIGINAL_UNICAST_NPDU),
        EvaluatedBvllPolicy::Drop
    );
}

#[test]
fn function_and_result_codes_round_trip() {
    for raw in 0u8..=0x10 {
        assert_eq!(BvlcFunction::from_raw(raw).to_raw(), raw);
    }
    assert_eq!(BvlcFunction::from_raw(0x0B), BvlcFunction::ORIGINAL_BROADCAST_NPDU);
    assert_eq!(BvlcFunction::from_raw(0x42), BvlcFunction::Unknown(0x42));
    for raw in [0x0000u16, 0x0010, 0x0020, 0x0030, 0x0040, 0x0050, 0x0060, 0x0070] {
        assert_eq!(BvlcResultCode::from_raw(raw).to_raw(), raw);
    }
    assert_eq!(BvlcResultCode::from_raw(0x0030), BvlcResultCode::REGISTER_FOREIGN_DEVICE_NAK);
}

#[test]
fn result_codes_decode_from_two_byte_payloads_only() {
    assert_eq!(
        decode_bvlc_result_code(&result(vec![0x00, 0x30])).unwrap(),
        BvlcResultCode::REGISTER_FOREIGN_DEVICE_NAK
    );
    assert!(decode_bvlc_result_code(&result(vec![0x00])).unwrap_err().is_encoding());
    let ack = BvllMessage { function: BvlcFunction::READ_FOREIGN_DEVICE_TABLE_ACK, payload: vec![] };
    assert!(decode_bvlc_result_code(&ack).unwrap_err().is_encoding());
    assert!(expect_bvlc_function(&ack, BvlcFunction::READ_FOREIGN_DEVICE_TABLE_ACK).is_ok());
    assert!(expect_bvlc_function(&ack, BvlcFunction::BVLC_RESULT).is_err());
    match bvlc_result_error(&result(vec![0x00, 0x20])) {
        Error::Bvlc { result_code } => assert_eq!(result_code, 0x0020),
        other => panic!("unexpected {other:?}"),
    }
    assert!(bvlc_result_error(&result(vec![1, 2, 3])).is_encoding());
}

#[test]
fn responses_match_their_outstanding_request() {
    let success = result(vec![0, 0]);
    let register_nak = result(vec![0, 0x30]);
    let read_fdt_nak = result(vec![0, 0x40]);
    let malformed = result(vec![0]);
    let bdt_ack =
        BvllMessage { function: BvlcFunction::READ_BROADCAST_DISTRIBUTION_TABLE_ACK, payload: vec![] };
    let register = BvlcResponseKind::RegisterForeignDeviceResult;
    assert!(register.accepts(&success));
    assert!(register.accepts(&register_nak));
    assert!(!register.accepts(&read_fdt_nak));
    assert!(register.accepts(&malformed));
    assert!(!register.accepts(&bdt_ack));
    let read_bdt = BvlcResponseKind::ReadBroadcastDistributionTableAck;
    assert!(read_bdt.accepts(&bdt_ack));
    assert!(!read_bdt.accepts(&success));
    assert!(BvlcResponseKind::ReadForeignDeviceTableAck.accepts(&read_fdt_nak));
}

#[test]
fn rejections_and_management_quota_follow_the_function() {
    assert!(valid_reject(
        BvlcFunction::DISTRIBUTE_BROADCAST_TO_NETWORK,
        BvlcResultCode::DISTRIBUTE_BROADCAST_TO_NETWORK_NAK
    ));
    assert!(!valid_reject(BvlcFunction::ORIGINAL_UNICAST_NPDU, BvlcResultCode::SUCCESSFUL_COMPLETION));
    assert!(is_covered_management_request(BvlcFunction::DELETE_FOREIGN_DEVICE_TABLE_ENTRY));
    assert!(is_covered_management_request(BvlcFunction::READ_BROADCAST_DISTRIBUTION_TABLE));
    assert!(!is_covered_management_request(BvlcFunction::WRITE_BROADCAST_DISTRIBUTION_TABLE));
    assert!(!is_covered_management_request(BvlcFunction::FORWARDED_NPDU));
}

#[test]
fn bvll_frames_round_trip() {
    let frame = encode_bvll(BvlcFunction::ORIGINAL_UNICAST_NPDU, &[1, 2, 3]).unwrap();
    assert_eq!(frame, vec![0x81, 0x0A, 0x00, 0x07, 1, 2, 3]);
    let decoded = decode_bvll(&frame).unwrap();
    assert_eq!(decoded.function, BvlcFunction::ORIGINAL_UNICAST_NPDU);
    assert_eq!(decoded.payload, vec![1, 2, 3]);
    let empty = encode_bvll(BvlcFunction::READ_BROADCAST_DISTRIBUTION_TABLE, &[]).unwrap();
    assert_eq!(empty, vec![0x81, 0x02, 0x00, 0x04]);
    assert!(decode_bvll(&empty).unwrap().payload.is_empty());
}

#[test]
fn malformed_bvll_frames_are_refused() {
    assert!(decode_bvll(&[0x81, 0x0A, 0x00]).unwrap_err().is_encoding());
    assert!(decode_bvll(&[0x82, 0x0A, 0x00, 0x04]).unwrap_err().is_encoding());
    assert!(decode_bvll(&[0x81, 0x0A, 0x00, 0x06, 1]).unwrap_err().is_encoding());
    assert!(encode_bvll(BvlcFunction::FORWARDED_NPDU, &vec![0; 0xFFFF - 4]).is_ok());
    assert!(encode_bvll(BvlcFunction::FORWARDED_NPDU, &vec![0; 0xFFFF - 3]).unwrap_err().is_encoding());
}

#[test]
fn forwarded_npdu_carries_its_origin() {
    let frame = encode_bvll_forwarded([192, 0, 2, 7], 0xBAC0, &[0x01, 0x20]).unwrap();
    assert_eq!(frame, vec![0x81, 0x04, 0x00, 0x0C, 192, 0, 2, 7, 0xBA, 0xC0, 0x01, 0x20]);
    let decoded = decode_bvll(&frame).unwrap();
    assert_eq!(decoded.function, BvlcFunction::FORWARDED_NPDU);
    let (ip, port, npdu) = decode_forwarded_npdu(&decoded.payload).unwrap();
    assert_eq!((ip, port, npdu), ([192, 0, 2, 7], 0xBAC0, vec![0x01, 0x20]));
    assert!(decode_forwarded_npdu(&[1, 2, 3, 4, 5]).unwrap_err().is_encoding());
    assert!(encode_bvll_forwarded([0; 4], 1, &vec![0; 0xFFFF - 9]).unwrap_err().is_encoding());
}

#[test]
fn bvlc_result_frames_carry_the_code() {
    assert_eq!(
        encode_bvlc_result(BvlcResultCode::REGISTER_FOREIGN_DEVICE_NAK),
        vec![0x81, 0x00, 0x00, 0x06, 0x00, 0x30]
    );
    assert_eq!(
        encode_bvlc_result(BvlcResultCode::SUCCESSFUL_COMPLETION),
        vec![0x81, 0x00, 0x00, 0x06, 0x00, 0x00]
    );
}

#[test]
fn denied_hard_gate_drops_whatever_the_verdict() {
    let function = BvlcFunction::REGISTER_FOREIGN_DEVICE;
    let nak = Some(BvllPolicyVerdict::Reject(BvlcResultCode::REGISTER_FOREIGN_DEVICE_NAK));
    assert_eq!(combine_policy_verdict(false, nak, function), EvaluatedBvllPolicy::Drop);
    assert_eq!(combine_policy_verdict(false, None, function), EvaluatedBvllPolicy::Drop);
    assert_eq!(
        combine_policy_verdict(true, nak, function),
        EvaluatedBvllPolicy::Reject(BvlcResultCode::REGISTER_FOREIGN_DEVICE_NAK)
    );
    assert_eq!(combine_policy_verdict(true, Some(BvllPolicyVerdict::Drop), function), EvaluatedBvllPolicy::Drop);
    assert_eq!(combine_policy_verdict(true, None, function), EvaluatedBvllPolicy::Continue);
}
