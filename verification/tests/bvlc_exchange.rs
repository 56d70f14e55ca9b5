use bacnet_stack::bbmd::{encode_bdt_entries, BdtEntry};
use bacnet_stack::bvlc::{BvlcFunction, BvlcResponseKind, BvllMessage};
use bacnet_stack::bvlc_exchange::{
    read_bdt_response, read_fdt_response, BeginOutcome, BvlcExchange, BVLC_RESPONSE_TIMEOUT_MS,
};
use bacnet_stack::error::Error;

const BBMD: ([u8; 4], u16) = ([192, 0, 2, 1], 47808);
const OTHER: ([u8; 4], u16) = ([192, 0, 2, 2], 47808);

fn msg(function: BvlcFunction, payload: Vec<u8>) -> BvllMessage {
    BvllMessage { function, payload }
}

#[test]
fn bvlc_request_rejects_concurrent_calls() {
    let mut exchange = BvlcExchange::new();
    let first = exchange.begin(BBMD, BvlcResponseKind::ReadBroadcastDistributionTableAck, 0);
    assert_eq!(first, BeginOutcome::Started { id: 1 });
    let second = exchange.begin(OTHER, BvlcResponseKind::ReadForeignDeviceTableAck, 0);
    assert_eq!(second, BeginOutcome::Busy);
    let pending = exchange.pending().unwrap();
    assert_eq!(pending.id, 1);
    assert_eq!(pending.target, BBMD);
}

#[test]
fn only_the_target_and_expected_kind_answer() {
    let mut exchange = BvlcExchange::new();
    exchange.begin(BBMD, BvlcResponseKind::ReadBroadcastDistributionTableAck, 0);
    let ack = msg(BvlcFunction::READ_BROADCAST_DISTRIBUTION_TABLE_ACK, vec![]);
    assert_eq!(exchange.take_response(OTHER, &ack), None);
    let fdt_ack = msg(BvlcFunction::READ_FOREIGN_DEVICE_TABLE_ACK, vec![]);
    assert_eq!(exchange.take_response(BBMD, &fdt_ack), None);
    assert_eq!(exchange.take_response(BBMD, &ack), Some(1));
    assert!(exchange.pending().is_none());
    assert_eq!(exchange.take_response(BBMD, &ack), None);
}

#[test]
fn abandoned_target_stays_quiet_for_one_timeout() {
    let mut exchange = BvlcExchange::new();
    let BeginOutcome::Started { id } =
        exchange.begin(BBMD, BvlcResponseKind::RegisterForeignDeviceResult, 1_000)
    else {
        panic!("expected a started request");
    };
    exchange.finish(id, BBMD, true, 4_000);
    assert!(exchange.pending().is_none());
    let quiet_end = 4_000 + BVLC_RESPONSE_TIMEOUT_MS;
    assert_eq!(exchange.quiet_until(BBMD, 4_000), Some(quiet_end));
    assert_eq!(
        exchange.begin(BBMD, BvlcResponseKind::RegisterForeignDeviceResult, 5_000),
        BeginOutcome::Wait { until: quiet_end }
    );
    assert_eq!(
        exchange.begin(OTHER, BvlcResponseKind::RegisterForeignDeviceResult, 5_000),
        BeginOutcome::Started { id: 2 }
    );
    exchange.finish(2, OTHER, false, 5_500);
    assert_eq!(exchange.quiet_until(OTHER, 5_500), None);
    assert_eq!(
        exchange.begin(BBMD, BvlcResponseKind::RegisterForeignDeviceResult, quiet_end),
        BeginOutcome::Started { id: 3 }
    );
    assert_eq!(exchange.quiet_until(BBMD, 0), None);
}

#[test]
fn longer_quiet_period_is_kept() {
    let mut exchange = BvlcExchange::new();
    exchange.begin(BBMD, BvlcResponseKind::RegisterForeignDeviceResult, 0);
    exchange.finish(1, BBMD, true, 10_000);
    exchange.finish(1, BBMD, true, 1_000);
    assert_eq!(exchange.quiet_until(BBMD, 0), Some(10_000 + BVLC_RESPONSE_TIMEOUT_MS));
    exchange.finish(1, BBMD, true, u64::MAX - 1);
    assert_eq!(exchange.quiet_until(BBMD, 0), Some(u64::MAX));
}

#[test]
fn read_answers_decode_or_report_the_result() {
    let entry = BdtEntry { ip: [192, 0, 2, 9], port: 47808, broadcast_mask: [255, 255, 255, 255] };
    let ack = msg(BvlcFunction::READ_BROADCAST_DISTRIBUTION_TABLE_ACK, encode_bdt_entries(&[entry]));
    assert_eq!(read_bdt_response(&ack).unwrap(), vec![entry]);
    match read_bdt_response(&msg(BvlcFunction::BVLC_RESULT, vec![0, 0x20])) {
        Err(Error::Bvlc { result_code }) => assert_eq!(result_code, 0x0020),
        other => panic!("unexpected {other:?}"),
    }
    assert!(read_bdt_response(&msg(BvlcFunction::BVLC_RESULT, vec![0])).unwrap_err().is_encoding());
    assert!(read_bdt_response(&msg(BvlcFunction::FORWARDED_NPDU, vec![])).unwrap_err().is_encoding());
    let short = msg(BvlcFunction::READ_BROADCAST_DISTRIBUTION_TABLE_ACK, vec![1, 2, 3]);
    assert!(read_bdt_response(&short).unwrap_err().is_encoding());
    let fdt = msg(BvlcFunction::READ_FOREIGN_DEVICE_TABLE_ACK, vec![10, 0, 0, 9, 0xBA, 0xC1, 0, 60, 0, 75]);
    let entries = read_fdt_response(&fdt).unwrap();
    assert_eq!(entries.len(), 1);
    assert_eq!(entries[0].ttl, 60);
    assert_eq!(entries[0].seconds_remaining, 75);
    match read_fdt_response(&msg(BvlcFunction::BVLC_RESULT, vec![0, 0x40])) {
        Err(Error::Bvlc { result_code }) => assert_eq!(result_code, 0x0040),
        other => panic!("unexpected {other:?}"),
    }
}
