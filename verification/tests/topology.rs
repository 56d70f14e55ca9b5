use bacnet_stack::error::{AttachmentId, ErrorCode};
use bacnet_stack::topology::{non_bip_topology, AttachmentTopology, BdtRecord, FdtRecord, TopologyRequest, TopologyWalk};

fn record(last: u8) -> BdtRecord {
    BdtRecord { ip: [10, 0, 0, last], port: 0xBAC0, broadcast_mask: [255, 255, 255, 255] }
}

fn mac(last: u8) -> Vec<u8> {
    vec![10, 0, 0, last, 0xBA, 0xC0]
}

#[test]
fn bdt_record_mac_is_address_then_port() {
    assert_eq!(record(7).mac(), vec![10, 0, 0, 7, 0xBA, 0xC0]);
}

#[test]
fn default_request_reads_fdts_with_bound() {
    let request = TopologyRequest::default();
    assert!(request.include_fdt);
    assert_eq!(request.max_bbmds_per_attachment, 256);
    assert!(request.attachment_ids.is_empty());
}

#[test]
fn walk_visits_each_bbmd_once_in_breadth_first_order() {
    let mut walk = TopologyWalk::new(vec![mac(1)], true, 10);
    let first = walk.next_target().unwrap();
    assert_eq!(first, mac(1));
    walk.visit(first, vec![record(1), record(2), record(3)], vec![FdtRecord { ip: [1, 1, 1, 1], port: 1, ttl: 60, seconds_remaining: 30 }]);
    let second = walk.next_target().unwrap();
    assert_eq!(second, mac(2));
    walk.visit(second, vec![record(1), record(3)], Vec::new());
    let third = walk.next_target().unwrap();
    assert_eq!(third, mac(3));
    walk.visit(third, vec![record(2)], Vec::new());
    assert!(walk.next_target().is_none());
    assert_eq!(walk.visited_count(), 3);
    let (snapshots, truncated) = walk.finish();
    assert!(!truncated);
    assert_eq!(snapshots.len(), 3);
    assert_eq!(snapshots[0].fdt.len(), 1);
    let macs: Vec<Vec<u8>> = snapshots.iter().map(|s| s.mac.clone()).collect();
    assert_eq!(macs, vec![mac(1), mac(2), mac(3)]);
    assert_eq!(snapshots[1].bdt, vec![record(1), record(3)]);
}

#[test]
fn failed_read_is_omitted_from_the_snapshots() {
    let mut walk = TopologyWalk::new(vec![mac(1), mac(2)], true, 5);
    let _failed = walk.next_target().unwrap();
    let second = walk.next_target().unwrap();
    walk.visit(second, vec![record(9)], Vec::new());
    assert!(walk.next_target().is_some());
    let (snapshots, _) = walk.finish();
    assert_eq!(snapshots.len(), 1);
    assert_eq!(snapshots[0].mac, mac(2));
}

#[test]
fn walk_stops_truncated_at_bound() {
    let mut walk = TopologyWalk::new(vec![mac(1), mac(2), mac(3)], false, 2);
    let a = walk.next_target().unwrap();
    walk.visit(a, Vec::new(), vec![FdtRecord { ip: [1, 1, 1, 1], port: 1, ttl: 60, seconds_remaining: 30 }]);
    let b = walk.next_target().unwrap();
    walk.visit(b, Vec::new(), Vec::new());
    assert!(walk.next_target().is_none());
    assert!(walk.truncated());
    assert!(walk.next_target().is_none());
    let (snapshots, truncated) = walk.finish();
    assert!(truncated);
    assert!(snapshots[0].fdt.is_empty(), "FDTs are dropped when not requested");
}

#[test]
fn failed_reads_leave_the_target_visited() {
    let mut walk = TopologyWalk::new(vec![mac(1), mac(1)], true, 5);
    let _failed = walk.next_target().unwrap();
    assert!(walk.next_target().is_none());
    assert_eq!(walk.visited_count(), 1);
    assert!(!walk.truncated());
}

#[test]
fn non_bip_attachment_reports_bbmd_requests_as_configuration_errors() {
    let id = AttachmentId::new(3);
    let (topology, errors): (AttachmentTopology<()>, _) = non_bip_topology(id, vec![9], &vec![vec![10, 0, 0, 1]], false);
    assert_eq!(topology.local_mac, vec![9]);
    assert!(topology.bbmds.is_empty());
    assert!(!topology.truncated);
    assert_eq!(errors.len(), 1);
    assert_eq!(errors[0].code, ErrorCode::InvalidConfig);
    assert_eq!(errors[0].attachment_id, Some(id));
    assert_eq!(errors[0].message, "BBMD/FDT topology operations are only available on B/IP attachments");
    let (_, quiet): (AttachmentTopology<()>, _) = non_bip_topology(id, vec![9], &Vec::new(), false);
    assert!(quiet.is_empty());
    let (_, fdt): (AttachmentTopology<()>, _) = non_bip_topology(id, vec![9], &Vec::new(), true);
    assert_eq!(fdt.len(), 1);
}
