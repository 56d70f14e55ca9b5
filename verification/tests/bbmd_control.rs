use bacnet_stack::bbmd::{bdt_peers, BbmdState, BdtEntry};
use bacnet_stack::bbmd_control::{BbmdControl, BbmdControlError, BbmdLifecycle};

const PORT: u16 = 0xBAC0;

fn entry(last: u8) -> BdtEntry {
    BdtEntry { ip: [10, 0, 0, last], port: PORT, broadcast_mask: [255, 255, 255, 255] }
}

fn running() -> BbmdControl {
    let mut control = BbmdControl::new();
    control.attach(BbmdState::new([192, 168, 1, 1], PORT), None);
    control
}

#[test]
fn lifecycle_gates_every_request() {
    let mut control = BbmdControl::new();
    assert_eq!(control.lifecycle(), BbmdLifecycle::NotStarted);
    assert_eq!(control.snapshot().unwrap_err(), BbmdControlError::NotStarted);
    assert_eq!(control.set_accept_foreign_devices(false), Err(BbmdControlError::NotStarted));
    control.attach(BbmdState::new([192, 168, 1, 1], PORT), None);
    assert_eq!(control.lifecycle(), BbmdLifecycle::Running);
    control.stop();
    assert_eq!(control.replace_bdt(vec![entry(5)]), Err(BbmdControlError::Stopped));
    assert_eq!(BbmdControlError::Stopped.message(), "BBMD has stopped");
}

#[test]
fn accepted_mutations_advance_the_revision() {
    let mut control = running();
    assert_eq!(control.replace_bdt(vec![entry(5), entry(5)]), Ok(1));
    assert_eq!(control.set_accept_foreign_devices(false), Ok(2));
    assert_eq!(control.set_max_fdt_entries(10), Ok(3));
    assert_eq!(control.set_management_acl(vec![[10, 0, 0, 9]]), Ok(4));
    let snapshot = control.snapshot().unwrap();
    assert_eq!(snapshot.revision, 4);
    assert_eq!(snapshot.bdt.len(), 2, "peer plus self");
    assert!(!snapshot.accept_foreign_devices);
    assert_eq!(snapshot.max_fdt_entries, 10);
    assert_eq!(snapshot.management_acl, vec![[10, 0, 0, 9]]);
    assert!(!snapshot.wire_bdt_writes_enabled);
}

#[test]
fn refused_values_change_nothing() {
    let mut control = running();
    let mut too_many = Vec::new();
    for i in 0..200u32 {
        too_many.push(entry((i % 250) as u8 + 1));
    }
    assert!(matches!(control.replace_bdt(too_many), Err(BbmdControlError::Invalid(_))));
    assert!(matches!(
        control.replace_bdt(vec![BdtEntry { ip: [10, 0, 0, 1], port: 0, broadcast_mask: [255; 4] }]),
        Err(BbmdControlError::Invalid(_))
    ));
    assert!(matches!(control.set_max_fdt_entries(0), Err(BbmdControlError::Invalid(_))));
    assert!(matches!(
        control.set_management_acl(vec![[1, 2, 3, 4]; 257]),
        Err(BbmdControlError::Invalid(_))
    ));
    let snapshot = control.snapshot().unwrap();
    assert_eq!(snapshot.revision, 0);
    assert!(snapshot.bdt.is_empty());
}

#[test]
fn prepare_then_commit_matches_replace() {
    let mut control = running();
    let table = control.prepare_bdt(&vec![entry(7)]).unwrap();
    assert_eq!(table.len(), 2);
    assert_eq!(control.commit_bdt(table.clone()), Ok(1));
    assert_eq!(control.snapshot().unwrap().bdt, table);
    // Committing the committed table again is accepted unchanged.
    assert_eq!(control.commit_bdt(table.clone()), Ok(2));
    assert_eq!(control.snapshot().unwrap().bdt, table);
}

#[test]
fn persisted_replace_keeps_only_the_peers() {
    let mut control = running();
    let table = control.prepare_bdt(&vec![entry(8)]).unwrap();
    assert!(table.len() >= 2, "the local entry is added");
    let peers = control.peers_to_persist(&table).unwrap();
    assert_eq!(peers, vec![entry(8)]);
    let revision = control.commit_bdt(table).unwrap();
    assert_eq!(control.snapshot().unwrap().revision, revision);
    let stopped = BbmdControl::new();
    assert_eq!(stopped.peers_to_persist(&[entry(8)]), Err(BbmdControlError::NotStarted));
}

#[test]
fn peers_of_a_table_leave_out_the_local_endpoint() {
    let local = BdtEntry { ip: [192, 0, 2, 1], port: 47808, broadcast_mask: [255, 255, 255, 255] };
    let table = vec![entry(3), local, entry(4)];
    assert_eq!(bdt_peers(&table, [192, 0, 2, 1], 47808), vec![entry(3), entry(4)]);
    assert_eq!(bdt_peers(&table, [192, 0, 2, 1], 47809), table);
}

#[test]
fn control_errors_read_as_text() {
    assert_eq!(BbmdControlError::Invalid("BDT exceeds hard cap".to_owned()).message(), "invalid BBMD control value: BDT exceeds hard cap");
    assert_eq!(BbmdControlError::Io("disk full".to_owned()).message(), "BBMD persistence failed: disk full");
    assert_eq!(BbmdControlError::Stopped.message(), "BBMD has stopped");
}
