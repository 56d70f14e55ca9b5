use bacnet_stack::error::ErrorCode;
use bacnet_stack::operation::{
    read_property_request, resolve_object, subscribe_cov_request, unsubscribe_cov_request,
    write_multiple_request, write_property_request, ClientRequest, ObservationKey, ObservationSpec,
    PropertyRead,
};

fn target(object_type: u16, object_instance: u32, property_id: u32) -> PropertyRead {
    PropertyRead { object_type, object_instance, property_id, array_index: None }
}

#[test]
fn read_request_names_the_object_and_property() {
    let read = PropertyRead { object_type: 0, object_instance: 7, property_id: 85, array_index: Some(2) };
    match read_property_request(&read).unwrap() {
        ClientRequest::ReadProperty { object, property_id, array_index } => {
            assert_eq!(object.object_type(), 0);
            assert_eq!(object.instance(), 7);
            assert_eq!(property_id, 85);
            assert_eq!(array_index, Some(2));
        }
        other => panic!("unexpected request {other:?}"),
    }
}

#[test]
fn unencodable_objects_are_configuration_errors() {
    let err = read_property_request(&target(0, 0x40_0000, 85)).unwrap_err();
    assert_eq!(err.code, ErrorCode::InvalidConfig);
    assert!(!err.retryable);
    assert!(err.attachment_id.is_none());
    assert!(resolve_object(0x400, 1).is_err());
    assert!(resolve_object(0x3FF, 0x3F_FFFF).is_ok());
    assert!(write_property_request(&target(2000, 1, 85), vec![1], None).is_err());
}

#[test]
fn write_request_carries_value_and_priority() {
    match write_property_request(&target(2, 3, 85), vec![0x44, 1, 2, 3, 4], Some(8)).unwrap() {
        ClientRequest::WriteProperty { object, property_id, array_index, value, priority } => {
            assert_eq!((object.object_type(), object.instance()), (2, 3));
            assert_eq!(property_id, 85);
            assert_eq!(array_index, None);
            assert_eq!(value, vec![0x44, 1, 2, 3, 4]);
            assert_eq!(priority, Some(8));
        }
        other => panic!("unexpected request {other:?}"),
    }
}

#[test]
fn write_multiple_groups_by_object_in_first_seen_order() {
    let writes = vec![
        (target(2, 1, 85), vec![1], Some(8)),
        (target(2, 2, 85), vec![2], None),
        (target(2, 1, 77), vec![3], None),
        (target(4, 9, 85), vec![4], Some(16)),
        (target(2, 2, 28), vec![5], None),
    ];
    match write_multiple_request(&writes).unwrap() {
        ClientRequest::WritePropertyMultiple { specs } => {
            let objects: Vec<(u16, u32)> =
                specs.iter().map(|s| (s.object.object_type(), s.object.instance())).collect();
            assert_eq!(objects, vec![(2, 1), (2, 2), (4, 9)]);
            let first: Vec<(u32, Vec<u8>, Option<u8>)> = specs[0]
                .properties
                .iter()
                .map(|p| (p.property_id, p.value.clone(), p.priority))
                .collect();
            assert_eq!(first, vec![(85, vec![1], Some(8)), (77, vec![3], None)]);
            let second: Vec<u32> = specs[1].properties.iter().map(|p| p.property_id).collect();
            assert_eq!(second, vec![85, 28]);
            assert_eq!(specs[2].properties.len(), 1);
            assert_eq!(specs[2].properties[0].priority, Some(16));
        }
        other => panic!("unexpected request {other:?}"),
    }
}

#[test]
fn write_multiple_rejects_any_unencodable_object() {
    let writes = vec![(target(2, 1, 85), vec![1], None), (target(2, 0x40_0000, 85), vec![2], None)];
    let err = write_multiple_request(&writes).unwrap_err();
    assert_eq!(err.code, ErrorCode::InvalidConfig);
    match write_multiple_request(&[]).unwrap() {
        ClientRequest::WritePropertyMultiple { specs } => assert!(specs.is_empty()),
        other => panic!("unexpected request {other:?}"),
    }
}

#[test]
fn cov_requests_carry_the_observation() {
    let spec = ObservationSpec {
        key: ObservationKey { object_type: 0, object_instance: 5, subscriber_process_id: 17 },
        confirmed: true,
        lifetime_seconds: 300,
    };
    match subscribe_cov_request(&spec).unwrap() {
        ClientRequest::SubscribeCov { subscriber_process_id, object, confirmed, lifetime_seconds } => {
            assert_eq!(subscriber_process_id, 17);
            assert_eq!((object.object_type(), object.instance()), (0, 5));
            assert!(confirmed);
            assert_eq!(lifetime_seconds, Some(300));
        }
        other => panic!("unexpected request {other:?}"),
    }
    match unsubscribe_cov_request(&spec).unwrap() {
        ClientRequest::UnsubscribeCov { subscriber_process_id, object } => {
            assert_eq!(subscriber_process_id, 17);
            assert_eq!(object.instance(), 5);
        }
        other => panic!("unexpected request {other:?}"),
    }
}
