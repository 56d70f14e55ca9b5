use bacnet_stack::address::ObjectIdentifier;
use bacnet_stack::cov::CovPolicy;
use bacnet_stack::server_config::{BipServerBuilder, Segmentation, ServerBuilder, ServerConfig};

#[test]
fn default_config_values() {
    let config = ServerConfig::default();
    assert_eq!(config.port, 0xBAC0);
    assert_eq!(config.max_apdu_length, 1476);
    assert_eq!(config.segmentation_supported, Segmentation::NoSegmentation);
    assert_eq!(config.cov_retry_timeout_ms, 3000);
    assert!(config.enable_event_enrollment);
    assert!(!config.enable_fault_detection);
    assert_eq!(config.event_enrollment_interval_secs, 10);
    assert_eq!(config.broadcast_address, [255, 255, 255, 255]);
}

#[test]
fn generic_builder_setters_replace_one_setting_each() {
    let sink = ObjectIdentifier::new(61, 1).unwrap();
    let builder: ServerBuilder<&str, Vec<u8>, u8> = ServerBuilder::new(vec![1])
        .vendor_id(999)
        .reinit_password("secret".to_owned())
        .audit_notification_sink(sink)
        .enable_fault_detection(true)
        .enable_event_enrollment(false)
        .event_enrollment_interval_secs(0)
        .segmentation_supported(Segmentation::Both)
        .cov_policy(CovPolicy { max_subscriptions_global: 5, ..Default::default() })
        .database(vec![2])
        .apdu_observer(7);
    assert!(builder.finish().is_err(), "no transport set");

    let builder: ServerBuilder<&str, Vec<u8>, u8> = ServerBuilder::new(vec![1]).vendor_id(42).transport("udp");
    let (config, db, transport, observer) = builder.finish().unwrap();
    assert_eq!(config.vendor_id, 42);
    assert_eq!(config.port, 0xBAC0);
    assert_eq!(db, vec![1]);
    assert_eq!(transport, "udp");
    assert_eq!(observer, None);
}

#[test]
fn missing_transport_is_an_encoding_error() {
    let builder: ServerBuilder<u8, (), ()> = ServerBuilder::new(());
    let error = builder.finish().err().unwrap();
    assert!(error.is_encoding());
    assert_eq!(error.message(), "transport not set on ServerBuilder");
}

#[test]
fn bip_builder_sets_endpoint_and_options() {
    let (config, db, observer) = BipServerBuilder::<u8, u8>::new(1)
        .interface([10, 0, 0, 2])
        .port(47809)
        .broadcast_address([10, 0, 0, 255])
        .vendor_id(7)
        .enable_fault_detection(true)
        .event_enrollment_interval_secs(30)
        .segmentation_supported(Segmentation::Receive)
        .reinit_password("pw".to_owned())
        .database(3)
        .apdu_observer(4)
        .finish();
    assert_eq!(config.interface, [10, 0, 0, 2]);
    assert_eq!(config.port, 47809);
    assert_eq!(config.broadcast_address, [10, 0, 0, 255]);
    assert_eq!(config.vendor_id, 7);
    assert!(config.enable_fault_detection);
    assert_eq!(config.effective_event_enrollment_interval_secs(), 30);
    assert!(config.segmentation_supported.receives_segments());
    assert!(!config.segmentation_supported.transmits_segments());
    assert_eq!(config.reinit_password.as_deref(), Some("pw"));
    assert_eq!(db, 3);
    assert_eq!(observer, Some(4));
}

#[test]
fn zero_event_interval_is_taken_as_one_second() {
    let config = ServerConfig { event_enrollment_interval_secs: 0, ..ServerConfig::default() };
    assert_eq!(config.effective_event_enrollment_interval_secs(), 1);
}
