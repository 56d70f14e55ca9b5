use bacnet_stack::hub_url::{
    effective_max_apdu_length, normalize_host_from_parses, normalize_hub_url, publish_effective_max_apdu_length, ScHubLimits,
    ScTransport,
};

#[test]
fn normalization_drops_noise_and_default_port() {
    assert_eq!(
        normalize_hub_url("  WSS://Hub.Example.COM:443/path/?x=1#frag "),
        "wss://hub.example.com/path?x=1"
    );
}

#[test]
fn ip_literals_take_canonical_text() {
    assert_eq!(normalize_hub_url("wss://[2001:DB8:0::1]:4443"), "wss://[2001:db8::1]:4443");
    assert_eq!(normalize_hub_url("wss://10.0.0.1:47808/?"), "wss://10.0.0.1:47808/?");
}

#[test]
fn non_default_ports_and_odd_authorities_are_kept() {
    assert_eq!(normalize_hub_url("ws://Example:80"), "ws://example:80");
    assert_eq!(normalize_hub_url("wss://host:notaport"), "wss://host:notaport");
    assert_eq!(normalize_hub_url("wss://host:+444"), "wss://host:444");
    assert_eq!(normalize_hub_url("wss://host:70000"), "wss://host:70000");
}

#[test]
fn text_without_scheme_is_only_trimmed() {
    assert_eq!(normalize_hub_url(" hub-without-scheme#x "), "hub-without-scheme");
}

#[test]
fn topology_identity_joins_normalized_hubs() {
    let transport = ScTransport::new((), [1, 2, 3, 4, 5, 6])
        .with_hub_urls("WSS://Primary:443/", Some("wss://failover/"));
    assert_eq!(transport.topology_id().unwrap(), "wss://primary|wss://failover");
    assert_eq!(
        transport.topology_collision_ids(),
        &vec!["wss://primary".to_owned(), "wss://failover".to_owned()]
    );
    let single = ScTransport::new((), [1; 6]).with_hub_urls("wss://only", None);
    assert_eq!(single.topology_id().unwrap(), "wss://only");
    assert_eq!(single.topology_collision_ids().len(), 1);
    assert_eq!(single.local_vmac(), [1; 6]);
}

#[test]
fn effective_apdu_takes_the_tighter_hub_limit() {
    let bvlc_bound = ScHubLimits { hub_max_apdu_length: 1476, hub_max_bvlc_length: 600 };
    assert_eq!(effective_max_apdu_length(&bvlc_bound), 588);
    let npdu_bound = ScHubLimits { hub_max_apdu_length: 480, hub_max_bvlc_length: 1600 };
    assert_eq!(effective_max_apdu_length(&npdu_bound), 478);
    let tiny = ScHubLimits { hub_max_apdu_length: 1476, hub_max_bvlc_length: 5 };
    assert_eq!(effective_max_apdu_length(&tiny), 0);
    let mut store: u16 = 1476;
    publish_effective_max_apdu_length(&mut store, &npdu_bound);
    assert_eq!(store, 478);
}

#[test]
fn host_normal_form_follows_the_parse_results() {
    assert_eq!(normalize_host_from_parses("Hub.Example.COM", None, None, ""), "hub.example.com");
    assert_eq!(normalize_host_from_parses("010.0.0.1", Some([10, 0, 0, 1]), None, ""), "10.0.0.1");
    assert_eq!(
        normalize_host_from_parses("[2001:DB8:0::1]", None, Some([0x20, 0x01, 0x0d, 0xb8, 0, 0, 0, 0, 0, 0, 0, 0, 0, 0, 0, 1]), "2001:db8::1"),
        "[2001:db8::1]"
    );
    assert_eq!(normalize_host_from_parses("[Not-V6]", None, None, ""), "[not-v6]");
}

#[test]
fn equivalent_hub_urls_share_a_normal_form() {
    let canonical = normalize_hub_url("wss://hub.example.com/sc");
    assert_eq!(normalize_hub_url(" \twss://hub.example.com/sc  "), canonical);
    assert_eq!(normalize_hub_url("wss://hub.example.com/sc#frag"), canonical);
    assert_eq!(normalize_hub_url("wss://hub.example.com/sc/"), canonical);
    assert_eq!(normalize_hub_url("wss://hub.example.com:443/sc"), canonical);
    assert_eq!(normalize_hub_url(" WSS://Hub.Example.COM:443/sc/#frag "), canonical);
}

#[test]
fn hub_url_variants_share_one_topology() {
    let a = ScTransport::new((), [1; 6])
        .with_hub_urls(" \tWSS://Hub.Example.COM:443/sc/#primary ", Some("wss://Backup.example.com:443/#x"));
    let b = ScTransport::new((), [2; 6]).with_hub_urls("wss://hub.example.com/sc", Some("wss://backup.example.com"));
    assert_eq!(a.topology_id(), b.topology_id());
    assert_eq!(a.topology_collision_ids(), b.topology_collision_ids());
    assert_eq!(
        b.topology_id().map(|id| id.as_str()),
        Some("wss://hub.example.com/sc|wss://backup.example.com")
    );
}
