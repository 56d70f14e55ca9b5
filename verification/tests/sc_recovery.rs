use bacnet_stack::error::{Error, TransportErrorKind};
use bacnet_stack::sc_recovery::{
    select_initial_sc_websocket, ActiveHub, DialDecision, DialOutcome, DialRoute,
    HandshakeDecision, InitialScWebSocket, ReconnectPlanner, ScReconnectConfig,
};

fn config(retry_forever: bool) -> ScReconnectConfig {
    ScReconnectConfig {
        initial_delay_ms: 100,
        max_delay_ms: 350,
        max_retries: 3,
        retry_forever,
    }
}

#[test]
fn bounded_recovery_plans_max_retries_attempts_with_capped_backoff() {
    let mut planner = ReconnectPlanner::new(config(false), ActiveHub::Primary, true, false);
    let mut delays = Vec::new();
    while let Some(plan) = planner.next_attempt() {
        assert_eq!(plan.target_hub, ActiveHub::Primary);
        delays.push(plan.delay_ms);
        assert_eq!(planner.dial_route(true), Some(DialRoute::Redial(ActiveHub::Primary)));
        assert_eq!(planner.after_dial(DialOutcome::Failed), DialDecision::Retry);
    }
    assert_eq!(delays, vec![100, 200, 350]);
    assert!(planner.tries_failover_after_exhaustion(true));
    assert!(!planner.tries_failover_after_exhaustion(false));
    assert_eq!(planner.exhaustion_attempt(), 4);
}

#[test]
fn endless_recovery_alternates_hubs() {
    let mut planner = ReconnectPlanner::new(config(true), ActiveHub::Primary, true, false);
    let mut targets = Vec::new();
    for _ in 0..4 {
        let plan = planner.next_attempt().unwrap();
        targets.push(plan.target_hub);
        let _ = planner.after_handshake(false, true);
    }
    assert_eq!(
        targets,
        vec![ActiveHub::Primary, ActiveHub::Failover, ActiveHub::Primary, ActiveHub::Failover]
    );
    assert!(!planner.tries_failover_after_exhaustion(true));
}

#[test]
fn endless_recovery_without_alternate_stays_on_its_hub() {
    let mut planner = ReconnectPlanner::new(config(true), ActiveHub::Failover, false, false);
    for _ in 0..3 {
        assert_eq!(planner.next_attempt().unwrap().target_hub, ActiveHub::Failover);
    }
}

#[test]
fn switching_to_failover_uses_fresh_failover_connection() {
    let mut planner = ReconnectPlanner::new(config(true), ActiveHub::Primary, true, false);
    planner.next_attempt().unwrap();
    planner.next_attempt().unwrap();
    assert_eq!(planner.dial_route(true), Some(DialRoute::FreshFailover));
    assert_eq!(planner.dial_route(false), None);
}

#[test]
fn missing_connector_reuses_current_socket_or_gives_up() {
    let mut reusable = ReconnectPlanner::new(config(false), ActiveHub::Primary, false, true);
    reusable.next_attempt().unwrap();
    assert_eq!(
        reusable.after_dial(DialOutcome::NoConnector),
        DialDecision::Handshake { reuse_current: true }
    );
    let mut bounded = ReconnectPlanner::new(config(false), ActiveHub::Primary, false, false);
    bounded.next_attempt().unwrap();
    assert_eq!(bounded.after_dial(DialOutcome::NoConnector), DialDecision::GiveUp);
    let mut endless = ReconnectPlanner::new(config(true), ActiveHub::Primary, false, false);
    endless.next_attempt().unwrap();
    assert_eq!(endless.after_dial(DialOutcome::NoConnector), DialDecision::Retry);
    assert_eq!(endless.bounds().0, 200);
}

#[test]
fn handshake_outcomes() {
    let mut planner = ReconnectPlanner::new(config(false), ActiveHub::Primary, false, false);
    planner.next_attempt().unwrap();
    assert_eq!(planner.after_dial(DialOutcome::Connected), DialDecision::Handshake { reuse_current: false });
    assert_eq!(planner.after_handshake(false, false), HandshakeDecision::GiveUp);
    assert_eq!(planner.after_handshake(true, true), HandshakeDecision::Connected(ActiveHub::Primary));
    assert_eq!(ActiveHub::Primary.label(), "primary");
    assert_eq!(ActiveHub::Failover.other(), ActiveHub::Primary);
}

#[test]
fn initial_connection_prefers_the_primary_and_tolerates_its_failure_with_a_failover() {
    match select_initial_sc_websocket::<u32>(Ok(7), false) {
        Ok(InitialScWebSocket::Connected(ws)) => assert_eq!(ws, 7),
        _ => panic!("expected the primary connection"),
    }
    let refused = || Err(Error::Transport { kind: TransportErrorKind::NotConnected, message: "refused".into() });
    match select_initial_sc_websocket::<u32>(refused(), true) {
        Ok(InitialScWebSocket::Unavailable(reason)) => assert_eq!(reason, "refused"),
        _ => panic!("expected an unavailable start"),
    }
    match select_initial_sc_websocket::<u32>(refused(), false) {
        Err(error) => assert_eq!(error.transport_kind(), Some(TransportErrorKind::NotConnected)),
        _ => panic!("expected the primary's error"),
    }
}

#[test]
fn unavailable_start_carries_the_primary_detail_text() {
    let encoding = Err(Error::Encoding("bad hub certificate".into()));
    match select_initial_sc_websocket::<u32>(encoding, true) {
        Ok(InitialScWebSocket::Unavailable(reason)) => assert_eq!(reason, "bad hub certificate"),
        _ => panic!("expected an unavailable start"),
    }
    match select_initial_sc_websocket::<u32>(Err(Error::Timeout(5)), true) {
        Ok(InitialScWebSocket::Unavailable(reason)) => assert_eq!(reason, ""),
        _ => panic!("expected an unavailable start"),
    }
}

#[test]
fn endless_failing_recovery_alternates_and_doubles() {
    let config = ScReconnectConfig { initial_delay_ms: 100, max_delay_ms: 350, max_retries: 0, retry_forever: true };
    let mut planner = ReconnectPlanner::new(config, ActiveHub::Primary, true, false);
    let expected = [
        (1, ActiveHub::Primary, 100),
        (2, ActiveHub::Failover, 200),
        (3, ActiveHub::Primary, 350),
        (4, ActiveHub::Failover, 350),
    ];
    for (attempt, hub, delay) in expected {
        let plan = planner.next_attempt().unwrap();
        assert_eq!(plan.attempt, attempt);
        assert_eq!(plan.target_hub, hub);
        assert_eq!(plan.delay_ms, delay);
        assert_eq!(planner.after_dial(DialOutcome::Failed), DialDecision::Retry);
    }
}
