use nnrp_conformance_suite::fixtures::{
    CaseStatus, FixtureError, WireConformanceExpectation, WireConformanceMode, WireConformanceScenario,
    WireConformanceTerminal, WireConformanceTransport, WireHostCredentialOwner, WireHostPlatform,
    WireHostProviderRoute, WireHostRole, WireHostRouteCandidateEvidence, WireHostRouteEvidence,
    WireHostRouteFixture, WireHostRouteInjectedFailure, WireHostRouteSecurity, WireHostRouteSecurityMode,
};
use nnrp_conformance_suite::host_run::{
    check_selected_carrier, closure_probe_routes, needs_security, route_gets_live_peer, selected_carrier,
};

fn route_with(
    transport: WireConformanceTransport,
    provider_id: &str,
    mode: WireHostRouteSecurityMode,
    failures: Vec<WireHostRouteInjectedFailure>,
) -> WireHostProviderRoute {
    WireHostProviderRoute {
        transport,
        provider_id: provider_id.to_string(),
        locator: format!("suite://allocate/{provider_id}"),
        security: WireHostRouteSecurity { mode, credential_owner: WireHostCredentialOwner::Absent },
        injected_failures: failures,
    }
}

fn plain(provider_id: &str, failures: Vec<WireHostRouteInjectedFailure>) -> WireHostProviderRoute {
    route_with(WireConformanceTransport::Tcp, provider_id, WireHostRouteSecurityMode::Plain, failures)
}

fn scenario_with(routes: Option<Vec<WireHostProviderRoute>>) -> WireConformanceScenario {
    WireConformanceScenario {
        id: "wire.host-route.client.multi-route".to_string(),
        mode: WireConformanceMode::SuiteAsServer,
        transport: None,
        host_route: routes.map(|routes| WireHostRouteFixture {
            role: WireHostRole::Client,
            platform: WireHostPlatform::Native,
            application_endpoint: "nnrp://host-route.test".to_string(),
            routes,
        }),
        status: CaseStatus::Mandatory,
        feature: "host.routes".to_string(),
        required_capabilities: vec!["host.routes".to_string()],
        description: "host route".to_string(),
        steps: vec![],
        expect: WireConformanceExpectation {
            terminal: WireConformanceTerminal::Success,
            frames: vec![],
            allowed_frames: vec![],
            frame_payload_invariants: vec![],
            result_drop_reason_code: None,
            route: None,
        },
    }
}

fn candidate(transport: WireConformanceTransport, provider_id: &str, selected: bool) -> WireHostRouteCandidateEvidence {
    WireHostRouteCandidateEvidence {
        transport,
        provider_id: provider_id.to_string(),
        requested_locator: format!("suite://allocate/{provider_id}"),
        locator_resolved: true,
        security_satisfied: true,
        selected,
        rejection_reason: None,
    }
}

fn evidence(candidates: Vec<WireHostRouteCandidateEvidence>) -> WireHostRouteEvidence {
    WireHostRouteEvidence {
        application_endpoint: "nnrp://host-route.test".to_string(),
        candidates,
        listeners: vec![],
        accepted_sessions: vec![],
        atomic_rollback: false,
        logical_set_closed: false,
        terminal_failure: None,
    }
}

#[test]
fn live_peers_serve_only_clean_installed_routes() {
    assert!(route_gets_live_peer(&plain("example.transport.tcp", vec![])));
    assert!(!route_gets_live_peer(&plain(
        "example.transport.tcp",
        vec![WireHostRouteInjectedFailure::BindFailure]
    )));
    assert!(!route_gets_live_peer(&route_with(
        WireConformanceTransport::Quic,
        "example.transport.quic.uninstalled",
        WireHostRouteSecurityMode::Plain,
        vec![],
    )));
}

#[test]
fn security_is_needed_only_for_secure_routes() {
    assert!(!needs_security(&scenario_with(None)));
    assert!(!needs_security(&scenario_with(Some(vec![plain("a", vec![]), plain("b", vec![])]))));
    assert!(needs_security(&scenario_with(Some(vec![
        plain("a", vec![]),
        route_with(WireConformanceTransport::Websocket, "ws", WireHostRouteSecurityMode::Wss, vec![]),
    ]))));
    assert!(needs_security(&scenario_with(Some(vec![route_with(
        WireConformanceTransport::Quic,
        "quic",
        WireHostRouteSecurityMode::MutualTls,
        vec![],
    )]))));
}

#[test]
fn closure_probe_skips_routes_with_listener_failures() {
    let routes = vec![
        plain("first", vec![]),
        plain("bind", vec![WireHostRouteInjectedFailure::BindFailure]),
        plain("terminal", vec![WireHostRouteInjectedFailure::TerminalListenerFailure]),
        plain("last", vec![]),
    ];
    let probed = closure_probe_routes(&routes);
    let ids: Vec<&str> = probed.iter().map(|route| route.provider_id.as_str()).collect();
    assert_eq!(ids, vec!["first", "last"]);
    assert_eq!(probed[0], routes[0]);
    assert_eq!(probed[1], routes[3]);
    assert!(closure_probe_routes(&vec![]).is_empty());
}

#[test]
fn selected_carrier_is_the_first_selected_candidate() {
    let report = evidence(vec![
        candidate(WireConformanceTransport::Tcp, "tcp", false),
        candidate(WireConformanceTransport::Quic, "quic", true),
        candidate(WireConformanceTransport::Websocket, "ws", true),
    ]);
    assert_eq!(selected_carrier(&report), Some((WireConformanceTransport::Quic, "quic".to_string())));
    let none = evidence(vec![candidate(WireConformanceTransport::Tcp, "tcp", false)]);
    assert_eq!(selected_carrier(&none), None);
}

#[test]
fn mismatched_carrier_names_both_sides() {
    let expected = (WireConformanceTransport::Quic, "example.transport.quic".to_string());
    assert!(check_selected_carrier(&expected, &expected.clone()).is_ok());
    let observed = (WireConformanceTransport::Tcp, "example.transport.tcp".to_string());
    match check_selected_carrier(&expected, &observed) {
        Err(FixtureError::Validation { message }) => assert_eq!(
            message,
            "target selected Quic/example.transport.quic but suite accepted Tcp/example.transport.tcp"
        ),
        other => panic!("unexpected result: {other:?}"),
    }
}
