use nnrp_conformance_suite::fixtures::{
    ApiProfileCaseOutcome, CaseStatus, WireConformanceCaseResult, WireConformanceCaseResultReport,
    WireConformanceExpectation, WireConformanceMode, WireConformanceScenario, WireConformanceStep,
    WireConformanceTerminal, WireConformanceTransport, WireHostCredentialOwner, WireHostListenerState,
    WireHostPlatform, WireHostProviderRoute, WireHostRole, WireHostRouteFixture, WireHostRouteInjectedFailure,
    WireHostRouteRejectionReason, WireHostRouteSecurity, WireHostRouteSecurityMode,
};
use nnrp_conformance_suite::fixtures::{WireHostReadyListener, WireHostRouteReadyReport};
use nnrp_conformance_suite::host_evidence::{
    candidate_evidence, driver_result, failed_result, passed_result, ready_report, ready_routes, rollback_evidence,
    server_evidence, CandidateDiagnostic, ServerEvidenceState,
};
use nnrp_conformance_suite::host_route::{
    closure_probe_timeout_ms, runs_through_command_processor, wire_evidence_path, wire_scenario_timeout_ms,
    wire_timeout_ms, HOST_ROUTE_DRIVER_STARTUP_GRACE_MS,
};

fn route(transport: WireConformanceTransport, provider_id: &str, failures: Vec<WireHostRouteInjectedFailure>) -> WireHostProviderRoute {
    WireHostProviderRoute {
        transport,
        provider_id: provider_id.to_string(),
        locator: format!("suite://allocate/{provider_id}"),
        security: WireHostRouteSecurity {
            mode: WireHostRouteSecurityMode::Plain,
            credential_owner: WireHostCredentialOwner::Absent,
        },
        injected_failures: failures,
    }
}

fn fixture(routes: Vec<WireHostProviderRoute>) -> WireHostRouteFixture {
    WireHostRouteFixture {
        role: WireHostRole::Server,
        platform: WireHostPlatform::Native,
        application_endpoint: "nnrp://host-route.test".to_string(),
        routes,
    }
}

fn scenario(id: &str, timeouts: Vec<Option<u64>>) -> WireConformanceScenario {
    WireConformanceScenario {
        id: id.to_string(),
        mode: WireConformanceMode::SuiteAsServer,
        transport: None,
        host_route: Some(fixture(vec![route(WireConformanceTransport::Tcp, "tcp", vec![])])),
        status: CaseStatus::Mandatory,
        feature: "host.routes".to_string(),
        required_capabilities: vec!["host.routes".to_string()],
        description: "host route".to_string(),
        steps: timeouts
            .into_iter()
            .map(|timeout_ms| WireConformanceStep {
                action: "connect_routes".to_string(),
                frame: None,
                payload: None,
                timeout_ms,
            })
            .collect(),
        expect: WireConformanceExpectation {
            terminal: WireConformanceTerminal::Success,
            frames: vec![],
            allowed_frames: vec![],
            frame_payload_invariants: vec![],
            result_drop_reason_code: None,
            route: None,
        },
    }
}

fn step_timeouts(scenario: &WireConformanceScenario) -> Vec<Option<u64>> {
    scenario.steps.iter().map(|step| step.timeout_ms).collect()
}

fn sample_scenarios() -> Vec<WireConformanceScenario> {
    vec![
        scenario("wire.host-route.client.multi-route", vec![Some(1_000)]),
        scenario("wire.host-route.server.multi-listener", vec![Some(3_000), None, Some(8_000)]),
        scenario("wire.host-route.server.bind-rollback", vec![None]),
        scenario("wire.host-route.client.fast", vec![Some(200)]),
    ]
}

#[test]
fn closure_probe_timeout_follows_the_scenario_deadline() {
    for scenario in &sample_scenarios() {
        let declared_ms = scenario.steps.iter().filter_map(|step| step.timeout_ms).max().unwrap_or(1_000);
        assert_eq!(closure_probe_timeout_ms(&step_timeouts(scenario)), declared_ms.clamp(1_000, 5_000));
    }
}

#[test]
fn wire_timeout_reserves_external_driver_startup_budget() {
    for scenario in &sample_scenarios() {
        let declared_ms = scenario.steps.iter().filter_map(|step| step.timeout_ms).max().unwrap_or(0);
        assert_eq!(
            wire_timeout_ms(&step_timeouts(scenario)),
            declared_ms.saturating_add(HOST_ROUTE_DRIVER_STARTUP_GRACE_MS)
        );
    }
}

fn driver_report(results: Vec<WireConformanceCaseResult>) -> WireConformanceCaseResultReport {
    WireConformanceCaseResultReport {
        schema: None,
        protocol_version: "nnrp-1-preview4".to_string(),
        suite_version: "test-suite".to_string(),
        target_name: "test-target".to_string(),
        results,
    }
}

#[test]
fn driver_failure_remains_a_case_result_with_dedicated_runner_evidence() {
    let scenario = &sample_scenarios()[0];
    let report = driver_report(vec![WireConformanceCaseResult {
        id: scenario.id.clone(),
        outcome: ApiProfileCaseOutcome::Failed,
        terminal: WireConformanceTerminal::Error,
        observed_frames: Vec::new(),
        route_evidence: None,
        message: Some("target diagnostic".to_string()),
        evidence_paths: Vec::new(),
    }]);

    let result = driver_result(report, scenario, "test-suite", "test-target").unwrap();

    assert_eq!(result.outcome, ApiProfileCaseOutcome::Failed);
    assert_eq!(result.message.as_deref(), Some("target diagnostic"));
}

#[test]
fn driver_reports_must_be_of_this_run_and_scenario() {
    let scenario = &sample_scenarios()[0];
    let error = driver_result(driver_report(vec![]), scenario, "other-suite", "test-target").unwrap_err();
    assert_eq!(
        error.to_string(),
        "fixture validation failed: host-route target report identity nnrp-1-preview4/test-suite/test-target does not match nnrp-1-preview4/other-suite/test-target"
    );
    let error = driver_result(driver_report(vec![]), scenario, "test-suite", "test-target").unwrap_err();
    assert_eq!(
        error.to_string(),
        "fixture validation failed: host-route target must emit exactly the requested scenario result"
    );
    let other = failed_result(&sample_scenarios()[1], "boom".to_string());
    let error = driver_result(driver_report(vec![other]), scenario, "test-suite", "test-target").unwrap_err();
    assert!(error.to_string().contains("exactly the requested scenario result"));
}

#[test]
fn candidate_evidence_follows_the_host_diagnostics() {
    let routes = vec![
        route(WireConformanceTransport::Tcp, "tcp", vec![]),
        route(WireConformanceTransport::Quic, "quic", vec![]),
        route(WireConformanceTransport::Ipc, "ipc", vec![]),
    ];
    let diagnostics = vec![
        CandidateDiagnostic { transport: WireConformanceTransport::Ipc, provider_id: "ipc".to_string(), rejection_reason: None },
        CandidateDiagnostic {
            transport: WireConformanceTransport::Quic,
            provider_id: "quic".to_string(),
            rejection_reason: Some(WireHostRouteRejectionReason::SecurityUnsatisfied),
        },
        CandidateDiagnostic {
            transport: WireConformanceTransport::Tcp,
            provider_id: "tcp".to_string(),
            rejection_reason: Some(WireHostRouteRejectionReason::RouteUnresolved),
        },
    ];
    let candidates = candidate_evidence(&routes, &diagnostics, &Some("ipc".to_string())).unwrap();
    assert_eq!(candidates.len(), 3);
    assert_eq!(candidates[0].provider_id, "tcp");
    assert!(!candidates[0].locator_resolved && candidates[0].security_satisfied && !candidates[0].selected);
    assert!(candidates[1].locator_resolved && !candidates[1].security_satisfied);
    assert_eq!(candidates[1].rejection_reason, Some(WireHostRouteRejectionReason::SecurityUnsatisfied));
    assert!(candidates[2].selected && candidates[2].rejection_reason.is_none());
    assert_eq!(candidates[2].requested_locator, "suite://allocate/ipc");

    let error = candidate_evidence(&routes, &diagnostics[..2].to_vec(), &None).unwrap_err();
    assert_eq!(error.to_string(), "missing candidate diagnostics for tcp");
}

#[test]
fn server_evidence_reports_listeners_and_accepted_sessions() {
    let fixture = fixture(vec![
        route(WireConformanceTransport::Tcp, "tcp", vec![]),
        route(WireConformanceTransport::Ipc, "ipc", vec![]),
    ]);
    let state = ServerEvidenceState {
        atomic_rollback: false,
        logical_set_closed: false,
        terminal_failure: None,
        listener_state: Some(WireHostListenerState::Accepted),
    };
    let evidence = server_evidence(
        &fixture,
        &vec![(WireConformanceTransport::Tcp, "127.0.0.1:4000".to_string())],
        &vec![WireConformanceTransport::Ipc],
        state.clone(),
    )
    .unwrap();
    assert_eq!(evidence.listeners[0].bound_endpoint.as_deref(), Some("127.0.0.1:4000"));
    assert_eq!(evidence.listeners[1].bound_endpoint, None);
    assert_eq!(evidence.listeners[1].state, WireHostListenerState::Accepted);
    assert_eq!(evidence.accepted_sessions.len(), 1);
    assert_eq!(evidence.accepted_sessions[0].provider_id, "ipc");
    assert!(evidence.candidates.iter().all(|c| c.locator_resolved && !c.selected));

    let error = server_evidence(&fixture, &vec![], &vec![WireConformanceTransport::Quic], state).unwrap_err();
    assert_eq!(error.to_string(), "accepted server transport is outside the route fixture");
}

#[test]
fn rollback_evidence_marks_the_failed_listener() {
    let fixture = fixture(vec![
        route(WireConformanceTransport::Tcp, "tcp", vec![]),
        route(WireConformanceTransport::Ipc, "ipc", vec![WireHostRouteInjectedFailure::BindFailure]),
    ]);
    let evidence = rollback_evidence(&fixture).unwrap();
    assert_eq!(evidence.listeners[0].state, WireHostListenerState::RolledBack);
    assert_eq!(evidence.listeners[1].state, WireHostListenerState::Failed);
    assert!(evidence.atomic_rollback && evidence.logical_set_closed);
    assert!(evidence.accepted_sessions.is_empty());
}

#[test]
fn host_results_carry_their_evidence_and_message() {
    let scenario = &sample_scenarios()[1];
    let evidence = rollback_evidence(&scenario.host_route.clone().unwrap()).unwrap();
    let result = passed_result(scenario, WireConformanceTerminal::Error, evidence).with_message("rolled back".to_string());
    assert_eq!(result.outcome, ApiProfileCaseOutcome::Passed);
    assert_eq!(result.message.as_deref(), Some("rolled back"));
    assert!(result.route_evidence.is_some());
    let failed = failed_result(scenario, "boom".to_string());
    assert_eq!((failed.outcome, failed.terminal), (ApiProfileCaseOutcome::Failed, WireConformanceTerminal::Error));
}

fn two_route_scenario() -> WireConformanceScenario {
    let mut scenario = scenario("wire.host-route.server.multi-listener", vec![Some(1_000)]);
    scenario.host_route = Some(fixture(vec![
        route(WireConformanceTransport::Tcp, "tcp", vec![]),
        route(WireConformanceTransport::Ipc, "ipc", vec![]),
    ]));
    scenario
}

#[test]
fn readiness_reports_round_trip_to_resolved_routes() {
    let scenario = two_route_scenario();
    let fixture = scenario.host_route.clone().unwrap();
    let bound = vec![
        (WireConformanceTransport::Ipc, "/tmp/nnrp.sock".to_string()),
        (WireConformanceTransport::Tcp, "127.0.0.1:4100".to_string()),
    ];
    let report = ready_report(&scenario, &fixture, &bound).unwrap();
    assert_eq!(report.protocol_version, "nnrp-1-preview4");
    assert_eq!(report.listeners[0].provider_id, "ipc");
    let resolved = ready_routes(&report, &scenario).unwrap();
    assert_eq!(resolved[0].locator, "127.0.0.1:4100");
    assert_eq!(resolved[1].locator, "/tmp/nnrp.sock");
    assert_eq!(resolved[0].provider_id, "tcp");

    let error = ready_report(&scenario, &fixture, &vec![(WireConformanceTransport::Quic, "x".to_string())]).unwrap_err();
    assert_eq!(error.to_string(), "bound server transport is outside the route fixture");
}

#[test]
fn readiness_reports_must_cover_exactly_the_routes() {
    let scenario = two_route_scenario();
    let listener = |transport, provider: &str| WireHostReadyListener {
        transport,
        provider_id: provider.to_string(),
        bound_endpoint: "e".to_string(),
    };
    let mut report = WireHostRouteReadyReport {
        schema: None,
        protocol_version: "nnrp-1-preview4".to_string(),
        scenario_id: scenario.id.clone(),
        listeners: vec![listener(WireConformanceTransport::Tcp, "tcp")],
    };
    let error = ready_routes(&report, &scenario).unwrap_err();
    assert_eq!(error.to_string(), "fixture validation failed: host-route readiness omitted Ipc/ipc");
    report.listeners.push(listener(WireConformanceTransport::Ipc, "ipc"));
    report.listeners.push(listener(WireConformanceTransport::Quic, "quic"));
    let error = ready_routes(&report, &scenario).unwrap_err();
    assert_eq!(error.to_string(), "fixture validation failed: host-route readiness contains listeners outside the scenario");
    report.scenario_id = "other".to_string();
    let error = ready_routes(&report, &scenario).unwrap_err();
    assert_eq!(error.to_string(), "fixture validation failed: host-route readiness identity does not match the scenario");
    let mut plain = two_route_scenario();
    plain.host_route = None;
    let error = ready_routes(&report, &plain).unwrap_err();
    assert_eq!(error.to_string(), "fixture validation failed: readiness requires a host-route fixture");
}

#[test]
fn external_scenarios_get_five_seconds_beyond_their_deadline() {
    assert_eq!(wire_scenario_timeout_ms(&vec![Some(100), None, Some(2_000)]), 7_000);
    assert_eq!(wire_scenario_timeout_ms(&vec![]), 5_000);
    assert_eq!(wire_scenario_timeout_ms(&vec![Some(u64::MAX)]), u64::MAX);
}

#[test]
fn evidence_paths_replace_separators() {
    assert_eq!(
        wire_evidence_path("artifacts/wire-evidence", "wire.control/cancel:abort\\client"),
        "artifacts/wire-evidence/wire.control_cancel_abort_client.jsonl"
    );
    assert_eq!(wire_evidence_path("e", "plain-id"), "e/plain-id.jsonl");
}

#[test]
fn windows_scripts_run_through_the_command_processor() {
    assert!(runs_through_command_processor(Some("cmd"), true));
    assert!(runs_through_command_processor(Some("BaT"), true));
    assert!(!runs_through_command_processor(Some("exe"), true));
    assert!(!runs_through_command_processor(Some("cmd"), false));
    assert!(!runs_through_command_processor(None, true));
    assert!(!runs_through_command_processor(Some("cmdx"), true));
}
