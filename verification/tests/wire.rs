use nnrp_conformance_suite::fixtures::{
    AdapterArtifactContext, ApiProfileCaseOutcome, CaseStatus, WireConformanceCaseResult,
    WireConformanceCaseResultReport, WireConformanceExpectation, WireConformanceFrameDirection,
    WireConformanceFramePayloadInvariant, WireConformanceLimits, WireConformanceMode, WireConformanceObservedFrame,
    WireConformanceScenario, WireConformanceStep, WireConformanceTarget, WireConformanceTargetManifest,
    WireConformanceTerminal, WireConformanceTransport, WireConformanceTransportEndpoint,
    WireConformanceTransportSecurity, WireHostAcceptedSessionEvidence, WireHostCredentialOwner, WireHostPlatform,
    WireHostProviderRoute, WireHostRole, WireHostRouteCandidateEvidence, WireHostRouteEvidence,
    WireHostRouteExpectation, WireHostRouteFixture, WireHostRouteProviderCapability, WireHostRouteRejectionReason,
    WireHostRouteSecurity, WireHostRouteSecurityMode, WirePayloadMember,
};
use nnrp_conformance_suite::wire_frames::validate_frame_payload_invariants;
use nnrp_conformance_suite::wire_plan::build_wire_conformance_execution_plan;
use nnrp_conformance_suite::wire_results::validate_wire_conformance_results;

fn artifacts() -> AdapterArtifactContext {
    AdapterArtifactContext {
        results_path: "artifacts/wire-results.json".to_string(),
        evidence_dir: "artifacts/wire-evidence".to_string(),
    }
}

fn sample_wire_target() -> WireConformanceTargetManifest {
    WireConformanceTargetManifest {
        schema: None,
        target_name: "sample-target".to_string(),
        protocol_version: "nnrp-1-preview4".to_string(),
        suite_version: "0.1.0".to_string(),
        wire_conformance: WireConformanceTarget {
            modes: vec![WireConformanceMode::SuiteAsClient],
            transports: vec![WireConformanceTransportEndpoint {
                name: WireConformanceTransport::Tcp,
                endpoint: "127.0.0.1:44001".to_string(),
                tls: false,
                security: None,
            }],
            host_route_providers: vec![],
            capabilities: vec!["control.cancel_abort".to_string(), "control.result_drop_reason".to_string()],
            limits: WireConformanceLimits { max_frame_bytes: 65536, max_in_flight: 16 },
        },
    }
}

fn sample_wire_scenario(
    id: &str,
    mode: WireConformanceMode,
    transport: WireConformanceTransport,
    capabilities: Vec<&str>,
) -> WireConformanceScenario {
    WireConformanceScenario {
        id: id.to_string(),
        mode,
        transport: Some(transport),
        host_route: None,
        status: CaseStatus::Mandatory,
        feature: "wire.control".to_string(),
        required_capabilities: capabilities.into_iter().map(|c| c.to_string()).collect(),
        description: "Sample wire scenario".to_string(),
        steps: vec![WireConformanceStep {
            action: "send_frame".to_string(),
            frame: Some("CANCEL".to_string()),
            payload: None,
            timeout_ms: Some(100),
        }],
        expect: WireConformanceExpectation {
            terminal: WireConformanceTerminal::Cancelled,
            frames: vec!["CANCEL_ACK".to_string()],
            allowed_frames: vec!["CANCEL_ACK".to_string()],
            frame_payload_invariants: vec![],
            result_drop_reason_code: None,
            route: None,
        },
    }
}

fn observed_wire_frame(frame: &str, timestamp_us: u64) -> WireConformanceObservedFrame {
    WireConformanceObservedFrame {
        direction: WireConformanceFrameDirection::Received,
        frame: frame.to_string(),
        payload: None,
        timestamp_us: Some(timestamp_us),
    }
}

/// An object payload with one numeric member, as the application layer
/// hands it to the library.
fn number_member(name: &str, value: u64) -> Vec<WirePayloadMember> {
    let json_value = serde_json::Value::from(value);
    vec![WirePayloadMember {
        name: name.to_string(),
        json: json_value.to_string(),
        debug: format!("{json_value:?}"),
    }]
}

fn observed_wire_frame_with_payload(
    frame: &str,
    timestamp_us: u64,
    payload: Vec<WirePayloadMember>,
) -> WireConformanceObservedFrame {
    WireConformanceObservedFrame {
        direction: WireConformanceFrameDirection::Received,
        frame: frame.to_string(),
        payload: Some(payload),
        timestamp_us: Some(timestamp_us),
    }
}

fn frame_id_invariant(frame: &str) -> WireConformanceFramePayloadInvariant {
    WireConformanceFramePayloadInvariant {
        frame: frame.to_string(),
        direction: Some(WireConformanceFrameDirection::Received),
        fields: vec![("frame_id".to_string(), serde_json::Value::from(1u64).to_string())],
    }
}

fn provider(transport: WireConformanceTransport, provider_id: &str) -> WireHostRouteProviderCapability {
    WireHostRouteProviderCapability {
        transport,
        provider_id: provider_id.to_string(),
        installed: true,
        platforms: vec![WireHostPlatform::Native],
        security_modes: vec![WireHostRouteSecurityMode::Plain],
    }
}

fn sample_host_route_target() -> WireConformanceTargetManifest {
    let mut target = sample_wire_target();
    target.wire_conformance.modes.push(WireConformanceMode::SuiteAsServer);
    target.wire_conformance.capabilities.push("host.routes".to_string());
    target.wire_conformance.host_route_providers = vec![
        provider(WireConformanceTransport::Tcp, "nnrp.transport.tcp.native"),
        provider(WireConformanceTransport::Ipc, "nnrp.transport.ipc.native"),
    ];
    target
}

fn plain_route(transport: WireConformanceTransport, provider_id: &str, locator: &str) -> WireHostProviderRoute {
    WireHostProviderRoute {
        transport,
        provider_id: provider_id.to_string(),
        locator: locator.to_string(),
        security: WireHostRouteSecurity {
            mode: WireHostRouteSecurityMode::Plain,
            credential_owner: WireHostCredentialOwner::Absent,
        },
        injected_failures: vec![],
    }
}

fn sample_host_route_scenario() -> WireConformanceScenario {
    WireConformanceScenario {
        id: "wire.host-route.client.multi-route".to_string(),
        mode: WireConformanceMode::SuiteAsServer,
        transport: None,
        host_route: Some(WireHostRouteFixture {
            role: WireHostRole::Client,
            platform: WireHostPlatform::Native,
            application_endpoint: "nnrp://host-route.test".to_string(),
            routes: vec![
                plain_route(
                    WireConformanceTransport::Tcp,
                    "nnrp.transport.tcp.native",
                    "suite://allocate/tcp/client-primary",
                ),
                plain_route(
                    WireConformanceTransport::Ipc,
                    "nnrp.transport.ipc.native",
                    "suite://allocate/ipc/client-secondary",
                ),
            ],
        }),
        status: CaseStatus::Mandatory,
        feature: "host.routes".to_string(),
        required_capabilities: vec!["host.routes".to_string()],
        description: "Select one runtime carrier from two live routes.".to_string(),
        steps: vec![WireConformanceStep {
            action: "connect_routes".to_string(),
            frame: None,
            payload: None,
            timeout_ms: Some(1000),
        }],
        expect: WireConformanceExpectation {
            terminal: WireConformanceTerminal::Success,
            frames: vec![],
            allowed_frames: vec![],
            frame_payload_invariants: vec![],
            result_drop_reason_code: None,
            route: Some(WireHostRouteExpectation {
                selected_count: Some(1),
                selected_transport: None,
                rejection_reasons: vec![],
                bound_transports: vec![],
                accepted_transports: vec![],
                atomic_rollback: Some(false),
                logical_set_closed: Some(false),
                terminal_failure: None,
            }),
        },
    }
}

fn candidate(
    transport: WireConformanceTransport,
    provider_id: &str,
    locator: &str,
    selected: bool,
) -> WireHostRouteCandidateEvidence {
    WireHostRouteCandidateEvidence {
        transport,
        provider_id: provider_id.to_string(),
        requested_locator: locator.to_string(),
        locator_resolved: true,
        security_satisfied: true,
        selected,
        rejection_reason: None,
    }
}

fn sample_host_route_evidence(selected_count: usize) -> WireHostRouteEvidence {
    WireHostRouteEvidence {
        application_endpoint: "nnrp://host-route.test".to_string(),
        candidates: vec![
            candidate(
                WireConformanceTransport::Tcp,
                "nnrp.transport.tcp.native",
                "suite://allocate/tcp/client-primary",
                selected_count > 0,
            ),
            candidate(
                WireConformanceTransport::Ipc,
                "nnrp.transport.ipc.native",
                "suite://allocate/ipc/client-secondary",
                selected_count > 1,
            ),
        ],
        listeners: vec![],
        accepted_sessions: vec![WireHostAcceptedSessionEvidence {
            transport: WireConformanceTransport::Tcp,
            provider_id: "nnrp.transport.tcp.native".to_string(),
            active_transport: WireConformanceTransport::Tcp,
        }],
        atomic_rollback: false,
        logical_set_closed: false,
        terminal_failure: None,
    }
}

fn single_result_report(result: WireConformanceCaseResult) -> WireConformanceCaseResultReport {
    WireConformanceCaseResultReport {
        schema: None,
        protocol_version: "nnrp-1-preview4".to_string(),
        suite_version: "0.1.0".to_string(),
        target_name: "sample-target".to_string(),
        results: vec![result],
    }
}

fn host_route_report(evidence: WireHostRouteEvidence) -> WireConformanceCaseResultReport {
    single_result_report(WireConformanceCaseResult {
        id: "wire.host-route.client.multi-route".to_string(),
        outcome: ApiProfileCaseOutcome::Passed,
        terminal: WireConformanceTerminal::Success,
        observed_frames: vec![],
        route_evidence: Some(evidence),
        message: None,
        evidence_paths: vec![],
    })
}

fn frame_report(frames: Vec<WireConformanceObservedFrame>) -> WireConformanceCaseResultReport {
    single_result_report(WireConformanceCaseResult {
        id: "selected".to_string(),
        outcome: ApiProfileCaseOutcome::Passed,
        terminal: WireConformanceTerminal::Cancelled,
        observed_frames: frames,
        route_evidence: None,
        message: None,
        evidence_paths: vec![],
    })
}

fn selected_scenario() -> WireConformanceScenario {
    sample_wire_scenario(
        "selected",
        WireConformanceMode::SuiteAsClient,
        WireConformanceTransport::Tcp,
        vec!["control.cancel_abort"],
    )
}

fn plan_error(target: &WireConformanceTargetManifest, scenario: WireConformanceScenario) -> String {
    build_wire_conformance_execution_plan(target, &vec![scenario], artifacts())
        .expect_err("the plan should be refused")
        .to_string()
}

fn tls_material() -> WireConformanceTransportSecurity {
    WireConformanceTransportSecurity {
        server_name: "localhost".to_string(),
        trusted_certificate_der_path: "certs/server.der".to_string(),
        certificate_der_path: "certs/server.der".to_string(),
        private_key_pkcs8_der_path: "certs/server-key.der".to_string(),
    }
}

#[test]
fn wire_plan_and_results_preserve_suite_owned_host_route_evidence() {
    let plan =
        build_wire_conformance_execution_plan(&sample_host_route_target(), &vec![sample_host_route_scenario()], artifacts())
            .expect("host-route plan should build");
    assert_eq!(plan.scenarios.len(), 1);
    assert!(plan.scenarios[0].host_route.is_some());
    assert_eq!(plan.host_route_providers.len(), 2);
    let mut evidence = sample_host_route_evidence(1);
    evidence.candidates.reverse();
    validate_wire_conformance_results(&plan, &host_route_report(evidence))
        .expect("candidate array order should not affect route identity validation");
}

#[test]
fn wire_plan_and_results_enforce_uninstalled_provider_semantics() {
    let mut target = sample_host_route_target();
    target.wire_conformance.host_route_providers[0].installed = false;
    let mut scenario = sample_host_route_scenario();
    scenario.expect.route.as_mut().expect("sample host route should have route expectations").rejection_reasons =
        vec![WireHostRouteRejectionReason::LocalUnavailable];
    let plan = build_wire_conformance_execution_plan(&target, &vec![scenario], artifacts())
        .expect("known uninstalled providers should remain in the execution plan");
    assert!(!plan.host_route_providers[0].installed);

    let mut evidence = sample_host_route_evidence(0);
    evidence.candidates[0].rejection_reason = Some(WireHostRouteRejectionReason::LocalUnavailable);
    evidence.candidates[1].selected = true;
    evidence.accepted_sessions[0] = WireHostAcceptedSessionEvidence {
        transport: WireConformanceTransport::Ipc,
        provider_id: "nnrp.transport.ipc.native".to_string(),
        active_transport: WireConformanceTransport::Ipc,
    };
    validate_wire_conformance_results(&plan, &host_route_report(evidence))
        .expect("uninstalled provider must be visible but rejected without invocation");
}

#[test]
fn wire_plan_rejects_uninstalled_provider_without_local_unavailable_expectation() {
    let mut target = sample_host_route_target();
    target.wire_conformance.host_route_providers[0].installed = false;
    let error = plan_error(&target, sample_host_route_scenario());
    assert!(error.contains("local-unavailable"));
}

#[test]
fn wire_plan_rejects_host_route_capability_without_providers() {
    let mut target = sample_wire_target();
    target.wire_conformance.capabilities.push("host.routes".to_string());
    let error = plan_error(&target, sample_host_route_scenario());
    assert!(error.contains("without declaring"));
}

#[test]
fn wire_plan_rejects_host_route_providers_without_capability() {
    let mut target = sample_host_route_target();
    target.wire_conformance.capabilities.retain(|capability| capability != "host.routes");
    let error = plan_error(&target, sample_host_route_scenario());
    assert!(error.contains("without claiming"));
}

#[test]
fn wire_plan_rejects_multiple_host_providers_for_one_transport() {
    let mut target = sample_host_route_target();
    let mut duplicate_transport = target.wire_conformance.host_route_providers[0].clone();
    duplicate_transport.provider_id = "example.transport.tcp.alternate".to_string();
    target.wire_conformance.host_route_providers.push(duplicate_transport);
    let error = plan_error(&target, sample_host_route_scenario());
    assert!(error.contains("more than one host-route provider"));
}

#[test]
fn wire_plan_rejects_reused_host_provider_id() {
    let mut target = sample_host_route_target();
    let mut duplicate_id = target.wire_conformance.host_route_providers[0].clone();
    duplicate_id.transport = WireConformanceTransport::Websocket;
    target.wire_conformance.host_route_providers.push(duplicate_id);
    let error = plan_error(&target, sample_host_route_scenario());
    assert!(error.contains("repeats host-route provider id"));
}

#[test]
fn wire_plan_rejects_multiple_fixture_routes_for_one_transport() {
    let target = sample_host_route_target();
    let mut scenario = sample_host_route_scenario();
    let duplicate = scenario.host_route.as_ref().expect("sample host route should exist").routes[0].clone();
    scenario.host_route.as_mut().expect("sample host route should exist").routes.push(duplicate);
    let error = plan_error(&target, scenario);
    assert!(error.contains("more than one route"));
}

#[test]
fn wire_plan_rejects_host_route_role_mode_mismatch() {
    let target = sample_host_route_target();
    let mut scenario = sample_host_route_scenario();
    scenario.mode = WireConformanceMode::SuiteAsClient;
    let error = plan_error(&target, scenario);
    assert!(error.contains("host route"));
}

#[test]
fn wire_plan_rejects_host_route_without_route_expectations() {
    let target = sample_host_route_target();
    let mut scenario = sample_host_route_scenario();
    scenario.expect.route = None;
    let error = plan_error(&target, scenario);
    assert!(error.contains("exactly when"));
}

#[test]
fn wire_plan_rejects_transport_scenario_with_route_expectations() {
    let mut scenario = sample_wire_scenario(
        "wire.control.invalid-route-oracle",
        WireConformanceMode::SuiteAsClient,
        WireConformanceTransport::Tcp,
        vec!["control.cancel_abort"],
    );
    scenario.expect.route = Some(WireHostRouteExpectation {
        selected_count: Some(0),
        selected_transport: None,
        rejection_reasons: vec![],
        bound_transports: vec![],
        accepted_transports: vec![],
        atomic_rollback: None,
        logical_set_closed: None,
        terminal_failure: None,
    });
    let error = plan_error(&sample_wire_target(), scenario);
    assert!(error.contains("exactly when"));
}

#[test]
fn wire_plan_rejects_invalid_result_drop_reason_expectations() {
    let target = sample_wire_target();
    let mut scenario = sample_wire_scenario(
        "wire.control.invalid-drop-reason",
        WireConformanceMode::SuiteAsClient,
        WireConformanceTransport::Tcp,
        vec!["control.cancel_abort"],
    );
    scenario.expect.result_drop_reason_code = Some(0);
    let error = plan_error(&target, scenario.clone());
    assert!(error.contains("must be non-zero"));

    scenario.expect.result_drop_reason_code = Some(3);
    let error = plan_error(&target, scenario);
    assert!(error.contains("without RESULT_DROP_REASON"));
}

#[test]
fn wire_plan_rejects_result_drop_reason_on_host_route_scenario() {
    let target = sample_host_route_target();
    let mut scenario = sample_host_route_scenario();
    scenario.expect.result_drop_reason_code = Some(3);
    let error = plan_error(&target, scenario);
    assert!(error.contains("must not declare result_drop_reason_code"));
}

#[test]
fn wire_plan_validates_frame_payload_invariant_contract() {
    let target = sample_wire_target();
    let invariant = frame_id_invariant("TRACE_CONTEXT");
    let mut scenario = sample_wire_scenario(
        "wire.control.trace-correlation",
        WireConformanceMode::SuiteAsClient,
        WireConformanceTransport::Tcp,
        vec!["control.cancel_abort"],
    );
    scenario.expect.allowed_frames.push("TRACE_CONTEXT".to_string());
    scenario.expect.frame_payload_invariants = vec![invariant.clone()];
    build_wire_conformance_execution_plan(&target, &vec![scenario.clone()], artifacts())
        .expect("a payload invariant over an allowed frame should validate");

    scenario.expect.frame_payload_invariants[0].fields.clear();
    let error = plan_error(&target, scenario.clone());
    assert!(error.contains("at least one field"));

    scenario.expect.frame_payload_invariants = vec![invariant.clone(), invariant.clone()];
    let error = plan_error(&target, scenario.clone());
    assert!(error.contains("duplicate payload invariants"));

    scenario.expect.frame_payload_invariants =
        vec![WireConformanceFramePayloadInvariant { frame: "PARTIAL_RESULT".to_string(), ..invariant }];
    let error = plan_error(&target, scenario);
    assert!(error.contains("outside allowed_frames"));
}

#[test]
fn wire_plan_rejects_frame_payload_invariants_on_host_route_scenario() {
    let target = sample_host_route_target();
    let mut scenario = sample_host_route_scenario();
    scenario.expect.frame_payload_invariants = vec![frame_id_invariant("TRACE_CONTEXT")];
    let error = plan_error(&target, scenario);
    assert!(error.contains("must not declare frame_payload_invariants"));
}

#[test]
fn wire_plan_rejects_transport_security_mode_mismatch() {
    let mut target = sample_host_route_target();
    target.wire_conformance.host_route_providers[0].security_modes.push(WireHostRouteSecurityMode::Wss);
    let mut scenario = sample_host_route_scenario();
    scenario.host_route.as_mut().expect("sample host route should exist").routes[0].security =
        WireHostRouteSecurity { mode: WireHostRouteSecurityMode::Wss, credential_owner: WireHostCredentialOwner::Target };
    let error = plan_error(&target, scenario);
    assert!(error.contains("incompatible Wss security on Tcp"));
}

fn host_route_plan() -> nnrp_conformance_suite::fixtures::WireConformanceExecutionPlan {
    build_wire_conformance_execution_plan(&sample_host_route_target(), &vec![sample_host_route_scenario()], artifacts())
        .expect("host-route plan should build")
}

#[test]
fn wire_results_reject_multiple_active_client_carriers() {
    let error = validate_wire_conformance_results(&host_route_plan(), &host_route_report(sample_host_route_evidence(2)))
        .expect_err("two selected carriers must fail one-carrier semantics");
    assert!(error.to_string().contains("selected 2 client carriers; at most one is permitted"));
}

#[test]
fn wire_results_reject_candidate_identity_drift() {
    let mut evidence = sample_host_route_evidence(1);
    evidence.candidates[0].requested_locator = "suite://allocate/tcp/target-substituted".to_string();
    let error = validate_wire_conformance_results(&host_route_plan(), &host_route_report(evidence))
        .expect_err("target-substituted route evidence must fail");
    assert!(error.to_string().contains("suite-owned route"));
}

#[test]
fn wire_results_reject_selected_ineligible_route() {
    let mut evidence = sample_host_route_evidence(1);
    evidence.candidates[0].security_satisfied = false;
    let error = validate_wire_conformance_results(&host_route_plan(), &host_route_report(evidence))
        .expect_err("selected security-incompatible route must fail");
    assert!(error.to_string().contains("security-incompatible"));
}

#[test]
fn wire_results_reject_selected_route_with_rejection_reason() {
    let mut evidence = sample_host_route_evidence(1);
    evidence.candidates[0].rejection_reason = Some(WireHostRouteRejectionReason::RouteUnresolved);
    let error = validate_wire_conformance_results(&host_route_plan(), &host_route_report(evidence))
        .expect_err("selected candidate cannot simultaneously be rejected");
    assert!(error.to_string().contains("marks selected"));
}

#[test]
fn wire_results_reject_client_session_on_unselected_carrier() {
    let mut evidence = sample_host_route_evidence(1);
    evidence.accepted_sessions[0] = WireHostAcceptedSessionEvidence {
        transport: WireConformanceTransport::Ipc,
        provider_id: "nnrp.transport.ipc.native".to_string(),
        active_transport: WireConformanceTransport::Ipc,
    };
    let error = validate_wire_conformance_results(&host_route_plan(), &host_route_report(evidence))
        .expect_err("client session must use the selected carrier");
    assert!(error.to_string().contains("does not match"));
}

#[test]
fn wire_results_reject_selected_client_carrier_without_session() {
    let mut evidence = sample_host_route_evidence(1);
    evidence.accepted_sessions.clear();
    let error = validate_wire_conformance_results(&host_route_plan(), &host_route_report(evidence))
        .expect_err("selected client carrier requires session evidence");
    assert!(error.to_string().contains("does not match"));
}

#[test]
fn wire_plan_selects_scenarios_claimed_by_target_manifest() {
    let scenarios = vec![
        sample_wire_scenario(
            "selected",
            WireConformanceMode::SuiteAsClient,
            WireConformanceTransport::Tcp,
            vec!["control.cancel_abort"],
        ),
        sample_wire_scenario(
            "missing-capability",
            WireConformanceMode::SuiteAsClient,
            WireConformanceTransport::Tcp,
            vec!["control.priority_update"],
        ),
        sample_wire_scenario(
            "missing-transport",
            WireConformanceMode::SuiteAsClient,
            WireConformanceTransport::Quic,
            vec!["control.cancel_abort"],
        ),
        sample_wire_scenario(
            "missing-mode",
            WireConformanceMode::SuiteAsServer,
            WireConformanceTransport::Tcp,
            vec!["control.cancel_abort"],
        ),
    ];
    let plan = build_wire_conformance_execution_plan(&sample_wire_target(), &scenarios, artifacts())
        .expect("wire execution plan should build");
    assert_eq!(plan.target_name, "sample-target");
    assert_eq!(plan.scenarios.len(), 1);
    assert_eq!(plan.scenarios[0].id, "selected");
}

#[test]
fn wire_plan_rejects_transport_security_mismatches() {
    let scenario = sample_wire_scenario(
        "wire.control.priority-deadline.proxy",
        WireConformanceMode::SuiteAsClient,
        WireConformanceTransport::Quic,
        vec!["control.cancel_abort"],
    );
    let mut target = sample_wire_target();
    target.wire_conformance.transports[0] = WireConformanceTransportEndpoint {
        name: WireConformanceTransport::Quic,
        endpoint: "127.0.0.1:44002".to_string(),
        tls: false,
        security: None,
    };
    let error = plan_error(&target, scenario.clone());
    assert!(error.contains("TLS flag and security material"));

    target.wire_conformance.transports[0] = WireConformanceTransportEndpoint {
        name: WireConformanceTransport::Websocket,
        endpoint: "ws://127.0.0.1:44003/nnrp".to_string(),
        tls: true,
        security: Some(tls_material()),
    };
    let error = plan_error(&target, scenario);
    assert!(error.contains("TLS flag and security material"));
}

#[test]
fn wire_plan_accepts_plain_and_tls_tcp_endpoints() {
    let scenarios = vec![sample_wire_scenario(
        "wire.control.cancel-abort.client",
        WireConformanceMode::SuiteAsClient,
        WireConformanceTransport::Tcp,
        vec!["control.cancel_abort"],
    )];
    build_wire_conformance_execution_plan(&sample_wire_target(), &scenarios, artifacts())
        .expect("plain TCP endpoint should remain valid");

    let mut secure_target = sample_wire_target();
    secure_target.wire_conformance.transports[0].tls = true;
    secure_target.wire_conformance.transports[0].security = Some(tls_material());
    build_wire_conformance_execution_plan(&secure_target, &scenarios, artifacts())
        .expect("TCP TLS endpoint should be valid with route-local security material");
}

fn selected_plan(scenario: WireConformanceScenario) -> nnrp_conformance_suite::fixtures::WireConformanceExecutionPlan {
    build_wire_conformance_execution_plan(&sample_wire_target(), &vec![scenario], artifacts())
        .expect("wire execution plan should build")
}

#[test]
fn wire_results_validate_when_report_matches_selected_scenarios() {
    let plan = selected_plan(selected_scenario());
    let summary = validate_wire_conformance_results(&plan, &frame_report(vec![observed_wire_frame("CANCEL_ACK", 100)]))
        .expect("wire results should validate");
    assert_eq!(summary.selected_scenarios, 1);
    assert_eq!(summary.passed_scenarios, 1);
}

#[test]
fn wire_results_reject_missing_expected_frame() {
    let plan = selected_plan(selected_scenario());
    let error = validate_wire_conformance_results(&plan, &frame_report(vec![]))
        .expect_err("wire results should reject missing expected frame");
    assert!(error.to_string().contains("CANCEL_ACK"));
}

#[test]
fn wire_results_require_the_declared_result_drop_reason_code() {
    let mut scenario = selected_scenario();
    scenario.expect.frames = vec!["RESULT_DROP_REASON".to_string()];
    scenario.expect.allowed_frames = scenario.expect.frames.clone();
    scenario.expect.result_drop_reason_code = Some(3);
    let plan = selected_plan(scenario);
    let report = |drop_reason_code: u64| {
        frame_report(vec![observed_wire_frame_with_payload(
            "RESULT_DROP_REASON",
            100,
            number_member("drop_reason_code", drop_reason_code),
        )])
    };

    validate_wire_conformance_results(&plan, &report(3)).expect("matching result drop reason should validate");
    let error =
        validate_wire_conformance_results(&plan, &report(1)).expect_err("mismatched result drop reason should fail");
    assert!(error.to_string().contains("expected 3, got [Some(1)]"));

    let mut repeated = report(3);
    repeated.results[0].observed_frames.push(observed_wire_frame_with_payload(
        "RESULT_DROP_REASON",
        101,
        number_member("drop_reason_code", 2),
    ));
    let error = validate_wire_conformance_results(&plan, &repeated)
        .expect_err("every repeated drop reason must retain the declared code");
    assert!(error.to_string().contains("[Some(3), Some(2)]"));
}

#[test]
fn wire_results_accept_allowed_repetition_with_required_order_intact() {
    let mut scenario = selected_scenario();
    scenario.expect.frames = vec!["TRACE_CONTEXT".to_string(), "RESULT_PUSH".to_string()];
    scenario.expect.allowed_frames =
        vec!["REQUEST".to_string(), "TRACE_CONTEXT".to_string(), "RESULT_PUSH".to_string()];
    let plan = selected_plan(scenario);
    validate_wire_conformance_results(
        &plan,
        &frame_report(vec![
            observed_wire_frame("REQUEST", 10),
            observed_wire_frame("TRACE_CONTEXT", 20),
            observed_wire_frame("TRACE_CONTEXT", 30),
            observed_wire_frame("RESULT_PUSH", 40),
        ]),
    )
    .expect("allowed extra and repeated frames should preserve ordered matching");
}

#[test]
fn wire_results_enforce_payload_invariants_on_every_matching_frame() {
    let mut scenario = selected_scenario();
    scenario.expect.frames = vec!["TRACE_CONTEXT".to_string()];
    scenario.expect.allowed_frames = scenario.expect.frames.clone();
    scenario.expect.frame_payload_invariants = vec![frame_id_invariant("TRACE_CONTEXT")];
    let plan = selected_plan(scenario);
    let report = |payloads: &[Option<u64>]| {
        frame_report(
            payloads
                .iter()
                .enumerate()
                .map(|(index, frame_id)| match frame_id {
                    Some(frame_id) => observed_wire_frame_with_payload(
                        "TRACE_CONTEXT",
                        index as u64,
                        number_member("frame_id", *frame_id),
                    ),
                    None => observed_wire_frame("TRACE_CONTEXT", index as u64),
                })
                .collect(),
        )
    };

    validate_wire_conformance_results(&plan, &report(&[Some(1), Some(1)]))
        .expect("every matching repeated frame satisfies the invariant");
    let error = validate_wire_conformance_results(&plan, &report(&[Some(1), Some(2)]))
        .expect_err("one invalid repeated frame must fail the scenario");
    assert!(error.to_string().contains("payload field frame_id mismatch"));
    let error = validate_wire_conformance_results(&plan, &report(&[None]))
        .expect_err("a missing payload must fail the scenario");
    assert!(error.to_string().contains("has no object payload"));
}

#[test]
fn wire_results_reject_unexpected_frame() {
    let plan = selected_plan(selected_scenario());
    let error = validate_wire_conformance_results(
        &plan,
        &frame_report(vec![observed_wire_frame("REQUEST", 10), observed_wire_frame("CANCEL_ACK", 20)]),
    )
    .expect_err("wire results should reject an undeclared frame");
    assert!(error.to_string().contains("unexpected frame REQUEST"));
}

#[test]
fn wire_results_reject_reordered_required_frames() {
    let mut scenario = selected_scenario();
    scenario.expect.frames = vec!["TRACE_CONTEXT".to_string(), "RESULT_PUSH".to_string()];
    scenario.expect.allowed_frames = scenario.expect.frames.clone();
    let plan = selected_plan(scenario);
    let error = validate_wire_conformance_results(
        &plan,
        &frame_report(vec![observed_wire_frame("RESULT_PUSH", 10), observed_wire_frame("TRACE_CONTEXT", 20)]),
    )
    .expect_err("wire results should reject reordered required frames");
    assert!(error.to_string().contains("missing or reordered expected frame RESULT_PUSH"));
}

#[test]
fn wire_results_reject_a_result_for_an_unplanned_scenario() {
    let plan = selected_plan(selected_scenario());
    let mut report = frame_report(vec![observed_wire_frame("CANCEL_ACK", 100)]);
    report.results[0].id = "other".to_string();
    let error = validate_wire_conformance_results(&plan, &report).expect_err("unplanned results are refused");
    assert_eq!(error.to_string(), "fixture validation failed: wire results contain an unexpected scenario id: other");
}

#[test]
fn wire_results_reject_a_target_name_mismatch() {
    let plan = selected_plan(selected_scenario());
    let mut report = frame_report(vec![observed_wire_frame("CANCEL_ACK", 100)]);
    report.target_name = "other-target".to_string();
    let error = validate_wire_conformance_results(&plan, &report).expect_err("another target is refused");
    assert_eq!(error.to_string(), "fixture validation failed: wire target name mismatch: expected sample-target, got other-target");
}

#[test]
fn payload_fields_hold_negative_zero_equal_to_zero() {
    let mut scenario = sample_wire_scenario(
        "wire.zero",
        WireConformanceMode::SuiteAsClient,
        WireConformanceTransport::Tcp,
        vec!["control.cancel_abort"],
    );
    scenario.expect.allowed_frames = vec!["RESULT_PUSH".to_string()];
    scenario.expect.frame_payload_invariants = vec![WireConformanceFramePayloadInvariant {
        frame: "RESULT_PUSH".to_string(),
        direction: None,
        fields: vec![("score".to_string(), serde_json::Value::from(0.0f64).to_string())],
    }];
    let negative_zero = serde_json::Value::from(-0.0f64);
    let member = WirePayloadMember {
        name: "score".to_string(),
        json: negative_zero.to_string(),
        debug: format!("{negative_zero:?}"),
    };
    let result = WireConformanceCaseResult {
        id: "wire.zero".to_string(),
        outcome: ApiProfileCaseOutcome::Passed,
        terminal: WireConformanceTerminal::Success,
        observed_frames: vec![observed_wire_frame_with_payload("RESULT_PUSH", 1, vec![member])],
        route_evidence: None,
        message: None,
        evidence_paths: vec![],
    };
    validate_frame_payload_invariants(&scenario, &result).expect("-0.0 equals 0.0 as a JSON value");
}
