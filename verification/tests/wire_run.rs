use nnrp_conformance_suite::fixtures::{
    AdapterArtifactContext, ApiProfileCaseOutcome, CaseStatus, WireConformanceExecutionPlan,
    WireConformanceExpectation, WireConformanceLimits, WireConformanceMode, WireConformanceScenario,
    WireConformanceTarget, WireConformanceTargetManifest, WireConformanceTerminal, WireConformanceTransport,
    WireConformanceTransportEndpoint,
};
use nnrp_conformance_suite::wire_run::{
    external_target_failed, external_target_timed_out, missing_host_route_target, scenario_endpoint, wire_run_report,
};

fn target() -> WireConformanceTargetManifest {
    WireConformanceTargetManifest {
        schema: None,
        target_name: "t".to_string(),
        protocol_version: "nnrp-1-preview4".to_string(),
        suite_version: "0.1.0".to_string(),
        wire_conformance: WireConformanceTarget {
            modes: vec![WireConformanceMode::SuiteAsClient],
            transports: vec![
                WireConformanceTransportEndpoint {
                    name: WireConformanceTransport::Tcp,
                    endpoint: "127.0.0.1:1".to_string(),
                    tls: false,
                    security: None,
                },
                WireConformanceTransportEndpoint {
                    name: WireConformanceTransport::Ipc,
                    endpoint: "unix:///tmp/s".to_string(),
                    tls: false,
                    security: None,
                },
            ],
            host_route_providers: vec![],
            capabilities: vec![],
            limits: WireConformanceLimits { max_frame_bytes: 1, max_in_flight: 1 },
        },
    }
}

fn scenario(transport: Option<WireConformanceTransport>) -> WireConformanceScenario {
    WireConformanceScenario {
        id: "s".to_string(),
        mode: WireConformanceMode::SuiteAsClient,
        transport,
        host_route: None,
        status: CaseStatus::Mandatory,
        feature: "f".to_string(),
        required_capabilities: vec![],
        description: "d".to_string(),
        steps: vec![],
        expect: WireConformanceExpectation {
            terminal: WireConformanceTerminal::Success,
            frames: vec![],
            allowed_frames: vec![],
            frame_payload_invariants: vec![],
            result_drop_reason_code: None,
            route: None,
        },
    }
}

#[test]
fn frame_scenarios_run_against_their_transport_endpoint() {
    let target = target();
    let endpoint = scenario_endpoint(&target, &scenario(Some(WireConformanceTransport::Ipc))).unwrap();
    assert_eq!(endpoint.endpoint, "unix:///tmp/s");
    let error = scenario_endpoint(&target, &scenario(Some(WireConformanceTransport::Quic))).unwrap_err();
    assert_eq!(error.to_string(), "fixture validation failed: target manifest does not declare Quic transport endpoint");
    let error = scenario_endpoint(&target, &scenario(None)).unwrap_err();
    assert_eq!(error.to_string(), "fixture validation failed: host-route scenario s requires the host-route executor");
}

#[test]
fn external_failures_become_failed_results() {
    let failed = external_target_failed(&scenario(None), "connection refused", vec!["e/s.jsonl".to_string()]);
    assert_eq!(failed.outcome, ApiProfileCaseOutcome::Failed);
    assert_eq!(failed.terminal, WireConformanceTerminal::Error);
    assert_eq!(failed.message.as_deref(), Some("external wire target failed: connection refused"));
    assert_eq!(failed.evidence_paths, vec!["e/s.jsonl".to_string()]);
    let timed_out = external_target_timed_out(&scenario(None), 5100, vec![]);
    assert_eq!(timed_out.message.as_deref(), Some("external wire target exceeded 5100 ms execution timeout"));
    assert_eq!(
        missing_host_route_target(&scenario(None)).to_string(),
        "fixture validation failed: host-route scenario s requires --host-route-target"
    );
}

#[test]
fn wire_run_reports_carry_the_plan_identity() {
    let plan = WireConformanceExecutionPlan {
        schema: None,
        protocol_version: "nnrp-1-preview4".to_string(),
        suite_version: "0.1.0".to_string(),
        target_name: "t".to_string(),
        host_route_providers: vec![],
        artifacts: AdapterArtifactContext { results_path: "r".to_string(), evidence_dir: "e".to_string() },
        scenarios: vec![],
    };
    let report = wire_run_report(&plan, vec![external_target_failed(&scenario(None), "x", vec![])]);
    assert_eq!(report.target_name, "t");
    assert_eq!(report.results.len(), 1);
    assert_eq!(
        report.schema.as_deref(),
        Some("https://github.com/NagareWorks/nnrp-conformance/schemas/wire-conformance-case-results.schema.json")
    );
}
