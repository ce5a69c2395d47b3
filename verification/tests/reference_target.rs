use nnrp_conformance_suite::fixtures::{
    AdapterArtifactContext, CaseStatus, WireConformanceExpectation, WireConformanceMode, WireConformanceScenario,
    WireConformanceStep, WireConformanceTerminal, WireConformanceTransport,
};
use nnrp_conformance_suite::profile_checks::validate_wire_transport_endpoint;
use nnrp_conformance_suite::reference_target::{
    host_route_only_manifest, reference_target_manifest, uninstalled_quic_manifest,
};
use nnrp_conformance_suite::wire_plan::build_wire_conformance_execution_plan;

fn cancel_scenario(transport: WireConformanceTransport) -> WireConformanceScenario {
    WireConformanceScenario {
        id: "wire.control.cancel-abort.client".to_string(),
        mode: WireConformanceMode::SuiteAsClient,
        transport: Some(transport),
        host_route: None,
        status: CaseStatus::Mandatory,
        feature: "wire.control".to_string(),
        required_capabilities: vec!["control.cancel_abort".to_string()],
        description: "cancel".to_string(),
        steps: vec![WireConformanceStep {
            action: "send_frame".to_string(),
            frame: Some("CANCEL".to_string()),
            payload: None,
            timeout_ms: Some(100),
        }],
        expect: WireConformanceExpectation {
            terminal: WireConformanceTerminal::Cancelled,
            frames: vec!["CANCEL_ACK".to_string()],
            allowed_frames: vec!["CANCEL_ACK".to_string()],
            frame_payload_invariants: vec![],
            result_drop_reason_code: None,
            route: None,
        },
    }
}

#[test]
fn reference_manifest_is_a_plannable_wire_target() {
    let manifest = reference_target_manifest(
        "127.0.0.1:4001".to_string(),
        "127.0.0.1:4002".to_string(),
        "/tmp/nnrp-reference.sock",
        "wss://127.0.0.1:4003/nnrp",
        "0.1.0",
    );
    assert_eq!(manifest.target_name, "reference-preview4-target");
    assert_eq!(manifest.suite_version, "0.1.0");
    assert_eq!(manifest.wire_conformance.transports.len(), 4);
    assert_eq!(manifest.wire_conformance.capabilities.len(), 14);
    assert_eq!(manifest.wire_conformance.limits.max_frame_bytes, 16_777_216);
    for endpoint in &manifest.wire_conformance.transports {
        validate_wire_transport_endpoint(endpoint).expect("reference endpoints meet their transport contract");
    }
    let plan = build_wire_conformance_execution_plan(
        &manifest,
        &vec![cancel_scenario(WireConformanceTransport::Tcp), cancel_scenario(WireConformanceTransport::Ipc)],
        AdapterArtifactContext { results_path: "r.json".to_string(), evidence_dir: "e".to_string() },
    )
    .expect("the reference manifest plans");
    assert_eq!(plan.scenarios.len(), 2);
    assert_eq!(plan.host_route_providers.len(), 4);
}

#[test]
fn host_route_only_and_uninstalled_manifests() {
    let manifest = host_route_only_manifest("0.1.0");
    assert!(manifest.wire_conformance.transports.is_empty());
    assert_eq!(manifest.wire_conformance.capabilities, vec!["host.routes".to_string()]);
    assert_eq!(manifest.wire_conformance.host_route_providers.len(), 4);
    let manifest = uninstalled_quic_manifest("0.1.0");
    assert_eq!(manifest.wire_conformance.modes, vec![WireConformanceMode::SuiteAsServer]);
    assert!(!manifest.wire_conformance.host_route_providers[0].installed);
    assert_eq!(manifest.target_name, "reference-preview4-uninstalled-quic-target");
}
