use nnrp_conformance_suite::benchmarks::{build_benchmark_execution_plan, default_benchmark_scenarios};
use nnrp_conformance_suite::capability_checks::{
    validate_complete_capability_coverage, validate_declared_capabilities,
};
use nnrp_conformance_suite::execution::{
    build_adapter_execution_plan, build_adapter_execution_plan_for_manifests, build_execution_plan,
    build_execution_plan_for_manifests,
};
use nnrp_conformance_suite::fixtures::{
    validate_protocol_alignment, AdapterArtifactContext, BenchmarkArtifactContext, CapabilityManifest,
    CaseDefinition, CaseLayer, CaseManifest, CaseStatus, FixtureError, ProtocolManifest,
};
use nnrp_conformance_suite::json_model::JsonValue;
use nnrp_conformance_suite::plan::{build_execution_plan_from_cases, select_case, CaseSelection};

fn protocol(version: &str) -> ProtocolManifest {
    ProtocolManifest {
        schema: None,
        protocol_version: version.to_string(),
        suite_version: "0.1.0".to_string(),
        status: "draft".to_string(),
        case_manifests: vec![],
        vector_recipe_manifests: vec![],
        vector_manifests: vec![],
        report_schema: "report.schema.json".to_string(),
    }
}

fn case(id: &str, layer: CaseLayer, status: CaseStatus, feature: &str, required: &[&str], description: &str) -> CaseDefinition {
    CaseDefinition {
        id: id.to_string(),
        layer,
        status,
        feature: feature.to_string(),
        required_capabilities: required.iter().map(|c| c.to_string()).collect(),
        description: description.to_string(),
        parameters: vec![],
    }
}

fn capabilities(name: &str, version: &str, supports: &[&str]) -> CapabilityManifest {
    CapabilityManifest {
        schema: None,
        implementation_name: name.to_string(),
        protocol_version: version.to_string(),
        supports: supports.iter().map(|c| c.to_string()).collect(),
    }
}

#[test]
fn validates_protocol_version_alignment() {
    let protocol_manifest = ProtocolManifest {
        schema: None,
        protocol_version: "nnrp-1-preview3".to_string(),
        suite_version: "0.1.0".to_string(),
        status: "draft".to_string(),
        case_manifests: vec!["cases/mandatory-core.json".to_string()],
        vector_recipe_manifests: vec![],
        vector_manifests: vec![],
        report_schema: "../../schemas/report.schema.json".to_string(),
    };
    let case_manifest = CaseManifest {
        schema: None,
        protocol_version: "nnrp-1-preview3".to_string(),
        manifest_name: "mandatory-core".to_string(),
        cases: vec![],
    };
    let capability_manifest = CapabilityManifest {
        schema: None,
        implementation_name: "sample".to_string(),
        protocol_version: "nnrp-1-preview3".to_string(),
        supports: vec![],
    };

    validate_protocol_alignment(
        &protocol_manifest,
        &case_manifest,
        Some(&capability_manifest),
        "cases/mandatory-core.json",
        Some("example-capabilities.json"),
    )
    .expect("versions should align");
}

#[test]
fn alignment_names_the_mismatched_manifest() {
    let case_manifest = CaseManifest {
        schema: None,
        protocol_version: "nnrp-1-preview2".to_string(),
        manifest_name: "core".to_string(),
        cases: vec![],
    };
    let error = validate_protocol_alignment(&protocol("nnrp-1-preview3"), &case_manifest, None, "cases/core.json", None)
        .expect_err("a case manifest of another version must be rejected");
    assert_eq!(
        error.to_string(),
        "protocol version mismatch: expected nnrp-1-preview3, got nnrp-1-preview2 in cases/core.json"
    );

    let aligned = CaseManifest { protocol_version: "nnrp-1-preview3".to_string(), ..case_manifest };
    let stale = capabilities("sample", "nnrp-1-preview1", &[]);
    let error = validate_protocol_alignment(
        &protocol("nnrp-1-preview3"),
        &aligned,
        Some(&stale),
        "cases/core.json",
        Some("caps.json"),
    )
    .expect_err("a capability manifest of another version must be rejected");
    assert!(matches!(error, FixtureError::VersionMismatch { ref path, .. } if path == "caps.json"));
    let error = validate_protocol_alignment(&protocol("nnrp-1-preview3"), &aligned, Some(&stale), "cases/core.json", None)
        .expect_err("a capability manifest of another version is rejected without its path too");
    assert!(matches!(
        error,
        FixtureError::VersionMismatch { ref expected, ref actual, ref path }
            if expected == "nnrp-1-preview3" && actual == "nnrp-1-preview1" && path.is_empty()
    ));
}

#[test]
fn complete_capability_coverage_reports_every_missing_token() {
    let cases = [
        case("l1.handshake.basic", CaseLayer::L1, CaseStatus::Mandatory, "handshake.basic", &["handshake.basic"], "handshake"),
        case(
            "l3.transport.probe",
            CaseLayer::L3,
            CaseStatus::Optional,
            "transport.probe",
            &["transport.quic", "transport.tcp"],
            "transport probe",
        ),
        case(
            "l4.control.supersede",
            CaseLayer::L4,
            CaseStatus::Experimental,
            "control.supersede",
            &["control.supersede"],
            "experimental supersede control",
        ),
        case(
            "l4.control.legacy",
            CaseLayer::L4,
            CaseStatus::Deprecated,
            "control.legacy",
            &["control.legacy"],
            "deprecated legacy control",
        ),
    ];
    let capability_manifest = capabilities("partial-sdk", "nnrp-1-preview4", &["handshake.basic"]);
    let refs: Vec<&CaseDefinition> = cases.iter().collect();

    let error = validate_complete_capability_coverage(&capability_manifest, &refs)
        .expect_err("partial SDK coverage must be rejected");

    assert_eq!(
        error.to_string(),
        "fixture validation failed: capability manifest partial-sdk does not cover the complete adapter case scope; missing capability token(s): transport.quic, transport.tcp"
    );
}

#[test]
fn complete_capability_coverage_accepts_the_full_case_scope() {
    let cases = [case(
        "l3.transport.probe",
        CaseLayer::L3,
        CaseStatus::Optional,
        "transport.probe",
        &["transport.quic", "transport.tcp"],
        "transport probe",
    )];
    let capability_manifest = capabilities("complete-sdk", "nnrp-1-preview4", &["transport.tcp", "transport.quic"]);
    let refs: Vec<&CaseDefinition> = cases.iter().collect();

    validate_complete_capability_coverage(&capability_manifest, &refs).expect("complete SDK coverage should pass");
}

#[test]
fn missing_coverage_tokens_are_sorted_and_listed_once() {
    let cases = [
        case("a", CaseLayer::L1, CaseStatus::Mandatory, "f", &["zeta", "alpha"], "d"),
        case("b", CaseLayer::L1, CaseStatus::Optional, "f", &["alpha", "mid"], "d"),
    ];
    let refs: Vec<&CaseDefinition> = cases.iter().collect();
    let error = validate_complete_capability_coverage(&capabilities("x", "v", &["mid"]), &refs).unwrap_err();
    assert_eq!(
        error.to_string(),
        "fixture validation failed: capability manifest x does not cover the complete adapter case scope; missing capability token(s): alpha, zeta"
    );
}

#[test]
fn marks_unclaimed_capabilities_as_not_claimed() {
    let protocol_manifest = protocol("nnrp-1-preview3");
    let case_manifest = CaseManifest {
        schema: None,
        protocol_version: "nnrp-1-preview3".to_string(),
        manifest_name: "mandatory-core".to_string(),
        cases: vec![case(
            "l1.flow_update.preview3",
            CaseLayer::L1,
            CaseStatus::Mandatory,
            "flow_update",
            &["flow_update"],
            "test",
        )],
    };
    let capability_manifest = capabilities("sample", "nnrp-1-preview3", &[]);

    let summary = build_execution_plan(
        &protocol_manifest,
        &case_manifest,
        Some(&capability_manifest),
        "cases/mandatory-core.json",
        Some("example-capabilities.json"),
    )
    .expect("execution plan should build");

    assert_eq!(summary.summary.selected_cases, 0);
    assert_eq!(summary.summary.not_claimed_cases, 1);
    assert_eq!(summary.cases[0].selection, "not_claimed");
}

#[test]
fn rejects_unknown_capability_tokens() {
    let protocol_manifest = protocol("nnrp-1-preview3");
    let case_manifest = CaseManifest {
        schema: None,
        protocol_version: "nnrp-1-preview3".to_string(),
        manifest_name: "mandatory-core".to_string(),
        cases: vec![case(
            "l1.flow_update.preview3",
            CaseLayer::L1,
            CaseStatus::Mandatory,
            "flow_update",
            &["flow_update"],
            "test",
        )],
    };
    let capability_manifest = capabilities("sample", "nnrp-1-preview3", &["flow_update_typo"]);

    let error = build_execution_plan_for_manifests(
        &protocol_manifest,
        &[(&case_manifest, "cases/mandatory-core.json")],
        Some(&capability_manifest),
        Some("example-capabilities.json"),
    )
    .expect_err("unknown capability token should be rejected");

    assert!(error.to_string().contains("unknown capability token"));
    assert!(error.to_string().contains("flow_update_typo"));
}

#[test]
fn keeps_experimental_cases_informational() {
    let protocol_manifest = protocol("nnrp-1-preview3");
    let case_manifest = CaseManifest {
        schema: None,
        protocol_version: "nnrp-1-preview3".to_string(),
        manifest_name: "mandatory-core".to_string(),
        cases: vec![case(
            "l1.flow_update.preview3",
            CaseLayer::L1,
            CaseStatus::Experimental,
            "flow_update",
            &["flow_update"],
            "test",
        )],
    };

    let summary = build_execution_plan(&protocol_manifest, &case_manifest, None, "cases/mandatory-core.json", None)
        .expect("execution plan should build");

    assert_eq!(summary.summary.informational_cases, 1);
    assert_eq!(summary.cases[0].selection, "informational");
    assert_eq!(summary.implementation_name, "unclaimed");
}

#[test]
fn aggregates_multiple_case_manifests() {
    let protocol_manifest = ProtocolManifest {
        schema: None,
        protocol_version: "nnrp-1-preview2".to_string(),
        suite_version: "0.1.0".to_string(),
        status: "draft".to_string(),
        case_manifests: vec!["cases/l0-wire-vectors.json".to_string(), "cases/l3-transport-smoke.json".to_string()],
        vector_recipe_manifests: vec![],
        vector_manifests: vec![],
        report_schema: "../../schemas/report.schema.json".to_string(),
    };
    let case_manifest_a = CaseManifest {
        schema: None,
        protocol_version: "nnrp-1-preview2".to_string(),
        manifest_name: "l0-wire-vectors".to_string(),
        cases: vec![case(
            "l0.header.fixed_shape.golden",
            CaseLayer::L0,
            CaseStatus::Mandatory,
            "header.fixed_shape",
            &[],
            "test",
        )],
    };
    let case_manifest_b = CaseManifest {
        schema: None,
        protocol_version: "nnrp-1-preview2".to_string(),
        manifest_name: "l3-transport-smoke".to_string(),
        cases: vec![case(
            "l3.transport.tcp.session_smoke",
            CaseLayer::L3,
            CaseStatus::Optional,
            "transport.tcp",
            &["transport.tcp"],
            "test",
        )],
    };
    let capability_manifest = capabilities("sample", "nnrp-1-preview2", &["transport.tcp"]);

    let summary = build_execution_plan_for_manifests(
        &protocol_manifest,
        &[
            (&case_manifest_a, "cases/l0-wire-vectors.json"),
            (&case_manifest_b, "cases/l3-transport-smoke.json"),
        ],
        Some(&capability_manifest),
        Some("nnrp-preview2.capabilities.json"),
    )
    .expect("execution plan should build");

    assert_eq!(summary.summary.selected_cases, 2);
    assert_eq!(summary.summary.not_claimed_cases, 0);
    assert_eq!(summary.cases.len(), 2);
    assert_eq!(summary.compatibility_matrix.len(), 2);
}

#[test]
fn manifests_are_checked_in_order_and_the_first_mismatch_wins() {
    let good = CaseManifest {
        schema: None,
        protocol_version: "nnrp-1-preview2".to_string(),
        manifest_name: "good".to_string(),
        cases: vec![],
    };
    let bad_one = CaseManifest { protocol_version: "v-one".to_string(), manifest_name: "one".to_string(), ..good.clone() };
    let bad_two = CaseManifest { protocol_version: "v-two".to_string(), manifest_name: "two".to_string(), ..good.clone() };
    let error = build_execution_plan_for_manifests(
        &protocol("nnrp-1-preview2"),
        &[(&good, "good.json"), (&bad_one, "one.json"), (&bad_two, "two.json")],
        None,
        None,
    )
    .unwrap_err();
    assert_eq!(error.to_string(), "protocol version mismatch: expected nnrp-1-preview2, got v-one in one.json");
}

#[test]
fn builds_feature_compatibility_matrix() {
    let protocol_manifest = protocol("nnrp-1-preview3");
    let case_manifest = CaseManifest {
        schema: None,
        protocol_version: "nnrp-1-preview3".to_string(),
        manifest_name: "matrix".to_string(),
        cases: vec![
            case(
                "l1.flow_update.connection.scope.validation",
                CaseLayer::L1,
                CaseStatus::Experimental,
                "flow_update",
                &["flow_update"],
                "test",
            ),
            case("l1.transport.tcp.minimum", CaseLayer::L3, CaseStatus::Optional, "transport.tcp", &["transport.tcp"], "test"),
            case(
                "l1.transport.tcp.fallback",
                CaseLayer::L3,
                CaseStatus::Optional,
                "transport.tcp",
                &["transport.tcp", "transport.common"],
                "test",
            ),
        ],
    };
    let capability_manifest = capabilities("sample", "nnrp-1-preview3", &["transport.tcp"]);

    let summary = build_execution_plan(
        &protocol_manifest,
        &case_manifest,
        Some(&capability_manifest),
        "cases/matrix.json",
        Some("example-capabilities.json"),
    )
    .expect("execution plan should build");

    assert_eq!(summary.compatibility_matrix.len(), 2);

    let flow_update = summary
        .compatibility_matrix
        .iter()
        .find(|entry| entry.feature == "flow_update")
        .expect("flow_update feature entry should exist");
    assert_eq!(flow_update.summary.informational_cases, 1);
    assert_eq!(flow_update.statuses.experimental_cases, 1);
    assert_eq!(flow_update.required_capabilities, vec!["flow_update"]);

    let transport_tcp = summary
        .compatibility_matrix
        .iter()
        .find(|entry| entry.feature == "transport.tcp")
        .expect("transport.tcp feature entry should exist");
    assert_eq!(transport_tcp.summary.selected_cases, 1);
    assert_eq!(transport_tcp.summary.not_claimed_cases, 1);
    assert_eq!(transport_tcp.statuses.optional_cases, 2);
    assert_eq!(transport_tcp.required_capabilities, vec!["transport.common", "transport.tcp"]);
    assert_eq!(transport_tcp.case_ids, vec!["l1.transport.tcp.fallback", "l1.transport.tcp.minimum"]);
}

#[test]
fn matrix_entries_come_in_feature_order() {
    let cases = [
        case("z.case", CaseLayer::L1, CaseStatus::Mandatory, "zeta", &[], "d"),
        case("a.case", CaseLayer::L1, CaseStatus::Deprecated, "alpha", &["x"], "d"),
        case("m.case", CaseLayer::L1, CaseStatus::Optional, "mid", &["y"], "d"),
    ];
    let refs: Vec<&CaseDefinition> = cases.iter().collect();
    let report = build_execution_plan_from_cases(&protocol("v"), &refs, None);
    let features: Vec<&str> = report.compatibility_matrix.iter().map(|e| e.feature.as_str()).collect();
    assert_eq!(features, vec!["alpha", "mid", "zeta"]);
    assert_eq!(report.summary.selected_cases, 1);
    assert_eq!(report.summary.not_claimed_cases, 1);
    assert_eq!(report.summary.informational_cases, 1);
    let ids: Vec<&str> = report.cases.iter().map(|c| c.id.as_str()).collect();
    assert_eq!(ids, vec!["z.case", "a.case", "m.case"]);
}

#[test]
fn case_selection_follows_status_and_capabilities() {
    let declared = vec!["a".to_string()];
    let claimed = case("x", CaseLayer::L1, CaseStatus::Optional, "f", &["a"], "d");
    let unclaimed = case("y", CaseLayer::L1, CaseStatus::Mandatory, "f", &["a", "b"], "d");
    let experimental = case("z", CaseLayer::L1, CaseStatus::Experimental, "f", &[], "d");
    assert_eq!(select_case(&claimed, &declared), CaseSelection::Selected);
    assert_eq!(select_case(&unclaimed, &declared), CaseSelection::NotClaimed);
    assert_eq!(select_case(&experimental, &declared), CaseSelection::Informational);
    assert_eq!(CaseSelection::NotClaimed.as_str(), "not_claimed");
}

#[test]
fn adapter_execution_plan_keeps_only_selected_cases() {
    let protocol_manifest = protocol("nnrp-1-preview3");
    let case_manifest = CaseManifest {
        schema: None,
        protocol_version: "nnrp-1-preview3".to_string(),
        manifest_name: "adapter-plan".to_string(),
        cases: vec![
            CaseDefinition {
                parameters: vec![("metadata_hex".to_string(), JsonValue::Text("0102".to_string()))],
                ..case("l1.handshake.basic", CaseLayer::L1, CaseStatus::Mandatory, "handshake.basic", &["handshake.basic"], "selected")
            },
            case(
                "l3.transport.quic.minimum",
                CaseLayer::L3,
                CaseStatus::Optional,
                "transport.quic",
                &["transport.quic"],
                "not claimed",
            ),
            case(
                "l1.flow_update.connection.scope.validation",
                CaseLayer::L1,
                CaseStatus::Experimental,
                "flow_update",
                &["flow_update"],
                "informational",
            ),
        ],
    };
    let capability_manifest = capabilities("sample", "nnrp-1-preview3", &["handshake.basic"]);

    let plan = build_adapter_execution_plan(
        &protocol_manifest,
        &case_manifest,
        &capability_manifest,
        "cases/adapter-plan.json",
        "example-capabilities.json",
        AdapterArtifactContext {
            results_path: "artifacts/adapter-results.json".to_string(),
            evidence_dir: "artifacts/evidence".to_string(),
        },
    )
    .expect("adapter execution plan should build");

    assert_eq!(plan.implementation_name, "sample");
    assert_eq!(plan.cases.len(), 1);
    assert_eq!(plan.cases[0].id, "l1.handshake.basic");
    assert_eq!(plan.cases[0].description, "selected");
    assert_eq!(plan.cases[0].required_capabilities, vec!["handshake.basic"]);
    let metadata = plan.cases[0].parameters.iter().find(|(name, _)| name == "metadata_hex").map(|(_, value)| value);
    assert!(matches!(metadata, Some(JsonValue::Text(text)) if text == "0102"));
    assert_eq!(
        plan.schema.as_deref(),
        Some("https://github.com/NagareWorks/nnrp-conformance/schemas/adapter-execution-plan.schema.json")
    );
    assert_eq!(plan.artifacts.evidence_dir, "artifacts/evidence");
}

#[test]
fn adapter_plan_for_manifests_rejects_unknown_tokens() {
    let case_manifest = CaseManifest {
        schema: None,
        protocol_version: "v".to_string(),
        manifest_name: "m".to_string(),
        cases: vec![case("a", CaseLayer::L1, CaseStatus::Mandatory, "f", &["known"], "d")],
    };
    let artifacts = AdapterArtifactContext { results_path: "r".to_string(), evidence_dir: "e".to_string() };
    let error = build_adapter_execution_plan_for_manifests(
        &protocol("v"),
        &[(&case_manifest, "m.json")],
        &capabilities("impl", "v", &["known", "other"]),
        "caps.json",
        artifacts.clone(),
    )
    .unwrap_err();
    assert_eq!(
        error.to_string(),
        "fixture validation failed: capability manifest impl declares unknown capability token(s): other"
    );
    let plan = build_adapter_execution_plan_for_manifests(
        &protocol("v"),
        &[(&case_manifest, "m.json"), (&case_manifest, "again.json")],
        &capabilities("impl", "v", &["known"]),
        "caps.json",
        artifacts,
    )
    .unwrap();
    assert_eq!(plan.cases.len(), 2);
}

#[test]
fn declared_capabilities_pass_without_a_manifest() {
    let cases = [case("a", CaseLayer::L1, CaseStatus::Mandatory, "f", &["known"], "d")];
    let refs: Vec<&CaseDefinition> = cases.iter().collect();
    validate_declared_capabilities(None, &refs).expect("nothing to check without a manifest");
    let error = validate_declared_capabilities(Some(&capabilities("s", "v", &["b", "known", "a"])), &refs).unwrap_err();
    assert_eq!(
        error.to_string(),
        "fixture validation failed: capability manifest s declares unknown capability token(s): b, a"
    );
}

#[test]
fn benchmark_plan_includes_optional_transport_slots_only_when_claimed() {
    let protocol_manifest = protocol("nnrp-1-preview3");
    let capability_manifest = capabilities("sample", "nnrp-1-preview3", &["transport.tcp"]);

    let plan = build_benchmark_execution_plan(
        &protocol_manifest,
        &capability_manifest,
        BenchmarkArtifactContext {
            results_path: "artifacts/benchmark-results.json".to_string(),
            evidence_dir: "artifacts/benchmark-evidence".to_string(),
        },
    );

    assert_eq!(plan.implementation_name, "sample");
    assert!(plan.scenarios.iter().any(|scenario| scenario.id == "l4.transport.tcp.loopback.throughput"));
    assert!(!plan.scenarios.iter().any(|scenario| scenario.id == "l4.metadata.session_open_ack.latency"));
    assert!(!plan.scenarios.iter().any(|scenario| scenario.id == "l4.submit_result.inline_tensor.throughput"));
    assert!(!plan.scenarios.iter().any(|scenario| scenario.id == "l4.transport.quic.loopback.throughput"));
}

#[test]
fn full_capabilities_select_the_whole_benchmark_catalog_in_order() {
    let supports = vec![
        "session.open_close".to_string(),
        "frame_submit.tensor.inline".to_string(),
        "result_push.basic".to_string(),
        "transport.tcp".to_string(),
        "transport.quic".to_string(),
    ];
    let scenarios = default_benchmark_scenarios(&supports);
    assert_eq!(scenarios.len(), 9);
    assert_eq!(scenarios[0].id, "l4.header.encode_decode.latency");
    assert_eq!(scenarios[8].id, "l4.transport.quic.loopback.throughput");
    assert_eq!(scenarios[8].workload.transport.as_deref(), Some("quic"));
    assert_eq!(scenarios[6].workload.duration_seconds, Some(10));
    let none = default_benchmark_scenarios(&vec![]);
    let ids: Vec<&str> = none.iter().map(|s| s.id.as_str()).collect();
    assert_eq!(ids, vec!["l4.header.encode_decode.latency", "l4.runtime.probe.latency"]);
}

#[test]
fn matrix_entries_add_up_to_the_report_totals() {
    let case_manifest = CaseManifest {
        schema: None,
        protocol_version: "v".to_string(),
        manifest_name: "m".to_string(),
        cases: vec![
            case("a", CaseLayer::L1, CaseStatus::Mandatory, "f1", &["x"], "d"),
            case("b", CaseLayer::L1, CaseStatus::Optional, "f2", &["y"], "d"),
            case("c", CaseLayer::L1, CaseStatus::Experimental, "f1", &["x"], "d"),
            case("d", CaseLayer::L1, CaseStatus::Mandatory, "f3", &["x"], "d"),
        ],
    };
    let caps = capabilities("sample", "v", &["x"]);
    let report = build_execution_plan(&protocol("v"), &case_manifest, Some(&caps), "m.json", Some("c.json")).unwrap();
    let selected: usize = report.compatibility_matrix.iter().map(|entry| entry.summary.selected_cases).sum();
    let not_claimed: usize = report.compatibility_matrix.iter().map(|entry| entry.summary.not_claimed_cases).sum();
    let informational: usize = report.compatibility_matrix.iter().map(|entry| entry.summary.informational_cases).sum();
    assert_eq!((selected, not_claimed, informational), (2, 1, 1));
    assert_eq!(selected, report.summary.selected_cases);
    assert_eq!(not_claimed, report.summary.not_claimed_cases);
    assert_eq!(informational, report.summary.informational_cases);
}

#[test]
fn one_manifest_plans_alike_through_either_builder() {
    let case_manifest = CaseManifest {
        schema: None,
        protocol_version: "v".to_string(),
        manifest_name: "m".to_string(),
        cases: vec![
            case("a", CaseLayer::L1, CaseStatus::Mandatory, "f1", &["x"], "d"),
            case("b", CaseLayer::L1, CaseStatus::Optional, "f2", &["y"], "d"),
        ],
    };
    let caps = capabilities("sample", "v", &["x"]);
    let single = build_execution_plan(&protocol("v"), &case_manifest, Some(&caps), "m.json", Some("c.json")).unwrap();
    let multi =
        build_execution_plan_for_manifests(&protocol("v"), &[(&case_manifest, "m.json")], Some(&caps), Some("c.json"))
            .unwrap();
    assert_eq!(single, multi);
    let stale = capabilities("sample", "w", &["x"]);
    let a = build_execution_plan(&protocol("v"), &case_manifest, Some(&stale), "m.json", None).unwrap_err();
    let b = build_execution_plan_for_manifests(&protocol("v"), &[(&case_manifest, "m.json")], Some(&stale), None)
        .unwrap_err();
    assert_eq!(a.to_string(), b.to_string());
    assert_eq!(a.to_string(), "protocol version mismatch: expected v, got w in ");
}
