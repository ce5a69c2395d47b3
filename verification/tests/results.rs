use nnrp_conformance_suite::fixtures::{
    AdapterArtifactContext, AdapterCaseOutcome, AdapterCaseResult, AdapterCaseResultReport, AdapterExecutionCase,
    AdapterExecutionPlan, BenchmarkArtifactContext, BenchmarkCategory, BenchmarkExecutionPlan, BenchmarkOutcome,
    BenchmarkScenario, BenchmarkWorkload, CaseLayer, CaseStatus,
};
use nnrp_conformance_suite::results::{
    validate_adapter_results, validate_benchmark_results, BenchmarkResultOverview, BenchmarkResultRecord,
};
use nnrp_conformance_suite::vector_compare::compare_vector_manifests;
use nnrp_conformance_suite::vector_manifest::{GoldenVector, VectorManifest};

fn sample_plan() -> AdapterExecutionPlan {
    AdapterExecutionPlan {
        schema: None,
        protocol_version: "nnrp-1-preview3".to_string(),
        suite_version: "preview3-bootstrap".to_string(),
        implementation_name: "nnrp-rs".to_string(),
        artifacts: AdapterArtifactContext {
            results_path: "artifacts/adapter-results.json".to_string(),
            evidence_dir: "artifacts/evidence".to_string(),
        },
        cases: vec![
            AdapterExecutionCase {
                id: "l1.handshake.basic".to_string(),
                layer: CaseLayer::L1,
                status: CaseStatus::Mandatory,
                feature: "handshake".to_string(),
                required_capabilities: vec!["control.client_hello".to_string()],
                description: "Basic handshake path".to_string(),
                parameters: vec![],
            },
            AdapterExecutionCase {
                id: "l1.session.open_close".to_string(),
                layer: CaseLayer::L1,
                status: CaseStatus::Mandatory,
                feature: "session_lifecycle".to_string(),
                required_capabilities: vec!["control.session_open".to_string()],
                description: "Session open close path".to_string(),
                parameters: vec![],
            },
        ],
    }
}

fn result(id: &str, outcome: AdapterCaseOutcome) -> AdapterCaseResult {
    AdapterCaseResult { id: id.to_string(), outcome, failure_kind: None, message: None, evidence_paths: vec![] }
}

fn report(implementation_name: &str, results: Vec<AdapterCaseResult>) -> AdapterCaseResultReport {
    AdapterCaseResultReport {
        schema: None,
        protocol_version: "nnrp-1-preview3".to_string(),
        implementation_name: implementation_name.to_string(),
        results,
    }
}

#[test]
fn adapter_results_validate_when_report_matches_selected_cases() {
    let summary = validate_adapter_results(
        &sample_plan(),
        &AdapterCaseResultReport {
            schema: None,
            protocol_version: "nnrp-1-preview3".to_string(),
            implementation_name: "nnrp-rs".to_string(),
            results: vec![
                AdapterCaseResult {
                    id: "l1.handshake.basic".to_string(),
                    outcome: AdapterCaseOutcome::Error,
                    failure_kind: Some("not_implemented".to_string()),
                    message: None,
                    evidence_paths: vec![],
                },
                AdapterCaseResult {
                    id: "l1.session.open_close".to_string(),
                    outcome: AdapterCaseOutcome::Skip,
                    failure_kind: None,
                    message: Some("not wired yet".to_string()),
                    evidence_paths: vec![],
                },
            ],
        },
    )
    .expect("adapter results should validate");

    assert_eq!(summary.selected_cases, 2);
    assert_eq!(summary.error_cases, 1);
    assert_eq!(summary.skipped_cases, 1);
}

#[test]
fn adapter_results_reject_missing_selected_case() {
    let error = validate_adapter_results(
        &sample_plan(),
        &AdapterCaseResultReport {
            schema: None,
            protocol_version: "nnrp-1-preview3".to_string(),
            implementation_name: "nnrp-rs".to_string(),
            results: vec![AdapterCaseResult {
                id: "l1.handshake.basic".to_string(),
                outcome: AdapterCaseOutcome::Pass,
                failure_kind: None,
                message: None,
                evidence_paths: vec![],
            }],
        },
    )
    .expect_err("adapter results should reject missing selected case");

    assert!(error.to_string().contains("missing 1 selected case"));
}

#[test]
fn adapter_results_reject_implementation_name_mismatch() {
    let error = validate_adapter_results(
        &sample_plan(),
        &AdapterCaseResultReport {
            schema: None,
            protocol_version: "nnrp-1-preview3".to_string(),
            implementation_name: "nnrp-py".to_string(),
            results: vec![],
        },
    )
    .expect_err("adapter results should reject mismatched implementation name");

    assert!(error.to_string().contains("implementation name mismatch"));
}

#[test]
fn adapter_results_reject_unexpected_and_duplicate_ids() {
    let error = validate_adapter_results(
        &sample_plan(),
        &report("nnrp-rs", vec![result("l1.handshake.basic", AdapterCaseOutcome::Pass), result("l9.other", AdapterCaseOutcome::Pass)]),
    )
    .unwrap_err();
    assert_eq!(error.to_string(), "adapter results contain an unexpected case id: l9.other");

    let error = validate_adapter_results(
        &sample_plan(),
        &report(
            "nnrp-rs",
            vec![result("l1.handshake.basic", AdapterCaseOutcome::Pass), result("l1.handshake.basic", AdapterCaseOutcome::Fail)],
        ),
    )
    .unwrap_err();
    assert_eq!(error.to_string(), "adapter results contain a duplicate case id: l1.handshake.basic");
}

#[test]
fn adapter_results_check_the_protocol_version_first() {
    let mut wrong = report("nnrp-py", vec![]);
    wrong.protocol_version = "nnrp-1-preview2".to_string();
    let error = validate_adapter_results(&sample_plan(), &wrong).unwrap_err();
    assert_eq!(error.to_string(), "adapter protocol version mismatch: expected nnrp-1-preview3, got nnrp-1-preview2");
    let error = validate_adapter_results(&sample_plan(), &report("nnrp-rs", vec![])).unwrap_err();
    assert_eq!(error.to_string(), "adapter results are missing 2 selected case(s)");
}

#[test]
fn adapter_results_count_every_outcome() {
    let mut plan = sample_plan();
    let mut extra = plan.cases[0].clone();
    extra.id = "l2.extra".to_string();
    plan.cases.push(extra.clone());
    extra.id = "l2.more".to_string();
    plan.cases.push(extra);
    let summary = validate_adapter_results(
        &plan,
        &report(
            "nnrp-rs",
            vec![
                result("l2.more", AdapterCaseOutcome::Pass),
                result("l1.handshake.basic", AdapterCaseOutcome::Pass),
                result("l2.extra", AdapterCaseOutcome::Fail),
                result("l1.session.open_close", AdapterCaseOutcome::Error),
            ],
        ),
    )
    .unwrap();
    assert_eq!(summary.selected_cases, 4);
    assert_eq!(summary.pass_cases, 2);
    assert_eq!(summary.fail_cases, 1);
    assert_eq!(summary.skipped_cases, 0);
    assert_eq!(summary.error_cases, 1);
}

fn sample_benchmark_plan() -> BenchmarkExecutionPlan {
    BenchmarkExecutionPlan {
        schema: None,
        protocol_version: "nnrp-1-preview3".to_string(),
        suite_version: "preview3-bootstrap".to_string(),
        implementation_name: "nnrp-rs".to_string(),
        artifacts: BenchmarkArtifactContext {
            results_path: "artifacts/benchmark-results.json".to_string(),
            evidence_dir: "artifacts/benchmark-evidence".to_string(),
        },
        scenarios: vec![
            BenchmarkScenario {
                id: "l4.header.encode_decode.latency".to_string(),
                category: BenchmarkCategory::Latency,
                feature: "benchmark.header".to_string(),
                required_capabilities: vec![],
                description: "Header latency".to_string(),
                workload: BenchmarkWorkload {
                    operation: "header_encode_decode".to_string(),
                    payload: "l0_header".to_string(),
                    transport: None,
                    iterations: Some(100),
                    warmup_iterations: Some(10),
                    duration_seconds: None,
                },
            },
            BenchmarkScenario {
                id: "l4.submit_result.inline_tensor.throughput".to_string(),
                category: BenchmarkCategory::Throughput,
                feature: "benchmark.submit_result".to_string(),
                required_capabilities: vec!["result_push.basic".to_string()],
                description: "Submit/result throughput".to_string(),
                workload: BenchmarkWorkload {
                    operation: "submit_result_loop".to_string(),
                    payload: "inline_tensor_4k".to_string(),
                    transport: None,
                    iterations: None,
                    warmup_iterations: Some(10),
                    duration_seconds: Some(1),
                },
            },
        ],
    }
}

fn record(id: &str, outcome: BenchmarkOutcome, has_metrics: bool, sample_count: usize) -> BenchmarkResultRecord {
    BenchmarkResultRecord { id: id.to_string(), outcome, has_metrics, sample_count }
}

#[test]
fn benchmark_results_validate_when_report_matches_selected_scenarios() {
    let summary = validate_benchmark_results(
        &sample_benchmark_plan(),
        &BenchmarkResultOverview {
            protocol_version: "nnrp-1-preview3".to_string(),
            implementation_name: "nnrp-rs".to_string(),
            results: vec![
                record("l4.header.encode_decode.latency", BenchmarkOutcome::Measured, true, 0),
                record("l4.submit_result.inline_tensor.throughput", BenchmarkOutcome::Skip, false, 0),
            ],
        },
    )
    .expect("benchmark results should validate");

    assert_eq!(summary.selected_scenarios, 2);
    assert_eq!(summary.measured_scenarios, 1);
    assert_eq!(summary.skipped_scenarios, 1);
}

#[test]
fn benchmark_results_reject_measured_scenario_without_metrics() {
    let error = validate_benchmark_results(
        &sample_benchmark_plan(),
        &BenchmarkResultOverview {
            protocol_version: "nnrp-1-preview3".to_string(),
            implementation_name: "nnrp-rs".to_string(),
            results: vec![
                record("l4.header.encode_decode.latency", BenchmarkOutcome::Measured, false, 0),
                record("l4.submit_result.inline_tensor.throughput", BenchmarkOutcome::Skip, false, 0),
            ],
        },
    )
    .expect_err("measured benchmark without metrics should be rejected");

    assert!(error.to_string().contains("must include metrics or samples"));
}

#[test]
fn benchmark_samples_stand_in_for_metrics() {
    let summary = validate_benchmark_results(
        &sample_benchmark_plan(),
        &BenchmarkResultOverview {
            protocol_version: "nnrp-1-preview3".to_string(),
            implementation_name: "nnrp-rs".to_string(),
            results: vec![
                record("l4.submit_result.inline_tensor.throughput", BenchmarkOutcome::Error, false, 0),
                record("l4.header.encode_decode.latency", BenchmarkOutcome::Measured, false, 3),
            ],
        },
    )
    .unwrap();
    assert_eq!(summary.measured_scenarios, 1);
    assert_eq!(summary.error_scenarios, 1);
    let error = validate_benchmark_results(
        &sample_benchmark_plan(),
        &BenchmarkResultOverview {
            protocol_version: "nnrp-1-preview3".to_string(),
            implementation_name: "nnrp-rs".to_string(),
            results: vec![record("l4.header.encode_decode.latency", BenchmarkOutcome::Skip, false, 0)],
        },
    )
    .unwrap_err();
    assert_eq!(error.to_string(), "benchmark results are missing 1 selected scenario(s)");
}

fn vector(name: &str, hex: &str) -> GoldenVector {
    GoldenVector {
        name: name.to_string(),
        kind: "header".to_string(),
        hex: hex.to_string(),
        bytes: hex.len() / 2,
        description: "d".to_string(),
    }
}

fn manifest(version: &str, vectors: Vec<GoldenVector>) -> VectorManifest {
    VectorManifest { schema: None, protocol_version: version.to_string(), generator: None, generated_from: None, vectors }
}

#[test]
fn vector_manifests_compare_by_name() {
    let expected = manifest("v1", vec![vector("b", "0102"), vector("a", "ff")]);
    let reordered = manifest("v1", vec![vector("a", "ff"), vector("b", "0102")]);
    compare_vector_manifests(&expected, &reordered).expect("order does not matter");

    let changed = manifest("v1", vec![vector("a", "fe"), vector("b", "0103")]);
    assert_eq!(compare_vector_manifests(&expected, &changed).unwrap_err().to_string(), "vector mismatch for a");

    let renamed = manifest("v1", vec![vector("c", "ff"), vector("b", "0102")]);
    assert_eq!(
        compare_vector_manifests(&expected, &renamed).unwrap_err().to_string(),
        "missing vector in actual manifest: a"
    );

    let shorter = manifest("v1", vec![vector("a", "ff")]);
    assert_eq!(
        compare_vector_manifests(&expected, &shorter).unwrap_err().to_string(),
        "vector count mismatch: expected 2, got 1"
    );

    let other = manifest("v2", vec![]);
    assert_eq!(
        compare_vector_manifests(&expected, &other).unwrap_err().to_string(),
        "protocol version mismatch: expected v1, got v2"
    );
}

#[test]
fn a_later_vector_of_one_name_replaces_an_earlier_one() {
    let expected = manifest("v1", vec![vector("a", "00"), vector("a", "ff")]);
    let actual = manifest("v1", vec![vector("a", "ff")]);
    compare_vector_manifests(&expected, &actual).expect("only the later vector counts");
}

#[test]
fn benchmark_errors_and_skips_are_informational() {
    let plan = sample_benchmark_plan();
    let summary = validate_benchmark_results(
        &plan,
        &BenchmarkResultOverview {
            protocol_version: plan.protocol_version.clone(),
            implementation_name: plan.implementation_name.clone(),
            results: vec![
                record("l4.header.encode_decode.latency", BenchmarkOutcome::Error, false, 0),
                record("l4.submit_result.inline_tensor.throughput", BenchmarkOutcome::Skip, false, 0),
            ],
        },
    )
    .expect("errors and skips should not fail benchmark validation");
    assert_eq!(summary.error_scenarios, 1);
    assert_eq!(summary.skipped_scenarios, 1);
    assert_eq!(summary.measured_scenarios, 0);
}
