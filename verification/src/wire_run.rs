use vstd::prelude::*;

use crate::fixtures::{
    ApiProfileCaseOutcome, FixtureError, WireConformanceCaseResult, WireConformanceCaseResultReport,
    WireConformanceExecutionPlan, WireConformanceScenario, WireConformanceTargetManifest, WireConformanceTerminal,
    WireConformanceTransport, WireConformanceTransportEndpoint,
};
use crate::host_route::{push_transport_name, transport_name};
use crate::text::{decimal, opt_view, push_decimal, push_text};

verus! {

/// The first endpoint a target declares for a transport.
pub open spec fn endpoint_for(
    endpoints: Seq<WireConformanceTransportEndpoint>,
    transport: WireConformanceTransport,
) -> Option<WireConformanceTransportEndpoint>
    decreases endpoints.len(),
{
    if endpoints.len() == 0 {
        None
    } else if endpoints[0].name == transport {
        Some(endpoints[0])
    } else {
        endpoint_for(endpoints.drop_first(), transport)
    }
}

/// Why a frame-level scenario cannot be run against a target: it is a
/// host-route scenario, or the target declares no endpoint for its
/// transport.
pub open spec fn scenario_endpoint_problem(
    target: WireConformanceTargetManifest,
    scenario: WireConformanceScenario,
) -> Option<Seq<char>> {
    match scenario.transport {
        None => Some("host-route scenario "@ + scenario.id@ + " requires the host-route executor"@),
        Some(t) => if endpoint_for(target.wire_conformance.transports@, t) is None {
            Some("target manifest does not declare "@ + transport_name(t) + " transport endpoint"@)
        } else {
            None
        },
    }
}

/// The endpoint a frame-level scenario runs against: the target's endpoint
/// for the scenario's transport.
pub fn scenario_endpoint<'a>(
    target_manifest: &'a WireConformanceTargetManifest,
    scenario: &WireConformanceScenario,
) -> (result: Result<&'a WireConformanceTransportEndpoint, FixtureError>)
    ensures
        match scenario_endpoint_problem(*target_manifest, *scenario) {
            Some(message) => result matches Err(e) && e.is_validation(message),
            None => result matches Ok(endpoint) && Some(*endpoint) == endpoint_for(
                target_manifest.wire_conformance.transports@,
                scenario.transport->Some_0,
            ),
        },
{
    let transport = match scenario.transport {
        None => {
            let mut message = String::new();
            push_text(&mut message, "host-route scenario ");
            push_text(&mut message, scenario.id.as_str());
            push_text(&mut message, " requires the host-route executor");
            return Err(FixtureError::Validation { message });
        },
        Some(t) => t,
    };
    let endpoints = &target_manifest.wire_conformance.transports;
    let mut i: usize = 0;
    assert(endpoints@.skip(0) =~= endpoints@);
    while i < endpoints.len()
        invariant
            i <= endpoints@.len(),
            *endpoints == target_manifest.wire_conformance.transports,
            scenario.transport == Some(transport),
            endpoint_for(endpoints@, transport) == endpoint_for(endpoints@.skip(i as int), transport),
        decreases endpoints@.len() - i,
    {
        assert(endpoints@.skip(i as int)[0] == endpoints@[i as int]);
        assert(endpoints@.skip(i as int).drop_first() =~= endpoints@.skip(i + 1));
        if endpoints[i].name == transport {
            return Ok(&endpoints[i]);
        }
        i = i + 1;
    }
    let mut message = String::new();
    push_text(&mut message, "target manifest does not declare ");
    push_transport_name(&mut message, transport);
    push_text(&mut message, " transport endpoint");
    Err(FixtureError::Validation { message })
}

/// A failed result of an external wire scenario: no frames, no route
/// evidence, the message and the evidence files.
pub open spec fn external_failure(
    result: WireConformanceCaseResult,
    scenario: WireConformanceScenario,
    message: Seq<char>,
    evidence_paths: Seq<Seq<char>>,
) -> bool {
    &&& result.id@ == scenario.id@
    &&& result.outcome == ApiProfileCaseOutcome::Failed
    &&& result.terminal == WireConformanceTerminal::Error
    &&& result.observed_frames@.len() == 0
    &&& result.route_evidence is None
    &&& opt_view(result.message) == Some(message)
    &&& crate::sorted_text::texts(result.evidence_paths@) == evidence_paths
}

/// The result of an external wire scenario whose target failed.
pub fn external_target_failed(
    scenario: &WireConformanceScenario,
    error: &str,
    evidence_paths: Vec<String>,
) -> (result: WireConformanceCaseResult)
    ensures
        external_failure(result, *scenario, "external wire target failed: "@ + error@, crate::sorted_text::texts(evidence_paths@)),
{
    let mut message = String::new();
    push_text(&mut message, "external wire target failed: ");
    push_text(&mut message, error);
    WireConformanceCaseResult {
        id: scenario.id.clone(),
        outcome: ApiProfileCaseOutcome::Failed,
        terminal: WireConformanceTerminal::Error,
        observed_frames: Vec::new(),
        route_evidence: None,
        message: Some(message),
        evidence_paths,
    }
}

/// The result of an external wire scenario that ran out of time.
pub fn external_target_timed_out(
    scenario: &WireConformanceScenario,
    timeout_ms: u64,
    evidence_paths: Vec<String>,
) -> (result: WireConformanceCaseResult)
    ensures
        external_failure(
            result,
            *scenario,
            "external wire target exceeded "@ + decimal(timeout_ms as nat) + " ms execution timeout"@,
            crate::sorted_text::texts(evidence_paths@),
        ),
{
    let mut message = String::new();
    push_text(&mut message, "external wire target exceeded ");
    push_decimal(&mut message, timeout_ms);
    push_text(&mut message, " ms execution timeout");
    WireConformanceCaseResult {
        id: scenario.id.clone(),
        outcome: ApiProfileCaseOutcome::Failed,
        terminal: WireConformanceTerminal::Error,
        observed_frames: Vec::new(),
        route_evidence: None,
        message: Some(message),
        evidence_paths,
    }
}

/// The message of a host-route scenario that was selected without a
/// host-route driver to run it.
pub fn missing_host_route_target(scenario: &WireConformanceScenario) -> (error: FixtureError)
    ensures
        error.is_validation("host-route scenario "@ + scenario.id@ + " requires --host-route-target"@),
{
    let mut message = String::new();
    push_text(&mut message, "host-route scenario ");
    push_text(&mut message, scenario.id.as_str());
    push_text(&mut message, " requires --host-route-target");
    FixtureError::Validation { message }
}

/// The report of an external wire run: the plan's versions and target, and
/// the results in the order the scenarios ran.
pub fn wire_run_report(
    plan: &WireConformanceExecutionPlan,
    results: Vec<WireConformanceCaseResult>,
) -> (report: WireConformanceCaseResultReport)
    ensures
        opt_view(report.schema) == Some(
            "https://github.com/NagareWorks/nnrp-conformance/schemas/wire-conformance-case-results.schema.json"@,
        ),
        report.protocol_version@ == plan.protocol_version@,
        report.suite_version@ == plan.suite_version@,
        report.target_name@ == plan.target_name@,
        report.results@ == results@,
{
    WireConformanceCaseResultReport {
        schema: Some(
            "https://github.com/NagareWorks/nnrp-conformance/schemas/wire-conformance-case-results.schema.json".to_owned(),
        ),
        protocol_version: plan.protocol_version.clone(),
        suite_version: plan.suite_version.clone(),
        target_name: plan.target_name.clone(),
        results,
    }
}

} // verus!
