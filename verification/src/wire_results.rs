use vstd::prelude::*;

use crate::fixtures::{
    ApiProfileCaseOutcome, FixtureError, WireConformanceCaseResult, WireConformanceCaseResultReport,
    WireConformanceExecutionPlan, WireConformanceObservedFrame, WireConformanceScenario,
    WireConformanceTargetManifest,
};
use crate::plan::contains_text;
use crate::results::{distinct_sorted, missing_count, WireConformanceValidationSummary, WireExternalExecutionSummary};
use crate::sorted_text::{insert_sorted_text, strictly_sorted, texts};
use crate::text::{decimal, push_decimal, push_text};
use crate::wire_evidence::{route_evidence_problem, validate_wire_route_evidence};
use crate::wire_frames::{
    drop_reason_problem, payload_rules_result_problem, validate_frame_payload_invariants, validate_result_drop_reason,
};
use crate::wire_names::{push_wire_terminal_name, wire_terminal_name};

verus! {

fn validation(message: String) -> (error: FixtureError)
    ensures
        error.is_validation(message@),
{
    FixtureError::Validation { message }
}

fn pair_message(prefix: &str, expected: &String, actual: &String) -> (message: String)
    ensures
        message@ == prefix@ + expected@ + ", got "@ + actual@,
{
    let mut message = String::new();
    push_text(&mut message, prefix);
    push_text(&mut message, expected.as_str());
    push_text(&mut message, ", got ");
    push_text(&mut message, actual.as_str());
    message
}

/// What differs between a plan and the target it is run against: the
/// protocol version, the suite version or the target name.
pub open spec fn plan_target_problem(plan: WireConformanceExecutionPlan, target: WireConformanceTargetManifest) -> Option<Seq<char>> {
    if plan.protocol_version@ != target.protocol_version@ {
        Some("wire target protocol version mismatch: expected "@ + plan.protocol_version@ + ", got "@
            + target.protocol_version@)
    } else if plan.suite_version@ != target.suite_version@ {
        Some("wire target suite version mismatch: expected "@ + plan.suite_version@ + ", got "@ + target.suite_version@)
    } else if plan.target_name@ != target.target_name@ {
        Some("wire target name mismatch: expected "@ + plan.target_name@ + ", got "@ + target.target_name@)
    } else {
        None
    }
}

/// Checks that a plan was made for the target it is run against.
pub fn validate_wire_plan_target_alignment(
    plan: &WireConformanceExecutionPlan,
    target_manifest: &WireConformanceTargetManifest,
) -> (outcome: Result<(), FixtureError>)
    ensures
        match plan_target_problem(*plan, *target_manifest) {
            Some(message) => outcome matches Err(e) && e.is_validation(message),
            None => outcome is Ok,
        },
{
    if plan.protocol_version != target_manifest.protocol_version {
        return Err(validation(pair_message(
            "wire target protocol version mismatch: expected ",
            &plan.protocol_version,
            &target_manifest.protocol_version,
        )));
    }
    if plan.suite_version != target_manifest.suite_version {
        return Err(validation(pair_message(
            "wire target suite version mismatch: expected ",
            &plan.suite_version,
            &target_manifest.suite_version,
        )));
    }
    if plan.target_name != target_manifest.target_name {
        return Err(validation(pair_message(
            "wire target name mismatch: expected ",
            &plan.target_name,
            &target_manifest.target_name,
        )));
    }
    Ok(())
}

/// How many results have this outcome.
pub open spec fn count_wire_outcome(results: Seq<WireConformanceCaseResult>, outcome: ApiProfileCaseOutcome) -> nat
    decreases results.len(),
{
    if results.len() == 0 {
        0
    } else {
        count_wire_outcome(results.drop_last(), outcome) + if results.last().outcome == outcome { 1nat } else { 0nat }
    }
}

fn count_outcome(results: &Vec<WireConformanceCaseResult>, outcome: ApiProfileCaseOutcome) -> (count: usize)
    ensures
        count == count_wire_outcome(results@, outcome),
{
    let mut count: usize = 0;
    let mut i: usize = 0;
    while i < results.len()
        invariant
            i <= results@.len(),
            count == count_wire_outcome(results@.take(i as int), outcome),
            count <= i,
        decreases results@.len() - i,
    {
        assert(results@.take(i + 1).drop_last() =~= results@.take(i as int));
        assert(results@.take(i + 1).last() == results@[i as int]);
        if results[i].outcome == outcome {
            count = count + 1;
        }
        i = i + 1;
    }
    assert(results@.take(i as int) =~= results@);
    count
}

/// Sums up an external wire run: every result is selected, passed ones
/// count as passed, and failed and skipped ones as failed.
pub fn summarize_wire_external_report(report: &WireConformanceCaseResultReport) -> (summary: WireExternalExecutionSummary)
    ensures
        summary.selected_scenarios == report.results@.len(),
        summary.passed_scenarios == count_wire_outcome(report.results@, ApiProfileCaseOutcome::Passed),
        summary.failed_scenarios == count_wire_outcome(report.results@, ApiProfileCaseOutcome::Failed)
            + count_wire_outcome(report.results@, ApiProfileCaseOutcome::Skipped),
{
    let passed = count_outcome(&report.results, ApiProfileCaseOutcome::Passed);
    let failed = count_outcome(&report.results, ApiProfileCaseOutcome::Failed);
    let skipped = count_outcome(&report.results, ApiProfileCaseOutcome::Skipped);
    proof {
        lemma_outcome_counts(report.results@);
    }
    WireExternalExecutionSummary {
        selected_scenarios: report.results.len(),
        passed_scenarios: passed,
        failed_scenarios: failed + skipped,
    }
}

proof fn lemma_outcome_counts(results: Seq<WireConformanceCaseResult>)
    ensures
        count_wire_outcome(results, ApiProfileCaseOutcome::Passed) + count_wire_outcome(results, ApiProfileCaseOutcome::Failed)
            + count_wire_outcome(results, ApiProfileCaseOutcome::Skipped) == results.len(),
    decreases results.len(),
{
    if results.len() > 0 {
        lemma_outcome_counts(results.drop_last());
    }
}

/// The scenario of a plan with this id; of two with one id, the later one.
pub open spec fn scenario_by_id(scenarios: Seq<WireConformanceScenario>, id: Seq<char>) -> Option<WireConformanceScenario>
    decreases scenarios.len(),
{
    if scenarios.len() == 0 {
        None
    } else if scenarios.last().id@ == id {
        Some(scenarios.last())
    } else {
        scenario_by_id(scenarios.drop_last(), id)
    }
}

/// The first observed frame, in order, outside the allowed frames.
pub open spec fn first_unexpected_frame(observed: Seq<WireConformanceObservedFrame>, allowed: Seq<Seq<char>>) -> Option<Seq<char>>
    decreases observed.len(),
{
    if observed.len() == 0 {
        None
    } else if !allowed.contains(observed[0].frame@) {
        Some(observed[0].frame@)
    } else {
        first_unexpected_frame(observed.drop_first(), allowed)
    }
}

/// The first position from `from` on where a frame of this kind was observed.
pub open spec fn first_position(observed: Seq<WireConformanceObservedFrame>, from: int, frame: Seq<char>) -> Option<int>
    decreases observed.len() - from,
{
    if from < 0 || from >= observed.len() {
        None
    } else if observed[from].frame@ == frame {
        Some(from)
    } else {
        first_position(observed, from + 1, frame)
    }
}

/// The first required frame, from position `j` on, that the observed
/// frames after `cursor` do not hold in order: its position.
pub open spec fn frame_order_problem(
    required: Seq<Seq<char>>,
    observed: Seq<WireConformanceObservedFrame>,
    j: int,
    cursor: int,
) -> Option<int>
    decreases required.len() - j,
{
    if j < 0 || j >= required.len() {
        None
    } else {
        match first_position(observed, cursor, required[j]) {
            None => Some(j),
            Some(p) => frame_order_problem(required, observed, j + 1, p + 1),
        }
    }
}

/// What is wrong with a passed result: its terminal, a frame outside the
/// allowed ones, the order of the required frames, payload rules, the drop
/// reason, or route evidence.
pub open spec fn passed_result_problem(
    plan: WireConformanceExecutionPlan,
    scenario: WireConformanceScenario,
    result: WireConformanceCaseResult,
) -> Option<Seq<char>> {
    let required = texts(scenario.expect.frames@);
    let allowed = texts(scenario.expect.allowed_frames@);
    let observed = result.observed_frames@;
    if scenario.expect.terminal != result.terminal {
        Some("wire scenario "@ + result.id@ + " terminal mismatch: expected "@ + wire_terminal_name(scenario.expect.terminal)
            + ", got "@ + wire_terminal_name(result.terminal))
    } else if first_unexpected_frame(observed, allowed) is Some {
        Some("wire scenario "@ + result.id@ + " observed unexpected frame "@ + first_unexpected_frame(observed, allowed)->0)
    } else if frame_order_problem(required, observed, 0, 0) is Some {
        let j = frame_order_problem(required, observed, 0, 0)->0;
        Some("wire scenario "@ + result.id@ + " missing or reordered expected frame "@ + required[j]
            + " at required position "@ + decimal((j + 1) as nat))
    } else if payload_rules_result_problem(result.id@, scenario.expect.frame_payload_invariants@, observed) is Some {
        payload_rules_result_problem(result.id@, scenario.expect.frame_payload_invariants@, observed)
    } else if drop_reason_problem(scenario, result) is Some {
        drop_reason_problem(scenario, result)
    } else {
        route_evidence_problem(plan, scenario, result)
    }
}

/// The ids of results.
pub open spec fn wire_result_ids(results: Seq<WireConformanceCaseResult>) -> Seq<Seq<char>> {
    results.map_values(|r: WireConformanceCaseResult| r.id@)
}

/// What is wrong with one result, given the results before it.
pub open spec fn wire_result_problem(
    plan: WireConformanceExecutionPlan,
    before: Seq<WireConformanceCaseResult>,
    result: WireConformanceCaseResult,
) -> Option<Seq<char>> {
    match scenario_by_id(plan.scenarios@, result.id@) {
        None => Some("wire results contain an unexpected scenario id: "@ + result.id@),
        Some(scenario) => if wire_result_ids(before).contains(result.id@) {
            Some("wire results contain a duplicate scenario id: "@ + result.id@)
        } else if result.outcome == ApiProfileCaseOutcome::Passed {
            passed_result_problem(plan, scenario, result)
        } else {
            None
        },
    }
}

/// The first result, in order, with a problem: its message.
pub open spec fn wire_results_problem(
    plan: WireConformanceExecutionPlan,
    results: Seq<WireConformanceCaseResult>,
) -> Option<Seq<char>>
    decreases results.len(),
{
    if results.len() == 0 {
        None
    } else {
        let earlier = wire_results_problem(plan, results.drop_last());
        if earlier is Some {
            earlier
        } else {
            wire_result_problem(plan, results.drop_last(), results.last())
        }
    }
}

/// The ids of a plan's scenarios.
pub open spec fn wire_plan_ids(scenarios: Seq<WireConformanceScenario>) -> Seq<Seq<char>> {
    scenarios.map_values(|s: WireConformanceScenario| s.id@)
}

/// What is wrong with a wire result report against its plan, checked in
/// order: versions and target, each result, and whether every selected
/// scenario has a result; none if nothing is.
pub open spec fn wire_validation_problem(
    plan: WireConformanceExecutionPlan,
    report: WireConformanceCaseResultReport,
) -> Option<Seq<char>> {
    let expected = wire_plan_ids(plan.scenarios@).to_set().len();
    if plan.protocol_version@ != report.protocol_version@ {
        Some("wire protocol version mismatch: expected "@ + plan.protocol_version@ + ", got "@ + report.protocol_version@)
    } else if plan.suite_version@ != report.suite_version@ {
        Some("wire suite version mismatch: expected "@ + plan.suite_version@ + ", got "@ + report.suite_version@)
    } else if plan.target_name@ != report.target_name@ {
        Some("wire target name mismatch: expected "@ + plan.target_name@ + ", got "@ + report.target_name@)
    } else if wire_results_problem(plan, report.results@) is Some {
        wire_results_problem(plan, report.results@)
    } else if report.results@.len() != expected {
        Some("wire results are missing "@ + decimal(missing_count(expected, report.results@.len()))
            + " selected scenario(s)"@)
    } else {
        None
    }
}

fn find_scenario<'a>(scenarios: &'a Vec<WireConformanceScenario>, id: &String) -> (found: Option<&'a WireConformanceScenario>)
    ensures
        match scenario_by_id(scenarios@, id@) {
            Some(s) => found matches Some(f) && *f == s,
            None => found is None,
        },
{
    let mut k: usize = scenarios.len();
    assert(scenarios@.take(k as int) =~= scenarios@);
    while k > 0
        invariant
            k <= scenarios@.len(),
            scenario_by_id(scenarios@, id@) == scenario_by_id(scenarios@.take(k as int), id@),
        decreases k,
    {
        assert(scenarios@.take(k as int).drop_last() =~= scenarios@.take(k - 1));
        assert(scenarios@.take(k as int).last() == scenarios@[k - 1]);
        if scenarios[k - 1].id == *id {
            return Some(&scenarios[k - 1]);
        }
        k = k - 1;
    }
    None
}

fn first_unexpected(observed: &Vec<WireConformanceObservedFrame>, allowed: &Vec<String>) -> (found: Option<usize>)
    ensures
        match first_unexpected_frame(observed@, texts(allowed@)) {
            Some(f) => found matches Some(k) && k < observed@.len() && observed@[k as int].frame@ == f,
            None => found is None,
        },
{
    let mut k: usize = 0;
    assert(observed@.skip(0) =~= observed@);
    while k < observed.len()
        invariant
            k <= observed@.len(),
            first_unexpected_frame(observed@, texts(allowed@)) == first_unexpected_frame(observed@.skip(k as int), texts(allowed@)),
        decreases observed@.len() - k,
    {
        assert(observed@.skip(k as int)[0] == observed@[k as int]);
        assert(observed@.skip(k as int).drop_first() =~= observed@.skip(k + 1));
        if !contains_text(allowed, &observed[k].frame) {
            return Some(k);
        }
        k = k + 1;
    }
    assert(observed@.skip(k as int).len() == 0);
    None
}

fn find_position(observed: &Vec<WireConformanceObservedFrame>, from: usize, frame: &String) -> (found: Option<usize>)
    ensures
        match first_position(observed@, from as int, frame@) {
            Some(p) => found matches Some(q) && q as int == p && from <= p < observed@.len(),
            None => found is None,
        },
    decreases observed@.len() - from,
{
    if from >= observed.len() {
        return None;
    }
    if observed[from].frame == *frame {
        return Some(from);
    }
    find_position(observed, from + 1, frame)
}

/// The first required frame the observed frames miss or hold out of order.
fn frame_order(observed: &Vec<WireConformanceObservedFrame>, required: &Vec<String>) -> (found: Option<usize>)
    ensures
        match frame_order_problem(texts(required@), observed@, 0, 0) {
            Some(j) => found matches Some(q) && q as int == j && 0 <= j < required@.len(),
            None => found is None,
        },
{
    let ghost req = texts(required@);
    let mut cursor: usize = 0;
    let mut j: usize = 0;
    while j < required.len()
        invariant
            j <= required@.len(),
            cursor <= observed@.len(),
            req == texts(required@),
            frame_order_problem(req, observed@, 0, 0) == frame_order_problem(req, observed@, j as int, cursor as int),
        decreases required@.len() - j,
    {
        assert(req[j as int] == required@[j as int]@);
        match find_position(observed, cursor, &required[j]) {
            None => {
                return Some(j);
            },
            Some(p) => {
                let n = observed.len();
                assert(p < n);
                assert(frame_order_problem(req, observed@, j as int, cursor as int) == frame_order_problem(
                    req,
                    observed@,
                    j + 1,
                    p + 1,
                ));
                cursor = p + 1;
            },
        }
        j = j + 1;
    }
    None
}

fn check_passed_result(
    plan: &WireConformanceExecutionPlan,
    scenario: &WireConformanceScenario,
    result: &WireConformanceCaseResult,
) -> (outcome: Result<(), FixtureError>)
    ensures
        match passed_result_problem(*plan, *scenario, *result) {
            Some(message) => outcome matches Err(e) && e.is_validation(message),
            None => outcome is Ok,
        },
{
    if scenario.expect.terminal != result.terminal {
        let mut message = String::new();
        push_text(&mut message, "wire scenario ");
        push_text(&mut message, result.id.as_str());
        push_text(&mut message, " terminal mismatch: expected ");
        push_wire_terminal_name(&mut message, scenario.expect.terminal);
        push_text(&mut message, ", got ");
        push_wire_terminal_name(&mut message, result.terminal);
        return Err(validation(message));
    }
    match first_unexpected(&result.observed_frames, &scenario.expect.allowed_frames) {
        Some(k) => {
            let mut message = String::new();
            push_text(&mut message, "wire scenario ");
            push_text(&mut message, result.id.as_str());
            push_text(&mut message, " observed unexpected frame ");
            push_text(&mut message, result.observed_frames[k].frame.as_str());
            return Err(validation(message));
        },
        None => {},
    }
    match frame_order(&result.observed_frames, &scenario.expect.frames) {
        Some(j) => {
            let n = scenario.expect.frames.len();
            assert(j < n);
            let mut message = String::new();
            push_text(&mut message, "wire scenario ");
            push_text(&mut message, result.id.as_str());
            push_text(&mut message, " missing or reordered expected frame ");
            push_text(&mut message, scenario.expect.frames[j].as_str());
            push_text(&mut message, " at required position ");
            push_decimal(&mut message, (j + 1) as u64);
            assert(texts(scenario.expect.frames@)[j as int] == scenario.expect.frames@[j as int]@);
            return Err(validation(message));
        },
        None => {},
    }
    match validate_frame_payload_invariants(scenario, result) {
        Err(e) => {
            return Err(e);
        },
        Ok(()) => {},
    }
    match validate_result_drop_reason(scenario, result) {
        Err(e) => {
            return Err(e);
        },
        Ok(()) => {},
    }
    validate_wire_route_evidence(plan, scenario, result)
}

proof fn lemma_wire_results_problem_prefix(plan: WireConformanceExecutionPlan, results: Seq<WireConformanceCaseResult>, n: int)
    requires
        0 <= n <= results.len(),
        wire_results_problem(plan, results.take(n)) is Some,
    ensures
        wire_results_problem(plan, results) == wire_results_problem(plan, results.take(n)),
    decreases results.len() - n,
{
    if n < results.len() {
        assert(results.take(n + 1).drop_last() =~= results.take(n));
        lemma_wire_results_problem_prefix(plan, results, n + 1);
    } else {
        assert(results.take(n) =~= results);
    }
}

/// Checks a wire result report against its plan: the same versions and
/// target, one result per selected scenario and nothing else, and for each
/// passed result the expected terminal, frames, payloads, drop reason and
/// route evidence; counts the results by outcome.
pub fn validate_wire_conformance_results(
    expected_plan: &WireConformanceExecutionPlan,
    actual_report: &WireConformanceCaseResultReport,
) -> (result: Result<WireConformanceValidationSummary, FixtureError>)
    ensures
        match result {
            Ok(summary) => {
                &&& wire_validation_problem(*expected_plan, *actual_report) is None
                &&& summary.selected_scenarios == wire_plan_ids(expected_plan.scenarios@).to_set().len()
                &&& summary.passed_scenarios == count_wire_outcome(actual_report.results@, ApiProfileCaseOutcome::Passed)
                &&& summary.failed_scenarios == count_wire_outcome(actual_report.results@, ApiProfileCaseOutcome::Failed)
                &&& summary.skipped_scenarios == count_wire_outcome(actual_report.results@, ApiProfileCaseOutcome::Skipped)
            },
            Err(e) => wire_validation_problem(*expected_plan, *actual_report) matches Some(message) && e.is_validation(message),
        },
{
    if expected_plan.protocol_version != actual_report.protocol_version {
        return Err(validation(pair_message(
            "wire protocol version mismatch: expected ",
            &expected_plan.protocol_version,
            &actual_report.protocol_version,
        )));
    }
    if expected_plan.suite_version != actual_report.suite_version {
        return Err(validation(pair_message(
            "wire suite version mismatch: expected ",
            &expected_plan.suite_version,
            &actual_report.suite_version,
        )));
    }
    if expected_plan.target_name != actual_report.target_name {
        return Err(validation(pair_message(
            "wire target name mismatch: expected ",
            &expected_plan.target_name,
            &actual_report.target_name,
        )));
    }
    let mut plan_ids: Vec<String> = Vec::new();
    let mut c: usize = 0;
    while c < expected_plan.scenarios.len()
        invariant
            c <= expected_plan.scenarios@.len(),
            texts(plan_ids@) == wire_plan_ids(expected_plan.scenarios@.take(c as int)),
        decreases expected_plan.scenarios@.len() - c,
    {
        plan_ids.push(expected_plan.scenarios[c].id.clone());
        assert(wire_plan_ids(expected_plan.scenarios@.take(c + 1)) =~= wire_plan_ids(
            expected_plan.scenarios@.take(c as int),
        ).push(expected_plan.scenarios@[c as int].id@));
        c = c + 1;
    }
    assert(expected_plan.scenarios@.take(c as int) =~= expected_plan.scenarios@);
    let expected_ids = distinct_sorted(&plan_ids);
    let ghost results = actual_report.results@;
    let mut actual_ids: Vec<String> = Vec::new();
    let mut passed: usize = 0;
    let mut failed: usize = 0;
    let mut skipped: usize = 0;
    let mut i: usize = 0;
    while i < actual_report.results.len()
        invariant
            i <= results.len(),
            results == actual_report.results@,
            expected_plan.protocol_version@ == actual_report.protocol_version@,
            expected_plan.suite_version@ == actual_report.suite_version@,
            expected_plan.target_name@ == actual_report.target_name@,
            wire_results_problem(*expected_plan, results.take(i as int)) is None,
            strictly_sorted(texts(actual_ids@)),
            forall|t: Seq<char>| texts(actual_ids@).contains(t) <==> wire_result_ids(results.take(i as int)).contains(t),
            actual_ids@.len() == i,
            passed == count_wire_outcome(results.take(i as int), ApiProfileCaseOutcome::Passed),
            failed == count_wire_outcome(results.take(i as int), ApiProfileCaseOutcome::Failed),
            skipped == count_wire_outcome(results.take(i as int), ApiProfileCaseOutcome::Skipped),
            passed + failed + skipped == i,
        decreases results.len() - i,
    {
        let entry: &WireConformanceCaseResult = &actual_report.results[i];
        let ghost prior = results.take(i as int);
        let ghost next = results.take(i + 1);
        proof {
            assert(next.drop_last() =~= prior);
            assert(next.last() == *entry);
            assert(wire_result_ids(next) =~= wire_result_ids(prior).push(entry.id@));
        }
        let scenario = match find_scenario(&expected_plan.scenarios, &entry.id) {
            None => {
                let mut message = String::new();
                push_text(&mut message, "wire results contain an unexpected scenario id: ");
                push_text(&mut message, entry.id.as_str());
                proof {
                    lemma_wire_results_problem_prefix(*expected_plan, results, i + 1);
                }
                return Err(validation(message));
            },
            Some(scenario) => scenario,
        };
        if !insert_sorted_text(&mut actual_ids, entry.id.clone()) {
            let mut message = String::new();
            push_text(&mut message, "wire results contain a duplicate scenario id: ");
            push_text(&mut message, entry.id.as_str());
            proof {
                lemma_wire_results_problem_prefix(*expected_plan, results, i + 1);
            }
            return Err(validation(message));
        }
        match entry.outcome {
            ApiProfileCaseOutcome::Passed => {
                match check_passed_result(expected_plan, scenario, entry) {
                    Err(e) => {
                        proof {
                            lemma_wire_results_problem_prefix(*expected_plan, results, i + 1);
                        }
                        return Err(e);
                    },
                    Ok(()) => {},
                }
                passed = passed + 1;
            },
            ApiProfileCaseOutcome::Failed => failed = failed + 1,
            ApiProfileCaseOutcome::Skipped => skipped = skipped + 1,
        }
        proof {
            assert(wire_results_problem(*expected_plan, next) is None);
            assert forall|t: Seq<char>| texts(actual_ids@).contains(t) <==> wire_result_ids(next).contains(t) by {
                let ids = wire_result_ids(next);
                if ids.contains(t) {
                    let k = choose|k: int| 0 <= k < ids.len() && ids[k] == t;
                    if k < i {
                        assert(wire_result_ids(prior)[k] == t);
                    }
                }
                if wire_result_ids(prior).contains(t) {
                    let k = choose|k: int| 0 <= k < prior.len() && wire_result_ids(prior)[k] == t;
                    assert(ids[k] == t);
                }
                if t == entry.id@ {
                    assert(ids[i as int] == t);
                }
            }
        }
        i = i + 1;
    }
    assert(results.take(i as int) =~= results);
    if actual_ids.len() != expected_ids.len() {
        let missing = if expected_ids.len() >= actual_ids.len() {
            expected_ids.len() - actual_ids.len()
        } else {
            0
        };
        let mut message = String::new();
        push_text(&mut message, "wire results are missing ");
        push_decimal(&mut message, missing as u64);
        push_text(&mut message, " selected scenario(s)");
        return Err(validation(message));
    }
    Ok(WireConformanceValidationSummary {
        selected_scenarios: expected_ids.len(),
        passed_scenarios: passed,
        failed_scenarios: failed,
        skipped_scenarios: skipped,
    })
}

} // verus!
