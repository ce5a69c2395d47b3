use vstd::prelude::*;

use crate::fixtures::{
    AdapterCaseOutcome, AdapterCaseResult, AdapterCaseResultReport, AdapterExecutionCase, AdapterExecutionPlan,
    BenchmarkExecutionPlan, BenchmarkOutcome, BenchmarkScenario,
};
use crate::plan::contains_text;
use crate::sorted_text::{insert_sorted_text, lemma_bytes_lt_irreflexive, strictly_sorted, text_key, texts};
use crate::text::{decimal, push_decimal, push_text};

verus! {

/// Why an adapter or benchmark result report does not answer its plan.
#[derive(Debug, Clone, PartialEq, Eq)]
pub struct ResultsError {
    pub message: String,
}

impl ResultsError {
    /// The text of the error.
    pub fn to_string(&self) -> (text: String)
        ensures
            text@ == self.message@,
    {
        self.message.clone()
    }
}

/// How the results of an adapter run add up.
#[derive(Debug, Clone, Copy, PartialEq, Eq, Structural)]
pub struct AdapterValidationSummary {
    pub selected_cases: usize,
    pub pass_cases: usize,
    pub fail_cases: usize,
    pub skipped_cases: usize,
    pub error_cases: usize,
}

/// How the results of a benchmark run add up.
#[derive(Debug, Clone, Copy, PartialEq, Eq, Structural)]
pub struct BenchmarkValidationSummary {
    pub selected_scenarios: usize,
    pub measured_scenarios: usize,
    pub skipped_scenarios: usize,
    pub error_scenarios: usize,
}

/// How the results of an API profile run add up.
#[derive(Debug, Clone, Copy, PartialEq, Eq, Structural)]
pub struct ApiProfileValidationSummary {
    pub selected_cases: usize,
    pub passed_cases: usize,
    pub failed_cases: usize,
    pub skipped_cases: usize,
}

/// How the results of a wire conformance run add up.
#[derive(Debug, Clone, Copy, PartialEq, Eq, Structural)]
pub struct WireConformanceValidationSummary {
    pub selected_scenarios: usize,
    pub passed_scenarios: usize,
    pub failed_scenarios: usize,
    pub skipped_scenarios: usize,
}

/// How an external wire run went.
#[derive(Debug, Clone, Copy, PartialEq, Eq, Structural)]
pub struct WireExternalExecutionSummary {
    pub selected_scenarios: usize,
    pub passed_scenarios: usize,
    pub failed_scenarios: usize,
}

/// What the validation of a benchmark run reads of one scenario result:
/// its id, its outcome, whether it carries metrics, and how many samples.
#[derive(Debug, Clone, PartialEq, Eq)]
pub struct BenchmarkResultRecord {
    pub id: String,
    pub outcome: BenchmarkOutcome,
    pub has_metrics: bool,
    pub sample_count: usize,
}

/// What the validation of a benchmark run reads of its result report.
#[derive(Debug, Clone, PartialEq, Eq)]
pub struct BenchmarkResultOverview {
    pub protocol_version: String,
    pub implementation_name: String,
    pub results: Vec<BenchmarkResultRecord>,
}

/// The ids of an adapter plan's cases.
pub open spec fn adapter_plan_ids(cases: Seq<AdapterExecutionCase>) -> Seq<Seq<char>> {
    cases.map_values(|c: AdapterExecutionCase| c.id@)
}

/// The ids of adapter results.
pub open spec fn adapter_result_ids(results: Seq<AdapterCaseResult>) -> Seq<Seq<char>> {
    results.map_values(|r: AdapterCaseResult| r.id@)
}

/// The ids of a benchmark plan's scenarios.
pub open spec fn benchmark_plan_ids(scenarios: Seq<BenchmarkScenario>) -> Seq<Seq<char>> {
    scenarios.map_values(|s: BenchmarkScenario| s.id@)
}

/// The ids of benchmark results.
pub open spec fn benchmark_result_ids(results: Seq<BenchmarkResultRecord>) -> Seq<Seq<char>> {
    results.map_values(|r: BenchmarkResultRecord| r.id@)
}

/// The first result, in report order, whose id the plan does not hold or an
/// earlier result already used: the message that names it.
pub open spec fn adapter_result_problem(expected: Set<Seq<char>>, results: Seq<AdapterCaseResult>) -> Option<Seq<char>>
    decreases results.len(),
{
    if results.len() == 0 {
        None
    } else {
        let earlier = adapter_result_problem(expected, results.drop_last());
        let id = results.last().id@;
        if earlier is Some {
            earlier
        } else if !expected.contains(id) {
            Some("adapter results contain an unexpected case id: "@ + id)
        } else if adapter_result_ids(results.drop_last()).contains(id) {
            Some("adapter results contain a duplicate case id: "@ + id)
        } else {
            None
        }
    }
}

/// How many adapter results have this outcome.
pub open spec fn count_adapter_outcome(results: Seq<AdapterCaseResult>, outcome: AdapterCaseOutcome) -> nat
    decreases results.len(),
{
    if results.len() == 0 {
        0
    } else {
        count_adapter_outcome(results.drop_last(), outcome) + if results.last().outcome == outcome { 1nat } else { 0nat }
    }
}

/// How many of `expected` selected items a report with `reported` distinct
/// results lacks, counted down to zero.
pub open spec fn missing_count(expected: nat, reported: nat) -> nat {
    if reported <= expected {
        (expected - reported) as nat
    } else {
        0
    }
}

/// What is wrong with an adapter result report against its plan, checked in
/// this order: the protocol version, the implementation name, each result's
/// id, and whether every selected case has a result; none if nothing is.
pub open spec fn adapter_validation_problem(plan: AdapterExecutionPlan, report: AdapterCaseResultReport) -> Option<Seq<char>> {
    let expected = adapter_plan_ids(plan.cases@).to_set();
    if plan.protocol_version@ != report.protocol_version@ {
        Some("adapter protocol version mismatch: expected "@ + plan.protocol_version@ + ", got "@
            + report.protocol_version@)
    } else if plan.implementation_name@ != report.implementation_name@ {
        Some("adapter implementation name mismatch: expected "@ + plan.implementation_name@ + ", got "@
            + report.implementation_name@)
    } else if adapter_result_problem(expected, report.results@) is Some {
        adapter_result_problem(expected, report.results@)
    } else if report.results@.len() != expected.len() {
        Some("adapter results are missing "@ + decimal(missing_count(expected.len(), report.results@.len()))
            + " selected case(s)"@)
    } else {
        None
    }
}

/// The first result, in report order, whose id the plan does not hold or an
/// earlier result already used, or that is measured without metrics or
/// samples: the message that names it.
pub open spec fn benchmark_result_problem(expected: Set<Seq<char>>, results: Seq<BenchmarkResultRecord>) -> Option<Seq<char>>
    decreases results.len(),
{
    if results.len() == 0 {
        None
    } else {
        let earlier = benchmark_result_problem(expected, results.drop_last());
        let last = results.last();
        let id = last.id@;
        if earlier is Some {
            earlier
        } else if !expected.contains(id) {
            Some("benchmark results contain an unexpected scenario id: "@ + id)
        } else if benchmark_result_ids(results.drop_last()).contains(id) {
            Some("benchmark results contain a duplicate scenario id: "@ + id)
        } else if last.outcome == BenchmarkOutcome::Measured && !last.has_metrics && last.sample_count == 0 {
            Some("benchmark measured scenario "@ + id + " must include metrics or samples"@)
        } else {
            None
        }
    }
}

/// How many benchmark results have this outcome.
pub open spec fn count_benchmark_outcome(results: Seq<BenchmarkResultRecord>, outcome: BenchmarkOutcome) -> nat
    decreases results.len(),
{
    if results.len() == 0 {
        0
    } else {
        count_benchmark_outcome(results.drop_last(), outcome) + if results.last().outcome == outcome { 1nat } else { 0nat }
    }
}

/// What is wrong with a benchmark result report against its plan, checked in
/// this order: the protocol version, the implementation name, each result,
/// and whether every selected scenario has a result; none if nothing is.
pub open spec fn benchmark_validation_problem(plan: BenchmarkExecutionPlan, report: BenchmarkResultOverview) -> Option<Seq<char>> {
    let expected = benchmark_plan_ids(plan.scenarios@).to_set();
    if plan.protocol_version@ != report.protocol_version@ {
        Some("benchmark protocol version mismatch: expected "@ + plan.protocol_version@ + ", got "@
            + report.protocol_version@)
    } else if plan.implementation_name@ != report.implementation_name@ {
        Some("benchmark implementation name mismatch: expected "@ + plan.implementation_name@ + ", got "@
            + report.implementation_name@)
    } else if benchmark_result_problem(expected, report.results@) is Some {
        benchmark_result_problem(expected, report.results@)
    } else if report.results@.len() != expected.len() {
        Some("benchmark results are missing "@ + decimal(missing_count(expected.len(), report.results@.len()))
            + " selected scenario(s)"@)
    } else {
        None
    }
}

proof fn lemma_strictly_sorted_no_duplicates(s: Seq<Seq<char>>)
    requires
        strictly_sorted(s),
    ensures
        s.no_duplicates(),
{
    assert forall|i: int, j: int| 0 <= i < s.len() && 0 <= j < s.len() && i != j implies s[i] != s[j] by {
        lemma_bytes_lt_irreflexive(text_key(s[i]));
    }
}

/// The distinct texts of a list, sorted; as many as the list has distinct
/// texts.
pub(crate) fn distinct_sorted(ids: &Vec<String>) -> (distinct: Vec<String>)
    ensures
        strictly_sorted(texts(distinct@)),
        texts(distinct@).to_set() == texts(ids@).to_set(),
        forall|t: Seq<char>| texts(distinct@).contains(t) <==> texts(ids@).contains(t),
        distinct@.len() == texts(ids@).to_set().len(),
{
    let mut distinct: Vec<String> = Vec::new();
    let mut i: usize = 0;
    while i < ids.len()
        invariant
            i <= ids@.len(),
            strictly_sorted(texts(distinct@)),
            forall|t: Seq<char>| texts(distinct@).contains(t) <==> texts(ids@.take(i as int)).contains(t),
        decreases ids@.len() - i,
    {
        let ghost before = texts(ids@.take(i as int));
        insert_sorted_text(&mut distinct, ids[i].clone());
        proof {
            let after = texts(ids@.take(i + 1));
            assert(after =~= before.push(ids@[i as int]@));
            assert forall|t: Seq<char>| after.contains(t) <==> (before.contains(t) || t == ids@[i as int]@) by {
                if after.contains(t) {
                    let k = choose|k: int| 0 <= k < after.len() && after[k] == t;
                    if k < i {
                        assert(before[k] == t);
                    }
                }
                if before.contains(t) {
                    let k = choose|k: int| 0 <= k < before.len() && before[k] == t;
                    assert(after[k] == t);
                }
                if t == ids@[i as int]@ {
                    assert(after[i as int] == t);
                }
            }
        }
        i = i + 1;
    }
    proof {
        assert(ids@.take(i as int) =~= ids@);
        assert(texts(distinct@).to_set() =~= texts(ids@).to_set());
        lemma_strictly_sorted_no_duplicates(texts(distinct@));
        texts(distinct@).unique_seq_to_set();
    }
    distinct
}

/// Builds the message of a name or version mismatch.
fn mismatch_message(prefix: &str, expected: &String, actual: &String) -> (message: String)
    ensures
        message@ == prefix@ + expected@ + ", got "@ + actual@,
{
    let mut message = String::new();
    push_text(&mut message, prefix);
    push_text(&mut message, expected.as_str());
    push_text(&mut message, ", got ");
    push_text(&mut message, actual.as_str());
    message
}

/// Builds the message that names a result.
fn id_message(prefix: &str, id: &String) -> (message: String)
    ensures
        message@ == prefix@ + id@,
{
    let mut message = String::new();
    push_text(&mut message, prefix);
    push_text(&mut message, id.as_str());
    message
}

/// Builds the message that names a result inside a sentence.
fn id_sentence(prefix: &str, id: &String, suffix: &str) -> (message: String)
    ensures
        message@ == prefix@ + id@ + suffix@,
{
    let mut message = String::new();
    push_text(&mut message, prefix);
    push_text(&mut message, id.as_str());
    push_text(&mut message, suffix);
    message
}

/// Builds the message that counts missing results.
fn missing_message(prefix: &str, count: usize, suffix: &str) -> (message: String)
    ensures
        message@ == prefix@ + decimal(count as nat) + suffix@,
{
    let mut message = String::new();
    push_text(&mut message, prefix);
    push_decimal(&mut message, count as u64);
    push_text(&mut message, suffix);
    message
}

/// Checks an adapter's result report against its plan: the same protocol
/// version and implementation, one result per selected case and nothing
/// else; counts the results by outcome.
pub fn validate_adapter_results(
    expected_plan: &AdapterExecutionPlan,
    actual_report: &AdapterCaseResultReport,
) -> (result: Result<AdapterValidationSummary, ResultsError>)
    ensures
        match result {
            Ok(summary) => {
                &&& adapter_validation_problem(*expected_plan, *actual_report) is None
                &&& summary.selected_cases == adapter_plan_ids(expected_plan.cases@).to_set().len()
                &&& summary.pass_cases == count_adapter_outcome(actual_report.results@, AdapterCaseOutcome::Pass)
                &&& summary.fail_cases == count_adapter_outcome(actual_report.results@, AdapterCaseOutcome::Fail)
                &&& summary.skipped_cases == count_adapter_outcome(actual_report.results@, AdapterCaseOutcome::Skip)
                &&& summary.error_cases == count_adapter_outcome(actual_report.results@, AdapterCaseOutcome::Error)
            },
            Err(e) => adapter_validation_problem(*expected_plan, *actual_report) == Some(e.message@),
        },
{
    if expected_plan.protocol_version != actual_report.protocol_version {
        let message = mismatch_message("adapter protocol version mismatch: expected ", &expected_plan.protocol_version,
            &actual_report.protocol_version);
        return Err(ResultsError { message });
    }
    if expected_plan.implementation_name != actual_report.implementation_name {
        let message = mismatch_message("adapter implementation name mismatch: expected ", &expected_plan.implementation_name,
            &actual_report.implementation_name);
        return Err(ResultsError { message });
    }
    let mut plan_ids: Vec<String> = Vec::new();
    let mut c: usize = 0;
    while c < expected_plan.cases.len()
        invariant
            c <= expected_plan.cases@.len(),
            texts(plan_ids@) == adapter_plan_ids(expected_plan.cases@.take(c as int)),
        decreases expected_plan.cases@.len() - c,
    {
        plan_ids.push(expected_plan.cases[c].id.clone());
        assert(adapter_plan_ids(expected_plan.cases@.take(c + 1)) =~= adapter_plan_ids(
            expected_plan.cases@.take(c as int),
        ).push(expected_plan.cases@[c as int].id@));
        c = c + 1;
    }
    assert(expected_plan.cases@.take(c as int) =~= expected_plan.cases@);
    let expected_ids = distinct_sorted(&plan_ids);
    let ghost expected = adapter_plan_ids(expected_plan.cases@).to_set();
    let ghost results = actual_report.results@;
    let mut actual_ids: Vec<String> = Vec::new();
    let mut pass_cases: usize = 0;
    let mut fail_cases: usize = 0;
    let mut skipped_cases: usize = 0;
    let mut error_cases: usize = 0;
    let mut i: usize = 0;
    while i < actual_report.results.len()
        invariant
            i <= results.len(),
            results == actual_report.results@,
            expected_plan.protocol_version@ == actual_report.protocol_version@,
            expected_plan.implementation_name@ == actual_report.implementation_name@,
            expected == adapter_plan_ids(expected_plan.cases@).to_set(),
            forall|t: Seq<char>| texts(expected_ids@).contains(t) <==> expected.contains(t),
            adapter_result_problem(expected, results.take(i as int)) is None,
            strictly_sorted(texts(actual_ids@)),
            forall|t: Seq<char>| texts(actual_ids@).contains(t) <==> adapter_result_ids(results.take(i as int)).contains(t),
            actual_ids@.len() == i,
            pass_cases == count_adapter_outcome(results.take(i as int), AdapterCaseOutcome::Pass),
            fail_cases == count_adapter_outcome(results.take(i as int), AdapterCaseOutcome::Fail),
            skipped_cases == count_adapter_outcome(results.take(i as int), AdapterCaseOutcome::Skip),
            error_cases == count_adapter_outcome(results.take(i as int), AdapterCaseOutcome::Error),
            pass_cases + fail_cases + skipped_cases + error_cases == i,
        decreases results.len() - i,
    {
        let entry: &AdapterCaseResult = &actual_report.results[i];
        let ghost prior = results.take(i as int);
        let ghost next = results.take(i + 1);
        proof {
            assert(next.drop_last() =~= prior);
            assert(next.last() == *entry);
            assert(adapter_result_ids(next) =~= adapter_result_ids(prior).push(entry.id@));
        }
        if !contains_text(&expected_ids, &entry.id) {
            let message = id_message("adapter results contain an unexpected case id: ", &entry.id);
            proof {
                        assert(adapter_result_problem(expected, next) == Some(message@));
                lemma_adapter_problem_prefix(expected, results, i + 1);
            }
            return Err(ResultsError { message });
        }
        if !insert_sorted_text(&mut actual_ids, entry.id.clone()) {
            let message = id_message("adapter results contain a duplicate case id: ", &entry.id);
            proof {
                        assert(adapter_result_problem(expected, next) == Some(message@));
                lemma_adapter_problem_prefix(expected, results, i + 1);
            }
            return Err(ResultsError { message });
        }
        match entry.outcome {
            AdapterCaseOutcome::Pass => pass_cases = pass_cases + 1,
            AdapterCaseOutcome::Fail => fail_cases = fail_cases + 1,
            AdapterCaseOutcome::Skip => skipped_cases = skipped_cases + 1,
            AdapterCaseOutcome::Error => error_cases = error_cases + 1,
        }
        proof {
            assert(adapter_result_problem(expected, next) is None);
            assert forall|t: Seq<char>| texts(actual_ids@).contains(t) <==> adapter_result_ids(next).contains(t) by {
                let ids = adapter_result_ids(next);
                if ids.contains(t) {
                    let k = choose|k: int| 0 <= k < ids.len() && ids[k] == t;
                    if k < i {
                        assert(adapter_result_ids(prior)[k] == t);
                    }
                }
                if adapter_result_ids(prior).contains(t) {
                    let k = choose|k: int| 0 <= k < prior.len() && adapter_result_ids(prior)[k] == t;
                    assert(ids[k] == t);
                }
                if t == entry.id@ {
                    assert(ids[i as int] == t);
                }
            }
        }
        i = i + 1;
    }
    assert(results.take(i as int) =~= results);
    if actual_ids.len() != expected_ids.len() {
        let missing = if expected_ids.len() >= actual_ids.len() {
            expected_ids.len() - actual_ids.len()
        } else {
            0
        };
        let message = missing_message("adapter results are missing ", missing, " selected case(s)");
        return Err(ResultsError { message });
    }
    Ok(AdapterValidationSummary {
        selected_cases: expected_ids.len(),
        pass_cases,
        fail_cases,
        skipped_cases,
        error_cases,
    })
}

proof fn lemma_adapter_problem_prefix(expected: Set<Seq<char>>, results: Seq<AdapterCaseResult>, n: int)
    requires
        0 <= n <= results.len(),
        adapter_result_problem(expected, results.take(n)) is Some,
    ensures
        adapter_result_problem(expected, results) == adapter_result_problem(expected, results.take(n)),
    decreases results.len() - n,
{
    if n < results.len() {
        let next = results.take(n + 1);
        assert(next.drop_last() =~= results.take(n));
        lemma_adapter_problem_prefix(expected, results, n + 1);
    } else {
        assert(results.take(n) =~= results);
    }
}

proof fn lemma_benchmark_problem_prefix(expected: Set<Seq<char>>, results: Seq<BenchmarkResultRecord>, n: int)
    requires
        0 <= n <= results.len(),
        benchmark_result_problem(expected, results.take(n)) is Some,
    ensures
        benchmark_result_problem(expected, results) == benchmark_result_problem(expected, results.take(n)),
    decreases results.len() - n,
{
    if n < results.len() {
        let next = results.take(n + 1);
        assert(next.drop_last() =~= results.take(n));
        lemma_benchmark_problem_prefix(expected, results, n + 1);
    } else {
        assert(results.take(n) =~= results);
    }
}

/// Checks a benchmark result report against its plan: the same protocol
/// version and implementation, one result per selected scenario and nothing
/// else, and metrics or samples for each measured one; counts the results
/// by outcome.
pub fn validate_benchmark_results(
    expected_plan: &BenchmarkExecutionPlan,
    actual_report: &BenchmarkResultOverview,
) -> (result: Result<BenchmarkValidationSummary, ResultsError>)
    ensures
        match result {
            Ok(summary) => {
                &&& benchmark_validation_problem(*expected_plan, *actual_report) is None
                &&& summary.selected_scenarios == benchmark_plan_ids(expected_plan.scenarios@).to_set().len()
                &&& summary.measured_scenarios == count_benchmark_outcome(actual_report.results@, BenchmarkOutcome::Measured)
                &&& summary.skipped_scenarios == count_benchmark_outcome(actual_report.results@, BenchmarkOutcome::Skip)
                &&& summary.error_scenarios == count_benchmark_outcome(actual_report.results@, BenchmarkOutcome::Error)
            },
            Err(e) => benchmark_validation_problem(*expected_plan, *actual_report) == Some(e.message@),
        },
{
    if expected_plan.protocol_version != actual_report.protocol_version {
        let message = mismatch_message("benchmark protocol version mismatch: expected ", &expected_plan.protocol_version,
            &actual_report.protocol_version);
        return Err(ResultsError { message });
    }
    if expected_plan.implementation_name != actual_report.implementation_name {
        let message = mismatch_message("benchmark implementation name mismatch: expected ", &expected_plan.implementation_name,
            &actual_report.implementation_name);
        return Err(ResultsError { message });
    }
    let mut plan_ids: Vec<String> = Vec::new();
    let mut c: usize = 0;
    while c < expected_plan.scenarios.len()
        invariant
            c <= expected_plan.scenarios@.len(),
            texts(plan_ids@) == benchmark_plan_ids(expected_plan.scenarios@.take(c as int)),
        decreases expected_plan.scenarios@.len() - c,
    {
        plan_ids.push(expected_plan.scenarios[c].id.clone());
        assert(benchmark_plan_ids(expected_plan.scenarios@.take(c + 1)) =~= benchmark_plan_ids(
            expected_plan.scenarios@.take(c as int),
        ).push(expected_plan.scenarios@[c as int].id@));
        c = c + 1;
    }
    assert(expected_plan.scenarios@.take(c as int) =~= expected_plan.scenarios@);
    let expected_ids = distinct_sorted(&plan_ids);
    let ghost expected = benchmark_plan_ids(expected_plan.scenarios@).to_set();
    let ghost results = actual_report.results@;
    let mut actual_ids: Vec<String> = Vec::new();
    let mut measured_scenarios: usize = 0;
    let mut skipped_scenarios: usize = 0;
    let mut error_scenarios: usize = 0;
    let mut i: usize = 0;
    while i < actual_report.results.len()
        invariant
            i <= results.len(),
            results == actual_report.results@,
            expected_plan.protocol_version@ == actual_report.protocol_version@,
            expected_plan.implementation_name@ == actual_report.implementation_name@,
            expected == benchmark_plan_ids(expected_plan.scenarios@).to_set(),
            forall|t: Seq<char>| texts(expected_ids@).contains(t) <==> expected.contains(t),
            benchmark_result_problem(expected, results.take(i as int)) is None,
            strictly_sorted(texts(actual_ids@)),
            forall|t: Seq<char>| texts(actual_ids@).contains(t) <==> benchmark_result_ids(results.take(i as int)).contains(t),
            actual_ids@.len() == i,
            measured_scenarios == count_benchmark_outcome(results.take(i as int), BenchmarkOutcome::Measured),
            skipped_scenarios == count_benchmark_outcome(results.take(i as int), BenchmarkOutcome::Skip),
            error_scenarios == count_benchmark_outcome(results.take(i as int), BenchmarkOutcome::Error),
            measured_scenarios + skipped_scenarios + error_scenarios == i,
        decreases results.len() - i,
    {
        let entry: &BenchmarkResultRecord = &actual_report.results[i];
        let ghost prior = results.take(i as int);
        let ghost next = results.take(i + 1);
        proof {
            assert(next.drop_last() =~= prior);
            assert(next.last() == *entry);
            assert(benchmark_result_ids(next) =~= benchmark_result_ids(prior).push(entry.id@));
        }
        if !contains_text(&expected_ids, &entry.id) {
            let message = id_message("benchmark results contain an unexpected scenario id: ", &entry.id);
            proof {
                        assert(benchmark_result_problem(expected, next) == Some(message@));
                lemma_benchmark_problem_prefix(expected, results, i + 1);
            }
            return Err(ResultsError { message });
        }
        if !insert_sorted_text(&mut actual_ids, entry.id.clone()) {
            let message = id_message("benchmark results contain a duplicate scenario id: ", &entry.id);
            proof {
                        assert(benchmark_result_problem(expected, next) == Some(message@));
                lemma_benchmark_problem_prefix(expected, results, i + 1);
            }
            return Err(ResultsError { message });
        }
        match entry.outcome {
            BenchmarkOutcome::Measured => {
                if !entry.has_metrics && entry.sample_count == 0 {
                    let message = id_sentence("benchmark measured scenario ", &entry.id, " must include metrics or samples");
                    proof {
                        assert(benchmark_result_problem(expected, next) == Some(message@));
                        lemma_benchmark_problem_prefix(expected, results, i + 1);
                    }
                    return Err(ResultsError { message });
                }
                measured_scenarios = measured_scenarios + 1;
            },
            BenchmarkOutcome::Skip => skipped_scenarios = skipped_scenarios + 1,
            BenchmarkOutcome::Error => error_scenarios = error_scenarios + 1,
        }
        proof {
            assert(benchmark_result_problem(expected, next) is None);
            assert forall|t: Seq<char>| texts(actual_ids@).contains(t) <==> benchmark_result_ids(next).contains(t) by {
                let ids = benchmark_result_ids(next);
                if ids.contains(t) {
                    let k = choose|k: int| 0 <= k < ids.len() && ids[k] == t;
                    if k < i {
                        assert(benchmark_result_ids(prior)[k] == t);
                    }
                }
                if benchmark_result_ids(prior).contains(t) {
                    let k = choose|k: int| 0 <= k < prior.len() && benchmark_result_ids(prior)[k] == t;
                    assert(ids[k] == t);
                }
                if t == entry.id@ {
                    assert(ids[i as int] == t);
                }
            }
        }
        i = i + 1;
    }
    assert(results.take(i as int) =~= results);
    if actual_ids.len() != expected_ids.len() {
        let missing = if expected_ids.len() >= actual_ids.len() {
            expected_ids.len() - actual_ids.len()
        } else {
            0
        };
        let message = missing_message("benchmark results are missing ", missing, " selected scenario(s)");
        return Err(ResultsError { message });
    }
    Ok(BenchmarkValidationSummary {
        selected_scenarios: expected_ids.len(),
        measured_scenarios,
        skipped_scenarios,
        error_scenarios,
    })
}

} // verus!
