use vstd::prelude::*;

use crate::api_profile::{event_count, events_check, first_event_from, event_fields_problem, fields_problem, api_case_of, api_plan_ids, api_plan_of, api_result_ids, api_results_problem, api_validation_problem, count_api_outcome, recipe_requires, recipe_selected, selected_recipes};
use crate::benchmarks::{benchmark_catalog_len, benchmark_entry, benchmark_requirements, claims_texts, retained_benchmarks};
use crate::capability_checks::claimable_case_requires;
use crate::execution::{adapter_case_of, first_alignment_mismatch, manifests_cases, plans_adapter_cases, selected_cases};
use crate::fixtures::{alignment_mismatch, AdapterArtifactContext, AdapterCaseResultReport, AdapterExecutionPlan, BenchmarkScenario, CapabilityManifest, CaseDefinition, CaseManifest, CaseStatus, ConformanceReport, ProtocolManifest, WireConformanceCaseResultReport, WireConformanceExecutionPlan, WireConformanceScenario, WireConformanceTargetManifest};
use crate::plan::{case_selection, claims_all, count_selection, declared_of, entry_matches, has_feature, matrix_features, plans_cases, report_case_matches, CaseSelection};
use crate::results::{benchmark_plan_ids, benchmark_result_ids, benchmark_result_problem, benchmark_validation_problem, BenchmarkResultOverview, BenchmarkResultRecord, adapter_plan_ids, adapter_result_ids, adapter_result_problem, adapter_validation_problem, count_adapter_outcome};
use crate::fixtures::{AdapterCaseOutcome, BenchmarkOutcome, ApiProfileCapabilityManifest, ApiProfileCaseOutcome, ApiProfileCaseResult, ApiProfileCaseResultReport, ApiProfileExecutionPlan, ApiProfileRecipe};
use crate::host_evidence::{bound_for, listener_for, readiness_problem, ready_report_of, route_of_transport, unready_route};
use crate::json_model::{json_same, member_value, substituted, JsonValue};
use crate::profile_checks::endpoint_problem;
use crate::reference_target::{reference_endpoint, reference_tls};
use crate::text::has_prefix;
use crate::profile_checks::declares_api_capability;
use crate::sorted_text::{lemma_bytes_lt_irreflexive, lemma_text_total, strictly_sorted, text_key, texts};
use crate::vector_compare::{vector_differs, vector_index};
use crate::vector_manifest::{golden_vector_of, vector_manifest_for, SemanticVectorManifest, VectorManifest};
use crate::host_route::{route_provider_ids, route_transports};
use crate::wire_plan::{fixture_routes_problem, provider_for, scenario_claimed, claimed_scenarios, claimed_scenarios_problem, claimed_scenario_problem, host_route_fixture_problem, provider_declarations_problem, provider_ids, provider_transports, wire_plan_problem};
use crate::wire_results::{wire_plan_ids, wire_result_ids, wire_results_problem, wire_validation_problem};

verus! {

proof fn lemma_selection_counts_sum(cases: Seq<CaseDefinition>, declared: Seq<String>)
    ensures
        count_selection(cases, declared, None, CaseSelection::Selected) + count_selection(
            cases,
            declared,
            None,
            CaseSelection::NotClaimed,
        ) + count_selection(cases, declared, None, CaseSelection::Informational) == cases.len(),
    decreases cases.len(),
{
    if cases.len() > 0 {
        lemma_selection_counts_sum(cases.drop_last(), declared);
    }
}

/// Every case of a plan report is counted once: the selected, not-claimed
/// and informational totals add up to the number of cases.
pub proof fn law_plan_totals_cover_every_case(
    report: ConformanceReport,
    protocol_manifest: ProtocolManifest,
    cases: Seq<CaseDefinition>,
    capability_manifest: Option<&CapabilityManifest>,
)
    requires
        plans_cases(report, protocol_manifest, cases, capability_manifest),
    ensures
        report.summary.selected_cases + report.summary.not_claimed_cases + report.summary.informational_cases
            == report.cases@.len(),
{
    lemma_selection_counts_sum(cases, declared_of(capability_manifest));
}

proof fn lemma_selected_cases_are_selected(cases: Seq<CaseDefinition>, declared: Seq<String>)
    ensures
        forall|i: int| 0 <= i < selected_cases(cases, declared).len() ==> case_selection(
            #[trigger] selected_cases(cases, declared)[i],
            declared,
        ) == CaseSelection::Selected,
        selected_cases(cases, declared).len() == count_selection(cases, declared, None, CaseSelection::Selected),
        forall|k: int| 0 <= k < cases.len() && case_selection(#[trigger] cases[k], declared) == CaseSelection::Selected
            ==> exists|i: int| 0 <= i < selected_cases(cases, declared).len() && selected_cases(cases, declared)[i] == cases[k],
    decreases cases.len(),
{
    if cases.len() > 0 {
        let rest = cases.drop_last();
        lemma_selected_cases_are_selected(rest, declared);
        let s = selected_cases(cases, declared);
        let r = selected_cases(rest, declared);
        assert forall|k: int| 0 <= k < cases.len() && case_selection(#[trigger] cases[k], declared) == CaseSelection::Selected
            implies exists|i: int| 0 <= i < s.len() && s[i] == cases[k] by {
            if k < cases.len() - 1 {
                assert(rest[k] == cases[k]);
                let i = choose|i: int| 0 <= i < r.len() && r[i] == rest[k];
                assert(s[i] == r[i]);
            } else {
                assert(s[s.len() - 1] == cases.last());
            }
        }
    }
}

/// Only claimed capabilities are promoted into the runnable set: every case
/// of an adapter plan is mandatory or optional and requires nothing the
/// capability manifest leaves out, and every such case of the manifests is
/// in the plan.
pub proof fn law_adapter_plan_runs_exactly_the_claimed_cases(
    plan: AdapterExecutionPlan,
    protocol_manifest: ProtocolManifest,
    cases: Seq<CaseDefinition>,
    capability_manifest: CapabilityManifest,
    artifacts: AdapterArtifactContext,
)
    requires
        plans_adapter_cases(plan, protocol_manifest, cases, capability_manifest, artifacts),
    ensures
        forall|i: int| 0 <= i < plan.cases@.len() ==> {
            let c = #[trigger] plan.cases@[i];
            &&& (c.status == CaseStatus::Mandatory || c.status == CaseStatus::Optional)
            &&& forall|m: int| 0 <= m < c.required_capabilities@.len() ==> texts(capability_manifest.supports@).contains(
                #[trigger] c.required_capabilities@[m]@,
            )
        },
        forall|k: int| 0 <= k < cases.len() && ((#[trigger] cases[k]).status == CaseStatus::Mandatory || cases[k].status
            == CaseStatus::Optional) && claims_all(cases[k].required_capabilities@, capability_manifest.supports@)
            ==> exists|i: int| 0 <= i < plan.cases@.len() && plan.cases@[i].id@ == cases[k].id@,
{
    let declared = capability_manifest.supports@;
    let chosen = selected_cases(cases, declared);
    lemma_selected_cases_are_selected(cases, declared);
    assert forall|i: int| 0 <= i < plan.cases@.len() implies {
        let c = #[trigger] plan.cases@[i];
        &&& (c.status == CaseStatus::Mandatory || c.status == CaseStatus::Optional)
        &&& forall|m: int| 0 <= m < c.required_capabilities@.len() ==> texts(capability_manifest.supports@).contains(
            #[trigger] c.required_capabilities@[m]@,
        )
    } by {
        let c = plan.cases@[i];
        let d = chosen[i];
        assert(adapter_case_of(c, d));
        assert(case_selection(d, declared) == CaseSelection::Selected);
        assert forall|m: int| 0 <= m < c.required_capabilities@.len() implies texts(capability_manifest.supports@).contains(
            #[trigger] c.required_capabilities@[m]@,
        ) by {
            assert(texts(c.required_capabilities@).len() == texts(d.required_capabilities@).len());
            assert(texts(c.required_capabilities@)[m] == texts(d.required_capabilities@)[m]);
            assert(claims_all(d.required_capabilities@, declared));
            assert(texts(declared).contains(d.required_capabilities@[m]@));
        }
    }
    assert forall|k: int| 0 <= k < cases.len() && ((#[trigger] cases[k]).status == CaseStatus::Mandatory || cases[k].status
        == CaseStatus::Optional) && claims_all(cases[k].required_capabilities@, capability_manifest.supports@)
        implies exists|i: int| 0 <= i < plan.cases@.len() && plan.cases@[i].id@ == cases[k].id@ by {
        assert(case_selection(cases[k], declared) == CaseSelection::Selected);
        let i = choose|i: int| 0 <= i < chosen.len() && chosen[i] == cases[k];
        assert(adapter_case_of(plan.cases@[i], chosen[i]));
    }
}

/// An adapter plan and the plan report of the same cases and capability
/// manifest agree: the adapter plan holds as many cases as the report
/// counts selected.
pub proof fn law_adapter_plan_matches_report(
    plan: AdapterExecutionPlan,
    report: ConformanceReport,
    protocol_manifest: ProtocolManifest,
    cases: Seq<CaseDefinition>,
    capability_manifest: CapabilityManifest,
    artifacts: AdapterArtifactContext,
)
    requires
        plans_adapter_cases(plan, protocol_manifest, cases, capability_manifest, artifacts),
        plans_cases(report, protocol_manifest, cases, Some(&capability_manifest)),
    ensures
        plan.cases@.len() == report.summary.selected_cases,
{
    lemma_selected_cases_are_selected(cases, capability_manifest.supports@);
}

proof fn lemma_no_not_claimed(cases: Seq<CaseDefinition>, declared: Seq<String>)
    requires
        forall|t: Seq<char>| claimable_case_requires(cases, t) ==> texts(declared).contains(t),
    ensures
        count_selection(cases, declared, None, CaseSelection::NotClaimed) == 0,
    decreases cases.len(),
{
    if cases.len() > 0 {
        let rest = cases.drop_last();
        assert forall|t: Seq<char>| claimable_case_requires(rest, t) implies texts(declared).contains(t) by {
            let (k, m) = choose|k: int, m: int|
                0 <= k < rest.len() && ((#[trigger] rest[k]).status == CaseStatus::Mandatory || rest[k].status
                    == CaseStatus::Optional) && 0 <= m < rest[k].required_capabilities@.len()
                    && (#[trigger] rest[k].required_capabilities@[m])@ == t;
            assert(cases[k] == rest[k]);
            assert(claimable_case_requires(cases, t));
        }
        lemma_no_not_claimed(rest, declared);
        let last = cases.last();
        if last.status == CaseStatus::Mandatory || last.status == CaseStatus::Optional {
            assert forall|m: int| 0 <= m < last.required_capabilities@.len() implies texts(declared).contains(
                #[trigger] last.required_capabilities@[m]@,
            ) by {
                assert(cases[cases.len() - 1] == last);
                assert(claimable_case_requires(cases, last.required_capabilities@[m]@));
            }
        }
    }
}

/// A capability manifest that covers the complete case scope leaves no case
/// unclaimed: its plan report has no not-claimed case.
pub proof fn law_complete_coverage_claims_every_case(
    report: ConformanceReport,
    protocol_manifest: ProtocolManifest,
    cases: Seq<CaseDefinition>,
    capability_manifest: CapabilityManifest,
)
    requires
        forall|t: Seq<char>| claimable_case_requires(cases, t) ==> texts(capability_manifest.supports@).contains(t),
        plans_cases(report, protocol_manifest, cases, Some(&capability_manifest)),
    ensures
        report.summary.not_claimed_cases == 0,
{
    lemma_no_not_claimed(cases, capability_manifest.supports@);
}

/// A plan is only built from aligned manifests: without a mismatch the case
/// manifest, and the capability manifest where one is given, declare the
/// baseline's protocol version, whether or not a path is given.
pub proof fn law_plans_need_aligned_versions(
    protocol_manifest: ProtocolManifest,
    case_manifest: CaseManifest,
    capability_manifest: Option<&CapabilityManifest>,
    case_manifest_path: Seq<char>,
    capability_manifest_path: Option<Seq<char>>,
)
    requires
        alignment_mismatch(protocol_manifest, case_manifest, capability_manifest, case_manifest_path,
            capability_manifest_path) is None,
    ensures
        case_manifest.protocol_version@ == protocol_manifest.protocol_version@,
        match capability_manifest {
            Some(m) => m.protocol_version@ == protocol_manifest.protocol_version@,
            None => true,
        },
{
}

proof fn lemma_adapter_ids_distinct(expected: Set<Seq<char>>, results: Seq<crate::fixtures::AdapterCaseResult>)
    requires
        adapter_result_problem(expected, results) is None,
    ensures
        adapter_result_ids(results).no_duplicates(),
        forall|i: int| 0 <= i < results.len() ==> expected.contains(#[trigger] adapter_result_ids(results)[i]),
    decreases results.len(),
{
    if results.len() > 0 {
        let rest = results.drop_last();
        lemma_adapter_ids_distinct(expected, rest);
        let ids = adapter_result_ids(results);
        let prior = adapter_result_ids(rest);
        assert(ids =~= prior.push(results.last().id@));
        assert forall|a: int, b: int| 0 <= a < ids.len() && 0 <= b < ids.len() && a != b implies ids[a] != ids[b] by {
            if a == ids.len() - 1 {
                assert(!prior.contains(ids[a]));
                assert(prior[b] == ids[b]);
            } else if b == ids.len() - 1 {
                assert(!prior.contains(ids[b]));
                assert(prior[a] == ids[a]);
            } else {
                assert(prior[a] == ids[a] && prior[b] == ids[b]);
            }
        }
        assert forall|i: int| 0 <= i < results.len() implies expected.contains(#[trigger] adapter_result_ids(results)[i]) by {
            if i < results.len() - 1 {
                assert(ids[i] == prior[i]);
            }
        }
    }
}

proof fn lemma_adapter_outcomes_sum(results: Seq<crate::fixtures::AdapterCaseResult>)
    ensures
        count_adapter_outcome(results, AdapterCaseOutcome::Pass) + count_adapter_outcome(results, AdapterCaseOutcome::Fail)
            + count_adapter_outcome(results, AdapterCaseOutcome::Skip) + count_adapter_outcome(
            results,
            AdapterCaseOutcome::Error,
        ) == results.len(),
    decreases results.len(),
{
    if results.len() > 0 {
        lemma_adapter_outcomes_sum(results.drop_last());
    }
}

/// An accepted adapter report answers its plan exactly: one result per
/// selected case, no other and none twice, so the outcome counts add up to
/// the number of selected cases.
pub proof fn law_accepted_adapter_results_answer_the_plan(plan: AdapterExecutionPlan, report: AdapterCaseResultReport)
    requires
        adapter_validation_problem(plan, report) is None,
    ensures
        adapter_result_ids(report.results@).to_set() == adapter_plan_ids(plan.cases@).to_set(),
        adapter_result_ids(report.results@).no_duplicates(),
        count_adapter_outcome(report.results@, AdapterCaseOutcome::Pass) + count_adapter_outcome(
            report.results@,
            AdapterCaseOutcome::Fail,
        ) + count_adapter_outcome(report.results@, AdapterCaseOutcome::Skip) + count_adapter_outcome(
            report.results@,
            AdapterCaseOutcome::Error,
        ) == adapter_plan_ids(plan.cases@).to_set().len(),
{
    let expected = adapter_plan_ids(plan.cases@).to_set();
    let ids = adapter_result_ids(report.results@);
    lemma_adapter_ids_distinct(expected, report.results@);
    lemma_adapter_outcomes_sum(report.results@);
    ids.unique_seq_to_set();
    assert(ids.to_set().subset_of(expected)) by {
        assert forall|x| ids.to_set().contains(x) implies expected.contains(x) by {
            let i = choose|i: int| 0 <= i < ids.len() && ids[i] == x;
        }
    }
    adapter_plan_ids(plan.cases@).lemma_cardinality_of_set();
    vstd::set_lib::lemma_subset_equality(ids.to_set(), expected);
}

proof fn lemma_wire_ids_distinct(plan: WireConformanceExecutionPlan, results: Seq<crate::fixtures::WireConformanceCaseResult>)
    requires
        wire_results_problem(plan, results) is None,
    ensures
        wire_result_ids(results).no_duplicates(),
        forall|i: int| 0 <= i < results.len() ==> wire_plan_ids(plan.scenarios@).to_set().contains(
            #[trigger] wire_result_ids(results)[i],
        ),
    decreases results.len(),
{
    if results.len() > 0 {
        let rest = results.drop_last();
        lemma_wire_ids_distinct(plan, rest);
        let ids = wire_result_ids(results);
        let prior = wire_result_ids(rest);
        assert(ids =~= prior.push(results.last().id@));
        assert forall|a: int, b: int| 0 <= a < ids.len() && 0 <= b < ids.len() && a != b implies ids[a] != ids[b] by {
            if a == ids.len() - 1 {
                assert(prior[b] == ids[b]);
            } else if b == ids.len() - 1 {
                assert(prior[a] == ids[a]);
            } else {
                assert(prior[a] == ids[a] && prior[b] == ids[b]);
            }
        }
        lemma_scenario_by_id_in_plan(plan.scenarios@, results.last().id@);
        assert forall|i: int| 0 <= i < results.len() implies wire_plan_ids(plan.scenarios@).to_set().contains(
            #[trigger] wire_result_ids(results)[i],
        ) by {
            if i < results.len() - 1 {
                assert(ids[i] == prior[i]);
            }
        }
    }
}

proof fn lemma_scenario_by_id_in_plan(scenarios: Seq<WireConformanceScenario>, id: Seq<char>)
    ensures
        crate::wire_results::scenario_by_id(scenarios, id) is Some ==> wire_plan_ids(scenarios).contains(id),
    decreases scenarios.len(),
{
    if scenarios.len() > 0 {
        lemma_scenario_by_id_in_plan(scenarios.drop_last(), id);
        let ids = wire_plan_ids(scenarios);
        if scenarios.last().id@ == id {
            assert(ids[scenarios.len() - 1] == id);
        } else if crate::wire_results::scenario_by_id(scenarios, id) is Some {
            let prior = wire_plan_ids(scenarios.drop_last());
            let k = choose|k: int| 0 <= k < prior.len() && prior[k] == id;
            assert(ids[k] == id);
        }
    }
}

/// An accepted wire report keeps the scenario ids of its plan exactly: each
/// selected scenario has one result, and no other result is there.
pub proof fn law_accepted_wire_results_keep_plan_ids(plan: WireConformanceExecutionPlan, report: WireConformanceCaseResultReport)
    requires
        wire_validation_problem(plan, report) is None,
    ensures
        wire_result_ids(report.results@).to_set() == wire_plan_ids(plan.scenarios@).to_set(),
        wire_result_ids(report.results@).no_duplicates(),
{
    let expected = wire_plan_ids(plan.scenarios@).to_set();
    let ids = wire_result_ids(report.results@);
    lemma_wire_ids_distinct(plan, report.results@);
    ids.unique_seq_to_set();
    assert(ids.to_set().subset_of(expected)) by {
        assert forall|x| ids.to_set().contains(x) implies expected.contains(x) by {
            let i = choose|i: int| 0 <= i < ids.len() && ids[i] == x;
        }
    }
    wire_plan_ids(plan.scenarios@).lemma_cardinality_of_set();
    vstd::set_lib::lemma_subset_equality(ids.to_set(), expected);
}

proof fn lemma_providers_distinct(providers: Seq<crate::fixtures::WireHostRouteProviderCapability>)
    requires
        provider_declarations_problem(providers) is None,
    ensures
        provider_transports(providers).no_duplicates(),
        provider_ids(providers).no_duplicates(),
    decreases providers.len(),
{
    if providers.len() > 0 {
        let rest = providers.drop_last();
        lemma_providers_distinct(rest);
        let ts = provider_transports(providers);
        let pt = provider_transports(rest);
        let is = provider_ids(providers);
        let pi = provider_ids(rest);
        assert(ts =~= pt.push(providers.last().transport));
        assert(is =~= pi.push(providers.last().provider_id@));
        assert forall|a: int, b: int| 0 <= a < ts.len() && 0 <= b < ts.len() && a != b implies ts[a] != ts[b] by {
            if a == ts.len() - 1 {
                assert(pt[b] == ts[b]);
            } else if b == ts.len() - 1 {
                assert(pt[a] == ts[a]);
            } else {
                assert(pt[a] == ts[a] && pt[b] == ts[b]);
            }
        }
        assert forall|a: int, b: int| 0 <= a < is.len() && 0 <= b < is.len() && a != b implies is[a] != is[b] by {
            if a == is.len() - 1 {
                assert(pi[b] == is[b]);
            } else if b == is.len() - 1 {
                assert(pi[a] == is[a]);
            } else {
                assert(pi[a] == is[a] && pi[b] == is[b]);
            }
        }
    }
}

proof fn lemma_claimed_scenarios_checked(target: WireConformanceTargetManifest, claimed: Seq<WireConformanceScenario>)
    requires
        claimed_scenarios_problem(target, claimed) is None,
    ensures
        forall|i: int| 0 <= i < claimed.len() ==> claimed_scenario_problem(target, #[trigger] claimed[i]) is None,
    decreases claimed.len(),
{
    if claimed.len() > 0 {
        lemma_claimed_scenarios_checked(target, claimed.drop_last());
        assert forall|i: int| 0 <= i < claimed.len() implies claimed_scenario_problem(target, #[trigger] claimed[i]) is None by {
            if i < claimed.len() - 1 {
                assert(claimed.drop_last()[i] == claimed[i]);
            }
        }
    }
}

/// A wire target that yields a plan uses at most one host-route provider per
/// transport and never repeats a provider id, and every scenario in the plan
/// passed the shape check and, for host routes, the fixture check.
pub proof fn law_wire_plans_have_distinct_providers(
    target: WireConformanceTargetManifest,
    scenarios: Seq<WireConformanceScenario>,
)
    requires
        wire_plan_problem(target, scenarios) is None,
    ensures
        provider_transports(target.wire_conformance.host_route_providers@).no_duplicates(),
        provider_ids(target.wire_conformance.host_route_providers@).no_duplicates(),
        forall|i: int| 0 <= i < claimed_scenarios(target, scenarios).len() ==> {
            let s = #[trigger] claimed_scenarios(target, scenarios)[i];
            &&& crate::wire_plan::scenario_shape_problem(s) is None
            &&& (s.host_route is Some ==> host_route_fixture_problem(s, target) is None)
        },
{
    lemma_providers_distinct(target.wire_conformance.host_route_providers@);
    lemma_claimed_scenarios_checked(target, claimed_scenarios(target, scenarios));
}

proof fn lemma_claimed_scenarios(target: WireConformanceTargetManifest, scenarios: Seq<WireConformanceScenario>)
    ensures
        forall|i: int| 0 <= i < claimed_scenarios(target, scenarios).len() ==> scenario_claimed(
            target,
            #[trigger] claimed_scenarios(target, scenarios)[i],
        ),
        forall|k: int| 0 <= k < scenarios.len() && scenario_claimed(target, #[trigger] scenarios[k]) ==> exists|i: int|
            0 <= i < claimed_scenarios(target, scenarios).len() && claimed_scenarios(target, scenarios)[i] == scenarios[k],
    decreases scenarios.len(),
{
    if scenarios.len() > 0 {
        let rest = scenarios.drop_last();
        lemma_claimed_scenarios(target, rest);
        let s = claimed_scenarios(target, scenarios);
        let r = claimed_scenarios(target, rest);
        assert forall|k: int| 0 <= k < scenarios.len() && scenario_claimed(target, #[trigger] scenarios[k]) implies exists|i: int|
            0 <= i < s.len() && s[i] == scenarios[k] by {
            if k < scenarios.len() - 1 {
                assert(rest[k] == scenarios[k]);
                let i = choose|i: int| 0 <= i < r.len() && r[i] == rest[k];
                assert(s[i] == r[i]);
            } else {
                assert(s[s.len() - 1] == scenarios.last());
            }
        }
    }
}

/// A wire plan runs exactly the scenarios its target claims: every planned
/// scenario has a declared mode, a declared transport, only declared
/// host-route providers and only declared capabilities, and every scenario
/// the target claims is planned.
pub proof fn law_wire_plan_runs_exactly_the_claimed_scenarios(
    target: WireConformanceTargetManifest,
    scenarios: Seq<WireConformanceScenario>,
)
    ensures
        forall|i: int| 0 <= i < claimed_scenarios(target, scenarios).len() ==> {
            let s = #[trigger] claimed_scenarios(target, scenarios)[i];
            &&& target.wire_conformance.modes@.contains(s.mode)
            &&& claims_all(s.required_capabilities@, target.wire_conformance.capabilities@)
            &&& scenario_claimed(target, s)
        },
        forall|k: int| 0 <= k < scenarios.len() && scenario_claimed(target, #[trigger] scenarios[k]) ==> exists|i: int|
            0 <= i < claimed_scenarios(target, scenarios).len() && claimed_scenarios(target, scenarios)[i] == scenarios[k],
{
    lemma_claimed_scenarios(target, scenarios);
}

proof fn lemma_fixture_routes_distinct(
    scenario_id: Seq<char>,
    fixture: crate::fixtures::WireHostRouteFixture,
    reasons: Seq<crate::fixtures::WireHostRouteRejectionReason>,
    providers: Seq<crate::fixtures::WireHostRouteProviderCapability>,
    routes: Seq<crate::fixtures::WireHostProviderRoute>,
)
    requires
        fixture_routes_problem(scenario_id, fixture, reasons, providers, routes) is None,
    ensures
        route_transports(routes).no_duplicates(),
        route_provider_ids(routes).no_duplicates(),
        forall|i: int| 0 <= i < routes.len() ==> (#[trigger] routes[i]).provider_id@.len() > 0 && provider_for(
            providers,
            routes[i].transport,
            routes[i].provider_id@,
        ) is Some,
    decreases routes.len(),
{
    if routes.len() > 0 {
        let rest = routes.drop_last();
        lemma_fixture_routes_distinct(scenario_id, fixture, reasons, providers, rest);
        let ts = route_transports(routes);
        let pt = route_transports(rest);
        let is = route_provider_ids(routes);
        let pi = route_provider_ids(rest);
        assert(ts =~= pt.push(routes.last().transport));
        assert(is =~= pi.push(routes.last().provider_id@));
        assert forall|a: int, b: int| 0 <= a < ts.len() && 0 <= b < ts.len() && a != b implies ts[a] != ts[b] by {
            if a == ts.len() - 1 {
                assert(pt[b] == ts[b]);
            } else if b == ts.len() - 1 {
                assert(pt[a] == ts[a]);
            } else {
                assert(pt[a] == ts[a] && pt[b] == ts[b]);
            }
        }
        assert forall|a: int, b: int| 0 <= a < is.len() && 0 <= b < is.len() && a != b implies is[a] != is[b] by {
            if a == is.len() - 1 {
                assert(pi[b] == is[b]);
            } else if b == is.len() - 1 {
                assert(pi[a] == is[a]);
            } else {
                assert(pi[a] == is[a] && pi[b] == is[b]);
            }
        }
        assert forall|i: int| 0 <= i < routes.len() implies (#[trigger] routes[i]).provider_id@.len() > 0 && provider_for(
            providers,
            routes[i].transport,
            routes[i].provider_id@,
        ) is Some by {
            if i < routes.len() - 1 {
                assert(rest[i] == routes[i]);
            }
        }
    }
}

/// A host-route fixture the wire plan accepts routes each transport at most
/// once and each provider id at most once, declares at least one route, and
/// every route names a provider the target declares for its transport.
pub proof fn law_accepted_fixtures_route_each_transport_once(
    scenario: WireConformanceScenario,
    target: WireConformanceTargetManifest,
)
    requires
        scenario.host_route is Some,
        host_route_fixture_problem(scenario, target) is None,
    ensures
        ({
            let routes = scenario.host_route->0.routes@;
            &&& routes.len() > 0
            &&& route_transports(routes).no_duplicates()
            &&& route_provider_ids(routes).no_duplicates()
            &&& forall|i: int| 0 <= i < routes.len() ==> provider_for(
                target.wire_conformance.host_route_providers@,
                (#[trigger] routes[i]).transport,
                routes[i].provider_id@,
            ) is Some
        }),
{
    let fixture = scenario.host_route->0;
    let expected = scenario.expect.route->0;
    lemma_fixture_routes_distinct(
        scenario.id@,
        fixture,
        expected.rejection_reasons@,
        target.wire_conformance.host_route_providers@,
        fixture.routes@,
    );
}

proof fn lemma_retained_positions(declared: Seq<String>, n: int)
    ensures
        forall|i: int| 0 <= i < retained_benchmarks(declared, n).len() ==> {
            let k = #[trigger] retained_benchmarks(declared, n)[i];
            0 <= k < n && claims_texts(benchmark_requirements(k), declared)
        },
    decreases n,
{
    if n > 0 {
        lemma_retained_positions(declared, n - 1);
        let prior = retained_benchmarks(declared, n - 1);
        let kept = retained_benchmarks(declared, n);
        assert forall|i: int| 0 <= i < kept.len() implies {
            let k = #[trigger] kept[i];
            0 <= k < n && claims_texts(benchmark_requirements(k), declared)
        } by {
            if i < prior.len() {
                assert(kept[i] == prior[i]);
            }
        }
    }
}

/// Only claimed capabilities promote a benchmark: every scenario a plan
/// keeps requires nothing the capability manifest leaves out.
pub proof fn law_benchmark_scenarios_are_claimed(scenarios: Seq<BenchmarkScenario>, declared: Seq<String>)
    requires
        ({
            let kept = retained_benchmarks(declared, benchmark_catalog_len());
            &&& scenarios.len() == kept.len()
            &&& forall|i: int| 0 <= i < kept.len() ==> benchmark_entry(#[trigger] scenarios[i], kept[i])
        }),
    ensures
        forall|i: int, m: int| 0 <= i < scenarios.len() && 0 <= m < scenarios[i].required_capabilities@.len()
            ==> texts(declared).contains(#[trigger] scenarios[i].required_capabilities@[m]@),
{
    let kept = retained_benchmarks(declared, benchmark_catalog_len());
    lemma_retained_positions(declared, benchmark_catalog_len());
    assert forall|i: int, m: int| 0 <= i < scenarios.len() && 0 <= m < scenarios[i].required_capabilities@.len()
        implies texts(declared).contains(#[trigger] scenarios[i].required_capabilities@[m]@) by {
        assert(benchmark_entry(scenarios[i], kept[i]));
        assert(texts(scenarios[i].required_capabilities@)[m] == scenarios[i].required_capabilities@[m]@);
        assert(benchmark_requirements(kept[i])[m] == scenarios[i].required_capabilities@[m]@);
    }
}

/// The canonical vector manifest of a recipe manifest holds one vector per
/// recipe, in recipe order, named and described by its recipe, whose
/// hexadecimal text and length are those of the recipe's bytes.
pub proof fn law_canonical_manifest_lists_every_recipe(semantic_manifest: SemanticVectorManifest, generated_from: Seq<char>)
    ensures
        vector_manifest_for(semantic_manifest, generated_from).vectors.len() == semantic_manifest.vectors@.len(),
        forall|i: int| 0 <= i < semantic_manifest.vectors@.len() ==> #[trigger] vector_manifest_for(
            semantic_manifest,
            generated_from,
        ).vectors[i] == golden_vector_of(semantic_manifest.vectors@[i]),
        vector_manifest_for(semantic_manifest, generated_from).protocol_version == semantic_manifest.protocol_version@,
{
}

/// Comparing a vector manifest with itself finds nothing: no vector name
/// differs between a manifest's index and itself.
pub proof fn law_vector_comparison_is_reflexive(manifest: VectorManifest)
    ensures
        forall|n: Seq<char>| !vector_differs(vector_index(manifest.vectors@), vector_index(manifest.vectors@), n),
{
}

proof fn lemma_selected_recipes(recipes: Seq<ApiProfileRecipe>, manifest: ApiProfileCapabilityManifest)
    ensures
        forall|i: int| 0 <= i < selected_recipes(recipes, manifest).len() ==> recipe_selected(
            #[trigger] selected_recipes(recipes, manifest)[i],
            manifest,
        ),
        forall|k: int| 0 <= k < recipes.len() && recipe_selected(#[trigger] recipes[k], manifest) ==> exists|i: int|
            0 <= i < selected_recipes(recipes, manifest).len() && selected_recipes(recipes, manifest)[i] == recipes[k],
    decreases recipes.len(),
{
    if recipes.len() > 0 {
        let rest = recipes.drop_last();
        lemma_selected_recipes(rest, manifest);
        let s = selected_recipes(recipes, manifest);
        let r = selected_recipes(rest, manifest);
        assert forall|k: int| 0 <= k < recipes.len() && recipe_selected(#[trigger] recipes[k], manifest) implies exists|i: int|
            0 <= i < s.len() && s[i] == recipes[k] by {
            if k < recipes.len() - 1 {
                assert(rest[k] == recipes[k]);
                let i = choose|i: int| 0 <= i < r.len() && r[i] == rest[k];
                assert(s[i] == r[i]);
            } else {
                assert(s[s.len() - 1] == recipes.last());
            }
        }
    }
}

/// Only claimed capabilities promote a recipe into an API profile plan:
/// every planned case is mandatory or optional and requires nothing the
/// capability manifest leaves undeclared, and every such recipe is planned.
pub proof fn law_api_plan_runs_exactly_the_claimed_recipes(
    plan: ApiProfileExecutionPlan,
    manifest: ApiProfileCapabilityManifest,
    recipes: Seq<ApiProfileRecipe>,
    artifacts: crate::fixtures::AdapterArtifactContext,
)
    requires
        api_plan_of(plan, manifest, recipes, artifacts),
    ensures
        forall|k: int| 0 <= k < plan.cases@.len() ==> {
            let c = #[trigger] plan.cases@[k];
            &&& (c.status == crate::fixtures::CaseStatus::Mandatory || c.status == crate::fixtures::CaseStatus::Optional)
            &&& forall|t: Seq<char>| texts(c.required_capabilities@).contains(t) ==> declares_api_capability(manifest, t)
        },
        forall|j: int| 0 <= j < recipes.len() && recipe_selected(#[trigger] recipes[j], manifest) ==> exists|k: int|
            0 <= k < plan.cases@.len() && plan.cases@[k].id@ == recipes[j].id@,
{
    let chosen = selected_recipes(recipes, manifest);
    lemma_selected_recipes(recipes, manifest);
    assert forall|k: int| 0 <= k < plan.cases@.len() implies {
        let c = #[trigger] plan.cases@[k];
        &&& (c.status == crate::fixtures::CaseStatus::Mandatory || c.status == crate::fixtures::CaseStatus::Optional)
        &&& forall|t: Seq<char>| texts(c.required_capabilities@).contains(t) ==> declares_api_capability(manifest, t)
    } by {
        assert(api_case_of(plan.cases@[k], chosen[k]));
        assert(recipe_selected(chosen[k], manifest));
        assert forall|t: Seq<char>| texts(plan.cases@[k].required_capabilities@).contains(t) implies declares_api_capability(
            manifest,
            t,
        ) by {
            assert(recipe_requires(chosen[k], t));
        }
    }
    assert forall|j: int| 0 <= j < recipes.len() && recipe_selected(#[trigger] recipes[j], manifest) implies exists|k: int|
        0 <= k < plan.cases@.len() && plan.cases@[k].id@ == recipes[j].id@ by {
        let i = choose|i: int| 0 <= i < chosen.len() && chosen[i] == recipes[j];
        assert(api_case_of(plan.cases@[i], chosen[i]));
    }
}

proof fn lemma_member_value_prefix(fields: Seq<(String, JsonValue)>, extra: Seq<(String, JsonValue)>, name: Seq<char>)
    requires
        member_value(fields, name) is Some,
    ensures
        member_value(fields + extra, name) == member_value(fields, name),
    decreases fields.len(),
{
    if fields[0].0@ != name {
        assert((fields + extra).drop_first() =~= fields.drop_first() + extra);
        lemma_member_value_prefix(fields.drop_first(), extra, name);
    }
}

proof fn lemma_fields_with_extra(
    case_id: Seq<char>,
    event_type: Seq<char>,
    members: Seq<(String, JsonValue)>,
    fields: Seq<(String, JsonValue)>,
    extra: Seq<(String, JsonValue)>,
)
    requires
        fields_problem(case_id, event_type, members, fields) is None,
    ensures
        fields_problem(case_id, event_type, members, fields + extra) is None,
    decreases members.len(),
{
    if members.len() > 0 {
        lemma_fields_with_extra(case_id, event_type, members.drop_last(), fields, extra);
        lemma_member_value_prefix(fields, extra, members.last().0@);
    }
}

/// Fields a provider adds to an observed event after the ones it already
/// reports never make a passing event fail: what the expected event asks
/// for is found, and holds, in the widened event too.
pub proof fn law_extra_event_fields_keep_a_passing_event(
    case_id: Seq<char>,
    expected: crate::fixtures::ApiProfileExpectedEvent,
    actual: crate::fixtures::ApiProfileObservedEvent,
    widened: crate::fixtures::ApiProfileObservedEvent,
    extra: Seq<(String, JsonValue)>,
)
    requires
        widened.event_type@ == actual.event_type@,
        widened.fields@ == actual.fields@ + extra,
        event_fields_problem(case_id, expected, actual) is None,
    ensures
        event_fields_problem(case_id, expected, widened) is None,
{
    match expected.fields {
        Some(JsonValue::Object(members)) => {
            lemma_fields_with_extra(case_id, expected.event_type@, members@, actual.fields@, extra);
        },
        _ => {},
    }
}

/// Each event of `widened` is the event at the same place in `actual`, of
/// the same type, with its fields followed by zero or more others.
pub open spec fn widened_events(
    actual: Seq<crate::fixtures::ApiProfileObservedEvent>,
    widened: Seq<crate::fixtures::ApiProfileObservedEvent>,
) -> bool {
    &&& actual.len() == widened.len()
    &&& forall|i: int| 0 <= i < actual.len() ==> {
        &&& (#[trigger] widened[i]).event_type@ == actual[i].event_type@
        &&& actual[i].fields@.len() <= widened[i].fields@.len()
        &&& widened[i].fields@.take(actual[i].fields@.len() as int) == actual[i].fields@
    }
}

proof fn lemma_widened_counts(
    actual: Seq<crate::fixtures::ApiProfileObservedEvent>,
    widened: Seq<crate::fixtures::ApiProfileObservedEvent>,
    event_type: Seq<char>,
)
    requires
        widened_events(actual, widened),
    ensures
        event_count(widened, event_type) == event_count(actual, event_type),
    decreases actual.len(),
{
    if actual.len() > 0 {
        let a = actual.drop_last();
        let w = widened.drop_last();
        assert forall|i: int| 0 <= i < a.len() implies {
            &&& (#[trigger] w[i]).event_type@ == a[i].event_type@
            &&& a[i].fields@.len() <= w[i].fields@.len()
            &&& w[i].fields@.take(a[i].fields@.len() as int) == a[i].fields@
        } by {
            assert(w[i] == widened[i] && a[i] == actual[i]);
        }
        lemma_widened_counts(a, w, event_type);
        assert(widened.last() == widened[widened.len() - 1]);
    }
}

proof fn lemma_widened_first(
    actual: Seq<crate::fixtures::ApiProfileObservedEvent>,
    widened: Seq<crate::fixtures::ApiProfileObservedEvent>,
    event_type: Seq<char>,
    from: int,
)
    requires
        widened_events(actual, widened),
    ensures
        first_event_from(widened, event_type, from) == first_event_from(actual, event_type, from),
    decreases actual.len() - from,
{
    if 0 <= from < actual.len() {
        assert(widened[from].event_type@ == actual[from].event_type@);
        lemma_widened_first(actual, widened, event_type, from + 1);
    }
}

proof fn lemma_widened_events_check(
    case_id: Seq<char>,
    expected: Seq<crate::fixtures::ApiProfileExpectedEvent>,
    actual: Seq<crate::fixtures::ApiProfileObservedEvent>,
    widened: Seq<crate::fixtures::ApiProfileObservedEvent>,
)
    requires
        widened_events(actual, widened),
        events_check(case_id, expected, actual).0 is None,
    ensures
        events_check(case_id, expected, widened) == events_check(case_id, expected, actual),
    decreases expected.len(),
{
    if expected.len() > 0 {
        let earlier = events_check(case_id, expected.drop_last(), actual);
        lemma_widened_events_check(case_id, expected.drop_last(), actual, widened);
        let last = expected.last();
        lemma_widened_counts(actual, widened, last.event_type@);
        lemma_widened_first(actual, widened, last.event_type@, earlier.1);
        match first_event_from(actual, last.event_type@, earlier.1) {
            Some(k) => {
                assert(0 <= k < actual.len()) by {
                    lemma_first_event_in_range(actual, last.event_type@, earlier.1);
                }
                let extra = widened[k].fields@.skip(actual[k].fields@.len() as int);
                assert(widened[k].fields@ =~= actual[k].fields@ + extra) by {
                    assert(widened[k].fields@ =~= widened[k].fields@.take(actual[k].fields@.len() as int) + extra);
                }
                if event_fields_problem(case_id, last, actual[k]) is None {
                    law_extra_event_fields_keep_a_passing_event(case_id, last, actual[k], widened[k], extra);
                }
            },
            None => {},
        }
    }
}

proof fn lemma_first_event_in_range(actual: Seq<crate::fixtures::ApiProfileObservedEvent>, event_type: Seq<char>, from: int)
    ensures
        first_event_from(actual, event_type, from) matches Some(k) ==> from <= k < actual.len(),
    decreases actual.len() - from,
{
    if 0 <= from < actual.len() {
        lemma_first_event_in_range(actual, event_type, from + 1);
    }
}

/// Fields a provider adds to its observed events never make a passing case
/// fail: if the expected events are observed in order, with the fields they
/// ask for, they are observed alike once each event carries more fields.
pub proof fn law_extra_fields_keep_passing_events(
    case_id: Seq<char>,
    expected: Seq<crate::fixtures::ApiProfileExpectedEvent>,
    actual: Seq<crate::fixtures::ApiProfileObservedEvent>,
    widened: Seq<crate::fixtures::ApiProfileObservedEvent>,
)
    requires
        widened_events(actual, widened),
        events_check(case_id, expected, actual).0 is None,
    ensures
        events_check(case_id, expected, widened).0 is None,
{
    lemma_widened_events_check(case_id, expected, actual, widened);
}

proof fn lemma_benchmark_results_accepted(expected: Set<Seq<char>>, results: Seq<BenchmarkResultRecord>)
    requires
        benchmark_result_ids(results).no_duplicates(),
        forall|i: int| 0 <= i < results.len() ==> expected.contains((#[trigger] results[i]).id@),
        forall|i: int| 0 <= i < results.len() ==> (#[trigger] results[i]).outcome != BenchmarkOutcome::Measured
            || results[i].has_metrics || results[i].sample_count > 0,
    ensures
        benchmark_result_problem(expected, results) is None,
    decreases results.len(),
{
    if results.len() > 0 {
        let rest = results.drop_last();
        let ids = benchmark_result_ids(results);
        let prior = benchmark_result_ids(rest);
        assert(prior =~= ids.drop_last());
        assert forall|i: int| 0 <= i < rest.len() implies expected.contains((#[trigger] rest[i]).id@) by {
            assert(rest[i] == results[i]);
        }
        assert forall|i: int| 0 <= i < rest.len() implies (#[trigger] rest[i]).outcome != BenchmarkOutcome::Measured
            || rest[i].has_metrics || rest[i].sample_count > 0 by {
            assert(rest[i] == results[i]);
        }
        lemma_benchmark_results_accepted(expected, rest);
        assert(results.last() == results[results.len() - 1]);
        if prior.contains(results.last().id@) {
            let j = choose|j: int| 0 <= j < prior.len() && prior[j] == results.last().id@;
            assert(ids[j] == ids[ids.len() - 1]);
        }
    }
}

/// Benchmarks stay informational: a report that answers every planned
/// scenario once, in any outcome, is accepted whatever it measured, as long
/// as a measured scenario carries metrics or samples; an error or a skip
/// never fails it.
pub proof fn law_benchmark_outcomes_are_informational(
    plan: crate::fixtures::BenchmarkExecutionPlan,
    report: BenchmarkResultOverview,
)
    requires
        report.protocol_version@ == plan.protocol_version@,
        report.implementation_name@ == plan.implementation_name@,
        benchmark_plan_ids(plan.scenarios@).no_duplicates(),
        benchmark_result_ids(report.results@) == benchmark_plan_ids(plan.scenarios@),
        forall|i: int| 0 <= i < report.results@.len() ==> (#[trigger] report.results@[i]).outcome
            != BenchmarkOutcome::Measured || report.results@[i].has_metrics || report.results@[i].sample_count > 0,
    ensures
        benchmark_validation_problem(plan, report) is None,
{
    let ids = benchmark_plan_ids(plan.scenarios@);
    let expected = ids.to_set();
    let results = report.results@;
    assert forall|i: int| 0 <= i < results.len() implies expected.contains((#[trigger] results[i]).id@) by {
        assert(benchmark_result_ids(results)[i] == results[i].id@);
        assert(ids.contains(ids[i]));
    }
    lemma_benchmark_results_accepted(expected, results);
    ids.unique_seq_to_set();
    assert(benchmark_result_ids(results).len() == results.len());
}

/// The count that a matrix entry's summary gives for a selection.
pub open spec fn entry_count(entry: crate::fixtures::CompatibilityMatrixEntry, selection: CaseSelection) -> nat {
    match selection {
        CaseSelection::Selected => entry.summary.selected_cases as nat,
        CaseSelection::NotClaimed => entry.summary.not_claimed_cases as nat,
        CaseSelection::Informational => entry.summary.informational_cases as nat,
    }
}

/// The counts of all entries of a compatibility matrix for a selection,
/// added up.
pub open spec fn matrix_total(matrix: Seq<crate::fixtures::CompatibilityMatrixEntry>, selection: CaseSelection) -> nat
    decreases matrix.len(),
{
    if matrix.len() == 0 {
        0
    } else {
        matrix_total(matrix.drop_last(), selection) + entry_count(matrix.last(), selection)
    }
}

spec fn feature_counts(features: Seq<Seq<char>>, cases: Seq<CaseDefinition>, declared: Seq<String>, selection: CaseSelection) -> nat
    decreases features.len(),
{
    if features.len() == 0 {
        0
    } else {
        feature_counts(features.drop_last(), cases, declared, selection) + count_selection(
            cases,
            declared,
            Some(features.last()),
            selection,
        )
    }
}

spec fn occurrences(features: Seq<Seq<char>>, f: Seq<char>) -> nat
    decreases features.len(),
{
    if features.len() == 0 {
        0
    } else {
        occurrences(features.drop_last(), f) + if features.last() == f {
            1nat
        } else {
            0nat
        }
    }
}

proof fn lemma_occurs_once(features: Seq<Seq<char>>, f: Seq<char>)
    requires
        features.no_duplicates(),
    ensures
        occurrences(features, f) == if features.contains(f) {
            1nat
        } else {
            0nat
        },
    decreases features.len(),
{
    if features.len() > 0 {
        let rest = features.drop_last();
        lemma_occurs_once(rest, f);
        if features.last() == f {
            assert(!rest.contains(f)) by {
                if rest.contains(f) {
                    let i = choose|i: int| 0 <= i < rest.len() && rest[i] == f;
                    assert(features[i] == features[features.len() - 1]);
                }
            }
        }
        if rest.contains(f) {
            let i = choose|i: int| 0 <= i < rest.len() && rest[i] == f;
            assert(features[i] == f);
        }
        if features.contains(f) && features.last() != f {
            let i = choose|i: int| 0 <= i < features.len() && features[i] == f;
            assert(rest[i] == f);
        }
    }
}

proof fn lemma_feature_counts_step(
    features: Seq<Seq<char>>,
    cases: Seq<CaseDefinition>,
    declared: Seq<String>,
    selection: CaseSelection,
)
    requires
        cases.len() > 0,
    ensures
        feature_counts(features, cases, declared, selection) == feature_counts(features, cases.drop_last(), declared, selection)
            + if case_selection(cases.last(), declared) == selection {
            occurrences(features, cases.last().feature@)
        } else {
            0nat
        },
    decreases features.len(),
{
    if features.len() > 0 {
        lemma_feature_counts_step(features.drop_last(), cases, declared, selection);
    }
}

proof fn lemma_feature_counts_total(
    features: Seq<Seq<char>>,
    cases: Seq<CaseDefinition>,
    declared: Seq<String>,
    selection: CaseSelection,
)
    requires
        features.no_duplicates(),
        forall|k: int| 0 <= k < cases.len() ==> features.contains((#[trigger] cases[k]).feature@),
    ensures
        feature_counts(features, cases, declared, selection) == count_selection(cases, declared, None, selection),
    decreases cases.len(),
{
    if cases.len() == 0 {
        lemma_feature_counts_empty(features, cases, declared, selection);
    } else {
        let rest = cases.drop_last();
        assert forall|k: int| 0 <= k < rest.len() implies features.contains((#[trigger] rest[k]).feature@) by {
            assert(rest[k] == cases[k]);
        }
        lemma_feature_counts_total(features, rest, declared, selection);
        lemma_feature_counts_step(features, cases, declared, selection);
        assert(cases.last() == cases[cases.len() - 1]);
        lemma_occurs_once(features, cases.last().feature@);
    }
}

proof fn lemma_feature_counts_empty(
    features: Seq<Seq<char>>,
    cases: Seq<CaseDefinition>,
    declared: Seq<String>,
    selection: CaseSelection,
)
    requires
        cases.len() == 0,
    ensures
        feature_counts(features, cases, declared, selection) == 0,
    decreases features.len(),
{
    if features.len() > 0 {
        lemma_feature_counts_empty(features.drop_last(), cases, declared, selection);
    }
}

proof fn lemma_matrix_total_counts(
    matrix: Seq<crate::fixtures::CompatibilityMatrixEntry>,
    cases: Seq<CaseDefinition>,
    declared: Seq<String>,
    selection: CaseSelection,
)
    requires
        forall|j: int| 0 <= j < matrix.len() ==> entry_matches(#[trigger] matrix[j], cases, declared),
    ensures
        matrix_total(matrix, selection) == feature_counts(matrix_features(matrix), cases, declared, selection),
    decreases matrix.len(),
{
    if matrix.len() > 0 {
        let rest = matrix.drop_last();
        assert forall|j: int| 0 <= j < rest.len() implies entry_matches(#[trigger] rest[j], cases, declared) by {
            assert(rest[j] == matrix[j]);
        }
        lemma_matrix_total_counts(rest, cases, declared, selection);
        assert(matrix_features(matrix).drop_last() =~= matrix_features(rest));
        assert(entry_matches(matrix[matrix.len() - 1], cases, declared));
    }
}

/// The compatibility matrix of a plan report adds up to the report: for each
/// selection, the counts of its entries sum to the report's total.
pub proof fn law_matrix_totals_match_the_report(
    report: crate::fixtures::ConformanceReport,
    protocol_manifest: ProtocolManifest,
    cases: Seq<CaseDefinition>,
    capability_manifest: Option<&CapabilityManifest>,
)
    requires
        plans_cases(report, protocol_manifest, cases, capability_manifest),
    ensures
        matrix_total(report.compatibility_matrix@, CaseSelection::Selected) == report.summary.selected_cases,
        matrix_total(report.compatibility_matrix@, CaseSelection::NotClaimed) == report.summary.not_claimed_cases,
        matrix_total(report.compatibility_matrix@, CaseSelection::Informational) == report.summary.informational_cases,
{
    let declared = declared_of(capability_manifest);
    let matrix = report.compatibility_matrix@;
    let features = matrix_features(matrix);
    assert(features.no_duplicates()) by {
        assert forall|i: int, j: int| 0 <= i < features.len() && 0 <= j < features.len() && i != j implies features[i]
            != features[j] by {
            lemma_bytes_lt_irreflexive(text_key(features[i]));
            if i < j {
                assert(strictly_sorted(features));
            } else {
                assert(strictly_sorted(features));
            }
        }
    }
    assert forall|k: int| 0 <= k < cases.len() implies features.contains((#[trigger] cases[k]).feature@) by {
        assert(has_feature(cases, cases[k].feature@));
    }
    lemma_matrix_total_counts(matrix, cases, declared, CaseSelection::Selected);
    lemma_matrix_total_counts(matrix, cases, declared, CaseSelection::NotClaimed);
    lemma_matrix_total_counts(matrix, cases, declared, CaseSelection::Informational);
    lemma_feature_counts_total(features, cases, declared, CaseSelection::Selected);
    lemma_feature_counts_total(features, cases, declared, CaseSelection::NotClaimed);
    lemma_feature_counts_total(features, cases, declared, CaseSelection::Informational);
}

/// Planning one manifest through the multi-manifest builder is planning it
/// alone: the same version check decides, and the plan covers the same
/// cases, so the two builders' contracts agree (the multi-manifest builder
/// also refuses capability tokens that no case requires).
pub proof fn law_one_manifest_plans_alike(
    protocol_manifest: ProtocolManifest,
    case_manifest: &CaseManifest,
    case_manifest_path: &str,
    capability_manifest: Option<&CapabilityManifest>,
    capability_manifest_path: Option<Seq<char>>,
)
    ensures
        manifests_cases(seq![(case_manifest, case_manifest_path)]) == case_manifest.cases@,
        first_alignment_mismatch(
            protocol_manifest,
            seq![(case_manifest, case_manifest_path)],
            capability_manifest,
            capability_manifest_path,
            0,
        ) == alignment_mismatch(
            protocol_manifest,
            *case_manifest,
            capability_manifest,
            case_manifest_path@,
            capability_manifest_path,
        ),
{
    let one = seq![(case_manifest, case_manifest_path)];
    assert(one.drop_last() =~= Seq::<(&CaseManifest, &str)>::empty());
    assert(manifests_cases(one.drop_last()) =~= Seq::<CaseDefinition>::empty());
    assert(manifests_cases(one) =~= case_manifest.cases@);
    assert(first_alignment_mismatch(protocol_manifest, one, capability_manifest, capability_manifest_path, 1) is None);
}

/// Two plan reports that say the same: the same versions, names, totals,
/// case lines and matrix entries, text for text.
pub open spec fn same_report(a: crate::fixtures::ConformanceReport, b: crate::fixtures::ConformanceReport) -> bool {
    &&& a.protocol_version@ == b.protocol_version@
    &&& a.implementation_name@ == b.implementation_name@
    &&& a.summary == b.summary
    &&& a.cases@.len() == b.cases@.len()
    &&& forall|i: int| 0 <= i < a.cases@.len() ==> {
        let x = #[trigger] a.cases@[i];
        let y = b.cases@[i];
        &&& x.id@ == y.id@
        &&& crate::text::opt_view(x.feature) == crate::text::opt_view(y.feature)
        &&& x.status == y.status
        &&& x.selection@ == y.selection@
    }
    &&& a.compatibility_matrix@.len() == b.compatibility_matrix@.len()
    &&& forall|j: int| 0 <= j < a.compatibility_matrix@.len() ==> {
        let x = #[trigger] a.compatibility_matrix@[j];
        let y = b.compatibility_matrix@[j];
        &&& x.feature@ == y.feature@
        &&& texts(x.required_capabilities@) == texts(y.required_capabilities@)
        &&& x.summary == y.summary
        &&& x.statuses == y.statuses
        &&& texts(x.case_ids@) == texts(y.case_ids@)
    }
}

proof fn lemma_sorted_texts_unique(a: Seq<Seq<char>>, b: Seq<Seq<char>>)
    requires
        strictly_sorted(a),
        strictly_sorted(b),
        forall|t: Seq<char>| a.contains(t) <==> b.contains(t),
    ensures
        a == b,
    decreases a.len() + b.len(),
{
    if a.len() == 0 {
        if b.len() > 0 {
            assert(b.contains(b[0]));
        }
        assert(a =~= b);
    } else if b.len() == 0 {
        assert(a.contains(a[0]));
    } else {
        assert(a.contains(a[0]));
        assert(b.contains(b[0]));
        let j = choose|j: int| 0 <= j < b.len() && b[j] == a[0];
        let k = choose|k: int| 0 <= k < a.len() && a[k] == b[0];
        lemma_text_total(a[0], b[0]);
        if a[0] != b[0] {
            assert(j > 0 && k > 0);
            assert(crate::sorted_text::text_lt(b[0], b[j]));
            assert(crate::sorted_text::text_lt(a[0], a[k]));
        }
        let ra = a.drop_first();
        let rb = b.drop_first();
        assert forall|i: int, m: int| 0 <= i < m < ra.len() implies crate::sorted_text::text_lt(#[trigger] ra[i], #[trigger] ra[m]) by {
            assert(ra[i] == a[i + 1] && ra[m] == a[m + 1]);
        }
        assert forall|i: int, m: int| 0 <= i < m < rb.len() implies crate::sorted_text::text_lt(#[trigger] rb[i], #[trigger] rb[m]) by {
            assert(rb[i] == b[i + 1] && rb[m] == b[m + 1]);
        }
        assert forall|t: Seq<char>| ra.contains(t) <==> rb.contains(t) by {
            if ra.contains(t) {
                let i = choose|i: int| 0 <= i < ra.len() && ra[i] == t;
                assert(a[i + 1] == t);
                assert(crate::sorted_text::text_lt(a[0], a[i + 1]));
                lemma_text_total(a[0], t);
                assert(b.contains(t));
                let m = choose|m: int| 0 <= m < b.len() && b[m] == t;
                assert(m != 0);
                assert(rb[m - 1] == t);
            }
            if rb.contains(t) {
                let i = choose|i: int| 0 <= i < rb.len() && rb[i] == t;
                assert(b[i + 1] == t);
                assert(crate::sorted_text::text_lt(b[0], b[i + 1]));
                lemma_text_total(b[0], t);
                assert(a.contains(t));
                let m = choose|m: int| 0 <= m < a.len() && a[m] == t;
                assert(m != 0);
                assert(ra[m - 1] == t);
            }
        }
        lemma_sorted_texts_unique(ra, rb);
        assert(a =~= seq![a[0]] + ra);
        assert(b =~= seq![b[0]] + rb);
    }
}

/// A plan report is fixed by what it plans: two reports that both plan the
/// same cases under the same manifests say the same.
pub proof fn law_plan_reports_are_determined(
    a: crate::fixtures::ConformanceReport,
    b: crate::fixtures::ConformanceReport,
    protocol_manifest: ProtocolManifest,
    cases: Seq<CaseDefinition>,
    capability_manifest: Option<&CapabilityManifest>,
)
    requires
        plans_cases(a, protocol_manifest, cases, capability_manifest),
        plans_cases(b, protocol_manifest, cases, capability_manifest),
    ensures
        same_report(a, b),
{
    let declared = declared_of(capability_manifest);
    assert forall|i: int| 0 <= i < a.cases@.len() implies {
        let x = #[trigger] a.cases@[i];
        let y = b.cases@[i];
        &&& x.id@ == y.id@
        &&& crate::text::opt_view(x.feature) == crate::text::opt_view(y.feature)
        &&& x.status == y.status
        &&& x.selection@ == y.selection@
    } by {
        assert(report_case_matches(a.cases@[i], cases[i], declared));
        assert(report_case_matches(b.cases@[i], cases[i], declared));
    }
    let fa = matrix_features(a.compatibility_matrix@);
    let fb = matrix_features(b.compatibility_matrix@);
    assert forall|t: Seq<char>| fa.contains(t) <==> fb.contains(t) by {
        assert(fa.contains(t) <==> has_feature(cases, t));
        assert(fb.contains(t) <==> has_feature(cases, t));
    }
    lemma_sorted_texts_unique(fa, fb);
    assert forall|j: int| 0 <= j < a.compatibility_matrix@.len() implies {
        let x = #[trigger] a.compatibility_matrix@[j];
        let y = b.compatibility_matrix@[j];
        &&& x.feature@ == y.feature@
        &&& texts(x.required_capabilities@) == texts(y.required_capabilities@)
        &&& x.summary == y.summary
        &&& x.statuses == y.statuses
        &&& texts(x.case_ids@) == texts(y.case_ids@)
    } by {
        let x = a.compatibility_matrix@[j];
        let y = b.compatibility_matrix@[j];
        assert(fa[j] == x.feature@ && fb[j] == y.feature@);
        assert(entry_matches(x, cases, declared));
        assert(entry_matches(y, cases, declared));
        assert forall|t: Seq<char>| texts(x.required_capabilities@).contains(t) <==> texts(
            y.required_capabilities@,
        ).contains(t) by {
            assert(texts(x.required_capabilities@).contains(t) <==> crate::plan::feature_has_capability(cases, x.feature@, t));
            assert(texts(y.required_capabilities@).contains(t) <==> crate::plan::feature_has_capability(cases, y.feature@, t));
        }
        lemma_sorted_texts_unique(texts(x.required_capabilities@), texts(y.required_capabilities@));
        assert forall|t: Seq<char>| texts(x.case_ids@).contains(t) <==> texts(y.case_ids@).contains(t) by {
            assert(texts(x.case_ids@).contains(t) <==> crate::plan::feature_has_id(cases, x.feature@, t));
            assert(texts(y.case_ids@).contains(t) <==> crate::plan::feature_has_id(cases, y.feature@, t));
        }
        lemma_sorted_texts_unique(texts(x.case_ids@), texts(y.case_ids@));
    }
}

/// Planning one manifest through the multi-manifest builder gives the report
/// of planning it alone: where both builders succeed, their reports say the
/// same.
pub proof fn law_one_manifest_report_is_the_single_plan(
    single: crate::fixtures::ConformanceReport,
    multi: crate::fixtures::ConformanceReport,
    protocol_manifest: ProtocolManifest,
    case_manifest: &CaseManifest,
    case_manifest_path: &str,
    capability_manifest: Option<&CapabilityManifest>,
)
    requires
        plans_cases(single, protocol_manifest, case_manifest.cases@, capability_manifest),
        plans_cases(
            multi,
            protocol_manifest,
            manifests_cases(seq![(case_manifest, case_manifest_path)]),
            capability_manifest,
        ),
    ensures
        same_report(single, multi),
{
    law_one_manifest_plans_alike(protocol_manifest, case_manifest, case_manifest_path, capability_manifest, None);
    law_plan_reports_are_determined(single, multi, protocol_manifest, case_manifest.cases@, capability_manifest);
}

/// Substituting no parameters changes nothing: the value keeps its shape
/// and every text.
pub proof fn law_substitution_without_parameters_keeps_the_value(new: JsonValue, old: JsonValue)
    requires
        substituted(new, old, Seq::empty()),
    ensures
        json_same(old, new),
    decreases old,
{
    match old {
        JsonValue::Array(xs) => {
            let ys = new->Array_0;
            assert forall|i: int| 0 <= i < xs@.len() implies json_same(#[trigger] xs@[i], ys@[i]) by {
                assert(substituted(ys@[i], xs@[i], Seq::empty()));
                law_substitution_without_parameters_keeps_the_value(ys@[i], xs@[i]);
            }
        },
        JsonValue::Object(xs) => {
            let ys = new->Object_0;
            assert forall|i: int| 0 <= i < xs@.len() implies (#[trigger] xs@[i]).0@ == ys@[i].0@ && json_same(
                xs@[i].1,
                ys@[i].1,
            ) by {
                assert(substituted(ys@[i].1, xs@[i].1, Seq::empty()));
                law_substitution_without_parameters_keeps_the_value(ys@[i].1, xs@[i].1);
            }
        },
        _ => {},
    }
}

proof fn lemma_api_ids_distinct(plan: ApiProfileExecutionPlan, results: Seq<ApiProfileCaseResult>)
    requires
        api_results_problem(plan, results) is None,
    ensures
        api_result_ids(results).no_duplicates(),
        forall|i: int| 0 <= i < results.len() ==> api_plan_ids(plan.cases@).to_set().contains(
            #[trigger] api_result_ids(results)[i],
        ),
    decreases results.len(),
{
    if results.len() > 0 {
        let rest = results.drop_last();
        lemma_api_ids_distinct(plan, rest);
        let ids = api_result_ids(results);
        let prior = api_result_ids(rest);
        assert(ids =~= prior.push(results.last().id@));
        assert forall|a: int, b: int| 0 <= a < ids.len() && 0 <= b < ids.len() && a != b implies ids[a] != ids[b] by {
            if a == ids.len() - 1 {
                assert(prior[b] == ids[b]);
            } else if b == ids.len() - 1 {
                assert(prior[a] == ids[a]);
            } else {
                assert(prior[a] == ids[a] && prior[b] == ids[b]);
            }
        }
        lemma_api_case_in_plan(plan.cases@, results.last().id@);
        assert forall|i: int| 0 <= i < results.len() implies api_plan_ids(plan.cases@).to_set().contains(
            #[trigger] api_result_ids(results)[i],
        ) by {
            if i < results.len() - 1 {
                assert(ids[i] == prior[i]);
            }
        }
    }
}

proof fn lemma_api_case_in_plan(cases: Seq<crate::fixtures::ApiProfileExecutionCase>, id: Seq<char>)
    ensures
        crate::api_profile::api_case_by_id(cases, id) is Some ==> api_plan_ids(cases).contains(id),
    decreases cases.len(),
{
    if cases.len() > 0 {
        lemma_api_case_in_plan(cases.drop_last(), id);
        let ids = api_plan_ids(cases);
        if cases.last().id@ == id {
            assert(ids[cases.len() - 1] == id);
        } else if crate::api_profile::api_case_by_id(cases, id) is Some {
            let prior = api_plan_ids(cases.drop_last());
            let k = choose|k: int| 0 <= k < prior.len() && prior[k] == id;
            assert(ids[k] == id);
        }
    }
}

proof fn lemma_api_outcomes_sum(results: Seq<ApiProfileCaseResult>)
    ensures
        count_api_outcome(results, ApiProfileCaseOutcome::Passed) + count_api_outcome(results, ApiProfileCaseOutcome::Failed)
            + count_api_outcome(results, ApiProfileCaseOutcome::Skipped) == results.len(),
    decreases results.len(),
{
    if results.len() > 0 {
        lemma_api_outcomes_sum(results.drop_last());
    }
}

/// An accepted API profile report answers its plan exactly: one result per
/// selected case, no other and none twice, so the outcome counts add up to
/// the number of selected cases.
pub proof fn law_accepted_api_results_answer_the_plan(plan: ApiProfileExecutionPlan, report: ApiProfileCaseResultReport)
    requires
        api_validation_problem(plan, report) is None,
    ensures
        api_result_ids(report.results@).to_set() == api_plan_ids(plan.cases@).to_set(),
        api_result_ids(report.results@).no_duplicates(),
        count_api_outcome(report.results@, ApiProfileCaseOutcome::Passed) + count_api_outcome(
            report.results@,
            ApiProfileCaseOutcome::Failed,
        ) + count_api_outcome(report.results@, ApiProfileCaseOutcome::Skipped) == api_plan_ids(plan.cases@).to_set().len(),
{
    let expected = api_plan_ids(plan.cases@).to_set();
    let ids = api_result_ids(report.results@);
    lemma_api_ids_distinct(plan, report.results@);
    lemma_api_outcomes_sum(report.results@);
    ids.unique_seq_to_set();
    assert(ids.to_set().subset_of(expected)) by {
        assert forall|x| ids.to_set().contains(x) implies expected.contains(x) by {
            let i = choose|i: int| 0 <= i < ids.len() && ids[i] == x;
        }
    }
    api_plan_ids(plan.cases@).lemma_cardinality_of_set();
    vstd::set_lib::lemma_subset_equality(ids.to_set(), expected);
}

proof fn lemma_route_of_own_transport(routes: Seq<crate::fixtures::WireHostProviderRoute>, i: int)
    requires
        0 <= i < routes.len(),
        forall|a: int, b: int| 0 <= a < b < routes.len() ==> routes[a].transport != routes[b].transport,
    ensures
        route_of_transport(routes, routes[i].transport) == Some(routes[i]),
    decreases i,
{
    if i > 0 {
        let rest = routes.drop_first();
        assert(rest[i - 1] == routes[i]);
        assert(routes[0].transport != routes[i].transport);
        lemma_route_of_own_transport(rest, i - 1);
    }
}

proof fn lemma_bound_for_index(bound: Seq<(crate::fixtures::WireConformanceTransport, String)>, k: int)
    requires
        0 <= k < bound.len(),
        forall|a: int, b: int| 0 <= a < b < bound.len() ==> bound[a].0 != bound[b].0,
    ensures
        bound_for(bound, bound[k].0) == Some(bound[k].1@),
    decreases k,
{
    if k > 0 {
        let rest = bound.drop_first();
        assert(rest[k - 1] == bound[k]);
        assert(bound[0].0 != bound[k].0);
        lemma_bound_for_index(rest, k - 1);
    }
}

proof fn lemma_listener_for_index(
    listeners: Seq<crate::fixtures::WireHostReadyListener>,
    route: crate::fixtures::WireHostProviderRoute,
    k: int,
)
    requires
        0 <= k < listeners.len(),
        listeners[k].transport == route.transport,
        listeners[k].provider_id@ == route.provider_id@,
        forall|a: int, b: int| 0 <= a < b < listeners.len() ==> listeners[a].transport != listeners[b].transport,
    ensures
        listener_for(listeners, route) == Some(listeners[k]),
    decreases k,
{
    if k > 0 {
        let rest = listeners.drop_first();
        assert(rest[k - 1] == listeners[k]);
        assert(listeners[0].transport != listeners[k].transport);
        lemma_listener_for_index(rest, route, k - 1);
    }
}

proof fn lemma_no_unready_route(
    listeners: Seq<crate::fixtures::WireHostReadyListener>,
    routes: Seq<crate::fixtures::WireHostProviderRoute>,
)
    requires
        forall|i: int| 0 <= i < routes.len() ==> listener_for(listeners, #[trigger] routes[i]) is Some,
    ensures
        unready_route(listeners, routes) is None,
    decreases routes.len(),
{
    if routes.len() > 0 {
        let rest = routes.drop_first();
        assert(listener_for(listeners, routes[0]) is Some);
        assert forall|i: int| 0 <= i < rest.len() implies listener_for(listeners, #[trigger] rest[i]) is Some by {
            assert(rest[i] == routes[i + 1]);
        }
        lemma_no_unready_route(listeners, rest);
    }
}

/// What a server target reports once it has bound one endpoint for each of
/// its routes' transports is accepted by the runner for the same scenario,
/// and each route resolves to the endpoint bound on its transport (routes
/// and bound endpoints each naming a transport once).
pub proof fn law_readiness_reports_round_trip(
    report: crate::fixtures::WireHostRouteReadyReport,
    scenario: crate::fixtures::WireConformanceScenario,
    fixture: crate::fixtures::WireHostRouteFixture,
    bound: Seq<(crate::fixtures::WireConformanceTransport, String)>,
)
    requires
        scenario.host_route == Some(fixture),
        forall|a: int, b: int| 0 <= a < b < fixture.routes@.len() ==> fixture.routes@[a].transport
            != fixture.routes@[b].transport,
        forall|a: int, b: int| 0 <= a < b < bound.len() ==> bound[a].0 != bound[b].0,
        bound.len() == fixture.routes@.len(),
        forall|i: int| 0 <= i < fixture.routes@.len() ==> exists|k: int| 0 <= k < bound.len() && (#[trigger] bound[k]).0
            == (#[trigger] fixture.routes@[i]).transport,
        ready_report_of(report, scenario, fixture, bound),
    ensures
        readiness_problem(report, scenario) is None,
        forall|i: int| 0 <= i < fixture.routes@.len() ==> (listener_for(report.listeners@, #[trigger] fixture.routes@[i])
            matches Some(l) && Some(l.bound_endpoint@) == bound_for(bound, fixture.routes@[i].transport)),
{
    let routes = fixture.routes@;
    let listeners = report.listeners@;
    assert forall|a: int, b: int| 0 <= a < b < listeners.len() implies listeners[a].transport != listeners[b].transport by {
        assert(listeners[a].transport == bound[a].0);
        assert(listeners[b].transport == bound[b].0);
    }
    assert forall|i: int| 0 <= i < routes.len() implies (listener_for(listeners, #[trigger] routes[i]) matches Some(l)
        && Some(l.bound_endpoint@) == bound_for(bound, routes[i].transport)) by {
        let k = choose|k: int| 0 <= k < bound.len() && (#[trigger] bound[k]).0 == routes[i].transport;
        lemma_route_of_own_transport(routes, i);
        assert(listeners[k].transport == bound[k].0);
        assert(listeners[k].provider_id@ == routes[i].provider_id@);
        lemma_listener_for_index(listeners, routes[i], k);
        lemma_bound_for_index(bound, k);
    }
    lemma_no_unready_route(listeners, routes);
}

proof fn lemma_reference_tls_complete(security: crate::fixtures::WireConformanceTransportSecurity)
    requires
        reference_tls(security),
    ensures
        security.server_name@.len() > 0,
        security.trusted_certificate_der_path@.len() > 0,
        security.certificate_der_path@.len() > 0,
        security.private_key_pkcs8_der_path@.len() > 0,
{
    reveal_strlit("localhost");
    reveal_strlit("certs/server.der");
    reveal_strlit("certs/server-key.der");
}

/// Every endpoint the reference target declares meets its transport's
/// contract, given non-empty addresses and a `wss://` WebSocket address:
/// TCP, QUIC and WebSocket carry the test certificate, IPC none.
pub proof fn law_reference_endpoints_meet_their_contracts(
    endpoints: Seq<crate::fixtures::WireConformanceTransportEndpoint>,
    tcp: Seq<char>,
    quic: Seq<char>,
    ipc: Seq<char>,
    websocket: Seq<char>,
)
    requires
        tcp.len() > 0,
        quic.len() > 0,
        ipc.len() > 0,
        has_prefix(websocket, "wss://"@),
        endpoints.len() == 4,
        reference_endpoint(endpoints[0], crate::fixtures::WireConformanceTransport::Tcp, tcp, true),
        reference_endpoint(endpoints[1], crate::fixtures::WireConformanceTransport::Quic, quic, true),
        reference_endpoint(endpoints[2], crate::fixtures::WireConformanceTransport::Ipc, ipc, false),
        reference_endpoint(endpoints[3], crate::fixtures::WireConformanceTransport::Websocket, websocket, true),
    ensures
        forall|k: int| 0 <= k < 4 ==> endpoint_problem(#[trigger] endpoints[k]) is None,
{
    reveal_strlit("wss://");
    assert(websocket.len() > 0);
    lemma_reference_tls_complete(endpoints[0].security->Some_0);
    lemma_reference_tls_complete(endpoints[1].security->Some_0);
    lemma_reference_tls_complete(endpoints[3].security->Some_0);
    assert(endpoint_problem(endpoints[0]) is None);
    assert(endpoint_problem(endpoints[1]) is None);
    assert(endpoint_problem(endpoints[2]) is None);
    assert(endpoint_problem(endpoints[3]) is None);
}

} // verus!
