use vstd::prelude::*;

use crate::capability_checks::{unknown_capabilities, unknown_capabilities_message, validate_declared_capabilities};
use crate::fixtures::{
    alignment_mismatch, opt_path, validate_protocol_alignment, AdapterArtifactContext,
    AdapterExecutionCase, AdapterExecutionPlan, CapabilityManifest, CaseDefinition, CaseManifest,
    ConformanceReport, FixtureError, ProtocolManifest,
};
use crate::json_model::{copy_members, same_members};
use crate::plan::{
    build_execution_plan_from_cases, case_selection, case_seq, plans_cases, select_case, CaseSelection,
};
use crate::sorted_text::texts;
use crate::text::opt_view;

verus! {

/// The cases of a list of case manifests, manifest after manifest.
pub open spec fn manifests_cases(case_manifests: Seq<(&CaseManifest, &str)>) -> Seq<CaseDefinition>
    decreases case_manifests.len(),
{
    if case_manifests.len() == 0 {
        Seq::empty()
    } else {
        manifests_cases(case_manifests.drop_last()) + case_manifests.last().0.cases@
    }
}

/// The first version mismatch among the case manifests from position `i` on,
/// each checked with the capability manifest.
pub open spec fn first_alignment_mismatch(
    protocol_manifest: ProtocolManifest,
    case_manifests: Seq<(&CaseManifest, &str)>,
    capability_manifest: Option<&CapabilityManifest>,
    capability_manifest_path: Option<Seq<char>>,
    i: int,
) -> Option<(Seq<char>, Seq<char>, Seq<char>)>
    decreases case_manifests.len() - i,
{
    if i < 0 || i >= case_manifests.len() {
        None
    } else {
        let mismatch = alignment_mismatch(protocol_manifest, *case_manifests[i].0, capability_manifest,
            case_manifests[i].1@, capability_manifest_path);
        if mismatch is Some {
            mismatch
        } else {
            first_alignment_mismatch(protocol_manifest, case_manifests, capability_manifest,
                capability_manifest_path, i + 1)
        }
    }
}

/// The cases that a plan selects, in their order.
pub open spec fn selected_cases(cases: Seq<CaseDefinition>, declared: Seq<String>) -> Seq<CaseDefinition>
    decreases cases.len(),
{
    if cases.len() == 0 {
        Seq::empty()
    } else if case_selection(cases.last(), declared) == CaseSelection::Selected {
        selected_cases(cases.drop_last(), declared).push(cases.last())
    } else {
        selected_cases(cases.drop_last(), declared)
    }
}

/// An adapter case that carries exactly the fields of a case definition.
pub open spec fn adapter_case_of(adapter_case: AdapterExecutionCase, case: CaseDefinition) -> bool {
    &&& adapter_case.id@ == case.id@
    &&& adapter_case.layer == case.layer
    &&& adapter_case.status == case.status
    &&& adapter_case.feature@ == case.feature@
    &&& texts(adapter_case.required_capabilities@) == texts(case.required_capabilities@)
    &&& adapter_case.description@ == case.description@
    &&& same_members(case.parameters@, adapter_case.parameters@)
}

/// The adapter plan of a list of cases: the schema, the versions and name of
/// the manifests, the artifacts, and the selected cases in order.
pub open spec fn plans_adapter_cases(
    plan: AdapterExecutionPlan,
    protocol_manifest: ProtocolManifest,
    cases: Seq<CaseDefinition>,
    capability_manifest: CapabilityManifest,
    artifacts: AdapterArtifactContext,
) -> bool {
    let chosen = selected_cases(cases, capability_manifest.supports@);
    &&& opt_view(plan.schema) == Some(
        "https://github.com/NagareWorks/nnrp-conformance/schemas/adapter-execution-plan.schema.json"@,
    )
    &&& plan.protocol_version@ == protocol_manifest.protocol_version@
    &&& plan.suite_version@ == protocol_manifest.suite_version@
    &&& plan.implementation_name@ == capability_manifest.implementation_name@
    &&& plan.artifacts == artifacts
    &&& plan.cases@.len() == chosen.len()
    &&& forall|i: int| 0 <= i < chosen.len() ==> adapter_case_of(#[trigger] plan.cases@[i], chosen[i])
}

/// References to the cases of one manifest, in order.
pub fn case_refs<'a>(case_manifest: &'a CaseManifest) -> (refs: Vec<&'a CaseDefinition>)
    ensures
        case_seq(refs@) == case_manifest.cases@,
{
    let mut refs: Vec<&'a CaseDefinition> = Vec::new();
    let mut i: usize = 0;
    while i < case_manifest.cases.len()
        invariant
            i <= case_manifest.cases@.len(),
            case_seq(refs@) == case_manifest.cases@.take(i as int),
        decreases case_manifest.cases@.len() - i,
    {
        let ghost before = refs@;
        refs.push(&case_manifest.cases[i]);
        assert(case_seq(refs@) =~= case_seq(before).push(case_manifest.cases@[i as int]));
        assert(case_manifest.cases@.take(i + 1) =~= case_manifest.cases@.take(i as int).push(case_manifest.cases@[i as int]));
        i = i + 1;
    }
    assert(case_manifest.cases@.take(i as int) =~= case_manifest.cases@);
    refs
}

/// References to the cases of several manifests, manifest after manifest.
pub fn manifest_case_refs<'a>(case_manifests: &[(&'a CaseManifest, &'a str)]) -> (refs: Vec<&'a CaseDefinition>)
    ensures
        case_seq(refs@) == manifests_cases(case_manifests@),
{
    let mut refs: Vec<&'a CaseDefinition> = Vec::new();
    let mut k: usize = 0;
    while k < case_manifests.len()
        invariant
            k <= case_manifests@.len(),
            case_seq(refs@) == manifests_cases(case_manifests@.take(k as int)),
        decreases case_manifests@.len() - k,
    {
        let manifest: &'a CaseManifest = case_manifests[k].0;
        let ghost start = refs@;
        let mut i: usize = 0;
        while i < manifest.cases.len()
            invariant
                i <= manifest.cases@.len(),
                case_seq(refs@) == case_seq(start) + manifest.cases@.take(i as int),
            decreases manifest.cases@.len() - i,
        {
            let ghost before = refs@;
            refs.push(&manifest.cases[i]);
            assert(case_seq(refs@) =~= case_seq(before).push(manifest.cases@[i as int]));
            assert(manifest.cases@.take(i + 1) =~= manifest.cases@.take(i as int).push(manifest.cases@[i as int]));
            i = i + 1;
        }
        proof {
            assert(manifest.cases@.take(i as int) =~= manifest.cases@);
            let next = case_manifests@.take(k + 1);
            assert(next.drop_last() =~= case_manifests@.take(k as int));
            assert(next.last() == case_manifests@[k as int]);
            assert(case_seq(refs@) =~= manifests_cases(next));
        }
        k = k + 1;
    }
    assert(case_manifests@.take(k as int) =~= case_manifests@);
    refs
}

/// The plan of one case manifest, after checking that it and the capability
/// manifest (where one is given) declare the baseline's protocol version.
pub fn build_execution_plan(
    protocol_manifest: &ProtocolManifest,
    case_manifest: &CaseManifest,
    capability_manifest: Option<&CapabilityManifest>,
    case_manifest_path: &str,
    capability_manifest_path: Option<&str>,
) -> (result: Result<ConformanceReport, FixtureError>)
    ensures
        match alignment_mismatch(*protocol_manifest, *case_manifest, capability_manifest,
            case_manifest_path@, opt_path(capability_manifest_path)) {
            Some((expected, actual, path)) => result matches Err(e) && e.is_version_mismatch(expected, actual, path),
            None => result matches Ok(report) && plans_cases(report, *protocol_manifest, case_manifest.cases@,
                capability_manifest),
        },
{
    match validate_protocol_alignment(
        protocol_manifest,
        case_manifest,
        capability_manifest,
        case_manifest_path,
        capability_manifest_path,
    ) {
        Err(e) => {
            return Err(e);
        },
        Ok(()) => {},
    }
    let cases = case_refs(case_manifest);
    Ok(build_execution_plan_from_cases(protocol_manifest, &cases, capability_manifest))
}

/// Checks the alignment of every case manifest in turn and stops at the
/// first mismatch.
fn validate_manifests_alignment(
    protocol_manifest: &ProtocolManifest,
    case_manifests: &[(&CaseManifest, &str)],
    capability_manifest: Option<&CapabilityManifest>,
    capability_manifest_path: Option<&str>,
) -> (result: Result<(), FixtureError>)
    ensures
        match first_alignment_mismatch(*protocol_manifest, case_manifests@, capability_manifest,
            opt_path(capability_manifest_path), 0) {
            Some((expected, actual, path)) => result matches Err(e) && e.is_version_mismatch(expected, actual, path),
            None => result is Ok,
        },
{
    let ghost cp = opt_path(capability_manifest_path);
    let mut k: usize = 0;
    while k < case_manifests.len()
        invariant
            k <= case_manifests@.len(),
            cp == opt_path(capability_manifest_path),
            first_alignment_mismatch(*protocol_manifest, case_manifests@, capability_manifest, cp, 0)
                == first_alignment_mismatch(*protocol_manifest, case_manifests@, capability_manifest, cp, k as int),
        decreases case_manifests@.len() - k,
    {
        let (case_manifest, case_manifest_path) = case_manifests[k];
        assert(case_manifests@[k as int] == (case_manifest, case_manifest_path));
        assert(first_alignment_mismatch(*protocol_manifest, case_manifests@, capability_manifest, cp, k as int)
            == {
            let mismatch = alignment_mismatch(*protocol_manifest, *case_manifest, capability_manifest,
                case_manifest_path@, cp);
            if mismatch is Some {
                mismatch
            } else {
                first_alignment_mismatch(*protocol_manifest, case_manifests@, capability_manifest, cp, k + 1)
            }
        });
        match validate_protocol_alignment(
            protocol_manifest,
            case_manifest,
            capability_manifest,
            case_manifest_path,
            capability_manifest_path,
        ) {
            Err(e) => {
                return Err(e);
            },
            Ok(()) => {},
        }
        k = k + 1;
    }
    Ok(())
}

/// The plan of several case manifests taken together, after checking each
/// one's alignment and that the capability manifest declares no token that
/// none of their cases requires.
pub fn build_execution_plan_for_manifests(
    protocol_manifest: &ProtocolManifest,
    case_manifests: &[(&CaseManifest, &str)],
    capability_manifest: Option<&CapabilityManifest>,
    capability_manifest_path: Option<&str>,
) -> (result: Result<ConformanceReport, FixtureError>)
    ensures
        match first_alignment_mismatch(*protocol_manifest, case_manifests@, capability_manifest,
            opt_path(capability_manifest_path), 0) {
            Some((expected, actual, path)) => result matches Err(e) && e.is_version_mismatch(expected, actual, path),
            None => {
                let all = manifests_cases(case_manifests@);
                match capability_manifest {
                    Some(m) if unknown_capabilities(m.supports@, all).len() > 0 => result matches Err(e)
                        && e.is_validation(unknown_capabilities_message(m.implementation_name@,
                        unknown_capabilities(m.supports@, all))),
                    _ => result matches Ok(report) && plans_cases(report, *protocol_manifest, all, capability_manifest),
                }
            },
        },
{
    match validate_manifests_alignment(protocol_manifest, case_manifests, capability_manifest, capability_manifest_path) {
        Err(e) => {
            return Err(e);
        },
        Ok(()) => {},
    }
    let cases = manifest_case_refs(case_manifests);
    match validate_declared_capabilities(capability_manifest, &cases) {
        Err(e) => {
            return Err(e);
        },
        Ok(()) => {},
    }
    Ok(build_execution_plan_from_cases(protocol_manifest, &cases, capability_manifest))
}

/// The adapter plan of a set of cases: the cases the declared capabilities
/// select, with their fields, in order.
pub fn build_adapter_execution_plan_from_cases(
    protocol_manifest: &ProtocolManifest,
    cases: &Vec<&CaseDefinition>,
    capability_manifest: &CapabilityManifest,
    artifacts: AdapterArtifactContext,
) -> (plan: AdapterExecutionPlan)
    ensures
        plans_adapter_cases(plan, *protocol_manifest, case_seq(cases@), *capability_manifest, artifacts),
{
    let ghost all = case_seq(cases@);
    let ghost declared = capability_manifest.supports@;
    let mut chosen: Vec<AdapterExecutionCase> = Vec::new();
    let mut i: usize = 0;
    while i < cases.len()
        invariant
            i <= cases@.len(),
            all == case_seq(cases@),
            all.len() == cases@.len(),
            declared == capability_manifest.supports@,
            chosen@.len() == selected_cases(all.take(i as int), declared).len(),
            forall|j: int| 0 <= j < chosen@.len() ==> adapter_case_of(#[trigger] chosen@[j],
                selected_cases(all.take(i as int), declared)[j]),
        decreases cases@.len() - i,
    {
        let case: &CaseDefinition = cases[i];
        assert(*case == all[i as int]);
        let ghost prior = all.take(i as int);
        proof {
            let next = all.take(i + 1);
            assert(next.drop_last() =~= prior);
            assert(next.last() == *case);
        }
        if select_case(case, &capability_manifest.supports) == CaseSelection::Selected {
            let required_capabilities = case.required_capabilities.clone();
            assert(required_capabilities@ =~= case.required_capabilities@);
            let line = AdapterExecutionCase {
                id: case.id.clone(),
                layer: case.layer,
                status: case.status,
                feature: case.feature.clone(),
                required_capabilities,
                description: case.description.clone(),
                parameters: copy_members(&case.parameters),
            };
            chosen.push(line);
        }
        i = i + 1;
    }
    assert(all.take(i as int) =~= all);
    proof {
        reveal_strlit("https://github.com/NagareWorks/nnrp-conformance/schemas/adapter-execution-plan.schema.json");
    }
    AdapterExecutionPlan {
        schema: Some("https://github.com/NagareWorks/nnrp-conformance/schemas/adapter-execution-plan.schema.json".to_owned()),
        protocol_version: protocol_manifest.protocol_version.clone(),
        suite_version: protocol_manifest.suite_version.clone(),
        implementation_name: capability_manifest.implementation_name.clone(),
        artifacts,
        cases: chosen,
    }
}

/// The adapter plan of one case manifest, after checking that it and the
/// capability manifest declare the baseline's protocol version.
pub fn build_adapter_execution_plan(
    protocol_manifest: &ProtocolManifest,
    case_manifest: &CaseManifest,
    capability_manifest: &CapabilityManifest,
    case_manifest_path: &str,
    capability_manifest_path: &str,
    artifacts: AdapterArtifactContext,
) -> (result: Result<AdapterExecutionPlan, FixtureError>)
    ensures
        match alignment_mismatch(*protocol_manifest, *case_manifest, Some(capability_manifest),
            case_manifest_path@, Some(capability_manifest_path@)) {
            Some((expected, actual, path)) => result matches Err(e) && e.is_version_mismatch(expected, actual, path),
            None => result matches Ok(plan) && plans_adapter_cases(plan, *protocol_manifest, case_manifest.cases@,
                *capability_manifest, artifacts),
        },
{
    match validate_protocol_alignment(
        protocol_manifest,
        case_manifest,
        Some(capability_manifest),
        case_manifest_path,
        Some(capability_manifest_path),
    ) {
        Err(e) => {
            return Err(e);
        },
        Ok(()) => {},
    }
    let cases = case_refs(case_manifest);
    Ok(build_adapter_execution_plan_from_cases(protocol_manifest, &cases, capability_manifest, artifacts))
}

/// The adapter plan of several case manifests taken together, after checking
/// each one's alignment and that the capability manifest declares no token
/// that none of their cases requires.
pub fn build_adapter_execution_plan_for_manifests(
    protocol_manifest: &ProtocolManifest,
    case_manifests: &[(&CaseManifest, &str)],
    capability_manifest: &CapabilityManifest,
    capability_manifest_path: &str,
    artifacts: AdapterArtifactContext,
) -> (result: Result<AdapterExecutionPlan, FixtureError>)
    ensures
        match first_alignment_mismatch(*protocol_manifest, case_manifests@, Some(capability_manifest),
            Some(capability_manifest_path@), 0) {
            Some((expected, actual, path)) => result matches Err(e) && e.is_version_mismatch(expected, actual, path),
            None => {
                let all = manifests_cases(case_manifests@);
                let unknown = unknown_capabilities(capability_manifest.supports@, all);
                if unknown.len() > 0 {
                    result matches Err(e) && e.is_validation(
                        unknown_capabilities_message(capability_manifest.implementation_name@, unknown),
                    )
                } else {
                    result matches Ok(plan) && plans_adapter_cases(plan, *protocol_manifest, all,
                        *capability_manifest, artifacts)
                }
            },
        },
{
    match validate_manifests_alignment(
        protocol_manifest,
        case_manifests,
        Some(capability_manifest),
        Some(capability_manifest_path),
    ) {
        Err(e) => {
            return Err(e);
        },
        Ok(()) => {},
    }
    let cases = manifest_case_refs(case_manifests);
    match validate_declared_capabilities(Some(capability_manifest), &cases) {
        Err(e) => {
            return Err(e);
        },
        Ok(()) => {},
    }
    Ok(build_adapter_execution_plan_from_cases(protocol_manifest, &cases, capability_manifest, artifacts))
}

} // verus!
