use vstd::prelude::*;

use crate::fixtures::{
    CapabilityManifest, CaseDefinition, CaseStatus, CompatibilityMatrixEntry, ConformanceReport,
    ProtocolManifest, ReportCase, ReportStatusSummary, ReportSummary,
};
use crate::sorted_text::{
    TextOrder, compare_text, insert_sorted_text, lemma_text_lt_transitive, lemma_text_total,
    strictly_sorted, text_lt, texts,
};

verus! {

/// How a case takes part in a plan.
#[derive(Debug, Clone, Copy, PartialEq, Eq, Structural)]
pub enum CaseSelection {
    Selected,
    NotClaimed,
    Informational,
}

impl CaseSelection {
    /// The name a report gives this selection.
    pub open spec fn text(self) -> Seq<char> {
        match self {
            CaseSelection::Selected => "selected"@,
            CaseSelection::NotClaimed => "not_claimed"@,
            CaseSelection::Informational => "informational"@,
        }
    }

    pub fn as_str(self) -> (name: &'static str)
        ensures
            name@ == self.text(),
    {
        match self {
            CaseSelection::Selected => {
                proof { reveal_strlit("selected"); }
                "selected"
            },
            CaseSelection::NotClaimed => {
                proof { reveal_strlit("not_claimed"); }
                "not_claimed"
            },
            CaseSelection::Informational => {
                proof { reveal_strlit("informational"); }
                "informational"
            },
        }
    }
}

/// Whether a list of strings holds `item`'s text.
pub fn contains_text(list: &Vec<String>, item: &String) -> (found: bool)
    ensures
        found == texts(list@).contains(item@),
{
    let mut i: usize = 0;
    while i < list.len()
        invariant
            i <= list@.len(),
            forall|k: int| 0 <= k < i ==> list@[k]@ != item@,
        decreases list@.len() - i,
    {
        if list[i] == *item {
            assert(texts(list@)[i as int] == item@);
            return true;
        }
        i = i + 1;
    }
    proof {
        if texts(list@).contains(item@) {
            let k = choose|k: int| 0 <= k < texts(list@).len() && texts(list@)[k] == item@;
            assert(list@[k]@ == item@);
        }
    }
    false
}

/// Every required capability is among the declared ones.
pub open spec fn claims_all(required: Seq<String>, declared: Seq<String>) -> bool {
    forall|i: int| 0 <= i < required.len() ==> texts(declared).contains(#[trigger] required[i]@)
}

pub fn claims_all_exec(required: &Vec<String>, declared: &Vec<String>) -> (claimed: bool)
    ensures
        claimed == claims_all(required@, declared@),
{
    let mut i: usize = 0;
    while i < required.len()
        invariant
            i <= required@.len(),
            forall|k: int| 0 <= k < i ==> texts(declared@).contains(#[trigger] required@[k]@),
        decreases required@.len() - i,
    {
        if !contains_text(declared, &required[i]) {
            return false;
        }
        i = i + 1;
    }
    true
}

/// Mandatory and optional cases are selected when every capability they
/// require is declared, and not claimed otherwise; experimental and
/// deprecated cases are informational.
pub open spec fn case_selection(case: CaseDefinition, declared: Seq<String>) -> CaseSelection {
    match case.status {
        CaseStatus::Mandatory | CaseStatus::Optional => if claims_all(case.required_capabilities@, declared) {
            CaseSelection::Selected
        } else {
            CaseSelection::NotClaimed
        },
        CaseStatus::Experimental | CaseStatus::Deprecated => CaseSelection::Informational,
    }
}

pub fn select_case(case: &CaseDefinition, declared_capabilities: &Vec<String>) -> (selection: CaseSelection)
    ensures
        selection == case_selection(*case, declared_capabilities@),
{
    let capabilities_satisfied = claims_all_exec(&case.required_capabilities, declared_capabilities);
    match case.status {
        CaseStatus::Mandatory | CaseStatus::Optional => if capabilities_satisfied {
            CaseSelection::Selected
        } else {
            CaseSelection::NotClaimed
        },
        CaseStatus::Experimental | CaseStatus::Deprecated => CaseSelection::Informational,
    }
}

/// How many of the cases, restricted to one feature where given, have the
/// selection `selection`.
pub open spec fn count_selection(
    cases: Seq<CaseDefinition>,
    declared: Seq<String>,
    feature: Option<Seq<char>>,
    selection: CaseSelection,
) -> nat
    decreases cases.len(),
{
    if cases.len() == 0 {
        0
    } else {
        count_selection(cases.drop_last(), declared, feature, selection) + if (match feature {
            Some(f) => cases.last().feature@ == f,
            None => true,
        }) && case_selection(cases.last(), declared) == selection {
            1nat
        } else {
            0nat
        }
    }
}

/// How many cases of a feature have the status `status`.
pub open spec fn count_status(cases: Seq<CaseDefinition>, feature: Seq<char>, status: CaseStatus) -> nat
    decreases cases.len(),
{
    if cases.len() == 0 {
        0
    } else {
        count_status(cases.drop_last(), feature, status) + if cases.last().feature@ == feature
            && cases.last().status == status {
            1nat
        } else {
            0nat
        }
    }
}

proof fn lemma_count_selection_bounded(
    cases: Seq<CaseDefinition>,
    declared: Seq<String>,
    feature: Option<Seq<char>>,
    selection: CaseSelection,
)
    ensures
        count_selection(cases, declared, feature, selection) <= cases.len(),
    decreases cases.len(),
{
    if cases.len() > 0 {
        lemma_count_selection_bounded(cases.drop_last(), declared, feature, selection);
    }
}

proof fn lemma_count_status_bounded(cases: Seq<CaseDefinition>, feature: Seq<char>, status: CaseStatus)
    ensures
        count_status(cases, feature, status) <= cases.len(),
    decreases cases.len(),
{
    if cases.len() > 0 {
        lemma_count_status_bounded(cases.drop_last(), feature, status);
    }
}

/// Some case has this feature.
pub open spec fn has_feature(cases: Seq<CaseDefinition>, feature: Seq<char>) -> bool {
    exists|k: int| 0 <= k < cases.len() && (#[trigger] cases[k]).feature@ == feature
}

/// Some case of this feature has this id.
pub open spec fn feature_has_id(cases: Seq<CaseDefinition>, feature: Seq<char>, id: Seq<char>) -> bool {
    exists|k: int| 0 <= k < cases.len() && (#[trigger] cases[k]).feature@ == feature && cases[k].id@ == id
}

/// Some case of this feature requires this capability.
pub open spec fn feature_has_capability(cases: Seq<CaseDefinition>, feature: Seq<char>, capability: Seq<char>) -> bool {
    exists|k: int, m: int|
        0 <= k < cases.len() && (#[trigger] cases[k]).feature@ == feature && 0 <= m < cases[k].required_capabilities@.len()
            && (#[trigger] cases[k].required_capabilities@[m])@ == capability
}

/// A compatibility matrix entry that sums up exactly the cases of its feature.
pub open spec fn entry_matches(entry: CompatibilityMatrixEntry, cases: Seq<CaseDefinition>, declared: Seq<String>) -> bool {
    let f = entry.feature@;
    &&& strictly_sorted(texts(entry.required_capabilities@))
    &&& forall|t: Seq<char>| texts(entry.required_capabilities@).contains(t) <==> feature_has_capability(cases, f, t)
    &&& strictly_sorted(texts(entry.case_ids@))
    &&& forall|t: Seq<char>| texts(entry.case_ids@).contains(t) <==> feature_has_id(cases, f, t)
    &&& entry.summary.selected_cases == count_selection(cases, declared, Some(f), CaseSelection::Selected)
    &&& entry.summary.not_claimed_cases == count_selection(cases, declared, Some(f), CaseSelection::NotClaimed)
    &&& entry.summary.informational_cases == count_selection(cases, declared, Some(f), CaseSelection::Informational)
    &&& entry.statuses.mandatory_cases == count_status(cases, f, CaseStatus::Mandatory)
    &&& entry.statuses.optional_cases == count_status(cases, f, CaseStatus::Optional)
    &&& entry.statuses.experimental_cases == count_status(cases, f, CaseStatus::Experimental)
    &&& entry.statuses.deprecated_cases == count_status(cases, f, CaseStatus::Deprecated)
}

/// The features of a compatibility matrix, in entry order.
pub open spec fn matrix_features(matrix: Seq<CompatibilityMatrixEntry>) -> Seq<Seq<char>> {
    matrix.map_values(|e: CompatibilityMatrixEntry| e.feature@)
}

/// One entry per feature of the cases, in feature order, each summing up its
/// feature's cases.
pub open spec fn matrix_matches(matrix: Seq<CompatibilityMatrixEntry>, cases: Seq<CaseDefinition>, declared: Seq<String>) -> bool {
    &&& strictly_sorted(matrix_features(matrix))
    &&& forall|f: Seq<char>| matrix_features(matrix).contains(f) <==> has_feature(cases, f)
    &&& forall|j: int| 0 <= j < matrix.len() ==> entry_matches(#[trigger] matrix[j], cases, declared)
}

/// The report line of one case.
pub open spec fn report_case_matches(line: ReportCase, case: CaseDefinition, declared: Seq<String>) -> bool {
    &&& line.id@ == case.id@
    &&& line.feature matches Some(f) && f@ == case.feature@
    &&& line.status == Some(case.status)
    &&& line.selection@ == case_selection(case, declared).text()
}

/// The capabilities a capability manifest declares; none without one.
pub open spec fn declared_of(capability_manifest: Option<&CapabilityManifest>) -> Seq<String> {
    match capability_manifest {
        Some(m) => m.supports@,
        None => Seq::empty(),
    }
}

proof fn lemma_push_unfolds(prior: Seq<CaseDefinition>, case: CaseDefinition)
    ensures
        prior.push(case).drop_last() == prior,
        prior.push(case).last() == case,
{
    assert(prior.push(case).drop_last() =~= prior);
}

proof fn lemma_step_sets(prior: Seq<CaseDefinition>, case: CaseDefinition)
    ensures
        forall|f: Seq<char>| #[trigger] has_feature(prior.push(case), f) <==> (has_feature(prior, f) || f == case.feature@),
        forall|f: Seq<char>, t: Seq<char>| #[trigger] feature_has_id(prior.push(case), f, t) <==> (feature_has_id(prior, f, t) || (
            f == case.feature@ && t == case.id@)),
        forall|f: Seq<char>, t: Seq<char>| #[trigger] feature_has_capability(prior.push(case), f, t) <==> (
            feature_has_capability(prior, f, t) || (f == case.feature@ && texts(case.required_capabilities@).contains(t))),
{
    let all = prior.push(case);
    let n = prior.len() as int;
    assert forall|f: Seq<char>| #[trigger] has_feature(all, f) <==> (has_feature(prior, f) || f == case.feature@) by {
        if has_feature(all, f) {
            let k = choose|k: int| 0 <= k < all.len() && (#[trigger] all[k]).feature@ == f;
            if k < n {
                assert(prior[k] == all[k]);
            }
        }
        if has_feature(prior, f) {
            let k = choose|k: int| 0 <= k < prior.len() && (#[trigger] prior[k]).feature@ == f;
            assert(all[k] == prior[k]);
        }
        if f == case.feature@ {
            assert(all[n] == case);
        }
    }
    assert forall|f: Seq<char>, t: Seq<char>| #[trigger] feature_has_id(all, f, t) <==> (feature_has_id(prior, f, t) || (
        f == case.feature@ && t == case.id@)) by {
        if feature_has_id(all, f, t) {
            let k = choose|k: int| 0 <= k < all.len() && (#[trigger] all[k]).feature@ == f && all[k].id@ == t;
            if k < n {
                assert(prior[k] == all[k]);
            }
        }
        if feature_has_id(prior, f, t) {
            let k = choose|k: int| 0 <= k < prior.len() && (#[trigger] prior[k]).feature@ == f && prior[k].id@ == t;
            assert(all[k] == prior[k]);
        }
        if f == case.feature@ && t == case.id@ {
            assert(all[n] == case);
        }
    }
    assert forall|f: Seq<char>, t: Seq<char>| #[trigger] feature_has_capability(all, f, t) <==> (
        feature_has_capability(prior, f, t) || (f == case.feature@ && texts(case.required_capabilities@).contains(t))) by {
        if feature_has_capability(all, f, t) {
            let (k, m) = choose|k: int, m: int|
                0 <= k < all.len() && (#[trigger] all[k]).feature@ == f && 0 <= m < all[k].required_capabilities@.len()
                    && (#[trigger] all[k].required_capabilities@[m])@ == t;
            if k < n {
                assert(prior[k] == all[k]);
                assert(prior[k].required_capabilities@[m]@ == t);
            } else {
                assert(texts(case.required_capabilities@)[m] == t);
            }
        }
        if feature_has_capability(prior, f, t) {
            let (k, m) = choose|k: int, m: int|
                0 <= k < prior.len() && (#[trigger] prior[k]).feature@ == f && 0 <= m < prior[k].required_capabilities@.len()
                    && (#[trigger] prior[k].required_capabilities@[m])@ == t;
            assert(all[k] == prior[k]);
            assert(all[k].required_capabilities@[m]@ == t);
        }
        if f == case.feature@ && texts(case.required_capabilities@).contains(t) {
            let m = choose|m: int| 0 <= m < texts(case.required_capabilities@).len() && texts(case.required_capabilities@)[m] == t;
            assert(all[n] == case);
            assert(all[n].required_capabilities@[m]@ == t);
        }
    }
}

proof fn lemma_absent_feature_rest(cases: Seq<CaseDefinition>, feature: Seq<char>)
    requires
        cases.len() > 0,
        !has_feature(cases, feature),
    ensures
        !has_feature(cases.drop_last(), feature),
        cases.last().feature@ != feature,
{
    let rest = cases.drop_last();
    if has_feature(rest, feature) {
        let k = choose|k: int| 0 <= k < rest.len() && (#[trigger] rest[k]).feature@ == feature;
        assert(cases[k] == rest[k]);
    }
    assert(cases[cases.len() - 1] == cases.last());
}

proof fn lemma_count_selection_absent(cases: Seq<CaseDefinition>, declared: Seq<String>, feature: Seq<char>, selection: CaseSelection)
    requires
        !has_feature(cases, feature),
    ensures
        count_selection(cases, declared, Some(feature), selection) == 0,
    decreases cases.len(),
{
    if cases.len() > 0 {
        lemma_absent_feature_rest(cases, feature);
        lemma_count_selection_absent(cases.drop_last(), declared, feature, selection);
    }
}

proof fn lemma_count_status_absent(cases: Seq<CaseDefinition>, feature: Seq<char>, status: CaseStatus)
    requires
        !has_feature(cases, feature),
    ensures
        count_status(cases, feature, status) == 0,
    decreases cases.len(),
{
    if cases.len() > 0 {
        lemma_absent_feature_rest(cases, feature);
        lemma_count_status_absent(cases.drop_last(), feature, status);
    }
}

/// An entry that no case has contributed to yet.
fn empty_entry(feature: String) -> (entry: CompatibilityMatrixEntry)
    ensures
        entry.feature == feature,
        entry.required_capabilities@.len() == 0,
        entry.case_ids@.len() == 0,
        entry.summary == (ReportSummary { selected_cases: 0, not_claimed_cases: 0, informational_cases: 0 }),
        entry.statuses == (ReportStatusSummary { mandatory_cases: 0, optional_cases: 0, experimental_cases: 0, deprecated_cases: 0 }),
{
    CompatibilityMatrixEntry {
        feature,
        required_capabilities: Vec::new(),
        summary: ReportSummary { selected_cases: 0, not_claimed_cases: 0, informational_cases: 0 },
        statuses: ReportStatusSummary { mandatory_cases: 0, optional_cases: 0, experimental_cases: 0, deprecated_cases: 0 },
        case_ids: Vec::new(),
    }
}

proof fn lemma_empty_entry_matches(entry: CompatibilityMatrixEntry, cases: Seq<CaseDefinition>, declared: Seq<String>)
    requires
        !has_feature(cases, entry.feature@),
        entry.required_capabilities@.len() == 0,
        entry.case_ids@.len() == 0,
        entry.summary == (ReportSummary { selected_cases: 0, not_claimed_cases: 0, informational_cases: 0 }),
        entry.statuses == (ReportStatusSummary { mandatory_cases: 0, optional_cases: 0, experimental_cases: 0, deprecated_cases: 0 }),
    ensures
        entry_matches(entry, cases, declared),
{
    let f = entry.feature@;
    lemma_count_selection_absent(cases, declared, f, CaseSelection::Selected);
    lemma_count_selection_absent(cases, declared, f, CaseSelection::NotClaimed);
    lemma_count_selection_absent(cases, declared, f, CaseSelection::Informational);
    lemma_count_status_absent(cases, f, CaseStatus::Mandatory);
    lemma_count_status_absent(cases, f, CaseStatus::Optional);
    lemma_count_status_absent(cases, f, CaseStatus::Experimental);
    lemma_count_status_absent(cases, f, CaseStatus::Deprecated);
    assert(count_selection(cases, declared, Some(f), CaseSelection::Selected) == 0);
    assert(count_selection(cases, declared, Some(f), CaseSelection::NotClaimed) == 0);
    assert(count_selection(cases, declared, Some(f), CaseSelection::Informational) == 0);
    assert(count_status(cases, f, CaseStatus::Mandatory) == 0);
    assert(count_status(cases, f, CaseStatus::Optional) == 0);
    assert(count_status(cases, f, CaseStatus::Experimental) == 0);
    assert(count_status(cases, f, CaseStatus::Deprecated) == 0);
    assert forall|t: Seq<char>| texts(entry.required_capabilities@).contains(t) <==> feature_has_capability(cases, f, t) by {
        if feature_has_capability(cases, f, t) {
            let (k, m) = choose|k: int, m: int|
                0 <= k < cases.len() && (#[trigger] cases[k]).feature@ == f && 0 <= m < cases[k].required_capabilities@.len()
                    && (#[trigger] cases[k].required_capabilities@[m])@ == t;
            assert(has_feature(cases, f));
        }
    }
    assert forall|t: Seq<char>| texts(entry.case_ids@).contains(t) <==> feature_has_id(cases, f, t) by {
        if feature_has_id(cases, f, t) {
            let k = choose|k: int| 0 <= k < cases.len() && (#[trigger] cases[k]).feature@ == f && cases[k].id@ == t;
            assert(has_feature(cases, f));
        }
    }
}

/// An entry of another feature still matches once a case is added.
proof fn lemma_entry_unaffected(entry: CompatibilityMatrixEntry, prior: Seq<CaseDefinition>, case: CaseDefinition, declared: Seq<String>)
    requires
        entry_matches(entry, prior, declared),
        entry.feature@ != case.feature@,
    ensures
        entry_matches(entry, prior.push(case), declared),
{
    lemma_push_unfolds(prior, case);
    lemma_step_sets(prior, case);
    let f = entry.feature@;
    let all = prior.push(case);
    assert(count_selection(all, declared, Some(f), CaseSelection::Selected) == count_selection(prior, declared, Some(f), CaseSelection::Selected));
    assert(count_selection(all, declared, Some(f), CaseSelection::NotClaimed) == count_selection(prior, declared, Some(f), CaseSelection::NotClaimed));
    assert(count_selection(all, declared, Some(f), CaseSelection::Informational) == count_selection(prior, declared, Some(f), CaseSelection::Informational));
    assert(count_status(all, f, CaseStatus::Mandatory) == count_status(prior, f, CaseStatus::Mandatory));
    assert(count_status(all, f, CaseStatus::Optional) == count_status(prior, f, CaseStatus::Optional));
    assert(count_status(all, f, CaseStatus::Experimental) == count_status(prior, f, CaseStatus::Experimental));
    assert(count_status(all, f, CaseStatus::Deprecated) == count_status(prior, f, CaseStatus::Deprecated));
}

proof fn lemma_counts_step(prior: Seq<CaseDefinition>, case: CaseDefinition, declared: Seq<String>, f: Option<Seq<char>>, selection: CaseSelection)
    ensures
        count_selection(prior.push(case), declared, f, selection) == count_selection(prior, declared, f, selection)
            + if (match f { Some(g) => case.feature@ == g, None => true }) && case_selection(case, declared) == selection { 1nat } else { 0nat },
{
    lemma_push_unfolds(prior, case);
}

proof fn lemma_status_step(prior: Seq<CaseDefinition>, case: CaseDefinition, f: Seq<char>, status: CaseStatus)
    ensures
        count_status(prior.push(case), f, status) == count_status(prior, f, status)
            + if case.feature@ == f && case.status == status { 1nat } else { 0nat },
{
    lemma_push_unfolds(prior, case);
}

/// Adds one case to the entry of its feature.
fn record_case(
    entry: &mut CompatibilityMatrixEntry,
    case: &CaseDefinition,
    selection: CaseSelection,
    Ghost(prior): Ghost<Seq<CaseDefinition>>,
    Ghost(declared): Ghost<Seq<String>>,
)
    requires
        entry_matches(*old(entry), prior, declared),
        old(entry).feature@ == case.feature@,
        selection == case_selection(*case, declared),
        prior.len() < usize::MAX,
    ensures
        entry_matches(*final(entry), prior.push(*case), declared),
        final(entry).feature == old(entry).feature,
{
    let ghost all = prior.push(*case);
    let ghost f = case.feature@;
    proof {
        lemma_push_unfolds(prior, *case);
        lemma_step_sets(prior, *case);
        lemma_count_selection_bounded(all, declared, Some(f), selection);
        lemma_count_status_bounded(all, f, case.status);
    }
    let mut m: usize = 0;
    while m < case.required_capabilities.len()
        invariant
            m <= case.required_capabilities@.len(),
            entry.feature@ == f,
            entry.feature == old(entry).feature,
            strictly_sorted(texts(entry.required_capabilities@)),
            forall|t: Seq<char>| texts(entry.required_capabilities@).contains(t) <==> (feature_has_capability(prior, f, t)
                || texts(case.required_capabilities@.take(m as int)).contains(t)),
            entry.case_ids == old(entry).case_ids,
            entry.summary == old(entry).summary,
            entry.statuses == old(entry).statuses,
        decreases case.required_capabilities@.len() - m,
    {
        let capability = case.required_capabilities[m].clone();
        let ghost before = texts(entry.required_capabilities@);
        let ghost was = texts(case.required_capabilities@.take(m as int));
        assert(forall|t: Seq<char>| before.contains(t) <==> (feature_has_capability(prior, f, t) || was.contains(t)));
        insert_sorted_text(&mut entry.required_capabilities, capability);
        proof {
            let now = texts(case.required_capabilities@.take(m + 1));
            assert(now =~= was.push(case.required_capabilities@[m as int]@));
            assert forall|t: Seq<char>| now.contains(t) <==> (was.contains(t) || t == case.required_capabilities@[m as int]@) by {
                if now.contains(t) {
                    let k = choose|k: int| 0 <= k < now.len() && now[k] == t;
                    if k < m {
                        assert(was[k] == t);
                    }
                }
                if was.contains(t) {
                    let k = choose|k: int| 0 <= k < was.len() && was[k] == t;
                    assert(now[k] == t);
                }
                if t == case.required_capabilities@[m as int]@ {
                    assert(now[m as int] == t);
                }
            }
            assert forall|t: Seq<char>| texts(entry.required_capabilities@).contains(t) <==> (feature_has_capability(prior, f, t)
                || now.contains(t)) by {
                assert(texts(entry.required_capabilities@).contains(t) <==> (before.contains(t) || t == case.required_capabilities@[m as int]@));
            }
        }
        m = m + 1;
    }
    assert(case.required_capabilities@.take(m as int) =~= case.required_capabilities@);
    insert_sorted_text(&mut entry.case_ids, case.id.clone());
    match selection {
        CaseSelection::Selected => entry.summary.selected_cases = entry.summary.selected_cases + 1,
        CaseSelection::NotClaimed => entry.summary.not_claimed_cases = entry.summary.not_claimed_cases + 1,
        CaseSelection::Informational => entry.summary.informational_cases = entry.summary.informational_cases + 1,
    }
    match case.status {
        CaseStatus::Mandatory => entry.statuses.mandatory_cases = entry.statuses.mandatory_cases + 1,
        CaseStatus::Optional => entry.statuses.optional_cases = entry.statuses.optional_cases + 1,
        CaseStatus::Experimental => entry.statuses.experimental_cases = entry.statuses.experimental_cases + 1,
        CaseStatus::Deprecated => entry.statuses.deprecated_cases = entry.statuses.deprecated_cases + 1,
    }
    proof {
        lemma_counts_step(prior, *case, declared, Some(f), CaseSelection::Selected);
        lemma_counts_step(prior, *case, declared, Some(f), CaseSelection::NotClaimed);
        lemma_counts_step(prior, *case, declared, Some(f), CaseSelection::Informational);
        lemma_status_step(prior, *case, f, CaseStatus::Mandatory);
        lemma_status_step(prior, *case, f, CaseStatus::Optional);
        lemma_status_step(prior, *case, f, CaseStatus::Experimental);
        lemma_status_step(prior, *case, f, CaseStatus::Deprecated);
        assert forall|t: Seq<char>| texts(entry.case_ids@).contains(t) <==> feature_has_id(all, f, t) by {
            assert(feature_has_id(all, f, t) <==> (feature_has_id(prior, f, t) || t == case.id@));
        }
        assert forall|t: Seq<char>| texts(entry.required_capabilities@).contains(t) <==> feature_has_capability(all, f, t) by {
            assert(feature_has_capability(all, f, t) <==> (feature_has_capability(prior, f, t) || texts(case.required_capabilities@).contains(t)));
        }
    }
}

/// Finds the entry of a feature in a matrix sorted by feature, or the place
/// where it belongs.
fn find_feature(matrix: &Vec<CompatibilityMatrixEntry>, feature: &String) -> (found: (bool, usize))
    requires
        strictly_sorted(matrix_features(matrix@)),
    ensures
        found.1 <= matrix@.len(),
        found.0 ==> found.1 < matrix@.len() && matrix@[found.1 as int].feature@ == feature@,
        !found.0 ==> !matrix_features(matrix@).contains(feature@)
            && (forall|k: int| 0 <= k < found.1 ==> text_lt(#[trigger] matrix_features(matrix@)[k], feature@))
            && (forall|k: int| found.1 <= k < matrix@.len() ==> text_lt(feature@, #[trigger] matrix_features(matrix@)[k])),
{
    let ghost features = matrix_features(matrix@);
    let mut p: usize = 0;
    while p < matrix.len()
        invariant
            p <= matrix@.len(),
            features == matrix_features(matrix@),
            strictly_sorted(features),
            forall|k: int| 0 <= k < p ==> text_lt(#[trigger] features[k], feature@),
        decreases matrix@.len() - p,
    {
        match compare_text(matrix[p].feature.as_str(), feature.as_str()) {
            TextOrder::Less => {
                p = p + 1;
            },
            TextOrder::Equal => {
                return (true, p);
            },
            TextOrder::Greater => {
                proof {
                    assert forall|k: int| p <= k < matrix@.len() implies text_lt(feature@, #[trigger] features[k]) by {
                        if k > p {
                            lemma_text_lt_transitive(feature@, features[p as int], features[k]);
                        }
                    }
                    assert forall|k: int| 0 <= k < features.len() implies #[trigger] features[k] != feature@ by {
                        lemma_text_total(features[k], feature@);
                    }
                }
                return (false, p);
            },
        }
    }
    proof {
        assert forall|k: int| 0 <= k < features.len() implies #[trigger] features[k] != feature@ by {
            lemma_text_total(features[k], feature@);
        }
    }
    (false, p)
}

proof fn lemma_distinct_features(matrix: Seq<CompatibilityMatrixEntry>, i: int, j: int)
    requires
        strictly_sorted(matrix_features(matrix)),
        0 <= i < matrix.len(),
        0 <= j < matrix.len(),
        i != j,
    ensures
        matrix[i].feature@ != matrix[j].feature@,
{
    let fs = matrix_features(matrix);
    assert(fs[i] == matrix[i].feature@);
    assert(fs[j] == matrix[j].feature@);
    if i < j {
        lemma_text_total(fs[i], fs[j]);
    } else {
        lemma_text_total(fs[j], fs[i]);
    }
}

proof fn lemma_matrix_update_found(
    old_matrix: Seq<CompatibilityMatrixEntry>,
    p: int,
    entry: CompatibilityMatrixEntry,
    prior: Seq<CaseDefinition>,
    case: CaseDefinition,
    declared: Seq<String>,
)
    requires
        matrix_matches(old_matrix, prior, declared),
        0 <= p < old_matrix.len(),
        old_matrix[p].feature@ == case.feature@,
        entry.feature == old_matrix[p].feature,
        entry_matches(entry, prior.push(case), declared),
    ensures
        matrix_matches(old_matrix.update(p, entry), prior.push(case), declared),
{
    let new_matrix = old_matrix.update(p, entry);
    lemma_step_sets(prior, case);
    assert(matrix_features(new_matrix) =~= matrix_features(old_matrix));
    assert(matrix_features(old_matrix)[p] == case.feature@);
    assert forall|j: int| 0 <= j < new_matrix.len() implies entry_matches(#[trigger] new_matrix[j], prior.push(case), declared) by {
        if j != p {
            lemma_distinct_features(old_matrix, j, p);
            assert(entry_matches(old_matrix[j], prior, declared));
            lemma_entry_unaffected(old_matrix[j], prior, case, declared);
        }
    }
}

proof fn lemma_matrix_update_inserted(
    old_matrix: Seq<CompatibilityMatrixEntry>,
    p: int,
    entry: CompatibilityMatrixEntry,
    prior: Seq<CaseDefinition>,
    case: CaseDefinition,
    declared: Seq<String>,
)
    requires
        matrix_matches(old_matrix, prior, declared),
        0 <= p <= old_matrix.len(),
        !matrix_features(old_matrix).contains(case.feature@),
        forall|k: int| 0 <= k < p ==> text_lt(#[trigger] matrix_features(old_matrix)[k], case.feature@),
        forall|k: int| p <= k < old_matrix.len() ==> text_lt(case.feature@, #[trigger] matrix_features(old_matrix)[k]),
        entry.feature@ == case.feature@,
        entry_matches(entry, prior.push(case), declared),
    ensures
        matrix_matches(old_matrix.insert(p, entry), prior.push(case), declared),
{
    let new_matrix = old_matrix.insert(p, entry);
    let old_fs = matrix_features(old_matrix);
    let new_fs = matrix_features(new_matrix);
    lemma_step_sets(prior, case);
    assert(new_fs =~= old_fs.insert(p, case.feature@));
    assert forall|i: int, j: int| 0 <= i < j < new_fs.len() implies text_lt(#[trigger] new_fs[i], #[trigger] new_fs[j]) by {
        if j < p {
            assert(new_fs[i] == old_fs[i] && new_fs[j] == old_fs[j]);
        } else if j == p {
            assert(new_fs[i] == old_fs[i]);
        } else if i < p {
            assert(new_fs[i] == old_fs[i] && new_fs[j] == old_fs[j - 1]);
            lemma_text_lt_transitive(old_fs[i], case.feature@, old_fs[j - 1]);
        } else if i == p {
            assert(new_fs[j] == old_fs[j - 1]);
        } else {
            assert(new_fs[i] == old_fs[i - 1] && new_fs[j] == old_fs[j - 1]);
        }
    }
    assert forall|f: Seq<char>| new_fs.contains(f) <==> has_feature(prior.push(case), f) by {
        if new_fs.contains(f) {
            let k = choose|k: int| 0 <= k < new_fs.len() && new_fs[k] == f;
            if k < p {
                assert(old_fs[k] == f);
            } else if k > p {
                assert(old_fs[k - 1] == f);
            }
        }
        if old_fs.contains(f) {
            let k = choose|k: int| 0 <= k < old_fs.len() && old_fs[k] == f;
            if k < p {
                assert(new_fs[k] == f);
            } else {
                assert(new_fs[k + 1] == f);
            }
        }
        if f == case.feature@ {
            assert(new_fs[p] == f);
        }
    }
    assert forall|j: int| 0 <= j < new_matrix.len() implies entry_matches(#[trigger] new_matrix[j], prior.push(case), declared) by {
        if j != p {
            let k = if j < p { j } else { j - 1 };
            assert(new_matrix[j] == old_matrix[k]);
            assert(entry_matches(old_matrix[k], prior, declared));
            assert(old_fs[k] == old_matrix[k].feature@);
            lemma_entry_unaffected(old_matrix[k], prior, case, declared);
        }
    }
}

/// The cases behind a list of references.
pub open spec fn case_seq(cases: Seq<&CaseDefinition>) -> Seq<CaseDefinition> {
    cases.map_values(|c: &CaseDefinition| *c)
}

/// The plan report of a list of cases against the capabilities a manifest
/// declares: the implementation's name ("unclaimed" without a manifest), each
/// case's line in order, the totals per selection, and the compatibility
/// matrix.
pub open spec fn plans_cases(
    report: ConformanceReport,
    protocol_manifest: ProtocolManifest,
    cases: Seq<CaseDefinition>,
    capability_manifest: Option<&CapabilityManifest>,
) -> bool {
    let declared = declared_of(capability_manifest);
    &&& report.protocol_version@ == protocol_manifest.protocol_version@
    &&& report.implementation_name@ == (match capability_manifest {
        Some(m) => m.implementation_name@,
        None => "unclaimed"@,
    })
    &&& report.summary.selected_cases == count_selection(cases, declared, None, CaseSelection::Selected)
    &&& report.summary.not_claimed_cases == count_selection(cases, declared, None, CaseSelection::NotClaimed)
    &&& report.summary.informational_cases == count_selection(cases, declared, None, CaseSelection::Informational)
    &&& matrix_matches(report.compatibility_matrix@, cases, declared)
    &&& report.cases@.len() == cases.len()
    &&& forall|i: int| 0 <= i < cases.len() ==> report_case_matches(#[trigger] report.cases@[i], cases[i], declared)
}

/// The compatibility matrix of a list of cases against declared
/// capabilities: one entry per feature, in feature order, each summing up
/// its feature's cases.
pub fn build_compatibility_matrix(cases: &Vec<&CaseDefinition>, declared: &Vec<String>) -> (matrix: Vec<
    CompatibilityMatrixEntry,
>)
    ensures
        matrix_matches(matrix@, case_seq(cases@), declared@),
{
    let ghost all = case_seq(cases@);
    let ghost d = declared@;
    let mut matrix: Vec<CompatibilityMatrixEntry> = Vec::new();
    let mut i: usize = 0;
    proof {
        assert(all.take(0) =~= Seq::<CaseDefinition>::empty());
        assert(matrix_features(matrix@) =~= Seq::<Seq<char>>::empty());
    }
    while i < cases.len()
        invariant
            i <= all.len(),
            declared@ == d,
            matrix_matches(matrix@, all.take(i as int), d),
            all == case_seq(cases@),
            all.len() == cases@.len(),
        decreases all.len() - i,
    {
        let case: &CaseDefinition = cases[i];
        assert(*case == all[i as int]);
        let ghost prior = all.take(i as int);
        proof {
            assert(all.take(i + 1) =~= prior.push(*case));
        }
        let selection = select_case(case, declared);
        let (found, p) = find_feature(&matrix, &case.feature);
        let ghost old_matrix = matrix@;
        if found {
            let mut entry = matrix.remove(p);
            assert(entry_matches(entry, prior, d));
            record_case(&mut entry, case, selection, Ghost(prior), Ghost(d));
            matrix.insert(p, entry);
            proof {
                assert(matrix@ =~= old_matrix.update(p as int, entry));
                lemma_matrix_update_found(old_matrix, p as int, entry, prior, *case, d);
            }
        } else {
            let mut entry = empty_entry(case.feature.clone());
            proof {
                assert(!has_feature(prior, case.feature@));
                lemma_empty_entry_matches(entry, prior, d);
            }
            record_case(&mut entry, case, selection, Ghost(prior), Ghost(d));
            matrix.insert(p, entry);
            proof {
                lemma_matrix_update_inserted(old_matrix, p as int, entry, prior, *case, d);
            }
        }
        i = i + 1;
    }
    assert(all.take(i as int) =~= all);
    matrix
}

/// Plans a set of cases against the capabilities a manifest declares (none
/// without one): each case's selection, the totals, and one compatibility
/// entry per feature in feature order.
pub fn build_execution_plan_from_cases(
    protocol_manifest: &ProtocolManifest,
    cases: &Vec<&CaseDefinition>,
    capability_manifest: Option<&CapabilityManifest>,
) -> (report: ConformanceReport)
    ensures
        plans_cases(report, *protocol_manifest, case_seq(cases@), capability_manifest),
{
    let no_capabilities: Vec<String> = Vec::new();
    let declared: &Vec<String> = match capability_manifest {
        Some(m) => &m.supports,
        None => &no_capabilities,
    };
    let implementation_name = match capability_manifest {
        Some(m) => m.implementation_name.clone(),
        None => {
            proof { reveal_strlit("unclaimed"); }
            "unclaimed".to_owned()
        },
    };
    let ghost all = case_seq(cases@);
    let ghost d = declared@;
    assert(d == declared_of(capability_manifest));
    let mut selected_cases: usize = 0;
    let mut not_claimed_cases: usize = 0;
    let mut informational_cases: usize = 0;
    let mut report_cases: Vec<ReportCase> = Vec::new();
    let mut i: usize = 0;
    proof {
        assert(all.take(0) =~= Seq::<CaseDefinition>::empty());
    }
    while i < cases.len()
        invariant
            i <= all.len(),
            declared@ == d,
            selected_cases == count_selection(all.take(i as int), d, None, CaseSelection::Selected),
            not_claimed_cases == count_selection(all.take(i as int), d, None, CaseSelection::NotClaimed),
            informational_cases == count_selection(all.take(i as int), d, None, CaseSelection::Informational),
            report_cases@.len() == i,
            forall|k: int| 0 <= k < i ==> report_case_matches(#[trigger] report_cases@[k], all[k], d),
            all == case_seq(cases@),
            all.len() == cases@.len(),
        decreases all.len() - i,
    {
        let case: &CaseDefinition = cases[i];
        assert(*case == all[i as int]);
        let ghost prior = all.take(i as int);
        proof {
            assert(all.take(i + 1) =~= prior.push(*case));
            lemma_counts_step(prior, *case, d, None, CaseSelection::Selected);
            lemma_counts_step(prior, *case, d, None, CaseSelection::NotClaimed);
            lemma_counts_step(prior, *case, d, None, CaseSelection::Informational);
            lemma_count_selection_bounded(prior.push(*case), d, None, CaseSelection::Selected);
            lemma_count_selection_bounded(prior.push(*case), d, None, CaseSelection::NotClaimed);
            lemma_count_selection_bounded(prior.push(*case), d, None, CaseSelection::Informational);
        }
        let selection = select_case(case, declared);
        match selection {
            CaseSelection::Selected => selected_cases = selected_cases + 1,
            CaseSelection::NotClaimed => not_claimed_cases = not_claimed_cases + 1,
            CaseSelection::Informational => informational_cases = informational_cases + 1,
        }
        let line = ReportCase {
            id: case.id.clone(),
            feature: Some(case.feature.clone()),
            status: Some(case.status),
            selection: selection.as_str().to_owned(),
        };
        report_cases.push(line);
        i = i + 1;
    }
    assert(all.take(i as int) =~= all);
    let matrix = build_compatibility_matrix(cases, declared);
    ConformanceReport {
        protocol_version: protocol_manifest.protocol_version.clone(),
        implementation_name,
        summary: ReportSummary { selected_cases, not_claimed_cases, informational_cases },
        compatibility_matrix: matrix,
        cases: report_cases,
    }
}

} // verus!
