use vstd::prelude::*;

use crate::fixtures::{CapabilityManifest, CaseDefinition, CaseStatus, FixtureError};
use crate::plan::{case_seq, contains_text};
use crate::sorted_text::{insert_sorted_text, strictly_sorted, texts};
use crate::text::{join_strings, join_texts, push_text};

verus! {

/// Some case requires this capability.
pub open spec fn some_case_requires(cases: Seq<CaseDefinition>, capability: Seq<char>) -> bool {
    exists|k: int, m: int|
        0 <= k < cases.len() && 0 <= m < (#[trigger] cases[k]).required_capabilities@.len()
            && (#[trigger] cases[k].required_capabilities@[m])@ == capability
}

/// Some mandatory or optional case requires this capability.
pub open spec fn claimable_case_requires(cases: Seq<CaseDefinition>, capability: Seq<char>) -> bool {
    exists|k: int, m: int|
        0 <= k < cases.len() && ((#[trigger] cases[k]).status == CaseStatus::Mandatory || cases[k].status
            == CaseStatus::Optional) && 0 <= m < cases[k].required_capabilities@.len()
            && (#[trigger] cases[k].required_capabilities@[m])@ == capability
}

/// The declared capabilities that no case requires, in declaration order.
pub open spec fn unknown_capabilities(supports: Seq<String>, cases: Seq<CaseDefinition>) -> Seq<Seq<char>>
    decreases supports.len(),
{
    if supports.len() == 0 {
        Seq::empty()
    } else if some_case_requires(cases, supports.last()@) {
        unknown_capabilities(supports.drop_last(), cases)
    } else {
        unknown_capabilities(supports.drop_last(), cases).push(supports.last()@)
    }
}

/// The message that names unknown capability tokens.
pub open spec fn unknown_capabilities_message(implementation_name: Seq<char>, unknown: Seq<Seq<char>>) -> Seq<char> {
    "capability manifest "@ + implementation_name + " declares unknown capability token(s): "@ + join_texts(unknown, ", "@)
}

/// The message that names capability tokens missing from a manifest.
pub open spec fn missing_capabilities_message(implementation_name: Seq<char>, missing: Seq<Seq<char>>) -> Seq<char> {
    "capability manifest "@ + implementation_name
        + " does not cover the complete adapter case scope; missing capability token(s): "@ + join_texts(missing, ", "@)
}

/// The texts of a list that are not among the declared ones, in list order.
pub open spec fn without_declared(list: Seq<Seq<char>>, declared: Seq<Seq<char>>) -> Seq<Seq<char>>
    decreases list.len(),
{
    if list.len() == 0 {
        Seq::empty()
    } else if declared.contains(list.last()) {
        without_declared(list.drop_last(), declared)
    } else {
        without_declared(list.drop_last(), declared).push(list.last())
    }
}

proof fn lemma_without_declared(list: Seq<Seq<char>>, declared: Seq<Seq<char>>)
    ensures
        forall|t: Seq<char>| without_declared(list, declared).contains(t) <==> (list.contains(t) && !declared.contains(t)),
        strictly_sorted(list) ==> strictly_sorted(without_declared(list, declared)),
    decreases list.len(),
{
    if list.len() > 0 {
        let rest = list.drop_last();
        let r = without_declared(rest, declared);
        lemma_without_declared(rest, declared);
        assert(list =~= rest.push(list.last()));
        assert forall|t: Seq<char>| list.contains(t) <==> (rest.contains(t) || t == list.last()) by {
            if list.contains(t) {
                let x = choose|x: int| 0 <= x < list.len() && list[x] == t;
                if x < list.len() - 1 {
                    assert(rest[x] == t);
                }
            }
            if rest.contains(t) {
                let x = choose|x: int| 0 <= x < rest.len() && rest[x] == t;
                assert(list[x] == t);
            }
        }
        if !declared.contains(list.last()) {
            let w = r.push(list.last());
            assert forall|t: Seq<char>| w.contains(t) <==> (r.contains(t) || t == list.last()) by {
                if w.contains(t) {
                    let x = choose|x: int| 0 <= x < w.len() && w[x] == t;
                    if x < r.len() {
                        assert(r[x] == t);
                    }
                }
                if r.contains(t) {
                    let x = choose|x: int| 0 <= x < r.len() && r[x] == t;
                    assert(w[x] == t);
                }
                if t == list.last() {
                    assert(w[r.len() as int] == t);
                }
            }
            if strictly_sorted(list) {
                assert(strictly_sorted(rest));
                assert forall|a: int, b: int| 0 <= a < b < w.len() implies crate::sorted_text::text_lt(#[trigger] w[a], #[trigger] w[b]) by {
                    if b == w.len() - 1 {
                        assert(r.contains(w[a]));
                        assert(rest.contains(w[a]));
                        let x = choose|x: int| 0 <= x < rest.len() && rest[x] == w[a];
                        assert(list[x] == w[a]);
                    }
                }
            }
        }
    }
}

fn case_requires(cases: &Vec<&CaseDefinition>, capability: &String) -> (required: bool)
    ensures
        required == some_case_requires(case_seq(cases@), capability@),
{
    let ghost all = case_seq(cases@);
    let mut k: usize = 0;
    while k < cases.len()
        invariant
            k <= cases@.len(),
            all == case_seq(cases@),
            forall|j: int, m: int|
                0 <= j < k && 0 <= m < (#[trigger] all[j]).required_capabilities@.len() ==> (#[trigger] all[j].required_capabilities@[m])@
                    != capability@,
        decreases cases@.len() - k,
    {
        let case: &CaseDefinition = cases[k];
        assert(*case == all[k as int]);
        if contains_text(&case.required_capabilities, capability) {
            proof {
                let m = choose|m: int| 0 <= m < texts(case.required_capabilities@).len() && texts(case.required_capabilities@)[m] == capability@;
                assert(all[k as int].required_capabilities@[m]@ == capability@);
            }
            return true;
        }
        proof {
            assert forall|m: int| 0 <= m < all[k as int].required_capabilities@.len() implies (#[trigger] all[k as int].required_capabilities@[m])@ != capability@ by {
                assert(texts(case.required_capabilities@)[m] == case.required_capabilities@[m]@);
            }
        }
        k = k + 1;
    }
    false
}

/// Checks that a capability manifest, where there is one, declares no token
/// that none of the cases requires.
pub fn validate_declared_capabilities(
    capability_manifest: Option<&CapabilityManifest>,
    cases: &Vec<&CaseDefinition>,
) -> (result: Result<(), FixtureError>)
    ensures
        match capability_manifest {
            None => result is Ok,
            Some(m) => {
                let unknown = unknown_capabilities(m.supports@, case_seq(cases@));
                if unknown.len() == 0 {
                    result is Ok
                } else {
                    result matches Err(e) && e.is_validation(unknown_capabilities_message(m.implementation_name@, unknown))
                }
            },
        },
{
    let manifest = match capability_manifest {
        None => {
            return Ok(());
        },
        Some(m) => m,
    };
    let ghost all = case_seq(cases@);
    let mut unknown: Vec<String> = Vec::new();
    let mut i: usize = 0;
    while i < manifest.supports.len()
        invariant
            i <= manifest.supports@.len(),
            all == case_seq(cases@),
            texts(unknown@) == unknown_capabilities(manifest.supports@.take(i as int), all),
        decreases manifest.supports@.len() - i,
    {
        let capability = &manifest.supports[i];
        proof {
            assert(manifest.supports@.take(i + 1).drop_last() =~= manifest.supports@.take(i as int));
        }
        if !case_requires(cases, capability) {
            let ghost before = unknown@;
            unknown.push(capability.clone());
            assert(texts(unknown@) =~= texts(before).push(capability@));
        }
        i = i + 1;
    }
    assert(manifest.supports@.take(i as int) =~= manifest.supports@);
    if unknown.len() == 0 {
        return Ok(());
    }
    let mut message = String::new();
    proof {
        reveal_strlit("capability manifest ");
        reveal_strlit(" declares unknown capability token(s): ");
        reveal_strlit(", ");
    }
    push_text(&mut message, "capability manifest ");
    push_text(&mut message, manifest.implementation_name.as_str());
    push_text(&mut message, " declares unknown capability token(s): ");
    let joined = join_strings(&unknown, ", ");
    push_text(&mut message, joined.as_str());
    Err(FixtureError::Validation { message })
}

/// Checks that a capability manifest declares every capability that some
/// mandatory or optional case requires. The error lists the missing tokens in
/// sorted order.
pub fn validate_complete_capability_coverage(
    capability_manifest: &CapabilityManifest,
    cases: &Vec<&CaseDefinition>,
) -> (result: Result<(), FixtureError>)
    ensures
        result is Ok <==> (forall|t: Seq<char>| claimable_case_requires(case_seq(cases@), t) ==> texts(capability_manifest.supports@).contains(t)),
        result matches Err(e) ==> exists|missing: Seq<Seq<char>>| {
            &&& strictly_sorted(missing)
            &&& forall|t: Seq<char>| missing.contains(t) <==> (claimable_case_requires(case_seq(cases@), t)
                && !texts(capability_manifest.supports@).contains(t))
            &&& e.is_validation(missing_capabilities_message(capability_manifest.implementation_name@, missing))
        },
{
    let ghost all = case_seq(cases@);
    let mut required: Vec<String> = Vec::new();
    let mut k: usize = 0;
    while k < cases.len()
        invariant
            k <= cases@.len(),
            all == case_seq(cases@),
            strictly_sorted(texts(required@)),
            forall|t: Seq<char>| texts(required@).contains(t) <==> claimable_case_requires(all.take(k as int), t),
        decreases cases@.len() - k,
    {
        let case: &CaseDefinition = cases[k];
        assert(*case == all[k as int]);
        let ghost prior = all.take(k as int);
        let ghost next = all.take(k + 1);
        proof {
            assert(next =~= prior.push(*case));
        }
        if case.status == CaseStatus::Mandatory || case.status == CaseStatus::Optional {
            let mut m: usize = 0;
            while m < case.required_capabilities.len()
                invariant
                    m <= case.required_capabilities@.len(),
                    case.status == CaseStatus::Mandatory || case.status == CaseStatus::Optional,
                    next == prior.push(*case),
                    strictly_sorted(texts(required@)),
                    forall|t: Seq<char>| texts(required@).contains(t) <==> (claimable_case_requires(prior, t)
                        || texts(case.required_capabilities@.take(m as int)).contains(t)),
                decreases case.required_capabilities@.len() - m,
            {
                let ghost before = texts(required@);
                let ghost was = texts(case.required_capabilities@.take(m as int));
                assert(forall|t: Seq<char>| before.contains(t) <==> (claimable_case_requires(prior, t) || was.contains(t)));
                let item = case.required_capabilities[m].clone();
                assert(item@ == case.required_capabilities@[m as int]@);
                insert_sorted_text(&mut required, item);
                proof {
                    assert(forall|t: Seq<char>| texts(required@).contains(t) <==> (before.contains(t) || t == item@));
                    let now = texts(case.required_capabilities@.take(m + 1));
                    assert(now =~= was.push(case.required_capabilities@[m as int]@));
                    assert forall|t: Seq<char>| texts(required@).contains(t) <==> (claimable_case_requires(prior, t) || now.contains(t)) by {
                        if now.contains(t) {
                            let j = choose|j: int| 0 <= j < now.len() && now[j] == t;
                            if j < m {
                                assert(was[j] == t);
                            }
                        }
                        if was.contains(t) {
                            let j = choose|j: int| 0 <= j < was.len() && was[j] == t;
                            assert(now[j] == t);
                        }
                        if t == case.required_capabilities@[m as int]@ {
                            assert(now[m as int] == t);
                        }
                    }
                }
                m = m + 1;
            }
            assert(case.required_capabilities@.take(m as int) =~= case.required_capabilities@);
        }
        proof {
            let n = prior.len() as int;
            assert forall|t: Seq<char>| texts(required@).contains(t) <==> claimable_case_requires(next, t) by {
                if claimable_case_requires(next, t) {
                    let (j, m) = choose|j: int, m: int|
                        0 <= j < next.len() && ((#[trigger] next[j]).status == CaseStatus::Mandatory || next[j].status
                            == CaseStatus::Optional) && 0 <= m < next[j].required_capabilities@.len()
                            && (#[trigger] next[j].required_capabilities@[m])@ == t;
                    if j < n {
                        assert(prior[j] == next[j]);
                        assert(prior[j].required_capabilities@[m]@ == t);
                    } else {
                        assert(texts(case.required_capabilities@)[m] == t);
                    }
                }
                if claimable_case_requires(prior, t) {
                    let (j, m) = choose|j: int, m: int|
                        0 <= j < prior.len() && ((#[trigger] prior[j]).status == CaseStatus::Mandatory || prior[j].status
                            == CaseStatus::Optional) && 0 <= m < prior[j].required_capabilities@.len()
                            && (#[trigger] prior[j].required_capabilities@[m])@ == t;
                    assert(next[j] == prior[j]);
                    assert(next[j].required_capabilities@[m]@ == t);
                }
                if (case.status == CaseStatus::Mandatory || case.status == CaseStatus::Optional) && texts(case.required_capabilities@).contains(t) {
                    let m = choose|m: int| 0 <= m < texts(case.required_capabilities@).len() && texts(case.required_capabilities@)[m] == t;
                    assert(next[n] == *case);
                    assert(next[n].required_capabilities@[m]@ == t);
                }
            }
        }
        k = k + 1;
    }
    assert(all.take(k as int) =~= all);
    let ghost declared = texts(capability_manifest.supports@);
    let ghost req = texts(required@);
    let mut missing: Vec<String> = Vec::new();
    let mut j: usize = 0;
    while j < required.len()
        invariant
            j <= required@.len(),
            req == texts(required@),
            declared == texts(capability_manifest.supports@),
            texts(missing@) == without_declared(req.take(j as int), declared),
        decreases required@.len() - j,
    {
        let ghost before = missing@;
        assert(req.take(j + 1).drop_last() =~= req.take(j as int));
        assert(req.take(j + 1).last() == req[j as int]);
        if !contains_text(&capability_manifest.supports, &required[j]) {
            missing.push(required[j].clone());
            assert(texts(missing@) =~= texts(before).push(req[j as int]));
        }
        j = j + 1;
    }
    assert(req.take(j as int) =~= req);
    proof {
        lemma_without_declared(req, declared);
        assert(all.take(k as int) == all);
    }
    if missing.len() == 0 {
        proof {
            assert forall|t: Seq<char>| claimable_case_requires(all, t) implies declared.contains(t) by {
                assert(texts(required@).contains(t));
                if !declared.contains(t) {
                    assert(texts(missing@).contains(t));
                }
            }
        }
        return Ok(());
    }
    proof {
        let t = texts(missing@)[0];
        assert(texts(missing@).contains(t));
        assert(without_declared(req, declared).contains(t));
        assert(req.contains(t) && !declared.contains(t));
        assert(texts(required@).contains(t));
        assert(claimable_case_requires(all.take(k as int), t));
        assert(claimable_case_requires(all, t) && !declared.contains(t));
        reveal_strlit("capability manifest ");
        reveal_strlit(" does not cover the complete adapter case scope; missing capability token(s): ");
    }
    let mut message = String::new();
    push_text(&mut message, "capability manifest ");
    push_text(&mut message, capability_manifest.implementation_name.as_str());
    push_text(&mut message, " does not cover the complete adapter case scope; missing capability token(s): ");
    let joined = join_strings(&missing, ", ");
    push_text(&mut message, joined.as_str());
    assert(texts(missing@) == missing@.map_values(|s: String| s@));
    let error = FixtureError::Validation { message };
    assert(strictly_sorted(texts(missing@)));
    assert forall|t: Seq<char>| texts(missing@).contains(t) <==> (claimable_case_requires(all, t) && !declared.contains(t)) by {
        assert(texts(required@).contains(t) <==> claimable_case_requires(all.take(k as int), t));
    }
    assert(error.is_validation(missing_capabilities_message(capability_manifest.implementation_name@, texts(missing@))));
    Err(error)
}

} // verus!
