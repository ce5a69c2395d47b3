use vstd::prelude::*;

use crate::fixtures::{
    WireConformanceCaseResult, WireConformanceExecutionPlan, WireConformanceScenario, WireHostRouteCandidateEvidence,
    WireHostRouteProviderCapability, WireHostRouteRejectionReason,
};
use crate::wire_evidence::{
    candidate_identities, candidate_problem, candidate_reasons, candidates_problem, evidence_problem, first_inactive,
    first_unbound, reason_count, route_evidence_problem, route_identities, selected_count, selected_identities,
    session_problem, sessions_problem,
};
use crate::wire_plan::provider_for;

verus! {

/// How many items of a list meet a condition.
pub open spec fn count_where<A>(s: Seq<A>, p: spec_fn(A) -> bool) -> nat
    decreases s.len(),
{
    if s.len() == 0 {
        0
    } else {
        count_where(s.drop_last(), p) + if p(s.last()) {
            1nat
        } else {
            0nat
        }
    }
}

proof fn lemma_count_where_remove<A>(s: Seq<A>, p: spec_fn(A) -> bool, j: int)
    requires
        0 <= j < s.len(),
    ensures
        count_where(s, p) == count_where(s.remove(j), p) + if p(s[j]) {
            1nat
        } else {
            0nat
        },
    decreases s.len(),
{
    if j == s.len() - 1 {
        assert(s.remove(j) =~= s.drop_last());
    } else {
        assert(s.remove(j).drop_last() =~= s.drop_last().remove(j));
        assert(s.remove(j).last() == s.last());
        lemma_count_where_remove(s.drop_last(), p, j);
    }
}

/// Counting is blind to order: two lists with the same items, each as often,
/// have as many items that meet any condition.
pub proof fn lemma_count_where_permutation<A>(s: Seq<A>, t: Seq<A>, p: spec_fn(A) -> bool)
    requires
        s.to_multiset() == t.to_multiset(),
    ensures
        count_where(s, p) == count_where(t, p),
    decreases s.len(),
{
    broadcast use vstd::seq_lib::group_to_multiset_ensures;
    broadcast use vstd::multiset::group_multiset_axioms;

    if s.len() == 0 {
        assert(t.to_multiset().len() == 0);
    } else {
        let x = s.last();
        let rest = s.drop_last();
        assert(rest.push(x) =~= s);
        assert(s.to_multiset() =~= rest.to_multiset().insert(x));
        assert(t.to_multiset().count(x) > 0);
        assert(t.contains(x));
        let j = choose|j: int| 0 <= j < t.len() && t[j] == x;
        assert(t.remove(j).to_multiset() =~= t.to_multiset().remove(x));
        assert(rest.to_multiset().insert(x).remove(x) =~= rest.to_multiset());
        lemma_count_where_permutation(rest, t.remove(j), p);
        lemma_count_where_remove(t, p, j);
    }
}

/// Two lists with the same items, each as often, hold the same items.
pub proof fn lemma_permutation_contains<A>(s: Seq<A>, t: Seq<A>, x: A)
    requires
        s.to_multiset() == t.to_multiset(),
    ensures
        s.contains(x) <==> t.contains(x),
{
    broadcast use vstd::seq_lib::group_to_multiset_ensures;

    assert(s.contains(x) <==> s.to_multiset().count(x) > 0);
    assert(t.contains(x) <==> t.to_multiset().count(x) > 0);
}

proof fn lemma_selected_count_counts(c: Seq<WireHostRouteCandidateEvidence>)
    ensures
        selected_count(c) == count_where(c, |x: WireHostRouteCandidateEvidence| x.selected),
    decreases c.len(),
{
    if c.len() > 0 {
        lemma_selected_count_counts(c.drop_last());
    }
}

proof fn lemma_reason_count_counts(c: Seq<WireHostRouteCandidateEvidence>, r: WireHostRouteRejectionReason)
    ensures
        reason_count(candidate_reasons(c), r) == count_where(
            c,
            |x: WireHostRouteCandidateEvidence| x.rejection_reason == Some(r),
        ),
    decreases c.len(),
{
    if c.len() > 0 {
        lemma_reason_count_counts(c.drop_last(), r);
        let prior = candidate_reasons(c.drop_last());
        match c.last().rejection_reason {
            Some(q) => {
                assert(prior.push(q).drop_last() =~= prior);
            },
            None => {},
        }
    }
}

proof fn lemma_candidates_problem_exists(
    id: Seq<char>,
    providers: Seq<WireHostRouteProviderCapability>,
    c: Seq<WireHostRouteCandidateEvidence>,
)
    ensures
        candidates_problem(id, providers, c) is Some <==> exists|k: int|
            0 <= k < c.len() && candidate_problem(id, providers, #[trigger] c[k]) is Some,
    decreases c.len(),
{
    if c.len() > 0 {
        let rest = c.drop_last();
        lemma_candidates_problem_exists(id, providers, rest);
        if exists|k: int| 0 <= k < rest.len() && candidate_problem(id, providers, #[trigger] rest[k]) is Some {
            let k = choose|k: int| 0 <= k < rest.len() && candidate_problem(id, providers, #[trigger] rest[k]) is Some;
            assert(c[k] == rest[k]);
        }
        if exists|k: int| 0 <= k < c.len() && candidate_problem(id, providers, #[trigger] c[k]) is Some {
            let k = choose|k: int| 0 <= k < c.len() && candidate_problem(id, providers, #[trigger] c[k]) is Some;
            if k < c.len() - 1 {
                assert(rest[k] == c[k]);
            }
        }
    }
}

/// Whether some candidate meets a condition, told by the list's items.
proof fn lemma_some_candidate<A>(s: Seq<A>, t: Seq<A>, p: spec_fn(A) -> bool)
    requires
        s.to_multiset() == t.to_multiset(),
    ensures
        (exists|k: int| 0 <= k < s.len() && p(#[trigger] s[k])) <==> (exists|k: int| 0 <= k < t.len() && p(#[trigger] t[k])),
{
    if exists|k: int| 0 <= k < s.len() && p(#[trigger] s[k]) {
        let k = choose|k: int| 0 <= k < s.len() && p(#[trigger] s[k]);
        lemma_permutation_contains(s, t, s[k]);
        assert(s.contains(s[k]));
    }
    if exists|k: int| 0 <= k < t.len() && p(#[trigger] t[k]) {
        let k = choose|k: int| 0 <= k < t.len() && p(#[trigger] t[k]);
        lemma_permutation_contains(s, t, t[k]);
        assert(t.contains(t[k]));
    }
}

proof fn lemma_candidate_sets(c1: Seq<WireHostRouteCandidateEvidence>, c2: Seq<WireHostRouteCandidateEvidence>)
    requires
        c1.to_multiset() == c2.to_multiset(),
    ensures
        candidate_identities(c1).to_set() == candidate_identities(c2).to_set(),
        selected_identities(c1) == selected_identities(c2),
{
    let i1 = candidate_identities(c1);
    let i2 = candidate_identities(c2);
    assert forall|y: (crate::fixtures::WireConformanceTransport, Seq<char>, Seq<char>)| i1.to_set().contains(y)
        <==> i2.to_set().contains(y) by {
        let p = |x: WireHostRouteCandidateEvidence| (x.transport, x.provider_id@, x.requested_locator@) == y;
        lemma_some_candidate(c1, c2, p);
        if i1.contains(y) {
            let k = choose|k: int| 0 <= k < i1.len() && i1[k] == y;
            assert(p(c1[k]));
            let j = choose|j: int| 0 <= j < c2.len() && p(#[trigger] c2[j]);
            assert(i2[j] == y);
        }
        if i2.contains(y) {
            let k = choose|k: int| 0 <= k < i2.len() && i2[k] == y;
            assert(p(c2[k]));
            let j = choose|j: int| 0 <= j < c1.len() && p(#[trigger] c1[j]);
            assert(i1[j] == y);
        }
    }
    assert(i1.to_set() =~= i2.to_set());
    assert forall|y: (crate::fixtures::WireConformanceTransport, Seq<char>)| selected_identities(c1).contains(y)
        <==> selected_identities(c2).contains(y) by {
        let p = |x: WireHostRouteCandidateEvidence| x.selected && x.transport == y.0 && x.provider_id@ == y.1;
        lemma_some_candidate(c1, c2, p);
        if selected_identities(c1).contains(y) {
            let k = choose|k: int| 0 <= k < c1.len() && (#[trigger] c1[k]).selected && c1[k].transport == y.0
                && c1[k].provider_id@ == y.1;
            assert(p(c1[k]));
        }
        if selected_identities(c2).contains(y) {
            let k = choose|k: int| 0 <= k < c2.len() && (#[trigger] c2[k]).selected && c2[k].transport == y.0
                && c2[k].provider_id@ == y.1;
            assert(p(c2[k]));
        }
    }
    assert(selected_identities(c1) =~= selected_identities(c2));
}

/// The order in which a target lists its route candidates does not decide
/// the check of its evidence: results that differ only in that order (the
/// same candidates, each as often) are accepted or refused alike.
pub proof fn law_candidate_order_does_not_matter(
    plan: WireConformanceExecutionPlan,
    scenario: WireConformanceScenario,
    result: WireConformanceCaseResult,
    reordered: WireConformanceCaseResult,
)
    requires
        reordered.id@ == result.id@,
        reordered.route_evidence is Some <==> result.route_evidence is Some,
        result.route_evidence matches Some(e1) ==> (reordered.route_evidence matches Some(e2) && {
            &&& e2.application_endpoint@ == e1.application_endpoint@
            &&& e2.candidates@.to_multiset() == e1.candidates@.to_multiset()
            &&& e2.listeners@ == e1.listeners@
            &&& e2.accepted_sessions@ == e1.accepted_sessions@
            &&& e2.atomic_rollback == e1.atomic_rollback
            &&& e2.logical_set_closed == e1.logical_set_closed
            &&& crate::text::opt_view(e2.terminal_failure) == crate::text::opt_view(e1.terminal_failure)
        }),
    ensures
        route_evidence_problem(plan, scenario, result) is None <==> route_evidence_problem(plan, scenario, reordered)
            is None,
{
    match (result.route_evidence, reordered.route_evidence) {
        (Some(e1), Some(e2)) => {
            let c1 = e1.candidates@;
            let c2 = e2.candidates@;
            broadcast use vstd::seq_lib::group_to_multiset_ensures;
            assert(c1.len() == c1.to_multiset().len());
            assert(c2.len() == c2.to_multiset().len());
            lemma_candidate_sets(c1, c2);
            lemma_selected_count_counts(c1);
            lemma_selected_count_counts(c2);
            lemma_count_where_permutation(c1, c2, |x: WireHostRouteCandidateEvidence| x.selected);
            assert forall|r: WireHostRouteRejectionReason| reason_count(candidate_reasons(c1), r) == reason_count(
                candidate_reasons(c2),
                r,
            ) by {
                lemma_reason_count_counts(c1, r);
                lemma_reason_count_counts(c2, r);
                lemma_count_where_permutation(
                    c1,
                    c2,
                    |x: WireHostRouteCandidateEvidence| x.rejection_reason == Some(r),
                );
            }
            lemma_candidates_problem_exists(result.id@, plan.host_route_providers@, c1);
            lemma_candidates_problem_exists(result.id@, plan.host_route_providers@, c2);
            lemma_some_candidate(
                c1,
                c2,
                |x: WireHostRouteCandidateEvidence| candidate_problem(result.id@, plan.host_route_providers@, x) is Some,
            );
            match scenario.expect.route {
                Some(expected) => match expected.selected_transport {
                    Some(t) => {
                        lemma_some_candidate(c1, c2, |x: WireHostRouteCandidateEvidence| x.selected && x.transport == t);
                    },
                    None => {},
                },
                None => {},
            }
        },
        _ => {},
    }
}

proof fn lemma_first_unbound(
    listeners: Seq<crate::fixtures::WireHostListenerEvidence>,
    expected: Seq<crate::fixtures::WireConformanceTransport>,
)
    requires
        first_unbound(listeners, expected) is None,
    ensures
        forall|j: int| 0 <= j < expected.len() ==> exists|k: int|
            0 <= k < listeners.len() && (#[trigger] listeners[k]).transport == #[trigger] expected[j]
                && listeners[k].bound_endpoint is Some,
    decreases expected.len(),
{
    if expected.len() > 0 {
        lemma_first_unbound(listeners, expected.drop_first());
        assert forall|j: int| 0 <= j < expected.len() implies exists|k: int|
            0 <= k < listeners.len() && (#[trigger] listeners[k]).transport == #[trigger] expected[j]
                && listeners[k].bound_endpoint is Some by {
            if j > 0 {
                assert(expected.drop_first()[j - 1] == expected[j]);
            }
        }
    }
}

proof fn lemma_first_inactive(
    sessions: Seq<crate::fixtures::WireHostAcceptedSessionEvidence>,
    expected: Seq<crate::fixtures::WireConformanceTransport>,
)
    requires
        first_inactive(sessions, expected) is None,
    ensures
        forall|j: int| 0 <= j < expected.len() ==> exists|k: int|
            0 <= k < sessions.len() && (#[trigger] sessions[k]).active_transport == #[trigger] expected[j],
    decreases expected.len(),
{
    if expected.len() > 0 {
        lemma_first_inactive(sessions, expected.drop_first());
        assert forall|j: int| 0 <= j < expected.len() implies exists|k: int|
            0 <= k < sessions.len() && (#[trigger] sessions[k]).active_transport == #[trigger] expected[j] by {
            if j > 0 {
                assert(expected.drop_first()[j - 1] == expected[j]);
            }
        }
    }
}

proof fn lemma_sessions(
    result_id: Seq<char>,
    routes: Seq<crate::fixtures::WireHostProviderRoute>,
    sessions: Seq<crate::fixtures::WireHostAcceptedSessionEvidence>,
)
    requires
        sessions_problem(result_id, routes, sessions) is None,
    ensures
        forall|k: int| 0 <= k < sessions.len() ==> session_problem(result_id, routes, #[trigger] sessions[k]) is None,
    decreases sessions.len(),
{
    if sessions.len() > 0 {
        lemma_sessions(result_id, routes, sessions.drop_last());
        assert forall|k: int| 0 <= k < sessions.len() implies session_problem(result_id, routes, #[trigger] sessions[k])
            is None by {
            if k < sessions.len() - 1 {
                assert(sessions.drop_last()[k] == sessions[k]);
            }
        }
    }
}

/// What accepted route evidence shows, against the suite-owned routes of
/// the fixture and the plan's providers: the fixture's application endpoint;
/// one candidate per route, with exactly the routes' identities; each
/// candidate from a provider the plan declares, never both selected and
/// rejected, a selected one resolved and security-satisfied, and one from an
/// uninstalled provider unselected and rejected as local-unavailable; at most
/// one selected carrier for a client; the expected selected count and
/// transport; the expected rejection reasons, each as often; listeners only
/// on the suite's routes, bound on every expected transport; accepted
/// sessions on the suite's routes, active on their own transport, on every
/// expected transport, and, for a client, exactly the selected carrier; and
/// the expected rollback, closure and terminal failure.
pub proof fn law_accepted_route_evidence(
    plan: WireConformanceExecutionPlan,
    result_id: Seq<char>,
    expected: crate::fixtures::WireHostRouteExpectation,
    evidence: crate::fixtures::WireHostRouteEvidence,
    fixture: crate::fixtures::WireHostRouteFixture,
)
    requires
        evidence_problem(plan, result_id, expected, evidence, fixture) is None,
    ensures
        ({
            let candidates = evidence.candidates@;
            let routes = fixture.routes@;
            let sessions = evidence.accepted_sessions@;
            let listeners = evidence.listeners@;
            &&& evidence.application_endpoint@ == fixture.application_endpoint@
            &&& candidates.len() == routes.len()
            &&& candidate_identities(candidates).to_set() == route_identities(routes).to_set()
            &&& forall|k: int| 0 <= k < candidates.len() ==> {
                let c = #[trigger] candidates[k];
                &&& provider_for(plan.host_route_providers@, c.transport, c.provider_id@) is Some
                &&& !(c.selected && c.rejection_reason is Some)
                &&& c.selected ==> c.locator_resolved && c.security_satisfied
                &&& !provider_for(plan.host_route_providers@, c.transport, c.provider_id@)->0.installed ==> (!c.selected
                    && c.rejection_reason == Some(WireHostRouteRejectionReason::LocalUnavailable))
            }
            &&& fixture.role == crate::fixtures::WireHostRole::Client ==> selected_count(candidates) <= 1
            &&& expected.selected_count matches Some(n) ==> selected_count(candidates) == n
            &&& expected.selected_transport matches Some(t) ==> exists|k: int|
                0 <= k < candidates.len() && (#[trigger] candidates[k]).selected && candidates[k].transport == t
            &&& forall|r: WireHostRouteRejectionReason| reason_count(candidate_reasons(candidates), r) == reason_count(
                expected.rejection_reasons@,
                r,
            )
            &&& forall|k: int| 0 <= k < listeners.len() ==> exists|q: int|
                0 <= q < routes.len() && (#[trigger] routes[q]).transport == (#[trigger] listeners[k]).transport
                    && routes[q].provider_id@ == listeners[k].provider_id@ && routes[q].locator@
                    == listeners[k].requested_locator@
            &&& forall|j: int| 0 <= j < expected.bound_transports@.len() ==> exists|k: int|
                0 <= k < listeners.len() && (#[trigger] listeners[k]).transport == #[trigger] expected.bound_transports@[j]
                    && listeners[k].bound_endpoint is Some
            &&& forall|k: int| 0 <= k < sessions.len() ==> {
                let s = #[trigger] sessions[k];
                &&& s.transport == s.active_transport
                &&& exists|q: int| 0 <= q < routes.len() && (#[trigger] routes[q]).transport == s.transport
                    && routes[q].provider_id@ == s.provider_id@
            }
            &&& forall|j: int| 0 <= j < expected.accepted_transports@.len() ==> exists|k: int|
                0 <= k < sessions.len() && (#[trigger] sessions[k]).active_transport
                    == #[trigger] expected.accepted_transports@[j]
            &&& fixture.role == crate::fixtures::WireHostRole::Client ==> crate::wire_evidence::session_identities(
                sessions,
            ).to_set() == selected_identities(candidates)
            &&& expected.atomic_rollback matches Some(v) ==> v == evidence.atomic_rollback
            &&& expected.logical_set_closed matches Some(v) ==> v == evidence.logical_set_closed
            &&& expected.terminal_failure is Some ==> crate::text::opt_view(expected.terminal_failure)
                == crate::text::opt_view(evidence.terminal_failure)
        }),
{
    let candidates = evidence.candidates@;
    lemma_candidates_problem_exists(result_id, plan.host_route_providers@, candidates);
    assert forall|k: int| 0 <= k < candidates.len() implies candidate_problem(
        result_id,
        plan.host_route_providers@,
        #[trigger] candidates[k],
    ) is None by {}
    lemma_first_unbound(evidence.listeners@, expected.bound_transports@);
    lemma_first_inactive(evidence.accepted_sessions@, expected.accepted_transports@);
    lemma_sessions(result_id, fixture.routes@, evidence.accepted_sessions@);
}

} // verus!
