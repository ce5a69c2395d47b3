use vstd::prelude::*;

use crate::fixtures::{
    FixtureError, WireConformanceCaseResult, WireConformanceExecutionPlan, WireConformanceScenario,
    WireConformanceTransport, WireHostAcceptedSessionEvidence, WireHostListenerEvidence, WireHostProviderRoute,
    WireHostRole, WireHostRouteCandidateEvidence, WireHostRouteEvidence, WireHostRouteExpectation,
    WireHostRouteFixture, WireHostRouteProviderCapability, WireHostRouteRejectionReason,
};
use crate::host_route::{push_transport_name, transport_name};
use crate::sorted_text::texts;
use crate::text::{decimal, join_strings, join_texts, opt_string_eq, opt_view, push_decimal, push_text};
use crate::wire_names::{push_rejection_reason_name, rejection_reason_name};
use crate::wire_plan::{find_provider, provider_for};

verus! {

/// The identity of a suite-owned route: transport, provider id, locator.
pub open spec fn route_identities(routes: Seq<WireHostProviderRoute>) -> Seq<(WireConformanceTransport, Seq<char>, Seq<char>)> {
    routes.map_values(|r: WireHostProviderRoute| (r.transport, r.provider_id@, r.locator@))
}

/// The identity a candidate reports: transport, provider id, locator.
pub open spec fn candidate_identities(
    candidates: Seq<WireHostRouteCandidateEvidence>,
) -> Seq<(WireConformanceTransport, Seq<char>, Seq<char>)> {
    candidates.map_values(|c: WireHostRouteCandidateEvidence| (c.transport, c.provider_id@, c.requested_locator@))
}

/// What is wrong with one candidate against the plan's providers.
pub open spec fn candidate_problem(
    result_id: Seq<char>,
    providers: Seq<WireHostRouteProviderCapability>,
    candidate: WireHostRouteCandidateEvidence,
) -> Option<Seq<char>> {
    let t = transport_name(candidate.transport);
    match provider_for(providers, candidate.transport, candidate.provider_id@) {
        None => Some("wire result "@ + result_id + " reports undeclared host-route provider "@ + candidate.provider_id@
            + " for "@ + t),
        Some(provider) => if candidate.selected && candidate.rejection_reason is Some {
            Some("wire result "@ + result_id + " marks selected "@ + t + " route as rejected"@)
        } else if !provider.installed && (candidate.selected || candidate.rejection_reason != Some(
            WireHostRouteRejectionReason::LocalUnavailable,
        )) {
            Some("wire result "@ + result_id + " must reject uninstalled provider "@ + candidate.provider_id@
                + " as local-unavailable"@)
        } else if candidate.selected && (!candidate.locator_resolved || !candidate.security_satisfied) {
            Some("wire result "@ + result_id + " selected an unresolved or security-incompatible "@ + t + " route"@)
        } else {
            None
        },
    }
}

/// The first candidate, in order, with a problem: its message.
pub open spec fn candidates_problem(
    result_id: Seq<char>,
    providers: Seq<WireHostRouteProviderCapability>,
    candidates: Seq<WireHostRouteCandidateEvidence>,
) -> Option<Seq<char>>
    decreases candidates.len(),
{
    if candidates.len() == 0 {
        None
    } else {
        let earlier = candidates_problem(result_id, providers, candidates.drop_last());
        if earlier is Some {
            earlier
        } else {
            candidate_problem(result_id, providers, candidates.last())
        }
    }
}

/// How many candidates were selected.
pub open spec fn selected_count(candidates: Seq<WireHostRouteCandidateEvidence>) -> nat
    decreases candidates.len(),
{
    if candidates.len() == 0 {
        0
    } else {
        selected_count(candidates.drop_last()) + if candidates.last().selected { 1nat } else { 0nat }
    }
}

/// The rejection reasons the candidates report, in order.
pub open spec fn candidate_reasons(candidates: Seq<WireHostRouteCandidateEvidence>) -> Seq<WireHostRouteRejectionReason>
    decreases candidates.len(),
{
    if candidates.len() == 0 {
        Seq::empty()
    } else {
        match candidates.last().rejection_reason {
            Some(r) => candidate_reasons(candidates.drop_last()).push(r),
            None => candidate_reasons(candidates.drop_last()),
        }
    }
}

/// How often a reason occurs in a list.
pub open spec fn reason_count(reasons: Seq<WireHostRouteRejectionReason>, reason: WireHostRouteRejectionReason) -> nat
    decreases reasons.len(),
{
    if reasons.len() == 0 {
        0
    } else {
        reason_count(reasons.drop_last(), reason) + if reasons.last() == reason { 1nat } else { 0nat }
    }
}

/// The rejection reasons in their declared order.
pub open spec fn reason_at(k: int) -> WireHostRouteRejectionReason {
    if k <= 0 {
        WireHostRouteRejectionReason::PolicyDisallowed
    } else if k == 1 {
        WireHostRouteRejectionReason::LocalUnavailable
    } else if k == 2 {
        WireHostRouteRejectionReason::PeerUnsupported
    } else if k == 3 {
        WireHostRouteRejectionReason::LimitExceeded
    } else if k == 4 {
        WireHostRouteRejectionReason::RouteUnresolved
    } else if k == 5 {
        WireHostRouteRejectionReason::SecurityUnsatisfied
    } else if k == 6 {
        WireHostRouteRejectionReason::ProbeMissing
    } else {
        WireHostRouteRejectionReason::ProbeFailed
    }
}

/// The `reason: count` entries of the reasons among the first `k` in
/// declared order that occur.
pub open spec fn reason_entries(reasons: Seq<WireHostRouteRejectionReason>, k: int) -> Seq<Seq<char>>
    decreases k,
{
    if k <= 0 {
        Seq::empty()
    } else {
        let r = reason_at(k - 1);
        let earlier = reason_entries(reasons, k - 1);
        if reason_count(reasons, r) > 0 {
            earlier.push(rejection_reason_name(r) + ": "@ + decimal(reason_count(reasons, r)))
        } else {
            earlier
        }
    }
}

/// Reason counts as a report prints them: `{Reason: n, ...}` in declared
/// order.
pub open spec fn reason_counts_text(reasons: Seq<WireHostRouteRejectionReason>) -> Seq<char> {
    "{"@ + join_texts(reason_entries(reasons, 8), ", "@) + "}"@
}

/// A listener on one of the suite-owned routes.
pub open spec fn listener_known(routes: Seq<WireHostProviderRoute>, listener: WireHostListenerEvidence) -> bool {
    exists|k: int|
        0 <= k < routes.len() && (#[trigger] routes[k]).transport == listener.transport && routes[k].provider_id@
            == listener.provider_id@ && routes[k].locator@ == listener.requested_locator@
}

/// A transport some listener is bound on.
pub open spec fn bound_on(listeners: Seq<WireHostListenerEvidence>, transport: WireConformanceTransport) -> bool {
    exists|k: int| 0 <= k < listeners.len() && (#[trigger] listeners[k]).transport == transport && listeners[k].bound_endpoint is Some
}

/// The first expected bound transport, in order, no listener is bound on.
pub open spec fn first_unbound(listeners: Seq<WireHostListenerEvidence>, expected: Seq<WireConformanceTransport>) -> Option<WireConformanceTransport>
    decreases expected.len(),
{
    if expected.len() == 0 {
        None
    } else if !bound_on(listeners, expected[0]) {
        Some(expected[0])
    } else {
        first_unbound(listeners, expected.drop_first())
    }
}

/// A session accepted on one of the suite-owned routes.
pub open spec fn session_known(routes: Seq<WireHostProviderRoute>, session: WireHostAcceptedSessionEvidence) -> bool {
    exists|k: int|
        0 <= k < routes.len() && (#[trigger] routes[k]).transport == session.transport && routes[k].provider_id@
            == session.provider_id@
}

/// What is wrong with one accepted session.
pub open spec fn session_problem(
    result_id: Seq<char>,
    routes: Seq<WireHostProviderRoute>,
    session: WireHostAcceptedSessionEvidence,
) -> Option<Seq<char>> {
    if session.transport != session.active_transport {
        Some("wire result "@ + result_id + " accepted a "@ + transport_name(session.transport)
            + " listener but reports "@ + transport_name(session.active_transport) + " as active"@)
    } else if !session_known(routes, session) {
        Some("wire result "@ + result_id + " reports an accepted session outside the suite-owned route set"@)
    } else {
        None
    }
}

/// The first accepted session, in order, with a problem: its message.
pub open spec fn sessions_problem(
    result_id: Seq<char>,
    routes: Seq<WireHostProviderRoute>,
    sessions: Seq<WireHostAcceptedSessionEvidence>,
) -> Option<Seq<char>>
    decreases sessions.len(),
{
    if sessions.len() == 0 {
        None
    } else {
        let earlier = sessions_problem(result_id, routes, sessions.drop_last());
        if earlier is Some {
            earlier
        } else {
            session_problem(result_id, routes, sessions.last())
        }
    }
}

/// The transport and provider id of each accepted session.
pub open spec fn session_identities(sessions: Seq<WireHostAcceptedSessionEvidence>) -> Seq<(WireConformanceTransport, Seq<char>)> {
    sessions.map_values(|s: WireHostAcceptedSessionEvidence| (s.transport, s.provider_id@))
}

/// The transport and provider id of each selected candidate.
pub open spec fn selected_identities(candidates: Seq<WireHostRouteCandidateEvidence>) -> Set<(WireConformanceTransport, Seq<char>)> {
    Set::new(
        |id: (WireConformanceTransport, Seq<char>)|
            exists|k: int|
                0 <= k < candidates.len() && (#[trigger] candidates[k]).selected && candidates[k].transport == id.0
                    && candidates[k].provider_id@ == id.1,
    )
}

/// A transport some accepted session is active on.
pub open spec fn active_on(sessions: Seq<WireHostAcceptedSessionEvidence>, transport: WireConformanceTransport) -> bool {
    exists|k: int| 0 <= k < sessions.len() && (#[trigger] sessions[k]).active_transport == transport
}

/// The first expected accepted transport, in order, no session is active on.
pub open spec fn first_inactive(sessions: Seq<WireHostAcceptedSessionEvidence>, expected: Seq<WireConformanceTransport>) -> Option<WireConformanceTransport>
    decreases expected.len(),
{
    if expected.len() == 0 {
        None
    } else if !active_on(sessions, expected[0]) {
        Some(expected[0])
    } else {
        first_inactive(sessions, expected.drop_first())
    }
}

/// What is wrong with route evidence against the plan, the fixture and the
/// expectation, checked in the order of the suite's rules; none if nothing
/// is.
pub open spec fn evidence_problem(
    plan: WireConformanceExecutionPlan,
    result_id: Seq<char>,
    expected: WireHostRouteExpectation,
    evidence: WireHostRouteEvidence,
    fixture: WireHostRouteFixture,
) -> Option<Seq<char>> {
    let candidates = evidence.candidates@;
    let routes = fixture.routes@;
    let count = selected_count(candidates);
    let actual_reasons = candidate_reasons(candidates);
    let expected_reasons = expected.rejection_reasons@;
    let sessions = evidence.accepted_sessions@;
    let listeners = evidence.listeners@;
    if evidence.application_endpoint@ != fixture.application_endpoint@ {
        Some("wire result "@ + result_id + " reports application endpoint "@ + evidence.application_endpoint@
            + ", expected "@ + fixture.application_endpoint@)
    } else if candidates.len() != routes.len() {
        Some("wire result "@ + result_id + " reports "@ + decimal(candidates.len()) + " route candidate(s), expected "@
            + decimal(routes.len()))
    } else if candidate_identities(candidates).to_set() != route_identities(routes).to_set()
        || candidate_identities(candidates).to_set().len() != candidates.len() {
        Some("wire result "@ + result_id + " candidate identities do not match the suite-owned route set"@)
    } else if candidates_problem(result_id, plan.host_route_providers@, candidates) is Some {
        candidates_problem(result_id, plan.host_route_providers@, candidates)
    } else if fixture.role == WireHostRole::Client && count > 1 {
        Some("wire result "@ + result_id + " selected "@ + decimal(count) + " client carriers; at most one is permitted"@)
    } else if expected.selected_count matches Some(c) && count != c {
        Some("wire result "@ + result_id + " selected "@ + decimal(count) + " route(s), expected "@ + decimal(
            expected.selected_count->0 as nat,
        ))
    } else if expected.selected_transport matches Some(t) && !exists|k: int|
        0 <= k < candidates.len() && (#[trigger] candidates[k]).selected && candidates[k].transport == t {
        Some("wire result "@ + result_id + " did not select expected "@ + transport_name(expected.selected_transport->0)
            + " route"@)
    } else if exists|r: WireHostRouteRejectionReason| reason_count(actual_reasons, r) != reason_count(expected_reasons, r) {
        Some("wire result "@ + result_id + " reports rejection reasons "@ + reason_counts_text(actual_reasons)
            + ", expected "@ + reason_counts_text(expected_reasons))
    } else if exists|k: int| 0 <= k < listeners.len() && !listener_known(routes, #[trigger] listeners[k]) {
        Some("wire result "@ + result_id + " reports listener evidence outside the suite-owned route set"@)
    } else if first_unbound(listeners, expected.bound_transports@) is Some {
        Some("wire result "@ + result_id + " is missing bound "@ + transport_name(
            first_unbound(listeners, expected.bound_transports@)->0,
        ) + " listener"@)
    } else if sessions_problem(result_id, routes, sessions) is Some {
        sessions_problem(result_id, routes, sessions)
    } else if session_identities(sessions).to_set().len() != sessions.len() {
        Some("wire result "@ + result_id + " reports duplicate accepted-session evidence"@)
    } else if fixture.role == WireHostRole::Client && session_identities(sessions).to_set() != selected_identities(
        candidates,
    ) {
        Some("wire result "@ + result_id + " client accepted-session evidence does not match the selected carrier"@)
    } else if first_inactive(sessions, expected.accepted_transports@) is Some {
        Some("wire result "@ + result_id + " is missing accepted "@ + transport_name(
            first_inactive(sessions, expected.accepted_transports@)->0,
        ) + " session"@)
    } else if expected.atomic_rollback matches Some(v) && v != evidence.atomic_rollback {
        Some("wire result "@ + result_id + " atomic rollback mismatch"@)
    } else if expected.logical_set_closed matches Some(v) && v != evidence.logical_set_closed {
        Some("wire result "@ + result_id + " logical listener-set state mismatch"@)
    } else if opt_view(expected.terminal_failure) != opt_view(evidence.terminal_failure)
        && expected.terminal_failure is Some {
        Some("wire result "@ + result_id + " terminal listener failure mismatch"@)
    } else {
        None
    }
}

/// What is wrong with the route evidence of a result: evidence for a frame
/// scenario, missing evidence, no fixture to hold it against, or a problem
/// of the evidence itself.
pub open spec fn route_evidence_problem(
    plan: WireConformanceExecutionPlan,
    scenario: WireConformanceScenario,
    result: WireConformanceCaseResult,
) -> Option<Seq<char>> {
    match scenario.expect.route {
        None => if result.route_evidence is Some {
            Some("wire result "@ + result.id@ + " reports route evidence for a frame-only scenario"@)
        } else {
            None
        },
        Some(expected) => match result.route_evidence {
            None => Some("wire result "@ + result.id@ + " is missing route evidence"@),
            Some(evidence) => match scenario.host_route {
                None => Some("wire scenario "@ + scenario.id@ + " expects route evidence without a host-route fixture"@),
                Some(fixture) => evidence_problem(plan, result.id@, expected, evidence, fixture),
            },
        },
    }
}

fn validation(message: String) -> (error: FixtureError)
    ensures
        error.is_validation(message@),
{
    FixtureError::Validation { message }
}

fn result_message(id: &String, suffix: &str) -> (message: String)
    ensures
        message@ == "wire result "@ + id@ + suffix@,
{
    let mut message = String::new();
    push_text(&mut message, "wire result ");
    push_text(&mut message, id.as_str());
    push_text(&mut message, suffix);
    message
}

/// Whether the candidates report exactly the suite-owned route identities,
/// each once; the lists have equal lengths.
fn identities_match(candidates: &Vec<WireHostRouteCandidateEvidence>, routes: &Vec<WireHostProviderRoute>) -> (matched: bool)
    requires
        candidates@.len() == routes@.len(),
    ensures
        matched == (candidate_identities(candidates@).to_set() == route_identities(routes@).to_set()
            && candidate_identities(candidates@).to_set().len() == candidates@.len()),
{
    let ghost cids = candidate_identities(candidates@);
    let ghost rids = route_identities(routes@);
    let mut i: usize = 0;
    while i < candidates.len()
        invariant
            i <= candidates@.len(),
            cids == candidate_identities(candidates@),
            forall|a: int, b: int| 0 <= a < b < candidates@.len() && a < i ==> cids[a] != cids[b],
        decreases candidates@.len() - i,
    {
        let mut j: usize = i + 1;
        while j < candidates.len()
            invariant
                i < j <= candidates@.len(),
                cids == candidate_identities(candidates@),
                forall|a: int, b: int| 0 <= a < b < candidates@.len() && a < i ==> cids[a] != cids[b],
                forall|b: int| i < b < j ==> cids[i as int] != cids[b],
            decreases candidates@.len() - j,
        {
            if candidates[i].transport == candidates[j].transport && candidates[i].provider_id == candidates[j].provider_id
                && candidates[i].requested_locator == candidates[j].requested_locator {
                proof {
                    assert(cids[i as int] == cids[j as int]);
                    if cids.to_set().len() == cids.len() {
                        cids.lemma_no_dup_set_cardinality();
                    }
                }
                return false;
            }
            j = j + 1;
        }
        i = i + 1;
    }
    proof {
        assert(cids.no_duplicates());
        cids.unique_seq_to_set();
    }
    let mut c: usize = 0;
    while c < candidates.len()
        invariant
            c <= candidates@.len(),
            cids == candidate_identities(candidates@),
            rids == route_identities(routes@),
            cids.to_set().len() == cids.len(),
            forall|k: int| 0 <= k < c ==> rids.contains(#[trigger] cids[k]),
        decreases candidates@.len() - c,
    {
        let candidate = &candidates[c];
        let mut r: usize = 0;
        let mut found = false;
        while r < routes.len() && !found
            invariant
                r <= routes@.len(),
                c < candidates@.len(),
                *candidate == candidates@[c as int],
                cids == candidate_identities(candidates@),
                rids == route_identities(routes@),
                found ==> rids.contains(cids[c as int]),
                !found ==> forall|k: int| 0 <= k < r ==> rids[k] != cids[c as int],
            decreases routes@.len() - r,
        {
            let route = &routes[r];
            if route.transport == candidate.transport && route.provider_id == candidate.provider_id && route.locator
                == candidate.requested_locator {
                assert(rids[r as int] == cids[c as int]);
                found = true;
            }
            r = r + 1;
        }
        if !found {
            proof {
                assert(!rids.contains(cids[c as int])) by {
                    if rids.contains(cids[c as int]) {
                        let k = choose|k: int| 0 <= k < rids.len() && rids[k] == cids[c as int];
                        assert(k < r);
                    }
                }
                assert(cids.to_set().contains(cids[c as int]));
                assert(!rids.to_set().contains(cids[c as int]));
            }
            return false;
        }
        c = c + 1;
    }
    let mut r: usize = 0;
    while r < routes.len()
        invariant
            r <= routes@.len(),
            cids == candidate_identities(candidates@),
            rids == route_identities(routes@),
            cids.to_set().len() == cids.len(),
            forall|k: int| 0 <= k < cids.len() ==> rids.contains(#[trigger] cids[k]),
            forall|k: int| 0 <= k < r ==> cids.contains(#[trigger] rids[k]),
        decreases routes@.len() - r,
    {
        let route = &routes[r];
        let mut c: usize = 0;
        let mut found = false;
        while c < candidates.len() && !found
            invariant
                c <= candidates@.len(),
                r < routes@.len(),
                *route == routes@[r as int],
                cids == candidate_identities(candidates@),
                rids == route_identities(routes@),
                found ==> cids.contains(rids[r as int]),
                !found ==> forall|k: int| 0 <= k < c ==> cids[k] != rids[r as int],
            decreases candidates@.len() - c,
        {
            let candidate = &candidates[c];
            if route.transport == candidate.transport && route.provider_id == candidate.provider_id && route.locator
                == candidate.requested_locator {
                assert(rids[r as int] == cids[c as int]);
                found = true;
            }
            c = c + 1;
        }
        if !found {
            proof {
                assert(!cids.contains(rids[r as int])) by {
                    if cids.contains(rids[r as int]) {
                        let k = choose|k: int| 0 <= k < cids.len() && cids[k] == rids[r as int];
                        assert(k < c);
                    }
                }
                assert(rids.to_set().contains(rids[r as int]));
                assert(!cids.to_set().contains(rids[r as int]));
            }
            return false;
        }
        r = r + 1;
    }
    proof {
        assert(cids.to_set() =~= rids.to_set()) by {
            assert forall|x| cids.to_set().contains(x) implies rids.to_set().contains(x) by {
                let k = choose|k: int| 0 <= k < cids.len() && cids[k] == x;
                assert(rids.contains(cids[k]));
            }
            assert forall|x| rids.to_set().contains(x) implies cids.to_set().contains(x) by {
                let k = choose|k: int| 0 <= k < rids.len() && rids[k] == x;
                assert(cids.contains(rids[k]));
            }
        }
    }
    true
}

proof fn lemma_candidates_problem_prefix(
    result_id: Seq<char>,
    providers: Seq<WireHostRouteProviderCapability>,
    candidates: Seq<WireHostRouteCandidateEvidence>,
    n: int,
)
    requires
        0 <= n <= candidates.len(),
        candidates_problem(result_id, providers, candidates.take(n)) is Some,
    ensures
        candidates_problem(result_id, providers, candidates) == candidates_problem(result_id, providers, candidates.take(n)),
    decreases candidates.len() - n,
{
    if n < candidates.len() {
        assert(candidates.take(n + 1).drop_last() =~= candidates.take(n));
        lemma_candidates_problem_prefix(result_id, providers, candidates, n + 1);
    } else {
        assert(candidates.take(n) =~= candidates);
    }
}

fn check_candidate(
    result_id: &String,
    providers: &Vec<WireHostRouteProviderCapability>,
    candidate: &WireHostRouteCandidateEvidence,
) -> (outcome: Result<(), FixtureError>)
    ensures
        match candidate_problem(result_id@, providers@, *candidate) {
            Some(message) => outcome matches Err(e) && e.is_validation(message),
            None => outcome is Ok,
        },
{
    let provider = match find_provider(providers, candidate.transport, &candidate.provider_id) {
        None => {
            let mut message = String::new();
            push_text(&mut message, "wire result ");
            push_text(&mut message, result_id.as_str());
            push_text(&mut message, " reports undeclared host-route provider ");
            push_text(&mut message, candidate.provider_id.as_str());
            push_text(&mut message, " for ");
            push_transport_name(&mut message, candidate.transport);
            return Err(validation(message));
        },
        Some(provider) => provider,
    };
    if candidate.selected && candidate.rejection_reason.is_some() {
        let mut message = String::new();
        push_text(&mut message, "wire result ");
        push_text(&mut message, result_id.as_str());
        push_text(&mut message, " marks selected ");
        push_transport_name(&mut message, candidate.transport);
        push_text(&mut message, " route as rejected");
        return Err(validation(message));
    }
    if !provider.installed && (candidate.selected || candidate.rejection_reason != Some(
        WireHostRouteRejectionReason::LocalUnavailable,
    )) {
        let mut message = String::new();
        push_text(&mut message, "wire result ");
        push_text(&mut message, result_id.as_str());
        push_text(&mut message, " must reject uninstalled provider ");
        push_text(&mut message, candidate.provider_id.as_str());
        push_text(&mut message, " as local-unavailable");
        return Err(validation(message));
    }
    if candidate.selected && (!candidate.locator_resolved || !candidate.security_satisfied) {
        let mut message = String::new();
        push_text(&mut message, "wire result ");
        push_text(&mut message, result_id.as_str());
        push_text(&mut message, " selected an unresolved or security-incompatible ");
        push_transport_name(&mut message, candidate.transport);
        push_text(&mut message, " route");
        return Err(validation(message));
    }
    Ok(())
}

fn count_reason(reasons: &Vec<WireHostRouteRejectionReason>, reason: WireHostRouteRejectionReason) -> (count: usize)
    ensures
        count == reason_count(reasons@, reason),
{
    let mut count: usize = 0;
    let mut i: usize = 0;
    while i < reasons.len()
        invariant
            i <= reasons@.len(),
            count == reason_count(reasons@.take(i as int), reason),
            count <= i,
        decreases reasons@.len() - i,
    {
        assert(reasons@.take(i + 1).drop_last() =~= reasons@.take(i as int));
        if reasons[i] == reason {
            count = count + 1;
        }
        i = i + 1;
    }
    assert(reasons@.take(i as int) =~= reasons@);
    count
}

fn reason_of(k: usize) -> (reason: WireHostRouteRejectionReason)
    ensures
        reason == reason_at(k as int),
{
    if k == 0 {
        WireHostRouteRejectionReason::PolicyDisallowed
    } else if k == 1 {
        WireHostRouteRejectionReason::LocalUnavailable
    } else if k == 2 {
        WireHostRouteRejectionReason::PeerUnsupported
    } else if k == 3 {
        WireHostRouteRejectionReason::LimitExceeded
    } else if k == 4 {
        WireHostRouteRejectionReason::RouteUnresolved
    } else if k == 5 {
        WireHostRouteRejectionReason::SecurityUnsatisfied
    } else if k == 6 {
        WireHostRouteRejectionReason::ProbeMissing
    } else {
        WireHostRouteRejectionReason::ProbeFailed
    }
}

proof fn lemma_every_reason_listed(reason: WireHostRouteRejectionReason)
    ensures
        exists|k: int| 0 <= k < 8 && reason_at(k) == reason,
{
    match reason {
        WireHostRouteRejectionReason::PolicyDisallowed => assert(reason_at(0) == reason),
        WireHostRouteRejectionReason::LocalUnavailable => assert(reason_at(1) == reason),
        WireHostRouteRejectionReason::PeerUnsupported => assert(reason_at(2) == reason),
        WireHostRouteRejectionReason::LimitExceeded => assert(reason_at(3) == reason),
        WireHostRouteRejectionReason::RouteUnresolved => assert(reason_at(4) == reason),
        WireHostRouteRejectionReason::SecurityUnsatisfied => assert(reason_at(5) == reason),
        WireHostRouteRejectionReason::ProbeMissing => assert(reason_at(6) == reason),
        WireHostRouteRejectionReason::ProbeFailed => assert(reason_at(7) == reason),
    }
}

/// The reason counts of a list as a report prints them.
fn reason_counts_string(reasons: &Vec<WireHostRouteRejectionReason>) -> (text: String)
    ensures
        text@ == reason_counts_text(reasons@),
{
    let mut entries: Vec<String> = Vec::new();
    let mut k: usize = 0;
    while k < 8
        invariant
            k <= 8,
            texts(entries@) == reason_entries(reasons@, k as int),
        decreases 8 - k,
    {
        let reason = reason_of(k);
        let count = count_reason(reasons, reason);
        if count > 0 {
            let mut entry = String::new();
            push_rejection_reason_name(&mut entry, reason);
            push_text(&mut entry, ": ");
            push_decimal(&mut entry, count as u64);
            let ghost before = entries@;
            entries.push(entry);
            assert(texts(entries@) =~= texts(before).push(entry@));
        }
        k = k + 1;
    }
    let joined = join_strings(&entries, ", ");
    let mut text = String::new();
    push_text(&mut text, "{");
    push_text(&mut text, joined.as_str());
    push_text(&mut text, "}");
    text
}

fn reasons_of(candidates: &Vec<WireHostRouteCandidateEvidence>) -> (reasons: Vec<WireHostRouteRejectionReason>)
    ensures
        reasons@ == candidate_reasons(candidates@),
{
    let mut reasons: Vec<WireHostRouteRejectionReason> = Vec::new();
    let mut i: usize = 0;
    while i < candidates.len()
        invariant
            i <= candidates@.len(),
            reasons@ == candidate_reasons(candidates@.take(i as int)),
        decreases candidates@.len() - i,
    {
        assert(candidates@.take(i + 1).drop_last() =~= candidates@.take(i as int));
        assert(candidates@.take(i + 1).last() == candidates@[i as int]);
        match candidates[i].rejection_reason {
            Some(r) => reasons.push(r),
            None => {},
        }
        i = i + 1;
    }
    assert(candidates@.take(i as int) =~= candidates@);
    reasons
}

/// Whether two reason lists hold every reason equally often.
fn same_reason_counts(a: &Vec<WireHostRouteRejectionReason>, b: &Vec<WireHostRouteRejectionReason>) -> (same: bool)
    ensures
        same == forall|r: WireHostRouteRejectionReason| reason_count(a@, r) == reason_count(b@, r),
{
    let mut k: usize = 0;
    while k < 8
        invariant
            k <= 8,
            forall|j: int| 0 <= j < k ==> reason_count(a@, #[trigger] reason_at(j)) == reason_count(b@, reason_at(j)),
        decreases 8 - k,
    {
        let reason = reason_of(k);
        if count_reason(a, reason) != count_reason(b, reason) {
            return false;
        }
        k = k + 1;
    }
    proof {
        assert forall|r: WireHostRouteRejectionReason| reason_count(a@, r) == reason_count(b@, r) by {
            lemma_every_reason_listed(r);
            let j = choose|j: int| 0 <= j < 8 && reason_at(j) == r;
            assert(reason_count(a@, reason_at(j)) == reason_count(b@, reason_at(j)));
        }
    }
    true
}

fn listener_known_exec(routes: &Vec<WireHostProviderRoute>, listener: &WireHostListenerEvidence) -> (known: bool)
    ensures
        known == listener_known(routes@, *listener),
{
    let mut k: usize = 0;
    while k < routes.len()
        invariant
            k <= routes@.len(),
            forall|j: int| 0 <= j < k ==> !((#[trigger] routes@[j]).transport == listener.transport && routes@[j].provider_id@
                == listener.provider_id@ && routes@[j].locator@ == listener.requested_locator@),
        decreases routes@.len() - k,
    {
        let route = &routes[k];
        if route.transport == listener.transport && route.provider_id == listener.provider_id && route.locator
            == listener.requested_locator {
            return true;
        }
        k = k + 1;
    }
    false
}

fn all_listeners_known(routes: &Vec<WireHostProviderRoute>, listeners: &Vec<WireHostListenerEvidence>) -> (known: bool)
    ensures
        known == !exists|k: int| 0 <= k < listeners@.len() && !listener_known(routes@, #[trigger] listeners@[k]),
{
    let mut i: usize = 0;
    while i < listeners.len()
        invariant
            i <= listeners@.len(),
            forall|k: int| 0 <= k < i ==> listener_known(routes@, #[trigger] listeners@[k]),
        decreases listeners@.len() - i,
    {
        if !listener_known_exec(routes, &listeners[i]) {
            return false;
        }
        i = i + 1;
    }
    true
}

fn bound_on_exec(listeners: &Vec<WireHostListenerEvidence>, transport: WireConformanceTransport) -> (bound: bool)
    ensures
        bound == bound_on(listeners@, transport),
{
    let mut k: usize = 0;
    while k < listeners.len()
        invariant
            k <= listeners@.len(),
            forall|j: int| 0 <= j < k ==> !((#[trigger] listeners@[j]).transport == transport && listeners@[j].bound_endpoint is Some),
        decreases listeners@.len() - k,
    {
        if listeners[k].transport == transport && listeners[k].bound_endpoint.is_some() {
            return true;
        }
        k = k + 1;
    }
    false
}

fn first_unbound_exec(
    listeners: &Vec<WireHostListenerEvidence>,
    expected: &Vec<WireConformanceTransport>,
) -> (found: Option<WireConformanceTransport>)
    ensures
        found == first_unbound(listeners@, expected@),
{
    let mut k: usize = 0;
    assert(expected@.skip(0) =~= expected@);
    while k < expected.len()
        invariant
            k <= expected@.len(),
            first_unbound(listeners@, expected@) == first_unbound(listeners@, expected@.skip(k as int)),
        decreases expected@.len() - k,
    {
        assert(expected@.skip(k as int)[0] == expected@[k as int]);
        assert(expected@.skip(k as int).drop_first() =~= expected@.skip(k + 1));
        if !bound_on_exec(listeners, expected[k]) {
            return Some(expected[k]);
        }
        k = k + 1;
    }
    assert(expected@.skip(k as int).len() == 0);
    None
}

fn active_on_exec(sessions: &Vec<WireHostAcceptedSessionEvidence>, transport: WireConformanceTransport) -> (active: bool)
    ensures
        active == active_on(sessions@, transport),
{
    let mut k: usize = 0;
    while k < sessions.len()
        invariant
            k <= sessions@.len(),
            forall|j: int| 0 <= j < k ==> (#[trigger] sessions@[j]).active_transport != transport,
        decreases sessions@.len() - k,
    {
        if sessions[k].active_transport == transport {
            return true;
        }
        k = k + 1;
    }
    false
}

fn first_inactive_exec(
    sessions: &Vec<WireHostAcceptedSessionEvidence>,
    expected: &Vec<WireConformanceTransport>,
) -> (found: Option<WireConformanceTransport>)
    ensures
        found == first_inactive(sessions@, expected@),
{
    let mut k: usize = 0;
    assert(expected@.skip(0) =~= expected@);
    while k < expected.len()
        invariant
            k <= expected@.len(),
            first_inactive(sessions@, expected@) == first_inactive(sessions@, expected@.skip(k as int)),
        decreases expected@.len() - k,
    {
        assert(expected@.skip(k as int)[0] == expected@[k as int]);
        assert(expected@.skip(k as int).drop_first() =~= expected@.skip(k + 1));
        if !active_on_exec(sessions, expected[k]) {
            return Some(expected[k]);
        }
        k = k + 1;
    }
    assert(expected@.skip(k as int).len() == 0);
    None
}

fn session_known_exec(routes: &Vec<WireHostProviderRoute>, session: &WireHostAcceptedSessionEvidence) -> (known: bool)
    ensures
        known == session_known(routes@, *session),
{
    let mut k: usize = 0;
    while k < routes.len()
        invariant
            k <= routes@.len(),
            forall|j: int| 0 <= j < k ==> !((#[trigger] routes@[j]).transport == session.transport && routes@[j].provider_id@
                == session.provider_id@),
        decreases routes@.len() - k,
    {
        if routes[k].transport == session.transport && routes[k].provider_id == session.provider_id {
            return true;
        }
        k = k + 1;
    }
    false
}

proof fn lemma_sessions_problem_prefix(
    result_id: Seq<char>,
    routes: Seq<WireHostProviderRoute>,
    sessions: Seq<WireHostAcceptedSessionEvidence>,
    n: int,
)
    requires
        0 <= n <= sessions.len(),
        sessions_problem(result_id, routes, sessions.take(n)) is Some,
    ensures
        sessions_problem(result_id, routes, sessions) == sessions_problem(result_id, routes, sessions.take(n)),
    decreases sessions.len() - n,
{
    if n < sessions.len() {
        assert(sessions.take(n + 1).drop_last() =~= sessions.take(n));
        lemma_sessions_problem_prefix(result_id, routes, sessions, n + 1);
    } else {
        assert(sessions.take(n) =~= sessions);
    }
}

fn check_sessions(
    result_id: &String,
    routes: &Vec<WireHostProviderRoute>,
    sessions: &Vec<WireHostAcceptedSessionEvidence>,
) -> (outcome: Result<(), FixtureError>)
    ensures
        match sessions_problem(result_id@, routes@, sessions@) {
            Some(message) => outcome matches Err(e) && e.is_validation(message),
            None => outcome is Ok,
        },
{
    let mut i: usize = 0;
    while i < sessions.len()
        invariant
            i <= sessions@.len(),
            sessions_problem(result_id@, routes@, sessions@.take(i as int)) is None,
        decreases sessions@.len() - i,
    {
        let session = &sessions[i];
        assert(sessions@.take(i + 1).drop_last() =~= sessions@.take(i as int));
        assert(sessions@.take(i + 1).last() == *session);
        if session.transport != session.active_transport {
            let mut message = String::new();
            push_text(&mut message, "wire result ");
            push_text(&mut message, result_id.as_str());
            push_text(&mut message, " accepted a ");
            push_transport_name(&mut message, session.transport);
            push_text(&mut message, " listener but reports ");
            push_transport_name(&mut message, session.active_transport);
            push_text(&mut message, " as active");
            proof {
                lemma_sessions_problem_prefix(result_id@, routes@, sessions@, i + 1);
            }
            return Err(validation(message));
        }
        if !session_known_exec(routes, session) {
            let message = result_message(result_id, " reports an accepted session outside the suite-owned route set");
            proof {
                lemma_sessions_problem_prefix(result_id@, routes@, sessions@, i + 1);
            }
            return Err(validation(message));
        }
        i = i + 1;
    }
    assert(sessions@.take(i as int) =~= sessions@);
    Ok(())
}

fn sessions_distinct(sessions: &Vec<WireHostAcceptedSessionEvidence>) -> (distinct: bool)
    ensures
        distinct == (session_identities(sessions@).to_set().len() == sessions@.len()),
{
    let ghost ids = session_identities(sessions@);
    let mut i: usize = 0;
    while i < sessions.len()
        invariant
            i <= sessions@.len(),
            ids == session_identities(sessions@),
            forall|a: int, b: int| 0 <= a < b < sessions@.len() && a < i ==> ids[a] != ids[b],
        decreases sessions@.len() - i,
    {
        let mut j: usize = i + 1;
        while j < sessions.len()
            invariant
                i < j <= sessions@.len(),
                ids == session_identities(sessions@),
                forall|a: int, b: int| 0 <= a < b < sessions@.len() && a < i ==> ids[a] != ids[b],
                forall|b: int| i < b < j ==> ids[i as int] != ids[b],
            decreases sessions@.len() - j,
        {
            if sessions[i].transport == sessions[j].transport && sessions[i].provider_id == sessions[j].provider_id {
                proof {
                    assert(ids[i as int] == ids[j as int]);
                    if ids.to_set().len() == ids.len() {
                        ids.lemma_no_dup_set_cardinality();
                    }
                }
                return false;
            }
            j = j + 1;
        }
        i = i + 1;
    }
    proof {
        assert(ids.no_duplicates());
        ids.unique_seq_to_set();
    }
    true
}

fn selected_identity(
    candidates: &Vec<WireHostRouteCandidateEvidence>,
    transport: WireConformanceTransport,
    provider_id: &String,
) -> (found: bool)
    ensures
        found == selected_identities(candidates@).contains((transport, provider_id@)),
{
    let mut k: usize = 0;
    while k < candidates.len()
        invariant
            k <= candidates@.len(),
            forall|j: int| 0 <= j < k ==> !((#[trigger] candidates@[j]).selected && candidates@[j].transport == transport
                && candidates@[j].provider_id@ == provider_id@),
        decreases candidates@.len() - k,
    {
        if candidates[k].selected && candidates[k].transport == transport && candidates[k].provider_id == *provider_id {
            return true;
        }
        k = k + 1;
    }
    false
}

fn session_identity(
    sessions: &Vec<WireHostAcceptedSessionEvidence>,
    transport: WireConformanceTransport,
    provider_id: &String,
) -> (found: bool)
    ensures
        found == session_identities(sessions@).contains((transport, provider_id@)),
{
    let ghost ids = session_identities(sessions@);
    let mut k: usize = 0;
    while k < sessions.len()
        invariant
            k <= sessions@.len(),
            ids == session_identities(sessions@),
            forall|j: int| 0 <= j < k ==> ids[j] != (transport, provider_id@),
        decreases sessions@.len() - k,
    {
        if sessions[k].transport == transport && sessions[k].provider_id == *provider_id {
            assert(ids[k as int] == (transport, provider_id@));
            return true;
        }
        k = k + 1;
    }
    false
}

fn sessions_match_selected(
    sessions: &Vec<WireHostAcceptedSessionEvidence>,
    candidates: &Vec<WireHostRouteCandidateEvidence>,
) -> (matched: bool)
    ensures
        matched == (session_identities(sessions@).to_set() == selected_identities(candidates@)),
{
    let ghost ids = session_identities(sessions@);
    let ghost chosen = selected_identities(candidates@);
    let mut i: usize = 0;
    while i < sessions.len()
        invariant
            i <= sessions@.len(),
            ids == session_identities(sessions@),
            chosen == selected_identities(candidates@),
            forall|k: int| 0 <= k < i ==> chosen.contains(#[trigger] ids[k]),
        decreases sessions@.len() - i,
    {
        if !selected_identity(candidates, sessions[i].transport, &sessions[i].provider_id) {
            proof {
                assert(ids[i as int] == (sessions@[i as int].transport, sessions@[i as int].provider_id@));
                assert(ids.to_set().contains(ids[i as int]));
            }
            return false;
        }
        i = i + 1;
    }
    let mut c: usize = 0;
    while c < candidates.len()
        invariant
            c <= candidates@.len(),
            ids == session_identities(sessions@),
            chosen == selected_identities(candidates@),
            forall|k: int| 0 <= k < ids.len() ==> chosen.contains(#[trigger] ids[k]),
            forall|k: int| 0 <= k < c && (#[trigger] candidates@[k]).selected ==> ids.contains(
                (candidates@[k].transport, candidates@[k].provider_id@),
            ),
        decreases candidates@.len() - c,
    {
        let candidate = &candidates[c];
        if candidate.selected && !session_identity(sessions, candidate.transport, &candidate.provider_id) {
            proof {
                assert(chosen.contains((candidate.transport, candidate.provider_id@)));
                assert(!ids.to_set().contains((candidate.transport, candidate.provider_id@)));
            }
            return false;
        }
        c = c + 1;
    }
    proof {
        assert(ids.to_set() =~= chosen) by {
            assert forall|x| ids.to_set().contains(x) implies chosen.contains(x) by {
                let k = choose|k: int| 0 <= k < ids.len() && ids[k] == x;
                assert(chosen.contains(ids[k]));
            }
            assert forall|x| chosen.contains(x) implies ids.to_set().contains(x) by {
                let k = choose|k: int| 0 <= k < candidates@.len() && (#[trigger] candidates@[k]).selected
                    && candidates@[k].transport == x.0 && candidates@[k].provider_id@ == x.1;
                assert(ids.contains((candidates@[k].transport, candidates@[k].provider_id@)));
            }
        }
    }
    true
}

fn count_selected(candidates: &Vec<WireHostRouteCandidateEvidence>) -> (count: usize)
    ensures
        count == selected_count(candidates@),
{
    let mut count: usize = 0;
    let mut i: usize = 0;
    while i < candidates.len()
        invariant
            i <= candidates@.len(),
            count == selected_count(candidates@.take(i as int)),
            count <= i,
        decreases candidates@.len() - i,
    {
        assert(candidates@.take(i + 1).drop_last() =~= candidates@.take(i as int));
        assert(candidates@.take(i + 1).last() == candidates@[i as int]);
        if candidates[i].selected {
            count = count + 1;
        }
        i = i + 1;
    }
    assert(candidates@.take(i as int) =~= candidates@);
    count
}

fn selects_transport(candidates: &Vec<WireHostRouteCandidateEvidence>, transport: WireConformanceTransport) -> (found: bool)
    ensures
        found == exists|k: int| 0 <= k < candidates@.len() && (#[trigger] candidates@[k]).selected && candidates@[k].transport
            == transport,
{
    let mut k: usize = 0;
    while k < candidates.len()
        invariant
            k <= candidates@.len(),
            forall|j: int| 0 <= j < k ==> !((#[trigger] candidates@[j]).selected && candidates@[j].transport == transport),
        decreases candidates@.len() - k,
    {
        if candidates[k].selected && candidates[k].transport == transport {
            return true;
        }
        k = k + 1;
    }
    false
}

/// Checks route evidence against the plan's providers, the suite-owned
/// fixture and the scenario's route expectation.
fn validate_evidence(
    plan: &WireConformanceExecutionPlan,
    result_id: &String,
    expected: &WireHostRouteExpectation,
    evidence: &WireHostRouteEvidence,
    fixture: &WireHostRouteFixture,
) -> (outcome: Result<(), FixtureError>)
    ensures
        match evidence_problem(*plan, result_id@, *expected, *evidence, *fixture) {
            Some(message) => outcome matches Err(e) && e.is_validation(message),
            None => outcome is Ok,
        },
{
    let candidates = &evidence.candidates;
    if evidence.application_endpoint != fixture.application_endpoint {
        let mut message = String::new();
        push_text(&mut message, "wire result ");
        push_text(&mut message, result_id.as_str());
        push_text(&mut message, " reports application endpoint ");
        push_text(&mut message, evidence.application_endpoint.as_str());
        push_text(&mut message, ", expected ");
        push_text(&mut message, fixture.application_endpoint.as_str());
        return Err(validation(message));
    }
    if candidates.len() != fixture.routes.len() {
        let mut message = String::new();
        push_text(&mut message, "wire result ");
        push_text(&mut message, result_id.as_str());
        push_text(&mut message, " reports ");
        push_decimal(&mut message, candidates.len() as u64);
        push_text(&mut message, " route candidate(s), expected ");
        push_decimal(&mut message, fixture.routes.len() as u64);
        return Err(validation(message));
    }
    if !identities_match(candidates, &fixture.routes) {
        return Err(validation(result_message(result_id, " candidate identities do not match the suite-owned route set")));
    }
    let mut i: usize = 0;
    while i < candidates.len()
        invariant
            i <= candidates@.len(),
            *candidates == evidence.candidates,
            evidence.application_endpoint@ == fixture.application_endpoint@,
            candidates@.len() == fixture.routes@.len(),
            candidate_identities(candidates@).to_set() == route_identities(fixture.routes@).to_set(),
            candidate_identities(candidates@).to_set().len() == candidates@.len(),
            candidates_problem(result_id@, plan.host_route_providers@, candidates@.take(i as int)) is None,
        decreases candidates@.len() - i,
    {
        assert(candidates@.take(i + 1).drop_last() =~= candidates@.take(i as int));
        assert(candidates@.take(i + 1).last() == candidates@[i as int]);
        match check_candidate(result_id, &plan.host_route_providers, &candidates[i]) {
            Err(e) => {
                proof {
                    lemma_candidates_problem_prefix(result_id@, plan.host_route_providers@, candidates@, i + 1);
                }
                return Err(e);
            },
            Ok(()) => {},
        }
        i = i + 1;
    }
    assert(candidates@.take(i as int) =~= candidates@);
    let count = count_selected(candidates);
    if fixture.role == WireHostRole::Client && count > 1 {
        let mut message = String::new();
        push_text(&mut message, "wire result ");
        push_text(&mut message, result_id.as_str());
        push_text(&mut message, " selected ");
        push_decimal(&mut message, count as u64);
        push_text(&mut message, " client carriers; at most one is permitted");
        return Err(validation(message));
    }
    match expected.selected_count {
        Some(wanted) => {
            if count as u64 != wanted as u64 {
                let mut message = String::new();
                push_text(&mut message, "wire result ");
                push_text(&mut message, result_id.as_str());
                push_text(&mut message, " selected ");
                push_decimal(&mut message, count as u64);
                push_text(&mut message, " route(s), expected ");
                push_decimal(&mut message, wanted as u64);
                return Err(validation(message));
            }
        },
        None => {},
    }
    match expected.selected_transport {
        Some(transport) => {
            if !selects_transport(candidates, transport) {
                let mut message = String::new();
                push_text(&mut message, "wire result ");
                push_text(&mut message, result_id.as_str());
                push_text(&mut message, " did not select expected ");
                push_transport_name(&mut message, transport);
                push_text(&mut message, " route");
                return Err(validation(message));
            }
        },
        None => {},
    }
    let actual_reasons = reasons_of(candidates);
    if !same_reason_counts(&actual_reasons, &expected.rejection_reasons) {
        let mut message = String::new();
        push_text(&mut message, "wire result ");
        push_text(&mut message, result_id.as_str());
        push_text(&mut message, " reports rejection reasons ");
        let actual_text = reason_counts_string(&actual_reasons);
        push_text(&mut message, actual_text.as_str());
        push_text(&mut message, ", expected ");
        let expected_text = reason_counts_string(&expected.rejection_reasons);
        push_text(&mut message, expected_text.as_str());
        return Err(validation(message));
    }
    if !all_listeners_known(&fixture.routes, &evidence.listeners) {
        return Err(validation(result_message(result_id, " reports listener evidence outside the suite-owned route set")));
    }
    match first_unbound_exec(&evidence.listeners, &expected.bound_transports) {
        Some(transport) => {
            let mut message = String::new();
            push_text(&mut message, "wire result ");
            push_text(&mut message, result_id.as_str());
            push_text(&mut message, " is missing bound ");
            push_transport_name(&mut message, transport);
            push_text(&mut message, " listener");
            return Err(validation(message));
        },
        None => {},
    }
    match check_sessions(result_id, &fixture.routes, &evidence.accepted_sessions) {
        Err(e) => {
            return Err(e);
        },
        Ok(()) => {},
    }
    if !sessions_distinct(&evidence.accepted_sessions) {
        return Err(validation(result_message(result_id, " reports duplicate accepted-session evidence")));
    }
    if fixture.role == WireHostRole::Client && !sessions_match_selected(&evidence.accepted_sessions, candidates) {
        return Err(validation(result_message(
            result_id,
            " client accepted-session evidence does not match the selected carrier",
        )));
    }
    match first_inactive_exec(&evidence.accepted_sessions, &expected.accepted_transports) {
        Some(transport) => {
            let mut message = String::new();
            push_text(&mut message, "wire result ");
            push_text(&mut message, result_id.as_str());
            push_text(&mut message, " is missing accepted ");
            push_transport_name(&mut message, transport);
            push_text(&mut message, " session");
            return Err(validation(message));
        },
        None => {},
    }
    match expected.atomic_rollback {
        Some(value) => {
            if value != evidence.atomic_rollback {
                return Err(validation(result_message(result_id, " atomic rollback mismatch")));
            }
        },
        None => {},
    }
    match expected.logical_set_closed {
        Some(value) => {
            if value != evidence.logical_set_closed {
                return Err(validation(result_message(result_id, " logical listener-set state mismatch")));
            }
        },
        None => {},
    }
    if !opt_string_eq(&expected.terminal_failure, &evidence.terminal_failure) && expected.terminal_failure.is_some() {
        return Err(validation(result_message(result_id, " terminal listener failure mismatch")));
    }
    Ok(())
}

/// Checks the route evidence of a result: none for a frame scenario, and
/// for a host-route scenario evidence that answers its fixture, the plan's
/// providers and its route expectation.
pub fn validate_wire_route_evidence(
    plan: &WireConformanceExecutionPlan,
    scenario: &WireConformanceScenario,
    result: &WireConformanceCaseResult,
) -> (outcome: Result<(), FixtureError>)
    ensures
        match route_evidence_problem(*plan, *scenario, *result) {
            Some(message) => outcome matches Err(e) && e.is_validation(message),
            None => outcome is Ok,
        },
{
    let expected = match &scenario.expect.route {
        None => {
            if result.route_evidence.is_some() {
                return Err(validation(result_message(&result.id, " reports route evidence for a frame-only scenario")));
            }
            return Ok(());
        },
        Some(expected) => expected,
    };
    let evidence = match &result.route_evidence {
        None => {
            return Err(validation(result_message(&result.id, " is missing route evidence")));
        },
        Some(evidence) => evidence,
    };
    let fixture = match &scenario.host_route {
        None => {
            let mut message = String::new();
            push_text(&mut message, "wire scenario ");
            push_text(&mut message, scenario.id.as_str());
            push_text(&mut message, " expects route evidence without a host-route fixture");
            return Err(validation(message));
        },
        Some(fixture) => fixture,
    };
    validate_evidence(plan, &result.id, expected, evidence, fixture)
}

} // verus!
