use vstd::prelude::*;

use crate::fixtures::{
    ApiProfileCaseOutcome, FixtureError, WireConformanceCaseResult, WireConformanceCaseResultReport,
    WireConformanceScenario, WireConformanceTerminal, WireConformanceTransport, WireHostAcceptedSessionEvidence,
    WireHostListenerEvidence, WireHostListenerState, WireHostProviderRoute, WireHostRouteCandidateEvidence,
    WireHostReadyListener, WireHostRouteEvidence, WireHostRouteFixture, WireHostRouteInjectedFailure,
    WireHostRouteReadyReport, WireHostRouteRejectionReason,
};
use crate::host_route::{has_bind_failure, push_transport_name, transport_name};
use crate::wire_copies::copy_copy_list;
use crate::results::ResultsError;
use crate::text::{opt_view, push_text};

verus! {

/// What a host reported of one candidate route: its transport, its
/// provider and, where the route was rejected, why.
#[derive(Debug, Clone, PartialEq, Eq)]
pub struct CandidateDiagnostic {
    pub transport: WireConformanceTransport,
    pub provider_id: String,
    pub rejection_reason: Option<WireHostRouteRejectionReason>,
}

/// How a server run ended, as its route evidence reports it.
#[derive(Debug, Clone, PartialEq, Eq)]
pub struct ServerEvidenceState {
    pub atomic_rollback: bool,
    pub logical_set_closed: bool,
    pub terminal_failure: Option<String>,
    pub listener_state: Option<WireHostListenerState>,
}

/// The first diagnostic of a route's transport and provider.
pub open spec fn diagnostic_for(diagnostics: Seq<CandidateDiagnostic>, route: WireHostProviderRoute) -> Option<
    CandidateDiagnostic,
>
    decreases diagnostics.len(),
{
    if diagnostics.len() == 0 {
        None
    } else if diagnostics[0].transport == route.transport && diagnostics[0].provider_id@ == route.provider_id@ {
        Some(diagnostics[0])
    } else {
        diagnostic_for(diagnostics.drop_first(), route)
    }
}

/// The candidate evidence of a route: its identity, the reason it was
/// rejected, whether its locator resolved and its security held (unless
/// rejected for that), and whether its provider is the selected one.
pub open spec fn candidate_from(
    evidence: WireHostRouteCandidateEvidence,
    route: WireHostProviderRoute,
    diagnostic: CandidateDiagnostic,
    selected_provider: Option<Seq<char>>,
) -> bool {
    &&& evidence.transport == route.transport
    &&& evidence.provider_id@ == route.provider_id@
    &&& evidence.requested_locator@ == route.locator@
    &&& evidence.rejection_reason == diagnostic.rejection_reason
    &&& evidence.locator_resolved == (diagnostic.rejection_reason != Some(WireHostRouteRejectionReason::RouteUnresolved))
    &&& evidence.security_satisfied == (diagnostic.rejection_reason != Some(
        WireHostRouteRejectionReason::SecurityUnsatisfied,
    ))
    &&& evidence.selected == (selected_provider == Some(route.provider_id@))
}

/// The first route, in order, without a diagnostic: the message naming it.
pub open spec fn missing_diagnostic(routes: Seq<WireHostProviderRoute>, diagnostics: Seq<CandidateDiagnostic>) -> Option<
    Seq<char>,
>
    decreases routes.len(),
{
    if routes.len() == 0 {
        None
    } else if diagnostic_for(diagnostics, routes[0]) is None {
        Some("missing candidate diagnostics for "@ + routes[0].provider_id@)
    } else {
        missing_diagnostic(routes.drop_first(), diagnostics)
    }
}

fn find_diagnostic<'a>(diagnostics: &'a Vec<CandidateDiagnostic>, route: &WireHostProviderRoute) -> (found: Option<
    &'a CandidateDiagnostic,
>)
    ensures
        match diagnostic_for(diagnostics@, *route) {
            Some(d) => found matches Some(f) && *f == d,
            None => found is None,
        },
{
    let mut i: usize = 0;
    assert(diagnostics@.skip(0) =~= diagnostics@);
    while i < diagnostics.len()
        invariant
            i <= diagnostics@.len(),
            diagnostic_for(diagnostics@, *route) == diagnostic_for(diagnostics@.skip(i as int), *route),
        decreases diagnostics@.len() - i,
    {
        assert(diagnostics@.skip(i as int)[0] == diagnostics@[i as int]);
        assert(diagnostics@.skip(i as int).drop_first() =~= diagnostics@.skip(i + 1));
        if diagnostics[i].transport == route.transport && diagnostics[i].provider_id == route.provider_id {
            return Some(&diagnostics[i]);
        }
        i = i + 1;
    }
    None
}

fn is_reason(reason: Option<WireHostRouteRejectionReason>, wanted: WireHostRouteRejectionReason) -> (same: bool)
    ensures
        same == (reason == Some(wanted)),
{
    match reason {
        Some(r) => r == wanted,
        None => false,
    }
}

fn is_selected(selected_provider: &Option<String>, provider_id: &String) -> (selected: bool)
    ensures
        selected == (opt_view(*selected_provider) == Some(provider_id@)),
{
    match selected_provider {
        Some(p) => *p == *provider_id,
        None => false,
    }
}

/// The candidate evidence of a host's routes, in route order, from the
/// host's diagnostics and the provider it selected; an error naming the
/// first route the host reported nothing of.
pub fn candidate_evidence(
    routes: &Vec<WireHostProviderRoute>,
    diagnostics: &Vec<CandidateDiagnostic>,
    selected_provider: &Option<String>,
) -> (result: Result<Vec<WireHostRouteCandidateEvidence>, ResultsError>)
    ensures
        match missing_diagnostic(routes@, diagnostics@) {
            Some(message) => result matches Err(e) && e.message@ == message,
            None => result matches Ok(candidates) && candidates@.len() == routes@.len() && forall|i: int|
                0 <= i < routes@.len() ==> candidate_from(
                    #[trigger] candidates@[i],
                    routes@[i],
                    diagnostic_for(diagnostics@, routes@[i])->Some_0,
                    opt_view(*selected_provider),
                ),
        },
{
    let mut candidates: Vec<WireHostRouteCandidateEvidence> = Vec::new();
    let mut i: usize = 0;
    assert(routes@.skip(0) =~= routes@);
    while i < routes.len()
        invariant
            i <= routes@.len(),
            candidates@.len() == i,
            missing_diagnostic(routes@, diagnostics@) == missing_diagnostic(routes@.skip(i as int), diagnostics@),
            forall|k: int| 0 <= k < i ==> diagnostic_for(diagnostics@, #[trigger] routes@[k]) is Some,
            forall|k: int| 0 <= k < i ==> candidate_from(
                #[trigger] candidates@[k],
                routes@[k],
                diagnostic_for(diagnostics@, routes@[k])->Some_0,
                opt_view(*selected_provider),
            ),
        decreases routes@.len() - i,
    {
        let route = &routes[i];
        assert(routes@.skip(i as int)[0] == *route);
        assert(routes@.skip(i as int).drop_first() =~= routes@.skip(i + 1));
        let diagnostic = match find_diagnostic(diagnostics, route) {
            None => {
                let mut message = String::new();
                push_text(&mut message, "missing candidate diagnostics for ");
                push_text(&mut message, route.provider_id.as_str());
                return Err(ResultsError { message });
            },
            Some(d) => d,
        };
        let reason = diagnostic.rejection_reason;
        candidates.push(WireHostRouteCandidateEvidence {
            transport: route.transport,
            provider_id: route.provider_id.clone(),
            requested_locator: route.locator.clone(),
            locator_resolved: !is_reason(reason, WireHostRouteRejectionReason::RouteUnresolved),
            security_satisfied: !is_reason(reason, WireHostRouteRejectionReason::SecurityUnsatisfied),
            selected: is_selected(selected_provider, &route.provider_id),
            rejection_reason: reason,
        });
        i = i + 1;
    }
    assert(routes@.skip(i as int).len() == 0);
    Ok(candidates)
}

/// The endpoint bound for a transport: the first one reported for it.
pub open spec fn bound_for(bound: Seq<(WireConformanceTransport, String)>, transport: WireConformanceTransport) -> Option<
    Seq<char>,
>
    decreases bound.len(),
{
    if bound.len() == 0 {
        None
    } else if bound[0].0 == transport {
        Some(bound[0].1@)
    } else {
        bound_for(bound.drop_first(), transport)
    }
}

/// The first route of a transport.
pub open spec fn route_of_transport(routes: Seq<WireHostProviderRoute>, transport: WireConformanceTransport) -> Option<
    WireHostProviderRoute,
>
    decreases routes.len(),
{
    if routes.len() == 0 {
        None
    } else if routes[0].transport == transport {
        Some(routes[0])
    } else {
        route_of_transport(routes.drop_first(), transport)
    }
}

/// A candidate of a server run: the route's identity, resolved, secure,
/// neither selected nor rejected.
pub open spec fn plain_candidate(evidence: WireHostRouteCandidateEvidence, route: WireHostProviderRoute) -> bool {
    &&& evidence.transport == route.transport
    &&& evidence.provider_id@ == route.provider_id@
    &&& evidence.requested_locator@ == route.locator@
    &&& evidence.locator_resolved
    &&& evidence.security_satisfied
    &&& !evidence.selected
    &&& evidence.rejection_reason is None
}

/// A listener of a server run: the route's identity, the endpoint bound for
/// its transport, and the listener state of the run (opened, unless the run
/// says otherwise).
pub open spec fn listener_from(
    listener: WireHostListenerEvidence,
    route: WireHostProviderRoute,
    bound: Seq<(WireConformanceTransport, String)>,
    state: ServerEvidenceState,
) -> bool {
    &&& listener.transport == route.transport
    &&& listener.provider_id@ == route.provider_id@
    &&& listener.requested_locator@ == route.locator@
    &&& opt_view(listener.bound_endpoint) == bound_for(bound, route.transport)
    &&& listener.state == match state.listener_state {
        Some(s) => s,
        None => WireHostListenerState::Opened,
    }
}

/// The first accepted transport that no route of the fixture has.
pub open spec fn stray_accepted(routes: Seq<WireHostProviderRoute>, accepted: Seq<WireConformanceTransport>) -> bool {
    exists|k: int| 0 <= k < accepted.len() && route_of_transport(routes, #[trigger] accepted[k]) is None
}

/// The route evidence of a server run: the fixture's routes as plain
/// candidates and as listeners, one accepted session per accepted transport
/// with the provider of that transport's route, and the run's state.
pub open spec fn server_evidence_of(
    evidence: WireHostRouteEvidence,
    fixture: WireHostRouteFixture,
    bound: Seq<(WireConformanceTransport, String)>,
    accepted: Seq<WireConformanceTransport>,
    state: ServerEvidenceState,
) -> bool {
    let routes = fixture.routes@;
    &&& evidence.application_endpoint@ == fixture.application_endpoint@
    &&& evidence.candidates@.len() == routes.len()
    &&& forall|i: int| 0 <= i < routes.len() ==> plain_candidate(#[trigger] evidence.candidates@[i], routes[i])
    &&& evidence.listeners@.len() == routes.len()
    &&& forall|i: int| 0 <= i < routes.len() ==> listener_from(#[trigger] evidence.listeners@[i], routes[i], bound, state)
    &&& evidence.accepted_sessions@.len() == accepted.len()
    &&& forall|k: int| 0 <= k < accepted.len() ==> {
        let session = #[trigger] evidence.accepted_sessions@[k];
        &&& session.transport == accepted[k]
        &&& session.active_transport == accepted[k]
        &&& session.provider_id@ == route_of_transport(routes, accepted[k])->Some_0.provider_id@
    }
    &&& evidence.atomic_rollback == state.atomic_rollback
    &&& evidence.logical_set_closed == state.logical_set_closed
    &&& opt_view(evidence.terminal_failure) == opt_view(state.terminal_failure)
}

fn find_bound(bound: &Vec<(WireConformanceTransport, String)>, transport: WireConformanceTransport) -> (found: Option<String>)
    ensures
        opt_view(found) == bound_for(bound@, transport),
{
    let mut i: usize = 0;
    assert(bound@.skip(0) =~= bound@);
    while i < bound.len()
        invariant
            i <= bound@.len(),
            bound_for(bound@, transport) == bound_for(bound@.skip(i as int), transport),
        decreases bound@.len() - i,
    {
        assert(bound@.skip(i as int)[0] == bound@[i as int]);
        assert(bound@.skip(i as int).drop_first() =~= bound@.skip(i + 1));
        if bound[i].0 == transport {
            return Some(bound[i].1.clone());
        }
        i = i + 1;
    }
    None
}

fn find_route_of_transport<'a>(routes: &'a Vec<WireHostProviderRoute>, transport: WireConformanceTransport) -> (found: Option<
    &'a WireHostProviderRoute,
>)
    ensures
        match route_of_transport(routes@, transport) {
            Some(r) => found matches Some(f) && *f == r,
            None => found is None,
        },
{
    let mut i: usize = 0;
    assert(routes@.skip(0) =~= routes@);
    while i < routes.len()
        invariant
            i <= routes@.len(),
            route_of_transport(routes@, transport) == route_of_transport(routes@.skip(i as int), transport),
        decreases routes@.len() - i,
    {
        assert(routes@.skip(i as int)[0] == routes@[i as int]);
        assert(routes@.skip(i as int).drop_first() =~= routes@.skip(i + 1));
        if routes[i].transport == transport {
            return Some(&routes[i]);
        }
        i = i + 1;
    }
    None
}

fn plain_candidates(routes: &Vec<WireHostProviderRoute>) -> (candidates: Vec<WireHostRouteCandidateEvidence>)
    ensures
        candidates@.len() == routes@.len(),
        forall|i: int| 0 <= i < routes@.len() ==> plain_candidate(#[trigger] candidates@[i], routes@[i]),
{
    let mut candidates: Vec<WireHostRouteCandidateEvidence> = Vec::new();
    let mut i: usize = 0;
    while i < routes.len()
        invariant
            i <= routes@.len(),
            candidates@.len() == i,
            forall|k: int| 0 <= k < i ==> plain_candidate(#[trigger] candidates@[k], routes@[k]),
        decreases routes@.len() - i,
    {
        candidates.push(WireHostRouteCandidateEvidence {
            transport: routes[i].transport,
            provider_id: routes[i].provider_id.clone(),
            requested_locator: routes[i].locator.clone(),
            locator_resolved: true,
            security_satisfied: true,
            selected: false,
            rejection_reason: None,
        });
        i = i + 1;
    }
    candidates
}

/// The route evidence of a server run, from its fixture, the endpoints its
/// listeners bound, the transports of the sessions it accepted, and how it
/// ended; an error where a session was accepted on a transport the fixture
/// has no route for.
pub fn server_evidence(
    fixture: &WireHostRouteFixture,
    bound: &Vec<(WireConformanceTransport, String)>,
    accepted: &Vec<WireConformanceTransport>,
    state: ServerEvidenceState,
) -> (result: Result<WireHostRouteEvidence, ResultsError>)
    ensures
        if stray_accepted(fixture.routes@, accepted@) {
            result matches Err(e) && e.message@ == "accepted server transport is outside the route fixture"@
        } else {
            result matches Ok(evidence) && server_evidence_of(evidence, *fixture, bound@, accepted@, state)
        },
{
    let routes = &fixture.routes;
    let mut listeners: Vec<WireHostListenerEvidence> = Vec::new();
    let mut i: usize = 0;
    while i < routes.len()
        invariant
            i <= routes@.len(),
            *routes == fixture.routes,
            listeners@.len() == i,
            forall|k: int| 0 <= k < i ==> listener_from(#[trigger] listeners@[k], routes@[k], bound@, state),
        decreases routes@.len() - i,
    {
        let listener_state = match state.listener_state {
            Some(s) => s,
            None => WireHostListenerState::Opened,
        };
        listeners.push(WireHostListenerEvidence {
            transport: routes[i].transport,
            provider_id: routes[i].provider_id.clone(),
            requested_locator: routes[i].locator.clone(),
            bound_endpoint: find_bound(bound, routes[i].transport),
            state: listener_state,
        });
        i = i + 1;
    }
    let mut sessions: Vec<WireHostAcceptedSessionEvidence> = Vec::new();
    let mut k: usize = 0;
    while k < accepted.len()
        invariant
            k <= accepted@.len(),
            *routes == fixture.routes,
            sessions@.len() == k,
            forall|j: int| 0 <= j < k ==> route_of_transport(routes@, #[trigger] accepted@[j]) is Some,
            forall|j: int| 0 <= j < k ==> {
                let session = #[trigger] sessions@[j];
                &&& session.transport == accepted@[j]
                &&& session.active_transport == accepted@[j]
                &&& session.provider_id@ == route_of_transport(routes@, accepted@[j])->Some_0.provider_id@
            },
        decreases accepted@.len() - k,
    {
        let transport = accepted[k];
        match find_route_of_transport(routes, transport) {
            None => {
                proof {
                    assert(route_of_transport(fixture.routes@, accepted@[k as int]) is None);
                }
                return Err(ResultsError { message: "accepted server transport is outside the route fixture".to_owned() });
            },
            Some(route) => {
                sessions.push(WireHostAcceptedSessionEvidence {
                    transport,
                    provider_id: route.provider_id.clone(),
                    active_transport: transport,
                });
            },
        }
        k = k + 1;
    }
    let evidence = WireHostRouteEvidence {
        application_endpoint: fixture.application_endpoint.clone(),
        candidates: plain_candidates(routes),
        listeners,
        accepted_sessions: sessions,
        atomic_rollback: state.atomic_rollback,
        logical_set_closed: state.logical_set_closed,
        terminal_failure: state.terminal_failure,
    };
    evidence_ok(evidence)
}

fn evidence_ok(evidence: WireHostRouteEvidence) -> (result: Result<WireHostRouteEvidence, ResultsError>)
    ensures
        result == Ok::<WireHostRouteEvidence, ResultsError>(evidence),
{
    Ok(evidence)
}

/// The first route with this provider.
pub open spec fn route_of_provider(routes: Seq<WireHostProviderRoute>, provider_id: Seq<char>) -> Option<
    WireHostProviderRoute,
>
    decreases routes.len(),
{
    if routes.len() == 0 {
        None
    } else if routes[0].provider_id@ == provider_id {
        Some(routes[0])
    } else {
        route_of_provider(routes.drop_first(), provider_id)
    }
}

/// The route evidence of a server run whose listeners rolled back after a
/// bind failure: plain candidates, no session, no bound endpoint, each
/// listener failed where the route of its provider injects the bind failure
/// and rolled back otherwise, the rollback done and the listener set closed.
pub open spec fn rollback_evidence_of(evidence: WireHostRouteEvidence, fixture: WireHostRouteFixture) -> bool {
    let routes = fixture.routes@;
    &&& evidence.application_endpoint@ == fixture.application_endpoint@
    &&& evidence.candidates@.len() == routes.len()
    &&& forall|i: int| 0 <= i < routes.len() ==> plain_candidate(#[trigger] evidence.candidates@[i], routes[i])
    &&& evidence.listeners@.len() == routes.len()
    &&& forall|i: int| 0 <= i < routes.len() ==> {
        let listener = #[trigger] evidence.listeners@[i];
        &&& listener.transport == routes[i].transport
        &&& listener.provider_id@ == routes[i].provider_id@
        &&& listener.requested_locator@ == routes[i].locator@
        &&& listener.bound_endpoint is None
        &&& listener.state == if route_of_provider(routes, routes[i].provider_id@)->Some_0.injected_failures@.contains(
            WireHostRouteInjectedFailure::BindFailure,
        ) {
            WireHostListenerState::Failed
        } else {
            WireHostListenerState::RolledBack
        }
    }
    &&& evidence.accepted_sessions@.len() == 0
    &&& evidence.atomic_rollback
    &&& evidence.logical_set_closed
    &&& evidence.terminal_failure is None
}

fn find_route_of_provider<'a>(routes: &'a Vec<WireHostProviderRoute>, provider_id: &String) -> (found: Option<
    &'a WireHostProviderRoute,
>)
    ensures
        match route_of_provider(routes@, provider_id@) {
            Some(r) => found matches Some(f) && *f == r,
            None => found is None,
        },
{
    let mut i: usize = 0;
    assert(routes@.skip(0) =~= routes@);
    while i < routes.len()
        invariant
            i <= routes@.len(),
            route_of_provider(routes@, provider_id@) == route_of_provider(routes@.skip(i as int), provider_id@),
        decreases routes@.len() - i,
    {
        assert(routes@.skip(i as int)[0] == routes@[i as int]);
        assert(routes@.skip(i as int).drop_first() =~= routes@.skip(i + 1));
        if routes[i].provider_id == *provider_id {
            return Some(&routes[i]);
        }
        i = i + 1;
    }
    None
}

proof fn lemma_route_of_provider_found(routes: Seq<WireHostProviderRoute>, i: int)
    requires
        0 <= i < routes.len(),
    ensures
        route_of_provider(routes, routes[i].provider_id@) is Some,
    decreases i,
{
    if i > 0 {
        assert(routes.drop_first()[i - 1] == routes[i]);
        lemma_route_of_provider_found(routes.drop_first(), i - 1);
    }
}

/// The route evidence of a server run that rolled back its listeners after
/// a bind failure.
pub fn rollback_evidence(fixture: &WireHostRouteFixture) -> (result: Result<WireHostRouteEvidence, ResultsError>)
    ensures
        result matches Ok(evidence) && rollback_evidence_of(evidence, *fixture),
{
    let routes = &fixture.routes;
    let mut listeners: Vec<WireHostListenerEvidence> = Vec::new();
    let mut i: usize = 0;
    while i < routes.len()
        invariant
            i <= routes@.len(),
            *routes == fixture.routes,
            listeners@.len() == i,
            forall|k: int| 0 <= k < i ==> {
                let listener = #[trigger] listeners@[k];
                &&& listener.transport == routes@[k].transport
                &&& listener.provider_id@ == routes@[k].provider_id@
                &&& listener.requested_locator@ == routes@[k].locator@
                &&& listener.bound_endpoint is None
                &&& listener.state == if route_of_provider(routes@, routes@[k].provider_id@)->Some_0.injected_failures@.contains(
                    WireHostRouteInjectedFailure::BindFailure,
                ) {
                    WireHostListenerState::Failed
                } else {
                    WireHostListenerState::RolledBack
                }
            },
        decreases routes@.len() - i,
    {
        proof {
            lemma_route_of_provider_found(routes@, i as int);
        }
        let owner = match find_route_of_provider(routes, &routes[i].provider_id) {
            Some(r) => r,
            None => {
                return Err(ResultsError { message: "rollback listener is outside the route fixture".to_owned() });
            },
        };
        let state = if has_bind_failure(&owner.injected_failures) {
            WireHostListenerState::Failed
        } else {
            WireHostListenerState::RolledBack
        };
        listeners.push(WireHostListenerEvidence {
            transport: routes[i].transport,
            provider_id: routes[i].provider_id.clone(),
            requested_locator: routes[i].locator.clone(),
            bound_endpoint: None,
            state,
        });
        i = i + 1;
    }
    Ok(WireHostRouteEvidence {
        application_endpoint: fixture.application_endpoint.clone(),
        candidates: plain_candidates(routes),
        listeners,
        accepted_sessions: Vec::new(),
        atomic_rollback: true,
        logical_set_closed: true,
        terminal_failure: None,
    })
}

/// A passed result of a host-route scenario with its route evidence.
pub fn passed_result(
    scenario: &WireConformanceScenario,
    terminal: WireConformanceTerminal,
    evidence: WireHostRouteEvidence,
) -> (result: WireConformanceCaseResult)
    ensures
        result.id@ == scenario.id@,
        result.outcome == ApiProfileCaseOutcome::Passed,
        result.terminal == terminal,
        result.observed_frames@.len() == 0,
        result.route_evidence == Some(evidence),
        opt_view(result.message) == Some("independent host-route target executed the public SDK host API"@),
        result.evidence_paths@.len() == 0,
{
    WireConformanceCaseResult {
        id: scenario.id.clone(),
        outcome: ApiProfileCaseOutcome::Passed,
        terminal,
        observed_frames: Vec::new(),
        route_evidence: Some(evidence),
        message: Some("independent host-route target executed the public SDK host API".to_owned()),
        evidence_paths: Vec::new(),
    }
}

/// A failed result of a host-route scenario with the reason it failed.
pub fn failed_result(scenario: &WireConformanceScenario, message: String) -> (result: WireConformanceCaseResult)
    ensures
        result.id@ == scenario.id@,
        result.outcome == ApiProfileCaseOutcome::Failed,
        result.terminal == WireConformanceTerminal::Error,
        result.observed_frames@.len() == 0,
        result.route_evidence is None,
        opt_view(result.message) == Some(message@),
        result.evidence_paths@.len() == 0,
{
    WireConformanceCaseResult {
        id: scenario.id.clone(),
        outcome: ApiProfileCaseOutcome::Failed,
        terminal: WireConformanceTerminal::Error,
        observed_frames: Vec::new(),
        route_evidence: None,
        message: Some(message),
        evidence_paths: Vec::new(),
    }
}

impl WireConformanceCaseResult {
    /// The result with its message replaced.
    pub fn with_message(self, message: String) -> (result: WireConformanceCaseResult)
        ensures
            result == (WireConformanceCaseResult { message: Some(message), ..self }),
    {
        WireConformanceCaseResult { message: Some(message), ..self }
    }
}

/// What a host-route driver's report lacks: the identity of the run, or
/// exactly one result, for the requested scenario.
pub open spec fn driver_report_problem(
    report: WireConformanceCaseResultReport,
    scenario: WireConformanceScenario,
    suite_version: Seq<char>,
    target_name: Seq<char>,
) -> Option<Seq<char>> {
    if report.protocol_version@ != "nnrp-1-preview4"@ || report.suite_version@ != suite_version || report.target_name@
        != target_name {
        Some("host-route target report identity "@ + report.protocol_version@ + "/"@ + report.suite_version@ + "/"@
            + report.target_name@ + " does not match nnrp-1-preview4/"@ + suite_version + "/"@ + target_name)
    } else if report.results@.len() != 1 || report.results@[0].id@ != scenario.id@ {
        Some("host-route target must emit exactly the requested scenario result"@)
    } else {
        None
    }
}

/// The one result of a host-route driver's report, after checking that the
/// report is of this run and holds exactly the requested scenario's result.
pub fn driver_result(
    report: WireConformanceCaseResultReport,
    scenario: &WireConformanceScenario,
    suite_version: &str,
    target_name: &str,
) -> (result: Result<WireConformanceCaseResult, FixtureError>)
    ensures
        match driver_report_problem(report, *scenario, suite_version@, target_name@) {
            Some(message) => result matches Err(e) && e.is_validation(message),
            None => result == Ok::<WireConformanceCaseResult, FixtureError>(report.results@[0]),
        },
{
    let ghost original = report;
    let protocol = "nnrp-1-preview4".to_owned();
    let suite = suite_version.to_owned();
    let target = target_name.to_owned();
    if report.protocol_version != protocol || report.suite_version != suite || report.target_name != target {
        let mut message = String::new();
        push_text(&mut message, "host-route target report identity ");
        push_text(&mut message, report.protocol_version.as_str());
        push_text(&mut message, "/");
        push_text(&mut message, report.suite_version.as_str());
        push_text(&mut message, "/");
        push_text(&mut message, report.target_name.as_str());
        push_text(&mut message, " does not match nnrp-1-preview4/");
        push_text(&mut message, suite_version);
        push_text(&mut message, "/");
        push_text(&mut message, target_name);
        return Err(FixtureError::Validation { message });
    }
    if report.results.len() != 1 || report.results[0].id != scenario.id {
        return Err(FixtureError::Validation {
            message: "host-route target must emit exactly the requested scenario result".to_owned(),
        });
    }
    let mut results = report.results;
    let first = results.remove(0);
    Ok(first)
}

/// The readiness report of a server run: one listener per bound endpoint, in
/// the order given, each with the provider of its transport's route.
pub open spec fn ready_report_of(
    report: WireHostRouteReadyReport,
    scenario: WireConformanceScenario,
    fixture: WireHostRouteFixture,
    bound: Seq<(WireConformanceTransport, String)>,
) -> bool {
    &&& opt_view(report.schema) == Some(
        "https://github.com/NagareWorks/nnrp-conformance/schemas/wire-host-route-ready.schema.json"@,
    )
    &&& report.protocol_version@ == "nnrp-1-preview4"@
    &&& report.scenario_id@ == scenario.id@
    &&& report.listeners@.len() == bound.len()
    &&& forall|k: int| 0 <= k < bound.len() ==> {
        let listener = #[trigger] report.listeners@[k];
        &&& listener.transport == bound[k].0
        &&& listener.provider_id@ == route_of_transport(fixture.routes@, bound[k].0)->Some_0.provider_id@
        &&& listener.bound_endpoint@ == bound[k].1@
    }
}

/// Some endpoint was bound on a transport the fixture has no route for.
pub open spec fn stray_bound(routes: Seq<WireHostProviderRoute>, bound: Seq<(WireConformanceTransport, String)>) -> bool {
    exists|k: int| 0 <= k < bound.len() && route_of_transport(routes, (#[trigger] bound[k]).0) is None
}

/// The readiness report a server target writes once its listeners are
/// bound; an error where an endpoint was bound on a transport the fixture
/// has no route for.
pub fn ready_report(
    scenario: &WireConformanceScenario,
    fixture: &WireHostRouteFixture,
    bound: &Vec<(WireConformanceTransport, String)>,
) -> (result: Result<WireHostRouteReadyReport, ResultsError>)
    ensures
        if stray_bound(fixture.routes@, bound@) {
            result matches Err(e) && e.message@ == "bound server transport is outside the route fixture"@
        } else {
            result matches Ok(report) && ready_report_of(report, *scenario, *fixture, bound@)
        },
{
    let mut listeners: Vec<WireHostReadyListener> = Vec::new();
    let mut k: usize = 0;
    while k < bound.len()
        invariant
            k <= bound@.len(),
            listeners@.len() == k,
            forall|j: int| 0 <= j < k ==> route_of_transport(fixture.routes@, (#[trigger] bound@[j]).0) is Some,
            forall|j: int| 0 <= j < k ==> {
                let listener = #[trigger] listeners@[j];
                &&& listener.transport == bound@[j].0
                &&& listener.provider_id@ == route_of_transport(fixture.routes@, bound@[j].0)->Some_0.provider_id@
                &&& listener.bound_endpoint@ == bound@[j].1@
            },
        decreases bound@.len() - k,
    {
        let transport = bound[k].0;
        match find_route_of_transport(&fixture.routes, transport) {
            None => {
                proof {
                    assert(route_of_transport(fixture.routes@, bound@[k as int].0) is None);
                }
                return Err(ResultsError { message: "bound server transport is outside the route fixture".to_owned() });
            },
            Some(route) => {
                listeners.push(WireHostReadyListener {
                    transport,
                    provider_id: route.provider_id.clone(),
                    bound_endpoint: bound[k].1.clone(),
                });
            },
        }
        k = k + 1;
    }
    proof {
        reveal_strlit("https://github.com/NagareWorks/nnrp-conformance/schemas/wire-host-route-ready.schema.json");
        reveal_strlit("nnrp-1-preview4");
    }
    let report = WireHostRouteReadyReport {
        schema: Some("https://github.com/NagareWorks/nnrp-conformance/schemas/wire-host-route-ready.schema.json".to_owned()),
        protocol_version: "nnrp-1-preview4".to_owned(),
        scenario_id: scenario.id.clone(),
        listeners,
    };
    ready_ok(report)
}

fn ready_ok(report: WireHostRouteReadyReport) -> (result: Result<WireHostRouteReadyReport, ResultsError>)
    ensures
        result == Ok::<WireHostRouteReadyReport, ResultsError>(report),
{
    Ok(report)
}

/// The first listener of a route's transport and provider.
pub open spec fn listener_for(listeners: Seq<WireHostReadyListener>, route: WireHostProviderRoute) -> Option<
    WireHostReadyListener,
>
    decreases listeners.len(),
{
    if listeners.len() == 0 {
        None
    } else if listeners[0].transport == route.transport && listeners[0].provider_id@ == route.provider_id@ {
        Some(listeners[0])
    } else {
        listener_for(listeners.drop_first(), route)
    }
}

/// The first route, in order, that no listener reports.
pub open spec fn unready_route(listeners: Seq<WireHostReadyListener>, routes: Seq<WireHostProviderRoute>) -> Option<
    WireHostProviderRoute,
>
    decreases routes.len(),
{
    if routes.len() == 0 {
        None
    } else if listener_for(listeners, routes[0]) is None {
        Some(routes[0])
    } else {
        unready_route(listeners, routes.drop_first())
    }
}

/// What makes a readiness report unusable for a scenario: no host-route
/// fixture, another run, a route it omits, or listeners beyond the routes.
pub open spec fn readiness_problem(report: WireHostRouteReadyReport, scenario: WireConformanceScenario) -> Option<Seq<char>> {
    match scenario.host_route {
        None => Some("readiness requires a host-route fixture"@),
        Some(fixture) => if report.protocol_version@ != "nnrp-1-preview4"@ || report.scenario_id@ != scenario.id@ {
            Some("host-route readiness identity does not match the scenario"@)
        } else {
            match unready_route(report.listeners@, fixture.routes@) {
                Some(route) => Some("host-route readiness omitted "@ + transport_name(route.transport) + "/"@
                    + route.provider_id@),
                None => if report.listeners@.len() != fixture.routes@.len() {
                    Some("host-route readiness contains listeners outside the scenario"@)
                } else {
                    None
                },
            }
        },
    }
}

/// A route resolved to the endpoint its listener bound: the route with its
/// locator replaced.
pub open spec fn resolved_route(resolved: WireHostProviderRoute, route: WireHostProviderRoute, endpoint: Seq<char>) -> bool {
    &&& resolved.transport == route.transport
    &&& resolved.provider_id@ == route.provider_id@
    &&& resolved.locator@ == endpoint
    &&& resolved.security == route.security
    &&& resolved.injected_failures@ == route.injected_failures@
}

fn find_listener<'a>(listeners: &'a Vec<WireHostReadyListener>, route: &WireHostProviderRoute) -> (found: Option<
    &'a WireHostReadyListener,
>)
    ensures
        match listener_for(listeners@, *route) {
            Some(l) => found matches Some(f) && *f == l,
            None => found is None,
        },
{
    let mut i: usize = 0;
    assert(listeners@.skip(0) =~= listeners@);
    while i < listeners.len()
        invariant
            i <= listeners@.len(),
            listener_for(listeners@, *route) == listener_for(listeners@.skip(i as int), *route),
        decreases listeners@.len() - i,
    {
        assert(listeners@.skip(i as int)[0] == listeners@[i as int]);
        assert(listeners@.skip(i as int).drop_first() =~= listeners@.skip(i + 1));
        if listeners[i].transport == route.transport && listeners[i].provider_id == route.provider_id {
            return Some(&listeners[i]);
        }
        i = i + 1;
    }
    None
}

/// The scenario's routes resolved to the endpoints a readiness report
/// gives, after checking that the report is of this scenario and reports
/// exactly its routes.
pub fn ready_routes(report: &WireHostRouteReadyReport, scenario: &WireConformanceScenario) -> (result: Result<
    Vec<WireHostProviderRoute>,
    FixtureError,
>)
    ensures
        match readiness_problem(*report, *scenario) {
            Some(message) => result matches Err(e) && e.is_validation(message),
            None => result matches Ok(resolved) && {
                let routes = scenario.host_route->Some_0.routes@;
                &&& resolved@.len() == routes.len()
                &&& forall|i: int| 0 <= i < routes.len() ==> resolved_route(
                    #[trigger] resolved@[i],
                    routes[i],
                    listener_for(report.listeners@, routes[i])->Some_0.bound_endpoint@,
                )
            },
        },
{
    let fixture = match &scenario.host_route {
        None => {
            return Err(FixtureError::Validation { message: "readiness requires a host-route fixture".to_owned() });
        },
        Some(fixture) => fixture,
    };
    let protocol = "nnrp-1-preview4".to_owned();
    if report.protocol_version != protocol || report.scenario_id != scenario.id {
        return Err(FixtureError::Validation {
            message: "host-route readiness identity does not match the scenario".to_owned(),
        });
    }
    let routes = &fixture.routes;
    let mut resolved: Vec<WireHostProviderRoute> = Vec::new();
    let mut i: usize = 0;
    assert(routes@.skip(0) =~= routes@);
    while i < routes.len()
        invariant
            i <= routes@.len(),
            scenario.host_route matches Some(f) && f.routes@ == routes@,
            report.protocol_version@ == "nnrp-1-preview4"@,
            report.scenario_id@ == scenario.id@,
            unready_route(report.listeners@, routes@) == unready_route(report.listeners@, routes@.skip(i as int)),
            resolved@.len() == i,
            forall|k: int| 0 <= k < i ==> listener_for(report.listeners@, #[trigger] routes@[k]) is Some,
            forall|k: int| 0 <= k < i ==> resolved_route(
                #[trigger] resolved@[k],
                routes@[k],
                listener_for(report.listeners@, routes@[k])->Some_0.bound_endpoint@,
            ),
        decreases routes@.len() - i,
    {
        let route = &routes[i];
        assert(routes@.skip(i as int)[0] == *route);
        assert(routes@.skip(i as int).drop_first() =~= routes@.skip(i + 1));
        match find_listener(&report.listeners, route) {
            None => {
                let mut message = String::new();
                push_text(&mut message, "host-route readiness omitted ");
                push_transport_name(&mut message, route.transport);
                push_text(&mut message, "/");
                push_text(&mut message, route.provider_id.as_str());
                return Err(FixtureError::Validation { message });
            },
            Some(listener) => {
                resolved.push(WireHostProviderRoute {
                    transport: route.transport,
                    provider_id: route.provider_id.clone(),
                    locator: listener.bound_endpoint.clone(),
                    security: route.security,
                    injected_failures: copy_copy_list(&route.injected_failures),
                });
            },
        }
        i = i + 1;
    }
    assert(routes@.skip(i as int).len() == 0);
    if report.listeners.len() != resolved.len() {
        return Err(FixtureError::Validation {
            message: "host-route readiness contains listeners outside the scenario".to_owned(),
        });
    }
    Ok(resolved)
}

} // verus!
