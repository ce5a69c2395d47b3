use vstd::prelude::*;

use crate::fixtures::{
    FixtureError, WireConformanceScenario, WireConformanceTransport, WireHostProviderRoute, WireHostRouteEvidence,
    WireHostRouteInjectedFailure, WireHostRouteSecurityMode,
};
use crate::host_route::{push_transport_name, transport_name};
use crate::text::push_text;
use crate::wire_copies::copy_copy_list;

verus! {

/// A client route the suite serves with a live peer: one without injected
/// failures whose provider is not the uninstalled QUIC provider.
pub open spec fn gets_live_peer(route: WireHostProviderRoute) -> bool {
    route.injected_failures@.len() == 0 && route.provider_id@ != "example.transport.quic.uninstalled"@
}

/// Whether the suite serves a client route with a live peer.
pub fn route_gets_live_peer(route: &WireHostProviderRoute) -> (live: bool)
    ensures
        live == gets_live_peer(*route),
{
    let uninstalled = "example.transport.quic.uninstalled".to_owned();
    route.injected_failures.len() == 0 && route.provider_id != uninstalled
}

/// A security mode that needs test certificates.
pub open spec fn secure_mode(mode: WireHostRouteSecurityMode) -> bool {
    mode == WireHostRouteSecurityMode::TlsServerAuth || mode == WireHostRouteSecurityMode::MutualTls || mode
        == WireHostRouteSecurityMode::Wss || mode == WireHostRouteSecurityMode::BrowserHost
}

/// Whether a scenario needs test certificates: some route of its host-route
/// fixture uses a secure mode.
pub fn needs_security(scenario: &WireConformanceScenario) -> (needs: bool)
    ensures
        needs == (scenario.host_route matches Some(fixture) && exists|i: int|
            0 <= i < fixture.routes@.len() && secure_mode((#[trigger] fixture.routes@[i]).security.mode)),
{
    let fixture = match &scenario.host_route {
        Some(fixture) => fixture,
        None => {
            return false;
        },
    };
    let mut i: usize = 0;
    while i < fixture.routes.len()
        invariant
            i <= fixture.routes@.len(),
            scenario.host_route matches Some(f) && f.routes@ == fixture.routes@,
            forall|k: int| 0 <= k < i ==> !secure_mode((#[trigger] fixture.routes@[k]).security.mode),
        decreases fixture.routes@.len() - i,
    {
        let mode = fixture.routes[i].security.mode;
        let secure = match mode {
            WireHostRouteSecurityMode::TlsServerAuth | WireHostRouteSecurityMode::MutualTls
            | WireHostRouteSecurityMode::Wss | WireHostRouteSecurityMode::BrowserHost => true,
            WireHostRouteSecurityMode::Plain => false,
        };
        if secure {
            return true;
        }
        i = i + 1;
    }
    false
}

/// A route a closure probe reconnects to: one that injects neither a bind
/// failure nor a terminal listener failure.
pub open spec fn probed_after_closure(route: WireHostProviderRoute) -> bool {
    !route.injected_failures@.contains(WireHostRouteInjectedFailure::BindFailure)
        && !route.injected_failures@.contains(WireHostRouteInjectedFailure::TerminalListenerFailure)
}

fn injects_listener_failure(failures: &Vec<WireHostRouteInjectedFailure>) -> (found: bool)
    ensures
        found == (failures@.contains(WireHostRouteInjectedFailure::BindFailure) || failures@.contains(
            WireHostRouteInjectedFailure::TerminalListenerFailure,
        )),
{
    let mut i: usize = 0;
    while i < failures.len()
        invariant
            i <= failures@.len(),
            forall|k: int| 0 <= k < i ==> failures@[k] != WireHostRouteInjectedFailure::BindFailure && failures@[k]
                != WireHostRouteInjectedFailure::TerminalListenerFailure,
        decreases failures@.len() - i,
    {
        match failures[i] {
            WireHostRouteInjectedFailure::BindFailure | WireHostRouteInjectedFailure::TerminalListenerFailure => {
                assert(failures@.contains(failures@[i as int]));
                return true;
            },
            _ => {},
        }
        i = i + 1;
    }
    false
}

/// The routes a closure probe reconnects to, in order.
pub open spec fn closure_probe_routes_of(routes: Seq<WireHostProviderRoute>) -> Seq<WireHostProviderRoute>
    decreases routes.len(),
{
    if routes.len() == 0 {
        Seq::empty()
    } else if probed_after_closure(routes.last()) {
        closure_probe_routes_of(routes.drop_last()).push(routes.last())
    } else {
        closure_probe_routes_of(routes.drop_last())
    }
}

/// The routes a closure probe reconnects to after a server target reported
/// rollback or closure: those that inject no listener failure, in order.
pub fn closure_probe_routes(routes: &Vec<WireHostProviderRoute>) -> (probed: Vec<WireHostProviderRoute>)
    ensures
        probed@.len() == closure_probe_routes_of(routes@).len(),
        forall|k: int| 0 <= k < probed@.len() ==> crate::wire_copies::same_route(
            #[trigger] probed@[k],
            closure_probe_routes_of(routes@)[k],
        ),
{
    let mut probed: Vec<WireHostProviderRoute> = Vec::new();
    let mut i: usize = 0;
    assert(routes@.take(0) =~= Seq::<WireHostProviderRoute>::empty());
    while i < routes.len()
        invariant
            i <= routes@.len(),
            probed@.len() == closure_probe_routes_of(routes@.take(i as int)).len(),
            forall|k: int| 0 <= k < probed@.len() ==> crate::wire_copies::same_route(
                #[trigger] probed@[k],
                closure_probe_routes_of(routes@.take(i as int))[k],
            ),
        decreases routes@.len() - i,
    {
        let route = &routes[i];
        assert(routes@.take(i + 1).drop_last() =~= routes@.take(i as int));
        assert(routes@.take(i + 1).last() == *route);
        if !injects_listener_failure(&route.injected_failures) {
            probed.push(WireHostProviderRoute {
                transport: route.transport,
                provider_id: route.provider_id.clone(),
                locator: route.locator.clone(),
                security: route.security,
                injected_failures: copy_copy_list(&route.injected_failures),
            });
        }
        i = i + 1;
    }
    assert(routes@.take(i as int) =~= routes@);
    probed
}

/// The carrier a client target reports it selected: the transport and
/// provider of its first selected candidate.
pub fn selected_carrier(evidence: &WireHostRouteEvidence) -> (carrier: Option<(WireConformanceTransport, String)>)
    ensures
        match carrier {
            Some((t, p)) => exists|i: int| {
                &&& 0 <= i < evidence.candidates@.len()
                &&& (#[trigger] evidence.candidates@[i]).selected
                &&& forall|j: int| 0 <= j < i ==> !evidence.candidates@[j].selected
                &&& evidence.candidates@[i].transport == t
                &&& evidence.candidates@[i].provider_id@ == p@
            },
            None => forall|i: int| 0 <= i < evidence.candidates@.len() ==> !(#[trigger] evidence.candidates@[i]).selected,
        },
{
    let mut i: usize = 0;
    while i < evidence.candidates.len()
        invariant
            i <= evidence.candidates@.len(),
            forall|j: int| 0 <= j < i ==> !(#[trigger] evidence.candidates@[j]).selected,
        decreases evidence.candidates@.len() - i,
    {
        if evidence.candidates[i].selected {
            let candidate = &evidence.candidates[i];
            assert(evidence.candidates@[i as int].selected);
            return Some((candidate.transport, candidate.provider_id.clone()));
        }
        i = i + 1;
    }
    None
}

/// Checks that the carrier the suite accepted is the one the client target
/// reports it selected.
pub fn check_selected_carrier(
    expected: &(WireConformanceTransport, String),
    observed: &(WireConformanceTransport, String),
) -> (result: Result<(), FixtureError>)
    ensures
        (expected.0 == observed.0 && expected.1@ == observed.1@) ==> result is Ok,
        !(expected.0 == observed.0 && expected.1@ == observed.1@) ==> (result matches Err(e) && e.is_validation(
            "target selected "@ + transport_name(expected.0) + "/"@ + expected.1@ + " but suite accepted "@
                + transport_name(observed.0) + "/"@ + observed.1@,
        )),
{
    if expected.0 == observed.0 && expected.1 == observed.1 {
        return Ok(());
    }
    let mut message = String::new();
    push_text(&mut message, "target selected ");
    push_transport_name(&mut message, expected.0);
    push_text(&mut message, "/");
    push_text(&mut message, expected.1.as_str());
    push_text(&mut message, " but suite accepted ");
    push_transport_name(&mut message, observed.0);
    push_text(&mut message, "/");
    push_text(&mut message, observed.1.as_str());
    Err(FixtureError::Validation { message })
}

} // verus!
