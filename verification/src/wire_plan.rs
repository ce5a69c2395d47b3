use vstd::prelude::*;

use crate::fixtures::{
    FixtureError, WireConformanceFrameDirection, WireConformanceFramePayloadInvariant, WireConformanceMode,
    WireConformanceScenario, WireConformanceTargetManifest, WireConformanceTransport, WireHostCredentialOwner,
    WireHostPlatform, WireHostProviderRoute, WireHostRole, WireHostRouteFixture, WireHostRouteProviderCapability,
    WireHostRouteRejectionReason, WireHostRouteSecurityMode,
};
use crate::fixtures::{AdapterArtifactContext, WireConformanceExecutionPlan, WireConformanceTransportEndpoint};
use crate::host_route::{push_transport_name, route_provider_ids, route_transports, transport_name};
use crate::plan::{claims_all, claims_all_exec, contains_text};
use crate::profile_checks::{endpoint_problem, validate_wire_transport_endpoint};
use crate::text::opt_view;
use crate::wire_copies::{copy_providers, copy_scenario, same_provider, same_scenario};
use crate::sorted_text::texts;
use crate::text::{has_prefix, push_text, starts_with_text};
use crate::wire_lists::{contains_mode, contains_platform, contains_reason, contains_security_mode, contains_transport};
use crate::wire_names::{
    direction_name, mode_name, platform_name, push_direction_name, push_mode_name, push_platform_name, push_role_name,
    push_security_mode_name, role_name, security_mode_name,
};

verus! {

/// The first required frame, in order, that is not among the allowed frames.
pub open spec fn first_frame_outside(frames: Seq<Seq<char>>, allowed: Seq<Seq<char>>) -> Option<Seq<char>>
    decreases frames.len(),
{
    if frames.len() == 0 {
        None
    } else if !allowed.contains(frames[0]) {
        Some(frames[0])
    } else {
        first_frame_outside(frames.drop_first(), allowed)
    }
}

/// An optional frame direction as a report prints it.
pub open spec fn optional_direction_text(direction: Option<WireConformanceFrameDirection>) -> Seq<char> {
    match direction {
        Some(d) => "Some("@ + direction_name(d) + ")"@,
        None => "None"@,
    }
}

/// The first payload rule, in order, that lacks a frame or fields, names a
/// frame outside the allowed frames, or repeats an earlier rule's frame and
/// direction: the message that says so.
pub open spec fn payload_rule_problem(
    id: Seq<char>,
    allowed: Seq<Seq<char>>,
    rules: Seq<WireConformanceFramePayloadInvariant>,
) -> Option<Seq<char>>
    decreases rules.len(),
{
    if rules.len() == 0 {
        None
    } else {
        let earlier = payload_rule_problem(id, allowed, rules.drop_last());
        let rule = rules.last();
        if earlier is Some {
            earlier
        } else if rule.frame@.len() == 0 || rule.fields@.len() == 0 {
            Some("wire scenario "@ + id + " frame payload invariants require a frame and at least one field"@)
        } else if !allowed.contains(rule.frame@) {
            Some("wire scenario "@ + id + " payload invariant references frame "@ + rule.frame@
                + " outside allowed_frames"@)
        } else if exists|k: int|
            0 <= k < rules.len() - 1 && (#[trigger] rules[k]).frame@ == rule.frame@ && rules[k].direction
                == rule.direction {
            Some("wire scenario "@ + id + " declares duplicate payload invariants for frame "@ + rule.frame@
                + " and direction "@ + optional_direction_text(rule.direction))
        } else {
            None
        }
    }
}

/// The mode a suite runs in for a host role: the suite serves a client
/// target and calls a server target.
pub open spec fn host_role_mode(role: WireHostRole) -> WireConformanceMode {
    match role {
        WireHostRole::Client => WireConformanceMode::SuiteAsServer,
        WireHostRole::Server => WireConformanceMode::SuiteAsClient,
    }
}

/// What is wrong with the shape of a wire scenario, checked in order; none
/// if nothing is.
pub open spec fn scenario_shape_problem(scenario: WireConformanceScenario) -> Option<Seq<char>> {
    let id = scenario.id@;
    let expect = scenario.expect;
    let frames = texts(expect.frames@);
    let allowed = texts(expect.allowed_frames@);
    if (scenario.transport is Some) == (scenario.host_route is Some) {
        Some("wire scenario "@ + id + " must declare exactly one of transport or host_route"@)
    } else if (scenario.host_route is Some) != (expect.route is Some) {
        Some("wire scenario "@ + id + " must declare route expectations exactly when it declares host_route"@)
    } else if scenario.host_route is Some && expect.result_drop_reason_code is Some {
        Some("wire host-route scenario "@ + id + " must not declare result_drop_reason_code"@)
    } else if scenario.host_route is Some && expect.frame_payload_invariants@.len() > 0 {
        Some("wire host-route scenario "@ + id + " must not declare frame_payload_invariants"@)
    } else if expect.result_drop_reason_code == Some(0u16) {
        Some("wire scenario "@ + id + " result_drop_reason_code must be non-zero"@)
    } else if expect.result_drop_reason_code is Some && !frames.contains("RESULT_DROP_REASON"@) {
        Some("wire scenario "@ + id + " declares result_drop_reason_code without RESULT_DROP_REASON"@)
    } else if scenario.transport is Some {
        if frames.len() == 0 || allowed.len() == 0 {
            Some("wire frame scenario "@ + id + " must declare ordered frames and allowed_frames"@)
        } else if first_frame_outside(frames, allowed) is Some {
            Some("wire scenario "@ + id + " requires frame "@ + first_frame_outside(frames, allowed)->0
                + " outside allowed_frames"@)
        } else {
            payload_rule_problem(id, allowed, expect.frame_payload_invariants@)
        }
    } else if frames.len() > 0 || allowed.len() > 0 {
        Some("wire host-route scenario "@ + id + " must use route evidence instead of frame expectations"@)
    } else {
        let role = scenario.host_route->0.role;
        if scenario.mode != host_role_mode(role) {
            Some("wire scenario "@ + id + " uses "@ + mode_name(scenario.mode) + " for a "@ + role_name(role)
                + " host route; expected "@ + mode_name(host_role_mode(role)))
        } else {
            None
        }
    }
}

fn validation(message: String) -> (error: FixtureError)
    ensures
        error.is_validation(message@),
{
    FixtureError::Validation { message }
}

fn scenario_message(prefix: &str, id: &String, suffix: &str) -> (message: String)
    ensures
        message@ == prefix@ + id@ + suffix@,
{
    let mut message = String::new();
    push_text(&mut message, prefix);
    push_text(&mut message, id.as_str());
    push_text(&mut message, suffix);
    message
}

fn first_outside(frames: &Vec<String>, allowed: &Vec<String>) -> (found: Option<usize>)
    ensures
        match first_frame_outside(texts(frames@), texts(allowed@)) {
            Some(f) => found matches Some(k) && k < frames@.len() && frames@[k as int]@ == f,
            None => found is None,
        },
{
    let ghost all = texts(frames@);
    let ghost a = texts(allowed@);
    let mut k: usize = 0;
    assert(all.skip(0) =~= all);
    while k < frames.len()
        invariant
            k <= frames@.len(),
            all == texts(frames@),
            a == texts(allowed@),
            first_frame_outside(all, a) == first_frame_outside(all.skip(k as int), a),
        decreases frames@.len() - k,
    {
        assert(all.skip(k as int)[0] == frames@[k as int]@);
        assert(all.skip(k as int).drop_first() =~= all.skip(k + 1));
        if !contains_text(allowed, &frames[k]) {
            return Some(k);
        }
        k = k + 1;
    }
    assert(all.skip(k as int).len() == 0);
    None
}

proof fn lemma_rule_problem_prefix(id: Seq<char>, allowed: Seq<Seq<char>>, rules: Seq<WireConformanceFramePayloadInvariant>, n: int)
    requires
        0 <= n <= rules.len(),
        payload_rule_problem(id, allowed, rules.take(n)) is Some,
    ensures
        payload_rule_problem(id, allowed, rules) == payload_rule_problem(id, allowed, rules.take(n)),
    decreases rules.len() - n,
{
    if n < rules.len() {
        assert(rules.take(n + 1).drop_last() =~= rules.take(n));
        lemma_rule_problem_prefix(id, allowed, rules, n + 1);
    } else {
        assert(rules.take(n) =~= rules);
    }
}

fn validate_payload_rules(scenario: &WireConformanceScenario) -> (result: Result<(), FixtureError>)
    ensures
        match payload_rule_problem(scenario.id@, texts(scenario.expect.allowed_frames@), scenario.expect.frame_payload_invariants@) {
            Some(message) => result matches Err(e) && e.is_validation(message),
            None => result is Ok,
        },
{
    let rules = &scenario.expect.frame_payload_invariants;
    let ghost id = scenario.id@;
    let ghost allowed = texts(scenario.expect.allowed_frames@);
    let mut i: usize = 0;
    while i < rules.len()
        invariant
            i <= rules@.len(),
            id == scenario.id@,
            allowed == texts(scenario.expect.allowed_frames@),
            *rules == scenario.expect.frame_payload_invariants,
            payload_rule_problem(id, allowed, rules@.take(i as int)) is None,
        decreases rules@.len() - i,
    {
        let rule = &rules[i];
        let ghost prior = rules@.take(i as int);
        let ghost next = rules@.take(i + 1);
        proof {
            assert(next.drop_last() =~= prior);
            assert(next.last() == *rule);
        }
        if rule.frame.as_str().is_empty() || rule.fields.len() == 0 {
            let message = scenario_message(
                "wire scenario ",
                &scenario.id,
                " frame payload invariants require a frame and at least one field",
            );
            proof {
                lemma_rule_problem_prefix(id, allowed, rules@, i + 1);
            }
            return Err(validation(message));
        }
        if !contains_text(&scenario.expect.allowed_frames, &rule.frame) {
            let mut message = String::new();
            push_text(&mut message, "wire scenario ");
            push_text(&mut message, scenario.id.as_str());
            push_text(&mut message, " payload invariant references frame ");
            push_text(&mut message, rule.frame.as_str());
            push_text(&mut message, " outside allowed_frames");
            proof {
                lemma_rule_problem_prefix(id, allowed, rules@, i + 1);
            }
            return Err(validation(message));
        }
        let mut k: usize = 0;
        while k < i
            invariant
                k <= i < rules@.len(),
                *rule == rules@[i as int],
                next == rules@.take(i + 1),
                next.drop_last() == prior,
                next.last() == *rule,
                payload_rule_problem(id, allowed, prior) is None,
                rule.frame@.len() > 0,
                rule.fields@.len() > 0,
                allowed.contains(rule.frame@),
                id == scenario.id@,
                allowed == texts(scenario.expect.allowed_frames@),
                *rules == scenario.expect.frame_payload_invariants,
                forall|j: int| 0 <= j < k ==> !((#[trigger] rules@[j]).frame@ == rule.frame@ && rules@[j].direction
                    == rule.direction),
            decreases i - k,
        {
            if rules[k].frame == rule.frame && rules[k].direction == rule.direction {
                let mut message = String::new();
                push_text(&mut message, "wire scenario ");
                push_text(&mut message, scenario.id.as_str());
                push_text(&mut message, " declares duplicate payload invariants for frame ");
                push_text(&mut message, rule.frame.as_str());
                push_text(&mut message, " and direction ");
                match rule.direction {
                    Some(d) => {
                        push_text(&mut message, "Some(");
                        push_direction_name(&mut message, d);
                        push_text(&mut message, ")");
                    },
                    None => push_text(&mut message, "None"),
                }
                proof {
                    assert(next[k as int] == rules@[k as int]);
                    assert(payload_rule_problem(id, allowed, next) == Some(message@));
                    lemma_rule_problem_prefix(id, allowed, rules@, i + 1);
                }
                return Err(validation(message));
            }
            k = k + 1;
        }
        proof {
            assert forall|j: int| 0 <= j < next.len() - 1 implies !((#[trigger] next[j]).frame@ == rule.frame@
                && next[j].direction == rule.direction) by {
                assert(next[j] == rules@[j]);
            }
        }
        i = i + 1;
    }
    assert(rules@.take(i as int) =~= rules@);
    Ok(())
}

/// Checks the shape of a wire scenario: exactly one of a transport and a
/// host route, route expectations exactly for host routes, a coherent drop
/// reason, frame expectations for frame scenarios only, and a mode that
/// fits the host role.
pub fn validate_wire_scenario_shape(scenario: &WireConformanceScenario) -> (result: Result<(), FixtureError>)
    ensures
        match scenario_shape_problem(*scenario) {
            Some(message) => result matches Err(e) && e.is_validation(message),
            None => result is Ok,
        },
{
    let expect = &scenario.expect;
    if scenario.transport.is_some() == scenario.host_route.is_some() {
        return Err(validation(scenario_message(
            "wire scenario ",
            &scenario.id,
            " must declare exactly one of transport or host_route",
        )));
    }
    if scenario.host_route.is_some() != expect.route.is_some() {
        return Err(validation(scenario_message(
            "wire scenario ",
            &scenario.id,
            " must declare route expectations exactly when it declares host_route",
        )));
    }
    if scenario.host_route.is_some() && expect.result_drop_reason_code.is_some() {
        return Err(validation(scenario_message(
            "wire host-route scenario ",
            &scenario.id,
            " must not declare result_drop_reason_code",
        )));
    }
    if scenario.host_route.is_some() && expect.frame_payload_invariants.len() > 0 {
        return Err(validation(scenario_message(
            "wire host-route scenario ",
            &scenario.id,
            " must not declare frame_payload_invariants",
        )));
    }
    if expect.result_drop_reason_code == Some(0u16) {
        return Err(validation(scenario_message(
            "wire scenario ",
            &scenario.id,
            " result_drop_reason_code must be non-zero",
        )));
    }
    if expect.result_drop_reason_code.is_some() && !contains_text(&expect.frames, &"RESULT_DROP_REASON".to_owned()) {
        return Err(validation(scenario_message(
            "wire scenario ",
            &scenario.id,
            " declares result_drop_reason_code without RESULT_DROP_REASON",
        )));
    }
    if scenario.transport.is_some() {
        if expect.frames.len() == 0 || expect.allowed_frames.len() == 0 {
            return Err(validation(scenario_message(
                "wire frame scenario ",
                &scenario.id,
                " must declare ordered frames and allowed_frames",
            )));
        }
        match first_outside(&expect.frames, &expect.allowed_frames) {
            Some(k) => {
                let mut message = String::new();
                push_text(&mut message, "wire scenario ");
                push_text(&mut message, scenario.id.as_str());
                push_text(&mut message, " requires frame ");
                push_text(&mut message, expect.frames[k].as_str());
                push_text(&mut message, " outside allowed_frames");
                return Err(validation(message));
            },
            None => {},
        }
        return validate_payload_rules(scenario);
    }
    if expect.frames.len() > 0 || expect.allowed_frames.len() > 0 {
        return Err(validation(scenario_message(
            "wire host-route scenario ",
            &scenario.id,
            " must use route evidence instead of frame expectations",
        )));
    }
    match &scenario.host_route {
        Some(fixture) => {
            let expected_mode = match fixture.role {
                WireHostRole::Client => WireConformanceMode::SuiteAsServer,
                WireHostRole::Server => WireConformanceMode::SuiteAsClient,
            };
            if scenario.mode != expected_mode {
                let mut message = String::new();
                push_text(&mut message, "wire scenario ");
                push_text(&mut message, scenario.id.as_str());
                push_text(&mut message, " uses ");
                push_mode_name(&mut message, scenario.mode);
                push_text(&mut message, " for a ");
                push_role_name(&mut message, fixture.role);
                push_text(&mut message, " host route; expected ");
                push_mode_name(&mut message, expected_mode);
                return Err(validation(message));
            }
        },
        None => {},
    }
    Ok(())
}

/// A transport and security mode that go together: TCP plain or with TLS,
/// QUIC with TLS, IPC plain, WebSocket plain, WSS or browser-hosted.
pub open spec fn transport_security_compatible(transport: WireConformanceTransport, mode: WireHostRouteSecurityMode) -> bool {
    match transport {
        WireConformanceTransport::Tcp => mode == WireHostRouteSecurityMode::Plain || mode
            == WireHostRouteSecurityMode::TlsServerAuth || mode == WireHostRouteSecurityMode::MutualTls,
        WireConformanceTransport::Quic => mode == WireHostRouteSecurityMode::TlsServerAuth || mode
            == WireHostRouteSecurityMode::MutualTls,
        WireConformanceTransport::Ipc => mode == WireHostRouteSecurityMode::Plain,
        WireConformanceTransport::Websocket => mode == WireHostRouteSecurityMode::Plain || mode
            == WireHostRouteSecurityMode::Wss || mode == WireHostRouteSecurityMode::BrowserHost,
    }
}

/// Who may hold the credentials of a route: nobody for a plain route, the
/// host for a browser-hosted route in a browser, and the suite or the target
/// for TLS and WSS routes on a native platform.
pub open spec fn security_ownership_allowed(
    mode: WireHostRouteSecurityMode,
    owner: WireHostCredentialOwner,
    platform: WireHostPlatform,
) -> bool {
    ||| mode == WireHostRouteSecurityMode::Plain && owner == WireHostCredentialOwner::Absent
    ||| mode == WireHostRouteSecurityMode::BrowserHost && owner == WireHostCredentialOwner::Host && platform
        == WireHostPlatform::Browser
    ||| (mode == WireHostRouteSecurityMode::TlsServerAuth || mode == WireHostRouteSecurityMode::MutualTls || mode
        == WireHostRouteSecurityMode::Wss) && (owner == WireHostCredentialOwner::Suite || owner
        == WireHostCredentialOwner::Target) && platform == WireHostPlatform::Native
}

/// The first declared provider of a transport and provider id.
pub open spec fn provider_for(
    providers: Seq<WireHostRouteProviderCapability>,
    transport: WireConformanceTransport,
    provider_id: Seq<char>,
) -> Option<WireHostRouteProviderCapability>
    decreases providers.len(),
{
    if providers.len() == 0 {
        None
    } else if providers[0].transport == transport && providers[0].provider_id@ == provider_id {
        Some(providers[0])
    } else {
        provider_for(providers.drop_first(), transport, provider_id)
    }
}

/// What is wrong with one route of a fixture, given the routes before it.
pub open spec fn fixture_route_problem(
    scenario_id: Seq<char>,
    fixture: WireHostRouteFixture,
    reasons: Seq<WireHostRouteRejectionReason>,
    providers: Seq<WireHostRouteProviderCapability>,
    before: Seq<WireHostProviderRoute>,
    route: WireHostProviderRoute,
) -> Option<Seq<char>> {
    let id = route.provider_id@;
    let mode = route.security.mode;
    if id.len() == 0 || route.locator@.len() == 0 {
        Some("host-route provider id and locator must not be empty"@)
    } else if route_transports(before).contains(route.transport) {
        Some("host-route fixture declares more than one route for "@ + transport_name(route.transport))
    } else if route_provider_ids(before).contains(id) {
        Some("host-route fixture repeats provider id "@ + id)
    } else {
        match provider_for(providers, route.transport, id) {
            None => Some("target does not declare host-route provider "@ + id + " for "@ + transport_name(route.transport)),
            Some(provider) => if !provider.platforms@.contains(fixture.platform) {
                Some("host-route provider "@ + id + " does not support "@ + platform_name(fixture.platform))
            } else if !provider.security_modes@.contains(mode) {
                Some("host-route provider "@ + id + " does not support "@ + security_mode_name(mode))
            } else if !provider.installed && !reasons.contains(WireHostRouteRejectionReason::LocalUnavailable) {
                Some("wire scenario "@ + scenario_id + " uses uninstalled provider "@ + id
                    + " without expecting local-unavailable"@)
            } else if !transport_security_compatible(route.transport, mode) || (fixture.platform
                == WireHostPlatform::Browser && route.transport != WireConformanceTransport::Websocket) {
                Some("host-route provider "@ + id + " uses incompatible "@ + security_mode_name(mode) + " security on "@
                    + transport_name(route.transport))
            } else if !security_ownership_allowed(mode, route.security.credential_owner, fixture.platform) {
                Some("host-route provider "@ + id + " has incompatible security ownership"@)
            } else {
                None
            },
        }
    }
}

/// The first route of a fixture, in order, with a problem: its message.
pub open spec fn fixture_routes_problem(
    scenario_id: Seq<char>,
    fixture: WireHostRouteFixture,
    reasons: Seq<WireHostRouteRejectionReason>,
    providers: Seq<WireHostRouteProviderCapability>,
    routes: Seq<WireHostProviderRoute>,
) -> Option<Seq<char>>
    decreases routes.len(),
{
    if routes.len() == 0 {
        None
    } else {
        let earlier = fixture_routes_problem(scenario_id, fixture, reasons, providers, routes.drop_last());
        if earlier is Some {
            earlier
        } else {
            fixture_route_problem(scenario_id, fixture, reasons, providers, routes.drop_last(), routes.last())
        }
    }
}

/// What is wrong with the host-route fixture of a scenario against the
/// target's declarations, checked in order; none if nothing is.
pub open spec fn host_route_fixture_problem(
    scenario: WireConformanceScenario,
    target: WireConformanceTargetManifest,
) -> Option<Seq<char>> {
    let fixture = scenario.host_route->0;
    match scenario.expect.route {
        None => Some("wire scenario "@ + scenario.id@ + " has a host-route fixture without route expectations"@),
        Some(expected) => if !has_prefix(fixture.application_endpoint@, "nnrp://"@) && !has_prefix(
            fixture.application_endpoint@,
            "nnrps://"@,
        ) {
            Some("host-route application endpoint must use nnrp:// or nnrps://"@)
        } else if fixture.routes@.len() == 0 {
            Some("host-route fixture must declare at least one provider route"@)
        } else if fixture_routes_problem(
            scenario.id@,
            fixture,
            expected.rejection_reasons@,
            target.wire_conformance.host_route_providers@,
            fixture.routes@,
        ) is Some {
            fixture_routes_problem(
                scenario.id@,
                fixture,
                expected.rejection_reasons@,
                target.wire_conformance.host_route_providers@,
                fixture.routes@,
            )
        } else if !target.wire_conformance.modes@.contains(host_role_mode(fixture.role)) {
            Some("target does not declare "@ + mode_name(host_role_mode(fixture.role)) + " required by the host-route "@
                + role_name(fixture.role) + " role"@)
        } else {
            None
        }
    }
}

pub(crate) fn find_provider<'a>(
    providers: &'a Vec<WireHostRouteProviderCapability>,
    transport: WireConformanceTransport,
    provider_id: &String,
) -> (found: Option<&'a WireHostRouteProviderCapability>)
    ensures
        match provider_for(providers@, transport, provider_id@) {
            Some(p) => found matches Some(q) && *q == p,
            None => found is None,
        },
{
    let mut k: usize = 0;
    assert(providers@.skip(0) =~= providers@);
    while k < providers.len()
        invariant
            k <= providers@.len(),
            provider_for(providers@, transport, provider_id@) == provider_for(providers@.skip(k as int), transport, provider_id@),
        decreases providers@.len() - k,
    {
        assert(providers@.skip(k as int)[0] == providers@[k as int]);
        assert(providers@.skip(k as int).drop_first() =~= providers@.skip(k + 1));
        if providers[k].transport == transport && providers[k].provider_id == *provider_id {
            return Some(&providers[k]);
        }
        k = k + 1;
    }
    assert(providers@.skip(k as int).len() == 0);
    None
}

fn security_ownership_ok(
    mode: WireHostRouteSecurityMode,
    owner: WireHostCredentialOwner,
    platform: WireHostPlatform,
) -> (allowed: bool)
    ensures
        allowed == security_ownership_allowed(mode, owner, platform),
{
    match (mode, owner) {
        (WireHostRouteSecurityMode::Plain, WireHostCredentialOwner::Absent) => true,
        (WireHostRouteSecurityMode::BrowserHost, WireHostCredentialOwner::Host) => platform == WireHostPlatform::Browser,
        (WireHostRouteSecurityMode::TlsServerAuth, WireHostCredentialOwner::Suite)
        | (WireHostRouteSecurityMode::TlsServerAuth, WireHostCredentialOwner::Target)
        | (WireHostRouteSecurityMode::MutualTls, WireHostCredentialOwner::Suite)
        | (WireHostRouteSecurityMode::MutualTls, WireHostCredentialOwner::Target)
        | (WireHostRouteSecurityMode::Wss, WireHostCredentialOwner::Suite)
        | (WireHostRouteSecurityMode::Wss, WireHostCredentialOwner::Target) => platform == WireHostPlatform::Native,
        _ => false,
    }
}

fn security_compatible(transport: WireConformanceTransport, mode: WireHostRouteSecurityMode) -> (compatible: bool)
    ensures
        compatible == transport_security_compatible(transport, mode),
{
    match transport {
        WireConformanceTransport::Tcp => mode == WireHostRouteSecurityMode::Plain || mode
            == WireHostRouteSecurityMode::TlsServerAuth || mode == WireHostRouteSecurityMode::MutualTls,
        WireConformanceTransport::Quic => mode == WireHostRouteSecurityMode::TlsServerAuth || mode
            == WireHostRouteSecurityMode::MutualTls,
        WireConformanceTransport::Ipc => mode == WireHostRouteSecurityMode::Plain,
        WireConformanceTransport::Websocket => mode == WireHostRouteSecurityMode::Plain || mode
            == WireHostRouteSecurityMode::Wss || mode == WireHostRouteSecurityMode::BrowserHost,
    }
}

proof fn lemma_fixture_problem_prefix(
    scenario_id: Seq<char>,
    fixture: WireHostRouteFixture,
    reasons: Seq<WireHostRouteRejectionReason>,
    providers: Seq<WireHostRouteProviderCapability>,
    routes: Seq<WireHostProviderRoute>,
    n: int,
)
    requires
        0 <= n <= routes.len(),
        fixture_routes_problem(scenario_id, fixture, reasons, providers, routes.take(n)) is Some,
    ensures
        fixture_routes_problem(scenario_id, fixture, reasons, providers, routes) == fixture_routes_problem(
            scenario_id,
            fixture,
            reasons,
            providers,
            routes.take(n),
        ),
    decreases routes.len() - n,
{
    if n < routes.len() {
        assert(routes.take(n + 1).drop_last() =~= routes.take(n));
        lemma_fixture_problem_prefix(scenario_id, fixture, reasons, providers, routes, n + 1);
    } else {
        assert(routes.take(n) =~= routes);
    }
}

fn check_fixture_route(
    scenario: &WireConformanceScenario,
    fixture: &WireHostRouteFixture,
    reasons: &Vec<WireHostRouteRejectionReason>,
    providers: &Vec<WireHostRouteProviderCapability>,
    transports: &Vec<WireConformanceTransport>,
    provider_ids: &Vec<String>,
    route: &WireHostProviderRoute,
    Ghost(before): Ghost<Seq<WireHostProviderRoute>>,
) -> (result: Result<(), FixtureError>)
    requires
        transports@ == route_transports(before),
        texts(provider_ids@) == route_provider_ids(before),
    ensures
        match fixture_route_problem(scenario.id@, *fixture, reasons@, providers@, before, *route) {
            Some(message) => result matches Err(e) && e.is_validation(message),
            None => result is Ok,
        },
{
    let id = &route.provider_id;
    let mode = route.security.mode;
    if id.as_str().is_empty() || route.locator.as_str().is_empty() {
        return Err(validation("host-route provider id and locator must not be empty".to_owned()));
    }
    if contains_transport(transports, route.transport) {
        let mut message = String::new();
        push_text(&mut message, "host-route fixture declares more than one route for ");
        push_transport_name(&mut message, route.transport);
        return Err(validation(message));
    }
    if contains_text(provider_ids, id) {
        let mut message = String::new();
        push_text(&mut message, "host-route fixture repeats provider id ");
        push_text(&mut message, id.as_str());
        return Err(validation(message));
    }
    let provider = match find_provider(providers, route.transport, id) {
        None => {
            let mut message = String::new();
            push_text(&mut message, "target does not declare host-route provider ");
            push_text(&mut message, id.as_str());
            push_text(&mut message, " for ");
            push_transport_name(&mut message, route.transport);
            return Err(validation(message));
        },
        Some(provider) => provider,
    };
    if !contains_platform(&provider.platforms, fixture.platform) {
        let mut message = String::new();
        push_text(&mut message, "host-route provider ");
        push_text(&mut message, id.as_str());
        push_text(&mut message, " does not support ");
        push_platform_name(&mut message, fixture.platform);
        return Err(validation(message));
    }
    if !contains_security_mode(&provider.security_modes, mode) {
        let mut message = String::new();
        push_text(&mut message, "host-route provider ");
        push_text(&mut message, id.as_str());
        push_text(&mut message, " does not support ");
        push_security_mode_name(&mut message, mode);
        return Err(validation(message));
    }
    if !provider.installed && !contains_reason(reasons, WireHostRouteRejectionReason::LocalUnavailable) {
        let mut message = String::new();
        push_text(&mut message, "wire scenario ");
        push_text(&mut message, scenario.id.as_str());
        push_text(&mut message, " uses uninstalled provider ");
        push_text(&mut message, id.as_str());
        push_text(&mut message, " without expecting local-unavailable");
        return Err(validation(message));
    }
    if !security_compatible(route.transport, mode) || (fixture.platform == WireHostPlatform::Browser && route.transport
        != WireConformanceTransport::Websocket) {
        let mut message = String::new();
        push_text(&mut message, "host-route provider ");
        push_text(&mut message, id.as_str());
        push_text(&mut message, " uses incompatible ");
        push_security_mode_name(&mut message, mode);
        push_text(&mut message, " security on ");
        push_transport_name(&mut message, route.transport);
        return Err(validation(message));
    }
    if !security_ownership_ok(mode, route.security.credential_owner, fixture.platform) {
        let mut message = String::new();
        push_text(&mut message, "host-route provider ");
        push_text(&mut message, id.as_str());
        push_text(&mut message, " has incompatible security ownership");
        return Err(validation(message));
    }
    Ok(())
}

/// Checks the host-route fixture of a scenario against the target: an
/// `nnrp://` or `nnrps://` endpoint, at least one route, distinct
/// transports and provider ids, providers the target declares for the
/// platform and security mode, installed or expected to be unavailable,
/// compatible security and ownership, and a mode the target offers.
pub fn validate_wire_host_route_fixture(
    scenario: &WireConformanceScenario,
    target_manifest: &WireConformanceTargetManifest,
) -> (result: Result<(), FixtureError>)
    requires
        scenario.host_route is Some,
    ensures
        match host_route_fixture_problem(*scenario, *target_manifest) {
            Some(message) => result matches Err(e) && e.is_validation(message),
            None => result is Ok,
        },
{
    let fixture = match &scenario.host_route {
        Some(fixture) => fixture,
        None => {
            return Ok(());
        },
    };
    let expected_route = match &scenario.expect.route {
        None => {
            return Err(validation(scenario_message(
                "wire scenario ",
                &scenario.id,
                " has a host-route fixture without route expectations",
            )));
        },
        Some(expected) => expected,
    };
    if !starts_with_text(fixture.application_endpoint.as_str(), "nnrp://") && !starts_with_text(
        fixture.application_endpoint.as_str(),
        "nnrps://",
    ) {
        return Err(validation("host-route application endpoint must use nnrp:// or nnrps://".to_owned()));
    }
    if fixture.routes.len() == 0 {
        return Err(validation("host-route fixture must declare at least one provider route".to_owned()));
    }
    let providers = &target_manifest.wire_conformance.host_route_providers;
    let reasons = &expected_route.rejection_reasons;
    let ghost sid = scenario.id@;
    let mut transports: Vec<WireConformanceTransport> = Vec::new();
    let mut provider_ids: Vec<String> = Vec::new();
    let mut i: usize = 0;
    while i < fixture.routes.len()
        invariant
            i <= fixture.routes@.len(),
            sid == scenario.id@,
            scenario.host_route == Some(*fixture),
            scenario.expect.route == Some(*expected_route),
            *reasons == expected_route.rejection_reasons,
            *providers == target_manifest.wire_conformance.host_route_providers,
            has_prefix(fixture.application_endpoint@, "nnrp://"@) || has_prefix(fixture.application_endpoint@, "nnrps://"@),
            fixture.routes@.len() > 0,
            transports@ == route_transports(fixture.routes@.take(i as int)),
            texts(provider_ids@) == route_provider_ids(fixture.routes@.take(i as int)),
            fixture_routes_problem(sid, *fixture, reasons@, providers@, fixture.routes@.take(i as int)) is None,
        decreases fixture.routes@.len() - i,
    {
        let route = &fixture.routes[i];
        let ghost prior = fixture.routes@.take(i as int);
        let ghost next = fixture.routes@.take(i + 1);
        proof {
            assert(next.drop_last() =~= prior);
            assert(next.last() == *route);
        }
        match check_fixture_route(scenario, fixture, reasons, providers, &transports, &provider_ids, route, Ghost(prior)) {
            Err(e) => {
                proof {
                    lemma_fixture_problem_prefix(sid, *fixture, reasons@, providers@, fixture.routes@, i + 1);
                }
                return Err(e);
            },
            Ok(()) => {},
        }
        let ghost before_ids = provider_ids@;
        transports.push(route.transport);
        provider_ids.push(route.provider_id.clone());
        proof {
            assert(transports@ =~= route_transports(next));
            assert(texts(provider_ids@) =~= texts(before_ids).push(route.provider_id@));
            assert(route_provider_ids(next) =~= route_provider_ids(prior).push(route.provider_id@));
        }
        i = i + 1;
    }
    assert(fixture.routes@.take(i as int) =~= fixture.routes@);
    let expected_mode = match fixture.role {
        WireHostRole::Client => WireConformanceMode::SuiteAsServer,
        WireHostRole::Server => WireConformanceMode::SuiteAsClient,
    };
    if !contains_mode(&target_manifest.wire_conformance.modes, expected_mode) {
        let mut message = String::new();
        push_text(&mut message, "target does not declare ");
        push_mode_name(&mut message, expected_mode);
        push_text(&mut message, " required by the host-route ");
        push_role_name(&mut message, fixture.role);
        push_text(&mut message, " role");
        return Err(validation(message));
    }
    Ok(())
}

/// The first target endpoint, in order, with a problem: its message.
pub open spec fn endpoints_problem(endpoints: Seq<WireConformanceTransportEndpoint>) -> Option<Seq<char>>
    decreases endpoints.len(),
{
    if endpoints.len() == 0 {
        None
    } else {
        let earlier = endpoints_problem(endpoints.drop_last());
        if earlier is Some {
            earlier
        } else {
            endpoint_problem(endpoints.last())
        }
    }
}

/// The transports of a list of provider declarations.
pub open spec fn provider_transports(providers: Seq<WireHostRouteProviderCapability>) -> Seq<WireConformanceTransport> {
    providers.map_values(|p: WireHostRouteProviderCapability| p.transport)
}

/// The ids of a list of provider declarations.
pub open spec fn provider_ids(providers: Seq<WireHostRouteProviderCapability>) -> Seq<Seq<char>> {
    providers.map_values(|p: WireHostRouteProviderCapability| p.provider_id@)
}

/// The first provider declaration, in order, with an empty id or a transport
/// or id an earlier one already has: the message that says so.
pub open spec fn provider_declarations_problem(providers: Seq<WireHostRouteProviderCapability>) -> Option<Seq<char>>
    decreases providers.len(),
{
    if providers.len() == 0 {
        None
    } else {
        let earlier = provider_declarations_problem(providers.drop_last());
        let provider = providers.last();
        let before = providers.drop_last();
        if earlier is Some {
            earlier
        } else if provider.provider_id@.len() == 0 {
            Some("host-route provider id must not be empty"@)
        } else if provider_transports(before).contains(provider.transport) {
            Some("target declares more than one host-route provider for "@ + transport_name(provider.transport))
        } else if provider_ids(before).contains(provider.provider_id@) {
            Some("target repeats host-route provider id "@ + provider.provider_id@)
        } else {
            None
        }
    }
}

/// The transports a target has endpoints for.
pub open spec fn endpoint_names(endpoints: Seq<WireConformanceTransportEndpoint>) -> Seq<WireConformanceTransport> {
    endpoints.map_values(|e: WireConformanceTransportEndpoint| e.name)
}

/// A route whose transport and provider id some declaration carries.
pub open spec fn route_declared(providers: Seq<WireHostRouteProviderCapability>, route: WireHostProviderRoute) -> bool {
    exists|k: int|
        0 <= k < providers.len() && (#[trigger] providers[k]).transport == route.transport && providers[k].provider_id@
            == route.provider_id@
}

/// A scenario the target can run: its mode, its transport and every route of
/// its fixture are declared, and so is every capability it requires.
pub open spec fn scenario_claimed(target: WireConformanceTargetManifest, scenario: WireConformanceScenario) -> bool {
    let w = target.wire_conformance;
    &&& w.modes@.contains(scenario.mode)
    &&& (scenario.transport matches Some(t) ==> endpoint_names(w.transports@).contains(t))
    &&& (scenario.host_route matches Some(fixture) ==> forall|i: int|
        0 <= i < fixture.routes@.len() ==> route_declared(w.host_route_providers@, #[trigger] fixture.routes@[i]))
    &&& claims_all(scenario.required_capabilities@, w.capabilities@)
}

/// The scenarios the target can run, in order.
pub open spec fn claimed_scenarios(
    target: WireConformanceTargetManifest,
    scenarios: Seq<WireConformanceScenario>,
) -> Seq<WireConformanceScenario>
    decreases scenarios.len(),
{
    if scenarios.len() == 0 {
        Seq::empty()
    } else if scenario_claimed(target, scenarios.last()) {
        claimed_scenarios(target, scenarios.drop_last()).push(scenarios.last())
    } else {
        claimed_scenarios(target, scenarios.drop_last())
    }
}

/// What is wrong with one claimed scenario: its shape, then its fixture.
pub open spec fn claimed_scenario_problem(target: WireConformanceTargetManifest, scenario: WireConformanceScenario) -> Option<Seq<char>> {
    if scenario_shape_problem(scenario) is Some {
        scenario_shape_problem(scenario)
    } else if scenario.host_route is Some {
        host_route_fixture_problem(scenario, target)
    } else {
        None
    }
}

/// The first claimed scenario, in order, with a problem: its message.
pub open spec fn claimed_scenarios_problem(
    target: WireConformanceTargetManifest,
    claimed: Seq<WireConformanceScenario>,
) -> Option<Seq<char>>
    decreases claimed.len(),
{
    if claimed.len() == 0 {
        None
    } else {
        let earlier = claimed_scenarios_problem(target, claimed.drop_last());
        if earlier is Some {
            earlier
        } else {
            claimed_scenario_problem(target, claimed.last())
        }
    }
}

/// What is wrong with a wire target and its scenarios, checked in order:
/// the endpoints, host routes claimed exactly when providers are declared,
/// the provider declarations, then each scenario the target can run.
pub open spec fn wire_plan_problem(
    target: WireConformanceTargetManifest,
    scenarios: Seq<WireConformanceScenario>,
) -> Option<Seq<char>> {
    let w = target.wire_conformance;
    let declares_host_routes = texts(w.capabilities@).contains("host.routes"@);
    let has_host_route_providers = w.host_route_providers@.len() > 0;
    if endpoints_problem(w.transports@) is Some {
        endpoints_problem(w.transports@)
    } else if declares_host_routes != has_host_route_providers {
        if declares_host_routes {
            Some("target claims host.routes without declaring host-route providers"@)
        } else {
            Some("target declares host-route providers without claiming host.routes"@)
        }
    } else if provider_declarations_problem(w.host_route_providers@) is Some {
        provider_declarations_problem(w.host_route_providers@)
    } else {
        claimed_scenarios_problem(target, claimed_scenarios(target, scenarios))
    }
}

fn endpoint_declared(endpoints: &Vec<WireConformanceTransportEndpoint>, transport: WireConformanceTransport) -> (found: bool)
    ensures
        found == endpoint_names(endpoints@).contains(transport),
{
    let mut i: usize = 0;
    while i < endpoints.len()
        invariant
            i <= endpoints@.len(),
            forall|k: int| 0 <= k < i ==> endpoints@[k].name != transport,
        decreases endpoints@.len() - i,
    {
        if endpoints[i].name == transport {
            assert(endpoint_names(endpoints@)[i as int] == transport);
            return true;
        }
        i = i + 1;
    }
    proof {
        if endpoint_names(endpoints@).contains(transport) {
            let k = choose|k: int| 0 <= k < endpoint_names(endpoints@).len() && endpoint_names(endpoints@)[k] == transport;
            assert(endpoints@[k].name == transport);
        }
    }
    false
}

fn route_declared_exec(providers: &Vec<WireHostRouteProviderCapability>, route: &WireHostProviderRoute) -> (declared: bool)
    ensures
        declared == route_declared(providers@, *route),
{
    let mut k: usize = 0;
    while k < providers.len()
        invariant
            k <= providers@.len(),
            forall|j: int| 0 <= j < k ==> !((#[trigger] providers@[j]).transport == route.transport
                && providers@[j].provider_id@ == route.provider_id@),
        decreases providers@.len() - k,
    {
        if providers[k].transport == route.transport && providers[k].provider_id == route.provider_id {
            return true;
        }
        k = k + 1;
    }
    false
}

fn routes_declared(providers: &Vec<WireHostRouteProviderCapability>, routes: &Vec<WireHostProviderRoute>) -> (declared: bool)
    ensures
        declared == forall|i: int| 0 <= i < routes@.len() ==> route_declared(providers@, #[trigger] routes@[i]),
{
    let mut i: usize = 0;
    while i < routes.len()
        invariant
            i <= routes@.len(),
            forall|j: int| 0 <= j < i ==> route_declared(providers@, #[trigger] routes@[j]),
        decreases routes@.len() - i,
    {
        if !route_declared_exec(providers, &routes[i]) {
            return false;
        }
        i = i + 1;
    }
    true
}

fn scenario_claimed_exec(target: &WireConformanceTargetManifest, scenario: &WireConformanceScenario) -> (claimed: bool)
    ensures
        claimed == scenario_claimed(*target, *scenario),
{
    let w = &target.wire_conformance;
    if !contains_mode(&w.modes, scenario.mode) {
        return false;
    }
    match scenario.transport {
        Some(t) => {
            if !endpoint_declared(&w.transports, t) {
                return false;
            }
        },
        None => {},
    }
    match &scenario.host_route {
        Some(fixture) => {
            if !routes_declared(&w.host_route_providers, &fixture.routes) {
                return false;
            }
        },
        None => {},
    }
    claims_all_exec(&scenario.required_capabilities, &w.capabilities)
}

proof fn lemma_endpoints_problem_prefix(endpoints: Seq<WireConformanceTransportEndpoint>, n: int)
    requires
        0 <= n <= endpoints.len(),
        endpoints_problem(endpoints.take(n)) is Some,
    ensures
        endpoints_problem(endpoints) == endpoints_problem(endpoints.take(n)),
    decreases endpoints.len() - n,
{
    if n < endpoints.len() {
        assert(endpoints.take(n + 1).drop_last() =~= endpoints.take(n));
        lemma_endpoints_problem_prefix(endpoints, n + 1);
    } else {
        assert(endpoints.take(n) =~= endpoints);
    }
}

proof fn lemma_providers_problem_prefix(providers: Seq<WireHostRouteProviderCapability>, n: int)
    requires
        0 <= n <= providers.len(),
        provider_declarations_problem(providers.take(n)) is Some,
    ensures
        provider_declarations_problem(providers) == provider_declarations_problem(providers.take(n)),
    decreases providers.len() - n,
{
    if n < providers.len() {
        assert(providers.take(n + 1).drop_last() =~= providers.take(n));
        lemma_providers_problem_prefix(providers, n + 1);
    } else {
        assert(providers.take(n) =~= providers);
    }
}

proof fn lemma_claimed_problem_prefix(target: WireConformanceTargetManifest, claimed: Seq<WireConformanceScenario>, n: int)
    requires
        0 <= n <= claimed.len(),
        claimed_scenarios_problem(target, claimed.take(n)) is Some,
    ensures
        claimed_scenarios_problem(target, claimed) == claimed_scenarios_problem(target, claimed.take(n)),
    decreases claimed.len() - n,
{
    if n < claimed.len() {
        assert(claimed.take(n + 1).drop_last() =~= claimed.take(n));
        lemma_claimed_problem_prefix(target, claimed, n + 1);
    } else {
        assert(claimed.take(n) =~= claimed);
    }
}

proof fn lemma_claimed_prefix_problem(
    target: WireConformanceTargetManifest,
    scenarios: Seq<WireConformanceScenario>,
    n: int,
)
    requires
        0 <= n <= scenarios.len(),
        claimed_scenarios_problem(target, claimed_scenarios(target, scenarios.take(n))) is Some,
    ensures
        claimed_scenarios_problem(target, claimed_scenarios(target, scenarios)) == claimed_scenarios_problem(
            target,
            claimed_scenarios(target, scenarios.take(n)),
        ),
    decreases scenarios.len() - n,
{
    if n < scenarios.len() {
        let next = scenarios.take(n + 1);
        assert(next.drop_last() =~= scenarios.take(n));
        if scenario_claimed(target, next.last()) {
            assert(claimed_scenarios(target, next).drop_last() =~= claimed_scenarios(target, scenarios.take(n)));
        }
        lemma_claimed_prefix_problem(target, scenarios, n + 1);
    } else {
        assert(scenarios.take(n) =~= scenarios);
    }
}

/// The plan for a wire target: after checking the target's endpoints and
/// host-route declarations, the scenarios it can run, each checked for its
/// shape and fixture, with the target's versions, name and providers.
pub fn build_wire_conformance_execution_plan(
    target_manifest: &WireConformanceTargetManifest,
    scenarios: &Vec<WireConformanceScenario>,
    artifacts: AdapterArtifactContext,
) -> (result: Result<WireConformanceExecutionPlan, FixtureError>)
    ensures
        match wire_plan_problem(*target_manifest, scenarios@) {
            Some(message) => result matches Err(e) && e.is_validation(message),
            None => result matches Ok(plan) && {
                let claimed = claimed_scenarios(*target_manifest, scenarios@);
                let providers = target_manifest.wire_conformance.host_route_providers@;
                &&& opt_view(plan.schema) == Some(
                    "https://github.com/NagareWorks/nnrp-conformance/schemas/wire-conformance-execution-plan.schema.json"@,
                )
                &&& plan.protocol_version@ == target_manifest.protocol_version@
                &&& plan.suite_version@ == target_manifest.suite_version@
                &&& plan.target_name@ == target_manifest.target_name@
                &&& plan.artifacts == artifacts
                &&& plan.host_route_providers@.len() == providers.len()
                &&& (forall|k: int| 0 <= k < providers.len() ==> same_provider(#[trigger] plan.host_route_providers@[k], providers[k]))
                &&& plan.scenarios@.len() == claimed.len()
                &&& forall|k: int| 0 <= k < claimed.len() ==> same_scenario(#[trigger] plan.scenarios@[k], claimed[k])
            },
        },
{
    let w = &target_manifest.wire_conformance;
    let mut e: usize = 0;
    while e < w.transports.len()
        invariant
            e <= w.transports@.len(),
            *w == target_manifest.wire_conformance,
            endpoints_problem(w.transports@.take(e as int)) is None,
        decreases w.transports@.len() - e,
    {
        assert(w.transports@.take(e + 1).drop_last() =~= w.transports@.take(e as int));
        assert(w.transports@.take(e + 1).last() == w.transports@[e as int]);
        match validate_wire_transport_endpoint(&w.transports[e]) {
            Err(error) => {
                proof {
                    lemma_endpoints_problem_prefix(w.transports@, e + 1);
                }
                return Err(error);
            },
            Ok(()) => {},
        }
        e = e + 1;
    }
    assert(w.transports@.take(e as int) =~= w.transports@);
    proof {
        reveal_strlit("host.routes");
    }
    let declares_host_routes = contains_text(&w.capabilities, &"host.routes".to_owned());
    let has_host_route_providers = w.host_route_providers.len() > 0;
    if declares_host_routes != has_host_route_providers {
        let message = if declares_host_routes {
            "target claims host.routes without declaring host-route providers".to_owned()
        } else {
            "target declares host-route providers without claiming host.routes".to_owned()
        };
        return Err(validation(message));
    }
    let providers = &w.host_route_providers;
    let mut transports: Vec<WireConformanceTransport> = Vec::new();
    let mut ids: Vec<String> = Vec::new();
    let mut p: usize = 0;
    while p < providers.len()
        invariant
            p <= providers@.len(),
            *providers == target_manifest.wire_conformance.host_route_providers,
            endpoints_problem(target_manifest.wire_conformance.transports@) is None,
            texts(target_manifest.wire_conformance.capabilities@).contains("host.routes"@) == (
            target_manifest.wire_conformance.host_route_providers@.len() > 0),
            transports@ == provider_transports(providers@.take(p as int)),
            texts(ids@) == provider_ids(providers@.take(p as int)),
            provider_declarations_problem(providers@.take(p as int)) is None,
        decreases providers@.len() - p,
    {
        let provider = &providers[p];
        let ghost prior = providers@.take(p as int);
        let ghost next = providers@.take(p + 1);
        proof {
            assert(next.drop_last() =~= prior);
            assert(next.last() == *provider);
        }
        if provider.provider_id.as_str().is_empty() {
            proof {
                lemma_providers_problem_prefix(providers@, p + 1);
            }
            return Err(validation("host-route provider id must not be empty".to_owned()));
        }
        if contains_transport(&transports, provider.transport) {
            let mut message = String::new();
            push_text(&mut message, "target declares more than one host-route provider for ");
            push_transport_name(&mut message, provider.transport);
            proof {
                lemma_providers_problem_prefix(providers@, p + 1);
            }
            return Err(validation(message));
        }
        if contains_text(&ids, &provider.provider_id) {
            let mut message = String::new();
            push_text(&mut message, "target repeats host-route provider id ");
            push_text(&mut message, provider.provider_id.as_str());
            proof {
                lemma_providers_problem_prefix(providers@, p + 1);
            }
            return Err(validation(message));
        }
        let ghost before_ids = ids@;
        transports.push(provider.transport);
        ids.push(provider.provider_id.clone());
        proof {
            assert(transports@ =~= provider_transports(next));
            assert(texts(ids@) =~= texts(before_ids).push(provider.provider_id@));
            assert(provider_ids(next) =~= provider_ids(prior).push(provider.provider_id@));
        }
        p = p + 1;
    }
    assert(providers@.take(p as int) =~= providers@);
    let mut selected: Vec<WireConformanceScenario> = Vec::new();
    let mut i: usize = 0;
    while i < scenarios.len()
        invariant
            i <= scenarios@.len(),
            wire_plan_problem(*target_manifest, scenarios@) == claimed_scenarios_problem(
                *target_manifest,
                claimed_scenarios(*target_manifest, scenarios@),
            ),
            claimed_scenarios_problem(*target_manifest, claimed_scenarios(*target_manifest, scenarios@.take(i as int))) is None,
            selected@.len() == claimed_scenarios(*target_manifest, scenarios@.take(i as int)).len(),
            forall|k: int| 0 <= k < selected@.len() ==> same_scenario(#[trigger] selected@[k], claimed_scenarios(*target_manifest, scenarios@.take(i as int))[k]),
        decreases scenarios@.len() - i,
    {
        let scenario = &scenarios[i];
        let ghost prior = scenarios@.take(i as int);
        let ghost next = scenarios@.take(i + 1);
        proof {
            assert(next.drop_last() =~= prior);
            assert(next.last() == *scenario);
        }
        if scenario_claimed_exec(target_manifest, scenario) {
            let ghost claimed_next = claimed_scenarios(*target_manifest, next);
            assert(claimed_next.drop_last() =~= claimed_scenarios(*target_manifest, prior));
            assert(claimed_next.last() == *scenario);
            match validate_wire_scenario_shape(scenario) {
                Err(error) => {
                    proof {
                        lemma_claimed_prefix_problem(*target_manifest, scenarios@, i + 1);
                    }
                    return Err(error);
                },
                Ok(()) => {},
            }
            if scenario.host_route.is_some() {
                match validate_wire_host_route_fixture(scenario, target_manifest) {
                    Err(error) => {
                        proof {
                            lemma_claimed_prefix_problem(*target_manifest, scenarios@, i + 1);
                        }
                        return Err(error);
                    },
                    Ok(()) => {},
                }
            }
            selected.push(copy_scenario(scenario));
        }
        i = i + 1;
    }
    assert(scenarios@.take(i as int) =~= scenarios@);
    proof {
        reveal_strlit("https://github.com/NagareWorks/nnrp-conformance/schemas/wire-conformance-execution-plan.schema.json");
    }
    Ok(WireConformanceExecutionPlan {
        schema: Some(
            "https://github.com/NagareWorks/nnrp-conformance/schemas/wire-conformance-execution-plan.schema.json".to_owned(),
        ),
        protocol_version: target_manifest.protocol_version.clone(),
        suite_version: target_manifest.suite_version.clone(),
        target_name: target_manifest.target_name.clone(),
        host_route_providers: copy_providers(&w.host_route_providers),
        artifacts,
        scenarios: selected,
    })
}

} // verus!
