use vstd::prelude::*;

use crate::fixtures::{
    WireConformanceExpectation, WireConformanceFramePayloadInvariant, WireConformanceScenario, WireConformanceStep,
    WireHostProviderRoute, WireHostRouteExpectation, WireHostRouteFixture, WireHostRouteProviderCapability,
};

verus! {

/// Two payload rules that agree in every field.
pub open spec fn same_rule(a: WireConformanceFramePayloadInvariant, b: WireConformanceFramePayloadInvariant) -> bool {
    a.frame == b.frame && a.direction == b.direction && a.fields@ == b.fields@
}

/// Two lists of payload rules that agree rule by rule.
pub open spec fn same_rules(a: Seq<WireConformanceFramePayloadInvariant>, b: Seq<WireConformanceFramePayloadInvariant>) -> bool {
    a.len() == b.len() && forall|i: int| 0 <= i < a.len() ==> same_rule(#[trigger] a[i], b[i])
}

/// Two route expectations that agree in every field.
pub open spec fn same_route_expectation(a: WireHostRouteExpectation, b: WireHostRouteExpectation) -> bool {
    &&& a.selected_count == b.selected_count
    &&& a.selected_transport == b.selected_transport
    &&& a.rejection_reasons@ == b.rejection_reasons@
    &&& a.bound_transports@ == b.bound_transports@
    &&& a.accepted_transports@ == b.accepted_transports@
    &&& a.atomic_rollback == b.atomic_rollback
    &&& a.logical_set_closed == b.logical_set_closed
    &&& a.terminal_failure == b.terminal_failure
}

/// Two expectations that agree in every field.
pub open spec fn same_expectation(a: WireConformanceExpectation, b: WireConformanceExpectation) -> bool {
    &&& a.terminal == b.terminal
    &&& a.frames@ == b.frames@
    &&& a.allowed_frames@ == b.allowed_frames@
    &&& same_rules(a.frame_payload_invariants@, b.frame_payload_invariants@)
    &&& a.result_drop_reason_code == b.result_drop_reason_code
    &&& match (a.route, b.route) {
        (Some(x), Some(y)) => same_route_expectation(x, y),
        (None, None) => true,
        _ => false,
    }
}

/// Two provider routes that agree in every field.
pub open spec fn same_route(a: WireHostProviderRoute, b: WireHostProviderRoute) -> bool {
    a.transport == b.transport && a.provider_id == b.provider_id && a.locator == b.locator && a.security == b.security
        && a.injected_failures@ == b.injected_failures@
}

/// Two host-route fixtures that agree in every field.
pub open spec fn same_fixture(a: WireHostRouteFixture, b: WireHostRouteFixture) -> bool {
    &&& a.role == b.role
    &&& a.platform == b.platform
    &&& a.application_endpoint == b.application_endpoint
    &&& a.routes@.len() == b.routes@.len()
    &&& forall|i: int| 0 <= i < a.routes@.len() ==> same_route(#[trigger] a.routes@[i], b.routes@[i])
}

/// Two wire scenarios that agree in every field.
pub open spec fn same_scenario(a: WireConformanceScenario, b: WireConformanceScenario) -> bool {
    &&& a.id == b.id
    &&& a.mode == b.mode
    &&& a.transport == b.transport
    &&& match (a.host_route, b.host_route) {
        (Some(x), Some(y)) => same_fixture(x, y),
        (None, None) => true,
        _ => false,
    }
    &&& a.status == b.status
    &&& a.feature == b.feature
    &&& a.required_capabilities@ == b.required_capabilities@
    &&& a.description == b.description
    &&& a.steps@ == b.steps@
    &&& same_expectation(a.expect, b.expect)
}

/// Two host-route provider declarations that agree in every field.
pub open spec fn same_provider(a: WireHostRouteProviderCapability, b: WireHostRouteProviderCapability) -> bool {
    a.transport == b.transport && a.provider_id == b.provider_id && a.installed == b.installed
        && a.platforms@ == b.platforms@ && a.security_modes@ == b.security_modes@
}

fn copy_option_string(value: &Option<String>) -> (copy: Option<String>)
    ensures
        copy == *value,
{
    match value {
        Some(text) => Some(text.clone()),
        None => None,
    }
}

fn copy_strings(values: &Vec<String>) -> (copy: Vec<String>)
    ensures
        copy@ == values@,
{
    let copy = values.clone();
    assert(copy@ =~= values@);
    copy
}

pub(crate) fn copy_copy_list<T: Copy>(values: &Vec<T>) -> (copy: Vec<T>)
    ensures
        copy@ == values@,
{
    let mut copy: Vec<T> = Vec::new();
    let mut i: usize = 0;
    while i < values.len()
        invariant
            i <= values@.len(),
            copy@ == values@.take(i as int),
        decreases values@.len() - i,
    {
        copy.push(values[i]);
        assert(values@.take(i + 1) =~= values@.take(i as int).push(values@[i as int]));
        i = i + 1;
    }
    assert(values@.take(i as int) =~= values@);
    copy
}

fn copy_fields(fields: &Vec<(String, String)>) -> (copy: Vec<(String, String)>)
    ensures
        copy@ == fields@,
{
    let mut copy: Vec<(String, String)> = Vec::new();
    let mut i: usize = 0;
    while i < fields.len()
        invariant
            i <= fields@.len(),
            copy@ == fields@.take(i as int),
        decreases fields@.len() - i,
    {
        let (name, value) = &fields[i];
        copy.push((name.clone(), value.clone()));
        assert(fields@.take(i + 1) =~= fields@.take(i as int).push(fields@[i as int]));
        i = i + 1;
    }
    assert(fields@.take(i as int) =~= fields@);
    copy
}

fn copy_payload_rule(rule: &WireConformanceFramePayloadInvariant) -> (copy: WireConformanceFramePayloadInvariant)
    ensures
        same_rule(copy, *rule),
{
    WireConformanceFramePayloadInvariant {
        frame: rule.frame.clone(),
        direction: rule.direction,
        fields: copy_fields(&rule.fields),
    }
}

fn copy_payload_rules(values: &Vec<WireConformanceFramePayloadInvariant>) -> (copy: Vec<WireConformanceFramePayloadInvariant>)
    ensures
        same_rules(copy@, values@),
{
    let mut copy: Vec<WireConformanceFramePayloadInvariant> = Vec::new();
    let mut i: usize = 0;
    while i < values.len()
        invariant
            i <= values@.len(),
            copy@.len() == i,
            forall|k: int| 0 <= k < i ==> same_rule(#[trigger] copy@[k], values@[k]),
        decreases values@.len() - i,
    {
        copy.push(copy_payload_rule(&values[i]));
        i = i + 1;
    }
    copy
}

fn copy_route_expectation(expectation: &WireHostRouteExpectation) -> (copy: WireHostRouteExpectation)
    ensures
        same_route_expectation(copy, *expectation),
{
    WireHostRouteExpectation {
        selected_count: expectation.selected_count,
        selected_transport: expectation.selected_transport,
        rejection_reasons: copy_copy_list(&expectation.rejection_reasons),
        bound_transports: copy_copy_list(&expectation.bound_transports),
        accepted_transports: copy_copy_list(&expectation.accepted_transports),
        atomic_rollback: expectation.atomic_rollback,
        logical_set_closed: expectation.logical_set_closed,
        terminal_failure: copy_option_string(&expectation.terminal_failure),
    }
}

fn copy_expectation(expectation: &WireConformanceExpectation) -> (copy: WireConformanceExpectation)
    ensures
        same_expectation(copy, *expectation),
{
    WireConformanceExpectation {
        terminal: expectation.terminal,
        frames: copy_strings(&expectation.frames),
        allowed_frames: copy_strings(&expectation.allowed_frames),
        frame_payload_invariants: copy_payload_rules(&expectation.frame_payload_invariants),
        result_drop_reason_code: expectation.result_drop_reason_code,
        route: match &expectation.route {
            Some(route) => Some(copy_route_expectation(route)),
            None => None,
        },
    }
}

fn copy_step(step: &WireConformanceStep) -> (copy: WireConformanceStep)
    ensures
        copy == *step,
{
    WireConformanceStep {
        action: step.action.clone(),
        frame: copy_option_string(&step.frame),
        payload: copy_option_string(&step.payload),
        timeout_ms: step.timeout_ms,
    }
}

fn copy_steps(values: &Vec<WireConformanceStep>) -> (copy: Vec<WireConformanceStep>)
    ensures
        copy@ == values@,
{
    let mut copy: Vec<WireConformanceStep> = Vec::new();
    let mut i: usize = 0;
    while i < values.len()
        invariant
            i <= values@.len(),
            copy@ == values@.take(i as int),
        decreases values@.len() - i,
    {
        copy.push(copy_step(&values[i]));
        assert(values@.take(i + 1) =~= values@.take(i as int).push(values@[i as int]));
        i = i + 1;
    }
    assert(values@.take(i as int) =~= values@);
    copy
}

fn copy_route(route: &WireHostProviderRoute) -> (copy: WireHostProviderRoute)
    ensures
        same_route(copy, *route),
{
    WireHostProviderRoute {
        transport: route.transport,
        provider_id: route.provider_id.clone(),
        locator: route.locator.clone(),
        security: route.security,
        injected_failures: copy_copy_list(&route.injected_failures),
    }
}

fn copy_routes(values: &Vec<WireHostProviderRoute>) -> (copy: Vec<WireHostProviderRoute>)
    ensures
        copy@.len() == values@.len(),
        forall|k: int| 0 <= k < values@.len() ==> same_route(#[trigger] copy@[k], values@[k]),
{
    let mut copy: Vec<WireHostProviderRoute> = Vec::new();
    let mut i: usize = 0;
    while i < values.len()
        invariant
            i <= values@.len(),
            copy@.len() == i,
            forall|k: int| 0 <= k < i ==> same_route(#[trigger] copy@[k], values@[k]),
        decreases values@.len() - i,
    {
        copy.push(copy_route(&values[i]));
        i = i + 1;
    }
    copy
}

fn copy_fixture(fixture: &WireHostRouteFixture) -> (copy: WireHostRouteFixture)
    ensures
        same_fixture(copy, *fixture),
{
    WireHostRouteFixture {
        role: fixture.role,
        platform: fixture.platform,
        application_endpoint: fixture.application_endpoint.clone(),
        routes: copy_routes(&fixture.routes),
    }
}

/// A copy of a wire scenario.
pub fn copy_scenario(scenario: &WireConformanceScenario) -> (copy: WireConformanceScenario)
    ensures
        same_scenario(copy, *scenario),
{
    WireConformanceScenario {
        id: scenario.id.clone(),
        mode: scenario.mode,
        transport: scenario.transport,
        host_route: match &scenario.host_route {
            Some(fixture) => Some(copy_fixture(fixture)),
            None => None,
        },
        status: scenario.status,
        feature: scenario.feature.clone(),
        required_capabilities: copy_strings(&scenario.required_capabilities),
        description: scenario.description.clone(),
        steps: copy_steps(&scenario.steps),
        expect: copy_expectation(&scenario.expect),
    }
}

fn copy_provider(provider: &WireHostRouteProviderCapability) -> (copy: WireHostRouteProviderCapability)
    ensures
        same_provider(copy, *provider),
{
    WireHostRouteProviderCapability {
        transport: provider.transport,
        provider_id: provider.provider_id.clone(),
        installed: provider.installed,
        platforms: copy_copy_list(&provider.platforms),
        security_modes: copy_copy_list(&provider.security_modes),
    }
}

/// A copy of a list of host-route provider declarations.
pub fn copy_providers(values: &Vec<WireHostRouteProviderCapability>) -> (copy: Vec<WireHostRouteProviderCapability>)
    ensures
        copy@.len() == values@.len(),
        forall|k: int| 0 <= k < values@.len() ==> same_provider(#[trigger] copy@[k], values@[k]),
{
    let mut copy: Vec<WireHostRouteProviderCapability> = Vec::new();
    let mut i: usize = 0;
    while i < values.len()
        invariant
            i <= values@.len(),
            copy@.len() == i,
            forall|k: int| 0 <= k < i ==> same_provider(#[trigger] copy@[k], values@[k]),
        decreases values@.len() - i,
    {
        copy.push(copy_provider(&values[i]));
        i = i + 1;
    }
    copy
}

} // verus!
