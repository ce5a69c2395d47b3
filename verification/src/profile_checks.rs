use vstd::prelude::*;

use crate::fixtures::{ApiProfileCapabilityManifest, ApiProfileExtensionCapability, ApiProfileObservedEvent, ApiProfileOperationCapability, ApiProfileTerminal, FixtureError, WireConformanceTransport, WireConformanceTransportEndpoint};
use crate::host_route::{push_transport_name, transport_name};
use crate::sorted_text::{insert_sorted_text, strictly_sorted, texts};
use crate::text::{decimal, has_prefix, push_decimal, push_text, starts_with_text};

verus! {

/// Whether a transport may and must carry TLS material at an endpoint:
/// TCP may, QUIC must, IPC may not, and WebSocket must for `wss://` and may
/// not for `ws://`.
pub open spec fn endpoint_security_contract(transport: WireConformanceTransport, endpoint: Seq<char>) -> (bool, bool) {
    match transport {
        WireConformanceTransport::Tcp => (true, false),
        WireConformanceTransport::Ipc => (false, false),
        WireConformanceTransport::Quic => (true, true),
        WireConformanceTransport::Websocket => if has_prefix(endpoint, "wss://"@) {
            (true, true)
        } else {
            (false, false)
        },
    }
}

/// What is wrong with a wire endpoint declaration, checked in this order:
/// an empty endpoint, a WebSocket endpoint with another scheme, TLS that
/// disagrees with the security material or the transport, and empty
/// security fields; none if nothing is.
pub open spec fn endpoint_problem(endpoint: WireConformanceTransportEndpoint) -> Option<Seq<char>> {
    let name = transport_name(endpoint.name);
    let (allows_security, requires_security) = endpoint_security_contract(endpoint.name, endpoint.endpoint@);
    if endpoint.endpoint@.len() == 0 {
        Some(name + " wire endpoint must not be empty"@)
    } else if endpoint.name == WireConformanceTransport::Websocket && !has_prefix(endpoint.endpoint@, "wss://"@)
        && !has_prefix(endpoint.endpoint@, "ws://"@) {
        Some("WebSocket wire endpoint must use ws:// or wss://"@)
    } else if endpoint.tls != (endpoint.security is Some) || (requires_security && !endpoint.tls) || (
    !allows_security && endpoint.tls) {
        Some(name + " wire endpoint TLS flag and security material do not match its transport contract"@)
    } else if endpoint.security matches Some(security) && (security.server_name@.len() == 0
        || security.trusted_certificate_der_path@.len() == 0 || security.certificate_der_path@.len() == 0
        || security.private_key_pkcs8_der_path@.len() == 0) {
        Some(name + " wire endpoint security fields must not be empty"@)
    } else {
        None
    }
}

fn transport_message(transport: WireConformanceTransport, rest: &str) -> (message: String)
    ensures
        message@ == transport_name(transport) + rest@,
{
    let mut message = String::new();
    push_transport_name(&mut message, transport);
    push_text(&mut message, rest);
    message
}

/// Checks that a wire endpoint is set, uses a scheme its transport accepts,
/// and carries complete TLS material exactly where its transport wants it.
pub fn validate_wire_transport_endpoint(endpoint: &WireConformanceTransportEndpoint) -> (result: Result<(), FixtureError>)
    ensures
        match result {
            Ok(()) => endpoint_problem(*endpoint) is None,
            Err(e) => endpoint_problem(*endpoint) matches Some(message) && e.is_validation(message),
        },
{
    if endpoint.endpoint.as_str().is_empty() {
        return Err(FixtureError::Validation { message: transport_message(endpoint.name, " wire endpoint must not be empty") });
    }
    let (allows_security, requires_security) = match endpoint.name {
        WireConformanceTransport::Tcp => (true, false),
        WireConformanceTransport::Ipc => (false, false),
        WireConformanceTransport::Quic => (true, true),
        WireConformanceTransport::Websocket => {
            if starts_with_text(endpoint.endpoint.as_str(), "wss://") {
                (true, true)
            } else if starts_with_text(endpoint.endpoint.as_str(), "ws://") {
                (false, false)
            } else {
                return Err(FixtureError::Validation {
                    message: "WebSocket wire endpoint must use ws:// or wss://".to_owned(),
                });
            }
        },
    };
    if endpoint.tls != endpoint.security.is_some() || (requires_security && !endpoint.tls) || (!allows_security
        && endpoint.tls) {
        return Err(FixtureError::Validation {
            message: transport_message(
                endpoint.name,
                " wire endpoint TLS flag and security material do not match its transport contract",
            ),
        });
    }
    if let Some(security) = &endpoint.security {
        if security.server_name.as_str().is_empty() || security.trusted_certificate_der_path.as_str().is_empty()
            || security.certificate_der_path.as_str().is_empty()
            || security.private_key_pkcs8_der_path.as_str().is_empty() {
            return Err(FixtureError::Validation {
                message: transport_message(endpoint.name, " wire endpoint security fields must not be empty"),
            });
        }
    }
    Ok(())
}

/// The name by which messages refer to an API terminal.
pub open spec fn terminal_name(terminal: ApiProfileTerminal) -> Seq<char> {
    match terminal {
        ApiProfileTerminal::Success => "Success"@,
        ApiProfileTerminal::Error => "Error"@,
        ApiProfileTerminal::Cancelled => "Cancelled"@,
    }
}

/// The event a terminal requires among the observed events: none for
/// success, `response.error` for an error, `response.cancelled` for a
/// cancellation.
pub open spec fn terminal_event(terminal: ApiProfileTerminal) -> Option<Seq<char>> {
    match terminal {
        ApiProfileTerminal::Success => None,
        ApiProfileTerminal::Error => Some("response.error"@),
        ApiProfileTerminal::Cancelled => Some("response.cancelled"@),
    }
}

/// The types of observed events, in order.
pub open spec fn event_types(events: Seq<ApiProfileObservedEvent>) -> Seq<Seq<char>> {
    events.map_values(|e: ApiProfileObservedEvent| e.event_type@)
}

/// What the observed events of a case lack for its terminal: the event the
/// terminal requires, where none of them has that type.
pub open spec fn terminal_event_problem(
    case_id: Seq<char>,
    terminal: ApiProfileTerminal,
    events: Seq<ApiProfileObservedEvent>,
) -> Option<Seq<char>> {
    match terminal_event(terminal) {
        Some(required) => if event_types(events).contains(required) {
            None
        } else {
            Some("api profile case "@ + case_id + " terminal "@ + terminal_name(terminal) + " must include "@ + required)
        },
        None => None,
    }
}

fn has_event_type(events: &Vec<ApiProfileObservedEvent>, wanted: &String) -> (found: bool)
    ensures
        found == event_types(events@).contains(wanted@),
{
    let mut i: usize = 0;
    while i < events.len()
        invariant
            i <= events@.len(),
            forall|k: int| 0 <= k < i ==> events@[k].event_type@ != wanted@,
        decreases events@.len() - i,
    {
        if events[i].event_type == *wanted {
            assert(event_types(events@)[i as int] == wanted@);
            return true;
        }
        i = i + 1;
    }
    proof {
        if event_types(events@).contains(wanted@) {
            let k = choose|k: int| 0 <= k < event_types(events@).len() && event_types(events@)[k] == wanted@;
            assert(events@[k].event_type@ == wanted@);
        }
    }
    false
}

/// Checks that the observed events of a case include the event its terminal
/// requires.
pub fn validate_api_terminal_event(
    terminal: &ApiProfileTerminal,
    events: &Vec<ApiProfileObservedEvent>,
    case_id: &str,
) -> (result: Result<(), FixtureError>)
    ensures
        match terminal_event_problem(case_id@, *terminal, events@) {
            Some(message) => result matches Err(e) && e.is_validation(message),
            None => result is Ok,
        },
{
    let (required, name): (&str, &str) = match terminal {
        ApiProfileTerminal::Success => {
            return Ok(());
        },
        ApiProfileTerminal::Error => ("response.error", "Error"),
        ApiProfileTerminal::Cancelled => ("response.cancelled", "Cancelled"),
    };
    let wanted = required.to_owned();
    if has_event_type(events, &wanted) {
        return Ok(());
    }
    let mut message = String::new();
    push_text(&mut message, "api profile case ");
    push_text(&mut message, case_id);
    push_text(&mut message, " terminal ");
    push_text(&mut message, name);
    push_text(&mut message, " must include ");
    push_text(&mut message, required);
    Err(FixtureError::Validation { message })
}

/// The tokens one operation declares: `api.<name>`, and one per mode it
/// supports.
pub open spec fn operation_token(operation: ApiProfileOperationCapability, token: Seq<char>) -> bool {
    ||| token == "api."@ + operation.name@
    ||| operation.streaming && token == "api.streaming"@
    ||| operation.non_streaming && token == "api.non_streaming"@
    ||| operation.tool_calls && token == "api.tool_calls"@
    ||| operation.cancellation && token == "api.cancellation"@
}

/// The tokens one extension declares: `api.extension.<name>`, and
/// `api.extension.<name>.critical` for a critical one.
pub open spec fn extension_token(extension: ApiProfileExtensionCapability, token: Seq<char>) -> bool {
    ||| token == "api.extension."@ + extension.name@
    ||| extension.critical && token == "api.extension."@ + extension.name@ + ".critical"@
}

/// A capability token an API profile manifest declares: `api.level<n>` for
/// each compatibility level, and the tokens of each operation and each
/// extension.
pub open spec fn declares_api_capability(manifest: ApiProfileCapabilityManifest, token: Seq<char>) -> bool {
    ||| exists|k: int| 0 <= k < manifest.compatibility_levels@.len() && token == "api.level"@ + decimal(
        #[trigger] manifest.compatibility_levels@[k] as nat,
    )
    ||| exists|k: int| 0 <= k < manifest.operations@.len() && operation_token(#[trigger] manifest.operations@[k], token)
    ||| exists|k: int| 0 <= k < manifest.extensions@.len() && extension_token(#[trigger] manifest.extensions@[k], token)
}

fn add_token(tokens: &mut Vec<String>, token: String)
    requires
        strictly_sorted(texts(old(tokens)@)),
    ensures
        strictly_sorted(texts(final(tokens)@)),
        forall|t: Seq<char>| texts(final(tokens)@).contains(t) <==> (texts(old(tokens)@).contains(t) || t == token@),
{
    insert_sorted_text(tokens, token);
}

fn add_operation_tokens(tokens: &mut Vec<String>, operation: &ApiProfileOperationCapability)
    requires
        strictly_sorted(texts(old(tokens)@)),
    ensures
        strictly_sorted(texts(final(tokens)@)),
        forall|t: Seq<char>| texts(final(tokens)@).contains(t) <==> (texts(old(tokens)@).contains(t) || operation_token(
            *operation,
            t,
        )),
{
    let ghost start = texts(tokens@);
    let mut token = String::new();
    push_text(&mut token, "api.");
    push_text(&mut token, operation.name.as_str());
    add_token(tokens, token);
    let ghost s1 = texts(tokens@);
    if operation.streaming {
        add_token(tokens, "api.streaming".to_owned());
    }
    let ghost s2 = texts(tokens@);
    assert(forall|t: Seq<char>| s2.contains(t) <==> (s1.contains(t) || (operation.streaming && t == "api.streaming"@)));
    if operation.non_streaming {
        add_token(tokens, "api.non_streaming".to_owned());
    }
    let ghost s3 = texts(tokens@);
    assert(forall|t: Seq<char>| s3.contains(t) <==> (s2.contains(t) || (operation.non_streaming && t == "api.non_streaming"@)));
    if operation.tool_calls {
        add_token(tokens, "api.tool_calls".to_owned());
    }
    let ghost s4 = texts(tokens@);
    assert(forall|t: Seq<char>| s4.contains(t) <==> (s3.contains(t) || (operation.tool_calls && t == "api.tool_calls"@)));
    if operation.cancellation {
        add_token(tokens, "api.cancellation".to_owned());
    }
    assert(forall|t: Seq<char>| texts(tokens@).contains(t) <==> (s4.contains(t) || (operation.cancellation && t
        == "api.cancellation"@)));
}

fn add_extension_tokens(tokens: &mut Vec<String>, extension: &ApiProfileExtensionCapability)
    requires
        strictly_sorted(texts(old(tokens)@)),
    ensures
        strictly_sorted(texts(final(tokens)@)),
        forall|t: Seq<char>| texts(final(tokens)@).contains(t) <==> (texts(old(tokens)@).contains(t) || extension_token(
            *extension,
            t,
        )),
{
    let mut token = String::new();
    push_text(&mut token, "api.extension.");
    push_text(&mut token, extension.name.as_str());
    add_token(tokens, token);
    let ghost s1 = texts(tokens@);
    if extension.critical {
        let mut critical = String::new();
        push_text(&mut critical, "api.extension.");
        push_text(&mut critical, extension.name.as_str());
        push_text(&mut critical, ".critical");
        add_token(tokens, critical);
    }
    assert(forall|t: Seq<char>| texts(tokens@).contains(t) <==> (s1.contains(t) || (extension.critical && t
        == "api.extension."@ + extension.name@ + ".critical"@)));
}

/// The capability tokens an API profile manifest declares, sorted, each
/// once.
pub fn api_profile_declared_capabilities(capability_manifest: &ApiProfileCapabilityManifest) -> (tokens: Vec<String>)
    ensures
        strictly_sorted(texts(tokens@)),
        forall|t: Seq<char>| texts(tokens@).contains(t) <==> declares_api_capability(*capability_manifest, t),
{
    let ghost m = *capability_manifest;
    let mut tokens: Vec<String> = Vec::new();
    let mut i: usize = 0;
    while i < capability_manifest.compatibility_levels.len()
        invariant
            m == *capability_manifest,
            i <= m.compatibility_levels@.len(),
            strictly_sorted(texts(tokens@)),
            forall|t: Seq<char>| texts(tokens@).contains(t) <==> exists|k: int| 0 <= k < i && t == "api.level"@ + decimal(
                #[trigger] m.compatibility_levels@[k] as nat,
            ),
        decreases m.compatibility_levels@.len() - i,
    {
        let level = capability_manifest.compatibility_levels[i];
        let mut token = String::new();
        push_text(&mut token, "api.level");
        push_decimal(&mut token, level as u64);
        add_token(&mut tokens, token);
        proof {
            assert forall|t: Seq<char>| texts(tokens@).contains(t) <==> exists|k: int| 0 <= k < i + 1 && t == "api.level"@
                + decimal(#[trigger] m.compatibility_levels@[k] as nat) by {
                if t == "api.level"@ + decimal(level as nat) {
                    assert(m.compatibility_levels@[i as int] == level);
                }
            }
        }
        i = i + 1;
    }
    let ghost levels = texts(tokens@);
    let mut j: usize = 0;
    while j < capability_manifest.operations.len()
        invariant
            m == *capability_manifest,
            j <= m.operations@.len(),
            strictly_sorted(texts(tokens@)),
            forall|t: Seq<char>| #[trigger] texts(tokens@).contains(t) <==> (levels.contains(t) || exists|k: int| 0 <= k < j
                && operation_token(#[trigger] m.operations@[k], t)),
        decreases m.operations@.len() - j,
    {
        let operation = &capability_manifest.operations[j];
        assert(*operation == m.operations@[j as int]);
        let ghost before = texts(tokens@);
        assert(forall|t: Seq<char>| before.contains(t) <==> (levels.contains(t) || exists|k: int| 0 <= k < j
            && operation_token(#[trigger] m.operations@[k], t)));
        add_operation_tokens(&mut tokens, operation);
        proof {
            assert forall|t: Seq<char>| #[trigger] texts(tokens@).contains(t) <==> (levels.contains(t) || exists|k: int| 0 <= k < j + 1
                && operation_token(#[trigger] m.operations@[k], t)) by {
                if exists|k: int| 0 <= k < j + 1 && operation_token(#[trigger] m.operations@[k], t) {
                    let k = choose|k: int| 0 <= k < j + 1 && operation_token(#[trigger] m.operations@[k], t);
                    if k < j {
                        assert(exists|k2: int| 0 <= k2 < j && operation_token(#[trigger] m.operations@[k2], t));
                        assert(before.contains(t));
                    } else {
                        assert(operation_token(*operation, t));
                    }
                }
                if before.contains(t) && !levels.contains(t) {
                    let k = choose|k: int| 0 <= k < j && operation_token(#[trigger] m.operations@[k], t);
                    assert(0 <= k < j + 1 && operation_token(m.operations@[k], t));
                }
                if operation_token(*operation, t) {
                    assert(0 <= j < j + 1 && operation_token(m.operations@[j as int], t));
                }
            }
        }
        j = j + 1;
    }
    let ghost operations = texts(tokens@);
    let mut x: usize = 0;
    while x < capability_manifest.extensions.len()
        invariant
            m == *capability_manifest,
            x <= m.extensions@.len(),
            strictly_sorted(texts(tokens@)),
            forall|t: Seq<char>| #[trigger] texts(tokens@).contains(t) <==> (operations.contains(t) || exists|k: int| 0 <= k < x
                && extension_token(#[trigger] m.extensions@[k], t)),
        decreases m.extensions@.len() - x,
    {
        let extension = &capability_manifest.extensions[x];
        assert(*extension == m.extensions@[x as int]);
        let ghost before = texts(tokens@);
        assert(forall|t: Seq<char>| before.contains(t) <==> (operations.contains(t) || exists|k: int| 0 <= k < x
            && extension_token(#[trigger] m.extensions@[k], t)));
        add_extension_tokens(&mut tokens, extension);
        proof {
            assert forall|t: Seq<char>| #[trigger] texts(tokens@).contains(t) <==> (operations.contains(t) || exists|k: int| 0 <= k < x
                + 1 && extension_token(#[trigger] m.extensions@[k], t)) by {
                if exists|k: int| 0 <= k < x + 1 && extension_token(#[trigger] m.extensions@[k], t) {
                    let k = choose|k: int| 0 <= k < x + 1 && extension_token(#[trigger] m.extensions@[k], t);
                    if k < x {
                        assert(exists|k2: int| 0 <= k2 < x && extension_token(#[trigger] m.extensions@[k2], t));
                        assert(before.contains(t));
                    } else {
                        assert(extension_token(*extension, t));
                    }
                }
                if before.contains(t) && !operations.contains(t) {
                    let k = choose|k: int| 0 <= k < x && extension_token(#[trigger] m.extensions@[k], t);
                    assert(0 <= k < x + 1 && extension_token(m.extensions@[k], t));
                }
                if extension_token(*extension, t) {
                    assert(0 <= x < x + 1 && extension_token(m.extensions@[x as int], t));
                }
            }
        }
        x = x + 1;
    }
    proof {
        assert forall|t: Seq<char>| texts(tokens@).contains(t) <==> declares_api_capability(m, t) by {
            let in_levels = exists|k: int| 0 <= k < m.compatibility_levels@.len() && t == "api.level"@ + decimal(
                #[trigger] m.compatibility_levels@[k] as nat);
            let in_operations = exists|k: int| 0 <= k < m.operations@.len() && operation_token(#[trigger] m.operations@[k], t);
            assert(levels.contains(t) <==> in_levels);
            assert(operations.contains(t) <==> (in_levels || in_operations));
        }
    }
    tokens
}

} // verus!
