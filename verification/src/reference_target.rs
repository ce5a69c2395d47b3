use vstd::prelude::*;

use crate::fixtures::{
    WireConformanceLimits, WireConformanceMode, WireConformanceTarget, WireConformanceTargetManifest,
    WireConformanceTransport, WireConformanceTransportEndpoint, WireConformanceTransportSecurity, WireHostPlatform,
    WireHostRouteProviderCapability, WireHostRouteSecurityMode,
};
use crate::host_route::{native_host_route_providers, native_provider};
use crate::sorted_text::texts;
use crate::text::opt_view;

verus! {

/// The schema of wire target manifests.
pub open spec fn target_schema() -> Seq<char> {
    "https://github.com/NagareWorks/nnrp-conformance/schemas/wire-conformance-target.schema.json"@
}

/// The test certificate material of the reference target.
pub open spec fn reference_tls(security: WireConformanceTransportSecurity) -> bool {
    &&& security.server_name@ == "localhost"@
    &&& security.trusted_certificate_der_path@ == "certs/server.der"@
    &&& security.certificate_der_path@ == "certs/server.der"@
    &&& security.private_key_pkcs8_der_path@ == "certs/server-key.der"@
}

/// The capabilities the reference target claims.
pub open spec fn reference_capabilities() -> Seq<Seq<char>> {
    seq![
        "control.cancel_abort"@,
        "control.priority_update"@,
        "control.deadline_expire"@,
        "control.progress_partial"@,
        "control.credit_backpressure"@,
        "control.capability_costs"@,
        "control.route_execution_hint"@,
        "cache.reference"@,
        "control.trace_context"@,
        "control.result_drop_reason"@,
        "control.degrade_profile"@,
        "control.budget_update"@,
        "object.lifecycle"@,
        "host.routes"@,
    ]
}

/// The limits of the reference targets.
pub open spec fn reference_limits(limits: WireConformanceLimits) -> bool {
    limits.max_frame_bytes == 16_777_216 && limits.max_in_flight == 256
}

/// An endpoint of the reference target: its transport and address, and the
/// test certificate where it is secured.
pub open spec fn reference_endpoint(
    endpoint: WireConformanceTransportEndpoint,
    name: WireConformanceTransport,
    address: Seq<char>,
    tls: bool,
) -> bool {
    &&& endpoint.name == name
    &&& endpoint.endpoint@ == address
    &&& endpoint.tls == tls
    &&& if tls {
        endpoint.security matches Some(s) && reference_tls(s)
    } else {
        endpoint.security is None
    }
}

fn test_certificate() -> (security: WireConformanceTransportSecurity)
    ensures
        reference_tls(security),
{
    WireConformanceTransportSecurity {
        server_name: "localhost".to_owned(),
        trusted_certificate_der_path: "certs/server.der".to_owned(),
        certificate_der_path: "certs/server.der".to_owned(),
        private_key_pkcs8_der_path: "certs/server-key.der".to_owned(),
    }
}

fn reference_limits_value() -> (limits: WireConformanceLimits)
    ensures
        reference_limits(limits),
{
    WireConformanceLimits { max_frame_bytes: 16_777_216, max_in_flight: 256 }
}

fn target_schema_value() -> (schema: Option<String>)
    ensures
        opt_view(schema) == Some(target_schema()),
{
    Some("https://github.com/NagareWorks/nnrp-conformance/schemas/wire-conformance-target.schema.json".to_owned())
}

fn capability_list() -> (capabilities: Vec<String>)
    ensures
        texts(capabilities@) == reference_capabilities(),
{
    let capabilities = vec![
        "control.cancel_abort".to_owned(),
        "control.priority_update".to_owned(),
        "control.deadline_expire".to_owned(),
        "control.progress_partial".to_owned(),
        "control.credit_backpressure".to_owned(),
        "control.capability_costs".to_owned(),
        "control.route_execution_hint".to_owned(),
        "cache.reference".to_owned(),
        "control.trace_context".to_owned(),
        "control.result_drop_reason".to_owned(),
        "control.degrade_profile".to_owned(),
        "control.budget_update".to_owned(),
        "object.lifecycle".to_owned(),
        "host.routes".to_owned(),
    ];
    assert(texts(capabilities@) =~= reference_capabilities());
    capabilities
}

/// The manifest of the reference target: its four endpoints (TCP, QUIC and
/// WebSocket secured with the test certificate, IPC plain), all three modes,
/// the native host-route providers and the capabilities it claims.
pub fn reference_target_manifest(
    tcp_endpoint: String,
    quic_endpoint: String,
    ipc_endpoint: &str,
    websocket_endpoint: &str,
    suite_version: &str,
) -> (manifest: WireConformanceTargetManifest)
    ensures
        opt_view(manifest.schema) == Some(target_schema()),
        manifest.target_name@ == "reference-preview4-target"@,
        manifest.protocol_version@ == "nnrp-1-preview4"@,
        manifest.suite_version@ == suite_version@,
        manifest.wire_conformance.modes@ == seq![
            WireConformanceMode::SuiteAsClient,
            WireConformanceMode::SuiteAsServer,
            WireConformanceMode::SuiteAsProxy,
        ],
        manifest.wire_conformance.transports@.len() == 4,
        reference_endpoint(manifest.wire_conformance.transports@[0], WireConformanceTransport::Tcp, tcp_endpoint@, true),
        reference_endpoint(manifest.wire_conformance.transports@[1], WireConformanceTransport::Quic, quic_endpoint@, true),
        reference_endpoint(manifest.wire_conformance.transports@[2], WireConformanceTransport::Ipc, ipc_endpoint@, false),
        reference_endpoint(
            manifest.wire_conformance.transports@[3],
            WireConformanceTransport::Websocket,
            websocket_endpoint@,
            true,
        ),
        manifest.wire_conformance.host_route_providers@.len() == 4,
        forall|k: int| 0 <= k < 4 ==> native_provider(#[trigger] manifest.wire_conformance.host_route_providers@[k], k),
        texts(manifest.wire_conformance.capabilities@) == reference_capabilities(),
        reference_limits(manifest.wire_conformance.limits),
{
    let transports = vec![
        WireConformanceTransportEndpoint {
            name: WireConformanceTransport::Tcp,
            endpoint: tcp_endpoint,
            tls: true,
            security: Some(test_certificate()),
        },
        WireConformanceTransportEndpoint {
            name: WireConformanceTransport::Quic,
            endpoint: quic_endpoint,
            tls: true,
            security: Some(test_certificate()),
        },
        WireConformanceTransportEndpoint {
            name: WireConformanceTransport::Ipc,
            endpoint: ipc_endpoint.to_owned(),
            tls: false,
            security: None,
        },
        WireConformanceTransportEndpoint {
            name: WireConformanceTransport::Websocket,
            endpoint: websocket_endpoint.to_owned(),
            tls: true,
            security: Some(test_certificate()),
        },
    ];
    proof {
        reveal_strlit("reference-preview4-target");
        reveal_strlit("nnrp-1-preview4");
    }
    WireConformanceTargetManifest {
        schema: target_schema_value(),
        target_name: "reference-preview4-target".to_owned(),
        protocol_version: "nnrp-1-preview4".to_owned(),
        suite_version: suite_version.to_owned(),
        wire_conformance: WireConformanceTarget {
            modes: vec![
                WireConformanceMode::SuiteAsClient,
                WireConformanceMode::SuiteAsServer,
                WireConformanceMode::SuiteAsProxy,
            ],
            transports,
            host_route_providers: native_host_route_providers(),
            capabilities: capability_list(),
            limits: reference_limits_value(),
        },
    }
}

/// The manifest of the reference target that offers only host routes: the
/// client and server modes, no endpoint, the native providers and
/// `host.routes`.
pub fn host_route_only_manifest(suite_version: &str) -> (manifest: WireConformanceTargetManifest)
    ensures
        opt_view(manifest.schema) == Some(target_schema()),
        manifest.target_name@ == "reference-preview4-host-route-only-target"@,
        manifest.protocol_version@ == "nnrp-1-preview4"@,
        manifest.suite_version@ == suite_version@,
        manifest.wire_conformance.modes@ == seq![WireConformanceMode::SuiteAsClient, WireConformanceMode::SuiteAsServer],
        manifest.wire_conformance.transports@.len() == 0,
        manifest.wire_conformance.host_route_providers@.len() == 4,
        forall|k: int| 0 <= k < 4 ==> native_provider(#[trigger] manifest.wire_conformance.host_route_providers@[k], k),
        texts(manifest.wire_conformance.capabilities@) == seq!["host.routes"@],
        reference_limits(manifest.wire_conformance.limits),
{
    let capabilities = vec!["host.routes".to_owned()];
    assert(texts(capabilities@) =~= seq!["host.routes"@]);
    WireConformanceTargetManifest {
        schema: target_schema_value(),
        target_name: "reference-preview4-host-route-only-target".to_owned(),
        protocol_version: "nnrp-1-preview4".to_owned(),
        suite_version: suite_version.to_owned(),
        wire_conformance: WireConformanceTarget {
            modes: vec![WireConformanceMode::SuiteAsClient, WireConformanceMode::SuiteAsServer],
            transports: Vec::new(),
            host_route_providers: native_host_route_providers(),
            capabilities,
            limits: reference_limits_value(),
        },
    }
}

/// The manifest of the reference target whose only host-route provider, for
/// QUIC, is not installed: the server mode, no endpoint and `host.routes`.
pub fn uninstalled_quic_manifest(suite_version: &str) -> (manifest: WireConformanceTargetManifest)
    ensures
        opt_view(manifest.schema) == Some(target_schema()),
        manifest.target_name@ == "reference-preview4-uninstalled-quic-target"@,
        manifest.protocol_version@ == "nnrp-1-preview4"@,
        manifest.suite_version@ == suite_version@,
        manifest.wire_conformance.modes@ == seq![WireConformanceMode::SuiteAsServer],
        manifest.wire_conformance.transports@.len() == 0,
        manifest.wire_conformance.host_route_providers@.len() == 1,
        ({
            let p = manifest.wire_conformance.host_route_providers@[0];
            &&& p.transport == WireConformanceTransport::Quic
            &&& p.provider_id@ == "example.transport.quic.uninstalled"@
            &&& !p.installed
            &&& p.platforms@ == seq![WireHostPlatform::Native]
            &&& p.security_modes@ == seq![WireHostRouteSecurityMode::TlsServerAuth]
        }),
        texts(manifest.wire_conformance.capabilities@) == seq!["host.routes"@],
        reference_limits(manifest.wire_conformance.limits),
{
    let capabilities = vec!["host.routes".to_owned()];
    assert(texts(capabilities@) =~= seq!["host.routes"@]);
    let provider = WireHostRouteProviderCapability {
        transport: WireConformanceTransport::Quic,
        provider_id: "example.transport.quic.uninstalled".to_owned(),
        installed: false,
        platforms: vec![WireHostPlatform::Native],
        security_modes: vec![WireHostRouteSecurityMode::TlsServerAuth],
    };
    WireConformanceTargetManifest {
        schema: target_schema_value(),
        target_name: "reference-preview4-uninstalled-quic-target".to_owned(),
        protocol_version: "nnrp-1-preview4".to_owned(),
        suite_version: suite_version.to_owned(),
        wire_conformance: WireConformanceTarget {
            modes: vec![WireConformanceMode::SuiteAsServer],
            transports: Vec::new(),
            host_route_providers: vec![provider],
            capabilities,
            limits: reference_limits_value(),
        },
    }
}

} // verus!
