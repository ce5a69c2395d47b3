use nnrp_conformance_suite::fixtures::{
    ApiProfileCapabilityManifest, ApiProfileExtensionCapability, ApiProfileObservedEvent, ApiProfileOperationCapability,
    ApiProfileTerminal,
    WireConformanceTransport, WireConformanceTransportEndpoint, WireConformanceTransportSecurity,
    WireHostCredentialOwner, WireHostPlatform, WireHostProviderRoute, WireHostRole, WireHostRouteInjectedFailure,
    WireHostRouteSecurity, WireHostRouteSecurityMode,
};
use nnrp_conformance_suite::host_route::{
    allocate_server_locator, closure_probe_timeout_ms, driver_invocation, declared_timeout_ms, native_host_route_providers,
    rollback_probe_transport, sanitize_id, validate_provider_routes, websocket_locator, wire_endpoint_value,
    wire_timeout_ms, SupportedHostRoles, HOST_ROUTE_DRIVER_STARTUP_GRACE_MS,
};
use nnrp_conformance_suite::profile_checks::{
    api_profile_declared_capabilities, validate_api_terminal_event, validate_wire_transport_endpoint,
};

#[test]
fn websocket_locator_uses_bound_port_and_security_scheme() {
    assert_eq!(websocket_locator(WireHostRouteSecurityMode::Plain, 19091), "ws://localhost:19091/nnrp");
    assert_eq!(websocket_locator(WireHostRouteSecurityMode::Wss, 19092), "wss://localhost:19092/nnrp");
    assert_eq!(websocket_locator(WireHostRouteSecurityMode::BrowserHost, 19093), "wss://localhost:19093/nnrp");
}

fn roles(client: bool, server: bool) -> SupportedHostRoles {
    SupportedHostRoles { client, server, label: "test" }
}

#[test]
fn singular_reference_targets_reject_the_opposite_host_role() {
    let both = roles(true, true);
    let client = roles(true, false);
    let server = roles(false, true);

    assert!(both.supports(WireHostRole::Client));
    assert!(both.supports(WireHostRole::Server));
    assert!(client.supports(WireHostRole::Client));
    assert!(!client.supports(WireHostRole::Server));
    assert!(server.supports(WireHostRole::Server));
    assert!(!server.supports(WireHostRole::Client));
}

fn route(transport: WireConformanceTransport, bind_failure: bool) -> WireHostProviderRoute {
    WireHostProviderRoute {
        transport,
        provider_id: format!("test.{transport:?}"),
        locator: "suite://allocate/test".to_string(),
        security: WireHostRouteSecurity {
            mode: WireHostRouteSecurityMode::Plain,
            credential_owner: WireHostCredentialOwner::Absent,
        },
        injected_failures: if bind_failure { vec![WireHostRouteInjectedFailure::BindFailure] } else { Vec::new() },
    }
}

#[test]
fn rollback_probe_prefers_a_provider_that_opens_before_failure() {
    let routes = vec![route(WireConformanceTransport::Ipc, false), route(WireConformanceTransport::Tcp, true)];
    assert_eq!(rollback_probe_transport(&routes).unwrap(), WireConformanceTransport::Ipc);
    let routes = vec![route(WireConformanceTransport::Ipc, true), route(WireConformanceTransport::Quic, false)];
    assert_eq!(rollback_probe_transport(&routes).unwrap(), WireConformanceTransport::Quic);
}

#[test]
fn rollback_probe_rejects_a_vacuous_failure_fixture() {
    let routes = vec![route(WireConformanceTransport::Tcp, true)];
    assert!(rollback_probe_transport(&routes).is_err());
    assert_eq!(
        rollback_probe_transport(&routes).unwrap_err().to_string(),
        "bind-failure scenario requires a provider that opens before rollback"
    );
}

#[test]
fn provider_routes_must_not_repeat_a_transport_or_an_id() {
    validate_provider_routes(&vec![route(WireConformanceTransport::Tcp, false), route(WireConformanceTransport::Quic, false)])
        .expect("distinct routes are fine");
    let error =
        validate_provider_routes(&vec![route(WireConformanceTransport::Tcp, false), route(WireConformanceTransport::Tcp, true)])
            .unwrap_err();
    assert_eq!(error.to_string(), "host-route scenario declares more than one route for Tcp");
    let mut quic = route(WireConformanceTransport::Quic, false);
    quic.provider_id = "test.Tcp".to_string();
    let error = validate_provider_routes(&vec![route(WireConformanceTransport::Tcp, false), quic]).unwrap_err();
    assert_eq!(error.to_string(), "host-route scenario repeats provider id test.Tcp");
}

#[test]
fn server_locators_follow_the_transport() {
    let tcp = route(WireConformanceTransport::Tcp, false);
    assert_eq!(allocate_server_locator(&tcp, "unix:///tmp/x.sock".to_string()).unwrap(), "tcp://127.0.0.1:0");
    let ipc = route(WireConformanceTransport::Ipc, false);
    assert_eq!(allocate_server_locator(&ipc, "unix:///tmp/x.sock".to_string()).unwrap(), "unix:///tmp/x.sock");
    let mut ws = route(WireConformanceTransport::Websocket, false);
    ws.security.mode = WireHostRouteSecurityMode::Wss;
    assert_eq!(allocate_server_locator(&ws, String::new()).unwrap(), "wss://localhost:0/nnrp");
}

#[test]
fn endpoint_values_drop_tcp_and_quic_schemes() {
    assert_eq!(wire_endpoint_value("tcp://127.0.0.1:9000").unwrap(), "127.0.0.1:9000");
    assert_eq!(wire_endpoint_value("quic://[::1]:443").unwrap(), "[::1]:443");
    assert_eq!(wire_endpoint_value("unix:///tmp/nnrp.sock").unwrap(), "unix:///tmp/nnrp.sock");
    assert_eq!(wire_endpoint_value("tcp:/").unwrap(), "tcp:/");
}

#[test]
fn sanitized_ids_keep_only_safe_characters() {
    assert_eq!(sanitize_id("wire.host-route/client_1 é"), "wire-host-route-client_1--");
    assert_eq!(sanitize_id(""), "");
}

#[test]
fn scenario_timeouts_follow_the_largest_step() {
    let steps = vec![Some(200), None, Some(7_000), Some(30)];
    assert_eq!(declared_timeout_ms(&steps), Some(7_000));
    assert_eq!(wire_timeout_ms(&steps), 7_000 + HOST_ROUTE_DRIVER_STARTUP_GRACE_MS);
    assert_eq!(closure_probe_timeout_ms(&steps), 5_000);
    assert_eq!(declared_timeout_ms(&vec![None]), None);
    assert_eq!(wire_timeout_ms(&vec![]), 15_000);
    assert_eq!(closure_probe_timeout_ms(&vec![]), 1_000);
    assert_eq!(closure_probe_timeout_ms(&vec![Some(10)]), 1_000);
    assert_eq!(closure_probe_timeout_ms(&vec![Some(2_500)]), 2_500);
    assert_eq!(wire_timeout_ms(&vec![Some(u64::MAX - 1)]), u64::MAX);
}

#[test]
fn native_providers_cover_every_transport() {
    let providers = native_host_route_providers();
    let ids: Vec<&str> = providers.iter().map(|p| p.provider_id.as_str()).collect();
    assert_eq!(
        ids,
        vec![
            "nnrp.transport.tcp.native",
            "nnrp.transport.quic.native",
            "nnrp.transport.ipc.native",
            "nnrp.transport.websocket.native"
        ]
    );
    assert!(providers.iter().all(|p| p.installed && p.platforms == vec![WireHostPlatform::Native]));
    assert_eq!(providers[1].security_modes, vec![WireHostRouteSecurityMode::TlsServerAuth, WireHostRouteSecurityMode::MutualTls]);
}

fn endpoint(name: WireConformanceTransport, value: &str, tls: bool, with_security: bool) -> WireConformanceTransportEndpoint {
    WireConformanceTransportEndpoint {
        name,
        endpoint: value.to_string(),
        tls,
        security: if with_security {
            Some(WireConformanceTransportSecurity {
                server_name: "localhost".to_string(),
                trusted_certificate_der_path: "ca.der".to_string(),
                certificate_der_path: "cert.der".to_string(),
                private_key_pkcs8_der_path: "key.der".to_string(),
            })
        } else {
            None
        },
    }
}

#[test]
fn wire_endpoints_follow_their_transport_contract() {
    validate_wire_transport_endpoint(&endpoint(WireConformanceTransport::Tcp, "tcp://127.0.0.1:1", false, false)).unwrap();
    validate_wire_transport_endpoint(&endpoint(WireConformanceTransport::Tcp, "tcp://127.0.0.1:1", true, true)).unwrap();
    validate_wire_transport_endpoint(&endpoint(WireConformanceTransport::Websocket, "wss://h/nnrp", true, true)).unwrap();
    validate_wire_transport_endpoint(&endpoint(WireConformanceTransport::Websocket, "ws://h/nnrp", false, false)).unwrap();

    let error = validate_wire_transport_endpoint(&endpoint(WireConformanceTransport::Quic, "", true, true)).unwrap_err();
    assert_eq!(error.to_string(), "fixture validation failed: Quic wire endpoint must not be empty");
    let error =
        validate_wire_transport_endpoint(&endpoint(WireConformanceTransport::Quic, "quic://h:1", false, false)).unwrap_err();
    assert_eq!(
        error.to_string(),
        "fixture validation failed: Quic wire endpoint TLS flag and security material do not match its transport contract"
    );
    let error =
        validate_wire_transport_endpoint(&endpoint(WireConformanceTransport::Websocket, "http://h", false, false)).unwrap_err();
    assert_eq!(error.to_string(), "fixture validation failed: WebSocket wire endpoint must use ws:// or wss://");
    let error = validate_wire_transport_endpoint(&endpoint(WireConformanceTransport::Ipc, "unix:///s", true, true)).unwrap_err();
    assert!(error.to_string().contains("Ipc wire endpoint TLS flag"));
    let mut blank = endpoint(WireConformanceTransport::Tcp, "tcp://h:1", true, true);
    if let Some(security) = blank.security.as_mut() {
        security.certificate_der_path = String::new();
    }
    let error = validate_wire_transport_endpoint(&blank).unwrap_err();
    assert_eq!(error.to_string(), "fixture validation failed: Tcp wire endpoint security fields must not be empty");
}

#[test]
fn api_terminals_require_their_event() {
    let events = vec![
        ApiProfileObservedEvent { event_type: "response.created".to_string(), fields: vec![] },
        ApiProfileObservedEvent { event_type: "response.error".to_string(), fields: vec![] },
    ];
    validate_api_terminal_event(&ApiProfileTerminal::Error, &events, "case-1").unwrap();
    validate_api_terminal_event(&ApiProfileTerminal::Success, &vec![], "case-1").unwrap();
    let error = validate_api_terminal_event(&ApiProfileTerminal::Cancelled, &events, "case-1").unwrap_err();
    assert_eq!(
        error.to_string(),
        "fixture validation failed: api profile case case-1 terminal Cancelled must include response.cancelled"
    );
}

#[test]
fn api_manifests_declare_sorted_capability_tokens() {
    let manifest = ApiProfileCapabilityManifest {
        schema: None,
        adapter: "vllm-nnrp-adapter".to_string(),
        profile: "openai-compatible".to_string(),
        schema_version: "openai-compatible/1".to_string(),
        compatibility_levels: vec![2, 1, 2],
        operations: vec![
            ApiProfileOperationCapability {
                name: "responses.create".to_string(),
                streaming: true,
                non_streaming: true,
                tool_calls: false,
                cancellation: true,
            },
            ApiProfileOperationCapability {
                name: "chat.completions.create".to_string(),
                streaming: true,
                non_streaming: false,
                tool_calls: true,
                cancellation: false,
            },
        ],
        extensions: vec![ApiProfileExtensionCapability {
            name: "nnrp.trace".to_string(),
            critical: true,
            description: None,
        }],
    };
    assert_eq!(
        api_profile_declared_capabilities(&manifest),
        vec![
            "api.cancellation",
            "api.chat.completions.create",
            "api.extension.nnrp.trace",
            "api.extension.nnrp.trace.critical",
            "api.level1",
            "api.level2",
            "api.non_streaming",
            "api.responses.create",
            "api.streaming",
            "api.tool_calls",
        ]
    );
}

#[test]
fn windows_command_driver_uses_the_command_processor() {
    let executable = std::path::Path::new(r"C:\target path\host.cmd");
    let extension = executable.extension().and_then(|extension| extension.to_str());
    let (program, arguments) = driver_invocation(
        &executable.to_string_lossy(),
        extension,
        true,
        Some("test-command-processor".to_string()),
    );

    assert_eq!(program, "test-command-processor");
    assert_eq!(&arguments[..3], ["/d", "/s", "/c"]);
    assert_eq!(arguments[3], executable.to_string_lossy());
}

#[test]
fn native_driver_is_started_directly() {
    let executable = std::path::Path::new("/target/host");
    let extension = executable.extension().and_then(|extension| extension.to_str());
    let (program, arguments) = driver_invocation(&executable.to_string_lossy(), extension, false, None);

    assert_eq!(program, executable.to_string_lossy());
    assert_eq!(arguments.len(), 0);
}

#[test]
fn windows_script_without_a_named_processor_uses_cmd() {
    let (program, arguments) = driver_invocation(r"C:\t\run.BAT", Some("BAT"), true, None);
    assert_eq!(program, "cmd.exe");
    assert_eq!(arguments, vec!["/d", "/s", "/c", r"C:\t\run.BAT"]);
    let (program, arguments) = driver_invocation("/t/run.bat", Some("bat"), false, None);
    assert_eq!(program, "/t/run.bat");
    assert!(arguments.is_empty());
}
