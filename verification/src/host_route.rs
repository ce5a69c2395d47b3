use vstd::prelude::*;

use crate::fixtures::{
    FixtureError, WireConformanceTransport, WireHostPlatform, WireHostProviderRoute, WireHostRole,
    WireHostRouteInjectedFailure, WireHostRouteProviderCapability, WireHostRouteSecurityMode,
};
use crate::plan::contains_text;
use crate::wire_lists::contains_transport;
use crate::results::ResultsError;
use crate::sorted_text::texts;
use crate::text::{decimal, has_prefix, push_decimal, push_text, starts_with_text, text_from};

verus! {

/// The extra time a host-route scenario grants an external driver to start.
pub const HOST_ROUTE_DRIVER_STARTUP_GRACE_MS: u64 = 15_000;

/// Which host roles a reference target plays.
#[derive(Clone, Copy, Debug)]
pub struct SupportedHostRoles {
    pub client: bool,
    pub server: bool,
    pub label: &'static str,
}

impl SupportedHostRoles {
    /// Whether the target plays this role.
    pub fn supports(self, role: WireHostRole) -> (supported: bool)
        ensures
            supported == ((self.client && role == WireHostRole::Client) || (self.server && role
                == WireHostRole::Server)),
    {
        match role {
            WireHostRole::Client => self.client,
            WireHostRole::Server => self.server,
        }
    }
}

/// The name by which messages refer to a transport.
pub open spec fn transport_name(transport: WireConformanceTransport) -> Seq<char> {
    match transport {
        WireConformanceTransport::Tcp => "Tcp"@,
        WireConformanceTransport::Quic => "Quic"@,
        WireConformanceTransport::Websocket => "Websocket"@,
        WireConformanceTransport::Ipc => "Ipc"@,
    }
}

/// Appends the name of a transport.
pub fn push_transport_name(text: &mut String, transport: WireConformanceTransport)
    ensures
        final(text)@ == old(text)@ + transport_name(transport),
{
    match transport {
        WireConformanceTransport::Tcp => push_text(text, "Tcp"),
        WireConformanceTransport::Quic => push_text(text, "Quic"),
        WireConformanceTransport::Websocket => push_text(text, "Websocket"),
        WireConformanceTransport::Ipc => push_text(text, "Ipc"),
    }
}

/// The WebSocket scheme of a security mode: secure for WSS and browser hosts.
pub open spec fn websocket_scheme(mode: WireHostRouteSecurityMode) -> Seq<char> {
    if mode == WireHostRouteSecurityMode::Wss || mode == WireHostRouteSecurityMode::BrowserHost {
        "wss"@
    } else {
        "ws"@
    }
}

/// The local WebSocket locator for a port under a security mode.
pub fn websocket_locator(mode: WireHostRouteSecurityMode, port: u16) -> (locator: String)
    ensures
        locator@ == websocket_scheme(mode) + "://localhost:"@ + decimal(port as nat) + "/nnrp"@,
{
    let mut locator = String::new();
    if mode == WireHostRouteSecurityMode::Wss || mode == WireHostRouteSecurityMode::BrowserHost {
        push_text(&mut locator, "wss");
    } else {
        push_text(&mut locator, "ws");
    }
    push_text(&mut locator, "://localhost:");
    push_decimal(&mut locator, port as u64);
    push_text(&mut locator, "/nnrp");
    locator
}

/// The locator a server route binds to: an ephemeral loopback port for TCP
/// and QUIC, the given endpoint for IPC, and port zero for WebSocket.
pub open spec fn server_locator(route: WireHostProviderRoute, ipc_endpoint: Seq<char>) -> Seq<char> {
    match route.transport {
        WireConformanceTransport::Tcp => "tcp://127.0.0.1:0"@,
        WireConformanceTransport::Quic => "quic://127.0.0.1:0"@,
        WireConformanceTransport::Ipc => ipc_endpoint,
        WireConformanceTransport::Websocket => websocket_scheme(route.security.mode) + "://localhost:"@ + decimal(0)
            + "/nnrp"@,
    }
}

/// Picks the locator a server route binds to; `ipc_endpoint` is the unique
/// IPC endpoint set aside for this run.
pub fn allocate_server_locator(route: &WireHostProviderRoute, ipc_endpoint: String) -> (result: Result<String, FixtureError>)
    ensures
        result matches Ok(locator) && locator@ == server_locator(*route, ipc_endpoint@),
{
    match route.transport {
        WireConformanceTransport::Tcp => Ok("tcp://127.0.0.1:0".to_owned()),
        WireConformanceTransport::Quic => Ok("quic://127.0.0.1:0".to_owned()),
        WireConformanceTransport::Ipc => Ok(ipc_endpoint),
        WireConformanceTransport::Websocket => Ok(websocket_locator(route.security.mode, 0)),
    }
}

/// A locator without its `tcp://` or `quic://` scheme; other locators stay
/// as they are.
pub open spec fn endpoint_value(locator: Seq<char>) -> Seq<char> {
    if has_prefix(locator, "tcp://"@) {
        locator.skip("tcp://"@.len() as int)
    } else if has_prefix(locator, "quic://"@) {
        locator.skip("quic://"@.len() as int)
    } else {
        locator
    }
}

/// The endpoint a locator names for the wire runtime.
pub fn wire_endpoint_value(locator: &str) -> (result: Result<String, FixtureError>)
    ensures
        result matches Ok(value) && value@ == endpoint_value(locator@),
{
    proof {
        reveal_strlit("tcp://");
        reveal_strlit("quic://");
    }
    if starts_with_text(locator, "tcp://") {
        return Ok(text_from(locator, 6));
    }
    if starts_with_text(locator, "quic://") {
        return Ok(text_from(locator, 7));
    }
    Ok(locator.to_owned())
}

/// A path separator or a colon.
pub open spec fn path_unsafe(c: char) -> bool {
    c == '/' || c == '\\' || c == ':'
}

/// The file of a wire scenario's evidence: the scenario id, with path
/// separators and colons replaced by `_`, as a `.jsonl` file in the plan's
/// evidence directory.
pub fn wire_evidence_path(evidence_dir: &str, scenario_id: &str) -> (path: String)
    ensures
        path@ == evidence_dir@ + "/"@ + scenario_id@.map_values(|c: char| if path_unsafe(c) { '_' } else { c })
            + ".jsonl"@,
{
    let mut path = String::new();
    push_text(&mut path, evidence_dir);
    push_text(&mut path, "/");
    let ghost start = path@;
    let chars = crate::text::chars_of(scenario_id);
    let mut i: usize = 0;
    while i < chars.len()
        invariant
            i <= chars@.len(),
            chars@ == scenario_id@,
            path@ == start + scenario_id@.take(i as int).map_values(|c: char| if path_unsafe(c) { '_' } else { c }),
        decreases chars@.len() - i,
    {
        let c = chars[i];
        if c == '/' || c == '\\' || c == ':' {
            path.push('_');
        } else {
            path.push(c);
        }
        assert(scenario_id@.take(i + 1).map_values(|c: char| if path_unsafe(c) { '_' } else { c }) =~= scenario_id@.take(
            i as int,
        ).map_values(|c: char| if path_unsafe(c) { '_' } else { c }).push(if path_unsafe(c) { '_' } else { c }));
        i = i + 1;
    }
    assert(scenario_id@.take(i as int) =~= scenario_id@);
    push_text(&mut path, ".jsonl");
    path
}

/// A character with ASCII letters taken in lower case.
pub open spec fn ascii_lower(c: char) -> char {
    if 'A' <= c && c <= 'Z' {
        ((c as u32) + 32) as char
    } else {
        c
    }
}

/// Two texts equal when ASCII letters are compared without case.
pub open spec fn equal_ignoring_ascii_case(a: Seq<char>, b: Seq<char>) -> bool {
    a.len() == b.len() && forall|i: int| 0 <= i < a.len() ==> ascii_lower(#[trigger] a[i]) == ascii_lower(b[i])
}

fn lower(c: char) -> (l: char)
    ensures
        l == ascii_lower(c),
{
    if 'A' <= c && c <= 'Z' {
        let v: u8 = (c as u8) + 32;
        v as char
    } else {
        c
    }
}

fn same_ignoring_ascii_case(a: &str, b: &str) -> (same: bool)
    ensures
        same == equal_ignoring_ascii_case(a@, b@),
{
    let x = crate::text::chars_of(a);
    let y = crate::text::chars_of(b);
    if x.len() != y.len() {
        return false;
    }
    let mut i: usize = 0;
    while i < x.len()
        invariant
            i <= x@.len(),
            x@ == a@,
            y@ == b@,
            x@.len() == y@.len(),
            forall|k: int| 0 <= k < i ==> ascii_lower(#[trigger] a@[k]) == ascii_lower(b@[k]),
        decreases x@.len() - i,
    {
        if lower(x[i]) != lower(y[i]) {
            return false;
        }
        i = i + 1;
    }
    true
}

/// A driver that is a `.cmd` or `.bat` script on Windows, whatever the case
/// of its extension.
pub open spec fn script_driver(extension: Option<&str>, windows: bool) -> bool {
    windows && match extension {
        Some(e) => equal_ignoring_ascii_case(e@, "cmd"@) || equal_ignoring_ascii_case(e@, "bat"@),
        None => false,
    }
}

/// Whether a host-route driver is started through the command processor:
/// on Windows, for a `.cmd` or `.bat` script, whatever the case of its
/// extension.
pub fn runs_through_command_processor(extension: Option<&str>, windows: bool) -> (through: bool)
    ensures
        through == script_driver(extension, windows),
{
    if !windows {
        return false;
    }
    match extension {
        Some(e) => same_ignoring_ascii_case(e, "cmd") || same_ignoring_ascii_case(e, "bat"),
        None => false,
    }
}

/// The program that starts a host-route driver and the arguments that come
/// before the driver's own. A script driver on Windows runs through the
/// command processor (`cmd.exe` unless another is named) with `/d /s /c`
/// and the script; any other driver is started directly, with no argument.
pub fn driver_invocation(
    executable: &str,
    extension: Option<&str>,
    windows: bool,
    command_processor: Option<String>,
) -> (invocation: (String, Vec<String>))
    ensures
        script_driver(extension, windows) ==> {
            &&& invocation.0@ == match command_processor {
                Some(p) => p@,
                None => "cmd.exe"@,
            }
            &&& texts(invocation.1@) == seq!["/d"@, "/s"@, "/c"@, executable@]
        },
        !script_driver(extension, windows) ==> invocation.0@ == executable@ && invocation.1@.len() == 0,
{
    if !runs_through_command_processor(extension, windows) {
        return (executable.to_owned(), Vec::new());
    }
    let program = match command_processor {
        Some(p) => p,
        None => "cmd.exe".to_owned(),
    };
    let mut arguments: Vec<String> = Vec::new();
    arguments.push("/d".to_owned());
    arguments.push("/s".to_owned());
    arguments.push("/c".to_owned());
    arguments.push(executable.to_owned());
    proof {
        assert(texts(arguments@) =~= seq!["/d"@, "/s"@, "/c"@, executable@]);
    }
    (program, arguments)
}

/// An ASCII letter or digit, `-` or `_`.
pub open spec fn id_char_kept(c: char) -> bool {
    let v = c as u32;
    (0x30 <= v <= 0x39) || (0x41 <= v <= 0x5a) || (0x61 <= v <= 0x7a) || v == 0x2d || v == 0x5f
}

/// An id with every other character replaced by `-`.
pub open spec fn sanitized(id: Seq<char>) -> Seq<char> {
    id.map_values(|c: char| if id_char_kept(c) { c } else { '-' })
}

/// An id made safe for a file name: ASCII letters, digits, `-` and `_` stay,
/// everything else becomes `-`.
pub fn sanitize_id(id: &str) -> (safe: String)
    ensures
        safe@ == sanitized(id@),
{
    let mut safe = String::new();
    for c in it: id.chars()
        invariant
            it.seq() == id@,
            safe@ == sanitized(id@.take(it.index() as int)),
    {
        let v = c as u32;
        let kept = (0x30 <= v && v <= 0x39) || (0x41 <= v && v <= 0x5a) || (0x61 <= v && v <= 0x7a) || v == 0x2d
            || v == 0x5f;
        if kept {
            safe.push(c);
        } else {
            safe.push('-');
        }
        assert(sanitized(id@.take(it.index() + 1)) =~= sanitized(id@.take(it.index() as int)).push(
            if id_char_kept(c) { c } else { '-' },
        ));
    }
    assert(id@.take(id@.len() as int) =~= id@);
    safe
}

/// The largest step timeout that is set, if any.
pub open spec fn largest_timeout(timeouts: Seq<Option<u64>>) -> Option<u64>
    decreases timeouts.len(),
{
    if timeouts.len() == 0 {
        None
    } else {
        let earlier = largest_timeout(timeouts.drop_last());
        match (earlier, timeouts.last()) {
            (Some(a), Some(b)) => Some(if a >= b { a } else { b }),
            (Some(a), None) => Some(a),
            (None, b) => b,
        }
    }
}

/// The timeout a scenario declares: the largest of its steps' timeouts.
pub fn declared_timeout_ms(step_timeouts: &Vec<Option<u64>>) -> (declared: Option<u64>)
    ensures
        declared == largest_timeout(step_timeouts@),
{
    let mut declared: Option<u64> = None;
    let mut i: usize = 0;
    while i < step_timeouts.len()
        invariant
            i <= step_timeouts@.len(),
            declared == largest_timeout(step_timeouts@.take(i as int)),
        decreases step_timeouts@.len() - i,
    {
        let next = step_timeouts[i];
        declared = match (declared, next) {
            (Some(a), Some(b)) => Some(if a >= b { a } else { b }),
            (Some(a), None) => Some(a),
            (None, b) => b,
        };
        assert(step_timeouts@.take(i + 1).drop_last() =~= step_timeouts@.take(i as int));
        i = i + 1;
    }
    assert(step_timeouts@.take(i as int) =~= step_timeouts@);
    declared
}

/// How long a host-route scenario may run: its declared timeout (none
/// counts as zero) plus the driver's start-up grace, saturating.
pub fn wire_timeout_ms(step_timeouts: &Vec<Option<u64>>) -> (timeout: u64)
    ensures
        timeout == ({
            let declared = match largest_timeout(step_timeouts@) {
                Some(t) => t as int,
                None => 0,
            };
            if declared + HOST_ROUTE_DRIVER_STARTUP_GRACE_MS > u64::MAX {
                u64::MAX as int
            } else {
                declared + HOST_ROUTE_DRIVER_STARTUP_GRACE_MS
            }
        }),
{
    let declared = match declared_timeout_ms(step_timeouts) {
        Some(t) => t,
        None => 0,
    };
    declared.saturating_add(HOST_ROUTE_DRIVER_STARTUP_GRACE_MS)
}

/// How long an external wire scenario may run: its declared timeout (none
/// counts as zero) plus five seconds, saturating.
pub fn wire_scenario_timeout_ms(step_timeouts: &Vec<Option<u64>>) -> (timeout: u64)
    ensures
        timeout == ({
            let declared = match largest_timeout(step_timeouts@) {
                Some(t) => t as int,
                None => 0,
            };
            if declared + 5_000 > u64::MAX {
                u64::MAX as int
            } else {
                declared + 5_000
            }
        }),
{
    let declared = match declared_timeout_ms(step_timeouts) {
        Some(t) => t,
        None => 0,
    };
    declared.saturating_add(5_000)
}

/// How long a closure probe waits: the declared timeout (one second when
/// none is set), kept between one and five seconds.
pub fn closure_probe_timeout_ms(step_timeouts: &Vec<Option<u64>>) -> (timeout: u64)
    ensures
        timeout == ({
            let declared = match largest_timeout(step_timeouts@) {
                Some(t) => t,
                None => 1_000u64,
            };
            if declared < 1_000 {
                1_000u64
            } else if declared > 5_000 {
                5_000u64
            } else {
                declared
            }
        }),
{
    let declared = match declared_timeout_ms(step_timeouts) {
        Some(t) => t,
        None => 1_000,
    };
    if declared < 1_000 {
        1_000
    } else if declared > 5_000 {
        5_000
    } else {
        declared
    }
}

/// The transports of a list of routes.
pub open spec fn route_transports(routes: Seq<WireHostProviderRoute>) -> Seq<WireConformanceTransport> {
    routes.map_values(|r: WireHostProviderRoute| r.transport)
}

/// The provider ids of a list of routes.
pub open spec fn route_provider_ids(routes: Seq<WireHostProviderRoute>) -> Seq<Seq<char>> {
    routes.map_values(|r: WireHostProviderRoute| r.provider_id@)
}

/// The first route, in order, that repeats an earlier route's transport or
/// provider id: the message that names what it repeats.
pub open spec fn provider_route_problem(routes: Seq<WireHostProviderRoute>) -> Option<Seq<char>>
    decreases routes.len(),
{
    if routes.len() == 0 {
        None
    } else {
        let earlier = provider_route_problem(routes.drop_last());
        let route = routes.last();
        if earlier is Some {
            earlier
        } else if route_transports(routes.drop_last()).contains(route.transport) {
            Some("host-route scenario declares more than one route for "@ + transport_name(route.transport))
        } else if route_provider_ids(routes.drop_last()).contains(route.provider_id@) {
            Some("host-route scenario repeats provider id "@ + route.provider_id@)
        } else {
            None
        }
    }
}

proof fn lemma_route_problem_prefix(routes: Seq<WireHostProviderRoute>, n: int)
    requires
        0 <= n <= routes.len(),
        provider_route_problem(routes.take(n)) is Some,
    ensures
        provider_route_problem(routes) == provider_route_problem(routes.take(n)),
    decreases routes.len() - n,
{
    if n < routes.len() {
        assert(routes.take(n + 1).drop_last() =~= routes.take(n));
        lemma_route_problem_prefix(routes, n + 1);
    } else {
        assert(routes.take(n) =~= routes);
    }
}

/// Checks that no two routes of a host-route scenario share a transport or a
/// provider id.
pub fn validate_provider_routes(routes: &Vec<WireHostProviderRoute>) -> (result: Result<(), ResultsError>)
    ensures
        match result {
            Ok(()) => provider_route_problem(routes@) is None,
            Err(e) => provider_route_problem(routes@) == Some(e.message@),
        },
{
    let mut transports: Vec<WireConformanceTransport> = Vec::new();
    let mut provider_ids: Vec<String> = Vec::new();
    let mut i: usize = 0;
    while i < routes.len()
        invariant
            i <= routes@.len(),
            transports@ == route_transports(routes@.take(i as int)),
            texts(provider_ids@) == route_provider_ids(routes@.take(i as int)),
            provider_route_problem(routes@.take(i as int)) is None,
        decreases routes@.len() - i,
    {
        let route = &routes[i];
        let ghost prior = routes@.take(i as int);
        let ghost next = routes@.take(i + 1);
        proof {
            assert(next.drop_last() =~= prior);
            assert(next.last() == *route);
        }
        if contains_transport(&transports, route.transport) {
            let mut message = String::new();
            push_text(&mut message, "host-route scenario declares more than one route for ");
            push_transport_name(&mut message, route.transport);
            proof {
                lemma_route_problem_prefix(routes@, i + 1);
            }
            return Err(ResultsError { message });
        }
        if contains_text(&provider_ids, &route.provider_id) {
            let mut message = String::new();
            push_text(&mut message, "host-route scenario repeats provider id ");
            push_text(&mut message, route.provider_id.as_str());
            proof {
                lemma_route_problem_prefix(routes@, i + 1);
            }
            return Err(ResultsError { message });
        }
        let ghost before = provider_ids@;
        transports.push(route.transport);
        provider_ids.push(route.provider_id.clone());
        proof {
            assert(texts(provider_ids@) =~= texts(before).push(route.provider_id@));
            assert(route_provider_ids(next) =~= route_provider_ids(prior).push(route.provider_id@));
            assert(transports@ =~= route_transports(next));
            assert(texts(provider_ids@) =~= route_provider_ids(next));
        }
        i = i + 1;
    }
    assert(routes@.take(i as int) =~= routes@);
    Ok(())
}

/// The transport of the first route that opens before a rollback: the first
/// one without an injected bind failure.
pub open spec fn first_opening_transport(routes: Seq<WireHostProviderRoute>) -> Option<WireConformanceTransport>
    decreases routes.len(),
{
    if routes.len() == 0 {
        None
    } else if !routes[0].injected_failures@.contains(WireHostRouteInjectedFailure::BindFailure) {
        Some(routes[0].transport)
    } else {
        first_opening_transport(routes.drop_first())
    }
}

pub(crate) fn has_bind_failure(failures: &Vec<WireHostRouteInjectedFailure>) -> (found: bool)
    ensures
        found == failures@.contains(WireHostRouteInjectedFailure::BindFailure),
{
    let mut i: usize = 0;
    while i < failures.len()
        invariant
            i <= failures@.len(),
            forall|k: int| 0 <= k < i ==> failures@[k] != WireHostRouteInjectedFailure::BindFailure,
        decreases failures@.len() - i,
    {
        if failures[i] == WireHostRouteInjectedFailure::BindFailure {
            return true;
        }
        i = i + 1;
    }
    false
}

/// The transport a bind-failure rollback probe prefers: that of the first
/// route that opens before the failure; an error when every route fails to
/// bind.
pub fn rollback_probe_transport(routes: &Vec<WireHostProviderRoute>) -> (result: Result<WireConformanceTransport, ResultsError>)
    ensures
        match first_opening_transport(routes@) {
            Some(t) => result == Ok::<WireConformanceTransport, ResultsError>(t),
            None => result matches Err(e) && e.message@
                == "bind-failure scenario requires a provider that opens before rollback"@,
        },
{
    let mut i: usize = 0;
    assert(routes@.skip(0) =~= routes@);
    while i < routes.len()
        invariant
            i <= routes@.len(),
            first_opening_transport(routes@) == first_opening_transport(routes@.skip(i as int)),
        decreases routes@.len() - i,
    {
        assert(routes@.skip(i as int)[0] == routes@[i as int]);
        assert(routes@.skip(i as int).drop_first() =~= routes@.skip(i + 1));
        if !has_bind_failure(&routes[i].injected_failures) {
            return Ok(routes[i].transport);
        }
        i = i + 1;
    }
    assert(routes@.skip(i as int).len() == 0);
    Err(ResultsError { message: "bind-failure scenario requires a provider that opens before rollback".to_owned() })
}

/// The `k`-th host-route provider the native reference target installs.
pub open spec fn native_provider(p: WireHostRouteProviderCapability, k: int) -> bool {
    &&& p.installed
    &&& p.platforms@ == seq![WireHostPlatform::Native]
    &&& if k == 0 {
        &&& p.transport == WireConformanceTransport::Tcp
        &&& p.provider_id@ == "nnrp.transport.tcp.native"@
        &&& p.security_modes@ == seq![
            WireHostRouteSecurityMode::Plain,
            WireHostRouteSecurityMode::TlsServerAuth,
            WireHostRouteSecurityMode::MutualTls,
        ]
    } else if k == 1 {
        &&& p.transport == WireConformanceTransport::Quic
        &&& p.provider_id@ == "nnrp.transport.quic.native"@
        &&& p.security_modes@ == seq![WireHostRouteSecurityMode::TlsServerAuth, WireHostRouteSecurityMode::MutualTls]
    } else if k == 2 {
        &&& p.transport == WireConformanceTransport::Ipc
        &&& p.provider_id@ == "nnrp.transport.ipc.native"@
        &&& p.security_modes@ == seq![WireHostRouteSecurityMode::Plain]
    } else {
        &&& p.transport == WireConformanceTransport::Websocket
        &&& p.provider_id@ == "nnrp.transport.websocket.native"@
        &&& p.security_modes@ == seq![WireHostRouteSecurityMode::Plain, WireHostRouteSecurityMode::Wss]
    }
}

/// The host-route providers of the native reference target: TCP, QUIC, IPC
/// and WebSocket, each installed for the native platform.
pub fn native_host_route_providers() -> (providers: Vec<WireHostRouteProviderCapability>)
    ensures
        providers@.len() == 4,
        forall|k: int| 0 <= k < 4 ==> native_provider(#[trigger] providers@[k], k),
{
    let mut providers: Vec<WireHostRouteProviderCapability> = Vec::new();
    providers.push(WireHostRouteProviderCapability {
        transport: WireConformanceTransport::Tcp,
        provider_id: "nnrp.transport.tcp.native".to_owned(),
        installed: true,
        platforms: vec![WireHostPlatform::Native],
        security_modes: vec![
            WireHostRouteSecurityMode::Plain,
            WireHostRouteSecurityMode::TlsServerAuth,
            WireHostRouteSecurityMode::MutualTls,
        ],
    });
    providers.push(WireHostRouteProviderCapability {
        transport: WireConformanceTransport::Quic,
        provider_id: "nnrp.transport.quic.native".to_owned(),
        installed: true,
        platforms: vec![WireHostPlatform::Native],
        security_modes: vec![WireHostRouteSecurityMode::TlsServerAuth, WireHostRouteSecurityMode::MutualTls],
    });
    providers.push(WireHostRouteProviderCapability {
        transport: WireConformanceTransport::Ipc,
        provider_id: "nnrp.transport.ipc.native".to_owned(),
        installed: true,
        platforms: vec![WireHostPlatform::Native],
        security_modes: vec![WireHostRouteSecurityMode::Plain],
    });
    providers.push(WireHostRouteProviderCapability {
        transport: WireConformanceTransport::Websocket,
        provider_id: "nnrp.transport.websocket.native".to_owned(),
        installed: true,
        platforms: vec![WireHostPlatform::Native],
        security_modes: vec![WireHostRouteSecurityMode::Plain, WireHostRouteSecurityMode::Wss],
    });
    assert(providers@[0].security_modes@ =~= seq![
        WireHostRouteSecurityMode::Plain,
        WireHostRouteSecurityMode::TlsServerAuth,
        WireHostRouteSecurityMode::MutualTls,
    ]);
    assert(providers@[1].security_modes@ =~= seq![
        WireHostRouteSecurityMode::TlsServerAuth,
        WireHostRouteSecurityMode::MutualTls,
    ]);
    assert(providers@[2].security_modes@ =~= seq![WireHostRouteSecurityMode::Plain]);
    assert(providers@[3].security_modes@ =~= seq![WireHostRouteSecurityMode::Plain, WireHostRouteSecurityMode::Wss]);
    assert forall|k: int| 0 <= k < 4 implies (#[trigger] providers@[k]).platforms@ =~= seq![WireHostPlatform::Native] by {}
    providers
}

} // verus!
