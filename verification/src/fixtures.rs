use vstd::prelude::*;

use crate::json_model::JsonValue;
use crate::text::{has_prefix, push_text};

verus! {

/// The failure of reading a manifest file.
#[verifier::external_type_specification]
#[verifier::external_body]
pub struct ExIoError(std::io::Error);

/// The failure of decoding JSON text.
#[verifier::external_type_specification]
#[verifier::external_body]
pub struct ExJsonError(serde_json::Error);

/// Why a fixture could not be used.
#[allow(inconsistent_fields)]
#[derive(Debug)]
pub enum FixtureError {
    Read { path: String, source: std::io::Error },
    Parse { path: String, source: serde_json::Error },
    VersionMismatch { expected: String, actual: String, path: String },
    Validation { message: String },
}

/// The version baseline that groups case, vector and report manifests.
#[derive(Debug, Clone, PartialEq, Eq)]
pub struct ProtocolManifest {
    pub schema: Option<String>,
    pub protocol_version: String,
    pub suite_version: String,
    pub status: String,
    pub case_manifests: Vec<String>,
    pub vector_recipe_manifests: Vec<String>,
    pub vector_manifests: Vec<String>,
    pub report_schema: String,
}

/// A named list of conformance cases for one protocol version.
#[derive(Debug, Clone)]
pub struct CaseManifest {
    pub schema: Option<String>,
    pub protocol_version: String,
    pub manifest_name: String,
    pub cases: Vec<CaseDefinition>,
}

/// The capability tokens an implementation claims.
#[derive(Debug, Clone, PartialEq, Eq)]
pub struct CapabilityManifest {
    pub schema: Option<String>,
    pub implementation_name: String,
    pub protocol_version: String,
    pub supports: Vec<String>,
}

/// One conformance case, with the named values an adapter runs it with.
#[derive(Debug, Clone)]
pub struct CaseDefinition {
    pub id: String,
    pub layer: CaseLayer,
    pub status: CaseStatus,
    pub feature: String,
    pub required_capabilities: Vec<String>,
    pub description: String,
    pub parameters: Vec<(String, JsonValue)>,
}

#[derive(Debug, Clone, Copy, PartialEq, Eq, Structural)]
pub enum CaseLayer {
    L0,
    L1,
    L2,
    L3,
    L4,
}

#[derive(Debug, Clone, Copy, PartialEq, Eq, Structural)]
pub enum CaseStatus {
    Mandatory,
    Optional,
    Experimental,
    Deprecated,
}

/// Where the adapter writes its results and evidence.
#[derive(Debug, Clone, PartialEq, Eq)]
pub struct AdapterArtifactContext {
    pub results_path: String,
    pub evidence_dir: String,
}

/// The cases an adapter has to run.
#[derive(Debug, Clone)]
pub struct AdapterExecutionPlan {
    pub schema: Option<String>,
    pub protocol_version: String,
    pub suite_version: String,
    pub implementation_name: String,
    pub artifacts: AdapterArtifactContext,
    pub cases: Vec<AdapterExecutionCase>,
}

/// One case of an adapter plan, with the values it runs with.
#[derive(Debug, Clone)]
pub struct AdapterExecutionCase {
    pub id: String,
    pub layer: CaseLayer,
    pub status: CaseStatus,
    pub feature: String,
    pub required_capabilities: Vec<String>,
    pub description: String,
    pub parameters: Vec<(String, JsonValue)>,
}

/// What an adapter reports back for a plan.
#[derive(Debug, Clone, PartialEq, Eq)]
pub struct AdapterCaseResultReport {
    pub schema: Option<String>,
    pub protocol_version: String,
    pub implementation_name: String,
    pub results: Vec<AdapterCaseResult>,
}

#[derive(Debug, Clone, PartialEq, Eq)]
pub struct AdapterCaseResult {
    pub id: String,
    pub outcome: AdapterCaseOutcome,
    pub failure_kind: Option<String>,
    pub message: Option<String>,
    pub evidence_paths: Vec<String>,
}

#[derive(Debug, Clone, Copy, PartialEq, Eq, Structural)]
pub enum AdapterCaseOutcome {
    Pass,
    Fail,
    Skip,
    Error,
}

/// The benchmark scenarios an implementation has to measure.
#[derive(Debug, Clone, PartialEq, Eq)]
pub struct BenchmarkExecutionPlan {
    pub schema: Option<String>,
    pub protocol_version: String,
    pub suite_version: String,
    pub implementation_name: String,
    pub artifacts: BenchmarkArtifactContext,
    pub scenarios: Vec<BenchmarkScenario>,
}

#[derive(Debug, Clone, PartialEq, Eq)]
pub struct BenchmarkArtifactContext {
    pub results_path: String,
    pub evidence_dir: String,
}

#[derive(Debug, Clone, PartialEq, Eq)]
pub struct BenchmarkScenario {
    pub id: String,
    pub category: BenchmarkCategory,
    pub feature: String,
    pub required_capabilities: Vec<String>,
    pub description: String,
    pub workload: BenchmarkWorkload,
}

#[derive(Debug, Clone, Copy, PartialEq, Eq, Structural)]
pub enum BenchmarkCategory {
    Latency,
    Throughput,
}

#[derive(Debug, Clone, PartialEq, Eq)]
pub struct BenchmarkWorkload {
    pub operation: String,
    pub payload: String,
    pub transport: Option<String>,
    pub iterations: Option<u64>,
    pub warmup_iterations: Option<u64>,
    pub duration_seconds: Option<u64>,
}

/// The machine a benchmark report was measured on.
#[derive(Debug, Clone, PartialEq, Eq)]
pub struct BenchmarkEnvironment {
    pub sdk_commit: Option<String>,
    pub nnrp_rs_artifact: Option<String>,
    pub host_runtime: Option<String>,
    pub os: String,
    pub arch: String,
    pub cpu: Option<String>,
    pub notes: Option<String>,
}

#[derive(Debug, Clone, Copy, PartialEq, Eq, Structural)]
pub enum BenchmarkOutcome {
    Measured,
    Skip,
    Error,
}

/// The API surface an adapter claims for an API profile.
#[derive(Debug, Clone, PartialEq, Eq)]
pub struct ApiProfileCapabilityManifest {
    pub schema: Option<String>,
    pub adapter: String,
    pub profile: String,
    pub schema_version: String,
    pub compatibility_levels: Vec<u32>,
    pub operations: Vec<ApiProfileOperationCapability>,
    pub extensions: Vec<ApiProfileExtensionCapability>,
}

#[derive(Debug, Clone, PartialEq, Eq)]
pub struct ApiProfileSuiteManifest {
    pub schema: Option<String>,
    pub profile: String,
    pub schema_version: String,
    pub level: u32,
    pub protocol_baselines: Vec<String>,
    pub recipe_manifests: Vec<String>,
}

#[derive(Debug, Clone, PartialEq, Eq)]
pub struct ApiProfileOperationCapability {
    pub name: String,
    pub streaming: bool,
    pub non_streaming: bool,
    pub tool_calls: bool,
    pub cancellation: bool,
}

#[derive(Debug, Clone, PartialEq, Eq)]
pub struct ApiProfileExtensionCapability {
    pub name: String,
    pub critical: bool,
    pub description: Option<String>,
}

/// One recipe of an API profile: the operation it exercises, the
/// capabilities it needs (derived from its request where none are listed),
/// the parameters its request names, the request, and what it expects.
#[derive(Debug)]
pub struct ApiProfileRecipe {
    pub schema: Option<String>,
    pub id: String,
    pub profile: String,
    pub schema_version: String,
    pub operation: String,
    pub required_capabilities: Vec<String>,
    pub status: CaseStatus,
    pub parameters: Vec<(String, String)>,
    pub request: ApiProfileRecipeRequest,
    pub expect: ApiProfileExpectation,
}

/// The request of a recipe: the API body and the NNRP options.
#[derive(Debug)]
pub struct ApiProfileRecipeRequest {
    pub body: JsonValue,
    pub nnrp: Option<JsonValue>,
}

/// The events a case expects, in order, and the terminal it ends with.
#[derive(Debug)]
pub struct ApiProfileExpectation {
    pub events: Vec<ApiProfileExpectedEvent>,
    pub terminal: ApiProfileTerminal,
}

/// One expected event: its type, whether it may be missing, how often it
/// must occur at least, and the fields it must carry.
#[derive(Debug)]
pub struct ApiProfileExpectedEvent {
    pub event_type: String,
    pub optional: bool,
    pub min_count: Option<u64>,
    pub fields: Option<JsonValue>,
}

/// The API profile cases an adapter has to run, with the coverage of each
/// operation.
#[derive(Debug)]
pub struct ApiProfileExecutionPlan {
    pub schema: Option<String>,
    pub profile: String,
    pub schema_version: String,
    pub adapter: String,
    pub artifacts: AdapterArtifactContext,
    pub coverage_matrix: Vec<CompatibilityMatrixEntry>,
    pub cases: Vec<ApiProfileExecutionCase>,
}

/// One selected recipe, with its capabilities and its substituted request.
#[derive(Debug)]
pub struct ApiProfileExecutionCase {
    pub id: String,
    pub operation: String,
    pub status: CaseStatus,
    pub required_capabilities: Vec<String>,
    pub request: ApiProfileRecipeRequest,
    pub expect: ApiProfileExpectation,
}

/// What an adapter reports of an API profile run.
#[derive(Debug)]
pub struct ApiProfileCaseResultReport {
    pub schema: Option<String>,
    pub profile: String,
    pub schema_version: String,
    pub adapter: String,
    pub results: Vec<ApiProfileCaseResult>,
}

/// The result of one API profile case.
#[derive(Debug)]
pub struct ApiProfileCaseResult {
    pub id: String,
    pub outcome: ApiProfileCaseOutcome,
    pub terminal: ApiProfileTerminal,
    pub events: Vec<ApiProfileObservedEvent>,
    pub diagnostics: Option<JsonValue>,
    pub message: Option<String>,
}

/// One event an adapter observed: its type and its other fields.
#[derive(Debug)]
pub struct ApiProfileObservedEvent {
    pub event_type: String,
    pub fields: Vec<(String, JsonValue)>,
}

#[derive(Debug, Clone, Copy, PartialEq, Eq, Structural)]
pub enum ApiProfileTerminal {
    Success,
    Error,
    Cancelled,
}

#[derive(Debug, Clone, Copy, PartialEq, Eq, Structural)]
pub enum ApiProfileCaseOutcome {
    Passed,
    Failed,
    Skipped,
}

/// The wire scenarios and transports a suite version offers.
#[derive(Debug, Clone, PartialEq, Eq)]
pub struct WireConformanceSuiteManifest {
    pub schema: Option<String>,
    pub protocol_version: String,
    pub suite_version: String,
    pub status: String,
    pub modes: Vec<WireConformanceMode>,
    pub transports: Vec<WireConformanceTransport>,
    pub scenario_manifests: Vec<String>,
    pub target_schema: String,
    pub execution_plan_schema: String,
    pub case_results_schema: String,
}

/// What a wire target under test declares about itself.
/// What a host-route target reports once its listeners are bound: the run
/// it belongs to and each bound listener.
#[derive(Debug, Clone, PartialEq, Eq)]
pub struct WireHostRouteReadyReport {
    pub schema: Option<String>,
    pub protocol_version: String,
    pub scenario_id: String,
    pub listeners: Vec<WireHostReadyListener>,
}

/// One bound listener of a host-route target.
#[derive(Debug, Clone, PartialEq, Eq)]
pub struct WireHostReadyListener {
    pub transport: WireConformanceTransport,
    pub provider_id: String,
    pub bound_endpoint: String,
}

/// A named list of wire scenarios for one protocol version.
#[derive(Debug, Clone, PartialEq, Eq)]
pub struct WireConformanceScenarioManifest {
    pub schema: Option<String>,
    pub protocol_version: String,
    pub manifest_name: String,
    pub scenarios: Vec<WireConformanceScenario>,
}

#[derive(Debug, Clone, PartialEq, Eq)]
pub struct WireConformanceTargetManifest {
    pub schema: Option<String>,
    pub target_name: String,
    pub protocol_version: String,
    pub suite_version: String,
    pub wire_conformance: WireConformanceTarget,
}

#[derive(Debug, Clone, PartialEq, Eq)]
pub struct WireConformanceTarget {
    pub modes: Vec<WireConformanceMode>,
    pub transports: Vec<WireConformanceTransportEndpoint>,
    pub host_route_providers: Vec<WireHostRouteProviderCapability>,
    pub capabilities: Vec<String>,
    pub limits: WireConformanceLimits,
}

/// One endpoint of a wire target, with the TLS material it needs.
#[derive(Debug, Clone, PartialEq, Eq)]
pub struct WireConformanceTransportEndpoint {
    pub name: WireConformanceTransport,
    pub endpoint: String,
    pub tls: bool,
    pub security: Option<WireConformanceTransportSecurity>,
}

#[derive(Debug, Clone, PartialEq, Eq)]
pub struct WireConformanceTransportSecurity {
    pub server_name: String,
    pub trusted_certificate_der_path: String,
    pub certificate_der_path: String,
    pub private_key_pkcs8_der_path: String,
}

#[derive(Debug, Clone, Copy, PartialEq, Eq, Structural)]
pub enum WireConformanceMode {
    SuiteAsClient,
    SuiteAsServer,
    SuiteAsProxy,
}

#[derive(Debug, Clone, Copy, PartialEq, Eq, Structural)]
pub enum WireConformanceTransport {
    Tcp,
    Quic,
    Websocket,
    Ipc,
}

#[derive(Debug, Clone, PartialEq, Eq)]
pub struct WireConformanceLimits {
    pub max_frame_bytes: u64,
    pub max_in_flight: u64,
}

/// What a wire scenario expects: its terminal, the frames it must observe
/// in order, the frames it may observe at all, payload invariants, the drop
/// reason code and, for a host-route scenario, the route outcome.
#[derive(Debug, Clone, PartialEq, Eq)]
pub struct WireConformanceExpectation {
    pub terminal: WireConformanceTerminal,
    pub frames: Vec<String>,
    pub allowed_frames: Vec<String>,
    pub frame_payload_invariants: Vec<WireConformanceFramePayloadInvariant>,
    pub result_drop_reason_code: Option<u16>,
    pub route: Option<WireHostRouteExpectation>,
}

/// Payload fields every observed frame of a kind, in a direction where one
/// is given, must carry; each value is compact JSON text.
#[derive(Debug, Clone, PartialEq, Eq)]
pub struct WireConformanceFramePayloadInvariant {
    pub frame: String,
    pub direction: Option<WireConformanceFrameDirection>,
    pub fields: Vec<(String, String)>,
}

/// One step a wire scenario drives; a payload is compact JSON text.
#[derive(Debug, Clone, PartialEq, Eq)]
pub struct WireConformanceStep {
    pub action: String,
    pub frame: Option<String>,
    pub payload: Option<String>,
    pub timeout_ms: Option<u64>,
}

/// One wire scenario: frame-level over one transport, or host-route over a
/// fixture of provider routes.
#[derive(Debug, Clone, PartialEq, Eq)]
pub struct WireConformanceScenario {
    pub id: String,
    pub mode: WireConformanceMode,
    pub transport: Option<WireConformanceTransport>,
    pub host_route: Option<WireHostRouteFixture>,
    pub status: CaseStatus,
    pub feature: String,
    pub required_capabilities: Vec<String>,
    pub description: String,
    pub steps: Vec<WireConformanceStep>,
    pub expect: WireConformanceExpectation,
}

/// The suite-owned routes of a host-route scenario.
#[derive(Debug, Clone, PartialEq, Eq)]
pub struct WireHostRouteFixture {
    pub role: WireHostRole,
    pub platform: WireHostPlatform,
    pub application_endpoint: String,
    pub routes: Vec<WireHostProviderRoute>,
}

/// Why a route candidate was not selected.
#[derive(Debug, Clone, Copy, PartialEq, Eq, Structural)]
pub enum WireHostRouteRejectionReason {
    PolicyDisallowed,
    LocalUnavailable,
    PeerUnsupported,
    LimitExceeded,
    RouteUnresolved,
    SecurityUnsatisfied,
    ProbeMissing,
    ProbeFailed,
}

/// The route outcome a host-route scenario expects.
#[derive(Debug, Clone, PartialEq, Eq)]
pub struct WireHostRouteExpectation {
    pub selected_count: Option<u32>,
    pub selected_transport: Option<WireConformanceTransport>,
    pub rejection_reasons: Vec<WireHostRouteRejectionReason>,
    pub bound_transports: Vec<WireConformanceTransport>,
    pub accepted_transports: Vec<WireConformanceTransport>,
    pub atomic_rollback: Option<bool>,
    pub logical_set_closed: Option<bool>,
    pub terminal_failure: Option<String>,
}

/// The scenarios a wire target has to run.
#[derive(Debug, Clone, PartialEq, Eq)]
pub struct WireConformanceExecutionPlan {
    pub schema: Option<String>,
    pub protocol_version: String,
    pub suite_version: String,
    pub target_name: String,
    pub host_route_providers: Vec<WireHostRouteProviderCapability>,
    pub artifacts: AdapterArtifactContext,
    pub scenarios: Vec<WireConformanceScenario>,
}

/// What a wire run reports back for a plan.
#[derive(Debug, Clone, PartialEq, Eq)]
pub struct WireConformanceCaseResultReport {
    pub schema: Option<String>,
    pub protocol_version: String,
    pub suite_version: String,
    pub target_name: String,
    pub results: Vec<WireConformanceCaseResult>,
}

/// The result of one wire scenario.
#[derive(Debug, Clone, PartialEq, Eq)]
pub struct WireConformanceCaseResult {
    pub id: String,
    pub outcome: ApiProfileCaseOutcome,
    pub terminal: WireConformanceTerminal,
    pub observed_frames: Vec<WireConformanceObservedFrame>,
    pub route_evidence: Option<WireHostRouteEvidence>,
    pub message: Option<String>,
    pub evidence_paths: Vec<String>,
}

/// One member of an object payload: its name, its value as compact JSON
/// text (as serde_json writes it), and the value as a report prints it.
#[derive(Debug, Clone, PartialEq, Eq)]
pub struct WirePayloadMember {
    pub name: String,
    pub json: String,
    pub debug: String,
}

/// One frame a wire run observed; `payload` holds the members of its
/// payload when that payload is a JSON object.
#[derive(Debug, Clone, PartialEq, Eq)]
pub struct WireConformanceObservedFrame {
    pub direction: WireConformanceFrameDirection,
    pub frame: String,
    pub payload: Option<Vec<WirePayloadMember>>,
    pub timestamp_us: Option<u64>,
}

/// The route evidence a host-route run reports.
#[derive(Debug, Clone, PartialEq, Eq)]
pub struct WireHostRouteEvidence {
    pub application_endpoint: String,
    pub candidates: Vec<WireHostRouteCandidateEvidence>,
    pub listeners: Vec<WireHostListenerEvidence>,
    pub accepted_sessions: Vec<WireHostAcceptedSessionEvidence>,
    pub atomic_rollback: bool,
    pub logical_set_closed: bool,
    pub terminal_failure: Option<String>,
}

/// One route candidate the target considered.
#[derive(Debug, Clone, PartialEq, Eq)]
pub struct WireHostRouteCandidateEvidence {
    pub transport: WireConformanceTransport,
    pub provider_id: String,
    pub requested_locator: String,
    pub locator_resolved: bool,
    pub security_satisfied: bool,
    pub selected: bool,
    pub rejection_reason: Option<WireHostRouteRejectionReason>,
}

/// The state a host-route listener ended in.
#[derive(Debug, Clone, Copy, PartialEq, Eq, Structural)]
pub enum WireHostListenerState {
    Opened,
    Accepted,
    Closed,
    Failed,
    RolledBack,
}

/// One listener a server-role target opened.
#[derive(Debug, Clone, PartialEq, Eq)]
pub struct WireHostListenerEvidence {
    pub transport: WireConformanceTransport,
    pub provider_id: String,
    pub requested_locator: String,
    pub bound_endpoint: Option<String>,
    pub state: WireHostListenerState,
}

/// One session a listener accepted.
#[derive(Debug, Clone, PartialEq, Eq)]
pub struct WireHostAcceptedSessionEvidence {
    pub transport: WireConformanceTransport,
    pub provider_id: String,
    pub active_transport: WireConformanceTransport,
}

#[derive(Debug, Clone, Copy, PartialEq, Eq, Structural)]
pub enum WireConformanceTerminal {
    Success,
    Cancelled,
    Dropped,
    Error,
}

#[derive(Debug, Clone, Copy, PartialEq, Eq, Structural)]
pub enum WireConformanceFrameDirection {
    Sent,
    Received,
}

/// A host platform a host-route provider runs on.
#[derive(Debug, Clone, Copy, PartialEq, Eq, Structural)]
pub enum WireHostPlatform {
    Native,
    Browser,
}

/// Which end of a host route the target plays.
#[derive(Debug, Clone, Copy, PartialEq, Eq, Structural)]
pub enum WireHostRole {
    Client,
    Server,
}

/// How a host route is secured.
#[derive(Debug, Clone, Copy, PartialEq, Eq, Structural)]
pub enum WireHostRouteSecurityMode {
    Plain,
    TlsServerAuth,
    MutualTls,
    Wss,
    BrowserHost,
}

/// Who holds the credentials of a secured host route.
#[derive(Debug, Clone, Copy, PartialEq, Eq, Structural)]
pub enum WireHostCredentialOwner {
    Absent,
    Suite,
    Target,
    Host,
}

/// A failure a host-route fixture injects into a provider.
#[derive(Debug, Clone, Copy, PartialEq, Eq, Structural)]
pub enum WireHostRouteInjectedFailure {
    BindFailure,
    RouteUnresolved,
    SecurityIncompatible,
    TerminalListenerFailure,
}

/// How one host route is secured, and by whose credentials.
#[derive(Debug, Clone, Copy, PartialEq, Eq, Structural)]
pub struct WireHostRouteSecurity {
    pub mode: WireHostRouteSecurityMode,
    pub credential_owner: WireHostCredentialOwner,
}

/// One provider route of a host-route fixture.
#[derive(Debug, Clone, PartialEq, Eq)]
pub struct WireHostProviderRoute {
    pub transport: WireConformanceTransport,
    pub provider_id: String,
    pub locator: String,
    pub security: WireHostRouteSecurity,
    pub injected_failures: Vec<WireHostRouteInjectedFailure>,
}

/// A transport provider a target can install for host routes.
#[derive(Debug, Clone, PartialEq, Eq)]
pub struct WireHostRouteProviderCapability {
    pub transport: WireConformanceTransport,
    pub provider_id: String,
    pub installed: bool,
    pub platforms: Vec<WireHostPlatform>,
    pub security_modes: Vec<WireHostRouteSecurityMode>,
}

/// The plan summary the runner publishes.
#[derive(Debug, Clone, PartialEq, Eq)]
pub struct ConformanceReport {
    pub protocol_version: String,
    pub implementation_name: String,
    pub summary: ReportSummary,
    pub compatibility_matrix: Vec<CompatibilityMatrixEntry>,
    pub cases: Vec<ReportCase>,
}

#[derive(Debug, Clone, Copy, PartialEq, Eq, Structural)]
pub struct ReportSummary {
    pub selected_cases: usize,
    pub not_claimed_cases: usize,
    pub informational_cases: usize,
}

#[derive(Debug, Clone, PartialEq, Eq)]
pub struct CompatibilityMatrixEntry {
    pub feature: String,
    pub required_capabilities: Vec<String>,
    pub summary: ReportSummary,
    pub statuses: ReportStatusSummary,
    pub case_ids: Vec<String>,
}

#[derive(Debug, Clone, Copy, PartialEq, Eq, Structural)]
pub struct ReportStatusSummary {
    pub mandatory_cases: usize,
    pub optional_cases: usize,
    pub experimental_cases: usize,
    pub deprecated_cases: usize,
}

#[derive(Debug, Clone, PartialEq, Eq)]
pub struct ReportCase {
    pub id: String,
    pub feature: Option<String>,
    pub status: Option<CaseStatus>,
    pub selection: String,
}

impl FixtureError {
    /// A version mismatch naming exactly these versions and path.
    pub open spec fn is_version_mismatch(&self, expected: Seq<char>, actual: Seq<char>, path: Seq<char>) -> bool {
        match self {
            FixtureError::VersionMismatch { expected: e, actual: a, path: p } =>
                e@ == expected && a@ == actual && p@ == path,
            _ => false,
        }
    }

    /// The text of the error, as the fixture crate words it; a read or
    /// parse failure ends with the text of its cause.
    pub fn to_string(&self) -> (text: String)
        ensures
            match self {
                FixtureError::Read { path, .. } => has_prefix(text@, "failed to read json fixture "@ + path@ + ": "@),
                FixtureError::Parse { path, .. } => has_prefix(text@, "failed to parse json fixture "@ + path@ + ": "@),
                FixtureError::VersionMismatch { expected, actual, path } => text@ == "protocol version mismatch: expected "@
                    + expected@ + ", got "@ + actual@ + " in "@ + path@,
                FixtureError::Validation { message } => text@ == "fixture validation failed: "@ + message@,
            },
    {
        let mut text = String::new();
        match self {
            FixtureError::Read { path, source } => {
                push_text(&mut text, "failed to read json fixture ");
                push_text(&mut text, path.as_str());
                push_text(&mut text, ": ");
                let ghost head = text@;
                let cause = source.to_string();
                push_text(&mut text, cause.as_str());
                assert(text@.take(head.len() as int) =~= head);
            },
            FixtureError::Parse { path, source } => {
                push_text(&mut text, "failed to parse json fixture ");
                push_text(&mut text, path.as_str());
                push_text(&mut text, ": ");
                let ghost head = text@;
                let cause = source.to_string();
                push_text(&mut text, cause.as_str());
                assert(text@.take(head.len() as int) =~= head);
            },
            FixtureError::VersionMismatch { expected, actual, path } => {
                push_text(&mut text, "protocol version mismatch: expected ");
                push_text(&mut text, expected.as_str());
                push_text(&mut text, ", got ");
                push_text(&mut text, actual.as_str());
                push_text(&mut text, " in ");
                push_text(&mut text, path.as_str());
            },
            FixtureError::Validation { message } => {
                push_text(&mut text, "fixture validation failed: ");
                push_text(&mut text, message.as_str());
            },
        }
        text
    }

    /// A validation failure with exactly this message.
    pub open spec fn is_validation(&self, message: Seq<char>) -> bool {
        match self {
            FixtureError::Validation { message: m } => m@ == message,
            _ => false,
        }
    }
}

/// The view of an optional path.
pub open spec fn opt_path(path: Option<&str>) -> Option<Seq<char>> {
    match path {
        Some(p) => Some(p@),
        None => None,
    }
}

/// The first version mismatch among the case manifest and, where it is
/// given, the capability manifest: the expected version, the version found,
/// and the path of the manifest that holds it (empty for a capability
/// manifest given without a path).
pub open spec fn alignment_mismatch(
    protocol_manifest: ProtocolManifest,
    case_manifest: CaseManifest,
    capability_manifest: Option<&CapabilityManifest>,
    case_manifest_path: Seq<char>,
    capability_manifest_path: Option<Seq<char>>,
) -> Option<(Seq<char>, Seq<char>, Seq<char>)> {
    if protocol_manifest.protocol_version@ != case_manifest.protocol_version@ {
        Some((protocol_manifest.protocol_version@, case_manifest.protocol_version@, case_manifest_path))
    } else {
        match capability_manifest {
            Some(capabilities) => if protocol_manifest.protocol_version@ != capabilities.protocol_version@ {
                Some((
                    protocol_manifest.protocol_version@,
                    capabilities.protocol_version@,
                    match capability_manifest_path {
                        Some(path) => path,
                        None => Seq::empty(),
                    },
                ))
            } else {
                None
            },
            None => None,
        }
    }
}

/// The result of an alignment check: success without a mismatch, else the
/// mismatch it names.
pub open spec fn alignment_result<T>(result: Result<T, FixtureError>, mismatch: Option<(Seq<char>, Seq<char>, Seq<char>)>) -> bool {
    match mismatch {
        None => result is Ok,
        Some((expected, actual, path)) => result matches Err(e) && e.is_version_mismatch(expected, actual, path),
    }
}

/// Checks that a case manifest, and a capability manifest where one is
/// given, declare the protocol version of the baseline.
pub fn validate_protocol_alignment(
    protocol_manifest: &ProtocolManifest,
    case_manifest: &CaseManifest,
    capability_manifest: Option<&CapabilityManifest>,
    case_manifest_path: &str,
    capability_manifest_path: Option<&str>,
) -> (result: Result<(), FixtureError>)
    ensures
        alignment_result(result, alignment_mismatch(*protocol_manifest, *case_manifest, capability_manifest,
            case_manifest_path@, opt_path(capability_manifest_path))),
{
    if protocol_manifest.protocol_version != case_manifest.protocol_version {
        return Err(FixtureError::VersionMismatch {
            expected: protocol_manifest.protocol_version.clone(),
            actual: case_manifest.protocol_version.clone(),
            path: case_manifest_path.to_owned(),
        });
    }
    if let Some(capabilities) = capability_manifest {
        if protocol_manifest.protocol_version != capabilities.protocol_version {
            let path = match capability_manifest_path {
                Some(capabilities_path) => capabilities_path.to_owned(),
                None => String::new(),
            };
            return Err(FixtureError::VersionMismatch {
                expected: protocol_manifest.protocol_version.clone(),
                actual: capabilities.protocol_version.clone(),
                path,
            });
        }
    }
    Ok(())
}

} // verus!
