use vstd::prelude::*;

use crate::fixtures::{BenchmarkArtifactContext, BenchmarkCategory, BenchmarkExecutionPlan, BenchmarkScenario, BenchmarkWorkload, CapabilityManifest, ProtocolManifest};
use crate::plan::claims_all;
use crate::sorted_text::texts;
use crate::results::ResultsError;
use crate::text::{opt_view, push_text};

verus! {

/// How many scenarios the benchmark catalog holds.
pub open spec fn benchmark_catalog_len() -> int {
    9
}

/// The capabilities the `k`-th catalog scenario requires.
pub open spec fn benchmark_requirements(k: int) -> Seq<Seq<char>> {
    if k == 0 {
        Seq::<Seq<char>>::empty()
    } else if k == 1 {
        seq!["session.open_close"@]
    } else if k == 2 {
        seq!["frame_submit.tensor.inline"@, "result_push.basic"@]
    } else if k == 3 {
        seq!["frame_submit.tensor.inline"@]
    } else if k == 4 {
        Seq::<Seq<char>>::empty()
    } else if k == 5 {
        seq!["session.open_close"@]
    } else if k == 6 {
        seq!["frame_submit.tensor.inline"@, "result_push.basic"@]
    } else if k == 7 {
        seq!["transport.tcp"@]
    } else if k == 8 {
        seq!["transport.quic"@]
    } else {
        Seq::empty()
    }
}

/// A scenario that is the `k`-th entry of the benchmark catalog.
pub open spec fn benchmark_entry(s: BenchmarkScenario, k: int) -> bool {
    &&& texts(s.required_capabilities@) == benchmark_requirements(k)
    &&& if k == 0 {
        &&& s.id@ == "l4.header.encode_decode.latency"@
        &&& s.category == BenchmarkCategory::Latency
        &&& s.feature@ == "benchmark.header"@
        &&& s.description@ == "Measure L0 header encode/decode latency for the minimum fixed header shape."@
        &&& s.workload.operation@ == "header_encode_decode"@
        &&& s.workload.payload@ == "l0_header"@
        &&& opt_view(s.workload.transport) == None::<Seq<char>>
        &&& s.workload.iterations == Some(100_000u64)
        &&& s.workload.warmup_iterations == Some(10_000u64)
        &&& s.workload.duration_seconds == None::<u64>
    } else if k == 1 {
        &&& s.id@ == "l4.metadata.session_open_ack.latency"@
        &&& s.category == BenchmarkCategory::Latency
        &&& s.feature@ == "benchmark.metadata"@
        &&& s.description@ == "Measure SESSION_OPEN plus SESSION_OPEN_ACK metadata encode/decode latency."@
        &&& s.workload.operation@ == "metadata_encode_decode"@
        &&& s.workload.payload@ == "session_open_ack"@
        &&& opt_view(s.workload.transport) == None::<Seq<char>>
        &&& s.workload.iterations == Some(100_000u64)
        &&& s.workload.warmup_iterations == Some(10_000u64)
        &&& s.workload.duration_seconds == None::<u64>
    } else if k == 2 {
        &&& s.id@ == "l4.metadata.submit_result.latency"@
        &&& s.category == BenchmarkCategory::Latency
        &&& s.feature@ == "benchmark.metadata.submit_result"@
        &&& s.description@ == "Measure FRAME_SUBMIT plus RESULT_PUSH metadata encode/decode latency."@
        &&& s.workload.operation@ == "submit_result_metadata_encode_decode"@
        &&& s.workload.payload@ == "frame_submit_result_push"@
        &&& opt_view(s.workload.transport) == None::<Seq<char>>
        &&& s.workload.iterations == Some(100_000u64)
        &&& s.workload.warmup_iterations == Some(10_000u64)
        &&& s.workload.duration_seconds == None::<u64>
    } else if k == 3 {
        &&& s.id@ == "l4.typed_payload.tensor_pack_unpack.latency"@
        &&& s.category == BenchmarkCategory::Latency
        &&& s.feature@ == "benchmark.typed_payload.tensor"@
        &&& s.description@ == "Measure tensor descriptor, tile index, and payload pack/unpack latency."@
        &&& s.workload.operation@ == "typed_payload_pack_unpack"@
        &&& s.workload.payload@ == "tensor_descriptor_plus_payload"@
        &&& opt_view(s.workload.transport) == None::<Seq<char>>
        &&& s.workload.iterations == Some(100_000u64)
        &&& s.workload.warmup_iterations == Some(10_000u64)
        &&& s.workload.duration_seconds == None::<u64>
    } else if k == 4 {
        &&& s.id@ == "l4.runtime.probe.latency"@
        &&& s.category == BenchmarkCategory::Latency
        &&& s.feature@ == "benchmark.runtime_probe"@
        &&& s.description@ == "Measure SDK runtime version and capability probe latency."@
        &&& s.workload.operation@ == "runtime_probe"@
        &&& s.workload.payload@ == "version_capability_query"@
        &&& opt_view(s.workload.transport) == None::<Seq<char>>
        &&& s.workload.iterations == Some(100_000u64)
        &&& s.workload.warmup_iterations == Some(10_000u64)
        &&& s.workload.duration_seconds == None::<u64>
    } else if k == 5 {
        &&& s.id@ == "l4.session.lifecycle.latency"@
        &&& s.category == BenchmarkCategory::Latency
        &&& s.feature@ == "benchmark.session_lifecycle"@
        &&& s.description@ == "Measure SDK-local session open plus close lifecycle latency."@
        &&& s.workload.operation@ == "session_lifecycle"@
        &&& s.workload.payload@ == "open_close_loop"@
        &&& opt_view(s.workload.transport) == None::<Seq<char>>
        &&& s.workload.iterations == Some(100_000u64)
        &&& s.workload.warmup_iterations == Some(10_000u64)
        &&& s.workload.duration_seconds == None::<u64>
    } else if k == 6 {
        &&& s.id@ == "l4.submit_result.inline_tensor.throughput"@
        &&& s.category == BenchmarkCategory::Throughput
        &&& s.feature@ == "benchmark.submit_result"@
        &&& s.description@ == "Measure inline tensor submit/result throughput through the SDK runtime path."@
        &&& s.workload.operation@ == "submit_result_loop"@
        &&& s.workload.payload@ == "inline_tensor_4k"@
        &&& opt_view(s.workload.transport) == None::<Seq<char>>
        &&& s.workload.iterations == None::<u64>
        &&& s.workload.warmup_iterations == Some(1_000u64)
        &&& s.workload.duration_seconds == Some(10u64)
    } else if k == 7 {
        &&& s.id@ == "l4.transport.tcp.loopback.throughput"@
        &&& s.category == BenchmarkCategory::Throughput
        &&& s.feature@ == "benchmark.transport.tcp"@
        &&& s.description@ == "Measure request/result throughput over a local TCP loopback transport."@
        &&& s.workload.operation@ == "transport_loopback"@
        &&& s.workload.payload@ == "request_result_stream"@
        &&& opt_view(s.workload.transport) == Some("tcp"@)
        &&& s.workload.iterations == None::<u64>
        &&& s.workload.warmup_iterations == Some(1_000u64)
        &&& s.workload.duration_seconds == Some(10u64)
    } else if k == 8 {
        &&& s.id@ == "l4.transport.quic.loopback.throughput"@
        &&& s.category == BenchmarkCategory::Throughput
        &&& s.feature@ == "benchmark.transport.quic"@
        &&& s.description@ == "Measure request/result throughput over a local QUIC loopback transport slot."@
        &&& s.workload.operation@ == "transport_loopback"@
        &&& s.workload.payload@ == "request_result_stream"@
        &&& opt_view(s.workload.transport) == Some("quic"@)
        &&& s.workload.iterations == None::<u64>
        &&& s.workload.warmup_iterations == Some(1_000u64)
        &&& s.workload.duration_seconds == Some(10u64)
    } else {
        false
    }
}

fn benchmark_scenario_0() -> (s: BenchmarkScenario)
    ensures
        benchmark_entry(s, 0),
{
    let mut required_capabilities: Vec<String> = Vec::new();

    let s = BenchmarkScenario {
        id: "l4.header.encode_decode.latency".to_owned(),
        category: BenchmarkCategory::Latency,
        feature: "benchmark.header".to_owned(),
        required_capabilities,
        description: "Measure L0 header encode/decode latency for the minimum fixed header shape.".to_owned(),
        workload: BenchmarkWorkload {
            operation: "header_encode_decode".to_owned(),
            payload: "l0_header".to_owned(),
            transport: None,
            iterations: Some(100_000),
            warmup_iterations: Some(10_000),
            duration_seconds: None,
        },
    };
    assert(texts(s.required_capabilities@) =~= benchmark_requirements(0));
    s
}

fn benchmark_scenario_1() -> (s: BenchmarkScenario)
    ensures
        benchmark_entry(s, 1),
{
    let mut required_capabilities: Vec<String> = Vec::new();
    required_capabilities.push("session.open_close".to_owned());
    let s = BenchmarkScenario {
        id: "l4.metadata.session_open_ack.latency".to_owned(),
        category: BenchmarkCategory::Latency,
        feature: "benchmark.metadata".to_owned(),
        required_capabilities,
        description: "Measure SESSION_OPEN plus SESSION_OPEN_ACK metadata encode/decode latency.".to_owned(),
        workload: BenchmarkWorkload {
            operation: "metadata_encode_decode".to_owned(),
            payload: "session_open_ack".to_owned(),
            transport: None,
            iterations: Some(100_000),
            warmup_iterations: Some(10_000),
            duration_seconds: None,
        },
    };
    assert(texts(s.required_capabilities@) =~= benchmark_requirements(1));
    s
}

fn benchmark_scenario_2() -> (s: BenchmarkScenario)
    ensures
        benchmark_entry(s, 2),
{
    let mut required_capabilities: Vec<String> = Vec::new();
    required_capabilities.push("frame_submit.tensor.inline".to_owned());
    required_capabilities.push("result_push.basic".to_owned());
    let s = BenchmarkScenario {
        id: "l4.metadata.submit_result.latency".to_owned(),
        category: BenchmarkCategory::Latency,
        feature: "benchmark.metadata.submit_result".to_owned(),
        required_capabilities,
        description: "Measure FRAME_SUBMIT plus RESULT_PUSH metadata encode/decode latency.".to_owned(),
        workload: BenchmarkWorkload {
            operation: "submit_result_metadata_encode_decode".to_owned(),
            payload: "frame_submit_result_push".to_owned(),
            transport: None,
            iterations: Some(100_000),
            warmup_iterations: Some(10_000),
            duration_seconds: None,
        },
    };
    assert(texts(s.required_capabilities@) =~= benchmark_requirements(2));
    s
}

fn benchmark_scenario_3() -> (s: BenchmarkScenario)
    ensures
        benchmark_entry(s, 3),
{
    let mut required_capabilities: Vec<String> = Vec::new();
    required_capabilities.push("frame_submit.tensor.inline".to_owned());
    let s = BenchmarkScenario {
        id: "l4.typed_payload.tensor_pack_unpack.latency".to_owned(),
        category: BenchmarkCategory::Latency,
        feature: "benchmark.typed_payload.tensor".to_owned(),
        required_capabilities,
        description: "Measure tensor descriptor, tile index, and payload pack/unpack latency.".to_owned(),
        workload: BenchmarkWorkload {
            operation: "typed_payload_pack_unpack".to_owned(),
            payload: "tensor_descriptor_plus_payload".to_owned(),
            transport: None,
            iterations: Some(100_000),
            warmup_iterations: Some(10_000),
            duration_seconds: None,
        },
    };
    assert(texts(s.required_capabilities@) =~= benchmark_requirements(3));
    s
}

fn benchmark_scenario_4() -> (s: BenchmarkScenario)
    ensures
        benchmark_entry(s, 4),
{
    let mut required_capabilities: Vec<String> = Vec::new();

    let s = BenchmarkScenario {
        id: "l4.runtime.probe.latency".to_owned(),
        category: BenchmarkCategory::Latency,
        feature: "benchmark.runtime_probe".to_owned(),
        required_capabilities,
        description: "Measure SDK runtime version and capability probe latency.".to_owned(),
        workload: BenchmarkWorkload {
            operation: "runtime_probe".to_owned(),
            payload: "version_capability_query".to_owned(),
            transport: None,
            iterations: Some(100_000),
            warmup_iterations: Some(10_000),
            duration_seconds: None,
        },
    };
    assert(texts(s.required_capabilities@) =~= benchmark_requirements(4));
    s
}

fn benchmark_scenario_5() -> (s: BenchmarkScenario)
    ensures
        benchmark_entry(s, 5),
{
    let mut required_capabilities: Vec<String> = Vec::new();
    required_capabilities.push("session.open_close".to_owned());
    let s = BenchmarkScenario {
        id: "l4.session.lifecycle.latency".to_owned(),
        category: BenchmarkCategory::Latency,
        feature: "benchmark.session_lifecycle".to_owned(),
        required_capabilities,
        description: "Measure SDK-local session open plus close lifecycle latency.".to_owned(),
        workload: BenchmarkWorkload {
            operation: "session_lifecycle".to_owned(),
            payload: "open_close_loop".to_owned(),
            transport: None,
            iterations: Some(100_000),
            warmup_iterations: Some(10_000),
            duration_seconds: None,
        },
    };
    assert(texts(s.required_capabilities@) =~= benchmark_requirements(5));
    s
}

fn benchmark_scenario_6() -> (s: BenchmarkScenario)
    ensures
        benchmark_entry(s, 6),
{
    let mut required_capabilities: Vec<String> = Vec::new();
    required_capabilities.push("frame_submit.tensor.inline".to_owned());
    required_capabilities.push("result_push.basic".to_owned());
    let s = BenchmarkScenario {
        id: "l4.submit_result.inline_tensor.throughput".to_owned(),
        category: BenchmarkCategory::Throughput,
        feature: "benchmark.submit_result".to_owned(),
        required_capabilities,
        description: "Measure inline tensor submit/result throughput through the SDK runtime path.".to_owned(),
        workload: BenchmarkWorkload {
            operation: "submit_result_loop".to_owned(),
            payload: "inline_tensor_4k".to_owned(),
            transport: None,
            iterations: None,
            warmup_iterations: Some(1_000),
            duration_seconds: Some(10),
        },
    };
    assert(texts(s.required_capabilities@) =~= benchmark_requirements(6));
    s
}

fn benchmark_scenario_7() -> (s: BenchmarkScenario)
    ensures
        benchmark_entry(s, 7),
{
    let mut required_capabilities: Vec<String> = Vec::new();
    required_capabilities.push("transport.tcp".to_owned());
    let s = BenchmarkScenario {
        id: "l4.transport.tcp.loopback.throughput".to_owned(),
        category: BenchmarkCategory::Throughput,
        feature: "benchmark.transport.tcp".to_owned(),
        required_capabilities,
        description: "Measure request/result throughput over a local TCP loopback transport.".to_owned(),
        workload: BenchmarkWorkload {
            operation: "transport_loopback".to_owned(),
            payload: "request_result_stream".to_owned(),
            transport: Some("tcp".to_owned()),
            iterations: None,
            warmup_iterations: Some(1_000),
            duration_seconds: Some(10),
        },
    };
    assert(texts(s.required_capabilities@) =~= benchmark_requirements(7));
    s
}

fn benchmark_scenario_8() -> (s: BenchmarkScenario)
    ensures
        benchmark_entry(s, 8),
{
    let mut required_capabilities: Vec<String> = Vec::new();
    required_capabilities.push("transport.quic".to_owned());
    let s = BenchmarkScenario {
        id: "l4.transport.quic.loopback.throughput".to_owned(),
        category: BenchmarkCategory::Throughput,
        feature: "benchmark.transport.quic".to_owned(),
        required_capabilities,
        description: "Measure request/result throughput over a local QUIC loopback transport slot.".to_owned(),
        workload: BenchmarkWorkload {
            operation: "transport_loopback".to_owned(),
            payload: "request_result_stream".to_owned(),
            transport: Some("quic".to_owned()),
            iterations: None,
            warmup_iterations: Some(1_000),
            duration_seconds: Some(10),
        },
    };
    assert(texts(s.required_capabilities@) =~= benchmark_requirements(8));
    s
}

/// Every scenario of the benchmark catalog, in catalog order.
pub fn benchmark_catalog() -> (catalog: Vec<BenchmarkScenario>)
    ensures
        catalog@.len() == benchmark_catalog_len(),
        forall|k: int| 0 <= k < benchmark_catalog_len() ==> benchmark_entry(#[trigger] catalog@[k], k),
{
    let mut catalog: Vec<BenchmarkScenario> = Vec::new();
    catalog.push(benchmark_scenario_0());
    catalog.push(benchmark_scenario_1());
    catalog.push(benchmark_scenario_2());
    catalog.push(benchmark_scenario_3());
    catalog.push(benchmark_scenario_4());
    catalog.push(benchmark_scenario_5());
    catalog.push(benchmark_scenario_6());
    catalog.push(benchmark_scenario_7());
    catalog.push(benchmark_scenario_8());
    catalog
}

/// Every one of the texts is declared.
pub open spec fn claims_texts(required: Seq<Seq<char>>, declared: Seq<String>) -> bool {
    forall|i: int| 0 <= i < required.len() ==> texts(declared).contains(#[trigger] required[i])
}

/// The catalog positions, below `n`, of the scenarios whose requirements are
/// all declared, in catalog order.
pub open spec fn retained_benchmarks(declared: Seq<String>, n: int) -> Seq<int>
    decreases n,
{
    if n <= 0 {
        Seq::empty()
    } else if claims_texts(benchmark_requirements(n - 1), declared) {
        retained_benchmarks(declared, n - 1).push(n - 1)
    } else {
        retained_benchmarks(declared, n - 1)
    }
}

/// The catalog scenarios whose required capabilities are all declared, in
/// catalog order.
pub fn default_benchmark_scenarios(supports: &Vec<String>) -> (scenarios: Vec<BenchmarkScenario>)
    ensures
        ({
            let kept = retained_benchmarks(supports@, benchmark_catalog_len());
            &&& scenarios@.len() == kept.len()
            &&& forall|i: int| 0 <= i < kept.len() ==> benchmark_entry(#[trigger] scenarios@[i], kept[i])
        }),
{
    let mut catalog = benchmark_catalog();
    let ghost full = catalog@;
    let mut scenarios: Vec<BenchmarkScenario> = Vec::new();
    let mut k: usize = 0;
    while catalog.len() > 0
        invariant
            k <= benchmark_catalog_len(),
            catalog@ == full.skip(k as int),
            full.len() == benchmark_catalog_len(),
            forall|j: int| 0 <= j < benchmark_catalog_len() ==> benchmark_entry(#[trigger] full[j], j),
            ({
                let kept = retained_benchmarks(supports@, k as int);
                &&& scenarios@.len() == kept.len()
                &&& forall|i: int| 0 <= i < kept.len() ==> benchmark_entry(#[trigger] scenarios@[i], kept[i])
            }),
        decreases catalog@.len(),
    {
        let scenario = catalog.remove(0);
        assert(scenario == full[k as int]);
        assert(benchmark_entry(scenario, k as int));
        let claimed = crate::plan::claims_all_exec(&scenario.required_capabilities, supports);
        proof {
            assert(claimed == claims_texts(benchmark_requirements(k as int), supports@)) by {
                assert(texts(scenario.required_capabilities@) == benchmark_requirements(k as int));
                if claims_texts(benchmark_requirements(k as int), supports@) {
                    assert forall|i: int| 0 <= i < scenario.required_capabilities@.len() implies texts(supports@).contains(
                        #[trigger] scenario.required_capabilities@[i]@) by {
                        assert(benchmark_requirements(k as int)[i] == scenario.required_capabilities@[i]@);
                    }
                }
                if claims_all(scenario.required_capabilities@, supports@) {
                    assert forall|i: int| 0 <= i < benchmark_requirements(k as int).len() implies texts(supports@).contains(
                        #[trigger] benchmark_requirements(k as int)[i]) by {
                        assert(benchmark_requirements(k as int)[i] == scenario.required_capabilities@[i]@);
                    }
                }
            }
            assert(catalog@ =~= full.skip(k + 1));
        }
        if claimed {
            scenarios.push(scenario);
        }
        k = k + 1;
    }
    assert(full.skip(k as int).len() == 0);
    scenarios
}

/// Checks that a capability manifest is of the baseline's protocol version
/// before a benchmark plan is made from it.
pub fn validate_benchmark_capability_alignment(
    protocol_manifest: &ProtocolManifest,
    capability_manifest: &CapabilityManifest,
) -> (result: Result<(), ResultsError>)
    ensures
        protocol_manifest.protocol_version@ == capability_manifest.protocol_version@ ==> result is Ok,
        protocol_manifest.protocol_version@ != capability_manifest.protocol_version@ ==> (result matches Err(e)
            && e.message@ == "benchmark capability protocol version mismatch: expected "@
            + protocol_manifest.protocol_version@ + ", got "@ + capability_manifest.protocol_version@),
{
    if protocol_manifest.protocol_version == capability_manifest.protocol_version {
        return Ok(());
    }
    let mut message = String::new();
    push_text(&mut message, "benchmark capability protocol version mismatch: expected ");
    push_text(&mut message, protocol_manifest.protocol_version.as_str());
    push_text(&mut message, ", got ");
    push_text(&mut message, capability_manifest.protocol_version.as_str());
    Err(ResultsError { message })
}

/// The benchmark plan for an implementation: the catalog scenarios its
/// declared capabilities claim.
pub fn build_benchmark_execution_plan(
    protocol_manifest: &ProtocolManifest,
    capability_manifest: &CapabilityManifest,
    artifacts: BenchmarkArtifactContext,
) -> (plan: BenchmarkExecutionPlan)
    ensures
        opt_view(plan.schema) == Some("https://github.com/NagareWorks/nnrp-conformance/schemas/benchmark-execution-plan.schema.json"@),
        plan.protocol_version@ == protocol_manifest.protocol_version@,
        plan.suite_version@ == protocol_manifest.suite_version@,
        plan.implementation_name@ == capability_manifest.implementation_name@,
        plan.artifacts == artifacts,
        ({
            let kept = retained_benchmarks(capability_manifest.supports@, benchmark_catalog_len());
            &&& plan.scenarios@.len() == kept.len()
            &&& forall|i: int| 0 <= i < kept.len() ==> benchmark_entry(#[trigger] plan.scenarios@[i], kept[i])
        }),
{
    BenchmarkExecutionPlan {
        schema: Some("https://github.com/NagareWorks/nnrp-conformance/schemas/benchmark-execution-plan.schema.json".to_owned()),
        protocol_version: protocol_manifest.protocol_version.clone(),
        suite_version: protocol_manifest.suite_version.clone(),
        implementation_name: capability_manifest.implementation_name.clone(),
        artifacts,
        scenarios: default_benchmark_scenarios(&capability_manifest.supports),
    }
}

} // verus!
