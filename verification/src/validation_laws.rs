use vstd::prelude::*;

use crate::benchmarks::{benchmark_catalog_len, benchmark_entry, benchmark_requirements, claims_texts, retained_benchmarks};
use crate::api_profile::{
    event_count, event_fields_problem, events_check, fields_problem, first_event_from, passed_api_problem, recipe_requires,
};
use crate::capability_checks::unknown_capabilities;
use crate::json_model::{json_contains, json_get, member_value, JsonValue};
use crate::plan::{case_selection, count_selection, declared_of, plans_cases, CaseSelection};
use crate::route_laws::count_where;
use crate::wire_frames::json_u64;
use crate::fixtures::{
    ApiProfileRecipe, CapabilityManifest, CaseStatus, ConformanceReport, ProtocolManifest, ApiProfileObservedEvent, ApiProfileTerminal, BenchmarkScenario, CaseDefinition, WireConformanceFrameDirection,
    WireConformanceFramePayloadInvariant, WireConformanceObservedFrame,
};
use crate::profile_checks::terminal_event_problem;
use crate::sorted_text::texts;
use crate::fixtures::WirePayloadMember;
use crate::json_text::same_json_text;
use crate::wire_frames::{
    member_named, observed_frame_problem, observed_frames_problem, payload_fields_problem, payload_rule_result_problem,
    payload_rules_result_problem, rule_applies,
};

verus! {

/// The terminal of a case is backed by the event that announces it: a case
/// that ends in Error passes the terminal check exactly when some observed
/// event has type `response.error`, one that is Cancelled exactly when some
/// has type `response.cancelled`, and a successful one always.
pub proof fn law_terminal_needs_its_event(
    case_id: Seq<char>,
    terminal: ApiProfileTerminal,
    events: Seq<ApiProfileObservedEvent>,
)
    ensures
        terminal == ApiProfileTerminal::Error ==> (terminal_event_problem(case_id, terminal, events) is None <==> exists|k: int|
            0 <= k < events.len() && (#[trigger] events[k]).event_type@ == "response.error"@),
        terminal == ApiProfileTerminal::Cancelled ==> (terminal_event_problem(case_id, terminal, events) is None
            <==> exists|k: int| 0 <= k < events.len() && (#[trigger] events[k]).event_type@ == "response.cancelled"@),
        terminal == ApiProfileTerminal::Success ==> terminal_event_problem(case_id, terminal, events) is None,
{
    let types = events.map_values(|e: ApiProfileObservedEvent| e.event_type@);
    assert forall|t: Seq<char>| types.contains(t) <==> exists|k: int|
        0 <= k < events.len() && (#[trigger] events[k]).event_type@ == t by {
        if types.contains(t) {
            let k = choose|k: int| 0 <= k < types.len() && types[k] == t;
            assert(events[k].event_type@ == t);
        }
        if exists|k: int| 0 <= k < events.len() && (#[trigger] events[k]).event_type@ == t {
            let k = choose|k: int| 0 <= k < events.len() && (#[trigger] events[k]).event_type@ == t;
            assert(types[k] == t);
        }
    }
}

proof fn lemma_retained_has(declared: Seq<String>, n: int, k: int)
    requires
        0 <= k < n,
        claims_texts(benchmark_requirements(k), declared),
    ensures
        retained_benchmarks(declared, n).contains(k),
    decreases n,
{
    if k < n - 1 {
        lemma_retained_has(declared, n - 1, k);
        let prior = retained_benchmarks(declared, n - 1);
        let i = choose|i: int| 0 <= i < prior.len() && prior[i] == k;
        if claims_texts(benchmark_requirements(n - 1), declared) {
            assert(retained_benchmarks(declared, n)[i] == k);
        }
    } else {
        let kept = retained_benchmarks(declared, n);
        assert(kept[kept.len() - 1] == k);
    }
}

proof fn lemma_retained_range(declared: Seq<String>, n: int)
    ensures
        forall|i: int| 0 <= i < retained_benchmarks(declared, n).len() ==> {
            let k = #[trigger] retained_benchmarks(declared, n)[i];
            0 <= k < n && claims_texts(benchmark_requirements(k), declared)
        },
    decreases n,
{
    if n > 0 {
        lemma_retained_range(declared, n - 1);
        let prior = retained_benchmarks(declared, n - 1);
        let kept = retained_benchmarks(declared, n);
        assert forall|i: int| 0 <= i < kept.len() implies {
            let k = #[trigger] kept[i];
            0 <= k < n && claims_texts(benchmark_requirements(k), declared)
        } by {
            if i < prior.len() {
                assert(kept[i] == prior[i]);
            }
        }
    }
}

proof fn lemma_benchmark_ids_distinct()
    ensures
        "l4.header.encode_decode.latency"@ != "l4.metadata.session_open_ack.latency"@,
        "l4.header.encode_decode.latency"@ != "l4.metadata.submit_result.latency"@,
        "l4.header.encode_decode.latency"@ != "l4.typed_payload.tensor_pack_unpack.latency"@,
        "l4.header.encode_decode.latency"@ != "l4.runtime.probe.latency"@,
        "l4.header.encode_decode.latency"@ != "l4.session.lifecycle.latency"@,
        "l4.header.encode_decode.latency"@ != "l4.submit_result.inline_tensor.throughput"@,
        "l4.header.encode_decode.latency"@ != "l4.transport.tcp.loopback.throughput"@,
        "l4.header.encode_decode.latency"@ != "l4.transport.quic.loopback.throughput"@,
        "l4.metadata.session_open_ack.latency"@ != "l4.metadata.submit_result.latency"@,
        "l4.metadata.session_open_ack.latency"@ != "l4.typed_payload.tensor_pack_unpack.latency"@,
        "l4.metadata.session_open_ack.latency"@ != "l4.runtime.probe.latency"@,
        "l4.metadata.session_open_ack.latency"@ != "l4.session.lifecycle.latency"@,
        "l4.metadata.session_open_ack.latency"@ != "l4.submit_result.inline_tensor.throughput"@,
        "l4.metadata.session_open_ack.latency"@ != "l4.transport.tcp.loopback.throughput"@,
        "l4.metadata.session_open_ack.latency"@ != "l4.transport.quic.loopback.throughput"@,
        "l4.metadata.submit_result.latency"@ != "l4.typed_payload.tensor_pack_unpack.latency"@,
        "l4.metadata.submit_result.latency"@ != "l4.runtime.probe.latency"@,
        "l4.metadata.submit_result.latency"@ != "l4.session.lifecycle.latency"@,
        "l4.metadata.submit_result.latency"@ != "l4.submit_result.inline_tensor.throughput"@,
        "l4.metadata.submit_result.latency"@ != "l4.transport.tcp.loopback.throughput"@,
        "l4.metadata.submit_result.latency"@ != "l4.transport.quic.loopback.throughput"@,
        "l4.typed_payload.tensor_pack_unpack.latency"@ != "l4.runtime.probe.latency"@,
        "l4.typed_payload.tensor_pack_unpack.latency"@ != "l4.session.lifecycle.latency"@,
        "l4.typed_payload.tensor_pack_unpack.latency"@ != "l4.submit_result.inline_tensor.throughput"@,
        "l4.typed_payload.tensor_pack_unpack.latency"@ != "l4.transport.tcp.loopback.throughput"@,
        "l4.typed_payload.tensor_pack_unpack.latency"@ != "l4.transport.quic.loopback.throughput"@,
        "l4.runtime.probe.latency"@ != "l4.session.lifecycle.latency"@,
        "l4.runtime.probe.latency"@ != "l4.submit_result.inline_tensor.throughput"@,
        "l4.runtime.probe.latency"@ != "l4.transport.tcp.loopback.throughput"@,
        "l4.runtime.probe.latency"@ != "l4.transport.quic.loopback.throughput"@,
        "l4.session.lifecycle.latency"@ != "l4.submit_result.inline_tensor.throughput"@,
        "l4.session.lifecycle.latency"@ != "l4.transport.tcp.loopback.throughput"@,
        "l4.session.lifecycle.latency"@ != "l4.transport.quic.loopback.throughput"@,
        "l4.submit_result.inline_tensor.throughput"@ != "l4.transport.tcp.loopback.throughput"@,
        "l4.submit_result.inline_tensor.throughput"@ != "l4.transport.quic.loopback.throughput"@,
        "l4.transport.tcp.loopback.throughput"@ != "l4.transport.quic.loopback.throughput"@,
{
    reveal_strlit("l4.header.encode_decode.latency");
    reveal_strlit("l4.metadata.session_open_ack.latency");
    reveal_strlit("l4.metadata.submit_result.latency");
    reveal_strlit("l4.typed_payload.tensor_pack_unpack.latency");
    reveal_strlit("l4.runtime.probe.latency");
    reveal_strlit("l4.session.lifecycle.latency");
    reveal_strlit("l4.submit_result.inline_tensor.throughput");
    reveal_strlit("l4.transport.tcp.loopback.throughput");
    reveal_strlit("l4.transport.quic.loopback.throughput");
    assert("l4.header.encode_decode.latency"@.len() != "l4.metadata.session_open_ack.latency"@.len());
    assert("l4.header.encode_decode.latency"@.len() != "l4.metadata.submit_result.latency"@.len());
    assert("l4.header.encode_decode.latency"@.len() != "l4.typed_payload.tensor_pack_unpack.latency"@.len());
    assert("l4.header.encode_decode.latency"@.len() != "l4.runtime.probe.latency"@.len());
    assert("l4.header.encode_decode.latency"@.len() != "l4.session.lifecycle.latency"@.len());
    assert("l4.header.encode_decode.latency"@.len() != "l4.submit_result.inline_tensor.throughput"@.len());
    assert("l4.header.encode_decode.latency"@.len() != "l4.transport.tcp.loopback.throughput"@.len());
    assert("l4.header.encode_decode.latency"@.len() != "l4.transport.quic.loopback.throughput"@.len());
    assert("l4.metadata.session_open_ack.latency"@.len() != "l4.metadata.submit_result.latency"@.len());
    assert("l4.metadata.session_open_ack.latency"@.len() != "l4.typed_payload.tensor_pack_unpack.latency"@.len());
    assert("l4.metadata.session_open_ack.latency"@.len() != "l4.runtime.probe.latency"@.len());
    assert("l4.metadata.session_open_ack.latency"@.len() != "l4.session.lifecycle.latency"@.len());
    assert("l4.metadata.session_open_ack.latency"@.len() != "l4.submit_result.inline_tensor.throughput"@.len());
    assert("l4.metadata.session_open_ack.latency"@[3] != "l4.transport.tcp.loopback.throughput"@[3]);
    assert("l4.metadata.session_open_ack.latency"@.len() != "l4.transport.quic.loopback.throughput"@.len());
    assert("l4.metadata.submit_result.latency"@.len() != "l4.typed_payload.tensor_pack_unpack.latency"@.len());
    assert("l4.metadata.submit_result.latency"@.len() != "l4.runtime.probe.latency"@.len());
    assert("l4.metadata.submit_result.latency"@.len() != "l4.session.lifecycle.latency"@.len());
    assert("l4.metadata.submit_result.latency"@.len() != "l4.submit_result.inline_tensor.throughput"@.len());
    assert("l4.metadata.submit_result.latency"@.len() != "l4.transport.tcp.loopback.throughput"@.len());
    assert("l4.metadata.submit_result.latency"@.len() != "l4.transport.quic.loopback.throughput"@.len());
    assert("l4.typed_payload.tensor_pack_unpack.latency"@.len() != "l4.runtime.probe.latency"@.len());
    assert("l4.typed_payload.tensor_pack_unpack.latency"@.len() != "l4.session.lifecycle.latency"@.len());
    assert("l4.typed_payload.tensor_pack_unpack.latency"@.len() != "l4.submit_result.inline_tensor.throughput"@.len());
    assert("l4.typed_payload.tensor_pack_unpack.latency"@.len() != "l4.transport.tcp.loopback.throughput"@.len());
    assert("l4.typed_payload.tensor_pack_unpack.latency"@.len() != "l4.transport.quic.loopback.throughput"@.len());
    assert("l4.runtime.probe.latency"@.len() != "l4.session.lifecycle.latency"@.len());
    assert("l4.runtime.probe.latency"@.len() != "l4.submit_result.inline_tensor.throughput"@.len());
    assert("l4.runtime.probe.latency"@.len() != "l4.transport.tcp.loopback.throughput"@.len());
    assert("l4.runtime.probe.latency"@.len() != "l4.transport.quic.loopback.throughput"@.len());
    assert("l4.session.lifecycle.latency"@.len() != "l4.submit_result.inline_tensor.throughput"@.len());
    assert("l4.session.lifecycle.latency"@.len() != "l4.transport.tcp.loopback.throughput"@.len());
    assert("l4.session.lifecycle.latency"@.len() != "l4.transport.quic.loopback.throughput"@.len());
    assert("l4.submit_result.inline_tensor.throughput"@.len() != "l4.transport.tcp.loopback.throughput"@.len());
    assert("l4.submit_result.inline_tensor.throughput"@.len() != "l4.transport.quic.loopback.throughput"@.len());
    assert("l4.transport.tcp.loopback.throughput"@.len() != "l4.transport.quic.loopback.throughput"@.len());
}

/// The capabilities each benchmark of the catalog needs, by id.
pub open spec fn benchmark_needs(id: Seq<char>) -> Option<Seq<Seq<char>>> {
    if id == "l4.header.encode_decode.latency"@ {
        Some(Seq::empty())
    } else if id == "l4.metadata.session_open_ack.latency"@ {
        Some(seq!["session.open_close"@])
    } else if id == "l4.metadata.submit_result.latency"@ {
        Some(seq!["frame_submit.tensor.inline"@, "result_push.basic"@])
    } else if id == "l4.typed_payload.tensor_pack_unpack.latency"@ {
        Some(seq!["frame_submit.tensor.inline"@])
    } else if id == "l4.runtime.probe.latency"@ {
        Some(Seq::empty())
    } else if id == "l4.session.lifecycle.latency"@ {
        Some(seq!["session.open_close"@])
    } else if id == "l4.submit_result.inline_tensor.throughput"@ {
        Some(seq!["frame_submit.tensor.inline"@, "result_push.basic"@])
    } else if id == "l4.transport.tcp.loopback.throughput"@ {
        Some(seq!["transport.tcp"@])
    } else if id == "l4.transport.quic.loopback.throughput"@ {
        Some(seq!["transport.quic"@])
    } else {
        None
    }
}

/// A benchmark plan holds exactly the catalog benchmarks whose capabilities
/// are all declared: every planned benchmark is one of the catalog's nine,
/// requires the capabilities listed for its id and has each of them
/// declared; and every catalog benchmark whose capabilities are declared is
/// planned. In particular the submit/result benchmarks are planned only
/// where both `frame_submit.tensor.inline` and `result_push.basic` are.
pub proof fn law_benchmark_plan_follows_the_catalog(scenarios: Seq<BenchmarkScenario>, declared: Seq<String>)
    requires
        ({
            let kept = retained_benchmarks(declared, benchmark_catalog_len());
            &&& scenarios.len() == kept.len()
            &&& forall|i: int| 0 <= i < kept.len() ==> benchmark_entry(#[trigger] scenarios[i], kept[i])
        }),
    ensures
        forall|i: int| 0 <= i < scenarios.len() ==> {
            let s = #[trigger] scenarios[i];
            &&& benchmark_needs(s.id@) == Some(texts(s.required_capabilities@))
            &&& forall|j: int| 0 <= j < s.required_capabilities@.len() ==> texts(declared).contains(
                (#[trigger] s.required_capabilities@[j])@,
            )
        },
        forall|id: Seq<char>| #![trigger benchmark_needs(id)]
            benchmark_needs(id) matches Some(needs) && (forall|j: int| 0 <= j < needs.len() ==> texts(declared).contains(
                #[trigger] needs[j],
            )) ==> exists|i: int| 0 <= i < scenarios.len() && (#[trigger] scenarios[i]).id@ == id,
{
    let n = benchmark_catalog_len();
    let kept = retained_benchmarks(declared, n);
    lemma_retained_range(declared, n);
    assert forall|i: int| 0 <= i < scenarios.len() implies {
        let s = #[trigger] scenarios[i];
        &&& benchmark_needs(s.id@) == Some(texts(s.required_capabilities@))
        &&& forall|j: int| 0 <= j < s.required_capabilities@.len() ==> texts(declared).contains(
            (#[trigger] s.required_capabilities@[j])@,
        )
    } by {
        let s = scenarios[i];
        let k = kept[i];
        assert(benchmark_entry(s, k));
        assert(0 <= k < n && claims_texts(benchmark_requirements(k), declared));
        reveal_strlit("l4.header.encode_decode.latency");
        reveal_strlit("l4.metadata.session_open_ack.latency");
        reveal_strlit("l4.metadata.submit_result.latency");
        reveal_strlit("l4.typed_payload.tensor_pack_unpack.latency");
        reveal_strlit("l4.runtime.probe.latency");
        reveal_strlit("l4.session.lifecycle.latency");
        reveal_strlit("l4.submit_result.inline_tensor.throughput");
        reveal_strlit("l4.transport.tcp.loopback.throughput");
        reveal_strlit("l4.transport.quic.loopback.throughput");
        lemma_benchmark_ids_distinct();
        assert(k == 0 || k == 1 || k == 2 || k == 3 || k == 4 || k == 5 || k == 6 || k == 7 || k == 8);
        if k == 0 {
            assert(s.id@ == "l4.header.encode_decode.latency"@);
        } else if k == 1 {
            assert(s.id@ == "l4.metadata.session_open_ack.latency"@);
        } else if k == 2 {
            assert(s.id@ == "l4.metadata.submit_result.latency"@);
        } else if k == 3 {
            assert(s.id@ == "l4.typed_payload.tensor_pack_unpack.latency"@);
        } else if k == 4 {
            assert(s.id@ == "l4.runtime.probe.latency"@);
        } else if k == 5 {
            assert(s.id@ == "l4.session.lifecycle.latency"@);
        } else if k == 6 {
            assert(s.id@ == "l4.submit_result.inline_tensor.throughput"@);
        } else if k == 7 {
            assert(s.id@ == "l4.transport.tcp.loopback.throughput"@);
        } else if k == 8 {
            assert(s.id@ == "l4.transport.quic.loopback.throughput"@);
        }
        assert(benchmark_needs(s.id@) == Some(benchmark_requirements(k)));
        assert forall|j: int| 0 <= j < s.required_capabilities@.len() implies texts(declared).contains(
            (#[trigger] s.required_capabilities@[j])@,
        ) by {
            assert(texts(s.required_capabilities@)[j] == s.required_capabilities@[j]@);
            assert(benchmark_requirements(k)[j] == s.required_capabilities@[j]@);
        }
    }
    assert forall|id: Seq<char>| #![trigger benchmark_needs(id)]
        benchmark_needs(id) matches Some(needs) && (forall|j: int| 0 <= j < needs.len() ==> texts(declared).contains(
            #[trigger] needs[j],
        )) implies exists|i: int| 0 <= i < scenarios.len() && (#[trigger] scenarios[i]).id@ == id by {
        reveal_strlit("l4.header.encode_decode.latency");
        reveal_strlit("l4.metadata.session_open_ack.latency");
        reveal_strlit("l4.metadata.submit_result.latency");
        reveal_strlit("l4.typed_payload.tensor_pack_unpack.latency");
        reveal_strlit("l4.runtime.probe.latency");
        reveal_strlit("l4.session.lifecycle.latency");
        reveal_strlit("l4.submit_result.inline_tensor.throughput");
        reveal_strlit("l4.transport.tcp.loopback.throughput");
        reveal_strlit("l4.transport.quic.loopback.throughput");
        lemma_benchmark_ids_distinct();
        let k: int = if id == "l4.header.encode_decode.latency"@ {
            0
        } else if id == "l4.metadata.session_open_ack.latency"@ {
            1
        } else if id == "l4.metadata.submit_result.latency"@ {
            2
        } else if id == "l4.typed_payload.tensor_pack_unpack.latency"@ {
            3
        } else if id == "l4.runtime.probe.latency"@ {
            4
        } else if id == "l4.session.lifecycle.latency"@ {
            5
        } else if id == "l4.submit_result.inline_tensor.throughput"@ {
            6
        } else if id == "l4.transport.tcp.loopback.throughput"@ {
            7
        } else {
            8
        };
        assert(benchmark_requirements(k) == benchmark_needs(id)->0);
        lemma_retained_has(declared, n, k);
        let i = choose|i: int| 0 <= i < kept.len() && kept[i] == k;
        assert(benchmark_entry(scenarios[i], k));
    }
}

/// A declared capability token is unknown exactly when no case lists it
/// among its required capabilities, whatever that case's status; unknown
/// tokens keep their declaration order.
pub proof fn law_unknown_tokens_are_required_by_no_case(supports: Seq<String>, cases: Seq<CaseDefinition>)
    ensures
        forall|t: Seq<char>| #![trigger unknown_capabilities(supports, cases).contains(t)]
            unknown_capabilities(supports, cases).contains(t) <==> (texts(supports).contains(t) && !exists|k: int, m: int|
                0 <= k < cases.len() && 0 <= m < cases[k].required_capabilities@.len()
                    && (#[trigger] cases[k].required_capabilities@[m])@ == t),
    decreases supports.len(),
{
    if supports.len() > 0 {
        let rest = supports.drop_last();
        law_unknown_tokens_are_required_by_no_case(rest, cases);
        let last = supports.last()@;
        assert(texts(supports) =~= texts(rest).push(last));
        assert forall|t: Seq<char>| texts(supports).contains(t) <==> (texts(rest).contains(t) || t == last) by {
            if texts(supports).contains(t) {
                let x = choose|x: int| 0 <= x < texts(supports).len() && texts(supports)[x] == t;
                if x < texts(rest).len() {
                    assert(texts(rest)[x] == t);
                }
            }
            if texts(rest).contains(t) {
                let x = choose|x: int| 0 <= x < texts(rest).len() && texts(rest)[x] == t;
                assert(texts(supports)[x] == t);
            }
            if t == last {
                assert(texts(supports)[texts(supports).len() - 1] == t);
            }
        }
        let u = unknown_capabilities(supports, cases);
        let r = unknown_capabilities(rest, cases);
        assert forall|t: Seq<char>| #![trigger u.contains(t)]
            u.contains(t) <==> (texts(supports).contains(t) && !exists|k: int, m: int|
                0 <= k < cases.len() && 0 <= m < cases[k].required_capabilities@.len()
                    && (#[trigger] cases[k].required_capabilities@[m])@ == t) by {
            assert(r.contains(t) <==> (texts(rest).contains(t) && !exists|k: int, m: int|
                0 <= k < cases.len() && 0 <= m < cases[k].required_capabilities@.len()
                    && (#[trigger] cases[k].required_capabilities@[m])@ == t));
            if u =~= r.push(last) {
                if u.contains(t) && !r.contains(t) {
                    let x = choose|x: int| 0 <= x < u.len() && u[x] == t;
                    assert(x == r.len());
                }
                if r.contains(t) {
                    let x = choose|x: int| 0 <= x < r.len() && r[x] == t;
                    assert(u[x] == t);
                }
                if t == last {
                    assert(u[r.len() as int] == t);
                }
            }
        }
    }
}

proof fn lemma_other_direction_frames(
    result_id: Seq<char>,
    rule: WireConformanceFramePayloadInvariant,
    frames: Seq<WireConformanceObservedFrame>,
    i: int,
    other: WireConformanceObservedFrame,
)
    requires
        0 <= i < frames.len(),
        rule.direction matches Some(d) && d != frames[i].direction && d != other.direction,
    ensures
        observed_frames_problem(result_id, rule, frames) == observed_frames_problem(result_id, rule, frames.update(i, other)),
    decreases frames.len(),
{
    let changed = frames.update(i, other);
    if i == frames.len() - 1 {
        assert(changed.drop_last() =~= frames.drop_last());
    } else {
        assert(changed.drop_last() =~= frames.drop_last().update(i, other));
        lemma_other_direction_frames(result_id, rule, frames.drop_last(), i, other);
    }
}

/// A payload rule that names a direction reads only frames of that
/// direction: putting any frame of another direction in the place of an
/// observed frame of another direction never changes what the payload
/// rules find, so it never changes whether a result validates.
pub proof fn law_payload_rules_ignore_other_directions(
    result_id: Seq<char>,
    rules: Seq<WireConformanceFramePayloadInvariant>,
    frames: Seq<WireConformanceObservedFrame>,
    i: int,
    other: WireConformanceObservedFrame,
)
    requires
        0 <= i < frames.len(),
        forall|r: int| 0 <= r < rules.len() ==> ((#[trigger] rules[r]).direction matches Some(d) && d
            != frames[i].direction && d != other.direction),
    ensures
        payload_rules_result_problem(result_id, rules, frames) == payload_rules_result_problem(
            result_id,
            rules,
            frames.update(i, other),
        ),
    decreases rules.len(),
{
    if rules.len() > 0 {
        let rest = rules.drop_last();
        assert forall|r: int| 0 <= r < rest.len() implies ((#[trigger] rest[r]).direction matches Some(d) && d
            != frames[i].direction && d != other.direction) by {
            assert(rest[r] == rules[r]);
        }
        law_payload_rules_ignore_other_directions(result_id, rest, frames, i, other);
        let rule = rules.last();
        assert(rule == rules[rules.len() - 1]);
        let changed = frames.update(i, other);
        lemma_other_direction_frames(result_id, rule, frames, i, other);
        assert((exists|k: int| 0 <= k < frames.len() && rule_applies(rule, #[trigger] frames[k])) == (exists|k: int|
            0 <= k < changed.len() && rule_applies(rule, #[trigger] changed[k]))) by {
            if exists|k: int| 0 <= k < frames.len() && rule_applies(rule, #[trigger] frames[k]) {
                let k = choose|k: int| 0 <= k < frames.len() && rule_applies(rule, #[trigger] frames[k]);
                assert(k != i);
                assert(changed[k] == frames[k]);
            }
            if exists|k: int| 0 <= k < changed.len() && rule_applies(rule, #[trigger] changed[k]) {
                let k = choose|k: int| 0 <= k < changed.len() && rule_applies(rule, #[trigger] changed[k]);
                assert(k != i);
                assert(changed[k] == frames[k]);
            }
        }
        assert(payload_rule_result_problem(result_id, rule, frames) == payload_rule_result_problem(
            result_id,
            rule,
            changed,
        ));
    }
}

/// The first member of a payload named like a required field holds the
/// field's value (JSON texts compared as values), for every required field.
pub open spec fn holds_fields(members: Seq<WirePayloadMember>, fields: Seq<(String, String)>) -> bool {
    forall|j: int| #![trigger fields[j]]
        0 <= j < fields.len() ==> exists|x: int| {
            &&& 0 <= x < members.len()
            &&& (#[trigger] members[x]).name@ == fields[j].0@
            &&& forall|y: int| 0 <= y < x ==> (#[trigger] members[y]).name@ != fields[j].0@
            &&& same_json_text(members[x].json@, fields[j].1@)
        }
}

/// The observed frames a payload rule speaks of: its frame, in its
/// direction where it names one.
pub open spec fn ruled_frame(rule: WireConformanceFramePayloadInvariant, frame: WireConformanceObservedFrame) -> bool {
    frame.frame@ == rule.frame@ && (rule.direction matches Some(d) ==> frame.direction == d)
}

proof fn lemma_member_named_first(members: Seq<WirePayloadMember>, name: Seq<char>)
    ensures
        member_named(members, name) matches Some(m) ==> exists|x: int| {
            &&& 0 <= x < members.len()
            &&& (#[trigger] members[x]) == m
            &&& m.name@ == name
            &&& forall|y: int| 0 <= y < x ==> (#[trigger] members[y]).name@ != name
        },
        member_named(members, name) is None ==> forall|x: int| 0 <= x < members.len() ==> (#[trigger] members[x]).name@
            != name,
    decreases members.len(),
{
    if members.len() > 0 {
        let rest = members.drop_first();
        lemma_member_named_first(rest, name);
        if members[0].name@ != name {
            if member_named(rest, name) is Some {
                let x = choose|x: int| {
                    &&& 0 <= x < rest.len()
                    &&& (#[trigger] rest[x]) == member_named(rest, name)->0
                    &&& member_named(rest, name)->0.name@ == name
                    &&& forall|y: int| 0 <= y < x ==> (#[trigger] rest[y]).name@ != name
                };
                assert(members[x + 1] == rest[x]);
                assert forall|y: int| 0 <= y < x + 1 implies (#[trigger] members[y]).name@ != name by {
                    if y > 0 {
                        assert(members[y] == rest[y - 1]);
                    }
                }
            } else {
                assert forall|x: int| 0 <= x < members.len() implies (#[trigger] members[x]).name@ != name by {
                    if x > 0 {
                        assert(members[x] == rest[x - 1]);
                    }
                }
            }
        }
    }
}

proof fn lemma_fields_hold(
    result_id: Seq<char>,
    frame: Seq<char>,
    members: Seq<WirePayloadMember>,
    fields: Seq<(String, String)>,
)
    ensures
        payload_fields_problem(result_id, frame, members, fields) is None <==> holds_fields(members, fields),
    decreases fields.len(),
{
    if fields.len() > 0 {
        let rest = fields.drop_last();
        lemma_fields_hold(result_id, frame, members, rest);
        let last = fields.last();
        lemma_member_named_first(members, last.0@);
        assert(holds_fields(members, fields) <==> (holds_fields(members, rest) && exists|x: int| {
            &&& 0 <= x < members.len()
            &&& (#[trigger] members[x]).name@ == last.0@
            &&& forall|y: int| 0 <= y < x ==> (#[trigger] members[y]).name@ != last.0@
            &&& same_json_text(members[x].json@, last.1@)
        })) by {
            if holds_fields(members, fields) {
                assert forall|j: int| #![trigger rest[j]] 0 <= j < rest.len() implies exists|x: int| {
                    &&& 0 <= x < members.len()
                    &&& (#[trigger] members[x]).name@ == rest[j].0@
                    &&& forall|y: int| 0 <= y < x ==> (#[trigger] members[y]).name@ != rest[j].0@
                    &&& same_json_text(members[x].json@, rest[j].1@)
                } by {
                    assert(rest[j] == fields[j]);
                }
                assert(fields[fields.len() - 1] == last);
            }
            if holds_fields(members, rest) && exists|x: int| {
                &&& 0 <= x < members.len()
                &&& (#[trigger] members[x]).name@ == last.0@
                &&& forall|y: int| 0 <= y < x ==> (#[trigger] members[y]).name@ != last.0@
                &&& same_json_text(members[x].json@, last.1@)
            } {
                assert forall|j: int| #![trigger fields[j]] 0 <= j < fields.len() implies exists|x: int| {
                    &&& 0 <= x < members.len()
                    &&& (#[trigger] members[x]).name@ == fields[j].0@
                    &&& forall|y: int| 0 <= y < x ==> (#[trigger] members[y]).name@ != fields[j].0@
                    &&& same_json_text(members[x].json@, fields[j].1@)
                } by {
                    if j < rest.len() {
                        assert(rest[j] == fields[j]);
                    }
                }
            }
        }
        if let Some(m) = member_named(members, last.0@) {
            let x = choose|x: int| {
                &&& 0 <= x < members.len()
                &&& (#[trigger] members[x]) == m
                &&& m.name@ == last.0@
                &&& forall|y: int| 0 <= y < x ==> (#[trigger] members[y]).name@ != last.0@
            };
            if exists|z: int| {
                &&& 0 <= z < members.len()
                &&& (#[trigger] members[z]).name@ == last.0@
                &&& forall|y: int| 0 <= y < z ==> (#[trigger] members[y]).name@ != last.0@
                &&& same_json_text(members[z].json@, last.1@)
            } {
                let z = choose|z: int| {
                    &&& 0 <= z < members.len()
                    &&& (#[trigger] members[z]).name@ == last.0@
                    &&& forall|y: int| 0 <= y < z ==> (#[trigger] members[y]).name@ != last.0@
                    &&& same_json_text(members[z].json@, last.1@)
                };
                if z < x {
                    assert(members[z].name@ != last.0@);
                } else if x < z {
                    assert(members[x].name@ != last.0@);
                }
            }
        }
    }
}

proof fn lemma_frames_hold(
    result_id: Seq<char>,
    rule: WireConformanceFramePayloadInvariant,
    frames: Seq<WireConformanceObservedFrame>,
)
    ensures
        observed_frames_problem(result_id, rule, frames) is None <==> forall|k: int|
            0 <= k < frames.len() && ruled_frame(rule, #[trigger] frames[k]) ==> (frames[k].payload matches Some(ms)
                && holds_fields(ms@, rule.fields@)),
    decreases frames.len(),
{
    if frames.len() > 0 {
        let rest = frames.drop_last();
        lemma_frames_hold(result_id, rule, rest);
        let last = frames.last();
        assert(last == frames[frames.len() - 1]);
        match last.payload {
            Some(ms) => {
                lemma_fields_hold(result_id, rule.frame@, ms@, rule.fields@);
            },
            None => {},
        }
        assert(rule_applies(rule, last) == ruled_frame(rule, last));
        if forall|k: int| 0 <= k < frames.len() && ruled_frame(rule, #[trigger] frames[k]) ==> (frames[k].payload matches Some(
            ms,
        ) && holds_fields(ms@, rule.fields@)) {
            assert forall|k: int| 0 <= k < rest.len() && ruled_frame(rule, #[trigger] rest[k]) implies (rest[k].payload matches Some(
                ms,
            ) && holds_fields(ms@, rule.fields@)) by {
                assert(rest[k] == frames[k]);
            }
        }
        if observed_frames_problem(result_id, rule, frames) is None {
            assert forall|k: int| 0 <= k < frames.len() && ruled_frame(rule, #[trigger] frames[k]) implies (frames[k].payload matches Some(
                ms,
            ) && holds_fields(ms@, rule.fields@)) by {
                if k < rest.len() {
                    assert(rest[k] == frames[k]);
                }
            }
        }
    }
}

/// What a payload rule asks of the observed frames: at least one frame of
/// the rule's kind, in its direction where it names one, and every such
/// frame carries an object payload whose first member of each required name
/// holds the required value. Frames of another kind or direction are not
/// read.
pub proof fn law_payload_rule_outcome(
    result_id: Seq<char>,
    rule: WireConformanceFramePayloadInvariant,
    frames: Seq<WireConformanceObservedFrame>,
)
    ensures
        payload_rule_result_problem(result_id, rule, frames) is None <==> {
            &&& exists|k: int| 0 <= k < frames.len() && ruled_frame(rule, #[trigger] frames[k])
            &&& forall|k: int| 0 <= k < frames.len() && ruled_frame(rule, #[trigger] frames[k]) ==> (
            frames[k].payload matches Some(ms) && holds_fields(ms@, rule.fields@))
        },
{
    lemma_frames_hold(result_id, rule, frames);
    assert forall|k: int| 0 <= k < frames.len() implies rule_applies(rule, #[trigger] frames[k]) == ruled_frame(
        rule,
        frames[k],
    ) by {}
}

/// Every line of a plan report names its case and says how the case was
/// selected: `selected` for a mandatory or optional case whose required
/// capabilities are all declared, `not_claimed` for one with some required
/// capability undeclared, and `informational` for an experimental or
/// deprecated case; without a capability manifest nothing is declared.
pub proof fn law_report_lines_follow_status_and_claims(
    report: ConformanceReport,
    protocol_manifest: ProtocolManifest,
    cases: Seq<CaseDefinition>,
    capability_manifest: Option<&CapabilityManifest>,
)
    requires
        plans_cases(report, protocol_manifest, cases, capability_manifest),
    ensures
        report.cases@.len() == cases.len(),
        forall|i: int| 0 <= i < cases.len() ==> {
            let line = #[trigger] report.cases@[i];
            let case = cases[i];
            let declared = texts(declared_of(capability_manifest));
            let claimed = forall|m: int| 0 <= m < case.required_capabilities@.len() ==> declared.contains(
                (#[trigger] case.required_capabilities@[m])@,
            );
            &&& line.id@ == case.id@
            &&& line.status == Some(case.status)
            &&& (case.status == CaseStatus::Mandatory || case.status == CaseStatus::Optional) ==> (line.selection@ == if claimed {
                "selected"@
            } else {
                "not_claimed"@
            })
            &&& (case.status == CaseStatus::Experimental || case.status == CaseStatus::Deprecated) ==> line.selection@
                == "informational"@
        },
{
    assert forall|i: int| 0 <= i < cases.len() implies {
        let line = #[trigger] report.cases@[i];
        let case = cases[i];
        let declared = texts(declared_of(capability_manifest));
        let claimed = forall|m: int| 0 <= m < case.required_capabilities@.len() ==> declared.contains(
            (#[trigger] case.required_capabilities@[m])@,
        );
        &&& line.id@ == case.id@
        &&& line.status == Some(case.status)
        &&& (case.status == CaseStatus::Mandatory || case.status == CaseStatus::Optional) ==> (line.selection@ == if claimed {
            "selected"@
        } else {
            "not_claimed"@
        })
        &&& (case.status == CaseStatus::Experimental || case.status == CaseStatus::Deprecated) ==> line.selection@
            == "informational"@
    } by {
        assert(crate::plan::report_case_matches(report.cases@[i], cases[i], declared_of(capability_manifest)));
    }
}

/// The `i`-th extension name an API request's NNRP options list, where
/// that item is a string.
pub open spec fn listed_extension(request: crate::fixtures::ApiProfileRecipeRequest, i: int) -> Option<Seq<char>> {
    match request.nnrp {
        Some(nnrp) => match json_get(nnrp, "extensions"@) {
            Some(JsonValue::Array(items)) => if 0 <= i < items@.len() {
                match items@[i] {
                    JsonValue::Text(name) => Some(name@),
                    _ => None,
                }
            } else {
                None
            },
            _ => None,
        },
        None => None,
    }
}

/// The capabilities an API recipe requires. A recipe that lists some
/// requires exactly those. Otherwise it requires `api.` and its operation;
/// `api.streaming` where its body's `stream` member is `true`, else
/// `api.non_streaming`; `api.tool_calls` where its body's `tools` member is
/// a non-empty array; `api.cancellation` where its NNRP options carry an
/// unsigned `cancel_after_events`; `api.extension.` and each extension name
/// its NNRP options list; and nothing else.
pub proof fn law_recipe_capabilities(recipe: ApiProfileRecipe, token: Seq<char>)
    ensures
        recipe.required_capabilities@.len() > 0 ==> (recipe_requires(recipe, token) <==> exists|i: int|
            0 <= i < recipe.required_capabilities@.len() && (#[trigger] recipe.required_capabilities@[i])@ == token),
        recipe.required_capabilities@.len() == 0 ==> (recipe_requires(recipe, token) <==> {
            let body = recipe.request.body;
            let streams = json_get(body, "stream"@) == Some(JsonValue::Bool(true));
            ||| token == "api."@ + recipe.operation@
            ||| streams && token == "api.streaming"@
            ||| !streams && token == "api.non_streaming"@
            ||| (json_get(body, "tools"@) matches Some(JsonValue::Array(items)) && items@.len() > 0) && token
                == "api.tool_calls"@
            ||| (recipe.request.nnrp matches Some(nnrp) && json_get(nnrp, "cancel_after_events"@) matches Some(
                JsonValue::Number(count),
            ) && json_u64(count@) is Some) && token == "api.cancellation"@
            ||| exists|i: int| #![trigger listed_extension(recipe.request, i)]
                (listed_extension(recipe.request, i) matches Some(name) && token == "api.extension."@ + name)
        }),
{
    let listed = texts(recipe.required_capabilities@);
    assert forall|i: int| 0 <= i < recipe.required_capabilities@.len() implies listed[i] == (
    #[trigger] recipe.required_capabilities@[i])@ by {}
    if recipe_requires(recipe, token) && recipe.required_capabilities@.len() > 0 {
        let i = choose|i: int| 0 <= i < listed.len() && listed[i] == token;
        assert(recipe.required_capabilities@[i]@ == token);
    }
    if recipe.required_capabilities@.len() == 0 {
        if exists|i: int| #![trigger listed_extension(recipe.request, i)]
            (listed_extension(recipe.request, i) matches Some(name) && token == "api.extension."@ + name) {
            let i = choose|i: int| #![trigger listed_extension(recipe.request, i)]
                (listed_extension(recipe.request, i) matches Some(name) && token == "api.extension."@ + name);
            let n = listed_extension(recipe.request, i)->0;
            let items = json_get(recipe.request.nnrp->0, "extensions"@)->0->Array_0;
            assert(crate::api_profile::text_item(items@[i], n));
            assert(crate::api_profile::nnrp_lists_extension(recipe.request, n));
        }
        if exists|name: Seq<char>| #[trigger] crate::api_profile::nnrp_lists_extension(recipe.request, name)
            && token == "api.extension."@ + name {
            let name = choose|name: Seq<char>| #[trigger] crate::api_profile::nnrp_lists_extension(recipe.request, name)
                && token == "api.extension."@ + name;
            let items = json_get(recipe.request.nnrp->0, "extensions"@)->0->Array_0;
            let i = choose|i: int| 0 <= i < items@.len() && #[trigger] crate::api_profile::text_item(items@[i], name);
            assert(listed_extension(recipe.request, i) == Some(name));
        }
    }
}

/// A result reported as passed is accepted against its planned case exactly
/// when it ends in the planned terminal, its events meet the expected ones,
/// and, ending in Error or Cancelled, it observed a `response.error` or a
/// `response.cancelled` event.
pub proof fn law_passed_api_result_outcome(
    case: crate::fixtures::ApiProfileExecutionCase,
    result: crate::fixtures::ApiProfileCaseResult,
)
    ensures
        passed_api_problem(case, result) is None <==> {
            &&& result.terminal == case.expect.terminal
            &&& events_check(result.id@, case.expect.events@, result.events@).0 is None
            &&& result.terminal == ApiProfileTerminal::Error ==> exists|k: int|
                0 <= k < result.events@.len() && (#[trigger] result.events@[k]).event_type@ == "response.error"@
            &&& result.terminal == ApiProfileTerminal::Cancelled ==> exists|k: int|
                0 <= k < result.events@.len() && (#[trigger] result.events@[k]).event_type@ == "response.cancelled"@
        },
{
    law_terminal_needs_its_event(result.id@, result.terminal, result.events@);
}

/// How often an expected event must occur at least: the count it gives;
/// without one, once, or not at all for an optional event.
pub open spec fn least_count(event: crate::fixtures::ApiProfileExpectedEvent) -> int {
    match event.min_count {
        Some(n) => n as int,
        None => if event.optional {
            0
        } else {
            1
        },
    }
}

/// An observed event carries what an expected one asks of its fields: for
/// an object of expected fields, every member is present and contains the
/// expected value.
pub open spec fn carries_fields(
    expected: crate::fixtures::ApiProfileExpectedEvent,
    actual: ApiProfileObservedEvent,
) -> bool {
    expected.fields matches Some(JsonValue::Object(members)) ==> forall|m: int| #![trigger members@[m]]
        0 <= m < members@.len() ==> (member_value(actual.fields@, members@[m].0@) matches Some(v) && json_contains(
            v,
            members@[m].1,
        ))
}

/// The expected events that must occur are found at increasing positions,
/// below `bound`, each of its type and carrying its fields.
pub open spec fn found_in_order(
    expected: Seq<crate::fixtures::ApiProfileExpectedEvent>,
    actual: Seq<ApiProfileObservedEvent>,
    pos: Seq<int>,
    bound: int,
) -> bool {
    &&& pos.len() == expected.len()
    &&& forall|j: int| #![trigger pos[j]]
        0 <= j < expected.len() && least_count(expected[j]) > 0 ==> {
            &&& 0 <= pos[j] < bound
            &&& actual[pos[j]].event_type@ == expected[j].event_type@
            &&& carries_fields(expected[j], actual[pos[j]])
        }
    &&& forall|a: int, b: int| #![trigger pos[a], pos[b]]
        0 <= a < b < expected.len() && least_count(expected[a]) > 0 && least_count(expected[b]) > 0 ==> pos[a]
            < pos[b]
}

proof fn lemma_first_event(actual: Seq<ApiProfileObservedEvent>, event_type: Seq<char>, from: int)
    requires
        0 <= from,
    ensures
        first_event_from(actual, event_type, from) matches Some(k) ==> from <= k < actual.len()
            && actual[k].event_type@ == event_type,
    decreases actual.len() - from,
{
    if from < actual.len() && actual[from].event_type@ != event_type {
        lemma_first_event(actual, event_type, from + 1);
    }
}

proof fn lemma_fields_carried(
    case_id: Seq<char>,
    event_type: Seq<char>,
    members: Seq<(String, JsonValue)>,
    fields: Seq<(String, JsonValue)>,
)
    requires
        fields_problem(case_id, event_type, members, fields) is None,
    ensures
        forall|m: int| #![trigger members[m]]
            0 <= m < members.len() ==> (member_value(fields, members[m].0@) matches Some(v) && json_contains(v, members[m].1)),
    decreases members.len(),
{
    if members.len() > 0 {
        lemma_fields_carried(case_id, event_type, members.drop_last(), fields);
        assert forall|m: int| #![trigger members[m]] 0 <= m < members.len() implies (member_value(fields, members[m].0@) matches Some(
            v,
        ) && json_contains(v, members[m].1)) by {
            if m < members.len() - 1 {
                assert(members.drop_last()[m] == members[m]);
            }
        }
    }
}

proof fn lemma_events_found(
    case_id: Seq<char>,
    expected: Seq<crate::fixtures::ApiProfileExpectedEvent>,
    actual: Seq<ApiProfileObservedEvent>,
)
    requires
        events_check(case_id, expected, actual).0 is None,
    ensures
        0 <= events_check(case_id, expected, actual).1 <= actual.len(),
        forall|j: int| 0 <= j < expected.len() ==> event_count(actual, (#[trigger] expected[j]).event_type@) >= least_count(
            expected[j],
        ),
        exists|pos: Seq<int>| found_in_order(expected, actual, pos, events_check(case_id, expected, actual).1),
    decreases expected.len(),
{
    if expected.len() == 0 {
        assert(found_in_order(expected, actual, Seq::<int>::empty(), 0));
    } else {
        let rest = expected.drop_last();
        let e = expected.last();
        assert(e == expected[expected.len() - 1]);
        lemma_events_found(case_id, rest, actual);
        let cursor = events_check(case_id, rest, actual).1;
        let pos = choose|pos: Seq<int>| found_in_order(rest, actual, pos, cursor);
        let next = events_check(case_id, expected, actual).1;
        assert forall|j: int| 0 <= j < expected.len() implies event_count(actual, (#[trigger] expected[j]).event_type@)
            >= least_count(expected[j]) by {
            if j < rest.len() {
                assert(rest[j] == expected[j]);
            }
        }
        lemma_first_event(actual, e.event_type@, cursor);
        let k = if least_count(e) > 0 {
            first_event_from(actual, e.event_type@, cursor)->0
        } else {
            0
        };
        let pos2 = pos.push(k);
        if least_count(e) > 0 {
            assert(next == k + 1);
            match e.fields {
                Some(JsonValue::Object(members)) => {
                    assert(event_fields_problem(case_id, e, actual[k]) is None);
                    lemma_fields_carried(case_id, e.event_type@, members@, actual[k].fields@);
                },
                _ => {},
            }
        }
        assert forall|j: int| #![trigger pos2[j]]
            0 <= j < expected.len() && least_count(expected[j]) > 0 implies {
            &&& 0 <= pos2[j] < next
            &&& actual[pos2[j]].event_type@ == expected[j].event_type@
            &&& carries_fields(expected[j], actual[pos2[j]])
        } by {
            if j < rest.len() {
                assert(rest[j] == expected[j]);
                assert(pos2[j] == pos[j]);
                assert(least_count(rest[j]) > 0);
                assert(0 <= pos[j] < cursor);
            }
        }
        assert forall|a: int, b: int| #![trigger pos2[a], pos2[b]]
            0 <= a < b < expected.len() && least_count(expected[a]) > 0 && least_count(expected[b]) > 0 implies pos2[a]
            < pos2[b] by {
            assert(rest[a] == expected[a]);
            assert(pos2[a] == pos[a]);
            assert(least_count(rest[a]) > 0);
            assert(pos[a] < cursor);
            if b < rest.len() {
                assert(rest[b] == expected[b]);
                assert(pos2[b] == pos[b]);
                assert(least_count(rest[b]) > 0);
            }
        }
        assert(found_in_order(expected, actual, pos2, next));
    }
}

/// What accepted events show: each expected event occurs at least as often
/// as it must (its `min_count`, else once unless it is optional), and the
/// events that must occur are found in the expected order, one after the
/// other, each carrying the fields it asks for.
pub proof fn law_accepted_events_occur_in_order(
    case_id: Seq<char>,
    expected: Seq<crate::fixtures::ApiProfileExpectedEvent>,
    actual: Seq<ApiProfileObservedEvent>,
)
    requires
        events_check(case_id, expected, actual).0 is None,
    ensures
        forall|j: int| 0 <= j < expected.len() ==> event_count(actual, (#[trigger] expected[j]).event_type@) >= least_count(
            expected[j],
        ),
        exists|pos: Seq<int>| found_in_order(expected, actual, pos, actual.len() as int),
{
    lemma_events_found(case_id, expected, actual);
    let pos = choose|pos: Seq<int>| found_in_order(expected, actual, pos, events_check(case_id, expected, actual).1);
    assert(found_in_order(expected, actual, pos, actual.len() as int));
}

proof fn lemma_counts_match_lines(
    lines: Seq<crate::fixtures::ReportCase>,
    cases: Seq<CaseDefinition>,
    declared: Seq<String>,
    selection: CaseSelection,
)
    requires
        lines.len() == cases.len(),
        forall|i: int| 0 <= i < cases.len() ==> crate::plan::report_case_matches(#[trigger] lines[i], cases[i], declared),
    ensures
        count_selection(cases, declared, None, selection) == count_where(
            lines,
            |l: crate::fixtures::ReportCase| l.selection@ == selection.text(),
        ),
    decreases cases.len(),
{
    if cases.len() > 0 {
        let lr = lines.drop_last();
        let cr = cases.drop_last();
        assert forall|i: int| 0 <= i < cr.len() implies crate::plan::report_case_matches(#[trigger] lr[i], cr[i], declared) by {
            assert(lr[i] == lines[i] && cr[i] == cases[i]);
        }
        lemma_counts_match_lines(lr, cr, declared, selection);
        assert(crate::plan::report_case_matches(lines[lines.len() - 1], cases[cases.len() - 1], declared));
        reveal_strlit("selected");
        reveal_strlit("not_claimed");
        reveal_strlit("informational");
        assert("selected"@.len() == 8 && "not_claimed"@.len() == 11 && "informational"@.len() == 13);
        assert(CaseSelection::Selected.text() != CaseSelection::NotClaimed.text());
        assert(CaseSelection::Selected.text() != CaseSelection::Informational.text());
        assert(CaseSelection::NotClaimed.text() != CaseSelection::Informational.text());
        assert(case_selection(cases.last(), declared).text() == selection.text() <==> case_selection(cases.last(), declared)
            == selection);
    }
}

/// The totals of a plan report count its lines: as many selected,
/// not-claimed and informational cases as lines that say `selected`,
/// `not_claimed` and `informational`.
pub proof fn law_report_totals_count_its_lines(
    report: ConformanceReport,
    protocol_manifest: ProtocolManifest,
    cases: Seq<CaseDefinition>,
    capability_manifest: Option<&CapabilityManifest>,
)
    requires
        plans_cases(report, protocol_manifest, cases, capability_manifest),
    ensures
        report.summary.selected_cases == count_where(
            report.cases@,
            |l: crate::fixtures::ReportCase| l.selection@ == "selected"@,
        ),
        report.summary.not_claimed_cases == count_where(
            report.cases@,
            |l: crate::fixtures::ReportCase| l.selection@ == "not_claimed"@,
        ),
        report.summary.informational_cases == count_where(
            report.cases@,
            |l: crate::fixtures::ReportCase| l.selection@ == "informational"@,
        ),
{
    let declared = declared_of(capability_manifest);
    lemma_counts_match_lines(report.cases@, cases, declared, CaseSelection::Selected);
    lemma_counts_match_lines(report.cases@, cases, declared, CaseSelection::NotClaimed);
    lemma_counts_match_lines(report.cases@, cases, declared, CaseSelection::Informational);
    assert((|l: crate::fixtures::ReportCase| l.selection@ == CaseSelection::Selected.text()) =~= (|l: crate::fixtures::ReportCase|
        l.selection@ == "selected"@));
    assert((|l: crate::fixtures::ReportCase| l.selection@ == CaseSelection::NotClaimed.text()) =~= (|l: crate::fixtures::ReportCase|
        l.selection@ == "not_claimed"@));
    assert((|l: crate::fixtures::ReportCase| l.selection@ == CaseSelection::Informational.text()) =~= (|l: crate::fixtures::ReportCase|
        l.selection@ == "informational"@));
}

} // verus!
