use vstd::prelude::*;

use crate::fixtures::{WireConformanceCaseResult, WireConformanceExecutionPlan, WireConformanceObservedFrame, WireConformanceScenario};
use crate::sorted_text::texts;
use crate::validation_laws::{holds_fields, law_payload_rule_outcome, ruled_frame};
use crate::wire_evidence::route_evidence_problem;
use crate::wire_frames::{
    drop_reason_problem, json_u64, member_named, observed_drop_codes, payload_rule_result_problem,
    payload_rules_result_problem,
};
use crate::wire_results::{first_position, first_unexpected_frame, frame_order_problem, passed_result_problem};

verus! {

/// The required frames appear among the observed ones in their order, from
/// the `j`-th required frame on, at positions not before `cursor`.
pub open spec fn ordered_from(
    required: Seq<Seq<char>>,
    observed: Seq<WireConformanceObservedFrame>,
    j: int,
    cursor: int,
) -> bool {
    exists|pos: Seq<int>| {
        &&& pos.len() == required.len() - j
        &&& forall|i: int| #![trigger pos[i]]
            0 <= i < pos.len() ==> {
                &&& cursor <= pos[i] < observed.len()
                &&& observed[pos[i]].frame@ == required[j + i]
                &&& (i > 0 ==> pos[i - 1] < pos[i])
            }
    }
}

proof fn lemma_first_position(observed: Seq<WireConformanceObservedFrame>, from: int, frame: Seq<char>)
    requires
        0 <= from,
    ensures
        first_position(observed, from, frame) matches Some(p) ==> from <= p < observed.len() && observed[p].frame@ == frame
            && forall|q: int| from <= q < p ==> (#[trigger] observed[q]).frame@ != frame,
        first_position(observed, from, frame) is None ==> forall|q: int| from <= q < observed.len() ==> (
        #[trigger] observed[q]).frame@ != frame,
    decreases observed.len() - from,
{
    if from < observed.len() && observed[from].frame@ != frame {
        lemma_first_position(observed, from + 1, frame);
    }
}

proof fn lemma_frame_order(required: Seq<Seq<char>>, observed: Seq<WireConformanceObservedFrame>, j: int, cursor: int)
    requires
        0 <= j <= required.len(),
        0 <= cursor,
    ensures
        frame_order_problem(required, observed, j, cursor) is None <==> ordered_from(required, observed, j, cursor),
    decreases required.len() - j,
{
    if j == required.len() {
        let pos = Seq::<int>::empty();
        assert(pos.len() == required.len() - j);
    } else {
        lemma_first_position(observed, cursor, required[j]);
        match first_position(observed, cursor, required[j]) {
            None => {
                if ordered_from(required, observed, j, cursor) {
                    let pos = choose|pos: Seq<int>| {
                        &&& pos.len() == required.len() - j
                        &&& forall|i: int| #![trigger pos[i]]
                            0 <= i < pos.len() ==> {
                                &&& cursor <= pos[i] < observed.len()
                                &&& observed[pos[i]].frame@ == required[j + i]
                                &&& (i > 0 ==> pos[i - 1] < pos[i])
                            }
                    };
                    assert(observed[pos[0]].frame@ == required[j]);
                }
            },
            Some(p) => {
                lemma_frame_order(required, observed, j + 1, p + 1);
                if ordered_from(required, observed, j + 1, p + 1) {
                    let rest = choose|pos: Seq<int>| {
                        &&& pos.len() == required.len() - (j + 1)
                        &&& forall|i: int| #![trigger pos[i]]
                            0 <= i < pos.len() ==> {
                                &&& p + 1 <= pos[i] < observed.len()
                                &&& observed[pos[i]].frame@ == required[j + 1 + i]
                                &&& (i > 0 ==> pos[i - 1] < pos[i])
                            }
                    };
                    let pos = seq![p] + rest;
                    assert forall|i: int| #![trigger pos[i]] 0 <= i < pos.len() implies {
                        &&& cursor <= pos[i] < observed.len()
                        &&& observed[pos[i]].frame@ == required[j + i]
                        &&& (i > 0 ==> pos[i - 1] < pos[i])
                    } by {
                        if i > 0 {
                            assert(pos[i] == rest[i - 1]);
                            if i > 1 {
                                assert(pos[i - 1] == rest[i - 2]);
                            }
                        }
                    }
                    assert(pos.len() == required.len() - j);
                }
                if ordered_from(required, observed, j, cursor) {
                    let pos = choose|pos: Seq<int>| {
                        &&& pos.len() == required.len() - j
                        &&& forall|i: int| #![trigger pos[i]]
                            0 <= i < pos.len() ==> {
                                &&& cursor <= pos[i] < observed.len()
                                &&& observed[pos[i]].frame@ == required[j + i]
                                &&& (i > 0 ==> pos[i - 1] < pos[i])
                            }
                    };
                    assert(observed[pos[0]].frame@ == required[j]);
                    assert(pos[0] >= p);
                    let rest = pos.drop_first();
                    assert forall|i: int| #![trigger rest[i]] 0 <= i < rest.len() implies {
                        &&& p + 1 <= rest[i] < observed.len()
                        &&& observed[rest[i]].frame@ == required[j + 1 + i]
                        &&& (i > 0 ==> rest[i - 1] < rest[i])
                    } by {
                        assert(rest[i] == pos[i + 1]);
                        assert(pos[i] < pos[i + 1]);
                        if i > 0 {
                            assert(rest[i - 1] == pos[i]);
                        }
                        lemma_increasing_from(pos, i + 1);
                    }
                    assert(rest.len() == required.len() - (j + 1));
                }
            },
        }
    }
}

proof fn lemma_increasing_from(pos: Seq<int>, i: int)
    requires
        0 < i < pos.len(),
        forall|k: int| #![trigger pos[k]] 0 < k < pos.len() ==> pos[k - 1] < pos[k],
    ensures
        pos[0] < pos[i],
    decreases i,
{
    assert(pos[i - 1] < pos[i]);
    if i > 1 {
        lemma_increasing_from(pos, i - 1);
    }
}

proof fn lemma_unexpected(observed: Seq<WireConformanceObservedFrame>, allowed: Seq<Seq<char>>)
    ensures
        first_unexpected_frame(observed, allowed) is None <==> forall|k: int| 0 <= k < observed.len() ==> allowed.contains(
            (#[trigger] observed[k]).frame@,
        ),
    decreases observed.len(),
{
    if observed.len() > 0 {
        let rest = observed.drop_first();
        lemma_unexpected(rest, allowed);
        if forall|k: int| 0 <= k < observed.len() ==> allowed.contains((#[trigger] observed[k]).frame@) {
            assert forall|k: int| 0 <= k < rest.len() implies allowed.contains((#[trigger] rest[k]).frame@) by {
                assert(rest[k] == observed[k + 1]);
            }
        }
        if first_unexpected_frame(observed, allowed) is None {
            assert forall|k: int| 0 <= k < observed.len() implies allowed.contains((#[trigger] observed[k]).frame@) by {
                if k > 0 {
                    assert(observed[k] == rest[k - 1]);
                }
            }
        }
    }
}

/// The code a `RESULT_DROP_REASON` frame carries: its payload's first
/// `drop_reason_code` member read as an unsigned integer.
pub open spec fn frame_drop_code(frame: WireConformanceObservedFrame) -> Option<u64> {
    match frame.payload {
        Some(members) => match member_named(members@, "drop_reason_code"@) {
            Some(m) => json_u64(m.json@),
            None => None,
        },
        None => None,
    }
}

proof fn lemma_drop_codes(frames: Seq<WireConformanceObservedFrame>, code: u64)
    ensures
        observed_drop_codes(frames).len() > 0 <==> exists|k: int| 0 <= k < frames.len() && (#[trigger] frames[k]).frame@
            == "RESULT_DROP_REASON"@,
        (forall|i: int| 0 <= i < observed_drop_codes(frames).len() ==> #[trigger] observed_drop_codes(frames)[i] == Some(
            code,
        )) <==> forall|k: int| 0 <= k < frames.len() && (#[trigger] frames[k]).frame@ == "RESULT_DROP_REASON"@
            ==> frame_drop_code(frames[k]) == Some(code),
    decreases frames.len(),
{
    if frames.len() > 0 {
        let rest = frames.drop_last();
        lemma_drop_codes(rest, code);
        let last = frames.last();
        assert(last == frames[frames.len() - 1]);
        let c = observed_drop_codes(frames);
        let r = observed_drop_codes(rest);
        assert forall|k: int| 0 <= k < rest.len() implies rest[k] == frames[k] by {}
        if last.frame@ == "RESULT_DROP_REASON"@ {
            assert(c =~= r.push(frame_drop_code(last)));
            if forall|i: int| 0 <= i < c.len() ==> #[trigger] c[i] == Some(code) {
                assert forall|i: int| 0 <= i < r.len() implies #[trigger] r[i] == Some(code) by {
                    assert(c[i] == r[i]);
                }
                assert(c[c.len() - 1] == Some(code));
            }
            if forall|k: int| 0 <= k < frames.len() && (#[trigger] frames[k]).frame@ == "RESULT_DROP_REASON"@ ==> frame_drop_code(
                frames[k],
            ) == Some(code) {
                assert forall|i: int| 0 <= i < c.len() implies #[trigger] c[i] == Some(code) by {
                    if i < r.len() {
                        assert(c[i] == r[i]);
                    }
                }
            }
        } else {
            assert(c == r);
        }
        if exists|k: int| 0 <= k < rest.len() && (#[trigger] rest[k]).frame@ == "RESULT_DROP_REASON"@ {
            let k = choose|k: int| 0 <= k < rest.len() && (#[trigger] rest[k]).frame@ == "RESULT_DROP_REASON"@;
            assert(frames[k] == rest[k]);
        }
        if exists|k: int| 0 <= k < frames.len() && (#[trigger] frames[k]).frame@ == "RESULT_DROP_REASON"@ {
            let k = choose|k: int| 0 <= k < frames.len() && (#[trigger] frames[k]).frame@ == "RESULT_DROP_REASON"@;
            if k < rest.len() {
                assert(rest[k] == frames[k]);
            }
        }
    }
}

proof fn lemma_rules(
    result_id: Seq<char>,
    rules: Seq<crate::fixtures::WireConformanceFramePayloadInvariant>,
    frames: Seq<WireConformanceObservedFrame>,
)
    ensures
        payload_rules_result_problem(result_id, rules, frames) is None <==> forall|r: int| 0 <= r < rules.len()
            ==> payload_rule_result_problem(result_id, #[trigger] rules[r], frames) is None,
    decreases rules.len(),
{
    if rules.len() > 0 {
        let rest = rules.drop_last();
        lemma_rules(result_id, rest, frames);
        assert forall|r: int| 0 <= r < rest.len() implies rest[r] == rules[r] by {}
        assert(rules.last() == rules[rules.len() - 1]);
    }
}

/// What a passed wire result must show to be accepted against its scenario:
/// the expected terminal; only allowed frames; the expected frames in their
/// order, each after the one before; for each payload rule, some frame it
/// speaks of, each such frame holding the required fields; where a drop
/// reason is expected, at least one `RESULT_DROP_REASON` frame, each
/// carrying that code; and route evidence that meets the scenario.
pub proof fn law_passed_wire_result_outcome(
    plan: WireConformanceExecutionPlan,
    scenario: WireConformanceScenario,
    result: WireConformanceCaseResult,
)
    ensures
        passed_result_problem(plan, scenario, result) is None <==> {
            let observed = result.observed_frames@;
            let rules = scenario.expect.frame_payload_invariants@;
            &&& result.terminal == scenario.expect.terminal
            &&& forall|k: int| 0 <= k < observed.len() ==> texts(scenario.expect.allowed_frames@).contains(
                (#[trigger] observed[k]).frame@,
            )
            &&& ordered_from(texts(scenario.expect.frames@), observed, 0, 0)
            &&& forall|r: int| 0 <= r < rules.len() ==> {
                &&& exists|k: int| 0 <= k < observed.len() && ruled_frame(#[trigger] rules[r], #[trigger] observed[k])
                &&& forall|k: int| 0 <= k < observed.len() && ruled_frame(#[trigger] rules[r], #[trigger] observed[k]) ==> (
                observed[k].payload matches Some(ms) && holds_fields(ms@, rules[r].fields@))
            }
            &&& scenario.expect.result_drop_reason_code matches Some(code) ==> {
                &&& exists|k: int| 0 <= k < observed.len() && (#[trigger] observed[k]).frame@ == "RESULT_DROP_REASON"@
                &&& forall|k: int| 0 <= k < observed.len() && (#[trigger] observed[k]).frame@ == "RESULT_DROP_REASON"@
                    ==> frame_drop_code(observed[k]) == Some(code as u64)
            }
            &&& route_evidence_problem(plan, scenario, result) is None
        },
{
    let observed = result.observed_frames@;
    let rules = scenario.expect.frame_payload_invariants@;
    lemma_unexpected(observed, texts(scenario.expect.allowed_frames@));
    lemma_frame_order(texts(scenario.expect.frames@), observed, 0, 0);
    lemma_rules(result.id@, rules, observed);
    assert forall|r: int| 0 <= r < rules.len() implies (payload_rule_result_problem(result.id@, #[trigger] rules[r], observed)
        is None <==> {
        &&& exists|k: int| 0 <= k < observed.len() && ruled_frame(rules[r], #[trigger] observed[k])
        &&& forall|k: int| 0 <= k < observed.len() && ruled_frame(rules[r], #[trigger] observed[k]) ==> (
        observed[k].payload matches Some(ms) && holds_fields(ms@, rules[r].fields@))
    }) by {
        law_payload_rule_outcome(result.id@, rules[r], observed);
    }
    match scenario.expect.result_drop_reason_code {
        Some(code) => {
            lemma_drop_codes(observed, code as u64);
        },
        None => {},
    }
}

} // verus!
