use vstd::prelude::*;

use crate::fixtures::{
    FixtureError, WireConformanceCaseResult, WireConformanceFramePayloadInvariant, WireConformanceObservedFrame,
    WireConformanceScenario, WirePayloadMember,
};
use crate::json_text::{json_texts_equal, same_json_text};
use crate::text::{decimal, push_decimal, push_text};

verus! {

/// An observed frame a payload rule applies to: the rule's frame, in the
/// rule's direction when it names one.
pub open spec fn rule_applies(rule: WireConformanceFramePayloadInvariant, frame: WireConformanceObservedFrame) -> bool {
    frame.frame@ == rule.frame@ && (rule.direction matches Some(d) ==> frame.direction == d)
}

/// The first member of a payload with this name.
pub open spec fn member_named(members: Seq<WirePayloadMember>, name: Seq<char>) -> Option<WirePayloadMember>
    decreases members.len(),
{
    if members.len() == 0 {
        None
    } else if members[0].name@ == name {
        Some(members[0])
    } else {
        member_named(members.drop_first(), name)
    }
}

/// A looked-up member as a report prints it.
pub open spec fn member_text(member: Option<WirePayloadMember>) -> Seq<char> {
    match member {
        Some(m) => "Some("@ + m.debug@ + ")"@,
        None => "None"@,
    }
}

/// The first required field, in order, that the payload lacks or holds with
/// another value (JSON texts compared as the values they denote): the
/// message that says so.
pub open spec fn payload_fields_problem(
    result_id: Seq<char>,
    frame: Seq<char>,
    members: Seq<WirePayloadMember>,
    fields: Seq<(String, String)>,
) -> Option<Seq<char>>
    decreases fields.len(),
{
    if fields.len() == 0 {
        None
    } else {
        let earlier = payload_fields_problem(result_id, frame, members, fields.drop_last());
        let (name, expected) = fields.last();
        let found = member_named(members, name@);
        if earlier is Some {
            earlier
        } else if found matches Some(m) && same_json_text(m.json@, expected@) {
            None
        } else {
            Some("wire scenario "@ + result_id + " frame "@ + frame + " payload field "@ + name@ + " mismatch: expected "@
                + expected@ + ", got "@ + member_text(found))
        }
    }
}

/// What is wrong with one observed frame under a rule: no object payload,
/// or a field that differs.
pub open spec fn observed_frame_problem(
    result_id: Seq<char>,
    rule: WireConformanceFramePayloadInvariant,
    frame: WireConformanceObservedFrame,
) -> Option<Seq<char>> {
    match frame.payload {
        None => Some("wire scenario "@ + result_id + " frame "@ + rule.frame@ + " has no object payload"@),
        Some(members) => payload_fields_problem(result_id, rule.frame@, members@, rule.fields@),
    }
}

/// The first observed frame, in order, that a rule applies to and that
/// breaks it: the message that says so.
pub open spec fn observed_frames_problem(
    result_id: Seq<char>,
    rule: WireConformanceFramePayloadInvariant,
    frames: Seq<WireConformanceObservedFrame>,
) -> Option<Seq<char>>
    decreases frames.len(),
{
    if frames.len() == 0 {
        None
    } else {
        let earlier = observed_frames_problem(result_id, rule, frames.drop_last());
        if earlier is Some {
            earlier
        } else if rule_applies(rule, frames.last()) {
            observed_frame_problem(result_id, rule, frames.last())
        } else {
            None
        }
    }
}

/// What is wrong with the observed frames under one rule: none it applies
/// to, or one that breaks it.
pub open spec fn payload_rule_result_problem(
    result_id: Seq<char>,
    rule: WireConformanceFramePayloadInvariant,
    frames: Seq<WireConformanceObservedFrame>,
) -> Option<Seq<char>> {
    if !exists|k: int| 0 <= k < frames.len() && rule_applies(rule, #[trigger] frames[k]) {
        Some("wire scenario "@ + result_id + " did not observe frame "@ + rule.frame@ + " for payload validation"@)
    } else {
        observed_frames_problem(result_id, rule, frames)
    }
}

/// The first payload rule, in order, that the observed frames break: the
/// message that says so.
pub open spec fn payload_rules_result_problem(
    result_id: Seq<char>,
    rules: Seq<WireConformanceFramePayloadInvariant>,
    frames: Seq<WireConformanceObservedFrame>,
) -> Option<Seq<char>>
    decreases rules.len(),
{
    if rules.len() == 0 {
        None
    } else {
        let earlier = payload_rules_result_problem(result_id, rules.drop_last(), frames);
        if earlier is Some {
            earlier
        } else {
            payload_rule_result_problem(result_id, rules.last(), frames)
        }
    }
}

fn find_member<'a>(members: &'a Vec<WirePayloadMember>, name: &String) -> (found: Option<&'a WirePayloadMember>)
    ensures
        match member_named(members@, name@) {
            Some(m) => found matches Some(f) && *f == m,
            None => found is None,
        },
{
    let mut k: usize = 0;
    assert(members@.skip(0) =~= members@);
    while k < members.len()
        invariant
            k <= members@.len(),
            member_named(members@, name@) == member_named(members@.skip(k as int), name@),
        decreases members@.len() - k,
    {
        assert(members@.skip(k as int)[0] == members@[k as int]);
        assert(members@.skip(k as int).drop_first() =~= members@.skip(k + 1));
        if members[k].name == *name {
            return Some(&members[k]);
        }
        k = k + 1;
    }
    assert(members@.skip(k as int).len() == 0);
    None
}

fn validation(message: String) -> (error: FixtureError)
    ensures
        error.is_validation(message@),
{
    FixtureError::Validation { message }
}

proof fn lemma_fields_problem_prefix(
    result_id: Seq<char>,
    frame: Seq<char>,
    members: Seq<WirePayloadMember>,
    fields: Seq<(String, String)>,
    n: int,
)
    requires
        0 <= n <= fields.len(),
        payload_fields_problem(result_id, frame, members, fields.take(n)) is Some,
    ensures
        payload_fields_problem(result_id, frame, members, fields) == payload_fields_problem(
            result_id,
            frame,
            members,
            fields.take(n),
        ),
    decreases fields.len() - n,
{
    if n < fields.len() {
        assert(fields.take(n + 1).drop_last() =~= fields.take(n));
        lemma_fields_problem_prefix(result_id, frame, members, fields, n + 1);
    } else {
        assert(fields.take(n) =~= fields);
    }
}

fn check_observed_frame(
    result: &WireConformanceCaseResult,
    rule: &WireConformanceFramePayloadInvariant,
    frame: &WireConformanceObservedFrame,
) -> (outcome: Result<(), FixtureError>)
    ensures
        match observed_frame_problem(result.id@, *rule, *frame) {
            Some(message) => outcome matches Err(e) && e.is_validation(message),
            None => outcome is Ok,
        },
{
    let members = match &frame.payload {
        None => {
            let mut message = String::new();
            push_text(&mut message, "wire scenario ");
            push_text(&mut message, result.id.as_str());
            push_text(&mut message, " frame ");
            push_text(&mut message, rule.frame.as_str());
            push_text(&mut message, " has no object payload");
            return Err(validation(message));
        },
        Some(members) => members,
    };
    let ghost rid = result.id@;
    let mut i: usize = 0;
    while i < rule.fields.len()
        invariant
            i <= rule.fields@.len(),
            rid == result.id@,
            frame.payload == Some(*members),
            payload_fields_problem(rid, rule.frame@, members@, rule.fields@.take(i as int)) is None,
        decreases rule.fields@.len() - i,
    {
        let (name, expected) = &rule.fields[i];
        let ghost next = rule.fields@.take(i + 1);
        assert(next.drop_last() =~= rule.fields@.take(i as int));
        assert(next.last() == rule.fields@[i as int]);
        assert(rule.fields@[i as int] == (*name, *expected));
        let found = find_member(members, name);
        let matches = match found {
            Some(m) => json_texts_equal(m.json.as_str(), expected.as_str()),
            None => false,
        };
        if !matches {
            let mut message = String::new();
            push_text(&mut message, "wire scenario ");
            push_text(&mut message, result.id.as_str());
            push_text(&mut message, " frame ");
            push_text(&mut message, rule.frame.as_str());
            push_text(&mut message, " payload field ");
            push_text(&mut message, name.as_str());
            push_text(&mut message, " mismatch: expected ");
            push_text(&mut message, expected.as_str());
            push_text(&mut message, ", got ");
            match found {
                Some(m) => {
                    push_text(&mut message, "Some(");
                    push_text(&mut message, m.debug.as_str());
                    push_text(&mut message, ")");
                },
                None => push_text(&mut message, "None"),
            }
            proof {
                assert(message@ =~= "wire scenario "@ + rid + " frame "@ + rule.frame@ + " payload field "@ + name@
                    + " mismatch: expected "@ + expected@ + ", got "@ + member_text(member_named(members@, name@)));
                assert(payload_fields_problem(rid, rule.frame@, members@, next) == Some(message@));
                lemma_fields_problem_prefix(rid, rule.frame@, members@, rule.fields@, i + 1);
            }
            return Err(validation(message));
        }
        i = i + 1;
    }
    assert(rule.fields@.take(i as int) =~= rule.fields@);
    Ok(())
}

proof fn lemma_frames_problem_prefix(
    result_id: Seq<char>,
    rule: WireConformanceFramePayloadInvariant,
    frames: Seq<WireConformanceObservedFrame>,
    n: int,
)
    requires
        0 <= n <= frames.len(),
        observed_frames_problem(result_id, rule, frames.take(n)) is Some,
    ensures
        observed_frames_problem(result_id, rule, frames) == observed_frames_problem(result_id, rule, frames.take(n)),
    decreases frames.len() - n,
{
    if n < frames.len() {
        assert(frames.take(n + 1).drop_last() =~= frames.take(n));
        lemma_frames_problem_prefix(result_id, rule, frames, n + 1);
    } else {
        assert(frames.take(n) =~= frames);
    }
}

fn check_payload_rule(
    result: &WireConformanceCaseResult,
    rule: &WireConformanceFramePayloadInvariant,
) -> (outcome: Result<(), FixtureError>)
    ensures
        match payload_rule_result_problem(result.id@, *rule, result.observed_frames@) {
            Some(message) => outcome matches Err(e) && e.is_validation(message),
            None => outcome is Ok,
        },
{
    let frames = &result.observed_frames;
    let ghost rid = result.id@;
    let mut any = false;
    let mut i: usize = 0;
    while i < frames.len()
        invariant
            i <= frames@.len(),
            rid == result.id@,
            *frames == result.observed_frames,
            any == exists|k: int| 0 <= k < i && rule_applies(*rule, #[trigger] frames@[k]),
            observed_frames_problem(rid, *rule, frames@.take(i as int)) is None,
        decreases frames@.len() - i,
    {
        let frame = &frames[i];
        let ghost next = frames@.take(i + 1);
        assert(next.drop_last() =~= frames@.take(i as int));
        assert(next.last() == *frame);
        let applies = frame.frame == rule.frame && match rule.direction {
            Some(d) => frame.direction == d,
            None => true,
        };
        if applies {
            assert(rule_applies(*rule, frames@[i as int]));
            match check_observed_frame(result, rule, frame) {
                Err(e) => {
                    proof {
                        lemma_frames_problem_prefix(rid, *rule, frames@, i + 1);
                        assert(exists|k: int| 0 <= k < frames@.len() && rule_applies(*rule, #[trigger] frames@[k]));
                    }
                    return Err(e);
                },
                Ok(()) => {},
            }
            any = true;
        }
        i = i + 1;
    }
    assert(frames@.take(i as int) =~= frames@);
    if !any {
        let mut message = String::new();
        push_text(&mut message, "wire scenario ");
        push_text(&mut message, result.id.as_str());
        push_text(&mut message, " did not observe frame ");
        push_text(&mut message, rule.frame.as_str());
        push_text(&mut message, " for payload validation");
        return Err(validation(message));
    }
    Ok(())
}

proof fn lemma_rules_problem_prefix(
    result_id: Seq<char>,
    rules: Seq<WireConformanceFramePayloadInvariant>,
    frames: Seq<WireConformanceObservedFrame>,
    n: int,
)
    requires
        0 <= n <= rules.len(),
        payload_rules_result_problem(result_id, rules.take(n), frames) is Some,
    ensures
        payload_rules_result_problem(result_id, rules, frames) == payload_rules_result_problem(result_id, rules.take(n), frames),
    decreases rules.len() - n,
{
    if n < rules.len() {
        assert(rules.take(n + 1).drop_last() =~= rules.take(n));
        lemma_rules_problem_prefix(result_id, rules, frames, n + 1);
    } else {
        assert(rules.take(n) =~= rules);
    }
}

/// Checks that every payload rule of a scenario applies to some observed
/// frame and that every frame it applies to carries the rule's fields.
pub fn validate_frame_payload_invariants(
    scenario: &WireConformanceScenario,
    result: &WireConformanceCaseResult,
) -> (outcome: Result<(), FixtureError>)
    ensures
        match payload_rules_result_problem(result.id@, scenario.expect.frame_payload_invariants@, result.observed_frames@) {
            Some(message) => outcome matches Err(e) && e.is_validation(message),
            None => outcome is Ok,
        },
{
    let rules = &scenario.expect.frame_payload_invariants;
    let mut i: usize = 0;
    while i < rules.len()
        invariant
            i <= rules@.len(),
            *rules == scenario.expect.frame_payload_invariants,
            payload_rules_result_problem(result.id@, rules@.take(i as int), result.observed_frames@) is None,
        decreases rules@.len() - i,
    {
        let ghost next = rules@.take(i + 1);
        assert(next.drop_last() =~= rules@.take(i as int));
        assert(next.last() == rules@[i as int]);
        match check_payload_rule(result, &rules[i]) {
            Err(e) => {
                proof {
                    lemma_rules_problem_prefix(result.id@, rules@, result.observed_frames@, i + 1);
                }
                return Err(e);
            },
            Ok(()) => {},
        }
        i = i + 1;
    }
    assert(rules@.take(i as int) =~= rules@);
    Ok(())
}

/// The value of a text of decimal digits; none for any other text.
pub open spec fn digits_value(text: Seq<char>) -> Option<nat>
    decreases text.len(),
{
    if text.len() == 0 {
        None
    } else {
        let c = text.last();
        if !('0' <= c && c <= '9') {
            None
        } else if text.len() == 1 {
            Some((c as nat - '0' as nat) as nat)
        } else {
            match digits_value(text.drop_last()) {
                Some(v) => Some(v * 10 + (c as nat - '0' as nat) as nat),
                None => None,
            }
        }
    }
}

/// A JSON number text read as an unsigned 64-bit integer, when it is one.
pub open spec fn json_u64(text: Seq<char>) -> Option<u64> {
    match digits_value(text) {
        Some(v) => if v <= u64::MAX {
            Some(v as u64)
        } else {
            None
        },
        None => None,
    }
}

/// Reads a JSON number text as an unsigned 64-bit integer.
pub fn parse_json_u64(text: &str) -> (value: Option<u64>)
    ensures
        value == json_u64(text@),
{
    let mut chars: Vec<char> = crate::text::chars_of(text);
    if chars.len() == 0 {
        return None;
    }
    let mut acc: u64 = 0;
    let mut i: usize = 0;
    while i < chars.len()
        invariant
            i <= chars@.len(),
            chars@ == text@,
            chars@.len() > 0,
            i > 0 ==> digits_value(chars@.take(i as int)) == Some(acc as nat),
            i == 0 ==> acc == 0,
        decreases chars@.len() - i,
    {
        let c = chars[i];
        let ghost prefix = chars@.take(i + 1);
        assert(prefix.drop_last() =~= chars@.take(i as int));
        assert(prefix.last() == c);
        if !('0' <= c && c <= '9') {
            proof {
                lemma_digits_prefix_none(chars@, i + 1);
            }
            return None;
        }
        let digit = (c as u32 - '0' as u32) as u64;
        assert(digit as nat == (c as nat - '0' as nat) as nat);
        proof {
            if i == 0 {
                assert(prefix.len() == 1);
                assert(digits_value(prefix) == Some(digit as nat));
            } else {
                assert(digits_value(prefix) == Some((acc as nat) * 10 + digit as nat));
            }
        }
        if acc > (u64::MAX - digit) / 10 {
            proof {
                assert((acc as nat) * 10 + digit as nat > u64::MAX) by (nonlinear_arith)
                    requires
                        acc > (u64::MAX - digit) / 10,
                        digit <= 9,
                ;
                if i == 0 {
                    assert(acc == 0);
                }
                lemma_digits_prefix_large(chars@, i + 1, (acc as nat) * 10 + digit as nat);
            }
            return None;
        }
        assert((acc as nat) * 10 + digit as nat <= u64::MAX) by (nonlinear_arith)
            requires
                acc <= (u64::MAX - digit) / 10,
                digit <= 9,
        ;
        acc = acc * 10 + digit;
        i = i + 1;
    }
    assert(chars@.take(i as int) =~= chars@);
    Some(acc)
}

proof fn lemma_digits_prefix_none(text: Seq<char>, n: int)
    requires
        0 < n <= text.len(),
        digits_value(text.take(n)) is None,
    ensures
        digits_value(text) is None,
    decreases text.len() - n,
{
    if n < text.len() {
        assert(text.take(n + 1).drop_last() =~= text.take(n));
        lemma_digits_prefix_none(text, n + 1);
    } else {
        assert(text.take(n) =~= text);
    }
}

proof fn lemma_digits_prefix_large(text: Seq<char>, n: int, v: nat)
    requires
        0 < n <= text.len(),
        digits_value(text.take(n)) == Some(v),
        v > u64::MAX,
    ensures
        match digits_value(text) {
            Some(w) => w > u64::MAX,
            None => true,
        },
    decreases text.len() - n,
{
    if n < text.len() {
        let next = text.take(n + 1);
        assert(next.drop_last() =~= text.take(n));
        match digits_value(next) {
            Some(w) => {
                assert(w >= v * 10) by (nonlinear_arith)
                    requires
                        w == v * 10 + (next.last() as nat - '0' as nat) as nat,
                ;
                assert(v * 10 >= v) by (nonlinear_arith);
                lemma_digits_prefix_large(text, n + 1, w);
            },
            None => {
                lemma_digits_prefix_none(text, n + 1);
            },
        }
    } else {
        assert(text.take(n) =~= text);
    }
}

/// The drop reason codes of the observed `RESULT_DROP_REASON` frames, in
/// order: each frame's `drop_reason_code` member read as an integer.
pub open spec fn observed_drop_codes(frames: Seq<WireConformanceObservedFrame>) -> Seq<Option<u64>>
    decreases frames.len(),
{
    if frames.len() == 0 {
        Seq::empty()
    } else if frames.last().frame@ == "RESULT_DROP_REASON"@ {
        observed_drop_codes(frames.drop_last()).push(
            match frames.last().payload {
                Some(members) => match member_named(members@, "drop_reason_code"@) {
                    Some(m) => json_u64(m.json@),
                    None => None,
                },
                None => None,
            },
        )
    } else {
        observed_drop_codes(frames.drop_last())
    }
}

/// An optional code as a report prints it.
pub open spec fn optional_code_text(code: Option<u64>) -> Seq<char> {
    match code {
        Some(c) => "Some("@ + decimal(c as nat) + ")"@,
        None => "None"@,
    }
}

/// A list of optional codes as a report prints it.
pub open spec fn codes_text_items(codes: Seq<Option<u64>>) -> Seq<char>
    decreases codes.len(),
{
    if codes.len() == 0 {
        Seq::empty()
    } else if codes.len() == 1 {
        optional_code_text(codes[0])
    } else {
        codes_text_items(codes.drop_last()) + ", "@ + optional_code_text(codes.last())
    }
}

/// What is wrong with the drop reasons a result observed: none observed, or
/// one that is not the expected code.
pub open spec fn drop_reason_problem(scenario: WireConformanceScenario, result: WireConformanceCaseResult) -> Option<Seq<char>> {
    match scenario.expect.result_drop_reason_code {
        None => None,
        Some(expected) => {
            let codes = observed_drop_codes(result.observed_frames@);
            if codes.len() == 0 || exists|k: int| 0 <= k < codes.len() && codes[k] != Some(expected as u64) {
                Some("wire scenario "@ + result.id@ + " result drop reason mismatch: expected "@ + decimal(expected as nat)
                    + ", got ["@ + codes_text_items(codes) + "]"@)
            } else {
                None
            }
        },
    }
}

fn push_optional_code(text: &mut String, code: Option<u64>)
    ensures
        final(text)@ == old(text)@ + optional_code_text(code),
{
    match code {
        Some(c) => {
            push_text(text, "Some(");
            push_decimal(text, c);
            push_text(text, ")");
        },
        None => push_text(text, "None"),
    }
}

/// Checks that a result observed at least one drop reason and only the
/// expected one, where the scenario expects one.
pub fn validate_result_drop_reason(
    scenario: &WireConformanceScenario,
    result: &WireConformanceCaseResult,
) -> (outcome: Result<(), FixtureError>)
    ensures
        match drop_reason_problem(*scenario, *result) {
            Some(message) => outcome matches Err(e) && e.is_validation(message),
            None => outcome is Ok,
        },
{
    let expected = match scenario.expect.result_drop_reason_code {
        None => {
            return Ok(());
        },
        Some(code) => code,
    };
    proof {
        reveal_strlit("RESULT_DROP_REASON");
        reveal_strlit("drop_reason_code");
    }
    let frames = &result.observed_frames;
    let marker = "RESULT_DROP_REASON".to_owned();
    let member = "drop_reason_code".to_owned();
    let mut codes: Vec<Option<u64>> = Vec::new();
    let mut i: usize = 0;
    while i < frames.len()
        invariant
            i <= frames@.len(),
            *frames == result.observed_frames,
            marker@ == "RESULT_DROP_REASON"@,
            member@ == "drop_reason_code"@,
            codes@ == observed_drop_codes(frames@.take(i as int)),
        decreases frames@.len() - i,
    {
        let frame = &frames[i];
        let ghost next = frames@.take(i + 1);
        assert(next.drop_last() =~= frames@.take(i as int));
        assert(next.last() == *frame);
        if frame.frame == marker {
            let code = match &frame.payload {
                Some(members) => match find_member(members, &member) {
                    Some(m) => parse_json_u64(m.json.as_str()),
                    None => None,
                },
                None => None,
            };
            codes.push(code);
        }
        i = i + 1;
    }
    assert(frames@.take(i as int) =~= frames@);
    let mut all_match = codes.len() > 0;
    let mut k: usize = 0;
    while k < codes.len()
        invariant
            k <= codes@.len(),
            all_match == (codes@.len() > 0 && forall|j: int| 0 <= j < k ==> codes@[j] == Some(expected as u64)),
        decreases codes@.len() - k,
    {
        if codes[k] != Some(expected as u64) {
            all_match = false;
        }
        k = k + 1;
    }
    if all_match {
        return Ok(());
    }
    let mut message = String::new();
    push_text(&mut message, "wire scenario ");
    push_text(&mut message, result.id.as_str());
    push_text(&mut message, " result drop reason mismatch: expected ");
    push_decimal(&mut message, expected as u64);
    push_text(&mut message, ", got [");
    let ghost head = message@;
    let mut j: usize = 0;
    while j < codes.len()
        invariant
            j <= codes@.len(),
            message@ == head + codes_text_items(codes@.take(j as int)),
        decreases codes@.len() - j,
    {
        if j > 0 {
            push_text(&mut message, ", ");
        }
        push_optional_code(&mut message, codes[j]);
        proof {
            let t = codes@.take(j + 1);
            assert(t.drop_last() =~= codes@.take(j as int));
            if j == 0 {
                assert(codes@.take(j as int).len() == 0);
                assert(codes_text_items(codes@.take(j as int)) =~= Seq::<char>::empty());
            }
        }
        j = j + 1;
    }
    assert(codes@.take(j as int) =~= codes@);
    push_text(&mut message, "]");
    Err(validation(message))
}

} // verus!
