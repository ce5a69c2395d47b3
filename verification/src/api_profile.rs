use vstd::prelude::*;

use crate::fixtures::{
    AdapterArtifactContext, ApiProfileCapabilityManifest, ApiProfileCaseOutcome, ApiProfileCaseResult,
    ApiProfileCaseResultReport, ApiProfileExecutionCase, ApiProfileExecutionPlan, ApiProfileExpectation,
    ApiProfileExpectedEvent, ApiProfileObservedEvent, ApiProfileRecipe, ApiProfileRecipeRequest, ApiProfileTerminal,
    CaseDefinition, CaseLayer, CaseStatus, FixtureError,
};
use crate::json_model::{
    copy_json, find_member, json_contains, json_get, json_member, json_same, json_value_contains, member_value,
    substitute_json_parameters, substituted, JsonValue,
};
use crate::results::{distinct_sorted, missing_count, ApiProfileValidationSummary};
use crate::plan::{build_compatibility_matrix, case_seq, claims_all_exec, matrix_matches};
use crate::profile_checks::{
    api_profile_declared_capabilities, declares_api_capability, terminal_event_problem, terminal_name,
    validate_api_terminal_event,
};
use crate::sorted_text::{insert_sorted_text, strictly_sorted, texts};
use crate::text::{decimal, opt_view, push_decimal, push_text};
use crate::wire_frames::{json_u64, parse_json_u64};

verus! {

fn validation(message: String) -> (error: FixtureError)
    ensures
        error.is_validation(message@),
{
    FixtureError::Validation { message }
}

/// What is wrong with one recipe for a capability manifest: another profile
/// or another schema version.
pub open spec fn recipe_alignment_problem(
    manifest: ApiProfileCapabilityManifest,
    recipe: ApiProfileRecipe,
) -> Option<Seq<char>> {
    if recipe.profile@ != manifest.profile@ {
        Some("api recipe "@ + recipe.id@ + " profile mismatch: expected "@ + manifest.profile@ + ", got "@
            + recipe.profile@)
    } else if recipe.schema_version@ != manifest.schema_version@ {
        Some("api recipe "@ + recipe.id@ + " schema version mismatch: expected "@ + manifest.schema_version@
            + ", got "@ + recipe.schema_version@)
    } else {
        None
    }
}

/// The first recipe, in order, that does not fit the manifest: its message.
pub open spec fn recipes_alignment_problem(
    manifest: ApiProfileCapabilityManifest,
    recipes: Seq<ApiProfileRecipe>,
) -> Option<Seq<char>>
    decreases recipes.len(),
{
    if recipes.len() == 0 {
        None
    } else {
        let earlier = recipes_alignment_problem(manifest, recipes.drop_last());
        if earlier is Some {
            earlier
        } else {
            recipe_alignment_problem(manifest, recipes.last())
        }
    }
}

/// Why a capability manifest and its recipes cannot be planned: a profile
/// or schema version other than `openai-compatible/1`, or a recipe of
/// another profile or version.
pub open spec fn api_alignment_problem(
    manifest: ApiProfileCapabilityManifest,
    recipes: Seq<ApiProfileRecipe>,
) -> Option<Seq<char>> {
    if manifest.profile@ != "openai-compatible"@ {
        Some("unsupported api profile: "@ + manifest.profile@)
    } else if manifest.schema_version@ != "openai-compatible/1"@ {
        Some("unsupported api profile schema version: "@ + manifest.schema_version@)
    } else {
        recipes_alignment_problem(manifest, recipes)
    }
}

fn pair_message(lead: &str, id: &String, middle: &str, expected: &String, actual: &String) -> (message: String)
    ensures
        message@ == lead@ + id@ + middle@ + expected@ + ", got "@ + actual@,
{
    let mut message = String::new();
    push_text(&mut message, lead);
    push_text(&mut message, id.as_str());
    push_text(&mut message, middle);
    push_text(&mut message, expected.as_str());
    push_text(&mut message, ", got ");
    push_text(&mut message, actual.as_str());
    message
}

proof fn lemma_alignment_prefix(manifest: ApiProfileCapabilityManifest, recipes: Seq<ApiProfileRecipe>, n: int)
    requires
        0 <= n <= recipes.len(),
        recipes_alignment_problem(manifest, recipes.take(n)) is Some,
    ensures
        recipes_alignment_problem(manifest, recipes) == recipes_alignment_problem(manifest, recipes.take(n)),
    decreases recipes.len() - n,
{
    if n < recipes.len() {
        assert(recipes.take(n + 1).drop_last() =~= recipes.take(n));
        lemma_alignment_prefix(manifest, recipes, n + 1);
    } else {
        assert(recipes.take(n) =~= recipes);
    }
}

/// Checks that the manifest is of the `openai-compatible/1` profile and
/// that every recipe belongs to it.
pub fn validate_api_profile_alignment(
    capability_manifest: &ApiProfileCapabilityManifest,
    recipes: &Vec<ApiProfileRecipe>,
) -> (result: Result<(), FixtureError>)
    ensures
        match api_alignment_problem(*capability_manifest, recipes@) {
            Some(message) => result matches Err(e) && e.is_validation(message),
            None => result is Ok,
        },
{
    let profile = "openai-compatible".to_owned();
    if capability_manifest.profile != profile {
        let mut message = String::new();
        push_text(&mut message, "unsupported api profile: ");
        push_text(&mut message, capability_manifest.profile.as_str());
        return Err(validation(message));
    }
    let schema_version = "openai-compatible/1".to_owned();
    if capability_manifest.schema_version != schema_version {
        let mut message = String::new();
        push_text(&mut message, "unsupported api profile schema version: ");
        push_text(&mut message, capability_manifest.schema_version.as_str());
        return Err(validation(message));
    }
    let mut i: usize = 0;
    assert(recipes@.take(0) =~= Seq::<ApiProfileRecipe>::empty());
    while i < recipes.len()
        invariant
            i <= recipes@.len(),
            capability_manifest.profile@ == "openai-compatible"@,
            capability_manifest.schema_version@ == "openai-compatible/1"@,
            recipes_alignment_problem(*capability_manifest, recipes@.take(i as int)) is None,
        decreases recipes@.len() - i,
    {
        let recipe = &recipes[i];
        assert(recipes@.take(i + 1).drop_last() =~= recipes@.take(i as int));
        assert(recipes@.take(i + 1).last() == *recipe);
        if recipe.profile != capability_manifest.profile {
            proof {
                lemma_alignment_prefix(*capability_manifest, recipes@, i + 1);
            }
            return Err(validation(pair_message(
                "api recipe ",
                &recipe.id,
                " profile mismatch: expected ",
                &capability_manifest.profile,
                &recipe.profile,
            )));
        }
        if recipe.schema_version != capability_manifest.schema_version {
            proof {
                lemma_alignment_prefix(*capability_manifest, recipes@, i + 1);
            }
            return Err(validation(pair_message(
                "api recipe ",
                &recipe.id,
                " schema version mismatch: expected ",
                &capability_manifest.schema_version,
                &recipe.schema_version,
            )));
        }
        i = i + 1;
    }
    assert(recipes@.take(i as int) =~= recipes@);
    Ok(())
}

/// The request body asks for a stream: its `stream` member is `true`.
pub open spec fn body_streams(request: ApiProfileRecipeRequest) -> bool {
    json_get(request.body, "stream"@) matches Some(JsonValue::Bool(b)) && b
}

/// The request body offers tools: its `tools` member is a non-empty array.
pub open spec fn body_has_tools(request: ApiProfileRecipeRequest) -> bool {
    json_get(request.body, "tools"@) matches Some(JsonValue::Array(items)) && items@.len() > 0
}

/// The NNRP options cancel the request: `cancel_after_events` is an
/// unsigned 64-bit count.
pub open spec fn nnrp_cancels(request: ApiProfileRecipeRequest) -> bool {
    request.nnrp matches Some(nnrp) && json_get(nnrp, "cancel_after_events"@) matches Some(JsonValue::Number(count))
        && json_u64(count@) is Some
}

/// The value is this string.
pub open spec fn text_item(value: JsonValue, text: Seq<char>) -> bool {
    value matches JsonValue::Text(s) && s@ == text
}

/// The NNRP options list this extension name among their `extensions`.
pub open spec fn nnrp_lists_extension(request: ApiProfileRecipeRequest, name: Seq<char>) -> bool {
    request.nnrp matches Some(nnrp) && json_get(nnrp, "extensions"@) matches Some(JsonValue::Array(items))
        && exists|i: int| 0 <= i < items@.len() && #[trigger] text_item(items@[i], name)
}

/// A capability a recipe requires: the ones it lists, where it lists any;
/// else its operation, streaming or not, tool calls where its body offers
/// tools, cancellation where its options cancel, and each extension its
/// options list.
pub open spec fn recipe_requires(recipe: ApiProfileRecipe, token: Seq<char>) -> bool {
    if recipe.required_capabilities@.len() > 0 {
        texts(recipe.required_capabilities@).contains(token)
    } else {
        ||| token == "api."@ + recipe.operation@
        ||| token == (if body_streams(recipe.request) {
            "api.streaming"@
        } else {
            "api.non_streaming"@
        })
        ||| body_has_tools(recipe.request) && token == "api.tool_calls"@
        ||| nnrp_cancels(recipe.request) && token == "api.cancellation"@
        ||| exists|name: Seq<char>| #[trigger] nnrp_lists_extension(recipe.request, name) && token == "api.extension."@
            + name
    }
}

fn add_token(tokens: &mut Vec<String>, token: String)
    requires
        strictly_sorted(texts(old(tokens)@)),
    ensures
        strictly_sorted(texts(final(tokens)@)),
        forall|t: Seq<char>| texts(final(tokens)@).contains(t) <==> (texts(old(tokens)@).contains(t) || t == token@),
{
    insert_sorted_text(tokens, token);
}

fn listed_capabilities(listed: &Vec<String>) -> (tokens: Vec<String>)
    ensures
        strictly_sorted(texts(tokens@)),
        forall|t: Seq<char>| texts(tokens@).contains(t) <==> texts(listed@).contains(t),
{
    let mut tokens: Vec<String> = Vec::new();
    let mut i: usize = 0;
    while i < listed.len()
        invariant
            i <= listed@.len(),
            strictly_sorted(texts(tokens@)),
            forall|t: Seq<char>| texts(tokens@).contains(t) <==> texts(listed@.take(i as int)).contains(t),
        decreases listed@.len() - i,
    {
        let ghost before = texts(tokens@);
        add_token(&mut tokens, listed[i].clone());
        proof {
            let was = texts(listed@.take(i as int));
            let now = texts(listed@.take(i + 1));
            assert(now =~= was.push(listed@[i as int]@));
            assert forall|t: Seq<char>| texts(tokens@).contains(t) <==> now.contains(t) by {
                assert(texts(tokens@).contains(t) <==> (before.contains(t) || t == listed@[i as int]@));
                assert(before.contains(t) <==> was.contains(t));
                if t == listed@[i as int]@ {
                    assert(now[i as int] == t);
                }
                if now.contains(t) {
                    let k = choose|k: int| 0 <= k < now.len() && now[k] == t;
                    if k < i {
                        assert(was[k] == t);
                    }
                }
                if was.contains(t) {
                    let k = choose|k: int| 0 <= k < was.len() && was[k] == t;
                    assert(now[k] == t);
                }
            }
        }
        i = i + 1;
    }
    assert(listed@.take(i as int) =~= listed@);
    tokens
}

fn add_extension_tokens(tokens: &mut Vec<String>, request: &ApiProfileRecipeRequest)
    requires
        strictly_sorted(texts(old(tokens)@)),
    ensures
        strictly_sorted(texts(final(tokens)@)),
        forall|t: Seq<char>| texts(final(tokens)@).contains(t) <==> (texts(old(tokens)@).contains(t) || exists|
            name: Seq<char>,
        | #[trigger] nnrp_lists_extension(*request, name) && t == "api.extension."@ + name),
{
    let ghost start = texts(tokens@);
    let nnrp = match &request.nnrp {
        Some(nnrp) => nnrp,
        None => {
            return;
        },
    };
    let key = "extensions".to_owned();
    let items = match json_member(nnrp, &key) {
        Some(JsonValue::Array(items)) => items,
        _ => {
            return;
        },
    };
    let mut i: usize = 0;
    while i < items.len()
        invariant
            i <= items@.len(),
            request.nnrp matches Some(n) && json_get(n, "extensions"@) matches Some(JsonValue::Array(v)) && v@ == items@,
            strictly_sorted(texts(tokens@)),
            forall|t: Seq<char>| #[trigger] texts(tokens@).contains(t) <==> (start.contains(t) || exists|k: int, name: Seq<char>|
                0 <= k < i && #[trigger] text_item(items@[k], name) && t == "api.extension."@
                    + name),
        decreases items@.len() - i,
    {
        let ghost before = texts(tokens@);
        assert(forall|t: Seq<char>| #[trigger] before.contains(t) <==> (start.contains(t) || exists|k: int, n: Seq<char>|
            0 <= k < i && #[trigger] text_item(items@[k], n) && t == "api.extension."@ + n));
        match &items[i] {
            JsonValue::Text(name) => {
                let mut token = String::new();
                push_text(&mut token, "api.extension.");
                push_text(&mut token, name.as_str());
                add_token(tokens, token);
                proof {
                    assert(text_item(items@[i as int], name@));
                    assert forall|t: Seq<char>| #[trigger] texts(tokens@).contains(t) <==> (start.contains(t) || exists|
                        k: int,
                        n: Seq<char>,
                    | 0 <= k < i + 1 && #[trigger] text_item(items@[k], n) && t
                        == "api.extension."@ + n) by {
                        assert(texts(tokens@).contains(t) <==> (before.contains(t) || t == "api.extension."@ + name@));
                        if exists|k: int, n: Seq<char>|
                            0 <= k < i + 1 && #[trigger] text_item(items@[k], n) && t == "api.extension."@ + n {
                            let (k, n) = choose|k: int, n: Seq<char>|
                                0 <= k < i + 1 && #[trigger] text_item(items@[k], n) && t == "api.extension."@ + n;
                            if k == i {
                                assert(n == name@);
                            } else {
                                assert(before.contains(t));
                            }
                        }
                        if before.contains(t) && !start.contains(t) {
                            let (k, n) = choose|k: int, n: Seq<char>|
                                0 <= k < i && #[trigger] text_item(items@[k], n) && t == "api.extension."@ + n;
                            assert(0 <= k < i + 1 && text_item(items@[k], n));
                        }
                    }
                }
            },
            _ => {
                proof {
                    assert(!(items@[i as int] is Text));
                    assert forall|t: Seq<char>| #[trigger] texts(tokens@).contains(t) <==> (start.contains(t) || exists|
                        k: int,
                        n: Seq<char>,
                    | 0 <= k < i + 1 && #[trigger] text_item(items@[k], n) && t
                        == "api.extension."@ + n) by {
                        if exists|k: int, n: Seq<char>|
                            0 <= k < i + 1 && #[trigger] text_item(items@[k], n) && t == "api.extension."@ + n {
                            let (k, n) = choose|k: int, n: Seq<char>|
                                0 <= k < i + 1 && #[trigger] text_item(items@[k], n) && t == "api.extension."@ + n;
                            assert(k < i);
                        }
                        if before.contains(t) && !start.contains(t) {
                            let (k, n) = choose|k: int, n: Seq<char>|
                                0 <= k < i && #[trigger] text_item(items@[k], n) && t == "api.extension."@ + n;
                            assert(0 <= k < i + 1 && text_item(items@[k], n));
                        }
                    }
                }
            },
        }
        i = i + 1;
    }
    proof {
        assert forall|t: Seq<char>| texts(tokens@).contains(t) <==> (start.contains(t) || exists|name: Seq<char>|
            #[trigger] nnrp_lists_extension(*request, name) && t == "api.extension."@ + name) by {
            if exists|name: Seq<char>| #[trigger] nnrp_lists_extension(*request, name) && t == "api.extension."@ + name {
                let name = choose|name: Seq<char>| #[trigger] nnrp_lists_extension(*request, name) && t
                    == "api.extension."@ + name;
                let k = choose|k: int| 0 <= k < items@.len() && #[trigger] text_item(items@[k], name);
                assert(0 <= k < i && text_item(items@[k], name) && t == "api.extension."@ + name);
            }
            if texts(tokens@).contains(t) && !start.contains(t) {
                let (k, n) = choose|k: int, n: Seq<char>|
                    0 <= k < i && #[trigger] text_item(items@[k], n) && t == "api.extension."@ + n;
                assert(0 <= k < items@.len() && text_item(items@[k], n));
                assert(nnrp_lists_extension(*request, n));
            }
        }
    }
}

/// The capabilities a recipe requires, sorted, each once.
pub fn required_api_capabilities(recipe: &ApiProfileRecipe) -> (tokens: Vec<String>)
    ensures
        strictly_sorted(texts(tokens@)),
        forall|t: Seq<char>| texts(tokens@).contains(t) <==> recipe_requires(*recipe, t),
{
    if recipe.required_capabilities.len() > 0 {
        return listed_capabilities(&recipe.required_capabilities);
    }
    let mut tokens: Vec<String> = Vec::new();
    let mut operation = String::new();
    push_text(&mut operation, "api.");
    push_text(&mut operation, recipe.operation.as_str());
    add_token(&mut tokens, operation);
    let ghost s1 = texts(tokens@);
    let stream_key = "stream".to_owned();
    let streams = match json_member(&recipe.request.body, &stream_key) {
        Some(JsonValue::Bool(b)) => *b,
        _ => false,
    };
    assert(streams == body_streams(recipe.request));
    if streams {
        add_token(&mut tokens, "api.streaming".to_owned());
    } else {
        add_token(&mut tokens, "api.non_streaming".to_owned());
    }
    let ghost s2 = texts(tokens@);
    let tools_key = "tools".to_owned();
    let has_tools = match json_member(&recipe.request.body, &tools_key) {
        Some(JsonValue::Array(items)) => items.len() > 0,
        _ => false,
    };
    assert(has_tools == body_has_tools(recipe.request));
    if has_tools {
        add_token(&mut tokens, "api.tool_calls".to_owned());
    }
    let ghost s3 = texts(tokens@);
    let cancel_key = "cancel_after_events".to_owned();
    let cancels = match &recipe.request.nnrp {
        Some(nnrp) => match json_member(nnrp, &cancel_key) {
            Some(JsonValue::Number(count)) => parse_json_u64(count.as_str()).is_some(),
            _ => false,
        },
        None => false,
    };
    assert(cancels == nnrp_cancels(recipe.request));
    if cancels {
        add_token(&mut tokens, "api.cancellation".to_owned());
    }
    let ghost s4 = texts(tokens@);
    add_extension_tokens(&mut tokens, &recipe.request);
    proof {
        assert forall|t: Seq<char>| texts(tokens@).contains(t) <==> recipe_requires(*recipe, t) by {
            assert(s1.contains(t) <==> t == "api."@ + recipe.operation@);
            assert(s2.contains(t) <==> (s1.contains(t) || t == (if streams {
                "api.streaming"@
            } else {
                "api.non_streaming"@
            })));
            assert(s3.contains(t) <==> (s2.contains(t) || (has_tools && t == "api.tool_calls"@)));
            assert(s4.contains(t) <==> (s3.contains(t) || (cancels && t == "api.cancellation"@)));
        }
    }
    tokens
}

/// The recipe requires nothing the manifest leaves undeclared.
pub open spec fn recipe_claimed(recipe: ApiProfileRecipe, manifest: ApiProfileCapabilityManifest) -> bool {
    forall|t: Seq<char>| #[trigger] recipe_requires(recipe, t) ==> declares_api_capability(manifest, t)
}

/// A mandatory or optional recipe is selected when it is claimed; the
/// others are only informational.
pub open spec fn recipe_selected(recipe: ApiProfileRecipe, manifest: ApiProfileCapabilityManifest) -> bool {
    (recipe.status == CaseStatus::Mandatory || recipe.status == CaseStatus::Optional) && recipe_claimed(recipe, manifest)
}

/// The selected recipes, in order.
pub open spec fn selected_recipes(recipes: Seq<ApiProfileRecipe>, manifest: ApiProfileCapabilityManifest) -> Seq<
    ApiProfileRecipe,
>
    decreases recipes.len(),
{
    if recipes.len() == 0 {
        Seq::empty()
    } else if recipe_selected(recipes.last(), manifest) {
        selected_recipes(recipes.drop_last(), manifest).push(recipes.last())
    } else {
        selected_recipes(recipes.drop_last(), manifest)
    }
}

/// The matrix view of a recipe: its id, its operation as the feature, its
/// status and the capabilities it requires, sorted.
pub open spec fn recipe_case(case: CaseDefinition, recipe: ApiProfileRecipe) -> bool {
    &&& case.id@ == recipe.id@
    &&& case.feature@ == recipe.operation@
    &&& case.status == recipe.status
    &&& strictly_sorted(texts(case.required_capabilities@))
    &&& forall|t: Seq<char>| texts(case.required_capabilities@).contains(t) <==> recipe_requires(recipe, t)
}

/// Two expected events alike: the same type, optionality, count and fields.
pub open spec fn same_expected_event(a: ApiProfileExpectedEvent, b: ApiProfileExpectedEvent) -> bool {
    &&& a.event_type@ == b.event_type@
    &&& a.optional == b.optional
    &&& a.min_count == b.min_count
    &&& match (a.fields, b.fields) {
        (Some(x), Some(y)) => json_same(x, y),
        (None, None) => true,
        _ => false,
    }
}

/// Two expectations alike: the same events in the same order, and the same
/// terminal.
pub open spec fn same_expectation(a: ApiProfileExpectation, b: ApiProfileExpectation) -> bool {
    &&& a.terminal == b.terminal
    &&& a.events@.len() == b.events@.len()
    &&& forall|i: int| 0 <= i < a.events@.len() ==> same_expected_event(#[trigger] a.events@[i], b.events@[i])
}

/// A request with the recipe's parameters substituted into its body and its
/// options.
pub open spec fn request_substituted(request: ApiProfileRecipeRequest, recipe: ApiProfileRecipe) -> bool {
    &&& substituted(request.body, recipe.request.body, recipe.parameters@)
    &&& match (request.nnrp, recipe.request.nnrp) {
        (Some(new), Some(old)) => substituted(new, old, recipe.parameters@),
        (None, None) => true,
        _ => false,
    }
}

/// The execution case of a selected recipe.
pub open spec fn api_case_of(case: ApiProfileExecutionCase, recipe: ApiProfileRecipe) -> bool {
    &&& case.id@ == recipe.id@
    &&& case.operation@ == recipe.operation@
    &&& case.status == recipe.status
    &&& strictly_sorted(texts(case.required_capabilities@))
    &&& forall|t: Seq<char>| texts(case.required_capabilities@).contains(t) <==> recipe_requires(recipe, t)
    &&& request_substituted(case.request, recipe)
    &&& same_expectation(case.expect, recipe.expect)
}

/// The API profile plan of aligned recipes: the manifest's profile, schema
/// version and adapter, the artifacts, the coverage of each operation, and
/// the selected recipes in order.
pub open spec fn api_plan_of(
    plan: ApiProfileExecutionPlan,
    manifest: ApiProfileCapabilityManifest,
    recipes: Seq<ApiProfileRecipe>,
    artifacts: AdapterArtifactContext,
) -> bool {
    let chosen = selected_recipes(recipes, manifest);
    &&& opt_view(plan.schema) == Some(
        "https://github.com/NagareWorks/nnrp-conformance/schemas/api-profile-execution-plan.schema.json"@,
    )
    &&& plan.profile@ == manifest.profile@
    &&& plan.schema_version@ == manifest.schema_version@
    &&& plan.adapter@ == manifest.adapter@
    &&& plan.artifacts == artifacts
    &&& exists|declared: Seq<String>, cases: Seq<CaseDefinition>|
        {
            &&& forall|t: Seq<char>| #[trigger] texts(declared).contains(t) <==> declares_api_capability(manifest, t)
            &&& cases.len() == recipes.len()
            &&& forall|i: int| 0 <= i < recipes.len() ==> recipe_case(#[trigger] cases[i], recipes[i])
            &&& matrix_matches(plan.coverage_matrix@, cases, declared)
        }
    &&& plan.cases@.len() == chosen.len()
    &&& forall|k: int| 0 <= k < chosen.len() ==> api_case_of(#[trigger] plan.cases@[k], chosen[k])
}

fn copy_expectation(expect: &ApiProfileExpectation) -> (copy: ApiProfileExpectation)
    ensures
        same_expectation(copy, *expect),
{
    let mut events: Vec<ApiProfileExpectedEvent> = Vec::new();
    let mut i: usize = 0;
    while i < expect.events.len()
        invariant
            i <= expect.events@.len(),
            events@.len() == i,
            forall|k: int| 0 <= k < i ==> same_expected_event(#[trigger] events@[k], expect.events@[k]),
        decreases expect.events@.len() - i,
    {
        let event = &expect.events[i];
        let fields = match &event.fields {
            Some(value) => {
                let copy = copy_json(value);
                proof {
                    lemma_json_same_symmetric(*value, copy);
                }
                Some(copy)
            },
            None => None,
        };
        events.push(ApiProfileExpectedEvent {
            event_type: event.event_type.clone(),
            optional: event.optional,
            min_count: event.min_count,
            fields,
        });
        i = i + 1;
    }
    ApiProfileExpectation { events, terminal: expect.terminal }
}

proof fn lemma_json_same_symmetric(a: JsonValue, b: JsonValue)
    requires
        json_same(a, b),
    ensures
        json_same(b, a),
    decreases a,
{
    match a {
        JsonValue::Array(xs) => {
            let ys = b->Array_0;
            assert forall|i: int| 0 <= i < ys@.len() implies json_same(#[trigger] ys@[i], xs@[i]) by {
                assert(json_same(xs@[i], ys@[i]));
                lemma_json_same_symmetric(xs@[i], ys@[i]);
            }
        },
        JsonValue::Object(xs) => {
            let ys = b->Object_0;
            assert forall|i: int| 0 <= i < ys@.len() implies (#[trigger] ys@[i]).0@ == xs@[i].0@ && json_same(
                ys@[i].1,
                xs@[i].1,
            ) by {
                assert(xs@[i].0@ == ys@[i].0@ && json_same(xs@[i].1, ys@[i].1));
                lemma_json_same_symmetric(xs@[i].1, ys@[i].1);
            }
        },
        _ => {},
    }
}

fn substitute_request(recipe: &ApiProfileRecipe) -> (request: ApiProfileRecipeRequest)
    ensures
        request_substituted(request, *recipe),
{
    let body = substitute_json_parameters(&recipe.request.body, &recipe.parameters);
    let nnrp = match &recipe.request.nnrp {
        Some(value) => Some(substitute_json_parameters(value, &recipe.parameters)),
        None => None,
    };
    ApiProfileRecipeRequest { body, nnrp }
}

proof fn lemma_selection_agrees(
    recipe: ApiProfileRecipe,
    required: Seq<String>,
    declared: Seq<String>,
    manifest: ApiProfileCapabilityManifest,
)
    requires
        forall|t: Seq<char>| texts(required).contains(t) <==> recipe_requires(recipe, t),
        forall|t: Seq<char>| #[trigger] texts(declared).contains(t) <==> declares_api_capability(manifest, t),
    ensures
        crate::plan::claims_all(required, declared) <==> recipe_claimed(recipe, manifest),
{
    if crate::plan::claims_all(required, declared) {
        assert forall|t: Seq<char>| #[trigger] recipe_requires(recipe, t) implies declares_api_capability(manifest, t) by {
            assert(texts(required).contains(t));
            let k = choose|k: int| 0 <= k < texts(required).len() && texts(required)[k] == t;
            assert(texts(required)[k] == required[k]@);
            assert(texts(declared).contains(required[k]@));
        }
    }
    if recipe_claimed(recipe, manifest) {
        assert forall|i: int| 0 <= i < required.len() implies texts(declared).contains(#[trigger] required[i]@) by {
            assert(texts(required)[i] == required[i]@);
            assert(texts(required).contains(required[i]@));
            assert(recipe_requires(recipe, required[i]@));
        }
    }
}

/// Plans the recipes of an API profile against an adapter's capability
/// manifest: after checking the profile, the selected recipes with their
/// capabilities and substituted requests, and the coverage of each
/// operation.
pub fn build_api_profile_execution_plan(
    capability_manifest: &ApiProfileCapabilityManifest,
    recipes: &Vec<ApiProfileRecipe>,
    artifacts: AdapterArtifactContext,
) -> (result: Result<ApiProfileExecutionPlan, FixtureError>)
    ensures
        match api_alignment_problem(*capability_manifest, recipes@) {
            Some(message) => result matches Err(e) && e.is_validation(message),
            None => result matches Ok(plan) && api_plan_of(plan, *capability_manifest, recipes@, artifacts),
        },
{
    match validate_api_profile_alignment(capability_manifest, recipes) {
        Err(e) => {
            return Err(e);
        },
        Ok(()) => {},
    }
    let declared = api_profile_declared_capabilities(capability_manifest);
    let ghost manifest = *capability_manifest;
    let mut matrix_cases: Vec<CaseDefinition> = Vec::new();
    let mut cases: Vec<ApiProfileExecutionCase> = Vec::new();
    let mut i: usize = 0;
    assert(recipes@.take(0) =~= Seq::<ApiProfileRecipe>::empty());
    while i < recipes.len()
        invariant
            i <= recipes@.len(),
            manifest == *capability_manifest,
            forall|t: Seq<char>| #[trigger] texts(declared@).contains(t) <==> declares_api_capability(manifest, t),
            matrix_cases@.len() == i,
            forall|k: int| 0 <= k < i ==> recipe_case(#[trigger] matrix_cases@[k], recipes@[k]),
            cases@.len() == selected_recipes(recipes@.take(i as int), manifest).len(),
            forall|k: int| 0 <= k < cases@.len() ==> api_case_of(
                #[trigger] cases@[k],
                selected_recipes(recipes@.take(i as int), manifest)[k],
            ),
        decreases recipes@.len() - i,
    {
        let recipe = &recipes[i];
        let required = required_api_capabilities(recipe);
        let ghost prior = recipes@.take(i as int);
        proof {
            assert(recipes@.take(i + 1).drop_last() =~= prior);
            assert(recipes@.take(i + 1).last() == *recipe);
            lemma_selection_agrees(*recipe, required@, declared@, manifest);
        }
        let claimed = claims_all_exec(&required, &declared);
        let selected = match recipe.status {
            CaseStatus::Mandatory | CaseStatus::Optional => claimed,
            CaseStatus::Experimental | CaseStatus::Deprecated => false,
        };
        assert(selected == recipe_selected(*recipe, manifest));
        if selected {
            cases.push(ApiProfileExecutionCase {
                id: recipe.id.clone(),
                operation: recipe.operation.clone(),
                status: recipe.status,
                required_capabilities: listed_capabilities(&required),
                request: substitute_request(recipe),
                expect: copy_expectation(&recipe.expect),
            });
        }
        matrix_cases.push(CaseDefinition {
            id: recipe.id.clone(),
            layer: CaseLayer::L4,
            status: recipe.status,
            feature: recipe.operation.clone(),
            required_capabilities: required,
            description: recipe.operation.clone(),
            parameters: Vec::new(),
        });
        i = i + 1;
    }
    assert(recipes@.take(i as int) =~= recipes@);
    let mut refs: Vec<&CaseDefinition> = Vec::new();
    let mut j: usize = 0;
    while j < matrix_cases.len()
        invariant
            j <= matrix_cases@.len(),
            refs@.len() == j,
            forall|k: int| 0 <= k < j ==> *(#[trigger] refs@[k]) == matrix_cases@[k],
        decreases matrix_cases@.len() - j,
    {
        refs.push(&matrix_cases[j]);
        j = j + 1;
    }
    assert(case_seq(refs@) =~= matrix_cases@);
    let coverage_matrix = build_compatibility_matrix(&refs, &declared);
    proof {
        reveal_strlit("https://github.com/NagareWorks/nnrp-conformance/schemas/api-profile-execution-plan.schema.json");
    }
    let plan = ApiProfileExecutionPlan {
        schema: Some(
            "https://github.com/NagareWorks/nnrp-conformance/schemas/api-profile-execution-plan.schema.json".to_owned(),
        ),
        profile: capability_manifest.profile.clone(),
        schema_version: capability_manifest.schema_version.clone(),
        adapter: capability_manifest.adapter.clone(),
        artifacts,
        coverage_matrix,
        cases,
    };
    assert(matrix_matches(plan.coverage_matrix@, matrix_cases@, declared@));
    Ok(plan)
}

/// How often an event must occur at least: its `min_count`, else once
/// unless it is optional.
pub open spec fn min_count_of(event: ApiProfileExpectedEvent) -> nat {
    match event.min_count {
        Some(n) => n as nat,
        None => if event.optional {
            0
        } else {
            1
        },
    }
}

/// How many observed events have this type.
pub open spec fn event_count(events: Seq<ApiProfileObservedEvent>, event_type: Seq<char>) -> nat
    decreases events.len(),
{
    if events.len() == 0 {
        0
    } else {
        event_count(events.drop_last(), event_type) + if events.last().event_type@ == event_type {
            1nat
        } else {
            0nat
        }
    }
}

/// The first observed event of this type at or after position `from`.
pub open spec fn first_event_from(events: Seq<ApiProfileObservedEvent>, event_type: Seq<char>, from: int) -> Option<int>
    decreases events.len() - from,
{
    if from < 0 || from >= events.len() {
        None
    } else if events[from].event_type@ == event_type {
        Some(from)
    } else {
        first_event_from(events, event_type, from + 1)
    }
}

/// What one expected member lacks among the fields of an event.
pub open spec fn member_field_problem(
    case_id: Seq<char>,
    event_type: Seq<char>,
    member: (String, JsonValue),
    fields: Seq<(String, JsonValue)>,
) -> Option<Seq<char>> {
    match member_value(fields, member.0@) {
        None => Some("api profile case "@ + case_id + " event "@ + event_type + " missing expected field "@ + member.0@),
        Some(value) => if json_contains(value, member.1) {
            None
        } else {
            Some("api profile case "@ + case_id + " event "@ + event_type + " field "@ + member.0@ + " mismatch"@)
        },
    }
}

/// The first expected member, in order, that the fields of an event lack.
pub open spec fn fields_problem(
    case_id: Seq<char>,
    event_type: Seq<char>,
    members: Seq<(String, JsonValue)>,
    fields: Seq<(String, JsonValue)>,
) -> Option<Seq<char>>
    decreases members.len(),
{
    if members.len() == 0 {
        None
    } else {
        let earlier = fields_problem(case_id, event_type, members.drop_last(), fields);
        if earlier is Some {
            earlier
        } else {
            member_field_problem(case_id, event_type, members.last(), fields)
        }
    }
}

/// What an observed event lacks of the fields an expected event asks for;
/// only an object of expected fields asks for any.
pub open spec fn event_fields_problem(
    case_id: Seq<char>,
    expected: ApiProfileExpectedEvent,
    actual: ApiProfileObservedEvent,
) -> Option<Seq<char>> {
    match expected.fields {
        Some(JsonValue::Object(members)) => fields_problem(case_id, expected.event_type@, members@, actual.fields@),
        _ => None,
    }
}

/// One expected event checked against the observed events, searching in
/// order from position `from`: too few occurrences, none at or after
/// `from`, or missing fields are a problem; otherwise the search goes on
/// after the occurrence found, where one is needed.
pub open spec fn event_step(
    case_id: Seq<char>,
    expected: ApiProfileExpectedEvent,
    actual: Seq<ApiProfileObservedEvent>,
    from: int,
) -> (Option<Seq<char>>, int) {
    let min = min_count_of(expected);
    let count = event_count(actual, expected.event_type@);
    if count < min {
        (
            Some("api profile case "@ + case_id + " expected event "@ + expected.event_type@ + " at least "@ + decimal(min)
                + " time(s), got "@ + decimal(count)),
            from,
        )
    } else if expected.optional && count == 0 {
        (None, from)
    } else if min > 0 {
        match first_event_from(actual, expected.event_type@, from) {
            None => (
                Some("api profile case "@ + case_id + " did not observe event "@ + expected.event_type@
                    + " in expected order"@),
                from,
            ),
            Some(k) => match event_fields_problem(case_id, expected, actual[k]) {
                Some(message) => (Some(message), from),
                None => (None, k + 1),
            },
        }
    } else {
        (None, from)
    }
}

/// The expected events checked in order against the observed ones: the
/// first problem, and where the search stands.
pub open spec fn events_check(
    case_id: Seq<char>,
    expected: Seq<ApiProfileExpectedEvent>,
    actual: Seq<ApiProfileObservedEvent>,
) -> (Option<Seq<char>>, int)
    decreases expected.len(),
{
    if expected.len() == 0 {
        (None, 0)
    } else {
        let earlier = events_check(case_id, expected.drop_last(), actual);
        if earlier.0 is Some {
            earlier
        } else {
            event_step(case_id, expected.last(), actual, earlier.1)
        }
    }
}

fn count_events(events: &Vec<ApiProfileObservedEvent>, event_type: &String) -> (count: u64)
    ensures
        count == event_count(events@, event_type@),
{
    let mut count: u64 = 0;
    let mut i: usize = 0;
    assert(events@.take(0) =~= Seq::<ApiProfileObservedEvent>::empty());
    while i < events.len()
        invariant
            i <= events@.len(),
            count == event_count(events@.take(i as int), event_type@),
            count <= i,
        decreases events@.len() - i,
    {
        assert(events@.take(i + 1).drop_last() =~= events@.take(i as int));
        assert(events@.take(i + 1).last() == events@[i as int]);
        if events[i].event_type == *event_type {
            count = count + 1;
        }
        i = i + 1;
    }
    assert(events@.take(i as int) =~= events@);
    count
}

fn find_event_from(events: &Vec<ApiProfileObservedEvent>, event_type: &String, from: usize) -> (found: Option<usize>)
    ensures
        match first_event_from(events@, event_type@, from as int) {
            Some(k) => found matches Some(f) && f as int == k && from <= k < events@.len(),
            None => found is None,
        },
    decreases events@.len() - from,
{
    if from >= events.len() {
        return None;
    }
    if events[from].event_type == *event_type {
        return Some(from);
    }
    find_event_from(events, event_type, from + 1)
}

proof fn lemma_fields_prefix(
    case_id: Seq<char>,
    event_type: Seq<char>,
    members: Seq<(String, JsonValue)>,
    fields: Seq<(String, JsonValue)>,
    n: int,
)
    requires
        0 <= n <= members.len(),
        fields_problem(case_id, event_type, members.take(n), fields) is Some,
    ensures
        fields_problem(case_id, event_type, members, fields) == fields_problem(case_id, event_type, members.take(n), fields),
    decreases members.len() - n,
{
    if n < members.len() {
        assert(members.take(n + 1).drop_last() =~= members.take(n));
        lemma_fields_prefix(case_id, event_type, members, fields, n + 1);
    } else {
        assert(members.take(n) =~= members);
    }
}

/// Checks that an observed event carries every field the expected event
/// asks for, each holding what is expected.
pub fn validate_expected_api_event_fields(
    expected: &ApiProfileExpectedEvent,
    actual: &ApiProfileObservedEvent,
    case_id: &str,
) -> (result: Result<(), FixtureError>)
    ensures
        match event_fields_problem(case_id@, *expected, *actual) {
            Some(message) => result matches Err(e) && e.is_validation(message),
            None => result is Ok,
        },
{
    let members = match &expected.fields {
        Some(JsonValue::Object(members)) => members,
        _ => {
            return Ok(());
        },
    };
    let ghost t = expected.event_type@;
    let mut i: usize = 0;
    assert(members@.take(0) =~= Seq::<(String, JsonValue)>::empty());
    while i < members.len()
        invariant
            i <= members@.len(),
            expected.fields matches Some(JsonValue::Object(m)) && m@ == members@,
            t == expected.event_type@,
            fields_problem(case_id@, t, members@.take(i as int), actual.fields@) is None,
        decreases members@.len() - i,
    {
        let member = &members[i];
        assert(members@.take(i + 1).drop_last() =~= members@.take(i as int));
        assert(members@.take(i + 1).last() == *member);
        match find_member(&actual.fields, &member.0) {
            None => {
                let mut message = String::new();
                push_text(&mut message, "api profile case ");
                push_text(&mut message, case_id);
                push_text(&mut message, " event ");
                push_text(&mut message, expected.event_type.as_str());
                push_text(&mut message, " missing expected field ");
                push_text(&mut message, member.0.as_str());
                proof {
                    lemma_fields_prefix(case_id@, t, members@, actual.fields@, i + 1);
                }
                return Err(validation(message));
            },
            Some(value) => {
                if !json_value_contains(value, &member.1) {
                    let mut message = String::new();
                    push_text(&mut message, "api profile case ");
                    push_text(&mut message, case_id);
                    push_text(&mut message, " event ");
                    push_text(&mut message, expected.event_type.as_str());
                    push_text(&mut message, " field ");
                    push_text(&mut message, member.0.as_str());
                    push_text(&mut message, " mismatch");
                    proof {
                        lemma_fields_prefix(case_id@, t, members@, actual.fields@, i + 1);
                    }
                    return Err(validation(message));
                }
            },
        }
        i = i + 1;
    }
    assert(members@.take(i as int) =~= members@);
    Ok(())
}

proof fn lemma_events_prefix(
    case_id: Seq<char>,
    expected: Seq<ApiProfileExpectedEvent>,
    actual: Seq<ApiProfileObservedEvent>,
    n: int,
)
    requires
        0 <= n <= expected.len(),
        events_check(case_id, expected.take(n), actual).0 is Some,
    ensures
        events_check(case_id, expected, actual) == events_check(case_id, expected.take(n), actual),
    decreases expected.len() - n,
{
    if n < expected.len() {
        assert(expected.take(n + 1).drop_last() =~= expected.take(n));
        lemma_events_prefix(case_id, expected, actual, n + 1);
    } else {
        assert(expected.take(n) =~= expected);
    }
}

/// Checks the observed events of a case against the expected ones, in
/// order: each occurs often enough, and each that must occur is found, with
/// its fields, after the previous one found.
pub fn validate_expected_api_events(
    expected_events: &Vec<ApiProfileExpectedEvent>,
    actual_events: &Vec<ApiProfileObservedEvent>,
    case_id: &str,
) -> (result: Result<(), FixtureError>)
    ensures
        match events_check(case_id@, expected_events@, actual_events@).0 {
            Some(message) => result matches Err(e) && e.is_validation(message),
            None => result is Ok,
        },
{
    let mut search_from: usize = 0;
    let mut i: usize = 0;
    assert(expected_events@.take(0) =~= Seq::<ApiProfileExpectedEvent>::empty());
    while i < expected_events.len()
        invariant
            i <= expected_events@.len(),
            search_from <= actual_events@.len(),
            events_check(case_id@, expected_events@.take(i as int), actual_events@) == (None::<Seq<char>>, search_from as int),
        decreases expected_events@.len() - i,
    {
        let expected = &expected_events[i];
        proof {
            assert(expected_events@.take(i + 1).drop_last() =~= expected_events@.take(i as int));
            assert(expected_events@.take(i + 1).last() == *expected);
        }
        let min_count: u64 = match expected.min_count {
            Some(n) => n,
            None => if expected.optional {
                0
            } else {
                1
            },
        };
        let observed_count = count_events(actual_events, &expected.event_type);
        if observed_count < min_count {
            let mut message = String::new();
            push_text(&mut message, "api profile case ");
            push_text(&mut message, case_id);
            push_text(&mut message, " expected event ");
            push_text(&mut message, expected.event_type.as_str());
            push_text(&mut message, " at least ");
            push_decimal(&mut message, min_count);
            push_text(&mut message, " time(s), got ");
            push_decimal(&mut message, observed_count);
            proof {
                lemma_events_prefix(case_id@, expected_events@, actual_events@, i + 1);
            }
            return Err(validation(message));
        }
        if expected.optional && observed_count == 0 {
            i = i + 1;
            continue;
        }
        if min_count > 0 {
            match find_event_from(actual_events, &expected.event_type, search_from) {
                None => {
                    let mut message = String::new();
                    push_text(&mut message, "api profile case ");
                    push_text(&mut message, case_id);
                    push_text(&mut message, " did not observe event ");
                    push_text(&mut message, expected.event_type.as_str());
                    push_text(&mut message, " in expected order");
                    proof {
                        lemma_events_prefix(case_id@, expected_events@, actual_events@, i + 1);
                    }
                    return Err(validation(message));
                },
                Some(k) => {
                    let n = actual_events.len();
                    assert(k < n);
                    match validate_expected_api_event_fields(expected, &actual_events[k], case_id) {
                        Err(e) => {
                            proof {
                                lemma_events_prefix(case_id@, expected_events@, actual_events@, i + 1);
                            }
                            return Err(e);
                        },
                        Ok(()) => {},
                    }
                    search_from = k + 1;
                },
            }
        }
        i = i + 1;
    }
    assert(expected_events@.take(i as int) =~= expected_events@);
    Ok(())
}

/// The plan case with this id; a later case of the same id replaces an
/// earlier one.
pub open spec fn api_case_by_id(cases: Seq<ApiProfileExecutionCase>, id: Seq<char>) -> Option<ApiProfileExecutionCase>
    decreases cases.len(),
{
    if cases.len() == 0 {
        None
    } else if cases.last().id@ == id {
        Some(cases.last())
    } else {
        api_case_by_id(cases.drop_last(), id)
    }
}

/// What is wrong with a passed result: another terminal than expected, the
/// expected events, or the event its terminal requires.
pub open spec fn passed_api_problem(case: ApiProfileExecutionCase, result: ApiProfileCaseResult) -> Option<Seq<char>> {
    if case.expect.terminal != result.terminal {
        Some("api profile case "@ + result.id@ + " terminal mismatch: expected "@ + terminal_name(case.expect.terminal)
            + ", got "@ + terminal_name(result.terminal))
    } else if events_check(result.id@, case.expect.events@, result.events@).0 is Some {
        events_check(result.id@, case.expect.events@, result.events@).0
    } else {
        terminal_event_problem(result.id@, result.terminal, result.events@)
    }
}

/// The ids of results.
pub open spec fn api_result_ids(results: Seq<ApiProfileCaseResult>) -> Seq<Seq<char>> {
    results.map_values(|r: ApiProfileCaseResult| r.id@)
}

/// The ids of a plan's cases.
pub open spec fn api_plan_ids(cases: Seq<ApiProfileExecutionCase>) -> Seq<Seq<char>> {
    cases.map_values(|c: ApiProfileExecutionCase| c.id@)
}

/// What is wrong with one result, given the results before it.
pub open spec fn api_result_problem(
    plan: ApiProfileExecutionPlan,
    before: Seq<ApiProfileCaseResult>,
    result: ApiProfileCaseResult,
) -> Option<Seq<char>> {
    match api_case_by_id(plan.cases@, result.id@) {
        None => Some("api profile results contain an unexpected case id: "@ + result.id@),
        Some(case) => if api_result_ids(before).contains(result.id@) {
            Some("api profile results contain a duplicate case id: "@ + result.id@)
        } else if result.outcome == ApiProfileCaseOutcome::Passed {
            passed_api_problem(case, result)
        } else {
            None
        },
    }
}

/// The first result, in order, with a problem: its message.
pub open spec fn api_results_problem(plan: ApiProfileExecutionPlan, results: Seq<ApiProfileCaseResult>) -> Option<
    Seq<char>,
>
    decreases results.len(),
{
    if results.len() == 0 {
        None
    } else {
        let earlier = api_results_problem(plan, results.drop_last());
        if earlier is Some {
            earlier
        } else {
            api_result_problem(plan, results.drop_last(), results.last())
        }
    }
}

/// What is wrong with an API profile result report against its plan,
/// checked in order: the profile, the schema version, the adapter, each
/// result, and whether every selected case has a result.
pub open spec fn api_validation_problem(plan: ApiProfileExecutionPlan, report: ApiProfileCaseResultReport) -> Option<
    Seq<char>,
> {
    let expected = api_plan_ids(plan.cases@).to_set().len();
    if plan.profile@ != report.profile@ {
        Some("api profile mismatch: expected "@ + plan.profile@ + ", got "@ + report.profile@)
    } else if plan.schema_version@ != report.schema_version@ {
        Some("api profile schema version mismatch: expected "@ + plan.schema_version@ + ", got "@ + report.schema_version@)
    } else if plan.adapter@ != report.adapter@ {
        Some("api profile adapter mismatch: expected "@ + plan.adapter@ + ", got "@ + report.adapter@)
    } else if api_results_problem(plan, report.results@) is Some {
        api_results_problem(plan, report.results@)
    } else if report.results@.len() != expected {
        Some("api profile results are missing "@ + decimal(missing_count(expected, report.results@.len()))
            + " selected case(s)"@)
    } else {
        None
    }
}

/// How many results have this outcome.
pub open spec fn count_api_outcome(results: Seq<ApiProfileCaseResult>, outcome: ApiProfileCaseOutcome) -> nat
    decreases results.len(),
{
    if results.len() == 0 {
        0
    } else {
        count_api_outcome(results.drop_last(), outcome) + if results.last().outcome == outcome {
            1nat
        } else {
            0nat
        }
    }
}

fn find_case<'a>(cases: &'a Vec<ApiProfileExecutionCase>, id: &String) -> (found: Option<&'a ApiProfileExecutionCase>)
    ensures
        match api_case_by_id(cases@, id@) {
            Some(c) => found matches Some(f) && *f == c,
            None => found is None,
        },
{
    let mut k: usize = cases.len();
    assert(cases@.take(k as int) =~= cases@);
    while k > 0
        invariant
            k <= cases@.len(),
            api_case_by_id(cases@, id@) == api_case_by_id(cases@.take(k as int), id@),
        decreases k,
    {
        assert(cases@.take(k as int).drop_last() =~= cases@.take(k - 1));
        assert(cases@.take(k as int).last() == cases@[k - 1]);
        if cases[k - 1].id == *id {
            return Some(&cases[k - 1]);
        }
        k = k - 1;
    }
    None
}

fn push_terminal_name(text: &mut String, terminal: ApiProfileTerminal)
    ensures
        final(text)@ == old(text)@ + terminal_name(terminal),
{
    match terminal {
        ApiProfileTerminal::Success => push_text(text, "Success"),
        ApiProfileTerminal::Error => push_text(text, "Error"),
        ApiProfileTerminal::Cancelled => push_text(text, "Cancelled"),
    }
}

fn check_passed_case(case: &ApiProfileExecutionCase, result: &ApiProfileCaseResult) -> (outcome: Result<(), FixtureError>)
    ensures
        match passed_api_problem(*case, *result) {
            Some(message) => outcome matches Err(e) && e.is_validation(message),
            None => outcome is Ok,
        },
{
    if case.expect.terminal != result.terminal {
        let mut message = String::new();
        push_text(&mut message, "api profile case ");
        push_text(&mut message, result.id.as_str());
        push_text(&mut message, " terminal mismatch: expected ");
        push_terminal_name(&mut message, case.expect.terminal);
        push_text(&mut message, ", got ");
        push_terminal_name(&mut message, result.terminal);
        return Err(validation(message));
    }
    match validate_expected_api_events(&case.expect.events, &result.events, result.id.as_str()) {
        Err(e) => {
            return Err(e);
        },
        Ok(()) => {},
    }
    validate_api_terminal_event(&result.terminal, &result.events, result.id.as_str())
}

proof fn lemma_results_prefix(plan: ApiProfileExecutionPlan, results: Seq<ApiProfileCaseResult>, n: int)
    requires
        0 <= n <= results.len(),
        api_results_problem(plan, results.take(n)) is Some,
    ensures
        api_results_problem(plan, results) == api_results_problem(plan, results.take(n)),
    decreases results.len() - n,
{
    if n < results.len() {
        assert(results.take(n + 1).drop_last() =~= results.take(n));
        lemma_results_prefix(plan, results, n + 1);
    } else {
        assert(results.take(n) =~= results);
    }
}

fn pair_check(prefix: &str, expected: &String, actual: &String) -> (message: String)
    ensures
        message@ == prefix@ + expected@ + ", got "@ + actual@,
{
    let mut message = String::new();
    push_text(&mut message, prefix);
    push_text(&mut message, expected.as_str());
    push_text(&mut message, ", got ");
    push_text(&mut message, actual.as_str());
    message
}

/// Checks an API profile result report against its plan: the same profile,
/// schema version and adapter, one result per selected case and nothing
/// else, and for each passed result the expected terminal and events;
/// counts the results by outcome.
pub fn validate_api_profile_results(
    expected_plan: &ApiProfileExecutionPlan,
    actual_report: &ApiProfileCaseResultReport,
) -> (result: Result<ApiProfileValidationSummary, FixtureError>)
    ensures
        match result {
            Ok(summary) => {
                &&& api_validation_problem(*expected_plan, *actual_report) is None
                &&& summary.selected_cases == api_plan_ids(expected_plan.cases@).to_set().len()
                &&& summary.passed_cases == count_api_outcome(actual_report.results@, ApiProfileCaseOutcome::Passed)
                &&& summary.failed_cases == count_api_outcome(actual_report.results@, ApiProfileCaseOutcome::Failed)
                &&& summary.skipped_cases == count_api_outcome(actual_report.results@, ApiProfileCaseOutcome::Skipped)
            },
            Err(e) => api_validation_problem(*expected_plan, *actual_report) matches Some(message) && e.is_validation(
                message,
            ),
        },
{
    if expected_plan.profile != actual_report.profile {
        return Err(validation(pair_check("api profile mismatch: expected ", &expected_plan.profile, &actual_report.profile)));
    }
    if expected_plan.schema_version != actual_report.schema_version {
        return Err(validation(pair_check(
            "api profile schema version mismatch: expected ",
            &expected_plan.schema_version,
            &actual_report.schema_version,
        )));
    }
    if expected_plan.adapter != actual_report.adapter {
        return Err(validation(pair_check("api profile adapter mismatch: expected ", &expected_plan.adapter, &actual_report.adapter)));
    }
    let mut plan_ids: Vec<String> = Vec::new();
    let mut c: usize = 0;
    while c < expected_plan.cases.len()
        invariant
            c <= expected_plan.cases@.len(),
            texts(plan_ids@) == api_plan_ids(expected_plan.cases@.take(c as int)),
        decreases expected_plan.cases@.len() - c,
    {
        plan_ids.push(expected_plan.cases[c].id.clone());
        assert(api_plan_ids(expected_plan.cases@.take(c + 1)) =~= api_plan_ids(expected_plan.cases@.take(c as int)).push(
            expected_plan.cases@[c as int].id@,
        ));
        c = c + 1;
    }
    assert(expected_plan.cases@.take(c as int) =~= expected_plan.cases@);
    let expected_ids = distinct_sorted(&plan_ids);
    let ghost results = actual_report.results@;
    let mut actual_ids: Vec<String> = Vec::new();
    let mut passed: usize = 0;
    let mut failed: usize = 0;
    let mut skipped: usize = 0;
    let mut i: usize = 0;
    while i < actual_report.results.len()
        invariant
            i <= results.len(),
            results == actual_report.results@,
            expected_plan.profile@ == actual_report.profile@,
            expected_plan.schema_version@ == actual_report.schema_version@,
            expected_plan.adapter@ == actual_report.adapter@,
            api_results_problem(*expected_plan, results.take(i as int)) is None,
            strictly_sorted(texts(actual_ids@)),
            forall|t: Seq<char>| texts(actual_ids@).contains(t) <==> api_result_ids(results.take(i as int)).contains(t),
            actual_ids@.len() == i,
            passed == count_api_outcome(results.take(i as int), ApiProfileCaseOutcome::Passed),
            failed == count_api_outcome(results.take(i as int), ApiProfileCaseOutcome::Failed),
            skipped == count_api_outcome(results.take(i as int), ApiProfileCaseOutcome::Skipped),
            passed + failed + skipped == i,
        decreases results.len() - i,
    {
        let entry: &ApiProfileCaseResult = &actual_report.results[i];
        let ghost prior = results.take(i as int);
        let ghost next = results.take(i + 1);
        proof {
            assert(next.drop_last() =~= prior);
            assert(next.last() == *entry);
            assert(api_result_ids(next) =~= api_result_ids(prior).push(entry.id@));
        }
        let case = match find_case(&expected_plan.cases, &entry.id) {
            None => {
                let mut message = String::new();
                push_text(&mut message, "api profile results contain an unexpected case id: ");
                push_text(&mut message, entry.id.as_str());
                proof {
                    lemma_results_prefix(*expected_plan, results, i + 1);
                }
                return Err(validation(message));
            },
            Some(case) => case,
        };
        if !insert_sorted_text(&mut actual_ids, entry.id.clone()) {
            let mut message = String::new();
            push_text(&mut message, "api profile results contain a duplicate case id: ");
            push_text(&mut message, entry.id.as_str());
            proof {
                lemma_results_prefix(*expected_plan, results, i + 1);
            }
            return Err(validation(message));
        }
        match entry.outcome {
            ApiProfileCaseOutcome::Passed => {
                match check_passed_case(case, entry) {
                    Err(e) => {
                        proof {
                            lemma_results_prefix(*expected_plan, results, i + 1);
                        }
                        return Err(e);
                    },
                    Ok(()) => {},
                }
                passed = passed + 1;
            },
            ApiProfileCaseOutcome::Failed => failed = failed + 1,
            ApiProfileCaseOutcome::Skipped => skipped = skipped + 1,
        }
        proof {
            assert(api_results_problem(*expected_plan, next) is None);
            assert forall|t: Seq<char>| texts(actual_ids@).contains(t) <==> api_result_ids(next).contains(t) by {
                let ids = api_result_ids(next);
                if ids.contains(t) {
                    let k = choose|k: int| 0 <= k < ids.len() && ids[k] == t;
                    if k < i {
                        assert(api_result_ids(prior)[k] == t);
                    }
                }
                if api_result_ids(prior).contains(t) {
                    let k = choose|k: int| 0 <= k < prior.len() && api_result_ids(prior)[k] == t;
                    assert(ids[k] == t);
                }
                if t == entry.id@ {
                    assert(ids[i as int] == t);
                }
            }
        }
        i = i + 1;
    }
    assert(results.take(i as int) =~= results);
    if actual_ids.len() != expected_ids.len() {
        let missing = if expected_ids.len() >= actual_ids.len() {
            expected_ids.len() - actual_ids.len()
        } else {
            0
        };
        let mut message = String::new();
        push_text(&mut message, "api profile results are missing ");
        push_decimal(&mut message, missing as u64);
        push_text(&mut message, " selected case(s)");
        return Err(validation(message));
    }
    Ok(ApiProfileValidationSummary {
        selected_cases: expected_ids.len(),
        passed_cases: passed,
        failed_cases: failed,
        skipped_cases: skipped,
    })
}

} // verus!
