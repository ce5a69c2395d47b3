use nnrp_conformance_suite::api_profile::{
    build_api_profile_execution_plan, required_api_capabilities, validate_api_profile_alignment,
    validate_api_profile_results, validate_expected_api_event_fields, validate_expected_api_events,
};
use nnrp_conformance_suite::fixtures::{
    AdapterArtifactContext, ApiProfileCapabilityManifest, ApiProfileCaseOutcome, ApiProfileCaseResult,
    ApiProfileCaseResultReport, ApiProfileExpectation, ApiProfileExpectedEvent, ApiProfileExtensionCapability,
    ApiProfileObservedEvent, ApiProfileOperationCapability, ApiProfileRecipe, ApiProfileRecipeRequest,
    ApiProfileTerminal, CaseStatus,
};
use nnrp_conformance_suite::json_model::{
    copy_json, json_member, json_value_contains, json_values_equal, substitute_json_parameters, JsonValue,
};

fn text(value: &str) -> JsonValue {
    JsonValue::Text(value.to_string())
}

fn number(value: &str) -> JsonValue {
    JsonValue::Number(value.to_string())
}

fn object(members: Vec<(&str, JsonValue)>) -> JsonValue {
    JsonValue::Object(members.into_iter().map(|(name, value)| (name.to_string(), value)).collect())
}

fn member<'a>(value: &'a JsonValue, name: &str) -> Option<&'a JsonValue> {
    json_member(value, &name.to_string())
}

fn is_text(value: Option<&JsonValue>, expected: &str) -> bool {
    matches!(value, Some(JsonValue::Text(t)) if t == expected)
}

fn artifacts() -> AdapterArtifactContext {
    AdapterArtifactContext {
        results_path: "artifacts/api-profile-results.json".to_string(),
        evidence_dir: "artifacts/api-profile-evidence".to_string(),
    }
}

fn sample_api_capabilities() -> ApiProfileCapabilityManifest {
    ApiProfileCapabilityManifest {
        schema: None,
        adapter: "vllm-nnrp-adapter".to_string(),
        profile: "openai-compatible".to_string(),
        schema_version: "openai-compatible/1".to_string(),
        compatibility_levels: vec![1],
        operations: vec![ApiProfileOperationCapability {
            name: "chat.completions.create".to_string(),
            streaming: true,
            non_streaming: true,
            tool_calls: false,
            cancellation: true,
        }],
        extensions: vec![ApiProfileExtensionCapability {
            name: "diagnostics".to_string(),
            critical: false,
            description: None,
        }],
    }
}

fn sample_body(stream: bool) -> Vec<(String, JsonValue)> {
    vec![
        (
            "messages".to_string(),
            JsonValue::Array(vec![object(vec![("content", text("Say hello.")), ("role", text("user"))])]),
        ),
        ("model".to_string(), text("example-model")),
        ("stream".to_string(), JsonValue::Bool(stream)),
    ]
}

fn expected_event(event_type: &str, optional: bool, min_count: Option<u64>) -> ApiProfileExpectedEvent {
    ApiProfileExpectedEvent { event_type: event_type.to_string(), optional, min_count, fields: None }
}

fn sample_api_recipe(id: &str, stream: bool) -> ApiProfileRecipe {
    ApiProfileRecipe {
        schema: None,
        id: id.to_string(),
        profile: "openai-compatible".to_string(),
        schema_version: "openai-compatible/1".to_string(),
        operation: "chat.completions.create".to_string(),
        required_capabilities: vec![],
        status: CaseStatus::Mandatory,
        parameters: vec![],
        request: ApiProfileRecipeRequest { body: JsonValue::Object(sample_body(stream)), nnrp: None },
        expect: ApiProfileExpectation {
            events: vec![
                expected_event("response.output_text.delta", false, Some(1)),
                expected_event("response.completed", true, None),
            ],
            terminal: ApiProfileTerminal::Success,
        },
    }
}

fn observed(event_type: &str) -> ApiProfileObservedEvent {
    ApiProfileObservedEvent { event_type: event_type.to_string(), fields: vec![] }
}

fn report(results: Vec<ApiProfileCaseResult>) -> ApiProfileCaseResultReport {
    ApiProfileCaseResultReport {
        schema: None,
        profile: "openai-compatible".to_string(),
        schema_version: "openai-compatible/1".to_string(),
        adapter: "vllm-nnrp-adapter".to_string(),
        results,
    }
}

fn passed(id: &str, events: Vec<ApiProfileObservedEvent>) -> ApiProfileCaseResult {
    ApiProfileCaseResult {
        id: id.to_string(),
        outcome: ApiProfileCaseOutcome::Passed,
        terminal: ApiProfileTerminal::Success,
        events,
        diagnostics: None,
        message: None,
    }
}

#[test]
fn api_profile_plan_selects_recipes_claimed_by_capabilities() {
    let mut unsupported_tool_recipe = sample_api_recipe("tool-case", true);
    let mut body = sample_body(true);
    body.push((
        "tools".to_string(),
        JsonValue::Array(vec![object(vec![
            ("function", object(vec![("name", text("lookup"))])),
            ("type", text("function")),
        ])]),
    ));
    unsupported_tool_recipe.request.body = JsonValue::Object(body);

    let plan = build_api_profile_execution_plan(
        &sample_api_capabilities(),
        &vec![
            sample_api_recipe("streaming-case", true),
            sample_api_recipe("non-streaming-case", false),
            unsupported_tool_recipe,
        ],
        artifacts(),
    )
    .expect("api profile plan should build");

    assert_eq!(plan.adapter, "vllm-nnrp-adapter");
    assert_eq!(plan.cases.len(), 2);
    assert!(plan.cases.iter().any(|case| {
        case.id == "streaming-case" && case.required_capabilities.contains(&"api.streaming".to_string())
    }));
    assert!(plan.cases.iter().any(|case| {
        case.id == "non-streaming-case" && case.required_capabilities.contains(&"api.non_streaming".to_string())
    }));
    assert_eq!(plan.coverage_matrix.len(), 1);
    assert_eq!(plan.coverage_matrix[0].summary.selected_cases, 2);
    assert_eq!(plan.coverage_matrix[0].summary.not_claimed_cases, 1);
}

#[test]
fn api_profile_plan_substitutes_recipe_parameters() {
    let mut recipe = sample_api_recipe("parameterized-case", false);
    recipe.parameters.push(("MODEL_ID".to_string(), "backend-error".to_string()));
    let mut body = sample_body(false);
    body[1].1 = text("${MODEL_ID}");
    recipe.request.body = JsonValue::Object(body);
    recipe.request.nnrp = Some(object(vec![("trace", text("${MODEL_ID}"))]));

    let plan = build_api_profile_execution_plan(&sample_api_capabilities(), &vec![recipe], artifacts())
        .expect("api profile plan should build");

    assert!(is_text(member(&plan.cases[0].request.body, "model"), "backend-error"));
    assert!(is_text(member(plan.cases[0].request.nnrp.as_ref().unwrap(), "trace"), "backend-error"));
}

#[test]
fn api_profile_results_validate_event_order_and_terminal() {
    let plan =
        build_api_profile_execution_plan(&sample_api_capabilities(), &vec![sample_api_recipe("streaming-case", true)], artifacts())
            .expect("api profile plan should build");
    let summary = validate_api_profile_results(
        &plan,
        &report(vec![passed("streaming-case", vec![observed("response.output_text.delta"), observed("response.completed")])]),
    )
    .expect("api profile results should validate");
    assert_eq!(summary.selected_cases, 1);
    assert_eq!(summary.passed_cases, 1);
}

#[test]
fn api_profile_results_reject_missing_required_event() {
    let plan =
        build_api_profile_execution_plan(&sample_api_capabilities(), &vec![sample_api_recipe("streaming-case", true)], artifacts())
            .expect("api profile plan should build");
    let error = validate_api_profile_results(&plan, &report(vec![passed("streaming-case", vec![])]))
        .expect_err("api profile results should reject missing required event");
    assert!(error.to_string().contains("response.output_text.delta"));
}

#[test]
fn api_plan_rejects_other_profiles_and_mismatched_recipes() {
    let mut manifest = sample_api_capabilities();
    manifest.profile = "anthropic".to_string();
    let error = validate_api_profile_alignment(&manifest, &vec![]).unwrap_err();
    assert_eq!(error.to_string(), "fixture validation failed: unsupported api profile: anthropic");

    let mut manifest = sample_api_capabilities();
    manifest.schema_version = "openai-compatible/2".to_string();
    let error = validate_api_profile_alignment(&manifest, &vec![]).unwrap_err();
    assert_eq!(error.to_string(), "fixture validation failed: unsupported api profile schema version: openai-compatible/2");

    let mut recipe = sample_api_recipe("old-case", true);
    recipe.schema_version = "openai-compatible/0".to_string();
    let error = build_api_profile_execution_plan(&sample_api_capabilities(), &vec![recipe], artifacts()).unwrap_err();
    assert_eq!(
        error.to_string(),
        "fixture validation failed: api recipe old-case schema version mismatch: expected openai-compatible/1, got openai-compatible/0"
    );
}

#[test]
fn required_capabilities_follow_the_request() {
    let mut recipe = sample_api_recipe("cancel-case", true);
    recipe.request.nnrp = Some(object(vec![
        ("cancel_after_events", number("2")),
        ("extensions", JsonValue::Array(vec![text("diagnostics"), number("7"), text("diagnostics")])),
    ]));
    assert_eq!(
        required_api_capabilities(&recipe),
        vec![
            "api.cancellation".to_string(),
            "api.chat.completions.create".to_string(),
            "api.extension.diagnostics".to_string(),
            "api.streaming".to_string(),
        ]
    );
    recipe.request.nnrp = Some(object(vec![("cancel_after_events", number("2.5"))]));
    assert_eq!(
        required_api_capabilities(&recipe),
        vec!["api.chat.completions.create".to_string(), "api.streaming".to_string()]
    );
    recipe.required_capabilities = vec!["b".to_string(), "a".to_string(), "b".to_string()];
    assert_eq!(required_api_capabilities(&recipe), vec!["a".to_string(), "b".to_string()]);
}

#[test]
fn experimental_recipes_stay_informational() {
    let mut recipe = sample_api_recipe("experimental-case", true);
    recipe.status = CaseStatus::Experimental;
    let plan = build_api_profile_execution_plan(&sample_api_capabilities(), &vec![recipe], artifacts()).unwrap();
    assert!(plan.cases.is_empty());
    assert_eq!(plan.coverage_matrix[0].summary.informational_cases, 1);
    assert_eq!(plan.coverage_matrix[0].statuses.experimental_cases, 1);
    assert_eq!(plan.coverage_matrix[0].case_ids, vec!["experimental-case".to_string()]);
}

#[test]
fn expected_events_are_matched_in_order() {
    let expected = vec![expected_event("a", false, None), expected_event("b", false, Some(2))];
    validate_expected_api_events(&expected, &vec![observed("a"), observed("b"), observed("b")], "c").unwrap();
    let error = validate_expected_api_events(&expected, &vec![observed("a"), observed("b")], "c").unwrap_err();
    assert_eq!(error.to_string(), "fixture validation failed: api profile case c expected event b at least 2 time(s), got 1");
    let error = validate_expected_api_events(&expected, &vec![observed("b"), observed("b"), observed("a")], "c").unwrap_err();
    assert_eq!(error.to_string(), "fixture validation failed: api profile case c did not observe event b in expected order");
    let optional = vec![expected_event("x", true, None), expected_event("a", false, None)];
    validate_expected_api_events(&optional, &vec![observed("a")], "c").unwrap();
}

#[test]
fn expected_fields_are_contained_in_the_event() {
    let mut expected = expected_event("response.error", false, None);
    expected.fields = Some(object(vec![("error", object(vec![("code", text("backend_error"))]))]));
    let mut event = observed("response.error");
    event.fields = vec![(
        "error".to_string(),
        object(vec![("code", text("backend_error")), ("message", text("boom"))]),
    )];
    validate_expected_api_event_fields(&expected, &event, "c").unwrap();
    event.fields = vec![("error".to_string(), object(vec![("code", text("other"))]))];
    let error = validate_expected_api_event_fields(&expected, &event, "c").unwrap_err();
    assert_eq!(error.to_string(), "fixture validation failed: api profile case c event response.error field error mismatch");
    event.fields = vec![];
    let error = validate_expected_api_event_fields(&expected, &event, "c").unwrap_err();
    assert_eq!(
        error.to_string(),
        "fixture validation failed: api profile case c event response.error missing expected field error"
    );
}

#[test]
fn api_results_reject_unknown_duplicate_and_missing_cases() {
    let plan = build_api_profile_execution_plan(
        &sample_api_capabilities(),
        &vec![sample_api_recipe("one", true), sample_api_recipe("two", false)],
        artifacts(),
    )
    .unwrap();
    let events = || vec![observed("response.output_text.delta")];
    let error = validate_api_profile_results(&plan, &report(vec![passed("three", events())])).unwrap_err();
    assert_eq!(error.to_string(), "fixture validation failed: api profile results contain an unexpected case id: three");
    let error =
        validate_api_profile_results(&plan, &report(vec![passed("one", events()), passed("one", events())])).unwrap_err();
    assert_eq!(error.to_string(), "fixture validation failed: api profile results contain a duplicate case id: one");
    let error = validate_api_profile_results(&plan, &report(vec![passed("one", events())])).unwrap_err();
    assert_eq!(error.to_string(), "fixture validation failed: api profile results are missing 1 selected case(s)");
    let mut other = report(vec![]);
    other.adapter = "other".to_string();
    let error = validate_api_profile_results(&plan, &other).unwrap_err();
    assert_eq!(error.to_string(), "fixture validation failed: api profile adapter mismatch: expected vllm-nnrp-adapter, got other");
    let mut failed = passed("two", vec![]);
    failed.outcome = ApiProfileCaseOutcome::Failed;
    let summary = validate_api_profile_results(&plan, &report(vec![passed("one", events()), failed])).unwrap();
    assert_eq!((summary.selected_cases, summary.passed_cases, summary.failed_cases), (2, 1, 1));
}

#[test]
fn api_results_check_the_terminal() {
    let plan =
        build_api_profile_execution_plan(&sample_api_capabilities(), &vec![sample_api_recipe("one", true)], artifacts()).unwrap();
    let mut result = passed("one", vec![observed("response.output_text.delta")]);
    result.terminal = ApiProfileTerminal::Error;
    let error = validate_api_profile_results(&plan, &report(vec![result])).unwrap_err();
    assert_eq!(error.to_string(), "fixture validation failed: api profile case one terminal mismatch: expected Success, got Error");
}

#[test]
fn json_containment_and_substitution() {
    let actual = object(vec![("a", JsonValue::Array(vec![number("1"), number("2")])), ("b", JsonValue::Null)]);
    assert!(json_value_contains(&actual, &object(vec![("a", JsonValue::Array(vec![number("1")]))])));
    assert!(!json_value_contains(&actual, &object(vec![("a", JsonValue::Array(vec![number("2")]))])));
    assert!(!json_value_contains(&actual, &object(vec![("c", JsonValue::Null)])));
    assert!(json_values_equal(&actual, &copy_json(&actual)));
    assert!(!json_values_equal(&number("1"), &number("1.0")));

    let parameters = vec![("NAME".to_string(), "value".to_string())];
    let template = JsonValue::Array(vec![text("${NAME}"), text("${OTHER}"), text("${NAME"), text("NAME}")]);
    let result = substitute_json_parameters(&template, &parameters);
    let expected = JsonValue::Array(vec![text("value"), text("${OTHER}"), text("${NAME"), text("NAME}")]);
    assert!(json_values_equal(&result, &expected));
}

#[test]
fn provider_fields_do_not_fail_a_passing_case() {
    let mut created = expected_event("response.created", false, None);
    created.fields = Some(object(vec![("id", text("resp_1"))]));
    let expected = vec![created, expected_event("response.completed", false, None)];
    let mut first = observed("response.created");
    first.fields = vec![("id".to_string(), text("resp_1"))];
    let actual = vec![first, observed("response.completed")];
    validate_expected_api_events(&expected, &actual, "c").unwrap();

    let mut widened_first = observed("response.created");
    widened_first.fields = vec![
        ("id".to_string(), text("resp_1")),
        ("x_provider_trace".to_string(), text("private")),
        ("id".to_string(), text("shadowed")),
    ];
    let mut widened_last = observed("response.completed");
    widened_last.fields = vec![("usage".to_string(), object(vec![("total_tokens", number("3"))]))];
    validate_expected_api_events(&expected, &vec![widened_first, widened_last], "c").unwrap();
}
