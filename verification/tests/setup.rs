use agent_hub::access::profile_target;
use agent_hub::agent::{Subagent, Visibility};
use agent_hub::agent_setup::{
    create_agent, create_run_model_bindings, enforce_admin_agent_model_selection,
    read_session_tool_policy, refreshed_routes, settings_of_new_agent, without_model_routes,
    NewAgentRequest,
};
use agent_hub::clock::NANOS;
use agent_hub::client::interpret_response;
use agent_hub::error::Status;
use agent_hub::identity::Role;
use agent_hub::ids::{new_tagged_id, tagged_id};
use agent_hub::integration::{
    attachment_json, external_user_of, load_integration_context, plan_integration_context,
    tool_results, CompletedCall, ContextRun,
};
use agent_hub::integration_app::{platform_starts, validate_integration_app_tool_allowlist};
use agent_hub::json::{integer_json, json_equal, read_texts, Json};
use agent_hub::model_check::trim_service_tier;
use agent_hub::model_settings::{
    overrides_nothing, ModelSelection, ModelSettings, SettingOverride, SettingsOverride,
};
use agent_hub::oauth::oauth_userinfo;
use agent_hub::throttle::{
    check_email_failures, check_ip_attempts, count_email_attempt, count_ip_attempt, Window, WINDOW,
};
use agent_hub::tools::AttachmentRow;
use agent_hub::widget::{advance_cursor, WidgetCredential};

const NOW: i128 = 1_760_000_000 * NANOS;

fn json(text: &str) -> Json {
    interpret_response("/", true, "200 OK", text).unwrap()
}

fn texts(values: &[&str]) -> Vec<String> {
    values.iter().map(|value| value.to_string()).collect()
}

fn model(connection: u128, name: &str) -> ModelSelection {
    ModelSelection { connection_id: connection, model_id: name.to_string() }
}

fn subagent(name: &str, selection: Option<ModelSelection>) -> Subagent {
    Subagent {
        name: name.to_string(),
        description: "Helps".to_string(),
        developer_instructions: "Help.".to_string(),
        model_selection: selection,
        overrides: SettingsOverride {
            reasoning_effort: SettingOverride::Inherit,
            reasoning_summary: SettingOverride::Inherit,
            verbosity: SettingOverride::Inherit,
            context_window_tokens: SettingOverride::Inherit,
            auto_compact_token_limit: SettingOverride::Inherit,
            reasoning_summary_support: SettingOverride::Inherit,
            service_tier: SettingOverride::Inherit,
            provider_request_timeout_ms: SettingOverride::Inherit,
            stream_max_retries: SettingOverride::Inherit,
            stream_idle_timeout_ms: SettingOverride::Inherit,
            request_settings: SettingOverride::Inherit,
        },
        enabled: true,
        disabled_reason: None,
    }
}

#[test]
fn twenty_attempts_of_a_source_pass_a_window() {
    let mut stored = None;
    for attempt in 1..=21 {
        let at = NOW + attempt * NANOS;
        let window = count_ip_attempt(stored, at);
        assert_eq!(window.attempts, attempt as i32);
        assert_eq!(window.started_at, NOW + NANOS);
        let result = check_ip_attempts(window.attempts, window.started_at, at);
        assert_eq!(result.is_ok(), attempt <= 20);
        stored = Some(window);
    }
    let later = count_ip_attempt(stored, NOW + NANOS + WINDOW);
    assert_eq!(later, Window { attempts: 1, started_at: NOW + NANOS + WINDOW });
}

#[test]
fn three_attempts_with_an_address_pass_a_window() {
    let mut stored = None;
    for attempt in 1..=6 {
        let window = count_email_attempt(stored, NOW + attempt);
        assert_eq!(window.attempts, if attempt < 4 { attempt as i32 } else { 4 });
        let result = check_email_failures(window.attempts, window.started_at, NOW + attempt);
        assert_eq!(result.is_ok(), attempt <= 3);
        stored = Some(window);
    }
    assert_eq!(count_email_attempt(None, NOW).attempts, 1);
    assert_eq!(count_email_attempt(stored, NOW + 1 + WINDOW).attempts, 1);
}

fn request() -> NewAgentRequest {
    NewAgentRequest {
        name: " Agent ".to_string(),
        instructions: " Help. ".to_string(),
        visibility: "public_to".to_string(),
        public_to: vec![7, 8],
        subagents: vec![subagent("a", None)],
        tool_allowlist: texts(&["write", "read"]),
    }
}

#[test]
fn new_agents_are_checked_in_order() {
    let known = texts(&["read", "write"]);
    let fields = create_agent(&request(), Role::Member, 1, 2, &known).unwrap();
    assert_eq!(fields.name, "Agent");
    assert_eq!(fields.instructions, "Help.");
    assert_eq!(fields.visibility, Visibility::PublicTo);
    assert_eq!(fields.tool_allowlist, known);
    let refusal = |request: NewAgentRequest, found: i64| {
        create_agent(&request, Role::Member, 1, found, &known).unwrap_err().message
    };
    assert_eq!(
        refusal(NewAgentRequest { name: " ".to_string(), ..request() }, 2),
        "agent name is required"
    );
    assert_eq!(
        refusal(NewAgentRequest { visibility: "x".to_string(), ..request() }, 2),
        "unsupported visibility"
    );
    assert_eq!(
        refusal(NewAgentRequest { visibility: "public".to_string(), ..request() }, 2),
        "administrator permission is required for public agents"
    );
    assert_eq!(refusal(request(), 1), "public_to user does not exist");
    assert_eq!(
        refusal(NewAgentRequest { subagents: vec![subagent("main", None)], ..request() }, 2),
        "Subagent name 'main' is reserved"
    );
    assert_eq!(
        refusal(NewAgentRequest { tool_allowlist: vec![], ..request() }, 2),
        "at least one Agent tool must be enabled"
    );
    let private = NewAgentRequest {
        visibility: "private".to_string(),
        public_to: vec![],
        ..request()
    };
    assert!(create_agent(&private, Role::Member, 1, 0, &known).is_ok());
}

#[test]
fn new_agents_speak_the_protocol_of_their_model() {
    let plain = settings_of_new_agent(None, &None);
    assert_eq!(plain.request_settings.protocol, "openai_responses");
    let chosen = settings_of_new_agent(None, &Some("anthropic_messages".to_string()));
    assert_eq!(chosen.request_settings.protocol, "anthropic_messages");
    assert_eq!(chosen.verbosity, "default");
    let mut own = ModelSettings::default();
    own.verbosity = "low".to_string();
    let kept = settings_of_new_agent(Some(own), &Some("anthropic_messages".to_string()));
    assert_eq!(kept.verbosity, "low");
    assert_eq!(kept.request_settings.protocol, "openai_responses");
}

#[test]
fn changed_agents_stay_on_global_connections() {
    let existing = Some(model(1, "a"));
    let subagents = vec![subagent("x", Some(model(2, "b")))];
    let vet = |requested: Option<ModelSelection>, subagents_now: Vec<Subagent>| {
        enforce_admin_agent_model_selection(&existing, &subagents, &requested, &subagents_now)
            .into_iter()
            .map(|selection| (selection.connection_id, selection.model_id))
            .collect::<Vec<_>>()
    };
    assert!(vet(None, vec![]).is_empty());
    assert!(vet(Some(model(2, "b")), vec![subagent("x", Some(model(1, "a")))]).is_empty());
    let mut disabled = subagent("z", Some(model(9, "z")));
    disabled.enabled = false;
    assert_eq!(
        vet(
            Some(model(1, "c")),
            vec![subagent("y", Some(model(3, "d"))), disabled, subagent("w", None)]
        ),
        vec![(1, "c".to_string()), (3, "d".to_string())]
    );
}

#[test]
fn runs_are_bound_to_distinct_keys() {
    assert_eq!(
        create_run_model_bindings(&None, &vec![]).unwrap_err().message,
        "Agent has no configured model"
    );
    let mut tuned = subagent(" tuned ", None);
    tuned.overrides.verbosity = SettingOverride::Automatic;
    let mut disabled = subagent("off", Some(model(4, "d")));
    disabled.enabled = false;
    let subagents =
        vec![subagent("silent", None), tuned, subagent("own", Some(model(2, "b"))), disabled];
    let bindings = create_run_model_bindings(&Some(model(1, "a")), &subagents).unwrap();
    let seen = bindings
        .iter()
        .map(|binding| {
            (binding.key.as_str(), binding.selection.connection_id, binding.subagent)
        })
        .collect::<Vec<_>>();
    assert_eq!(seen, vec![("main", 1, None), ("tuned", 1, Some(1)), ("own", 2, Some(2))]);
}

#[test]
fn refreshes_name_no_models() {
    let mut tuned = subagent("a", Some(model(1, "m")));
    tuned.overrides.verbosity = SettingOverride::Value("high".to_string());
    let named = vec![tuned];
    let fresh = refreshed_routes(&named);
    assert!(fresh.model_selection.is_none());
    assert_eq!(fresh.model_settings.request_settings.protocol, "openai_responses");
    assert_eq!(fresh.subagents.len(), 1);
    assert!(fresh.subagents[0].model_selection.is_none());
    let plain = without_model_routes(&named);
    assert_eq!(plain[0].name, "a");
    assert!(plain[0].model_selection.is_none());
    assert!(overrides_nothing(&plain[0].overrides));
    match trim_service_tier(&SettingOverride::Value(" fast ".to_string())) {
        SettingOverride::Value(tier) => assert_eq!(tier, "fast"),
        other => panic!("{other:?}"),
    }
}

#[test]
fn session_policies_are_read() {
    let policy = read_session_tool_policy("public_widget", &Some(json("[\"read\"]"))).unwrap();
    assert!(policy.public_widget);
    assert_eq!(policy.app_tool_allowlist, Some(texts(&["read"])));
    let policy = read_session_tool_policy("external", &None).unwrap();
    assert!(!policy.public_widget);
    assert_eq!(policy.app_tool_allowlist, None);
    for stored in ["null", "[1]", "{}"] {
        let refusal = read_session_tool_policy("external", &Some(json(stored))).unwrap_err();
        assert_eq!(refusal.status, Status::Internal);
        assert_eq!(refusal.message, "stored App tool policy is invalid");
    }
    assert_eq!(read_texts(&json("[]")), Some(vec![]));
}

#[test]
fn applications_only_restrict_their_agents() {
    let known = texts(&["read", "write"]);
    let check = |named: usize, tools: Option<Vec<String>>, stored: &[&str]| {
        let stored = stored.iter().map(|text| json(text)).collect();
        validate_integration_app_tool_allowlist(named, &tools, &stored, &known)
    };
    let read = || Some(texts(&["read"]));
    assert!(check(0, None, &[]).is_ok());
    assert!(check(2, read(), &["[\"read\"]", "[\"write\",\"read\"]"]).is_ok());
    for (result, message) in [
        (check(0, read(), &[]), "App tool selection requires at least one Agent"),
        (check(2, read(), &["[\"read\"]"]), "agent not found"),
        (check(1, read(), &["{}"]), "stored Agent tool policy is invalid"),
        (check(1, read(), &["[\"fly\"]"]), "unsupported or duplicate Agent tool"),
        (check(1, read(), &["[\"write\"]"]), "App tools can only further restrict its Agents"),
    ] {
        assert_eq!(result.unwrap_err().message, message);
    }
}

#[test]
fn platforms_are_listed_once() {
    assert_eq!(platform_starts(&vec![]), Vec::<usize>::new());
    assert_eq!(platform_starts(&vec![5, 5, 6, 6, 6, 5]), vec![0, 2, 5]);
}

#[test]
fn streams_go_on_behind_what_they_sent() {
    assert_eq!(advance_cursor(3, &vec![]), 3);
    assert_eq!(advance_cursor(3, &vec![4, 7]), 7);
}

#[test]
fn profiles_need_an_outside_user() {
    let credential = || WidgetCredential {
        id: 1,
        agent_id: 2,
        agent_owner_id: 3,
        owner_id: 3,
        hub_session_id: None,
        oauth_app_id: Some(4),
        external_platform_id: Some(5),
        external_tenant_id: Some("t".to_string()),
        external_user_id: Some("u".to_string()),
        external_identity_id: Some(6),
        expires_at: 0,
        history_enabled: false,
        anonymous: false,
        client_instance_id: Some(7),
        tool_names: Vec::new(),
        allowed_origins: Vec::new(),
    };
    let target = profile_target(&credential()).unwrap();
    assert_eq!((target.identity_id, target.tenant_id.as_str()), (6, "t"));
    assert_eq!(target.external_user_id, "u");
    for (credential, message) in [
        (
            WidgetCredential { external_identity_id: None, ..credential() },
            "external Widget identity is missing",
        ),
        (
            WidgetCredential { external_user_id: None, ..credential() },
            "external Widget user is missing",
        ),
        (
            WidgetCredential { external_tenant_id: None, ..credential() },
            "external Widget tenant is missing",
        ),
    ] {
        assert_eq!(profile_target(&credential).unwrap_err().message, message);
    }
}

#[test]
fn contexts_are_put_together() {
    let attachment = AttachmentRow {
        kind: "text".to_string(),
        name: "a".to_string(),
        content_type: "text/plain".to_string(),
        size_bytes: -12,
        text: Some("x".to_string()),
        url: None,
    };
    let shown = "{\"content_type\":\"text/plain\",\"kind\":\"text\",\"name\":\"a\",\
                 \"size_bytes\":-12,\"text\":\"x\",\"url\":null}";
    assert!(json_equal(&attachment_json(&attachment), &json(shown)));
    assert!(json_equal(&integer_json(i64::MIN), &json("-9223372036854775808")));
    assert!(json_equal(&integer_json(0), &json("0")));
    let run = ContextRun {
        integration_session_id: Some(1),
        client_managed: false,
        after_tools: true,
        parent_run_id: Some(2),
        hub_session_id: Some(3),
    };
    let call = |call_id: u128, payload: Option<&str>, readable: bool| CompletedCall {
        call_id,
        tool_name: "open".to_string(),
        payload: payload.map(json),
        readable,
    };
    let results = vec![call(1, Some("1"), true), call(2, Some("2"), true)];
    let plan = plan_integration_context(run).unwrap().unwrap();
    let context = load_integration_context(
        plan,
        &json("[\"session\"]"),
        &json("[\"client\"]"),
        &vec![attachment],
        &results,
    )
    .unwrap();
    assert!(context.tool_results.is_empty());
    assert!(json_equal(&context.tools, &json("[\"session\"]")));
    assert!(json_equal(&context.attachments, &json(&format!("[{shown}]"))));
    assert!(json_equal(&context.tool_result.unwrap(), &json("2")));
    let fresh = ContextRun { client_managed: true, after_tools: false, ..run };
    let plan = plan_integration_context(fresh).unwrap().unwrap();
    let context =
        load_integration_context(plan, &json("[1]"), &json("[2]"), &vec![], &results).unwrap();
    assert!(json_equal(&context.tools, &json("[2]")));
    assert!(context.tool_result.is_none());
    let resumed = ContextRun { client_managed: true, ..run };
    let plan = plan_integration_context(resumed).unwrap().unwrap();
    let context =
        load_integration_context(plan, &json("[1]"), &json("[2]"), &vec![], &results).unwrap();
    assert!(json_equal(&context.tool_result.unwrap(), &json("2")));
    assert_eq!(context.tool_results.len(), 2);
    let shown = "{\"result\":1,\"tool_call_id\":\"00000000-0000-0000-0000-000000000001\",\
                 \"tool_name\":\"open\"}";
    assert!(json_equal(&context.tool_results[0], &json(shown)));
    let broken = vec![call(1, Some("1"), false)];
    assert_eq!(
        load_integration_context(plan, &json("[1]"), &json("[2]"), &vec![], &broken)
            .unwrap_err()
            .message,
        "stored Client Tool result is invalid"
    );
    assert!(tool_results(&vec![call(1, None, true)]).is_err());
    assert!(external_user_of(None, false).unwrap().is_none());
    assert!(external_user_of(Some(json("{}")), true).unwrap().is_some());
    assert_eq!(
        external_user_of(Some(json("1")), false).unwrap_err().message,
        "Run external user context is invalid"
    );
}

#[test]
fn names_and_subjects_are_given_out() {
    assert_eq!(tagged_id("ahc_", 255), "ahc_000000000000000000000000000000ff");
    let fresh = new_tagged_id("ahc_");
    assert_eq!(fresh.len(), 36);
    assert_ne!(fresh, new_tagged_id("ahc_"));
    assert_eq!(oauth_userinfo(Some(1), Some(2)).unwrap(), (1, 2));
    assert_eq!(
        oauth_userinfo(None, Some(2)).unwrap_err().message,
        "application principal has no userinfo"
    );
    assert_eq!(
        oauth_userinfo(Some(1), None).unwrap_err().message,
        "invalid user application token"
    );
}
