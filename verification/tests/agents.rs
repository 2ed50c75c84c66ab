use agent_hub::agent::{
    agent_access, apply_agent_access, apply_session_tool_policy, check_audience_found, holds_id,
    normalize_visibility, offers_personal_connections, retained_subagent_id, validate_agent_payload,
    validate_model_policy, validate_public_to, validate_public_visibility_role,
    validate_sandbox_policy, validate_subagent_definitions, visibility_name,
    widget_agent_from_agent, Agent, AgentAccess, AgentPayload, SessionToolPolicy, Subagent, Visibility,
};
use agent_hub::agent_config::{
    agent_execution_configuration_changed, execution_skill_package_from_row, execution_skills,
    normalized_unordered_entries, normalized_values, same_id_set, ExecutionConfiguration,
    SecretDeclaration, SkillRow,
};
use agent_hub::agent_flow::{
    begin_bundle_cleanup, begin_run, check_agent_stored, create_run, delete_agent,
    delete_queued_agent_bundles, needs_own_binding, protocol_changed, update_agent, ArchiveStep,
    CleanupAction, CleanupEvent, RunAction, RunEvent, RunRequest, RunState, StoredAgent, UpdateStep,
};
use agent_hub::client::interpret_response;
use agent_hub::error::{ApiError, Status};
use agent_hub::identity::Role;
use agent_hub::json::{json_equal, Json};
use agent_hub::mcp::{
    existing_mcp_secret, merge_mcp_secrets, redact_mcp_secrets, validate_mcp_servers,
};
use agent_hub::model_check::{
    begin_model_check, trim_service_tiers, validate_agent_model_configuration, ModelCheckAction,
    ModelCheckEvent,
};
use agent_hub::model_options::{
    get_agent_model_connection_options, ConnectionScope, ConnectionStatus, ModelConnection,
    ModelOption,
};
use agent_hub::model_settings::{
    check_admin_agent_model_selection, checked_subagent_model_settings,
    effective_subagent_model_settings, overrides_nothing,
    same_selection, settle_admin_choice, validate_agent_model_settings, AdminChoice, ModelSelection,
    ModelSettings, RequestSettings, SettingOverride, SettingsOverride,
};
use agent_hub::order::sort_texts;

const MARKER: &str = "__hidden__";

fn json(text: &str) -> Json {
    interpret_response("/", true, "200 OK", text).unwrap()
}

fn texts(values: &[&str]) -> Vec<String> {
    values.iter().map(|value| value.to_string()).collect()
}

fn inherit() -> SettingsOverride {
    SettingsOverride {
        reasoning_effort: SettingOverride::Inherit,
        reasoning_summary: SettingOverride::Inherit,
        verbosity: SettingOverride::Inherit,
        context_window_tokens: SettingOverride::Inherit,
        auto_compact_token_limit: SettingOverride::Inherit,
        reasoning_summary_support: SettingOverride::Inherit,
        service_tier: SettingOverride::Inherit,
        provider_request_timeout_ms: SettingOverride::Inherit,
        stream_max_retries: SettingOverride::Inherit,
        stream_idle_timeout_ms: SettingOverride::Inherit,
        request_settings: SettingOverride::Inherit,
    }
}

fn subagent(name: &str) -> Subagent {
    Subagent {
        name: name.to_string(),
        description: "Helps".to_string(),
        developer_instructions: "Help.".to_string(),
        model_selection: None,
        overrides: inherit(),
        enabled: true,
        disabled_reason: None,
    }
}

#[test]
fn secrets_of_servers_are_hidden_and_restored() {
    let stored = json(
        "[{\"name\":\"git\",\"command\":\"git-mcp\",\"secrets\":{\"TOKEN\":\"t1\",\"OTHER\":\"t2\"}}]",
    );
    let shown = redact_mcp_secrets(&stored, MARKER);
    assert!(json_equal(
        &shown,
        &json(
            "[{\"name\":\"git\",\"command\":\"git-mcp\",\
              \"secrets\":{\"TOKEN\":\"__hidden__\",\"OTHER\":\"__hidden__\"}}]"
        )
    ));
    assert!(json_equal(&merge_mcp_secrets(&stored, &shown, MARKER), &stored));
    let changed = json("[{\"name\":\"git\",\"secrets\":{\"TOKEN\":\"new\",\"OTHER\":\"__hidden__\"}}]");
    assert!(json_equal(
        &merge_mcp_secrets(&stored, &changed, MARKER),
        &json("[{\"name\":\"git\",\"secrets\":{\"TOKEN\":\"new\",\"OTHER\":\"t2\"}}]")
    ));
    let spaced = json(
        "[{\"name\":\"git\",\"secrets\":{\"T\":\"t1\"}},\
          {\"name\":\" git\",\"secrets\":{\"T\":\"t2\"}},\
          {\"name\":\"\",\"secrets\":{\"T\":\"t3\"}},{\"command\":\"c\"},7]",
    );
    let hidden = redact_mcp_secrets(&spaced, MARKER);
    assert!(json_equal(&merge_mcp_secrets(&spaced, &hidden, MARKER), &spaced));
    assert_eq!(existing_mcp_secret(&stored, Some("git"), "TOKEN"), Some("t1"));
    assert_eq!(existing_mcp_secret(&stored, Some("svn"), "TOKEN"), None);
    assert_eq!(existing_mcp_secret(&stored, None, "TOKEN"), None);
}

#[test]
fn servers_are_validated() {
    let check = |text: &str| validate_mcp_servers(&json(text), MARKER);
    assert!(check("[{\"name\":\"a\",\"command\":\"c\",\"args\":[\"x\"],\"secrets\":{\"K\":\"v\"}}]").is_ok());
    assert!(check("[]").is_ok());
    for (text, message) in [
        ("{}", "MCP allowlist must be a JSON array"),
        ("[1]", "MCP entries must be JSON objects"),
        ("[{\"name\":\"a\",\"url\":1}]", "MCP entries only support name, command, args, and secrets"),
        ("[{\"name\":\" \"}]", "MCP name is required"),
        ("[{\"name\":\"a\"},{\"name\":\"a\"}]", "MCP names must be unique"),
        ("[{\"name\":\"a\",\"command\":1}]", "MCP command must be a string"),
        ("[{\"name\":\"a\",\"args\":{}}]", "MCP args must be a JSON array"),
        ("[{\"name\":\"a\",\"args\":[1]}]", "MCP args must be strings"),
        ("[{\"name\":\"a\",\"secrets\":[]}]", "MCP secrets must be a JSON object"),
        ("[{\"name\":\"a\",\"secrets\":{\"K\":1}}]", "MCP secret values must be strings"),
        (
            "[{\"name\":\"a\",\"secrets\":{\"K\":\"__hidden__\"}}]",
            "MCP redacted secret cannot be saved without an existing value",
        ),
    ] {
        assert_eq!(check(text).unwrap_err().message, message, "{text}");
    }
}

fn settings() -> ModelSettings {
    ModelSettings::default()
}

fn validated(change: &dyn Fn(&mut ModelSettings)) -> Result<ModelSettings, ApiError> {
    let mut changed = settings();
    change(&mut changed);
    validate_agent_model_settings(changed, Ok(RequestSettings::for_protocol("openai_responses")))
}

#[test]
fn model_settings_are_bounded() {
    assert_eq!(settings().reasoning_effort, "default");
    assert_eq!(settings().reasoning_summary_support, "auto");
    assert_eq!(settings().request_settings.protocol, "openai_responses");
    let tier = validated(&|s| s.service_tier = Some(" fast ".to_string())).unwrap();
    assert_eq!(tier.service_tier, Some("fast".to_string()));
    assert_eq!(validated(&|s| s.service_tier = Some("  ".to_string())).unwrap().service_tier, None);
    for (result, message) in [
        (
            validated(&|s| s.context_window_tokens = Some(0)),
            "Agent Model Settings context window must be a positive signed 64-bit integer",
        ),
        (
            validated(&|s| s.auto_compact_token_limit = Some(u64::MAX)),
            "Agent Model Settings automatic compact limit must be a positive signed 64-bit integer",
        ),
        (
            validated(&|s| s.provider_request_timeout_ms = Some(0)),
            "Agent Model Settings provider request timeout must be a positive signed 64-bit integer",
        ),
        (
            validated(&|s| s.stream_idle_timeout_ms = Some(0)),
            "Agent Model Settings stream idle timeout must be a positive signed 64-bit integer",
        ),
        (
            validated(&|s| {
                s.context_window_tokens = Some(10);
                s.auto_compact_token_limit = Some(11);
            }),
            "Agent Model Settings automatic compact limit cannot exceed the context window",
        ),
        (
            validated(&|s| s.stream_max_retries = Some(101)),
            "Agent Model Settings retry counts must be between 0 and 100",
        ),
        (
            validated(&|s| s.service_tier = Some("x".repeat(65))),
            "Agent Model Settings service tier must not exceed 64 characters or contain controls",
        ),
    ] {
        assert_eq!(result.unwrap_err().message, message);
    }
    let refused = validate_agent_model_settings(settings(), Err(ApiError::bad_request("options")));
    assert_eq!(refused.unwrap_err().message, "options");
}

#[test]
fn subagents_inherit_what_they_do_not_say() {
    let mut parent = settings();
    parent.verbosity = "high".to_string();
    parent.context_window_tokens = Some(1_000);
    let same = effective_subagent_model_settings(&parent, &inherit(), "openai_responses", false);
    assert_eq!(same.verbosity, "high");
    assert_eq!(same.context_window_tokens, Some(1_000));
    let overrides = SettingsOverride {
        verbosity: SettingOverride::Automatic,
        context_window_tokens: SettingOverride::Value(5),
        ..inherit()
    };
    assert!(overrides_nothing(&inherit()));
    assert!(!overrides_nothing(&overrides));
    let own = effective_subagent_model_settings(&parent, &overrides, "openai_responses", false);
    assert_eq!(own.verbosity, "default");
    assert_eq!(own.context_window_tokens, Some(5));
    let moved = effective_subagent_model_settings(&parent, &inherit(), "anthropic", true);
    assert_eq!(moved.request_settings.protocol, "anthropic");
    assert!(protocol_changed(true, "anthropic", "openai_responses"));
    assert!(!protocol_changed(false, "anthropic", "openai_responses"));
    assert!(!needs_own_binding(&subagent("a")));
    assert!(needs_own_binding(&Subagent { overrides, ..subagent("a") }));
}

#[test]
fn subagents_have_settings_that_are_accepted() {
    let parent = settings();
    let request = || Ok(RequestSettings::for_protocol("openai_responses"));
    let own = |overrides: SettingsOverride| {
        checked_subagent_model_settings(&parent, &overrides, "openai_responses", false, request())
    };
    let tier = SettingsOverride {
        service_tier: SettingOverride::Value(" fast ".to_string()),
        ..inherit()
    };
    assert_eq!(own(tier).unwrap().service_tier, Some("fast".to_string()));
    let empty =
        SettingsOverride { context_window_tokens: SettingOverride::Value(0), ..inherit() };
    let error = own(empty).unwrap_err();
    assert_eq!(error.status, Status::BadRequest);
    assert_eq!(
        error.message,
        "Agent Model Settings context window must be a positive signed 64-bit integer"
    );
    let refused = checked_subagent_model_settings(
        &parent,
        &inherit(),
        "anthropic",
        true,
        Err(ApiError::bad_request("options")),
    );
    assert_eq!(refused.unwrap_err().message, "options");
}

fn chosen(model: &str) -> Option<ModelSelection> {
    Some(ModelSelection { connection_id: 1, model_id: model.to_string() })
}

/// Runs a check to its end: a model `x` is not permitted, any other has the
/// protocol that it is named after, and no options are accepted in `strict`.
fn check_models(
    selection: Option<ModelSelection>,
    settings: ModelSettings,
    subagents: &Vec<Subagent>,
) -> (Result<ModelSettings, ApiError>, Vec<String>) {
    let mut asked = Vec::new();
    let (mut state, mut action) = begin_model_check(&selection, &settings);
    loop {
        let event = match action {
            ModelCheckAction::LookUp(selection) => {
                asked.push(format!("look up {}", selection.model_id));
                ModelCheckEvent::Protocol(
                    (selection.model_id != "x").then_some(selection.model_id),
                )
            }
            ModelCheckAction::CheckRequest { protocol, settings } => {
                asked.push(format!("check {protocol}/{}", settings.protocol));
                ModelCheckEvent::Request(if protocol == "strict" {
                    Err(ApiError::bad_request("no options"))
                } else {
                    Ok(settings)
                })
            }
            ModelCheckAction::Finish(settings) => return (Ok(settings), asked),
            ModelCheckAction::Refuse(error) => return (Err(error), asked),
        };
        (state, action) = validate_agent_model_configuration(&settings, subagents, state, event);
    }
}

#[test]
fn models_of_agents_and_subagents_are_checked_in_order() {
    let mut tiered = subagent("tiered");
    tiered.overrides.service_tier = SettingOverride::Value(" fast ".to_string());
    let mut idle = Subagent { enabled: false, model_selection: chosen("x"), ..subagent("idle") };
    idle.overrides.service_tier = SettingOverride::Value(" fast ".to_string());
    let mut subagents = vec![
        idle,
        tiered,
        Subagent { model_selection: chosen("anthropic"), ..subagent("own") },
    ];
    trim_service_tiers(&mut subagents);
    assert!(matches!(
        &subagents[0].overrides.service_tier,
        SettingOverride::Value(tier) if tier == " fast "
    ));
    assert!(matches!(
        &subagents[1].overrides.service_tier,
        SettingOverride::Value(tier) if tier == "fast"
    ));
    let (result, asked) = check_models(chosen("openai"), settings(), &subagents);
    assert_eq!(result.unwrap().request_settings.protocol, "openai_responses");
    assert_eq!(
        asked,
        [
            "look up openai",
            "check openai/openai_responses",
            "check openai/openai_responses",
            "look up anthropic",
            "check anthropic/anthropic",
        ]
    );
    let (result, asked) = check_models(None, settings(), &vec![]);
    assert!(result.is_ok());
    assert_eq!(asked, ["check openai_responses/openai_responses"]);
    let permitted = "Agent model selection must be an allowed model on an enabled Global or \
                     Agent-owner Personal Model API Connection";
    let (result, asked) = check_models(chosen("x"), settings(), &subagents);
    let error = result.unwrap_err();
    assert_eq!((error.status, error.message.as_str()), (Status::BadRequest, permitted));
    assert_eq!(asked, ["look up x"]);
    subagents[0].enabled = true;
    let (result, asked) = check_models(chosen("openai"), settings(), &subagents);
    assert_eq!(result.unwrap_err().message, permitted);
    assert_eq!(asked.last().unwrap(), "look up x");
    subagents[0].model_selection = chosen("strict");
    let (result, _) = check_models(chosen("openai"), settings(), &subagents);
    assert_eq!(result.unwrap_err().message, "no options");
    let mut bad = settings();
    bad.stream_max_retries = Some(101);
    let (result, asked) = check_models(chosen("openai"), bad, &subagents);
    assert_eq!(
        result.unwrap_err().message,
        "Agent Model Settings retry counts must be between 0 and 100"
    );
    assert_eq!(asked.len(), 2);
}

#[test]
fn personal_connections_stay_with_the_owner() {
    let connection = |id: u128, scope: &str, owner: Option<u128>, enabled: bool| ModelConnection {
        id,
        name: format!("c{id}"),
        api_type: "openai_responses".to_string(),
        allowed_model_ids: texts(&["m1", "m2"]),
        scope: scope.to_string(),
        owner_id: owner,
        enabled,
    };
    let connections = vec![
        connection(1, "global", None, true),
        connection(2, "personal", Some(10), false),
        connection(3, "personal", Some(11), true),
    ];
    // The agent belongs to the member 10.
    let offered = |user: u128, role: Role| {
        get_agent_model_connection_options(&connections, 10, user, role)
    };
    let ids = |options: &Vec<ModelOption>| -> Vec<u128> {
        options.iter().map(|option| option.connection_id).collect()
    };
    let administrator = offered(20, Role::Admin);
    assert_eq!(ids(&administrator), [1, 1]);
    assert!(administrator.iter().all(|option| option.scope == ConnectionScope::Global));
    assert_eq!(ids(&offered(20, Role::Member)), [1, 1]);
    assert_eq!(ids(&offered(20, Role::SuperAdmin)), [1, 1, 2, 2]);
    let owner = offered(10, Role::Member);
    assert_eq!(ids(&owner), [1, 1, 2, 2]);
    assert_eq!(owner[0].status, ConnectionStatus::Enabled);
    assert_eq!(owner[0].model_id, "m1");
    assert_eq!(owner[1].model_id, "m2");
    assert_eq!(owner[3].status, ConnectionStatus::Disabled);
    assert_eq!(owner[3].scope, ConnectionScope::Personal);
    assert_eq!(owner[3].connection_name, "c2");
    assert_eq!(owner[3].api_type, "openai_responses");
}

#[test]
fn administrators_stay_on_global_connections() {
    let selection = |model: &str| ModelSelection { connection_id: 1, model_id: model.to_string() };
    assert!(same_selection(&Some(selection("m")), &Some(selection("m"))));
    assert!(!same_selection(&Some(selection("m")), &None));
    let retained = vec![selection("m")];
    assert_eq!(
        check_admin_agent_model_selection(&retained, &Some(selection("m"))),
        AdminChoice::Kept
    );
    assert_eq!(check_admin_agent_model_selection(&retained, &None), AdminChoice::Kept);
    assert_eq!(
        check_admin_agent_model_selection(&retained, &Some(selection("n"))),
        AdminChoice::MustBeGlobal
    );
    assert!(settle_admin_choice(AdminChoice::Kept, false).is_ok());
    assert!(settle_admin_choice(AdminChoice::MustBeGlobal, true).is_ok());
    assert_eq!(
        settle_admin_choice(AdminChoice::MustBeGlobal, false).unwrap_err().message,
        "admin model changes are limited to Global connections"
    );
}

#[test]
fn visibility_has_an_audience() {
    for visibility in [Visibility::Private, Visibility::PublicTo, Visibility::Public] {
        assert_eq!(normalize_visibility(visibility_name(visibility)).unwrap(), visibility);
    }
    assert_eq!(normalize_visibility("open").unwrap_err().message, "unsupported visibility");
    assert!(validate_public_visibility_role(Visibility::Public, Role::Admin).is_ok());
    assert!(validate_public_visibility_role(Visibility::PublicTo, Role::Member).is_ok());
    assert_eq!(
        validate_public_visibility_role(Visibility::Public, Role::Member).unwrap_err().message,
        "administrator permission is required for public agents"
    );
    assert!(validate_public_to(Visibility::PublicTo, &vec![2, 3], 1).is_ok());
    assert!(validate_public_to(Visibility::Private, &vec![], 1).is_ok());
    for (result, message) in [
        (
            validate_public_to(Visibility::Private, &vec![2], 1),
            "public_to users require public_to visibility",
        ),
        (
            validate_public_to(Visibility::PublicTo, &vec![], 1),
            "public_to visibility requires at least one user",
        ),
        (
            validate_public_to(Visibility::PublicTo, &vec![2, 2], 1),
            "public_to users must be unique and exclude the owner",
        ),
        (
            validate_public_to(Visibility::PublicTo, &vec![1], 1),
            "public_to users must be unique and exclude the owner",
        ),
        (check_audience_found(2, 1), "public_to user does not exist"),
    ] {
        assert_eq!(result.unwrap_err().message, message);
    }
    assert!(check_audience_found(2, 2).is_ok());
    assert!(holds_id(&vec![1, 2], 2));
}

#[test]
fn policies_are_checked() {
    let model = |text: &str| validate_model_policy(&json(text));
    assert!(model("{\"provider\":\"hub-proxy\"}").is_ok());
    assert!(model("{\"provider\":\"hub-proxy\",\"base_url\":\"u\"}").is_ok());
    assert!(model("{\"provider\":\"hub-proxy\",\"base_url\":null}").is_err());
    for (text, message) in [
        ("[]", "model policy must be a JSON object"),
        ("{}", "model provider is required"),
        ("{\"provider\":\"x\"}", "unsupported model provider"),
        ("{\"provider\":\"hub-proxy\",\"base_url\":1}", "model base_url must be a string"),
    ] {
        assert_eq!(model(text).unwrap_err().message, message);
    }
    let sandbox = |text: &str| validate_sandbox_policy(&json(text));
    assert!(sandbox("{\"mode\":\"read-only\",\"network_access\":false}").is_ok());
    for (text, message) in [
        ("1", "sandbox policy must be a JSON object"),
        ("{}", "sandbox mode is required"),
        ("{\"mode\":\"full\"}", "unsupported sandbox mode"),
        ("{\"mode\":\"read-only\"}", "sandbox network_access must be a boolean"),
    ] {
        assert_eq!(sandbox(text).unwrap_err().message, message);
    }
    let payload = |name: &str| AgentPayload {
        name: name.to_string(),
        tool_allowlist: texts(&["read"]),
        model_policy: json("{\"provider\":\"hub-proxy\"}"),
        sandbox_policy: json("{\"mode\":\"read-only\",\"network_access\":false}"),
        mcp_allowlist: json("[]"),
    };
    assert!(validate_agent_payload(&payload("A"), &texts(&["read"]), MARKER).is_ok());
    assert_eq!(
        validate_agent_payload(&payload(" "), &texts(&["read"]), MARKER).unwrap_err().message,
        "agent name is required"
    );
    assert!(validate_agent_payload(&payload("A"), &texts(&["write"]), MARKER).is_err());
}

#[test]
fn subagents_are_distinct_and_described() {
    assert!(validate_subagent_definitions(&vec![subagent("a"), subagent("b")]).is_ok());
    let refusal = |definitions: Vec<Subagent>| {
        validate_subagent_definitions(&definitions).unwrap_err().message
    };
    assert_eq!(
        refusal(vec![subagent("a b")]),
        "Subagent name must use 1 to 64 letters, digits, hyphens, or underscores"
    );
    assert_eq!(refusal(vec![subagent("a"), subagent("A")]), "Subagent names must be unique");
    assert_eq!(refusal(vec![subagent("Main")]), "Subagent name 'main' is reserved");
    assert_eq!(
        refusal(vec![Subagent { description: " ".to_string(), ..subagent("a") }]),
        "Subagent description must be 1 to 512 characters"
    );
    assert_eq!(
        refusal(vec![Subagent { developer_instructions: String::new(), ..subagent("a") }]),
        "Subagent developer instructions are required and must not exceed 100000 bytes"
    );
    assert_eq!(
        refusal(vec![Subagent {
            disabled_reason: Some("model_connection_deleted".to_string()),
            ..subagent("a")
        }]),
        "enabled Subagents cannot have a disabled reason"
    );
    assert_eq!(
        refusal(vec![Subagent { enabled: false, ..subagent("a") }]),
        "disabled Subagents must retain the deleted-model reason without an override"
    );
    assert!(validate_subagent_definitions(&vec![Subagent {
        enabled: false,
        disabled_reason: Some("model_selection_removed".to_string()),
        ..subagent("a")
    }])
    .is_ok());
    let many = (0..33).map(|i| subagent(&format!("s{i}"))).collect();
    assert_eq!(refusal(many), "an Agent supports at most 32 Subagents");
    let stored = vec![("a".to_string(), 1), ("b".to_string(), 2)];
    assert_eq!(retained_subagent_id(&stored, "b"), Some(2));
    assert_eq!(retained_subagent_id(&stored, "c"), None);
}

fn agent() -> Agent {
    Agent {
        id: 1,
        name: "Helper".to_string(),
        instructions: "Help.".to_string(),
        owner_id: 2,
        visibility: Visibility::PublicTo,
        public_to: vec![3],
        runtime_id: Some(4),
        model_selection: Some(ModelSelection { connection_id: 5, model_id: "m".to_string() }),
        model_settings: settings(),
        subagents: vec![subagent("a")],
        model_policy: json("{\"provider\":\"hub-proxy\"}"),
        sandbox_policy: json("{\"mode\":\"read-only\"}"),
        managed_skill_ids: vec![6],
        mcp_allowlist: json("[{\"name\":\"git\",\"secrets\":{\"T\":\"v\"}}]"),
        tool_allowlist: texts(&["read"]),
        is_owner: false,
        access: AgentAccess { can_manage: false, can_administer: false, can_invoke: false },
    }
}

#[test]
fn configuration_is_private() {
    let owner = apply_agent_access(agent(), 2, Role::Member, MARKER);
    assert!(owner.is_owner);
    assert!(owner.access.can_manage && owner.access.can_invoke);
    assert!(json_equal(
        &owner.mcp_allowlist,
        &json("[{\"name\":\"git\",\"secrets\":{\"T\":\"__hidden__\"}}]")
    ));
    let guest = apply_agent_access(agent(), 3, Role::Member, MARKER);
    assert!(!guest.is_owner && !guest.access.can_manage && guest.access.can_invoke);
    assert!(guest.model_selection.is_none());
    assert!(guest.subagents.is_empty());
    assert!(json_equal(&guest.mcp_allowlist, &json("[]")));
    assert_eq!(guest.name, "Helper");
    let shown = widget_agent_from_agent(agent());
    assert_eq!((shown.id, shown.name.as_str(), shown.instructions.as_str()), (1, "Helper", "Help."));
    let stranger = agent_access(2, Visibility::PublicTo, &vec![3], 9, Role::Member);
    assert!(!stranger.can_invoke);
    let admin = agent_access(2, Visibility::Private, &vec![], 9, Role::Admin);
    assert!(admin.can_administer && !admin.can_invoke);
    assert!(offers_personal_connections(true, Role::Member));
    assert!(offers_personal_connections(false, Role::SuperAdmin));
    assert!(!offers_personal_connections(false, Role::Admin));
}

#[test]
fn sessions_only_take_tools_away() {
    let known = texts(&["read", "write", "shell"]);
    let public = texts(&["read"]);
    let apply = |tools: &[&str], widget: bool, app: Option<Vec<String>>| {
        let mut tools = texts(tools);
        let mut sandbox = json("{\"mode\":\"workspace-write\"}");
        let mut servers = json("[{\"name\":\"git\"}]");
        let policy = SessionToolPolicy { public_widget: widget, app_tool_allowlist: app };
        let result = apply_session_tool_policy(
            &mut tools,
            &mut sandbox,
            &mut servers,
            &policy,
            &known,
            &public,
        );
        (result, tools, sandbox, servers)
    };
    let (result, tools, sandbox, servers) =
        apply(&["shell", "read"], false, Some(texts(&["shell"])));
    assert!(result.is_ok());
    assert_eq!(tools, texts(&["shell"]));
    assert!(json_equal(&sandbox, &json("{\"mode\":\"workspace-write\"}")));
    assert!(json_equal(&servers, &json("[{\"name\":\"git\"}]")));
    let (result, tools, sandbox, servers) = apply(&["shell", "read"], true, None);
    assert!(result.is_ok());
    assert_eq!(tools, texts(&["read"]));
    assert!(json_equal(&sandbox, &json("{\"mode\":\"read-only\",\"network_access\":false}")));
    assert!(json_equal(&servers, &json("[]")));
    assert_eq!(
        apply(&["shell"], true, None).0.unwrap_err().message,
        "public Widget Agent must enable at least one read-only file tool"
    );
    assert_eq!(
        apply(&["shell"], false, Some(texts(&["read"]))).0.unwrap_err().message,
        "effective Agent tool policy is empty"
    );
}

fn execution() -> ExecutionConfiguration {
    ExecutionConfiguration {
        instructions: "Help.".to_string(),
        model_selection: None,
        model_settings: json("{}"),
        subagents: vec![json("{\"name\":\"a\"}"), json("{\"name\":\"b\"}")],
        model_policy: json("{}"),
        sandbox_policy: json("{}"),
        mcp_allowlist: json("[{\"name\":\"x\"},{\"name\":\"y\"}]"),
        tool_allowlist: texts(&["read"]),
        managed_skill_ids: vec![1, 2],
        secret_declarations: Some(vec![SecretDeclaration {
            name: "TOKEN".to_string(),
            kind: json("\"env\""),
            description: Json::Null,
        }]),
    }
}

#[test]
fn order_does_not_change_what_runs() {
    let turned = ExecutionConfiguration {
        subagents: vec![json("{\"name\":\"b\"}"), json("{\"name\":\"a\"}")],
        mcp_allowlist: json("[{\"name\":\"y\"},{\"name\":\"x\"}]"),
        managed_skill_ids: vec![2, 1],
        ..execution()
    };
    assert!(!agent_execution_configuration_changed(&execution(), &turned));
    assert!(!agent_execution_configuration_changed(&execution(), &execution()));
    for changed in [
        ExecutionConfiguration { instructions: "Go.".to_string(), ..execution() },
        ExecutionConfiguration { managed_skill_ids: vec![1], ..execution() },
        ExecutionConfiguration { tool_allowlist: texts(&["write"]), ..execution() },
        ExecutionConfiguration { sandbox_policy: json("{\"mode\":1}"), ..execution() },
        ExecutionConfiguration { mcp_allowlist: json("[{\"name\":\"x\"}]"), ..execution() },
        ExecutionConfiguration { secret_declarations: Some(vec![]), ..execution() },
    ] {
        assert!(agent_execution_configuration_changed(&execution(), &changed));
    }
    assert_eq!(sort_texts(&texts(&["b", "a", "é", "a"])), texts(&["a", "a", "b", "é"]));
    assert_eq!(sort_texts(&texts(&["ab", "a", "B", ""])), texts(&["", "B", "a", "ab"]));
    assert!(same_id_set(&vec![1, 1, 2], &vec![2, 1]));
    assert_eq!(
        normalized_values(&vec![json("{\"b\":1,\"a\":2}")]),
        texts(&["{\"a\":2,\"b\":1}"])
    );
    assert_eq!(
        normalized_values(&vec![json("\"b\""), json("{}"), json("\"a\"")]),
        texts(&["\"a\"", "\"b\"", "{}"])
    );
    assert_eq!(normalized_unordered_entries(&json("[2,1,2]")), texts(&["1", "2", "2"]));
    assert!(normalized_unordered_entries(&json("{\"a\":1}")).is_empty());
}

fn skill(id: u128, name: &str, description: &str) -> SkillRow {
    SkillRow {
        id,
        name: name.to_string(),
        description: description.to_string(),
        content: "c".to_string(),
        revision: 3,
        checksum: "s".to_string(),
        package: execution_skill_package_from_row(
            Some(id + 100),
            2,
            4096,
            "p".to_string(),
            json("[\"SKILL.md\"]"),
        ),
    }
}

#[test]
fn skills_of_a_run_are_brought_with_their_packages() {
    let rows = vec![skill(1, "b", " "), skill(2, "a", "d"), skill(3, "b", "last")];
    let skills = execution_skills(&rows);
    assert_eq!(skills.len(), 2);
    assert_eq!((skills[0].name.as_str(), skills[0].source_id), ("a", Some(2)));
    assert_eq!((skills[1].description.as_str(), skills[1].source_id), ("last", Some(3)));
    assert_eq!(skills[0].source, "managed");
    assert_eq!(skills[0].revision, 3);
    let package = skills[1].package.as_ref().unwrap();
    assert_eq!((package.id, package.format_version, package.size_bytes), (103, 2, 4096));
    assert_eq!(package.checksum, "p");
    assert!(json_equal(&package.files, &json("[\"SKILL.md\"]")));
    assert_eq!(execution_skills(&vec![skill(1, "b", " ")])[0].description, "b");
    let bare = execution_skill_package_from_row(None, -1, -1, String::new(), json("null"));
    assert!(bare.is_none());
}

#[test]
fn console_messages_stay_in_hub_sessions() {
    let fresh = RunRequest { hub_session_id: None, parent_run_id: None };
    let (mut state, mut action) = begin_run(fresh);
    let mut seen = Vec::new();
    for event in [
        RunEvent::AgentLoaded,
        RunEvent::MissingGrants(vec![]),
        RunEvent::AgentReady,
        RunEvent::SessionCreated(9),
        RunEvent::Accepted(true),
    ] {
        seen.push(action);
        (state, action) = create_run(fresh, state, event);
    }
    assert!(matches!(
        seen[..],
        [
            RunAction::LoadAgent,
            RunAction::FindMissingGrants,
            RunAction::RequireReadyAgent,
            RunAction::CreateSession,
            RunAction::Accept(9)
        ]
    ));
    assert!(matches!(action, RunAction::Finish { make_title: true }));
    assert_eq!(state, RunState::Closed);
    let reply = RunRequest { hub_session_id: Some(7), parent_run_id: None };
    let (state, action) = begin_run(reply);
    assert!(matches!(action, RunAction::FindSessionOrigin(7)));
    let refused = |state: RunState, event: RunEvent| match create_run(reply, state, event).1 {
        RunAction::Refuse(refusal) => refusal.message,
        other => panic!("{other:?}"),
    };
    assert_eq!(
        refused(state, RunEvent::OriginIs(Some(false))),
        "External Sessions are read-only in the Hub console"
    );
    assert_eq!(
        refused(RunState::Session(7), RunEvent::SessionIs(None)),
        "Session is not available"
    );
    assert_eq!(
        refused(RunState::ParentSession, RunEvent::ParentSessionIs(None)),
        "resume parent run is not available"
    );
    assert_eq!(
        refused(RunState::Acceptance(false), RunEvent::Accepted(false)),
        "console message did not schedule a run"
    );
    let missing = vec!["TOKEN".to_string()];
    match create_run(reply, RunState::Grants, RunEvent::MissingGrants(missing)).1 {
        RunAction::AskForGrants(secrets) => assert_eq!(secrets, ["TOKEN"]),
        other => panic!("{other:?}"),
    }
    assert!(matches!(
        create_run(reply, RunState::Grants, RunEvent::MissingGrants(vec![])).1,
        RunAction::FindSession(7)
    ));
}

#[test]
fn changes_are_checked_first() {
    assert_eq!(
        update_agent(true, false, Role::Admin, true),
        vec![
            UpdateStep::CheckPayload,
            UpdateStep::CheckRuntime,
            UpdateStep::CheckSkills,
            UpdateStep::CheckSubagents,
            UpdateStep::CheckVisibility,
            UpdateStep::CheckAudience,
            UpdateStep::CheckModels,
            UpdateStep::CheckAdminModels,
            UpdateStep::StoreAgent,
            UpdateStep::RefreshSessions,
            UpdateStep::ReplaceSkills,
            UpdateStep::ReplaceSubagents,
            UpdateStep::ReplaceDeclarations,
        ]
    );
    assert_eq!(update_agent(false, true, Role::Member, false).len(), 10);
    assert!(check_agent_stored(1).is_ok());
    assert_eq!(check_agent_stored(0).unwrap_err().message, "agent not found");
}

#[test]
fn archiving_happens_once() {
    let stored = Some(StoredAgent { owner_id: 1, archived: false });
    let plan = delete_agent(stored, 1, Role::Member).unwrap();
    assert_eq!(plan.len(), 16);
    assert_eq!(plan[0], ArchiveStep::QueueBundles);
    assert_eq!(plan[15], ArchiveStep::RetireAgent);
    assert_eq!(delete_agent(stored, 2, Role::Admin).unwrap().len(), 16);
    assert_eq!(
        delete_agent(stored, 2, Role::Member).unwrap_err().message,
        "agent management permission is required"
    );
    assert_eq!(delete_agent(None, 1, Role::Admin).unwrap_err().status, Status::NotFound);
    let gone = Some(StoredAgent { owner_id: 1, archived: true });
    assert!(delete_agent(gone, 1, Role::Member).unwrap().is_empty());
}

#[test]
fn every_bundle_is_tried() {
    let (start, action) = begin_bundle_cleanup();
    assert!(matches!(action, CleanupAction::List));
    let (state, action) = delete_queued_agent_bundles(
        start,
        CleanupEvent::Listed { count: 2, store_configured: true },
    );
    assert!(matches!(action, CleanupAction::Delete(0)));
    let (state, action) = delete_queued_agent_bundles(state, CleanupEvent::DeleteFailed);
    assert!(matches!(action, CleanupAction::Delete(1)));
    let (_, action) = delete_queued_agent_bundles(state, CleanupEvent::Deleted);
    assert!(matches!(
        action,
        CleanupAction::Refuse(refusal)
            if refusal.message == "failed to delete one or more Session Bundle objects"
    ));
    assert!(matches!(
        delete_queued_agent_bundles(start, CleanupEvent::Listed { count: 0, store_configured: false })
            .1,
        CleanupAction::Finish
    ));
    assert!(matches!(
        delete_queued_agent_bundles(start, CleanupEvent::Listed { count: 1, store_configured: false })
            .1,
        CleanupAction::Refuse(refusal)
            if refusal.message == "Session Bundle object storage is not configured"
    ));
}
