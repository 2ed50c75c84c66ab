use agent_hub::access::{
    admit_visitor, admit_vouched_user, check_client_instance, check_profile_client,
    check_single_agent, expires_after, identify_visitor, new_access_token, prepare_client_access,
    recover_session, rotate_client_access,
};
use agent_hub::client::interpret_response;
use agent_hub::clock::NANOS;
use agent_hub::digest::sha256_hex;
use agent_hub::identity::Role;
use agent_hub::integration::{
    check_bound_identity, check_message_run, check_widget_exchange, create_integration_session,
    integration_run_model_attribution, plan_integration_context, prepare_integration_session,
    stored_grant, ContextRun, GrantType, IntegrationPrincipal, SessionSubject,
};
use agent_hub::integration_app::{
    sort_ids, validate_integration_app, validate_integration_app_agents, AppRequest, ToolLimits,
};
use agent_hub::json::Json;
use agent_hub::web::{HeaderValues, OriginHeaders};
use agent_hub::widget::WidgetCredential;
use agent_hub::widget_profile::WidgetUserProfile;
use agent_hub::widget_run::ModelSubject;

fn json(text: &str) -> Json {
    interpret_response("/", true, "200 OK", text).unwrap()
}

fn texts(values: &[&str]) -> Vec<String> {
    values.iter().map(|value| value.to_string()).collect()
}

fn headers(origin: Option<&str>) -> OriginHeaders {
    OriginHeaders {
        embedded: HeaderValues { count: 0, first: None },
        fetch_site: None,
        origin: HeaderValues {
            count: if origin.is_some() { 1 } else { 0 },
            first: origin.map(str::to_string),
        },
    }
}

fn profile() -> WidgetUserProfile {
    WidgetUserProfile {
        username: Some(" ann ".to_string()),
        display_name: None,
        email: Some("Ann@Example.com".to_string()),
        attributes: json("{}"),
    }
}

fn credential(app: Option<u128>, anonymous: bool, client: Option<u128>) -> WidgetCredential {
    WidgetCredential {
        id: 1,
        agent_id: 2,
        agent_owner_id: 3,
        owner_id: 3,
        hub_session_id: None,
        oauth_app_id: app,
        external_platform_id: None,
        external_tenant_id: None,
        external_user_id: None,
        external_identity_id: None,
        expires_at: 0,
        history_enabled: false,
        anonymous,
        client_instance_id: client,
        tool_names: Vec::new(),
        allowed_origins: Vec::new(),
    }
}

#[test]
fn clients_identify_themselves() {
    assert!(check_client_instance(1).is_ok());
    assert_eq!(
        check_client_instance(0).unwrap_err().message,
        "valid Client Instance id is required"
    );
    let prepared =
        prepare_client_access(Some("Basic Y2xpZW50OnNlOmNyZXQ="), 1, &vec![], 10, 100).unwrap();
    assert_eq!(prepared.client_id, "client");
    assert_eq!(prepared.client_secret, "se:cret");
    assert!(prepare_client_access(None, 1, &vec![], 10, 100).is_err());
    assert!(prepare_client_access(Some("Basic Y2xpZW50OnNlOmNyZXQ="), 0, &vec![], 10, 100).is_err());
}

#[test]
fn vouching_needs_the_secret() {
    let stored = sha256_hex("s");
    let allowed = texts(&["https://a.example"]);
    let user = admit_vouched_user(
        &stored,
        "s",
        &headers(None),
        &allowed,
        " default ",
        " u1 ",
        profile(),
    )
    .unwrap();
    assert_eq!(user.tenant_id, "default");
    assert_eq!(user.external_user_id, "u1");
    assert_eq!(user.profile.username, Some("ann".to_string()));
    assert_eq!(user.profile.email, Some("ann@example.com".to_string()));
    let refusal = |secret: &str, origin: Option<&str>, tenant: &str, user: &str| {
        admit_vouched_user(&stored, secret, &headers(origin), &allowed, tenant, user, profile())
            .unwrap_err()
            .message
    };
    assert_eq!(refusal("t", None, "default", "u1"), "invalid oauth client");
    assert_eq!(
        refusal("s", Some("https://b.example"), "default", "u1"),
        "request Origin is not allowed"
    );
    assert_eq!(refusal("s", None, " ", "u1"), "external tenant id is required");
    assert_eq!(refusal("s", None, "default", ""), "valid external user id is required");
}

#[test]
fn visitors_are_admitted_to_public_widgets() {
    assert_eq!(
        identify_visitor(1, "0123456789abcdef").unwrap(),
        sha256_hex("0123456789abcdef")
    );
    assert!(identify_visitor(0, "0123456789abcdef").is_err());
    assert!(identify_visitor(1, "short").is_err());
    let allowed = texts(&["https://a.example"]);
    let tools = Some(texts(&["read"]));
    let public = texts(&["read"]);
    let enter = |agents: usize, origin: Option<&str>| {
        admit_visitor(false, &allowed, &tools, &public, agents, &headers(origin))
    };
    assert!(enter(1, Some("https://a.example")).is_ok());
    assert_eq!(enter(1, None).unwrap_err().message, "request Origin is required");
    assert_eq!(
        enter(2, Some("https://a.example")).unwrap_err().message,
        "public Widget must delegate exactly one active Agent"
    );
    assert!(check_single_agent(1).is_ok());
    assert!(check_single_agent(0).is_err());
}

#[test]
fn access_is_recovered_and_rotated() {
    assert_eq!(recover_session(None, None).unwrap(), None);
    assert_eq!(recover_session(Some(1), Some(Some(1))).unwrap(), Some(1));
    assert_eq!(
        recover_session(Some(1), None).unwrap_err().message,
        "anonymous Client Session not found"
    );
    assert_eq!(rotate_client_access(&credential(Some(5), true, Some(6)), false).unwrap(), 6);
    for (credential, with_profile, message) in [
        (credential(None, false, Some(6)), false, "invalid Widget credential"),
        (credential(Some(5), false, None), false, "invalid Client Access Credential"),
        (
            credential(Some(5), true, Some(6)),
            true,
            "anonymous Client Access has no trusted user profile",
        ),
    ] {
        assert_eq!(
            rotate_client_access(&credential, with_profile).unwrap_err().message,
            message
        );
    }
    assert!(check_profile_client(5, Some(5), &sha256_hex("s"), "s").is_ok());
    assert!(check_profile_client(5, Some(6), &sha256_hex("s"), "s").is_err());
    assert!(check_profile_client(5, Some(5), &sha256_hex("s"), "t").is_err());
    assert!(new_access_token(true).starts_with("ahp_"));
    assert!(new_access_token(false).starts_with("ahw_"));
    assert_eq!(expires_after(10, 60), 60 * NANOS + 10);
}

fn principal(grant: GrantType) -> IntegrationPrincipal {
    IntegrationPrincipal {
        oauth_app_id: 1,
        grant,
        subject_user_id: Some(2),
        origin_tenant_id: Some("t".to_string()),
        origin_external_identity_id: Some(3),
    }
}

#[test]
fn runs_are_charged_to_their_subject() {
    assert_eq!(stored_grant("client_credentials"), GrantType::ClientCredentials);
    assert_eq!(stored_grant("authorization_code"), GrantType::AuthorizationCode);
    assert_eq!(stored_grant("password"), GrantType::Other);
    let app = integration_run_model_attribution(&principal(GrantType::ClientCredentials));
    assert_eq!(app.subject, ModelSubject::IntegrationApp);
    assert_eq!(app.subject_user_id, None);
    assert_eq!(app.source_integration_app_id, Some(1));
    let user = integration_run_model_attribution(&principal(GrantType::AuthorizationCode));
    assert_eq!(user.subject, ModelSubject::User);
    assert_eq!(user.subject_user_id, Some(2));
    assert!(check_widget_exchange(GrantType::ClientCredentials).is_ok());
    assert_eq!(
        check_widget_exchange(GrantType::AuthorizationCode).unwrap_err().message,
        "widget exchange requires client credentials"
    );
}

#[test]
fn tokens_stay_with_their_user() {
    let code = principal(GrantType::AuthorizationCode);
    assert!(matches!(
        create_integration_session(&code, "t", false),
        SessionSubject::Bound { user_id: 2, identity_id: 3 }
    ));
    let refusal = |principal: &IntegrationPrincipal, tenant: &str, has_email: bool| {
        match create_integration_session(principal, tenant, has_email) {
            SessionSubject::Refuse(refusal) => refusal.message,
            other => panic!("{other:?}"),
        }
    };
    assert_eq!(refusal(&code, "u", true), "application token is bound to another tenant");
    let lost = IntegrationPrincipal {
        subject_user_id: None,
        ..principal(GrantType::AuthorizationCode)
    };
    assert_eq!(refusal(&lost, "t", true), "invalid user application token");
    let app = principal(GrantType::ClientCredentials);
    assert!(matches!(create_integration_session(&app, "u", true), SessionSubject::Vouched));
    assert_eq!(refusal(&app, "u", false), "trusted email is required");
    assert!(check_bound_identity(true).is_ok());
    assert_eq!(
        check_bound_identity(false).unwrap_err().message,
        "application token is bound to another external identity"
    );
}

#[test]
fn integration_sessions_are_prepared() {
    let tools = json("[{\"name\":\"a\"}]");
    let tenant = Some(" default ");
    let user = prepare_integration_session(&tools, " u1 ", &json("{}"), tenant).unwrap();
    assert_eq!(user.external_user_id, "u1");
    assert_eq!(user.tenant_id, "default");
    assert_eq!(
        prepare_integration_session(&tools, "u1", &json("[]"), tenant).unwrap_err().message,
        "metadata must be a JSON object"
    );
    assert_eq!(
        prepare_integration_session(&tools, "u1", &json("{}"), None).unwrap_err().message,
        "external tenant id is required"
    );
    assert!(prepare_integration_session(&json("{}"), "u1", &json("{}"), tenant).is_err());
    assert!(prepare_integration_session(&tools, " ", &json("{}"), tenant).is_err());
}

#[test]
fn context_follows_the_run() {
    let run = ContextRun {
        integration_session_id: Some(1),
        client_managed: false,
        after_tools: false,
        parent_run_id: None,
        hub_session_id: None,
    };
    let plan = plan_integration_context(run).unwrap().unwrap();
    assert_eq!((plan.session_id, plan.results_of), (Some(1), None));
    assert!(!plan.client_tools && !plan.all_results);
    let plain = ContextRun { integration_session_id: None, ..run };
    assert!(plan_integration_context(plain).unwrap().is_none());
    let after = ContextRun {
        client_managed: true,
        after_tools: true,
        parent_run_id: Some(2),
        hub_session_id: Some(3),
        ..run
    };
    let plan = plan_integration_context(after).unwrap().unwrap();
    assert_eq!(plan.results_of, Some((2, 3)));
    assert!(plan.client_tools && plan.all_results);
    assert_eq!(
        plan_integration_context(ContextRun { parent_run_id: None, ..after }).unwrap_err().message,
        "tool-result run parent is missing"
    );
    assert_eq!(
        plan_integration_context(ContextRun { hub_session_id: None, ..after }).unwrap_err().message,
        "tool-result Run Session is missing"
    );
    assert!(check_message_run(true).is_ok());
    assert_eq!(
        check_message_run(false).unwrap_err().message,
        "integration message did not schedule a run"
    );
}

#[test]
fn applications_are_validated_as_a_whole() {
    let request = || AppRequest {
        name: " App ".to_string(),
        redirect_uris: json("[\"https://a.example/cb\"]"),
        agent_ids: vec![1],
        allowed_origins: texts(&["https://A.example/"]),
        tool_allowlist: Some(texts(&["write", "read"])),
        client_tools: Vec::new(),
        login_required: true,
        history_enabled: false,
    };
    let limits = ToolLimits {
        known: texts(&["read", "write"]),
        public: texts(&["read"]),
        max_client_tools: 8,
        max_client_tool_bytes: 1_000,
    };
    let fields = validate_integration_app(&request(), &limits, Role::Member).unwrap();
    assert_eq!(fields.name, "App");
    assert_eq!(fields.allowed_origins, texts(&["https://a.example"]));
    assert_eq!(fields.tool_allowlist, Some(texts(&["read", "write"])));
    let open = AppRequest { login_required: false, ..request() };
    assert_eq!(
        validate_integration_app(&open, &limits, Role::Admin).unwrap_err().message,
        "public Widget only permits read-only file tools"
    );
    let nameless = AppRequest { name: " ".to_string(), ..request() };
    assert!(validate_integration_app(&nameless, &limits, Role::Member).is_err());
}

#[test]
fn applications_only_name_their_agents() {
    assert_eq!(sort_ids(&vec![3, 1, 2]), vec![1, 2, 3]);
    assert!(validate_integration_app_agents(&vec![2, 1], &vec![1, 2]).is_ok());
    assert_eq!(
        validate_integration_app_agents(&vec![1, 3], &vec![1]).unwrap_err().message,
        "agent not found"
    );
}
