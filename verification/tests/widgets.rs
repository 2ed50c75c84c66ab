use agent_hub::client::interpret_response;
use agent_hub::digest::sha256_hex;
use agent_hub::error::Status;
use agent_hub::json::{json_equal, Json};
use agent_hub::web::{
    admit_origin, check_entry_text, check_entry_url, check_request_origin,
    normalize_allowed_origin, normalize_allowed_origins, parse_request_origin, request_origin,
    validate_client_request_origin, HeaderValues, OriginHeaders, UrlParts,
};
use agent_hub::widget::{
    admit_credential_request, check_locked_agent, clamp_event_limit, history_scope,
    merge_client_session_id, plan_scoped_session, widget_event_cursor, widget_run_session_locator,
    widget_session_locator, NamedSessions, ScopeLookup, WidgetCredential,
};
use agent_hub::widget_profile::{
    decoded_client_credentials, normalize_client_message_key, normalize_external_user_id,
    normalize_origin_tenant, normalize_widget_attributes, normalize_widget_profile_text,
    normalize_widget_user_profile, require_origin_tenant, validate_widget_attribute_value,
    visitor_key_hash, widget_client_credentials, WidgetUserProfile,
};
use agent_hub::widget_run::{
    begin_widget_run, create_widget_run, ModelSubject, WidgetRunAction, WidgetRunEvent,
    WidgetRunRequest, WidgetRunState,
};

fn json(text: &str) -> Json {
    interpret_response("/", true, "200 OK", text).unwrap()
}

fn texts(values: &[&str]) -> Vec<String> {
    values.iter().map(|value| value.to_string()).collect()
}

fn header(values: &[&str]) -> HeaderValues {
    HeaderValues { count: values.len(), first: values.first().map(|value| value.to_string()) }
}

fn headers(origin: &[&str]) -> OriginHeaders {
    OriginHeaders { embedded: header(&[]), fetch_site: None, origin: header(origin) }
}

/// A credential of an embedded page that is bound to the session 40.
fn embedded() -> WidgetCredential {
    WidgetCredential {
        id: 1,
        agent_id: 10,
        agent_owner_id: 20,
        owner_id: 30,
        hub_session_id: Some(40),
        oauth_app_id: None,
        external_platform_id: None,
        external_tenant_id: None,
        external_user_id: None,
        external_identity_id: None,
        expires_at: 0,
        history_enabled: false,
        anonymous: false,
        client_instance_id: None,
        tool_names: Vec::new(),
        allowed_origins: Vec::new(),
    }
}

fn visitor(bound: Option<u128>) -> WidgetCredential {
    WidgetCredential {
        anonymous: true,
        hub_session_id: bound,
        oauth_app_id: Some(50),
        client_instance_id: Some(53),
        allowed_origins: texts(&["https://shop.example"]),
        ..embedded()
    }
}

fn outside_user() -> WidgetCredential {
    WidgetCredential {
        hub_session_id: None,
        oauth_app_id: Some(50),
        external_platform_id: Some(51),
        external_tenant_id: Some("default".to_string()),
        external_user_id: Some("u1".to_string()),
        external_identity_id: Some(52),
        history_enabled: true,
        client_instance_id: Some(53),
        ..embedded()
    }
}

fn request(key: Option<&str>, session: Option<u128>) -> WidgetRunRequest {
    WidgetRunRequest {
        client_message_key: key.map(str::to_string),
        named: NamedSessions {
            session_id: session,
            integration_session_id: None,
            hub_session_id: None,
        },
    }
}

#[test]
fn allowed_origins_are_exact_and_unique() {
    assert_eq!(
        normalize_allowed_origins(&texts(&[
            "https://b.example/",
            " https://A.example ",
            "https://b.example"
        ]))
        .unwrap(),
        texts(&["https://a.example", "https://b.example"])
    );
    for (origin, message) in [
        ("", "Widget origin must be an exact HTTP(S) Origin"),
        ("*", "Widget origin must be an exact HTTP(S) Origin"),
        ("https://*.example", "Widget origin must be an exact HTTP(S) Origin"),
        ("not a url", "Widget origin is invalid"),
        (
            "blob:https://a.example/x",
            "Widget origin must be an exact HTTP(S) Origin without a path",
        ),
        ("ftp://a.example", "Widget origin must be an exact HTTP(S) Origin without a path"),
        ("https://a.example/x", "Widget origin must be an exact HTTP(S) Origin without a path"),
        ("https://a.example?q", "Widget origin must be an exact HTTP(S) Origin without a path"),
    ] {
        let error = normalize_allowed_origins(&texts(&[origin])).unwrap_err();
        assert_eq!(error.message, message, "{origin}");
    }
}

#[test]
fn request_origins_are_read_from_their_headers() {
    assert_eq!(request_origin(&headers(&[])).unwrap(), None);
    assert_eq!(
        request_origin(&headers(&["https://A.example:443"])).unwrap(),
        Some("https://a.example".to_string())
    );
    assert_eq!(
        request_origin(&headers(&["https://a.example", "https://b.example"])).unwrap_err().message,
        "request Origin is not allowed"
    );
    assert!(parse_request_origin(&None).is_err());
    assert!(parse_request_origin(&Some("null".to_string())).is_err());
    let inner = OriginHeaders {
        embedded: header(&["https://page.example"]),
        fetch_site: Some("same-origin".to_string()),
        origin: header(&["https://hub.example"]),
    };
    assert_eq!(request_origin(&inner).unwrap(), Some("https://page.example".to_string()));
    let foreign = OriginHeaders { fetch_site: Some("cross-site".to_string()), ..inner };
    assert_eq!(
        request_origin(&foreign).unwrap_err().message,
        "embedded request Origin is not allowed"
    );
}

#[test]
fn listed_origins_are_admitted() {
    let allowed = texts(&["https://a.example"]);
    let own = Some("https://a.example".to_string());
    assert!(admit_origin(&own, &allowed, true).is_ok());
    assert!(admit_origin(&None, &allowed, false).is_ok());
    assert_eq!(
        admit_origin(&None, &allowed, true).unwrap_err().message,
        "request Origin is required"
    );
    assert_eq!(
        admit_origin(&Some("https://b.example".to_string()), &allowed, false).unwrap_err().message,
        "request Origin is not allowed"
    );
    assert!(validate_client_request_origin(&headers(&["https://a.example/"]), &allowed, true).is_ok());
    assert_eq!(
        validate_client_request_origin(&headers(&["https://b.example"]), &allowed, true)
            .unwrap_err()
            .status,
        Status::Forbidden
    );
}

#[test]
fn identifiers_of_outside_users_are_normalized() {
    assert_eq!(normalize_client_message_key(None).unwrap(), None);
    assert_eq!(normalize_client_message_key(Some(" ")).unwrap(), None);
    assert_eq!(normalize_client_message_key(Some(" k ")).unwrap(), Some("k".to_string()));
    assert_eq!(
        normalize_client_message_key(Some(&"k".repeat(129))).unwrap_err().message,
        "valid client message key is required"
    );
    assert_eq!(normalize_origin_tenant(None).unwrap(), "default");
    assert_eq!(normalize_origin_tenant(Some(" ")).unwrap(), "default");
    assert_eq!(normalize_origin_tenant(Some(" t ")).unwrap(), "t");
    assert_eq!(
        normalize_origin_tenant(Some("a\u{0}")).unwrap_err().message,
        "valid external tenant id is required"
    );
    assert_eq!(
        require_origin_tenant(Some(" ")).unwrap_err().message,
        "external tenant id is required"
    );
    assert!(require_origin_tenant(None).is_err());
    assert_eq!(require_origin_tenant(Some("t")).unwrap(), "t");
    assert_eq!(normalize_external_user_id(" u ").unwrap(), "u");
    assert_eq!(
        normalize_external_user_id("").unwrap_err().message,
        "valid external user id is required"
    );
    assert_eq!(
        visitor_key_hash(" 0123456789abcdef ").unwrap(),
        sha256_hex("0123456789abcdef")
    );
    assert_eq!(
        visitor_key_hash("0123456789abcde").unwrap_err().message,
        "public Widget visitor key is invalid"
    );
    assert!(visitor_key_hash(&"v".repeat(513)).is_err());
}

#[test]
fn client_credentials_are_split_at_the_first_colon() {
    assert_eq!(
        widget_client_credentials(Some("Basic Y2xpZW50OnNlOmNyZXQ=")).unwrap(),
        ("client".to_string(), "se:cret".to_string())
    );
    for header in [None, Some("Bearer x"), Some("Basic !"), Some("Basic Y2xpZW50")] {
        let error = widget_client_credentials(header).unwrap_err();
        assert_eq!(error.status, Status::Unauthorized);
        assert_eq!(error.message, "invalid oauth client");
    }
    assert!(decoded_client_credentials(Some(vec![255, b':', b'a'])).is_err());
    assert!(decoded_client_credentials(Some(b":a".to_vec())).is_err());
    assert!(decoded_client_credentials(Some(b"a:".to_vec())).is_err());
}

#[test]
fn profiles_are_normalized_and_bounded() {
    assert_eq!(normalize_widget_profile_text(Some("  "), "username").unwrap(), None);
    assert_eq!(
        normalize_widget_profile_text(Some("a\u{1}"), "username").unwrap_err().message,
        "valid external username is required"
    );
    let profile = normalize_widget_user_profile(WidgetUserProfile {
        username: Some(" ann ".to_string()),
        display_name: None,
        email: Some(" Ann@Example.com ".to_string()),
        attributes: json("{\"plan\":\"pro\",\"seats\":[1,2]}"),
    })
    .unwrap();
    assert_eq!(profile.username, Some("ann".to_string()));
    assert_eq!(profile.display_name, None);
    assert_eq!(profile.email, Some("ann@example.com".to_string()));
    assert!(json_equal(&profile.attributes, &json("{\"plan\":\"pro\",\"seats\":[1,2]}")));
    let refusal = |text: &str| normalize_widget_attributes(json(text)).unwrap_err().message;
    assert_eq!(refusal("[]"), "external user attributes must be a JSON object");
    assert_eq!(
        refusal(&format!("{{\"a\":\"{}\"}}", "x".repeat(70_000))),
        "external user attributes are too large"
    );
    assert_eq!(
        refusal("{\"a\":[[[[[[[[[[[[[[[[1]]]]]]]]]]]]]]]]}"),
        "external user attributes are nested too deeply"
    );
    assert_eq!(refusal("{\"\":1}"), "external user attribute key is invalid");
    let mut count = 0;
    assert!(validate_widget_attribute_value(&json("[1,[2]]"), 0, &mut count).is_ok());
    assert_eq!(count, 4);
}

#[test]
fn credentials_know_their_kind() {
    assert!(visitor(None).is_anonymous());
    assert!(!embedded().is_anonymous());
    assert!(outside_user().is_external());
    assert!(!embedded().is_external());
    let scope = outside_user().external_scope().unwrap();
    assert_eq!(scope.oauth_app_id, 50);
    assert_eq!(scope.external_tenant_id, "default");
    assert_eq!(
        embedded().external_scope().unwrap_err().message,
        "invalid external Widget credential"
    );
    assert_eq!(history_scope(&outside_user()).unwrap().external_identity_id, 52);
    assert_eq!(history_scope(&embedded()).unwrap_err().message, "Widget history is disabled");
    assert!(check_locked_agent(&embedded(), 10, 20).is_ok());
    assert_eq!(
        check_locked_agent(&embedded(), 11, 20).unwrap_err().message,
        "Widget credential Agent changed while locking"
    );
}

#[test]
fn visitors_come_from_an_allowed_origin() {
    assert!(visitor(None).requires_origin());
    assert!(admit_credential_request(&visitor(None), &headers(&["https://shop.example"])).is_ok());
    assert!(admit_credential_request(&visitor(None), &headers(&["https://other.example"])).is_err());
    assert_eq!(
        admit_credential_request(&visitor(None), &headers(&[])).unwrap_err().message,
        "request Origin is required"
    );
    assert!(!embedded().requires_origin());
    assert!(admit_credential_request(&embedded(), &headers(&["https://other.example"])).is_ok());
}

#[test]
fn session_names_agree() {
    assert_eq!(merge_client_session_id(Some(1), Some(1)).unwrap(), Some(1));
    assert_eq!(merge_client_session_id(None, Some(2)).unwrap(), Some(2));
    assert_eq!(merge_client_session_id(None, None).unwrap(), None);
    assert_eq!(
        merge_client_session_id(Some(1), Some(2)).unwrap_err().message,
        "conflicting Client Session ids"
    );
    assert_eq!(widget_session_locator(&embedded(), 7), (None, Some(7)));
    assert_eq!(widget_session_locator(&outside_user(), 7), (Some(7), None));
    let integration = NamedSessions {
        session_id: None,
        integration_session_id: Some(3),
        hub_session_id: None,
    };
    assert_eq!(
        widget_run_session_locator(&embedded(), integration).unwrap_err().message,
        "this Client does not use Integration Sessions"
    );
    assert_eq!(
        widget_run_session_locator(&outside_user(), integration).unwrap(),
        (Some(3), None)
    );
}

#[test]
fn bound_credentials_open_their_session() {
    assert!(matches!(plan_scoped_session(&embedded(), None, Some(40)), ScopeLookup::Bound(40)));
    for (credential, integration, hub, message) in [
        (embedded(), None, Some(41), "Widget Session not found"),
        (embedded(), None, None, "Widget Session id is required"),
        (
            visitor(Some(40)),
            Some(3),
            None,
            "public Widget does not use Integration Sessions",
        ),
    ] {
        match plan_scoped_session(&credential, integration, hub) {
            ScopeLookup::Refuse(refusal) => assert_eq!(refusal.message, message),
            other => panic!("{other:?}"),
        }
    }
    assert!(matches!(
        plan_scoped_session(&outside_user(), Some(3), None),
        ScopeLookup::External
    ));
}

#[test]
fn event_pages_are_bounded() {
    assert_eq!(widget_event_cursor(None).unwrap(), 0);
    assert_eq!(widget_event_cursor(Some(9)).unwrap(), 9);
    assert_eq!(
        widget_event_cursor(Some(-1)).unwrap_err().message,
        "event cursor must be nonnegative"
    );
    assert_eq!(clamp_event_limit(0), 1);
    assert_eq!(clamp_event_limit(10), 10);
    assert_eq!(clamp_event_limit(2_001), 2_000);
    assert_eq!(clamp_event_limit(i64::MAX), 2_000);
    assert_eq!(clamp_event_limit(i64::MIN), 1);
}

#[test]
fn embedded_messages_go_to_their_session() {
    let (state, action) = begin_widget_run();
    assert_eq!(state, WidgetRunState::Model);
    assert!(matches!(action, WidgetRunAction::RequireModel));
    let credential = embedded();
    let ask = request(None, Some(40));
    let (state, action) =
        create_widget_run(&credential, &ask, state, WidgetRunEvent::ModelConfigured);
    assert!(matches!(action, WidgetRunAction::FindMissingGrants));
    let missing = vec!["TOKEN".to_string(), "KEY".to_string()];
    match create_widget_run(&credential, &ask, state, WidgetRunEvent::MissingGrants(missing)) {
        (WidgetRunState::Closed, WidgetRunAction::AskForGrants(secrets)) => {
            assert_eq!(secrets, ["TOKEN", "KEY"]);
        }
        other => panic!("{other:?}"),
    }
    let (accepting, action) =
        create_widget_run(&credential, &ask, state, WidgetRunEvent::MissingGrants(vec![]));
    match action {
        WidgetRunAction::Accept(message) => {
            assert_eq!(message.hub_session_id, 40);
            assert_eq!(message.subject, ModelSubject::User);
            assert_eq!(message.subject_user_id, Some(30));
            assert!(!message.with_external_user);
        }
        other => panic!("{other:?}"),
    }
    assert!(matches!(
        create_widget_run(
            &credential,
            &ask,
            accepting,
            WidgetRunEvent::Accepted { run: true, steered: false }
        )
        .1,
        WidgetRunAction::Record(None)
    ));
    for (ask, message) in [
        (request(None, Some(41)), "embed token is bound to another session"),
        (request(Some(&"k".repeat(200)), None), "valid client message key is required"),
    ] {
        match create_widget_run(&credential, &ask, state, WidgetRunEvent::MissingGrants(vec![])).1 {
            WidgetRunAction::Refuse(refusal) => assert_eq!(refusal.message, message),
            other => panic!("{other:?}"),
        }
    }
}

#[test]
fn visitors_start_one_session() {
    let fresh = visitor(None);
    let open = || WidgetRunEvent::ModelConfigured;
    let (state, action) =
        create_widget_run(&fresh, &request(None, None), WidgetRunState::Model, open());
    assert!(matches!(action, WidgetRunAction::CreateVisitorSession));
    match create_widget_run(
        &fresh,
        &request(None, None),
        state,
        WidgetRunEvent::VisitorSessionCreated(60),
    )
    .1
    {
        WidgetRunAction::Accept(message) => {
            assert_eq!(message.hub_session_id, 60);
            assert_eq!(message.subject, ModelSubject::IntegrationApp);
            assert_eq!(message.subject_user_id, None);
            assert_eq!(message.source_app_id, Some(50));
        }
        other => panic!("{other:?}"),
    }
    let (state, action) =
        create_widget_run(&fresh, &request(Some("k"), None), WidgetRunState::Model, open());
    assert!(matches!(action, WidgetRunAction::FindVisitorRetry));
    assert!(matches!(
        create_widget_run(
            &fresh,
            &request(Some("k"), None),
            state,
            WidgetRunEvent::VisitorRetried(Some(61))
        )
        .1,
        WidgetRunAction::Accept(message) if message.hub_session_id == 61
    ));
    for (credential, message) in [
        (visitor(None), "public Widget has not started this session"),
        (visitor(Some(40)), "public Widget credential is bound to another session"),
    ] {
        match create_widget_run(&credential, &request(None, Some(9)), WidgetRunState::Model, open()).1 {
            WidgetRunAction::Refuse(refusal) => assert_eq!(refusal.message, message),
            other => panic!("{other:?}"),
        }
    }
}

#[test]
fn outside_users_are_found_by_their_scope() {
    let credential = outside_user();
    let ask = request(Some("k"), None);
    let run = |state: WidgetRunState, event: WidgetRunEvent| {
        create_widget_run(&credential, &ask, state, event)
    };
    let (state, action) = run(WidgetRunState::Grants, WidgetRunEvent::MissingGrants(vec![]));
    assert!(matches!(action, WidgetRunAction::ReadProfile));
    let (state, action) = run(state, WidgetRunEvent::ProfileRead(true));
    assert!(matches!(action, WidgetRunAction::FindExternalRetry));
    assert!(matches!(
        run(state, WidgetRunEvent::ExternalRetried(Some((7, 8)))).1,
        WidgetRunAction::FindExternalSession(Some(7), Some(8))
    ));
    let (state, action) = run(state, WidgetRunEvent::ExternalRetried(None));
    assert!(matches!(action, WidgetRunAction::CreateExternalSession));
    let (state, action) = run(state, WidgetRunEvent::ExternalSessionCreated(70, 71));
    match action {
        WidgetRunAction::Accept(message) => {
            assert_eq!(message.hub_session_id, 70);
            assert_eq!(message.integration_session_id, Some(71));
            assert!(message.with_external_user);
        }
        other => panic!("{other:?}"),
    }
    assert!(matches!(
        run(state, WidgetRunEvent::Accepted { run: true, steered: false }).1,
        WidgetRunAction::Record(Some(53))
    ));
    assert!(matches!(
        run(state, WidgetRunEvent::Accepted { run: false, steered: false }).1,
        WidgetRunAction::Refuse(refusal)
            if refusal.message == "widget message did not schedule a run"
    ));
    let nameless = WidgetCredential { external_user_id: None, ..outside_user() };
    assert!(matches!(
        create_widget_run(
            &nameless,
            &ask,
            WidgetRunState::Grants,
            WidgetRunEvent::MissingGrants(vec![])
        )
        .1,
        WidgetRunAction::Refuse(refusal) if refusal.message == "external Widget user is missing"
    ));
}

#[test]
fn origins_are_taken_from_web_addresses_only() {
    assert_eq!(normalize_allowed_origin(" HTTP://A.example:80/ ").unwrap(), "http://a.example");
    assert_eq!(normalize_allowed_origin("http://a.example:81").unwrap(), "http://a.example:81");
    let nested = "blob:".repeat(20_000);
    assert!(normalize_allowed_origin(&nested).is_err());
    assert!(parse_request_origin(&Some(nested)).is_err());
    assert_eq!(check_entry_text(" x ").unwrap(), "x");
    assert_eq!(check_entry_text(" ").unwrap_err().status, Status::BadRequest);
    let parts = |scheme: &str, path: &str| {
        Some(UrlParts {
            scheme: scheme.to_string(),
            host: Some("a.example".to_string()),
            username: String::new(),
            password: None,
            path: path.to_string(),
            query: None,
            fragment: None,
        })
    };
    assert!(check_entry_url(&parts("https", "/")).is_ok());
    assert!(check_entry_url(&parts("https", "/x")).is_err());
    assert_eq!(check_entry_url(&None).unwrap_err().message, "Widget origin is invalid");
    assert!(check_request_origin(&parts("http", "/")).is_ok());
    assert_eq!(check_request_origin(&parts("blob", "x")).unwrap_err().status, Status::Forbidden);
}

#[test]
fn repeated_messages_go_to_one_session() {
    let visitor = WidgetCredential { hub_session_id: None, anonymous: true, ..embedded() };
    let run = |events: Vec<WidgetRunEvent>| {
        let asked = request(Some("k"), None);
        let (mut state, mut action) = begin_widget_run();
        for event in events {
            (state, action) = create_widget_run(&visitor, &asked, state, event);
        }
        assert_eq!(state, WidgetRunState::Acceptance);
        match action {
            WidgetRunAction::Accept(message) => message.hub_session_id,
            other => panic!("{other:?}"),
        }
    };
    let first = run(vec![
        WidgetRunEvent::ModelConfigured,
        WidgetRunEvent::VisitorRetried(None),
        WidgetRunEvent::VisitorSessionCreated(61),
    ]);
    let again =
        run(vec![WidgetRunEvent::ModelConfigured, WidgetRunEvent::VisitorRetried(Some(first))]);
    assert_eq!(again, 61);
}
