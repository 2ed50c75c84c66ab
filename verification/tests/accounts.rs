use agent_hub::account::{
    check_creation_right, check_external_identity, check_ldap_login, check_login_methods_change,
    check_password_length, check_registration, check_registration_locked, check_role_change,
    check_user_creation, effective_system_settings, link_identity, normalize_optional_email,
    plan_email_change, prepare_admin_user, refresh_identity, resolve_external_identity, resolve_ldap_user, role_change_needs_others, stored_policy,
    validate_login_methods, validate_system_settings, begin_identity_resolution, DirectoryUser,
    KnownUser, LoginMethods, LoginPolicy, NewUserRequest, ResolveAction, ResolveEvent, ResolveState,
    SystemSettings,
};
use agent_hub::agent_flow::ArchiveStep;
use agent_hub::api_key::{
    api_key_expiration, check_key_target, list_api_keys, new_api_key_token, newest_keys,
    page_of_keys, prepare_api_key, renewed_api_key_expiration, ApiKeyValidity, KeyEntry,
};
use agent_hub::clock::{DAY, NANOS};
use agent_hub::digest::sha256_hex;
use agent_hub::erasure::{
    begin_erasure_job, begin_user_erasure, completed_erasure, continue_user_erasure,
    email_is_confirmed, finalize_user_erasure, list_user_erasures, load_user_erasure,
    pending_erasure, process_user_erasure_job, FreezeStep, JobAction, JobEvent, JobState, Leftovers,
    ObjectStore, PurgeStep, RequestAction, RequestEvent, RequestState, Target,
};
use agent_hub::error::Status;
use agent_hub::identity::{
    email_local_part, is_admin_role, login_rate_email, normalize_display_name, normalize_email,
    role_name, role_of_new_user, stored_role, validate_external_username, validate_identity_key,
    validate_identity_name, validate_user_role, Role,
};
use agent_hub::login::{begin_login, login, LoginAction, LoginEvent, LoginKind, LoginState};
use agent_hub::pagination::ApiKeyListQuery;
use agent_hub::retirement::{
    retirement_rule, rows_of_archive_step, rows_of_freeze_step, RowKind,
};
use agent_hub::throttle::{check_email_failures, check_ip_attempts, retry_after_seconds};

const NOW: i128 = 1_760_000_000 * NANOS;

#[test]
fn api_key_pagination_defaults_and_rejects_invalid_or_overflowing_values() {
    assert_eq!(ApiKeyListQuery::default().validated().unwrap(), (1, 20, 0));
    for query in [
        ApiKeyListQuery { page: Some(0), page_size: Some(20) },
        ApiKeyListQuery { page: Some(-1), page_size: Some(20) },
        ApiKeyListQuery { page: Some(1), page_size: Some(0) },
        ApiKeyListQuery { page: Some(1), page_size: Some(101) },
        ApiKeyListQuery { page: Some(i64::MAX), page_size: Some(100) },
    ] {
        let error = query.validated().unwrap_err();
        assert_eq!(error.status, Status::BadRequest);
        assert_eq!(error.message, "invalid API key pagination");
    }
}

#[test]
fn api_key_validity_defaults_to_ninety_days_and_renewal_only_moves_forward() {
    let now = NOW;
    let hour = 3_600 * NANOS;
    assert_eq!(api_key_expiration(None, now).unwrap(), Some(now + 90 * DAY));
    assert_eq!(
        api_key_expiration(Some(ApiKeyValidity::Days { days: 30 }), now).unwrap(),
        Some(now + 30 * DAY)
    );
    assert_eq!(api_key_expiration(Some(ApiKeyValidity::Never), now).unwrap(), None);
    assert_eq!(
        api_key_expiration(Some(ApiKeyValidity::Date { expires_at: now + hour }), now).unwrap(),
        Some(now + hour)
    );
    assert_eq!(
        renewed_api_key_expiration(ApiKeyValidity::Days { days: 180 }, Some(now + 90 * DAY), now)
            .unwrap(),
        Some(now + 180 * DAY)
    );
    assert_eq!(
        renewed_api_key_expiration(ApiKeyValidity::Never, Some(now + 90 * DAY), now).unwrap(),
        None
    );
    assert_eq!(
        renewed_api_key_expiration(ApiKeyValidity::Days { days: 30 }, Some(now + 90 * DAY), now)
            .unwrap_err()
            .status,
        Status::BadRequest
    );
    assert_eq!(
        renewed_api_key_expiration(ApiKeyValidity::Never, None, now).unwrap_err().status,
        Status::BadRequest
    );
}

#[test]
fn api_key_terms_are_the_offered_ones() {
    for days in [30, 90, 180, 365] {
        assert!(api_key_expiration(Some(ApiKeyValidity::Days { days }), NOW).is_ok());
    }
    for days in [0, 31, 364, u32::MAX] {
        assert_eq!(
            api_key_expiration(Some(ApiKeyValidity::Days { days }), NOW).unwrap_err().message,
            "api key validity days must be 30, 90, 180, or 365"
        );
    }
    assert_eq!(
        api_key_expiration(Some(ApiKeyValidity::Date { expires_at: NOW }), NOW).unwrap_err().message,
        "api key expiration must be in the future"
    );
    assert_eq!(
        renewed_api_key_expiration(
            ApiKeyValidity::Date { expires_at: NOW + DAY },
            Some(NOW + DAY),
            NOW
        )
        .unwrap_err()
        .message,
        "api key renewal must extend its expiration"
    );
    assert_eq!(
        renewed_api_key_expiration(ApiKeyValidity::Days { days: 30 }, None, NOW)
            .unwrap_err()
            .message,
        "permanent api keys cannot be renewed"
    );
}

#[test]
fn new_api_keys_keep_only_a_digest() {
    let key = prepare_api_key(" CI key ", "ahk_0123456789abcdef", None, NOW).unwrap();
    assert_eq!(key.name, "CI key");
    assert_eq!(key.token_hash, sha256_hex("ahk_0123456789abcdef"));
    assert!("ahk_0123456789abcdef".starts_with(&key.prefix));
    assert!(key.prefix.len() < 20);
    assert_eq!(key.expires_at, Some(NOW + 90 * DAY));
    assert_eq!(
        prepare_api_key(" ", "t", None, NOW).unwrap_err().message,
        "api key name is required"
    );
    let token = new_api_key_token();
    assert!(token.starts_with("ahk_"));
    assert_eq!(token.len(), 68);
}

#[test]
fn keys_do_not_change_themselves() {
    assert!(check_key_target(None, 7).is_ok());
    assert!(check_key_target(Some(8), 7).is_ok());
    let error = check_key_target(Some(7), 7).unwrap_err();
    assert_eq!(error.status, Status::NotFound);
    assert_eq!(error.message, "api key not found");
}

#[test]
fn emails_are_trimmed_and_lowered() {
    assert_eq!(normalize_email(" First.User@Example.com ").unwrap(), "first.user@example.com");
    assert_eq!(normalize_email(" BOUND@EXAMPLE.COM ").unwrap(), "bound@example.com");
    for email in ["", "plain", "@example.com", "user@", "a@b@c", "a b@example.com"] {
        let error = normalize_email(email).unwrap_err();
        assert_eq!(error.status, Status::BadRequest);
        assert_eq!(error.message, "valid email is required");
    }
    assert!(normalize_email(&format!("{}@example.com", "a".repeat(300))).is_err());
    let stable = normalize_email("User@Example.COM").unwrap();
    assert_eq!(normalize_email(&stable).unwrap(), stable);
    assert_eq!(email_local_part("first.user@example.com"), "first.user");
    assert_eq!(login_rate_email(" Someone "), Some("someone".to_string()));
    assert_eq!(login_rate_email("some one"), None);
    assert_eq!(login_rate_email("  "), None);
    assert_eq!(login_rate_email(&"a".repeat(255)), None);
    assert_eq!(normalize_optional_email(&None).unwrap(), None);
    assert!(normalize_optional_email(&Some("  ".to_string())).is_err());
    assert_eq!(
        normalize_optional_email(&Some(" A@B.c ".to_string())).unwrap(),
        Some("a@b.c".to_string())
    );
}

#[test]
fn names_fall_back_to_the_address() {
    assert_eq!(normalize_display_name(None, "first.user@example.com").unwrap(), "first.user");
    assert_eq!(normalize_display_name(Some("  "), "a@b.c").unwrap(), "a");
    assert_eq!(normalize_display_name(Some(" Ann "), "a@b.c").unwrap(), "Ann");
    assert_eq!(
        normalize_display_name(Some("a\u{7}b"), "a@b.c").unwrap_err().message,
        "valid display name is required"
    );
    assert_eq!(validate_external_username(None).unwrap(), None);
    assert_eq!(validate_external_username(Some(" u ")).unwrap(), Some("u".to_string()));
    assert_eq!(
        validate_external_username(Some("a\nb")).unwrap_err().message,
        "valid external username is required"
    );
    assert_eq!(validate_identity_key(" Slack-1 ", "platform key").unwrap(), "slack-1");
    assert_eq!(
        validate_identity_key("a b", "platform key").unwrap_err().message,
        "valid platform key is required"
    );
    assert!(validate_identity_key(&"k".repeat(65), "key").is_err());
    assert_eq!(validate_identity_name(" Slack Workspace ", "name").unwrap(), "Slack Workspace");
    assert_eq!(
        validate_identity_name(" ", "channel name").unwrap_err().message,
        "valid channel name is required"
    );
}

#[test]
fn roles_are_read_by_name() {
    for role in [Role::Member, Role::Admin, Role::SuperAdmin] {
        assert_eq!(validate_user_role(role_name(role)).unwrap(), role);
        assert_eq!(stored_role(role_name(role)), role);
        assert_eq!(is_admin_role(role), role != Role::Member);
    }
    assert_eq!(validate_user_role("root").unwrap_err().message, "unsupported user role");
    assert_eq!(stored_role("root"), Role::Member);
    assert_eq!(role_of_new_user(true).0, Role::SuperAdmin);
    assert_eq!(role_of_new_user(false).0, Role::Member);
}

#[test]
fn new_users_are_checked() {
    assert!(check_password_length("12345678").is_ok());
    assert!(check_password_length(&"p".repeat(1024)).is_ok());
    for password in ["1234567".to_string(), "p".repeat(1025)] {
        assert_eq!(
            check_password_length(&password).unwrap_err().message,
            "password must be between 8 and 1024 bytes"
        );
    }
    assert!(check_creation_right(Role::SuperAdmin, Role::Admin).is_ok());
    assert!(check_creation_right(Role::Admin, Role::Member).is_ok());
    assert_eq!(
        check_creation_right(Role::Admin, Role::Admin).unwrap_err().message,
        "only a Super Administrator can create administrator accounts"
    );
    let mut request = NewUserRequest {
        email: " New@Example.com ".to_string(),
        display_name: None,
        role: "member".to_string(),
        password: Some("long enough".to_string()),
    };
    let user = prepare_admin_user(&request, Role::Admin).unwrap();
    assert_eq!(user.email, "new@example.com");
    assert_eq!(user.display_name, "new");
    assert_eq!(user.role, Role::Member);
    request.password = Some("short".to_string());
    assert!(prepare_admin_user(&request, Role::Admin).is_err());
    assert!(check_user_creation(Some(Role::Admin), Role::Member, false).is_ok());
    assert_eq!(
        check_user_creation(None, Role::Member, false).unwrap_err().message,
        "administrator permission is required"
    );
    assert_eq!(
        check_user_creation(Some(Role::Admin), Role::Member, true).unwrap_err().message,
        "email already exists"
    );
}

#[test]
fn addresses_change_when_they_are_free() {
    let old = Some("a@b.c".to_string());
    assert!(plan_email_change(&old, "d@b.c", false).unwrap());
    assert!(!plan_email_change(&old, "a@b.c", false).unwrap());
    assert_eq!(plan_email_change(&old, "d@b.c", true).unwrap_err().status, Status::Conflict);
    assert_eq!(plan_email_change(&None, "d@b.c", false).unwrap_err().message, "user not found");
}

#[test]
fn a_super_administrator_remains() {
    assert!(role_change_needs_others(Some(Role::SuperAdmin), Role::Member));
    assert!(!role_change_needs_others(Some(Role::SuperAdmin), Role::SuperAdmin));
    assert!(!role_change_needs_others(Some(Role::Admin), Role::Member));
    assert!(check_role_change(true, Some(Role::SuperAdmin), Role::Member, true).is_ok());
    for (error, message) in [
        (
            check_role_change(true, Some(Role::SuperAdmin), Role::Member, false),
            "at least one Super Administrator must remain",
        ),
        (check_role_change(true, None, Role::Member, true), "user not found"),
        (
            check_role_change(false, Some(Role::Member), Role::Admin, true),
            "super administrator permission is required",
        ),
    ] {
        assert_eq!(error.unwrap_err().message, message);
    }
}

#[test]
fn system_settings_have_defaults_and_ranges() {
    let megabyte = 1_048_576;
    let settings = |upload: i64, session: i64| SystemSettings {
        max_attachment_upload_bytes: upload,
        max_attachment_bytes_per_session: session,
    };
    assert_eq!(effective_system_settings(None), settings(104857600, 524288000));
    let own = settings(20 * megabyte, 200 * megabyte);
    assert_eq!(effective_system_settings(Some(own)), own);
    assert!(validate_system_settings(own).is_ok());
    assert_eq!(
        validate_system_settings(settings(512, 200 * megabyte)).unwrap_err().message,
        "max attachment upload size must be between 1MB and 1GB"
    );
    assert_eq!(
        validate_system_settings(settings(20 * megabyte, 10 * megabyte)).unwrap_err().message,
        "max attachment bytes per session must not be smaller than the single upload limit"
    );
    assert_eq!(
        validate_system_settings(settings(20 * megabyte, 10 * 1024 * megabyte + 1))
            .unwrap_err()
            .message,
        "max attachment bytes per session must not exceed 10GB"
    );
    assert!(validate_system_settings(settings(1024 * megabyte, 10 * 1024 * megabyte)).is_ok());
}

#[test]
fn nobody_is_locked_out() {
    let methods = |registration: bool, password: bool, ldap: bool| LoginMethods {
        password_registration: registration,
        password_login: password,
        ldap_login: ldap,
    };
    let current = methods(true, true, false);
    assert!(check_login_methods_change(current, methods(false, true, false), false, false).is_ok());
    assert!(check_login_methods_change(current, methods(false, false, true), true, true).is_ok());
    assert!(check_login_methods_change(current, methods(true, true, true), true, false).is_ok());
    assert_eq!(
        check_login_methods_change(current, methods(true, true, true), false, true)
            .unwrap_err()
            .message,
        "LDAP must be configured before LDAP login is enabled"
    );
    assert_eq!(
        check_login_methods_change(current, methods(false, false, true), true, false)
            .unwrap_err()
            .message,
        "a Super Administrator with a local password is required"
    );
    assert_eq!(
        validate_login_methods(methods(true, false, true)).unwrap_err().message,
        "password registration requires password login"
    );
    assert_eq!(
        validate_login_methods(methods(false, false, false)).unwrap_err().message,
        "at least one ordinary login method must remain enabled"
    );
}

#[test]
fn placeholders_are_stored_trimmed() {
    let methods =
        LoginMethods { password_registration: false, password_login: true, ldap_login: false };
    let request = LoginPolicy {
        methods,
        email_placeholder: "  you@example.com\n".to_string(),
        password_placeholder: " \t".to_string(),
    };
    let stored = stored_policy(methods, &request, false, false).unwrap();
    assert_eq!(stored.methods, methods);
    assert_eq!(stored.email_placeholder, "you@example.com");
    assert_eq!(stored.password_placeholder, "");
    let closed = LoginPolicy {
        methods: LoginMethods { password_login: false, ldap_login: true, ..methods },
        ..request
    };
    assert_eq!(
        stored_policy(methods, &closed, true, false).unwrap_err().message,
        "a Super Administrator with a local password is required"
    );
}

#[test]
fn registration_and_directory_login_follow_the_policy() {
    assert_eq!(
        check_registration(true, " New@Example.com", "new password").unwrap(),
        "new@example.com"
    );
    assert_eq!(
        check_registration(false, "new@example.com", "new password").unwrap_err().message,
        "password registration is disabled"
    );
    assert!(check_registration(true, "new@example.com", "short").is_err());
    assert!(check_registration_locked(true, false).is_ok());
    assert_eq!(check_registration_locked(true, true).unwrap_err().status, Status::Conflict);
    assert_eq!(check_registration_locked(false, false).unwrap_err().status, Status::Forbidden);
    assert!(check_ldap_login(true, true).is_ok());
    assert_eq!(check_ldap_login(false, true).unwrap_err().message, "LDAP login is disabled");
    assert_eq!(check_ldap_login(true, false).unwrap_err().status, Status::ServiceUnavailable);
    assert!(matches!(resolve_ldap_user(Some(false), true), DirectoryUser::Rename));
    assert!(matches!(resolve_ldap_user(Some(false), false), DirectoryUser::Keep));
    assert!(matches!(resolve_ldap_user(None, true), DirectoryUser::Create));
    match resolve_ldap_user(Some(true), true) {
        DirectoryUser::Refuse(refusal) => {
            assert_eq!(refusal.status, Status::Unauthorized);
            assert_eq!(refusal.message, "invalid email or password");
        }
        other => panic!("{other:?}"),
    }
}

#[test]
fn external_identities_are_normalized() {
    let identity = check_external_identity(
        " default ",
        " identity-2 ",
        &Some(" BOUND@EXAMPLE.COM ".to_string()),
        &Some(" external-one ".to_string()),
    )
    .unwrap();
    assert_eq!(identity.tenant_id, "default");
    assert_eq!(identity.external_user_id, "identity-2");
    assert_eq!(identity.email, Some("bound@example.com".to_string()));
    assert_eq!(identity.username, Some("external-one".to_string()));
    assert!(check_external_identity("default", "", &None, &None).is_err());
}

#[test]
fn known_identities_keep_their_user() {
    let (state, action) = begin_identity_resolution();
    assert!(matches!(action, ResolveAction::FindChannel));
    let (state, action) = resolve_external_identity(true, state, ResolveEvent::ChannelOpen(true));
    assert!(matches!(action, ResolveAction::FindIdentity));
    let known = KnownUser { user_id: 5, being_erased: false };
    let (end, action) = resolve_external_identity(true, state, ResolveEvent::IdentityIs(Some(known)));
    assert_eq!(end, ResolveState::Closed);
    assert!(matches!(action, ResolveAction::Refresh(5)));
    let (mail, action) = resolve_external_identity(true, state, ResolveEvent::IdentityIs(None));
    assert!(matches!(action, ResolveAction::FindUser));
    assert!(matches!(
        resolve_external_identity(true, mail, ResolveEvent::UserIs(Some(known))).1,
        ResolveAction::Link(5)
    ));
    assert!(matches!(
        resolve_external_identity(true, mail, ResolveEvent::UserIs(None)).1,
        ResolveAction::CreateAndLink
    ));
}

#[test]
fn identities_are_refused_for_closed_channels_and_erased_users() {
    let refusal = |has_email: bool, state: ResolveState, event: ResolveEvent| {
        match resolve_external_identity(has_email, state, event) {
            (ResolveState::Closed, ResolveAction::Refuse(refusal)) => refusal.message,
            other => panic!("{other:?}"),
        }
    };
    let erased = Some(KnownUser { user_id: 5, being_erased: true });
    assert_eq!(
        refusal(true, ResolveState::Channel, ResolveEvent::ChannelOpen(false)),
        "authentication channel is unavailable"
    );
    assert_eq!(
        refusal(true, ResolveState::Identity, ResolveEvent::IdentityIs(erased)),
        "user account is unavailable"
    );
    assert_eq!(
        refusal(true, ResolveState::Email, ResolveEvent::UserIs(erased)),
        "user account is unavailable"
    );
    assert_eq!(
        refusal(false, ResolveState::Identity, ResolveEvent::IdentityIs(None)),
        "trusted email is required"
    );
}

#[test]
fn login_attempts_are_limited() {
    let start = NOW;
    assert!(check_ip_attempts(20, start, start).is_ok());
    let error = check_ip_attempts(21, start, start + 10 * NANOS).unwrap_err();
    assert_eq!(error.status, Status::TooManyRequests);
    assert_eq!(error.message, "too many login attempts");
    assert_eq!(error.retry_after, Some(290));
    assert!(check_email_failures(2, start, start).is_ok());
    assert!(check_email_failures(3, start, start).is_ok());
    let error = check_email_failures(4, start, start).unwrap_err();
    assert_eq!(error.message, "too many failed login attempts");
    assert_eq!(error.retry_after, Some(300));
    assert_eq!(retry_after_seconds(start, start + 500 * NANOS), 1);
}

#[test]
fn logins_count_check_forget_and_issue() {
    let run = |kind: LoginKind, counted: bool, events: &[LoginEvent]| {
        let (mut state, action) = begin_login();
        assert!(matches!(action, LoginAction::CountSource));
        let mut actions = Vec::new();
        for event in events {
            let (next, action) = login(kind, counted, state, *event);
            state = next;
            actions.push(action);
        }
        (state, actions)
    };
    let (state, actions) = run(
        LoginKind::Password,
        true,
        &[
            LoginEvent::Counted,
            LoginEvent::Counted,
            LoginEvent::Accepted { user: true },
            LoginEvent::Forgotten,
            LoginEvent::SessionIssued,
        ],
    );
    assert_eq!(state, LoginState::Closed);
    assert!(matches!(
        actions[..],
        [
            LoginAction::CountEmail,
            LoginAction::CheckCredentials,
            LoginAction::ForgetFailures,
            LoginAction::IssueSession,
            LoginAction::Finish
        ]
    ));
    let (state, actions) = run(
        LoginKind::Directory,
        false,
        &[
            LoginEvent::Counted,
            LoginEvent::PolicyIs { enabled: true, configured: true },
            LoginEvent::Accepted { user: true },
            LoginEvent::UserResolved,
        ],
    );
    assert_eq!(state, LoginState::Session);
    assert!(matches!(
        actions[..],
        [
            LoginAction::FindPolicy,
            LoginAction::CheckCredentials,
            LoginAction::ResolveUser,
            LoginAction::IssueSession
        ]
    ));
    for (kind, last, message) in [
        (LoginKind::Password, LoginEvent::Accepted { user: false }, "invalid credentials"),
        (
            LoginKind::Directory,
            LoginEvent::PolicyIs { enabled: false, configured: true },
            "LDAP login is disabled",
        ),
        (
            LoginKind::Directory,
            LoginEvent::PolicyIs { enabled: true, configured: false },
            "LDAP service is temporarily unavailable",
        ),
    ] {
        let (state, actions) = run(kind, false, &[LoginEvent::Counted, last]);
        assert_eq!(state, LoginState::Closed);
        assert!(matches!(actions[1], LoginAction::Refuse(refusal) if refusal.message == message));
    }
}

fn request_erasure(actor: Role, target: Target) -> (RequestState, RequestAction) {
    let (state, _) = begin_user_erasure();
    let (state, _) = continue_user_erasure(state, RequestEvent::AdministratorIs(Some(actor)));
    continue_user_erasure(state, RequestEvent::UserIs(Some(target)))
}

#[test]
fn erasure_freezes_an_account_step_by_step() {
    let target = Target { role: Role::Member, email_confirmed: true, already_requested: false };
    let (mut state, mut action) = request_erasure(Role::Admin, target);
    let mut steps = Vec::new();
    while let RequestAction::Freeze(step) = action {
        steps.push(step);
        (state, action) = continue_user_erasure(state, RequestEvent::StepDone);
    }
    assert!(matches!(action, RequestAction::Commit));
    assert_eq!(state, RequestState::Closed);
    assert_eq!(steps.len(), 25);
    assert_eq!(steps[0], FreezeStep::LockAgents);
    assert_eq!(steps[3], FreezeStep::DisableUser);
    assert_eq!(steps[24], FreezeStep::WithdrawShares);
}

#[test]
fn erasure_is_refused_without_right_or_consent() {
    let member = Target { role: Role::Member, email_confirmed: true, already_requested: false };
    let message = |step: (RequestState, RequestAction)| match step {
        (RequestState::Closed, RequestAction::Refuse(refusal)) => refusal.message,
        other => panic!("{other:?}"),
    };
    let (first, action) = begin_user_erasure();
    assert!(matches!(action, RequestAction::FindAdministrator));
    assert_eq!(
        message(continue_user_erasure(first, RequestEvent::AdministratorIs(None))),
        "administrator permission is required"
    );
    assert_eq!(
        message(request_erasure(Role::Admin, Target { email_confirmed: false, ..member })),
        "email confirmation does not match exactly"
    );
    assert_eq!(
        message(request_erasure(Role::Admin, Target { role: Role::SuperAdmin, ..member })),
        "user not found"
    );
    let last = Target { role: Role::SuperAdmin, ..member };
    let (state, action) = request_erasure(Role::SuperAdmin, last);
    assert!(matches!(action, RequestAction::FindOthers));
    assert_eq!(
        message(continue_user_erasure(state, RequestEvent::OthersRemain(false))),
        "at least one Super Administrator must remain"
    );
    assert!(matches!(
        continue_user_erasure(state, RequestEvent::OthersRemain(true)).1,
        RequestAction::Freeze(FreezeStep::LockAgents)
    ));
    assert!(matches!(
        request_erasure(Role::Admin, Target { already_requested: true, ..member }).1,
        RequestAction::AlreadyDone
    ));
    let (state, _) = continue_user_erasure(first, RequestEvent::AdministratorIs(Some(Role::Admin)));
    let (state, action) = continue_user_erasure(state, RequestEvent::UserIs(None));
    assert!(matches!(action, RequestAction::FindAudit));
    assert!(matches!(
        continue_user_erasure(state, RequestEvent::AuditIs(Some(Role::Member))).1,
        RequestAction::AlreadyDone
    ));
    assert_eq!(
        message(continue_user_erasure(state, RequestEvent::AuditIs(None))),
        "user not found"
    );
    assert!(email_is_confirmed("a@b.c", "a@b.c"));
    assert!(!email_is_confirmed("a@b.c", "A@b.c"));
}

#[test]
fn erasure_jobs_empty_both_stores_before_purging() {
    let (state, action) = begin_erasure_job();
    assert!(matches!(action, JobAction::List(ObjectStore::Bundles)));
    let listed = |count: usize| JobEvent::Listed { count, store_configured: true };
    let (state, action) = process_user_erasure_job(state, listed(2));
    assert!(matches!(action, JobAction::Delete(ObjectStore::Bundles, 0)));
    let (noting, action) = process_user_erasure_job(state, JobEvent::DeleteFailed);
    assert!(matches!(action, JobAction::NoteFailure(ObjectStore::Bundles)));
    match process_user_erasure_job(noting, JobEvent::Noted) {
        (JobState::Closed, JobAction::Refuse(refusal)) => {
            assert_eq!(refusal.message, "failed to delete one or more Session Bundle objects")
        }
        other => panic!("{other:?}"),
    }
    let (state, action) = process_user_erasure_job(state, JobEvent::Deleted);
    assert!(matches!(action, JobAction::Delete(ObjectStore::Bundles, 1)));
    let (state, action) = process_user_erasure_job(state, JobEvent::Deleted);
    assert!(matches!(action, JobAction::List(ObjectStore::SkillPackages)));
    match process_user_erasure_job(state, JobEvent::Listed { count: 1, store_configured: false }) {
        (JobState::Closed, JobAction::Refuse(refusal)) => {
            assert_eq!(refusal.message, "Skill package object storage is not configured")
        }
        other => panic!("{other:?}"),
    }
    let (state, action) = process_user_erasure_job(state, listed(0));
    assert!(matches!(action, JobAction::Finalize));
    assert_eq!(state, JobState::Closed);
}

#[test]
fn purging_waits_and_ends_with_the_job() {
    let clean = Leftovers { objects: false, workspaces: false };
    let steps = finalize_user_erasure(true, clean);
    assert_eq!(steps.len(), 19);
    assert_eq!(steps[0], PurgeStep::CollectOwnedRecords);
    assert_eq!(
        steps[16..],
        [PurgeStep::WriteAudit, PurgeStep::DeleteUser, PurgeStep::DeleteJob]
    );
    assert!(finalize_user_erasure(false, clean).is_empty());
    assert!(finalize_user_erasure(true, Leftovers { objects: true, ..clean }).is_empty());
    assert!(finalize_user_erasure(true, Leftovers { workspaces: true, ..clean }).is_empty());
}

#[test]
fn erasures_are_listed_latest_first() {
    let pending = pending_erasure(1, "a@b.c".to_string(), NOW);
    assert!(!pending.completed);
    assert_eq!(pending.email, Some("a@b.c".to_string()));
    assert_eq!(pending.completed_at, None);
    let completed = completed_erasure(2, NOW);
    assert!(completed.completed);
    assert_eq!(completed.email, None);
    assert_eq!(completed.completed_at, Some(NOW));
    let older = completed_erasure(9, NOW - 1);
    let listed = list_user_erasures(vec![pending], vec![completed, older]);
    assert_eq!(listed.iter().map(|erasure| erasure.user_id).collect::<Vec<_>>(), vec![2, 1, 9]);
    let job = Some(("a@b.c".to_string(), NOW));
    assert!(!load_user_erasure(1, job, Some(NOW)).unwrap().completed);
    assert!(load_user_erasure(1, None, Some(NOW)).unwrap().completed);
    assert!(load_user_erasure(1, None, None).is_none());
}

#[test]
fn keys_without_days_need_no_room_on_the_calendar() {
    let end = i128::MAX;
    assert_eq!(api_key_expiration(Some(ApiKeyValidity::Never), end).unwrap(), None);
    assert!(api_key_expiration(Some(ApiKeyValidity::Date { expires_at: end }), end).is_err());
    assert!(api_key_expiration(Some(ApiKeyValidity::Days { days: 1 }), end).is_err());
    assert!(renewed_api_key_expiration(ApiKeyValidity::Days { days: 30 }, None, end).is_err());
    assert!(prepare_api_key(" ", "t", None, end).is_err());
}

#[test]
fn pages_list_every_key_once() {
    let key = |id: u128, owner_id: u128, created_at: i128| KeyEntry { id, owner_id, created_at };
    let keys = vec![key(1, 7, 10), key(2, 8, 10), key(3, 7, 30), key(4, 7, 10), key(5, 7, 20)];
    let ids = |v: &Vec<KeyEntry>| v.iter().map(|key| key.id).collect::<Vec<u128>>();
    assert_eq!(ids(&newest_keys(&keys, 7)), vec![3, 5, 4, 1]);
    let page = |page: i64| {
        list_api_keys(ApiKeyListQuery { page: Some(page), page_size: Some(3) }, 7, &keys).unwrap()
    };
    assert_eq!(ids(&page(1).items), vec![3, 5, 4]);
    assert_eq!(ids(&page(2).items), vec![1]);
    assert!(page(3).items.is_empty());
    assert_eq!((page(3).total, page(3).page, page(3).page_size), (4, 3, 3));
    let none = ApiKeyListQuery { page: Some(0), page_size: None };
    assert_eq!(page_of_keys(&vec![], none).unwrap_err().message, "invalid API key pagination");
}

#[test]
fn identities_lead_to_one_user() {
    let identity = |email: Option<&str>| {
        check_external_identity("t", "u", &email.map(str::to_string), &None).unwrap()
    };
    let stored = link_identity(1, 2, 3, 4, &identity(Some("A@example.com")));
    assert_eq!((stored.id, stored.platform_id, stored.user_id), (1, 2, 4));
    assert_eq!((stored.tenant_id.as_str(), stored.external_user_id.as_str()), ("t", "u"));
    assert_eq!(stored.last_email, Some("a@example.com".to_string()));
    let silent = refresh_identity(stored, 9, &identity(None));
    assert_eq!((silent.id, silent.user_id, silent.channel_id), (1, 4, 9));
    assert_eq!(silent.last_email, Some("a@example.com".to_string()));
    let moved = refresh_identity(silent, 9, &identity(Some("b@example.com")));
    assert_eq!(moved.last_email, Some("b@example.com".to_string()));
    assert_eq!(moved.user_id, 4);
}

#[test]
fn nothing_stays_open_once_its_owner_is_retired() {
    let after = |kind: RowKind, status: &str| {
        let rule = retirement_rule(kind);
        if rule.listed.iter().any(|listed| *listed == status) == rule.changes_listed {
            rule.closing.to_string()
        } else {
            status.to_string()
        }
    };
    for (kind, status, expected) in [
        (RowKind::Run, "pending", "failed"),
        (RowKind::Run, "waiting_tool", "failed"),
        (RowKind::Run, "completed", "completed"),
        (RowKind::Run, "interrupted", "interrupted"),
        (RowKind::Turn, "in_progress", "failed"),
        (RowKind::Turn, "interrupted", "interrupted"),
        (RowKind::Message, "deferred", "failed"),
        (RowKind::Message, "delivered", "delivered"),
        (RowKind::ToolRequest, "claimed", "cancelled"),
        (RowKind::ToolRequest, "completed", "completed"),
    ] {
        assert_eq!(after(kind, status), expected);
        assert_eq!(after(kind, expected), expected);
    }
    assert_eq!(rows_of_archive_step(ArchiveStep::FailTurns), Some(RowKind::Turn));
    assert_eq!(rows_of_archive_step(ArchiveStep::RetireAgent), None);
    assert_eq!(rows_of_freeze_step(FreezeStep::FailActiveRuns), Some(RowKind::Run));
    assert_eq!(rows_of_freeze_step(FreezeStep::DeleteApiKeys), None);
}
