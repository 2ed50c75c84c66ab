use agent_hub::client::interpret_response;
use agent_hub::digest::sha256_hex;
use agent_hub::error::Status;
use agent_hub::json::Json;
use agent_hub::jwt::{
    check_embed_claims, check_single_use, jwt_audience_matches, validate_embed_jwt_iat,
    verify_embed_jwt_claims, JwtPolicy,
};
use agent_hub::oauth::{
    check_client_secret, check_code_scopes, check_scope_agent, ids_are_unique, is_loopback_host,
    normalize_scope_word, oauth_agent_scope_ids, oauth_redirect_location, parse_oauth_scopes,
    plan_token_grant, project_oauth_userinfo, query_pairs, redeem_authorization_code,
    redirect_uri_allowed, same_texts, scope_text, token_answer, validate_integration_app_payload,
    validate_oauth_redirect_uri, AuthorizationCode, ExternalProfile, TokenGrant, TokenRequest,
};

const AGENT: &str = "00000000-0000-0000-0000-00000000000a";
const HEADER: &str = "eyJhbGciOiJIUzI1NiIsInR5cCI6IkpXVCJ9";
const PAYLOAD: &str = "eyJpc3MiOiJodWIiLCJhdWQiOlsid2lkZ2V0Iiwib3RoZXIiXSwiZXhwIjoyMDAwLCJpYXQiOjEwMDAsImp0aSI6ImoxIiwic3ViIjoidTEiLCJhZ2VudF9pZCI6IjAwMDAwMDAwLTAwMDAtMDAwMC0wMDAwLTAwMDAwMDAwMDAwYSIsIm93bmVyX2lkIjoiMDAwMDAwMDAtMDAwMC0wMDAwLTAwMDAtMDAwMDAwMDAwMDBiIn0";
const SIGNATURE: &str = "dTfglX7YfShYGPIY4r9C7uTcsNalCsBRoKPen_M7rC0";

fn json(text: &str) -> Json {
    interpret_response("/", true, "200 OK", text).unwrap()
}

fn texts(values: &[&str]) -> Vec<String> {
    values.iter().map(|value| value.to_string()).collect()
}

#[test]
fn redirects_are_secure_or_local() {
    for uri in [
        "https://app.example/callback?x=1",
        "http://localhost:8080/cb",
        "http://127.0.0.1/cb",
    ] {
        assert!(validate_oauth_redirect_uri(uri).is_ok(), "{uri}");
    }
    for (uri, message) in [
        ("callback", "redirect uri is invalid"),
        ("https://user@app.example/", "redirect uri cannot contain credentials or a fragment"),
        ("https://app.example/#x", "redirect uri cannot contain credentials or a fragment"),
        ("http://app.example/", "redirect uri must use HTTPS or loopback HTTP"),
        ("http://[::1]/cb", "redirect uri must use HTTPS or loopback HTTP"),
        ("http://128.0.0.1/", "redirect uri must use HTTPS or loopback HTTP"),
        ("app:callback", "redirect uri must use HTTPS or loopback HTTP"),
    ] {
        assert_eq!(validate_oauth_redirect_uri(uri).unwrap_err().message, message, "{uri}");
    }
    assert!(is_loopback_host("127.9.9.9"));
    assert!(!is_loopback_host("localhost.example"));
}

#[test]
fn codes_travel_in_the_query() {
    assert_eq!(
        oauth_redirect_location("https://app.example/cb?x=1", "c d", &Some("s&t".to_string()))
            .unwrap(),
        "https://app.example/cb?x=1&code=c+d&state=s%26t"
    );
    assert_eq!(
        oauth_redirect_location("https://app.example", "c", &None).unwrap(),
        "https://app.example/?code=c"
    );
    assert_eq!(
        oauth_redirect_location("nowhere", "c", &None).unwrap_err().message,
        "redirect uri is invalid"
    );
    assert_eq!(query_pairs("c", &None), vec![("code".to_string(), "c".to_string())]);
    assert!(redirect_uri_allowed(&json("[\"https://a\",\"https://b\"]"), "https://b"));
    assert!(!redirect_uri_allowed(&json("[\"https://a\"]"), "https://a/"));
    assert!(!redirect_uri_allowed(&json("\"https://a\""), "https://a"));
}

#[test]
fn applications_name_their_redirects_and_agents() {
    let uris = json("[\"https://app.example/cb\"]");
    assert!(validate_integration_app_payload("App", &uris, &vec![1, 2]).is_ok());
    for (name, uris, ids, message) in [
        (" ", "[\"https://a.example\"]", vec![1], "integration app name is required"),
        ("App", "[]", vec![1], "redirect uri is required"),
        ("App", "{}", vec![1], "redirect uris must be an array"),
        ("App", "[1]", vec![1], "redirect uri must be a string"),
        (
            "App",
            "[\"https://a.example\"]",
            vec![1, 1],
            "integration app agent ids must contain at most 100 unique values",
        ),
        (
            "App",
            "[\"https://a.example\"]",
            (0..101).collect::<Vec<u128>>(),
            "integration app agent ids must contain at most 100 unique values",
        ),
    ] {
        let error = validate_integration_app_payload(name, &json(uris), &ids).unwrap_err();
        assert_eq!(error.message, message);
    }
    assert!(ids_are_unique(&vec![3, 1, 2]));
    assert!(!ids_are_unique(&vec![3, 1, 3]));
}

#[test]
fn scopes_are_parsed_sorted_and_unique() {
    let parse = |text: &str| parse_oauth_scopes(&Some(text.to_string()), false);
    let agent = format!("agent:{AGENT}");
    assert_eq!(
        parse(&format!(" profile {agent} email profile ")).unwrap(),
        vec![agent.clone(), "email".to_string(), "profile".to_string()]
    );
    assert_eq!(
        parse("agent:0000000000000000000000000000000A").unwrap(),
        vec![agent.clone()]
    );
    assert_eq!(parse("admin").unwrap_err().message, "invalid oauth scope");
    assert_eq!(parse("agent:x").unwrap_err().message, "invalid oauth scope");
    assert_eq!(
        parse_oauth_scopes(&None, true).unwrap(),
        texts(&["email", "external_profile", "profile"])
    );
    assert!(parse_oauth_scopes(&None, false).unwrap().is_empty());
    assert_eq!(oauth_agent_scope_ids(&vec![agent.clone(), "email".to_string()]).unwrap(), vec![10]);
    assert_eq!(
        oauth_agent_scope_ids(&texts(&["agent:x"])).unwrap_err().message,
        "invalid oauth scope"
    );
    assert_eq!(check_scope_agent("agent:x", Some(10)).unwrap(), Some(10));
    assert_eq!(check_scope_agent("email", None).unwrap(), None);
    assert!(check_scope_agent("agent:x", None).is_err());
    assert_eq!(normalize_scope_word("agent:x", Some(10)), Some(agent));
    assert_eq!(normalize_scope_word("agent:x", None), None);
    assert_eq!(normalize_scope_word("email", None), Some("email".to_string()));
}

#[test]
fn tokens_are_granted_for_codes_or_agents() {
    let request = |grant: &str, code: Option<&str>, uri: Option<&str>, scope: Option<&str>| {
        plan_token_grant(&TokenRequest {
            grant_type: grant.to_string(),
            code: code.map(str::to_string),
            redirect_uri: uri.map(str::to_string),
            scope: scope.map(str::to_string),
        })
    };
    match request("authorization_code", Some("c"), Some("https://a"), None).unwrap() {
        TokenGrant::Code { code_hash, redirect_uri } => {
            assert_eq!(code_hash, sha256_hex("c"));
            assert_eq!(redirect_uri, "https://a");
        }
        other => panic!("{other:?}"),
    }
    let agent = format!("agent:{AGENT}");
    match request("client_credentials", None, None, Some(&agent)).unwrap() {
        TokenGrant::Client { scopes } => assert_eq!(scopes, vec![agent.clone()]),
        other => panic!("{other:?}"),
    }
    for (result, message) in [
        (
            request("authorization_code", None, Some("u"), None),
            "authorization code is required",
        ),
        (request("authorization_code", Some("c"), None, None), "redirect uri is required"),
        (request("password", None, None, None), "unsupported grant type"),
        (
            request("client_credentials", Some("c"), None, Some(&agent)),
            "client credentials cannot include authorization code fields",
        ),
        (
            request("client_credentials", None, None, Some("profile")),
            "client credentials require explicit agent scopes",
        ),
        (
            request("client_credentials", None, None, None),
            "client credentials require explicit agent scopes",
        ),
    ] {
        assert_eq!(result.unwrap_err().message, message);
    }
}

fn code() -> AuthorizationCode {
    AuthorizationCode {
        oauth_app_id: 1,
        redirect_uri: "https://app.example/back".to_string(),
        used: false,
        expires_at: 1_000,
        subject_user_id: 2,
        external_identity_id: 3,
        tenant_id: "t".to_string(),
        scopes: texts(&["email", "profile"]),
    }
}

#[test]
fn codes_buy_one_token() {
    let redeem = |code: Option<AuthorizationCode>, app: u128, uri: &str, scope: Option<&str>, now: i128| {
        redeem_authorization_code(code, app, uri, &scope.map(str::to_string), now)
    };
    let back = "https://app.example/back";
    let used = redeem(Some(code()), 1, back, None, 999).unwrap();
    assert!(used.used);
    assert_eq!(used.subject_user_id, 2);
    assert_eq!(used.external_identity_id, 3);
    assert_eq!(used.tenant_id, "t");
    assert_eq!(used.scopes, ["email", "profile"]);
    assert!(redeem(Some(code()), 1, back, Some("profile  email profile"), 999).is_ok());
    for attempt in [
        redeem(Some(used), 1, back, None, 999),
        redeem(None, 1, back, None, 999),
        redeem(Some(code()), 2, back, None, 999),
        redeem(Some(code()), 1, "https://app.example/", None, 999),
        redeem(Some(code()), 1, back, None, 1_000),
    ] {
        let error = attempt.unwrap_err();
        assert_eq!(error.message, "invalid oauth code");
        assert_eq!(error.status, Status::Unauthorized);
    }
    for (scope, message) in [
        ("email", "token scope must match the authorization code"),
        ("email profile external_profile", "token scope must match the authorization code"),
        ("email admin", "invalid oauth scope"),
    ] {
        let error = redeem(Some(code()), 1, back, Some(scope), 999).unwrap_err();
        assert_eq!(error.message, message);
        assert_eq!(error.status, Status::BadRequest);
    }
}

#[test]
fn tokens_are_answered_with_their_scopes() {
    let raw = Some(format!("profile agent:{AGENT} email"));
    let scopes = parse_oauth_scopes(&raw, false).unwrap();
    let answer = token_answer("aho_1".to_string(), &scopes);
    assert_eq!(answer.access_token, "aho_1");
    assert_eq!(answer.token_type, "Bearer");
    assert_eq!(answer.expires_in, 3600);
    assert_eq!(answer.scope, format!("agent:{AGENT} email profile"));
    assert_eq!(parse_oauth_scopes(&Some(answer.scope), false).unwrap(), scopes);
}

#[test]
fn secrets_and_scopes_are_compared() {
    assert!(check_client_secret(&sha256_hex("s"), "s").is_ok());
    let error = check_client_secret(&sha256_hex("s"), "t").unwrap_err();
    assert_eq!(error.status, Status::Unauthorized);
    assert_eq!(error.message, "invalid oauth client");
    assert!(same_texts(&texts(&["a", "b"]), &texts(&["a", "b"])));
    assert!(!same_texts(&texts(&["a", "b"]), &texts(&["b", "a"])));
    assert!(check_code_scopes(&None, &texts(&["email"])).is_ok());
    assert!(check_code_scopes(&Some(texts(&["email"])), &texts(&["email"])).is_ok());
    assert_eq!(
        check_code_scopes(&Some(texts(&["email"])), &texts(&["profile"])).unwrap_err().message,
        "token scope must match the authorization code"
    );
    assert_eq!(scope_text(&texts(&["a", "b"])), "a b");
    assert_eq!(scope_text(&texts(&[])), "");
}

#[test]
fn user_information_follows_the_scopes() {
    let project = |scopes: &[&str]| {
        project_oauth_userinfo(
            &texts(scopes),
            5,
            "Ann",
            "ann@example.com",
            ExternalProfile {
                platform_id: 1,
                tenant_id: "default".to_string(),
                external_identity_id: 2,
                external_user_id: "u1".to_string(),
                username: Some("ann".to_string()),
                email: Some("ann@outside.example".to_string()),
            },
        )
    };
    let none = project(&[]);
    assert_eq!(none.sub, 5);
    assert_eq!((none.name, none.email), (None, None));
    assert!(none.external_profile.is_none());
    let all = project(&["email", "external_profile", "profile"]);
    assert_eq!(all.name, Some("Ann".to_string()));
    assert_eq!(all.email, Some("ann@example.com".to_string()));
    assert_eq!(all.external_profile.unwrap().email, Some("ann@outside.example".to_string()));
    let profile = project(&["external_profile"]).external_profile.unwrap();
    assert_eq!(profile.external_user_id, "u1");
    assert_eq!(profile.email, None);
}

fn policy() -> JwtPolicy {
    JwtPolicy {
        secret: "shared".to_string(),
        issuer: "hub".to_string(),
        audience: "widget".to_string(),
    }
}

#[test]
fn signed_tokens_are_accepted_until_they_expire() {
    let token = format!("{HEADER}.{PAYLOAD}.{SIGNATURE}");
    let claims = verify_embed_jwt_claims(&token, &policy(), 1_500).unwrap();
    assert_eq!(claims.agent_id, 10);
    assert_eq!(claims.owner_id, 11);
    assert_eq!(claims.subject, "u1");
    assert_eq!(claims.jti, "j1");
    assert_eq!(claims.expires_at, 2_000);
    let refusal = |token: &str, policy: JwtPolicy, now: i64| {
        verify_embed_jwt_claims(token, &policy, now).unwrap_err().message
    };
    assert_eq!(refusal(&token, policy(), 2_001), "embed jwt expired");
    assert_eq!(refusal(&token, policy(), 900), "embed jwt issued in the future");
    assert_eq!(refusal("a.b", policy(), 1_500), "invalid embed jwt");
    let unsigned = format!("{HEADER}.{PAYLOAD}.x");
    assert_eq!(refusal(&unsigned, policy(), 1_500), "invalid embed jwt signature");
    let other = JwtPolicy { secret: "other".to_string(), ..policy() };
    assert_eq!(refusal(&token, other, 1_500), "invalid embed jwt signature");
    let other = JwtPolicy { issuer: "other".to_string(), ..policy() };
    assert_eq!(refusal(&token, other, 1_500), "invalid embed jwt issuer");
    let other = JwtPolicy { audience: "none".to_string(), ..policy() };
    assert_eq!(refusal(&token, other, 1_500), "invalid embed jwt audience");
}

#[test]
fn claims_are_all_needed() {
    let header = Some(json("{\"alg\":\"HS256\"}"));
    let full = "{\"iss\":\"hub\",\"aud\":\"widget\",\"exp\":2000,\"iat\":1000,\"jti\":\"j\",\"sub\":\"u\"}";
    let check = |header: &Option<Json>, payload: &str, agent: Option<u128>, owner: Option<u128>| {
        check_embed_claims(header, &Some(json(payload)), "hub", "widget", 1_500, agent, owner)
    };
    assert_eq!(check(&header, full, Some(1), Some(2)).unwrap().agent_id, 1);
    let refused = |payload: &str, agent: Option<u128>, owner: Option<u128>, message: &str| {
        let error = check(&header, payload, agent, owner).unwrap_err();
        assert_eq!(error.status, Status::Unauthorized);
        assert_eq!(error.message, message);
    };
    refused(full, None, Some(2), "missing embed jwt agent");
    refused(full, Some(1), None, "missing embed jwt owner");
    refused("{}", Some(1), Some(2), "missing embed jwt issuer");
    refused(&full.replace("\"exp\":2000,", ""), Some(1), Some(2), "missing embed jwt expiry");
    refused(&full.replace("\"iat\":1000,", ""), Some(1), Some(2), "missing embed jwt issued-at");
    refused(&full.replace("\"jti\":\"j\",", ""), Some(1), Some(2), "missing embed jwt jti");
    refused(&full.replace("\"sub\":\"u\"", "\"sub\":\" \""), Some(1), Some(2), "missing embed jwt subject");
    let plain = Some(json("{\"alg\":\"none\"}"));
    assert_eq!(
        check(&plain, full, Some(1), Some(2)).unwrap_err().message,
        "invalid embed jwt alg"
    );
    assert_eq!(
        check(&None, full, Some(1), Some(2)).unwrap_err().message,
        "invalid embed jwt header"
    );
    assert_eq!(
        check_embed_claims(&header, &None, "hub", "widget", 0, None, None).unwrap_err().message,
        "invalid embed jwt payload"
    );
    assert!(jwt_audience_matches(Some(&json("\"widget\"")), "widget"));
    assert!(!jwt_audience_matches(Some(&json("[1,\"x\"]")), "widget"));
    assert!(!jwt_audience_matches(None, "widget"));
    assert!(validate_embed_jwt_iat(&json("{\"iat\":160}"), 100).is_ok());
    assert!(validate_embed_jwt_iat(&json("{\"iat\":161}"), 100).is_err());
    assert!(check_single_use(true).is_ok());
    assert_eq!(check_single_use(false).unwrap_err().message, "embed jwt replayed");
}
