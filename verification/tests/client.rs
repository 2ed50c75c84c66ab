use agent_hub::client::{
    agent_update_body, api_key_source, begin_command, check_package_files, check_package_path,
    continue_command, interpret_response, interpret_upload_response, package_manifest, truncate,
    upload_package_body, AgentChanges, Command, HttpMethod, HubConnection, KeySource, PackagePart,
};
use agent_hub::json::{json_equal, Json};

fn json(text: &str) -> Json {
    interpret_response("/", true, "200 OK", text).unwrap()
}

fn texts(values: &[&str]) -> Vec<String> {
    values.iter().map(|value| value.to_string()).collect()
}

fn no_changes() -> AgentChanges {
    AgentChanges {
        name: None,
        instructions: None,
        visibility: None,
        add_skills: Vec::new(),
        remove_skills: Vec::new(),
    }
}

#[test]
fn truncation_counts_characters() {
    assert_eq!(truncate("abc", 3), "abc");
    assert_eq!(truncate("abcd", 3), "abc...");
    assert_eq!(truncate("äöüß", 2), "äö...");
    assert_eq!(truncate("", 0), "");
    assert_eq!(truncate("a", 0), "...");
}

#[test]
fn connections_need_an_absolute_url_and_a_key() {
    let connection = HubConnection::new("https://hub.example//", "ahk_1".to_string()).unwrap();
    assert_eq!(connection.base_url, "https://hub.example");
    assert_eq!(connection.api_key, "ahk_1");
    assert_eq!(
        HubConnection::new("hub.example", "ahk_1".to_string()).unwrap_err(),
        "AGENT_HUB_HUB_URL must be an absolute HTTP(S) URL"
    );
    assert_eq!(
        HubConnection::new("http://hub", " \t".to_string()).unwrap_err(),
        "missing Agent Hub API key"
    );
}

#[test]
fn keys_come_from_the_flag_before_the_file() {
    let flag = Some("key".to_string());
    let file = Some("/run/key".to_string());
    assert!(matches!(api_key_source(&flag, &file), KeySource::Given(key) if key == "key"));
    assert!(matches!(
        api_key_source(&Some(" ".to_string()), &file),
        KeySource::File(path) if path == "/run/key"
    ));
    assert!(matches!(api_key_source(&None, &None), KeySource::Missing));
    assert!(matches!(api_key_source(&None, &Some("  ".to_string())), KeySource::Missing));
}

#[test]
fn answers_are_read_or_reported() {
    assert!(matches!(
        interpret_response("/api/skills/1", true, "204 No Content", " \n").unwrap(),
        Json::Null
    ));
    assert!(json_equal(
        &json("{\"a\":[1,true,null,\"x\"]}"),
        &Json::Object(vec![(
            "a".to_string(),
            Json::List(vec![
                json("1"),
                Json::Bool(true),
                Json::Null,
                Json::Text("x".to_string())
            ])
        )])
    ));
    assert_eq!(
        interpret_response("/p", true, "200 OK", "not json").unwrap_err(),
        "parse Hub JSON response"
    );
    assert_eq!(
        interpret_response("/p", false, "404 Not Found", "{\"error\":\"gone\"}").unwrap_err(),
        "Hub request /p failed (404 Not Found): gone"
    );
    let long = "x".repeat(501);
    assert_eq!(
        interpret_response("/p", false, "500", &long).unwrap_err(),
        format!("Hub request /p failed (500): {}...", "x".repeat(500))
    );
    assert_eq!(
        interpret_upload_response(false, "413", "{\"message\":1}").unwrap_err(),
        "Skill package upload failed (413): {\"message\":1}"
    );
    assert_eq!(
        interpret_upload_response(true, "200", "").unwrap_err(),
        "parse Skill package response"
    );
    assert!(interpret_upload_response(true, "200", "{}").is_ok());
}

#[test]
fn commands_ask_for_their_resources() {
    let health = begin_command(&Command::Health);
    assert_eq!(health.method, HttpMethod::Get);
    assert_eq!(health.path, "/api/auth/me");
    assert!(health.body.is_none());
    assert_eq!(begin_command(&Command::ListAgents).path, "/api/agents");
    assert_eq!(begin_command(&Command::ListSessions).path, "/api/sessions");
    assert_eq!(begin_command(&Command::ListRuntimes).path, "/api/runtimes");
    assert_eq!(begin_command(&Command::ListModels).path, "/api/model-connections");
    assert_eq!(begin_command(&Command::ListSkills).path, "/api/skills");
    let get = begin_command(&Command::GetAgent { id: "a1".to_string() });
    assert_eq!(get.path, "/api/agents/a1");
    let delete = begin_command(&Command::DeleteSkill { id: "s1".to_string() });
    assert_eq!(delete.method, HttpMethod::Delete);
    assert_eq!(delete.path, "/api/skills/s1");
    let create = begin_command(&Command::CreateSkill {
        name: "n".to_string(),
        description: "d".to_string(),
        content: "c".to_string(),
    });
    assert_eq!(create.method, HttpMethod::Post);
    assert!(json_equal(
        &create.body.unwrap(),
        &json("{\"name\":\"n\",\"description\":\"d\",\"content\":\"c\"}")
    ));
    assert!(continue_command(&Command::Health, &Json::Null).is_none());
}

#[test]
fn agents_are_changed_in_two_requests() {
    let command = Command::UpdateAgent {
        id: "a1".to_string(),
        changes: AgentChanges {
            name: Some("New".to_string()),
            instructions: None,
            visibility: Some("public".to_string()),
            add_skills: texts(&["s3", "s1"]),
            remove_skills: texts(&["s2"]),
        },
    };
    let first = begin_command(&command);
    assert_eq!(first.method, HttpMethod::Get);
    assert_eq!(first.path, "/api/agents/a1");
    let current = json(
        "{\"name\":\"Old\",\"instructions\":\"i\",\"visibility\":\"private\",\
         \"managed_skill_ids\":[\"s1\",\"s2\"],\"tool_allowlist\":[\"read\"]}",
    );
    let second = continue_command(&command, &current).unwrap();
    assert_eq!(second.method, HttpMethod::Patch);
    assert_eq!(second.path, "/api/agents/a1");
    assert!(json_equal(
        &second.body.unwrap(),
        &json(
            "{\"name\":\"New\",\"instructions\":\"i\",\"visibility\":\"public\",\"public_to\":null,\
             \"runtime_id\":null,\"model_selection\":null,\"model_settings\":null,\"subagents\":null,\
             \"sandbox_policy\":null,\"managed_skill_ids\":[\"s1\",\"s3\"],\
             \"secret_declarations\":null,\"mcp_allowlist\":null,\"tool_allowlist\":[\"read\"]}"
        )
    ));
}

#[test]
fn skills_that_are_removed_and_added_stay() {
    let current = json("{\"managed_skill_ids\":[\"a\",\"b\",\"a\"]}");
    let changes = AgentChanges {
        add_skills: texts(&["a", "c"]),
        remove_skills: texts(&["a"]),
        ..no_changes()
    };
    let body = agent_update_body(&current, &changes);
    assert!(json_equal(
        body.get("managed_skill_ids").unwrap(),
        &json("[\"b\",\"a\",\"c\"]")
    ));
    let none = agent_update_body(&json("{}"), &no_changes());
    assert!(json_equal(none.get("managed_skill_ids").unwrap(), &json("[]")));
}

#[test]
fn packages_need_their_root_document_and_unique_paths() {
    assert!(check_package_path("docs/guide.md").is_ok());
    assert_eq!(check_package_path("../x").unwrap_err(), "package path is unsafe: ../x");
    assert_eq!(check_package_path("..").unwrap_err(), "package path is unsafe: ..");
    assert_eq!(check_package_path("").unwrap_err(), "package path is unsafe: ");
    assert!(check_package_path("..x").is_ok());
    assert!(check_package_files(&texts(&["SKILL.md", "a"])).is_ok());
    assert_eq!(
        check_package_files(&texts(&["docs/SKILL.md"])).unwrap_err(),
        "Skill package must contain a root SKILL.md"
    );
    assert_eq!(
        check_package_files(&texts(&["a", "SKILL.md", "a"])).unwrap_err(),
        "Skill package contains duplicate path a"
    );
}

#[test]
fn uploads_are_framed_by_their_boundary() {
    assert_eq!(package_manifest(&texts(&["SKILL.md", "b"])), "{\"paths\":[\"SKILL.md\",\"b\"]}");
    let body = upload_package_body(
        "B",
        "{}",
        &vec![
            PackagePart { file_name: "SKILL.md".to_string(), bytes: vec![1, 2] },
            PackagePart { file_name: "é".to_string(), bytes: Vec::new() },
        ],
    );
    let mut expected = Vec::new();
    expected.extend_from_slice(
        b"--B\r\nContent-Disposition: form-data; name=\"manifest\"\r\n\r\n{}\r\n",
    );
    expected.extend_from_slice(
        b"--B\r\nContent-Disposition: form-data; name=\"file-0\"; filename=\"SKILL.md\"\r\n\
          Content-Type: application/octet-stream\r\n\r\n",
    );
    expected.extend_from_slice(&[1, 2]);
    expected.extend_from_slice(b"\r\n");
    expected.extend_from_slice(
        "--B\r\nContent-Disposition: form-data; name=\"file-1\"; filename=\"é\"\r\n\
         Content-Type: application/octet-stream\r\n\r\n\r\n"
            .as_bytes(),
    );
    expected.extend_from_slice(b"--B--\r\n");
    assert_eq!(body, expected);
}
