use agent_hub::client::interpret_response;
use agent_hub::clock::NANOS;
use agent_hub::error::{refuse, Status};
use agent_hub::identity::Role;
use agent_hub::json::{json_equal, Json};
use agent_hub::tool_batch::{
    are_tools_registered, batch_deadline, begin_tool_request_batch, client_tool_call_event,
    clean_registration, finalize_tool_request_batch, parse_tool_request_batch,
    record_tool_request_batch, register_tool_request, resume_matches,
    tool_request_batch_fingerprint, verify_tool_request_batch_replay, waiting_tool_status,
    BatchAction, BatchEvent, BatchRequest, BatchRun, BatchState, ToolRegistration,
};
use agent_hub::tool_calls::{
    advance_call, answered_request, begin_batch_lock, begin_client_tool_continuation,
    begin_integration_tool_result, call_status_name, check_claimed, checksum_of_result, claim_client_tool_call, client_tool_batch_key, continue_after_result,
    create_client_tool_continuation, elapsed_milliseconds, expired_request, fail_client_tool_batch,
    lock_client_tool_batch, stop_widget_run, stored_call_status, submit_client_tool_result,
    submit_integration_tool_result, tool_result_content, tool_result_key,
    validate_client_tool_result, BatchFailure, CallStatus, CallStep, ClaimDecision, ContinuationAction,
    ContinuationEvent, IntegrationAction, IntegrationCall, IntegrationEvent, IntegrationState,
    LockAction, LockEvent, StopDecision, SubmitDecision, ToolCall,
};
use agent_hub::tools::{
    all_within, attachment_to_store, check_app_tools, check_client_tool_definitions, client_tools_json,
    is_tool_registered, normalize_agent_tool_allowlist, validate_client_tool_definitions,
    validate_integration_attachments, validate_public_widget_app_record,
    validate_public_widget_settings, validate_tool_definitions, validate_tool_result,
    ClientToolDefinition,
};
use agent_hub::widget::WidgetCredential;

fn json(text: &str) -> Json {
    interpret_response("/", true, "200 OK", text).unwrap()
}

fn texts(values: &[&str]) -> Vec<String> {
    values.iter().map(|value| value.to_string()).collect()
}

fn definition(name: &str, description: &str, schema: &str) -> ClientToolDefinition {
    ClientToolDefinition {
        name: name.to_string(),
        description: description.to_string(),
        input_schema: json(schema),
    }
}

#[test]
fn agent_tools_come_in_the_known_order() {
    let known = texts(&["read", "write", "shell"]);
    assert_eq!(
        normalize_agent_tool_allowlist(&texts(&["shell", "read"]), &known).unwrap(),
        texts(&["read", "shell"])
    );
    assert_eq!(
        normalize_agent_tool_allowlist(&texts(&[]), &known).unwrap_err().message,
        "at least one Agent tool must be enabled"
    );
    for wrong in [texts(&["read", "read"]), texts(&["fly"])] {
        assert_eq!(
            normalize_agent_tool_allowlist(&wrong, &known).unwrap_err().message,
            "unsupported or duplicate Agent tool"
        );
    }
    assert!(all_within(&texts(&["read"]), &known));
    assert!(check_app_tools(&texts(&["read"]), &texts(&["read", "write"])).is_ok());
    assert_eq!(
        check_app_tools(&texts(&["shell"]), &texts(&["read"])).unwrap_err().message,
        "App tools can only further restrict its Agents"
    );
}

#[test]
fn public_widgets_are_restricted() {
    let origins = texts(&["https://a.example"]);
    let read = Some(texts(&["read"]));
    let public = texts(&["read"]);
    let check = |history: bool,
                 origins: &Vec<String>,
                 tools: &Option<Vec<String>>,
                 agents: usize,
                 role: Role| {
        validate_public_widget_settings(false, history, origins, tools, &public, agents, role)
    };
    assert!(check(false, &origins, &read, 1, Role::Admin).is_ok());
    assert!(validate_public_widget_settings(true, true, &vec![], &None, &public, 5, Role::Member)
        .is_ok());
    for (result, message) in [
        (
            check(false, &origins, &read, 1, Role::Member),
            "administrator permission is required for public Widgets",
        ),
        (
            check(false, &vec![], &read, 1, Role::Admin),
            "public Widget requires at least one allowed Origin",
        ),
        (check(true, &origins, &read, 1, Role::Admin), "public Widget cannot enable history"),
        (check(false, &origins, &read, 2, Role::Admin), "public Widget requires exactly one Agent"),
        (
            check(false, &origins, &Some(texts(&["shell"])), 1, Role::Admin),
            "public Widget only permits read-only file tools",
        ),
    ] {
        assert_eq!(result.unwrap_err().message, message);
    }
    assert!(validate_public_widget_app_record(false, &origins, &read, &public).is_ok());
    for (result, message) in [
        (
            validate_public_widget_app_record(true, &origins, &read, &public),
            "public Widget application not found",
        ),
        (
            validate_public_widget_app_record(false, &vec![], &read, &public),
            "public Widget has no allowed Origins",
        ),
        (
            validate_public_widget_app_record(false, &origins, &Some(texts(&["x"])), &public),
            "public Widget tool policy is invalid",
        ),
    ] {
        assert_eq!(result.unwrap_err().message, message);
    }
}

#[test]
fn client_tools_are_named_described_and_typed() {
    let schema = "{\"type\":\"object\"}";
    let good = vec![definition("open_page", "Opens", schema), definition("close-2", "Closes", schema)];
    let shown = validate_client_tool_definitions(&good, 10, 10_000).unwrap();
    assert!(json_equal(
        &shown,
        &json(
            "[{\"name\":\"open_page\",\"description\":\"Opens\",\"input_schema\":{\"type\":\"object\"}},\
             {\"name\":\"close-2\",\"description\":\"Closes\",\"input_schema\":{\"type\":\"object\"}}]"
        )
    ));
    assert!(json_equal(&shown, &client_tools_json(&good)));
    assert!(is_tool_registered(&shown, "close-2"));
    assert!(!is_tool_registered(&shown, "close"));
    let names = "Client Tool names must be unique and contain only letters, digits, '_' or '-'";
    for (tools, message) in [
        (vec![definition("a b", "d", schema)], names),
        (vec![definition("a", "d", schema), definition("a", "d", schema)], names),
        (vec![definition("a", " ", schema)], "Client Tool description is required"),
        (
            vec![definition("a", "d", "[]")],
            "Client Tool input_schema must be a JSON object",
        ),
        (
            vec![definition("a", "d", "{\"type\":\"string\"}")],
            "Client Tool input_schema type must be object",
        ),
    ] {
        assert_eq!(
            validate_client_tool_definitions(&tools, 10, 10_000).unwrap_err().message,
            message
        );
    }
    assert_eq!(
        validate_client_tool_definitions(&good, 1, 10_000).unwrap_err().message,
        "too many Client Tools"
    );
    assert_eq!(
        validate_client_tool_definitions(&good, 10, 10).unwrap_err().message,
        "Client Tool definitions are too large"
    );
    assert!(check_client_tool_definitions(&good, 2, 5, 5).is_ok());
    assert!(check_client_tool_definitions(&good, 2, 6, 5).is_err());
}

#[test]
fn session_tools_have_names() {
    assert!(validate_tool_definitions(&json("[{\"name\":\"a\"}]")).is_ok());
    assert_eq!(
        validate_tool_definitions(&json("[{\"name\":\" \"}]")).unwrap_err().message,
        "tool name is required"
    );
    assert_eq!(
        validate_tool_definitions(&json("{}")).unwrap_err().message,
        "tools must be an array"
    );
}

#[test]
fn attachments_are_checked_and_stored() {
    let check = |text: &str| validate_integration_attachments(&json(text));
    assert!(check("[]").is_ok());
    assert!(check(
        "[{\"kind\":\"text\",\"name\":\"a\",\"text\":\"x\"},\
          {\"kind\":\"url\",\"name\":\"b\",\"url\":\"https://a.example\",\"size_bytes\":5}]"
    )
    .is_ok());
    for (text, message) in [
        ("{}", "attachments must be an array"),
        ("[{}]", "attachment kind is required"),
        ("[{\"kind\":\"image\"}]", "unsupported attachment kind"),
        ("[{\"kind\":\"text\",\"name\":\" \"}]", "attachment name is required"),
        (
            "[{\"kind\":\"text\",\"name\":\"a\",\"size_bytes\":9223372036854775807}]",
            "attachment is too large",
        ),
        ("[{\"kind\":\"text\",\"name\":\"a\"}]", "text attachment content is required"),
        ("[{\"kind\":\"url\",\"name\":\"a\"}]", "url attachment url is required"),
        (
            "[{\"kind\":\"url\",\"name\":\"a\",\"url\":\"ftp://a\"}]",
            "attachment url must be http or https",
        ),
    ] {
        assert_eq!(check(text).unwrap_err().message, message);
    }
    let long = format!(
        "[{{\"kind\":\"text\",\"name\":\"a\",\"text\":\"{}\"}}]",
        "x".repeat(2_000_000)
    );
    assert_eq!(check(&long).unwrap_err().message, "text attachment is too large");
    let many = format!("[{}]", vec!["{}"; 200].join(","));
    assert_eq!(check(&many).unwrap_err().message, "too many attachments");
    let row = attachment_to_store(&json("{\"text\":\"äb\"}"));
    assert_eq!(row.kind, "text");
    assert_eq!(row.name, "attachment");
    assert_eq!(row.content_type, "text/plain");
    assert_eq!(row.size_bytes, 3);
    assert_eq!(row.text, Some("äb".to_string()));
    assert_eq!(row.url, None);
}

#[test]
fn tool_results_are_present_and_bounded() {
    assert!(validate_tool_result(&json("{\"ok\":true}")).is_ok());
    assert_eq!(
        validate_tool_result(&Json::Null).unwrap_err().message,
        "tool result is required"
    );
    let long = Json::Text("x".repeat(2_000_000));
    assert_eq!(validate_tool_result(&long).unwrap_err().message, "tool result is too large");
    let checksum = validate_client_tool_result(&json("{\"b\":1,\"a\":2}"), 100).unwrap();
    assert_eq!(checksum, checksum_of_result("{\"a\":2,\"b\":1}", 100).unwrap());
    assert_eq!(
        validate_client_tool_result(&long, 100).unwrap_err().message,
        "Client Tool result is too large"
    );
}

fn call(status: CallStatus, claimed_by: Option<u128>) -> ToolCall {
    ToolCall {
        status: Some(status),
        claimed_by,
        expires_at: 100,
        result_checksum: Some("sum".to_string()),
        follow_up_run_id: Some(9),
    }
}

#[test]
fn statuses_are_read_by_name() {
    for (name, status) in [
        ("pending", CallStatus::Pending),
        ("claimed", CallStatus::Claimed),
        ("completed", CallStatus::Completed),
        ("timed_out", CallStatus::TimedOut),
        ("unknown", CallStatus::Unknown),
        ("cancelled", CallStatus::Cancelled),
    ] {
        assert_eq!(stored_call_status(name), Some(status));
    }
    assert_eq!(stored_call_status("open"), None);
}

#[test]
fn claims_are_exclusive() {
    assert!(matches!(
        claim_client_tool_call(&call(CallStatus::Pending, None), 1, 99),
        ClaimDecision::Claim
    ));
    assert!(matches!(
        claim_client_tool_call(&call(CallStatus::Claimed, Some(1)), 1, 99),
        ClaimDecision::Held
    ));
    assert!(matches!(
        claim_client_tool_call(&call(CallStatus::Completed, Some(1)), 1, 200),
        ClaimDecision::Over
    ));
    assert!(matches!(
        claim_client_tool_call(&call(CallStatus::Claimed, Some(2)), 1, 99),
        ClaimDecision::Refuse(refusal) if refusal.status == Status::Forbidden
    ));
    assert!(matches!(
        claim_client_tool_call(&call(CallStatus::Pending, None), 1, 100),
        ClaimDecision::FailBatch(refusal) if refusal.message == "Client Tool call timed out"
    ));
    let broken = ToolCall { status: None, ..call(CallStatus::Pending, None) };
    assert!(matches!(
        claim_client_tool_call(&broken, 1, 0),
        ClaimDecision::Refuse(refusal)
            if refusal.message == "stored Client Tool status is invalid"
    ));
}

#[test]
fn results_are_known_again() {
    let sent = json("{\"text\":\"a\\u0000b\"}");
    let sum = validate_client_tool_result(&sent, 100).unwrap();
    let done = ToolCall {
        result_checksum: Some(sum.clone()),
        ..call(CallStatus::Completed, Some(1))
    };
    let again = validate_client_tool_result(&json("{\"text\":\"a\\u0000b\"}"), 100).unwrap();
    assert!(matches!(
        submit_client_tool_result(&done, 2, &again, 500),
        SubmitDecision::Replay(Some(9))
    ));
    let other = validate_client_tool_result(&json("{\"text\":\"ab\"}"), 100).unwrap();
    assert!(matches!(
        submit_client_tool_result(&done, 1, &other, 0),
        SubmitDecision::Refuse(refusal) if refusal.status == Status::Conflict
            && refusal.message == "Client Tool result does not match the completed result"
    ));
}

#[test]
fn results_are_recorded_once() {
    let submit = |status: CallStatus, claimed: Option<u128>, sum: &str, now: i128| {
        submit_client_tool_result(&call(status, claimed), 1, sum, now)
    };
    assert!(matches!(submit(CallStatus::Claimed, Some(1), "sum", 99), SubmitDecision::Record));
    assert!(matches!(
        submit(CallStatus::Completed, Some(1), "sum", 500),
        SubmitDecision::Replay(Some(9))
    ));
    for (decision, message) in [
        (
            submit(CallStatus::Completed, Some(1), "other", 0),
            "Client Tool result does not match the completed result",
        ),
        (submit(CallStatus::Cancelled, Some(1), "sum", 0), "Client Tool call is terminal"),
        (
            submit(CallStatus::Pending, None, "sum", 0),
            "Client Tool call must be claimed before execution",
        ),
        (
            submit(CallStatus::Claimed, Some(2), "sum", 0),
            "Client Tool call belongs to another Client Instance",
        ),
    ] {
        match decision {
            SubmitDecision::Refuse(refusal) => assert_eq!(refusal.message, message),
            other => panic!("{other:?}"),
        }
    }
    assert!(matches!(
        submit(CallStatus::Claimed, Some(1), "sum", 100),
        SubmitDecision::FailBatch(refusal) if refusal.status == Status::Gone
    ));
    assert!(continue_after_result(1, 0).unwrap());
    assert!(!continue_after_result(1, 2).unwrap());
    assert_eq!(
        continue_after_result(0, 0).unwrap_err().message,
        "Client Tool result was not accepted"
    );
    assert_eq!(elapsed_milliseconds(NANOS, NANOS + 1_999_999), 1);
}

#[test]
fn batches_fail_with_their_record() {
    let late = fail_client_tool_batch(BatchFailure::DeadlineReached);
    assert_eq!((late.request_status, late.run_status), ("timed_out", "failed"));
    assert_eq!(late.event_type, "client_tool_timeout");
    let stopped = fail_client_tool_batch(BatchFailure::Stopped);
    assert_eq!((stopped.request_status, stopped.run_status), ("cancelled", "interrupted"));
    assert_eq!(stopped.message, "Client Tool batch was stopped");
    assert_eq!(stop_widget_run(true, true), StopDecision::FailBatch);
    assert_eq!(stop_widget_run(true, false), StopDecision::Interrupt);
    assert_eq!(stop_widget_run(false, true), StopDecision::Interrupt);
}

fn credential(client: Option<u128>) -> WidgetCredential {
    WidgetCredential {
        id: 1,
        agent_id: 2,
        agent_owner_id: 3,
        owner_id: 3,
        hub_session_id: None,
        oauth_app_id: None,
        external_platform_id: None,
        external_tenant_id: None,
        external_user_id: None,
        external_identity_id: None,
        expires_at: 0,
        history_enabled: false,
        anonymous: false,
        client_instance_id: client,
        tool_names: Vec::new(),
        allowed_origins: Vec::new(),
    }
}

#[test]
fn batches_are_locked_for_their_client() {
    assert!(matches!(
        begin_batch_lock(&credential(None)).1,
        LockAction::Refuse(refusal)
            if refusal.message == "legacy Widget credentials cannot execute Client Tools"
    ));
    let (state, action) = begin_batch_lock(&credential(Some(5)));
    assert!(matches!(action, LockAction::FindPreview));
    let (state, action) = lock_client_tool_batch(state, LockEvent::PreviewIs(true));
    assert!(matches!(action, LockAction::FindSession));
    let (run, action) = lock_client_tool_batch(state, LockEvent::SessionInScope);
    assert!(matches!(action, LockAction::LockRun));
    assert!(matches!(
        lock_client_tool_batch(run, LockEvent::RunIs(Some(6))).1,
        LockAction::Refuse(refusal)
            if refusal.message == "Client Tool Run belongs to another Client Instance"
    ));
    let (batch, action) = lock_client_tool_batch(run, LockEvent::RunIs(Some(5)));
    assert!(matches!(action, LockAction::LockBatch));
    assert!(matches!(
        lock_client_tool_batch(batch, LockEvent::BatchIs { found: true, registered: true }).1,
        LockAction::Locked(5)
    ));
    assert!(matches!(
        lock_client_tool_batch(batch, LockEvent::BatchIs { found: true, registered: false }).1,
        LockAction::Refuse(refusal)
            if refusal.message == "Client Tool is not present in the Run snapshot"
    ));
}

#[test]
fn continuations_replace_a_waiting_run() {
    let (mut state, mut action) = begin_client_tool_continuation();
    let mut seen = Vec::new();
    for event in [
        ContinuationEvent::ResultsRead { results: true, user: true },
        ContinuationEvent::Changed(1),
        ContinuationEvent::Done,
        ContinuationEvent::Changed(1),
        ContinuationEvent::Changed(1),
        ContinuationEvent::Accepted(true),
        ContinuationEvent::Changed(1),
        ContinuationEvent::Done,
    ] {
        seen.push(action);
        (state, action) = create_client_tool_continuation(state, event);
    }
    assert!(matches!(action, ContinuationAction::Finish));
    assert!(matches!(
        seen[..],
        [
            ContinuationAction::ReadResults,
            ContinuationAction::CompleteParentRun,
            ContinuationAction::NoteParentRun,
            ContinuationAction::CompleteParentTurn,
            ContinuationAction::FreeSession,
            ContinuationAction::AcceptResults,
            ContinuationAction::BindContinuation,
            ContinuationAction::LinkCalls
        ]
    ));
    let (start, _) = begin_client_tool_continuation();
    let (waiting, _) = create_client_tool_continuation(
        start,
        ContinuationEvent::ResultsRead { results: true, user: true },
    );
    assert!(matches!(
        create_client_tool_continuation(waiting, ContinuationEvent::Changed(0)).1,
        ContinuationAction::Refuse(refusal)
            if refusal.message == "Client Tool parent Run is no longer waiting"
    ));
    assert_eq!(
        client_tool_batch_key(10),
        "client-tool-batch:00000000-0000-0000-0000-00000000000a"
    );
}

#[test]
fn integration_results_are_recorded_in_order() {
    let request = IntegrationCall {
        status: Some(CallStatus::Pending),
        follow_up_run_id: None,
        expires_at: 100,
        session_id: Some(7),
    };
    let (first, action) = begin_integration_tool_result();
    assert!(matches!(action, IntegrationAction::LockRequest));
    let answer = |call: IntegrationCall| {
        submit_integration_tool_result(first, IntegrationEvent::RequestIs(call, 50))
    };
    let (state, action) = answer(request);
    assert!(matches!(action, IntegrationAction::FindRun(7)));
    let (state, action) = submit_integration_tool_result(
        state,
        IntegrationEvent::RunIs { client_managed: false, same_session: true },
    );
    assert!(matches!(action, IntegrationAction::FindActiveRun));
    let (state, action) = submit_integration_tool_result(state, IntegrationEvent::ActiveRun(false));
    assert!(matches!(action, IntegrationAction::ReadUser));
    let (state, action) = submit_integration_tool_result(state, IntegrationEvent::UserRead(true));
    assert!(matches!(action, IntegrationAction::AcceptResult));
    let (state, action) = submit_integration_tool_result(state, IntegrationEvent::Accepted(Some(8)));
    assert!(matches!(action, IntegrationAction::Complete(8)));
    assert_eq!(state, IntegrationState::Closed);
    let done = answered_request(request, 8);
    assert_eq!(done.status, Some(CallStatus::Completed));
    assert_eq!((done.follow_up_run_id, done.session_id), (Some(8), Some(7)));
    assert!(matches!(answer(done).1, IntegrationAction::Replay(8)));
    let late = IntegrationCall { expires_at: 50, ..request };
    assert!(matches!(answer(late).1, IntegrationAction::NoteExpiry));
    for (call, message) in [
        (
            IntegrationCall { follow_up_run_id: None, ..done },
            "tool request follow-up run is missing",
        ),
        (
            expired_request(request),
            "tool request expired",
        ),
        (
            IntegrationCall { status: Some(CallStatus::Cancelled), ..request },
            "tool request is not pending",
        ),
        (
            IntegrationCall { session_id: None, ..request },
            "tool request is not an Integration request",
        ),
    ] {
        match answer(call).1 {
            IntegrationAction::Refuse(refusal) => assert_eq!(refusal.message, message),
            other => panic!("{other:?}"),
        }
    }
    assert_eq!(tool_result_content("open", "{\"a\":1}"), "Tool result for open: {\"a\":1}");
    assert_eq!(tool_result_key(10), "tool-result:00000000-0000-0000-0000-00000000000a");
}

const FIRST: &str = "{\"tool_request_id\":\"00000000-0000-0000-0000-000000000001\",\"tool_name\":\"open\",\"arguments\":{\"x\":1}}";
const SECOND: &str = "{\"tool_request_id\":\"00000000-0000-0000-0000-000000000002\",\"tool_name\":\"close\"}";

fn batch(payloads: &[&str]) -> BatchRequest {
    BatchRequest {
        native_session_id: "native".to_string(),
        work_dir_ref: "dir".to_string(),
        payloads: payloads.iter().map(|payload| json(payload)).collect(),
    }
}

#[test]
fn batches_are_read_in_order() {
    let parsed = parse_tool_request_batch(&batch(&[FIRST, SECOND])).unwrap();
    assert_eq!(parsed.len(), 2);
    assert_eq!(parsed[0].request_id, 1);
    assert_eq!(parsed[1].position, 1);
    assert_eq!(parsed[1].tool_name, "close");
    assert!(json_equal(&parsed[0].arguments, &json("{\"x\":1}")));
    let refusal = |request: &BatchRequest| parse_tool_request_batch(request).unwrap_err().message;
    assert_eq!(refusal(&batch(&[])), "tool request batch cannot be empty");
    let nowhere = BatchRequest { work_dir_ref: " ".to_string(), ..batch(&[FIRST]) };
    assert_eq!(refusal(&nowhere), "tool request resume metadata is required");
    assert_eq!(refusal(&batch(&["{}"])), "tool request name is required");
    assert_eq!(
        refusal(&batch(&["{\"tool_name\":\"a\",\"tool_request_id\":\"1\"}"])),
        "valid tool request id is required"
    );
    assert_eq!(
        refusal(&batch(&[FIRST, FIRST])),
        "tool request ids must be unique within a batch"
    );
    let registration = register_tool_request(&json(FIRST), Some(4), &vec![], 3).unwrap();
    assert_eq!((registration.request_id, registration.position), (4, 3));
    assert_eq!(
        register_tool_request(&json(FIRST), Some(4), &vec![], 3_000_000_000).unwrap_err().message,
        "tool request batch is too large"
    );
    let tools = json("[{\"name\":\"open\"},{\"name\":\"close\"}]");
    assert!(are_tools_registered(&tools, &parsed));
    assert!(!are_tools_registered(&json("[{\"name\":\"open\"}]"), &parsed));
}

#[test]
fn recorded_batches_are_recognized() {
    let requests = || parse_tool_request_batch(&batch(&[FIRST, SECOND])).unwrap();
    let fingerprint = tool_request_batch_fingerprint(10, &json("{\"a\":1}"));
    assert_eq!(
        fingerprint,
        agent_hub::digest::sha256_hex("00000000-0000-0000-0000-00000000000a:{\"a\":1}")
    );
    let statuses = vec![json(&format!("{{\"print\":\"{fingerprint}\"}}"))];
    let events = vec![json(FIRST), json(&SECOND.replace("tool_request_id", "tool_call_id"))];
    let verify = |statuses: &Vec<Json>, stored: Vec<ToolRegistration>, events: &Vec<Json>| {
        verify_tool_request_batch_replay(
            statuses,
            "print",
            &fingerprint,
            &stored,
            events,
            &requests(),
        )
    };
    assert!(verify(&statuses, requests(), &events).is_ok());
    assert_eq!(
        verify(&vec![json("{\"print\":\"x\"}")], requests(), &events).unwrap_err().message,
        "tool request batch does not match waiting run"
    );
    let one = parse_tool_request_batch(&batch(&[FIRST])).unwrap();
    assert_eq!(
        verify(&statuses, one, &events).unwrap_err().message,
        "tool request batch is incomplete for waiting run"
    );
    let turned = vec![json(SECOND), json(FIRST)];
    let other = parse_tool_request_batch(&batch(&[SECOND, FIRST])).unwrap();
    assert_eq!(
        verify(&statuses, other, &turned).unwrap_err().message,
        "tool request batch does not match waiting run"
    );
}

#[test]
fn batches_are_recorded_on_good_grounds() {
    let run = BatchRun {
        integration_session_id: None,
        hub_session_id: 7,
        client_managed: true,
        waiting: false,
        resume_matches: false,
    };
    let events = [
        BatchEvent::AgentActive(true),
        BatchEvent::SessionOwned(7),
        BatchEvent::RunIs(Some(run)),
        BatchEvent::ClientToolsAllowed(true),
        BatchEvent::ToolsRegistered(true),
        BatchEvent::Changed(1),
        BatchEvent::Recorded,
        BatchEvent::Changed(1),
        BatchEvent::Changed(1),
    ];
    let (mut state, mut action) = begin_tool_request_batch();
    let mut seen = Vec::new();
    for event in events {
        seen.push(action);
        (state, action) = finalize_tool_request_batch(None, state, event);
    }
    assert!(matches!(action, BatchAction::Finish), "{action:?}");
    assert_eq!(state, BatchState::Closed);
    assert!(matches!(
        seen[..],
        [
            BatchAction::FindAgent,
            BatchAction::LockSession,
            BatchAction::FindRun,
            BatchAction::FindPermission,
            BatchAction::CheckTools { client_managed: true },
            BatchAction::SuspendRun,
            BatchAction::RecordRequests { client_managed: true },
            BatchAction::SuspendTurn,
            BatchAction::FreeSession
        ]
    ));
    let refusal = |claimed: Option<u128>, state: BatchState, event: BatchEvent| {
        match finalize_tool_request_batch(claimed, state, event) {
            (BatchState::Closed, BatchAction::Refuse(refusal)) => refusal.message,
            other => panic!("{other:?}"),
        }
    };
    assert_eq!(
        refusal(None, BatchState::Agent, BatchEvent::AgentActive(false)),
        "agent is deleted or run does not exist"
    );
    assert_eq!(
        refusal(Some(7), BatchState::Run(7), BatchEvent::RunIs(None)),
        "runtime does not own an active run"
    );
    assert_eq!(
        refusal(Some(7), BatchState::Run(7), BatchEvent::RunIs(Some(run))),
        "tool request batch session does not match its Run"
    );
    assert_eq!(
        refusal(None, BatchState::Run(8), BatchEvent::RunIs(Some(BatchRun { client_managed: false, ..run }))),
        "tool requests are only allowed for integration or Client Tool runs"
    );
    assert_eq!(
        refusal(Some(7), BatchState::Tools(run), BatchEvent::ToolsRegistered(false)),
        "tool is not registered for session"
    );
    assert_eq!(
        refusal(
            Some(7),
            BatchState::Replay,
            BatchEvent::ReplayIs(Err(refuse(Status::Conflict, "different")))
        ),
        "different"
    );
    let waiting = BatchRun { waiting: true, resume_matches: true, ..run };
    let (state, action) = finalize_tool_request_batch(
        Some(7),
        BatchState::Tools(waiting),
        BatchEvent::ToolsRegistered(true),
    );
    assert!(matches!(action, BatchAction::CheckReplay));
    assert!(matches!(
        finalize_tool_request_batch(Some(7), state, BatchEvent::ReplayIs(Ok(()))).1,
        BatchAction::Finish
    ));
}

#[test]
fn calls_are_announced_with_their_deadline() {
    assert_eq!(batch_deadline(0, true, 5), 300 * NANOS);
    assert!(batch_deadline(0, false, 5) > 0);
    let parsed = parse_tool_request_batch(&batch(&[FIRST])).unwrap();
    assert!(json_equal(
        &client_tool_call_event(&parsed[0], 10, "soon"),
        &json(
            "{\"arguments\":{\"x\":1},\"batch_id\":\"00000000-0000-0000-0000-00000000000a\",\
             \"expires_at\":\"soon\",\"tool_call_id\":\"00000000-0000-0000-0000-000000000001\",\
             \"tool_name\":\"open\"}"
        )
    ));
}

#[test]
fn batches_are_cleaned_without_losing_a_request() {
    let read = parse_tool_request_batch(&batch(&[FIRST, SECOND])).unwrap();
    let kept = clean_registration(&read[1], "shut".to_string(), json("{\"y\":2}"));
    assert_eq!((kept.request_id, kept.position), (2, 1));
    assert_eq!(kept.tool_name, "shut");
    assert!(json_equal(&kept.arguments, &json("{\"y\":2}")));
}

#[test]
fn repeated_batches_finish_and_changed_ones_conflict() {
    let request = batch(&[FIRST, SECOND]);
    let requests = parse_tool_request_batch(&request).unwrap();
    for (key, client_managed) in [("print", false), ("zprint", true)] {
        let status = waiting_tool_status(key, "f");
        assert_eq!(status.text_field("status"), Some("waiting_tool"));
        assert_eq!(status.text_field(key), Some("f"));
        let record = record_tool_request_batch(&request, &requests, 10, status, client_managed, "soon");
        assert_eq!(record.events.len(), 2);
        assert_eq!(record.events[0].text_field("expires_at").is_some(), client_managed);
        let native = Some(record.native_session_id);
        let dir = Some(record.work_dir_ref);
        assert!(resume_matches(&native, &dir, &request));
        assert!(!resume_matches(&Some("other".to_string()), &dir, &request));
        assert!(!resume_matches(&native, &Some("elsewhere".to_string()), &request));
        assert!(!resume_matches(&native, &None, &request));
        let statuses = vec![record.status];
        let verify = |fingerprint: &str| {
            verify_tool_request_batch_replay(
                &statuses,
                key,
                fingerprint,
                &record.requests,
                &record.events,
                &requests,
            )
        };
        assert!(verify("f").is_ok());
        assert_eq!(verify("g").unwrap_err().status, Status::Conflict);
    }
    let only = waiting_tool_status("status", "f");
    assert!(json_equal(&only, &json("{\"status\":\"f\"}")));
}

#[test]
fn calls_live_once() {
    let call = || ToolCall {
        status: Some(CallStatus::Pending),
        claimed_by: None,
        expires_at: 100,
        result_checksum: None,
        follow_up_run_id: None,
    };
    let claimed = || advance_call(call(), CallStep::Claim(5, 10));
    assert_eq!(claimed().status, Some(CallStatus::Claimed));
    assert_eq!(claimed().claimed_by, Some(5));
    let other = advance_call(claimed(), CallStep::Claim(6, 11));
    assert_eq!(other.claimed_by, Some(5));
    let refused = advance_call(claimed(), CallStep::Submit(6, "x".to_string(), 11));
    assert_eq!(refused.status, Some(CallStatus::Claimed));
    let done = || {
        let recorded = advance_call(claimed(), CallStep::Submit(5, "sum".to_string(), 20));
        advance_call(recorded, CallStep::Follow(9))
    };
    assert_eq!(done().status, Some(CallStatus::Completed));
    assert_eq!(done().follow_up_run_id, Some(9));
    let later = advance_call(done(), CallStep::GiveUp(BatchFailure::Stopped));
    let later = advance_call(later, CallStep::Follow(10));
    let later = advance_call(later, CallStep::Claim(6, 200));
    assert_eq!(later.status, Some(CallStatus::Completed));
    assert!(matches!(
        submit_client_tool_result(&later, 6, "sum", 200),
        SubmitDecision::Replay(Some(9))
    ));
    assert!(matches!(claim_client_tool_call(&later, 6, 200), ClaimDecision::Over));
    let late = advance_call(claimed(), CallStep::Submit(5, "sum".to_string(), 100));
    assert_eq!(late.status, Some(CallStatus::TimedOut));
    let stopped = advance_call(call(), CallStep::GiveUp(BatchFailure::Stopped));
    assert_eq!(stopped.status, Some(CallStatus::Cancelled));
    assert!(check_claimed(1).is_ok());
    assert_eq!(check_claimed(0).unwrap_err().message, "Client Tool call could not be claimed");
    for status in [
        CallStatus::Pending,
        CallStatus::Claimed,
        CallStatus::Completed,
        CallStatus::TimedOut,
        CallStatus::Unknown,
        CallStatus::Cancelled,
    ] {
        assert_eq!(stored_call_status(call_status_name(status)), Some(status));
    }
}
