//! Tool calls that wait for a client or an integration: claiming one,
//! answering it, and going on with the conversation.

use crate::clock::Instant;
use crate::digest::{sha256_hex, text_digest};
use crate::error::{refusal, refuse, refused, seen, ApiError, ErrorView, Refusal, Status};
use crate::ids::{hyphenated_id, id_text, Id};
use crate::json::{json_text, json_text_of, Json, JsonView};
use crate::text::{byte_count, byte_len, join, opt_view, same};
use crate::widget::WidgetCredential;
use vstd::prelude::*;

verus! {

/// What has become of a tool call.
#[derive(Clone, Copy, Debug, PartialEq, Eq, Structural)]
pub enum CallStatus {
    Pending,
    Claimed,
    Completed,
    TimedOut,
    Unknown,
    Cancelled,
}

/// The status that a stored name stands for.
pub open spec fn status_named(name: Seq<char>) -> Option<CallStatus> {
    if name == "pending"@ {
        Some(CallStatus::Pending)
    } else if name == "claimed"@ {
        Some(CallStatus::Claimed)
    } else if name == "completed"@ {
        Some(CallStatus::Completed)
    } else if name == "timed_out"@ {
        Some(CallStatus::TimedOut)
    } else if name == "unknown"@ {
        Some(CallStatus::Unknown)
    } else if name == "cancelled"@ {
        Some(CallStatus::Cancelled)
    } else {
        None
    }
}

/// The status that a stored name stands for.
pub fn stored_call_status(name: &str) -> (r: Option<CallStatus>)
    ensures
        r == status_named(name@),
{
    if same(name, "pending") {
        Some(CallStatus::Pending)
    } else if same(name, "claimed") {
        Some(CallStatus::Claimed)
    } else if same(name, "completed") {
        Some(CallStatus::Completed)
    } else if same(name, "timed_out") {
        Some(CallStatus::TimedOut)
    } else if same(name, "unknown") {
        Some(CallStatus::Unknown)
    } else if same(name, "cancelled") {
        Some(CallStatus::Cancelled)
    } else {
        None
    }
}

/// The name that a status is stored under.
pub open spec fn status_name(status: CallStatus) -> Seq<char> {
    match status {
        CallStatus::Pending => "pending"@,
        CallStatus::Claimed => "claimed"@,
        CallStatus::Completed => "completed"@,
        CallStatus::TimedOut => "timed_out"@,
        CallStatus::Unknown => "unknown"@,
        CallStatus::Cancelled => "cancelled"@,
    }
}

/// The name that a status is stored under.
pub fn call_status_name(status: CallStatus) -> (r: &'static str)
    ensures
        r@ == status_name(status),
{
    match status {
        CallStatus::Pending => "pending",
        CallStatus::Claimed => "claimed",
        CallStatus::Completed => "completed",
        CallStatus::TimedOut => "timed_out",
        CallStatus::Unknown => "unknown",
        CallStatus::Cancelled => "cancelled",
    }
}

/// A status that is stored is read back.
pub proof fn stored_statuses_are_read_back(status: CallStatus)
    ensures
        status_named(status_name(status)) == Some(status),
{
    reveal_strlit("pending");
    reveal_strlit("claimed");
    reveal_strlit("completed");
    reveal_strlit("timed_out");
    reveal_strlit("unknown");
    reveal_strlit("cancelled");
    assert("pending"@[0] == 'p' && "claimed"@[1] == 'l' && "completed"@[1] == 'o');
    assert("timed_out"@[0] == 't' && "unknown"@[0] == 'u' && "cancelled"@[1] == 'a');
    assert("claimed"@[0] == 'c' && "completed"@[0] == 'c' && "cancelled"@[0] == 'c');
}

/// A tool call as it is stored. A status with a name that is not known is none.
#[derive(Debug)]
pub struct ToolCall {
    pub status: Option<CallStatus>,
    pub claimed_by: Option<Id>,
    pub expires_at: Instant,
    pub result_checksum: Option<String>,
    pub follow_up_run_id: Option<Id>,
}

/// A call that a batch which fails takes down with it.
pub open spec fn open_status(status: Option<CallStatus>) -> bool {
    status == Some(CallStatus::Pending) || status == Some(CallStatus::Claimed) || status == Some(
        CallStatus::Unknown,
    )
}

/// A call that has its answer, or will never get one.
pub open spec fn terminal_status(status: Option<CallStatus>) -> bool {
    status == Some(CallStatus::Completed) || status == Some(CallStatus::TimedOut) || status == Some(
        CallStatus::Unknown,
    ) || status == Some(CallStatus::Cancelled)
}

// ---------------------------------------------------------------------------
// Claiming a call
// ---------------------------------------------------------------------------

/// What becomes of a claim.
#[derive(Clone, Copy, Debug)]
pub enum ClaimDecision {
    /// The deadline has passed: fail the whole batch, then refuse.
    FailBatch(Refusal),
    /// Claim the call for the client instance.
    Claim,
    /// The client instance holds the call already.
    Held,
    /// The call is over; its result, if any, is told back.
    Over,
    Refuse(Refusal),
}

/// What becomes of a claim: a pending call is claimed, one that is held is
/// held by its holder only, and one that is over stays over.
pub open spec fn claim_decision(call: ToolCall, client: Id, now: Instant) -> ClaimDecision {
    if call.expires_at <= now && open_status(call.status) {
        ClaimDecision::FailBatch(refusal(Status::Gone, "Client Tool call timed out"))
    } else if call.status == Some(CallStatus::Pending) {
        ClaimDecision::Claim
    } else if call.status == Some(CallStatus::Claimed) {
        if call.claimed_by == Some(client) {
            ClaimDecision::Held
        } else {
            ClaimDecision::Refuse(
                refusal(Status::Forbidden, "Client Tool call belongs to another Client Instance"),
            )
        }
    } else if terminal_status(call.status) {
        ClaimDecision::Over
    } else {
        ClaimDecision::Refuse(
            refusal(Status::Internal, "stored Client Tool status is invalid"),
        )
    }
}

fn is_holder(call: &ToolCall, client: Id) -> (r: bool)
    ensures
        r == (call.claimed_by == Some(client)),
{
    match call.claimed_by {
        Some(holder) => holder == client,
        None => false,
    }
}

/// What becomes of a claim by a client instance.
pub fn claim_client_tool_call(call: &ToolCall, client: Id, now: Instant) -> (r: ClaimDecision)
    ensures
        r == claim_decision(*call, client, now),
{
    let status = match call.status {
        Some(status) => status,
        None => {
            return ClaimDecision::Refuse(
                refuse(Status::Internal, "stored Client Tool status is invalid"),
            );
        },
    };
    let open = match status {
        CallStatus::Pending | CallStatus::Claimed | CallStatus::Unknown => true,
        _ => false,
    };
    if call.expires_at <= now && open {
        return ClaimDecision::FailBatch(refuse(Status::Gone, "Client Tool call timed out"));
    }
    match status {
        CallStatus::Pending => ClaimDecision::Claim,
        CallStatus::Claimed => {
            if is_holder(call, client) {
                ClaimDecision::Held
            } else {
                ClaimDecision::Refuse(
                    refuse(Status::Forbidden, "Client Tool call belongs to another Client Instance"),
                )
            }
        },
        _ => ClaimDecision::Over,
    }
}

/// Claiming must have changed exactly the one call.
pub fn check_claimed(rows: u64) -> (r: Result<(), Refusal>)
    ensures
        r == if rows == 1 {
            Ok(())
        } else {
            Err(refusal(Status::Conflict, "Client Tool call could not be claimed"))
        },
        r is Ok <==> rows == 1,
        r is Err ==> r->Err_0.status == Status::Conflict,
{
    if rows == 1 {
        Ok(())
    } else {
        Err(refuse(Status::Conflict, "Client Tool call could not be claimed"))
    }
}

// ---------------------------------------------------------------------------
// Answering a call
// ---------------------------------------------------------------------------

/// What becomes of a result.
#[derive(Clone, Copy, Debug)]
pub enum SubmitDecision {
    /// The same result came before: tell back the run that followed, if any.
    Replay(Option<Id>),
    /// The deadline has passed: fail the whole batch, then refuse.
    FailBatch(Refusal),
    /// Record the result.
    Record,
    Refuse(Refusal),
}

/// What becomes of a result with this checksum: it is recorded once, from the
/// holder, before the deadline; the same result may come again.
pub open spec fn submit_decision(
    call: ToolCall,
    client: Id,
    checksum: Seq<char>,
    now: Instant,
) -> SubmitDecision {
    if call.status == Some(CallStatus::Completed) {
        if opt_view(call.result_checksum) == Some(checksum) {
            SubmitDecision::Replay(call.follow_up_run_id)
        } else {
            SubmitDecision::Refuse(
                refusal(Status::Conflict, "Client Tool result does not match the completed result"),
            )
        }
    } else if terminal_status(call.status) {
        SubmitDecision::Refuse(refusal(Status::Gone, "Client Tool call is terminal"))
    } else if call.expires_at <= now {
        SubmitDecision::FailBatch(refusal(Status::Gone, "Client Tool call timed out"))
    } else if call.status != Some(CallStatus::Claimed) {
        SubmitDecision::Refuse(
            refusal(Status::Forbidden, "Client Tool call must be claimed before execution"),
        )
    } else if call.claimed_by != Some(client) {
        SubmitDecision::Refuse(
            refusal(Status::Forbidden, "Client Tool call belongs to another Client Instance"),
        )
    } else {
        SubmitDecision::Record
    }
}

/// What becomes of a result that a client instance submits.
pub fn submit_client_tool_result(call: &ToolCall, client: Id, checksum: &str, now: Instant) -> (r:
    SubmitDecision)
    ensures
        r == submit_decision(*call, client, checksum@, now),
{
    match call.status {
        Some(CallStatus::Completed) => {
            let matches = match &call.result_checksum {
                Some(stored) => same(stored.as_str(), checksum),
                None => false,
            };
            if matches {
                return SubmitDecision::Replay(call.follow_up_run_id);
            }
            return SubmitDecision::Refuse(
                refuse(Status::Conflict, "Client Tool result does not match the completed result"),
            );
        },
        Some(CallStatus::TimedOut) | Some(CallStatus::Unknown) | Some(CallStatus::Cancelled) => {
            return SubmitDecision::Refuse(refuse(Status::Gone, "Client Tool call is terminal"));
        },
        _ => {},
    }
    if call.expires_at <= now {
        return SubmitDecision::FailBatch(refuse(Status::Gone, "Client Tool call timed out"));
    }
    match call.status {
        Some(CallStatus::Claimed) => {
            if is_holder(call, client) {
                SubmitDecision::Record
            } else {
                SubmitDecision::Refuse(
                    refuse(Status::Forbidden, "Client Tool call belongs to another Client Instance"),
                )
            }
        },
        _ => SubmitDecision::Refuse(
            refuse(Status::Forbidden, "Client Tool call must be claimed before execution"),
        ),
    }
}

/// Recording a result must have changed exactly the one call, and the last
/// call of a batch starts its continuation.
pub open spec fn after_record(rows: u64, incomplete: i64) -> Result<bool, Refusal> {
    if rows != 1 {
        Err(refusal(Status::Conflict, "Client Tool result was not accepted"))
    } else {
        Ok(incomplete == 0)
    }
}

/// Whether the conversation goes on after a result was recorded: `rows` calls
/// were changed, and `incomplete` calls of the batch have no result yet.
pub fn continue_after_result(rows: u64, incomplete: i64) -> (r: Result<bool, Refusal>)
    ensures
        r == after_record(rows, incomplete),
{
    if rows != 1 {
        return Err(refuse(Status::Conflict, "Client Tool result was not accepted"));
    }
    Ok(incomplete == 0)
}

/// The milliseconds that a call took, never less than none.
pub fn elapsed_milliseconds(created_at: Instant, now: Instant) -> (r: i128)
    requires
        crate::clock::on_calendar(created_at),
        crate::clock::on_calendar(now),
    ensures
        r == if now > created_at {
            (now - created_at) / 1_000_000
        } else {
            0
        },
        now >= created_at ==> 1_000_000 * r <= now - created_at < 1_000_000 * (r + 1),
        now <= created_at ==> r == 0,
{
    if now > created_at {
        (now - created_at) / 1_000_000
    } else {
        0
    }
}

/// The checksum of a result with this text, which must not be too long: the
/// digest of the text.
pub open spec fn result_checksum(text: Seq<char>, max_length: nat) -> Result<
    Seq<char>,
    ErrorView,
> {
    if byte_count(text) > max_length {
        refused(Status::BadRequest, "Client Tool result is too large"@)
    } else {
        Ok(text_digest(text))
    }
}

/// The checksum of a result with this text.
pub fn checksum_of_result(text: &str, max_length: usize) -> (r: Result<String, ApiError>)
    ensures
        seen(r) == result_checksum(text@, max_length as nat),
{
    if byte_len(text) > max_length {
        return Err(ApiError::bad_request("Client Tool result is too large"));
    }
    Ok(sha256_hex(text))
}

/// The checksum of a result, by which it is known again. The canonical text of
/// a result is taken to be its compact text with the keys of every object in
/// order.
pub fn validate_client_tool_result(result: &Json, max_length: usize) -> (r: Result<
    String,
    ApiError,
>)
    ensures
        seen(r) == result_checksum(json_text_of(result@), max_length as nat),
{
    let text = json_text(result);
    checksum_of_result(text.as_str(), max_length)
}

/// A call after a result was recorded for it.
pub open spec fn recorded(call: ToolCall, checksum: String) -> ToolCall {
    ToolCall { status: Some(CallStatus::Completed), result_checksum: Some(checksum), ..call }
}

/// A call after a client instance claimed it.
pub open spec fn claimed(call: ToolCall, client: Id) -> ToolCall {
    ToolCall { status: Some(CallStatus::Claimed), claimed_by: Some(client), ..call }
}

/// A result is recorded at most once: after it was, the same result is told
/// back, a different one refused, and no claim or deadline changes the call,
/// whoever comes and whenever.
pub proof fn results_are_recorded_once(
    call: ToolCall,
    checksum: String,
    client: Id,
    other: Seq<char>,
    now: Instant,
)
    ensures
        submit_decision(recorded(call, checksum), client, checksum@, now) == SubmitDecision::Replay(
            call.follow_up_run_id,
        ),
        other != checksum@ ==> submit_decision(recorded(call, checksum), client, other, now)
            == SubmitDecision::Refuse(
            refusal(Status::Conflict, "Client Tool result does not match the completed result"),
        ),
        claim_decision(recorded(call, checksum), client, now) == ClaimDecision::Over,
        !open_status(recorded(call, checksum).status),
{
}

/// A result is known again by what was sent, whatever of it was stored: once
/// it is recorded, the same JSON from whichever client instance and at
/// whatever time is told back the run that followed, and any other that is not
/// too long is told back where it has the same digest, and refused as a
/// conflict where it has another.
pub proof fn results_are_known_again(
    call: ToolCall,
    result: JsonView,
    checksum: String,
    sent: JsonView,
    max_length: nat,
    client: Id,
    now: Instant,
)
    requires
        result_checksum(json_text_of(result), max_length) == Ok::<Seq<char>, ErrorView>(checksum@),
        byte_count(json_text_of(sent)) <= max_length,
    ensures
        result_checksum(json_text_of(sent), max_length) == Ok::<Seq<char>, ErrorView>(
            text_digest(json_text_of(sent)),
        ),
        submit_decision(
            recorded(call, checksum),
            client,
            result_checksum(json_text_of(sent), max_length)->Ok_0,
            now,
        ) == if text_digest(json_text_of(sent)) == text_digest(json_text_of(result)) {
            SubmitDecision::Replay(call.follow_up_run_id)
        } else {
            SubmitDecision::Refuse(
                refusal(
                    Status::Conflict,
                    "Client Tool result does not match the completed result",
                ),
            )
        },
        sent == result ==> submit_decision(
            recorded(call, checksum),
            client,
            result_checksum(json_text_of(sent), max_length)->Ok_0,
            now,
        ) == SubmitDecision::Replay(call.follow_up_run_id),
{
}

/// One client instance at a time holds a call: after a claim the holder may
/// claim it again and answer it before the deadline, and nobody else can do
/// either.
pub proof fn claims_are_exclusive(
    call: ToolCall,
    holder: Id,
    other: Id,
    checksum: Seq<char>,
    now: Instant,
)
    requires
        holder != other,
        now < call.expires_at,
    ensures
        claim_decision(claimed(call, holder), holder, now) == ClaimDecision::Held,
        claim_decision(claimed(call, holder), other, now) is Refuse,
        submit_decision(claimed(call, holder), holder, checksum, now) == SubmitDecision::Record,
        submit_decision(claimed(call, holder), other, checksum, now) is Refuse,
{
}

/// Nothing is claimed or recorded once the deadline has passed.
pub proof fn deadlines_are_kept(call: ToolCall, client: Id, checksum: Seq<char>, now: Instant)
    requires
        call.expires_at <= now,
    ensures
        !(claim_decision(call, client, now) is Claim),
        !(claim_decision(call, client, now) is Held),
        !(submit_decision(call, client, checksum, now) is Record),
        !(call.status == Some(CallStatus::Unknown)) && open_status(call.status) ==> submit_decision(
            call,
            client,
            checksum,
            now,
        ) is FailBatch && claim_decision(call, client, now) is FailBatch,
{
}

// ---------------------------------------------------------------------------
// Why a batch fails
// ---------------------------------------------------------------------------

/// Why the open calls of a batch are given up.
#[derive(Clone, Copy, Debug, PartialEq, Eq, Structural)]
pub enum BatchFailure {
    DeadlineReached,
    Stopped,
}

/// How the failure of a batch is recorded.
#[derive(Clone, Copy, Debug)]
pub struct FailureRecord {
    pub request_status: &'static str,
    pub run_status: &'static str,
    pub event_type: &'static str,
    pub message: &'static str,
}

/// The status of a call that is given up.
pub open spec fn given_up_status(failure: BatchFailure) -> CallStatus {
    match failure {
        BatchFailure::DeadlineReached => CallStatus::TimedOut,
        BatchFailure::Stopped => CallStatus::Cancelled,
    }
}

/// How the failure of a batch is recorded.
pub fn fail_client_tool_batch(failure: BatchFailure) -> (r: FailureRecord)
    ensures
        r.request_status@ == status_name(given_up_status(failure)),
        r == match failure {
            BatchFailure::DeadlineReached => FailureRecord {
                request_status: "timed_out",
                run_status: "failed",
                event_type: "client_tool_timeout",
                message: "Client Tool batch reached its deadline",
            },
            BatchFailure::Stopped => FailureRecord {
                request_status: "cancelled",
                run_status: "interrupted",
                event_type: "client_tool_interrupted",
                message: "Client Tool batch was stopped",
            },
        },
{
    match failure {
        BatchFailure::DeadlineReached => FailureRecord {
            request_status: "timed_out",
            run_status: "failed",
            event_type: "client_tool_timeout",
            message: "Client Tool batch reached its deadline",
        },
        BatchFailure::Stopped => FailureRecord {
            request_status: "cancelled",
            run_status: "interrupted",
            event_type: "client_tool_interrupted",
            message: "Client Tool batch was stopped",
        },
    }
}

/// How a run is stopped.
#[derive(Clone, Copy, Debug, PartialEq, Eq, Structural)]
pub enum StopDecision {
    /// The run waits for tools of a client: give its batch up.
    FailBatch,
    /// Ask the runtime to interrupt the run.
    Interrupt,
}

/// How a run is stopped: one that waits for tools of a client has no runtime
/// to interrupt.
pub fn stop_widget_run(client_managed: bool, waiting_for_tools: bool) -> (r: StopDecision)
    ensures
        r == if client_managed && waiting_for_tools {
            StopDecision::FailBatch
        } else {
            StopDecision::Interrupt
        },
        r == StopDecision::FailBatch <==> client_managed && waiting_for_tools,
        r == StopDecision::Interrupt <==> !client_managed || !waiting_for_tools,
{
    if client_managed && waiting_for_tools {
        StopDecision::FailBatch
    } else {
        StopDecision::Interrupt
    }
}

// ---------------------------------------------------------------------------
// The life of a call
// ---------------------------------------------------------------------------

/// What comes to a call.
#[derive(Debug)]
pub enum CallStep {
    /// A client instance claims it.
    Claim(Id, Instant),
    /// A client instance submits a result with this checksum.
    Submit(Id, String, Instant),
    /// Its batch is given up.
    GiveUp(BatchFailure),
    /// A run goes on with the results of its batch.
    Follow(Id),
}

/// A call after its batch was given up: one that is open is over.
pub open spec fn given_up(call: ToolCall, failure: BatchFailure) -> ToolCall {
    if open_status(call.status) {
        ToolCall { status: Some(given_up_status(failure)), ..call }
    } else {
        call
    }
}

/// The call as it is stored after a step.
pub open spec fn call_after(call: ToolCall, step: CallStep) -> ToolCall {
    match step {
        CallStep::Claim(client, now) => match claim_decision(call, client, now) {
            ClaimDecision::Claim => claimed(call, client),
            ClaimDecision::FailBatch(_) => given_up(call, BatchFailure::DeadlineReached),
            _ => call,
        },
        CallStep::Submit(client, checksum, now) => match submit_decision(
            call,
            client,
            checksum@,
            now,
        ) {
            SubmitDecision::Record => recorded(call, checksum),
            SubmitDecision::FailBatch(_) => given_up(call, BatchFailure::DeadlineReached),
            _ => call,
        },
        CallStep::GiveUp(failure) => given_up(call, failure),
        CallStep::Follow(run) => if call.status == Some(CallStatus::Completed)
            && call.follow_up_run_id is None {
            ToolCall { follow_up_run_id: Some(run), ..call }
        } else {
            call
        },
    }
}

fn give_up(call: ToolCall, failure: BatchFailure) -> (r: ToolCall)
    ensures
        r == given_up(call, failure),
{
    match call.status {
        Some(CallStatus::Pending) | Some(CallStatus::Claimed) | Some(CallStatus::Unknown) => {
            let status = match failure {
                BatchFailure::DeadlineReached => CallStatus::TimedOut,
                BatchFailure::Stopped => CallStatus::Cancelled,
            };
            ToolCall { status: Some(status), ..call }
        },
        _ => call,
    }
}

/// Takes a call one step on: the call as it is stored afterwards.
pub fn advance_call(call: ToolCall, step: CallStep) -> (r: ToolCall)
    ensures
        r == call_after(call, step),
{
    match step {
        CallStep::Claim(client, now) => match claim_client_tool_call(&call, client, now) {
            ClaimDecision::Claim => ToolCall {
                status: Some(CallStatus::Claimed),
                claimed_by: Some(client),
                ..call
            },
            ClaimDecision::FailBatch(_) => give_up(call, BatchFailure::DeadlineReached),
            _ => call,
        },
        CallStep::Submit(client, checksum, now) => match submit_client_tool_result(
            &call,
            client,
            checksum.as_str(),
            now,
        ) {
            SubmitDecision::Record => ToolCall {
                status: Some(CallStatus::Completed),
                result_checksum: Some(checksum),
                ..call
            },
            SubmitDecision::FailBatch(_) => give_up(call, BatchFailure::DeadlineReached),
            _ => call,
        },
        CallStep::GiveUp(failure) => give_up(call, failure),
        CallStep::Follow(run) => match (call.status, call.follow_up_run_id) {
            (Some(CallStatus::Completed), None) => ToolCall { follow_up_run_id: Some(run), ..call },
            _ => call,
        },
    }
}

/// The call as it is stored after steps, one after the other.
pub open spec fn call_after_all(call: ToolCall, steps: Seq<CallStep>) -> ToolCall
    decreases steps.len(),
{
    if steps.len() == 0 {
        call
    } else {
        call_after(call_after_all(call, steps.drop_last()), steps.last())
    }
}

/// A call that has its answer, or was given up.
pub open spec fn settled_status(status: Option<CallStatus>) -> bool {
    terminal_status(status) && !open_status(status)
}

/// A call that is settled stays so through whatever comes to it: its status,
/// its holder and its result never change, and it is never claimed again.
pub proof fn settled_calls_stay_settled(
    call: ToolCall,
    steps: Seq<CallStep>,
    client: Id,
    now: Instant,
)
    requires
        settled_status(call.status),
    ensures
        call_after_all(call, steps).status == call.status,
        call_after_all(call, steps).claimed_by == call.claimed_by,
        call_after_all(call, steps).result_checksum == call.result_checksum,
        call.follow_up_run_id is Some ==> call_after_all(call, steps) == call,
        claim_decision(call_after_all(call, steps), client, now) == ClaimDecision::Over,
    decreases steps.len(),
{
    if steps.len() > 0 {
        settled_calls_stay_settled(call, steps.drop_last(), client, now);
    }
}

/// A call that was claimed is its holder's for good: through whatever comes to
/// it, it is held by that client instance or settled, every other one is
/// refused or told that it is over, and only a result of the holder is ever
/// recorded.
pub proof fn claimed_calls_stay_with_their_holder(
    call: ToolCall,
    holder: Id,
    steps: Seq<CallStep>,
    other: Id,
    checksum: Seq<char>,
    now: Instant,
)
    requires
        call.status == Some(CallStatus::Claimed),
        call.claimed_by == Some(holder),
        other != holder,
    ensures
        ({
            let after = call_after_all(call, steps);
            &&& after.claimed_by == Some(holder)
            &&& after.status == Some(CallStatus::Claimed) || settled_status(after.status)
            &&& !(claim_decision(after, other, now) is Claim)
            &&& !(claim_decision(after, other, now) is Held)
            &&& !(submit_decision(after, other, checksum, now) is Record)
        }),
    decreases steps.len(),
{
    if steps.len() > 0 {
        claimed_calls_stay_with_their_holder(
            call,
            holder,
            steps.drop_last(),
            other,
            checksum,
            now,
        );
    }
}

/// A result that was recorded is told back to whoever sends it again, with the
/// run that followed, whatever came to the call in between; a result with
/// another checksum is refused as a conflict.
pub proof fn recorded_results_are_told_back(
    call: ToolCall,
    client: Id,
    checksum: String,
    recorded_at: Instant,
    run: Id,
    steps: Seq<CallStep>,
    again: Id,
    sent: Seq<char>,
    now: Instant,
)
    requires
        submit_decision(call, client, checksum@, recorded_at) is Record,
        call.follow_up_run_id is None,
    ensures
        ({
            let done = call_after(
                call_after(call, CallStep::Submit(client, checksum, recorded_at)),
                CallStep::Follow(run),
            );
            let decision = submit_decision(call_after_all(done, steps), again, sent, now);
            &&& sent == checksum@ ==> decision == SubmitDecision::Replay(Some(run))
            &&& sent != checksum@ ==> decision == SubmitDecision::Refuse(
                refusal(
                    Status::Conflict,
                    "Client Tool result does not match the completed result",
                ),
            )
        }),
{
    let done = call_after(
        call_after(call, CallStep::Submit(client, checksum, recorded_at)),
        CallStep::Follow(run),
    );
    settled_calls_stay_settled(done, steps, again, now);
}

// ---------------------------------------------------------------------------
// Locking the batch of a call
// ---------------------------------------------------------------------------

/// How far the locking of a batch has come.
#[derive(Clone, Copy, Debug, PartialEq, Eq, Structural)]
pub enum LockState {
    /// Waits for the run of the call, for this client instance.
    Preview(Id),
    /// Waits for the session of the run to be found in the credential's scope.
    Session(Id),
    /// Waits for the run to be locked.
    Run(Id),
    /// Waits for the calls of the run.
    Batch(Id),
    Closed,
}

/// What was found.
#[derive(Clone, Copy, Debug, PartialEq, Eq, Structural)]
pub enum LockEvent {
    /// The call belongs to a run of the credential's agent and owner, or not.
    PreviewIs(bool),
    SessionInScope,
    /// The client instance that the run is for.
    RunIs(Option<Id>),
    /// The call is among those of the run, and its tool is one that the run
    /// was started with.
    BatchIs { found: bool, registered: bool },
}

/// What to do next.
#[derive(Clone, Copy, Debug)]
pub enum LockAction {
    FindPreview,
    FindSession,
    LockRun,
    LockBatch,
    /// The batch is locked for this client instance.
    Locked(Id),
    Refuse(Refusal),
}

/// The event answers what the state waits for.
pub open spec fn lock_expects(state: LockState, event: LockEvent) -> bool {
    match state {
        LockState::Preview(_) => event is PreviewIs,
        LockState::Session(_) => event is SessionInScope,
        LockState::Run(_) => event is RunIs,
        LockState::Batch(_) => event is BatchIs,
        LockState::Closed => false,
    }
}

/// A refusal that ends the locking.
pub open spec fn lock_refused(status: Status, message: &'static str) -> (LockState, LockAction) {
    (LockState::Closed, LockAction::Refuse(refusal(status, message)))
}

/// Locking starts for a credential that stands for a client instance.
pub open spec fn lock_start(credential: WidgetCredential) -> (LockState, LockAction) {
    match credential.client_instance_id {
        Some(client) => (LockState::Preview(client), LockAction::FindPreview),
        None => lock_refused(
            Status::Forbidden,
            "legacy Widget credentials cannot execute Client Tools",
        ),
    }
}

/// What follows what was found.
pub open spec fn lock_next(state: LockState, event: LockEvent) -> (LockState, LockAction) {
    match (state, event) {
        (LockState::Preview(client), LockEvent::PreviewIs(found)) => if found {
            (LockState::Session(client), LockAction::FindSession)
        } else {
            lock_refused(Status::NotFound, "Client Tool call not found")
        },
        (LockState::Session(client), LockEvent::SessionInScope) => (
            LockState::Run(client),
            LockAction::LockRun,
        ),
        (LockState::Run(client), LockEvent::RunIs(executor)) => if executor is None {
            lock_refused(Status::NotFound, "Client Tool Run not found")
        } else if executor != Some(client) {
            lock_refused(Status::Forbidden, "Client Tool Run belongs to another Client Instance")
        } else {
            (LockState::Batch(client), LockAction::LockBatch)
        },
        (LockState::Batch(client), LockEvent::BatchIs { found, registered }) => if !found {
            lock_refused(Status::NotFound, "Client Tool call not found")
        } else if !registered {
            lock_refused(Status::Forbidden, "Client Tool is not present in the Run snapshot")
        } else {
            (LockState::Closed, LockAction::Locked(client))
        },
        _ => lock_refused(Status::NotFound, "Client Tool call not found"),
    }
}

/// Starts to lock the batch of a call.
pub fn begin_batch_lock(credential: &WidgetCredential) -> (r: (LockState, LockAction))
    ensures
        r == lock_start(*credential),
{
    match credential.client_instance_id {
        Some(client) => (LockState::Preview(client), LockAction::FindPreview),
        None => (
            LockState::Closed,
            LockAction::Refuse(
                refuse(
                    Status::Forbidden,
                    "legacy Widget credentials cannot execute Client Tools",
                ),
            ),
        ),
    }
}

/// Takes the locking of a batch one step on.
pub fn lock_client_tool_batch(state: LockState, event: LockEvent) -> (r: (LockState, LockAction))
    requires
        lock_expects(state, event),
    ensures
        r == lock_next(state, event),
{
    match (state, event) {
        (LockState::Preview(client), LockEvent::PreviewIs(true)) => (
            LockState::Session(client),
            LockAction::FindSession,
        ),
        (LockState::Session(client), LockEvent::SessionInScope) => (
            LockState::Run(client),
            LockAction::LockRun,
        ),
        (LockState::Run(_), LockEvent::RunIs(None)) => (
            LockState::Closed,
            LockAction::Refuse(refuse(Status::NotFound, "Client Tool Run not found")),
        ),
        (LockState::Run(client), LockEvent::RunIs(Some(executor))) => {
            if executor != client {
                (
                    LockState::Closed,
                    LockAction::Refuse(
                        refuse(
                            Status::Forbidden,
                            "Client Tool Run belongs to another Client Instance",
                        ),
                    ),
                )
            } else {
                (LockState::Batch(client), LockAction::LockBatch)
            }
        },
        (LockState::Batch(client), LockEvent::BatchIs { found: true, registered }) => {
            if registered {
                (LockState::Closed, LockAction::Locked(client))
            } else {
                (
                    LockState::Closed,
                    LockAction::Refuse(
                        refuse(
                            Status::Forbidden,
                            "Client Tool is not present in the Run snapshot",
                        ),
                    ),
                )
            }
        },
        _ => (
            LockState::Closed,
            LockAction::Refuse(refuse(Status::NotFound, "Client Tool call not found")),
        ),
    }
}

/// The client instance of a state.
pub open spec fn lock_client(state: LockState) -> Option<Id> {
    match state {
        LockState::Preview(client) | LockState::Session(client) | LockState::Run(client)
        | LockState::Batch(client) => Some(client),
        LockState::Closed => None,
    }
}

/// A batch is locked only for the client instance of the credential, which is
/// the one that the run was started for, and for a tool that it was started
/// with.
pub proof fn batches_are_locked_for_their_client(state: LockState, event: LockEvent, client: Id)
    requires
        lock_expects(state, event),
    ensures
        lock_next(state, event).1 == LockAction::Locked(client) ==> lock_client(state) == Some(
            client,
        ) && event == (LockEvent::BatchIs { found: true, registered: true }),
        lock_next(state, event).0 is Batch ==> event == LockEvent::RunIs(lock_client(state)),
        lock_client(lock_next(state, event).0) is Some ==> lock_client(lock_next(state, event).0)
            == lock_client(state),
{
}

// ---------------------------------------------------------------------------
// Going on after the last result
// ---------------------------------------------------------------------------

/// How far a continuation has come.
#[derive(Clone, Copy, Debug, PartialEq, Eq, Structural)]
pub enum ContinuationState {
    /// Waits for the stored results to be read.
    Results,
    /// Waits for the run that asked for the tools to be completed.
    ParentRun,
    /// Waits for the note that it is.
    ParentNoted,
    /// Waits for its turn to be completed.
    ParentTurn,
    /// Waits for the session to be free.
    Session,
    /// Waits for the results to be accepted as a message.
    Acceptance,
    /// Waits for the new run to take over what the old one was.
    Binding,
    /// Waits for the calls to be linked to the new run.
    Linking,
    Closed,
}

/// What was found, or done.
#[derive(Clone, Copy, Debug, PartialEq, Eq, Structural)]
pub enum ContinuationEvent {
    /// The results and the profile of the user can be read, or not.
    ResultsRead { results: bool, user: bool },
    /// So many rows were changed.
    Changed(u64),
    /// The message was accepted: with a run or without.
    Accepted(bool),
    Done,
}

/// What to do next.
#[derive(Clone, Copy, Debug)]
pub enum ContinuationAction {
    ReadResults,
    CompleteParentRun,
    NoteParentRun,
    CompleteParentTurn,
    FreeSession,
    AcceptResults,
    BindContinuation,
    LinkCalls,
    /// The new run is ready.
    Finish,
    Refuse(Refusal),
}

/// Where a step leads.
pub type ContinuationStep = (ContinuationState, ContinuationAction);

/// The event answers what the state waits for.
pub open spec fn continuation_expects(state: ContinuationState, event: ContinuationEvent) -> bool {
    match state {
        ContinuationState::Results => event is ResultsRead,
        ContinuationState::ParentRun | ContinuationState::ParentTurn | ContinuationState::Session
        | ContinuationState::Binding => event is Changed,
        ContinuationState::Acceptance => event is Accepted,
        ContinuationState::ParentNoted | ContinuationState::Linking => event is Done,
        ContinuationState::Closed => false,
    }
}

/// A refusal that ends the continuation, and undoes it.
pub open spec fn continuation_refused(status: Status, message: &'static str) -> ContinuationStep {
    (ContinuationState::Closed, ContinuationAction::Refuse(refusal(status, message)))
}

/// Exactly one row was changed.
pub open spec fn one_changed(event: ContinuationEvent) -> bool {
    event == ContinuationEvent::Changed(1)
}

/// What follows: the run and the turn that waited are completed, the session
/// is freed, the results go in as a message, and its run takes over. Wherever
/// something was no longer as it was locked, nothing is done.
pub open spec fn continuation_next(
    state: ContinuationState,
    event: ContinuationEvent,
) -> ContinuationStep {
    match state {
        ContinuationState::Results => match event {
            ContinuationEvent::ResultsRead { results, user } => if !results {
                continuation_refused(Status::Internal, "stored Client Tool result is invalid")
            } else if !user {
                continuation_refused(Status::Internal, "Run external user context is invalid")
            } else {
                (ContinuationState::ParentRun, ContinuationAction::CompleteParentRun)
            },
            _ => continuation_refused(Status::Internal, "stored Client Tool result is invalid"),
        },
        ContinuationState::ParentRun => if one_changed(event) {
            (ContinuationState::ParentNoted, ContinuationAction::NoteParentRun)
        } else {
            continuation_refused(Status::Conflict, "Client Tool parent Run is no longer waiting")
        },
        ContinuationState::ParentNoted => (
            ContinuationState::ParentTurn,
            ContinuationAction::CompleteParentTurn,
        ),
        ContinuationState::ParentTurn => if one_changed(event) {
            (ContinuationState::Session, ContinuationAction::FreeSession)
        } else {
            continuation_refused(Status::Conflict, "Client Tool parent Turn is no longer waiting")
        },
        ContinuationState::Session => if one_changed(event) {
            (ContinuationState::Acceptance, ContinuationAction::AcceptResults)
        } else {
            continuation_refused(Status::Conflict, "Client Tool Session changed while continuing")
        },
        ContinuationState::Acceptance => if event == ContinuationEvent::Accepted(true) {
            (ContinuationState::Binding, ContinuationAction::BindContinuation)
        } else {
            continuation_refused(
                Status::Internal,
                "Client Tool results did not schedule a continuation",
            )
        },
        ContinuationState::Binding => if one_changed(event) {
            (ContinuationState::Linking, ContinuationAction::LinkCalls)
        } else {
            continuation_refused(Status::Conflict, "Client Tool continuation is no longer pending")
        },
        _ => (ContinuationState::Closed, ContinuationAction::Finish),
    }
}

/// The start of a continuation.
pub fn begin_client_tool_continuation() -> (r: ContinuationStep)
    ensures
        r == (ContinuationState::Results, ContinuationAction::ReadResults),
        r == continuation_run(seq![]),
{
    (ContinuationState::Results, ContinuationAction::ReadResults)
}

fn stop_continuation(status: Status, message: &'static str) -> (r: ContinuationStep)
    ensures
        r == continuation_refused(status, message),
{
    (ContinuationState::Closed, ContinuationAction::Refuse(refuse(status, message)))
}

fn changed_one(event: ContinuationEvent) -> (r: bool)
    ensures
        r == one_changed(event),
{
    match event {
        ContinuationEvent::Changed(rows) => rows == 1,
        _ => false,
    }
}

/// Takes a continuation one step on.
pub fn create_client_tool_continuation(state: ContinuationState, event: ContinuationEvent) -> (r:
    ContinuationStep)
    requires
        continuation_expects(state, event),
    ensures
        r == continuation_next(state, event),
{
    match state {
        ContinuationState::Results => match event {
            ContinuationEvent::ResultsRead { results, user } => {
                if !results {
                    stop_continuation(Status::Internal, "stored Client Tool result is invalid")
                } else if !user {
                    stop_continuation(Status::Internal, "Run external user context is invalid")
                } else {
                    (ContinuationState::ParentRun, ContinuationAction::CompleteParentRun)
                }
            },
            _ => stop_continuation(Status::Internal, "stored Client Tool result is invalid"),
        },
        ContinuationState::ParentRun => {
            if changed_one(event) {
                (ContinuationState::ParentNoted, ContinuationAction::NoteParentRun)
            } else {
                stop_continuation(Status::Conflict, "Client Tool parent Run is no longer waiting")
            }
        },
        ContinuationState::ParentNoted => (
            ContinuationState::ParentTurn,
            ContinuationAction::CompleteParentTurn,
        ),
        ContinuationState::ParentTurn => {
            if changed_one(event) {
                (ContinuationState::Session, ContinuationAction::FreeSession)
            } else {
                stop_continuation(Status::Conflict, "Client Tool parent Turn is no longer waiting")
            }
        },
        ContinuationState::Session => {
            if changed_one(event) {
                (ContinuationState::Acceptance, ContinuationAction::AcceptResults)
            } else {
                stop_continuation(Status::Conflict, "Client Tool Session changed while continuing")
            }
        },
        ContinuationState::Acceptance => match event {
            ContinuationEvent::Accepted(true) => (
                ContinuationState::Binding,
                ContinuationAction::BindContinuation,
            ),
            _ => stop_continuation(
                Status::Internal,
                "Client Tool results did not schedule a continuation",
            ),
        },
        ContinuationState::Binding => {
            if changed_one(event) {
                (ContinuationState::Linking, ContinuationAction::LinkCalls)
            } else {
                stop_continuation(
                    Status::Conflict,
                    "Client Tool continuation is no longer pending",
                )
            }
        },
        _ => (ContinuationState::Closed, ContinuationAction::Finish),
    }
}

/// The step that a history of events leads to.
pub open spec fn continuation_run(events: Seq<ContinuationEvent>) -> ContinuationStep
    decreases events.len(),
{
    if events.len() == 0 {
        (ContinuationState::Results, ContinuationAction::ReadResults)
    } else {
        continuation_next(continuation_run(events.drop_last()).0, events.last())
    }
}

/// Each event answers what the state before it waits for.
pub open spec fn continuation_history(events: Seq<ContinuationEvent>) -> bool
    decreases events.len(),
{
    events.len() == 0 || (continuation_history(events.drop_last()) && continuation_expects(
        continuation_run(events.drop_last()).0,
        events.last(),
    ))
}

/// The number of events that lead to a state that is open.
pub open spec fn continuation_place(state: ContinuationState) -> int {
    match state {
        ContinuationState::Results => 0,
        ContinuationState::ParentRun => 1,
        ContinuationState::ParentNoted => 2,
        ContinuationState::ParentTurn => 3,
        ContinuationState::Session => 4,
        ContinuationState::Acceptance => 5,
        ContinuationState::Binding => 6,
        ContinuationState::Linking => 7,
        ContinuationState::Closed => -1,
    }
}

proof fn lemma_continuation(events: Seq<ContinuationEvent>)
    requires
        continuation_history(events),
    ensures
        !(continuation_run(events).0 is Closed) ==> events.len() == continuation_place(
            continuation_run(events).0,
        ),
        events.len() > 2 && !(continuation_run(events).1 is Refuse) ==> one_changed(events[1]),
        events.len() > 4 && !(continuation_run(events).1 is Refuse) ==> one_changed(events[3]),
        events.len() > 5 && !(continuation_run(events).1 is Refuse) ==> one_changed(events[4]),
        events.len() > 6 && !(continuation_run(events).1 is Refuse) ==> events[5]
            == ContinuationEvent::Accepted(true),
        events.len() > 7 && !(continuation_run(events).1 is Refuse) ==> one_changed(events[6]),
        continuation_run(events).1 is Finish ==> events.len() == 8,
    decreases events.len(),
{
    if events.len() > 0 {
        let before = events.drop_last();
        lemma_continuation(before);
        assert forall|i: int| 0 <= i < before.len() implies events[i] == before[i] by {}
        assert(events.last() == events[events.len() - 1]);
    }
}

/// A continuation finishes only when the run, the turn and the session were
/// still waiting for it, each changed once, and a new run took over.
pub proof fn continuations_replace_a_waiting_run(events: Seq<ContinuationEvent>)
    requires
        continuation_history(events),
        continuation_run(events).1 is Finish,
    ensures
        events.len() == 8,
        one_changed(events[1]),
        one_changed(events[3]),
        one_changed(events[4]),
        events[5] == ContinuationEvent::Accepted(true),
        one_changed(events[6]),
{
    lemma_continuation(events);
}

/// The key under which the results of a batch are accepted: a batch continues
/// once.
pub open spec fn batch_key(run_id: Id) -> Seq<char> {
    "client-tool-batch:"@ + hyphenated_id(run_id)
}

/// The key under which the results of a batch are accepted.
pub fn client_tool_batch_key(run_id: Id) -> (r: String)
    ensures
        r@ == batch_key(run_id),
{
    let id = id_text(run_id);
    join("client-tool-batch:", id.as_str())
}

// ---------------------------------------------------------------------------
// Results from an integration
// ---------------------------------------------------------------------------

/// A tool request of an integration as it is stored.
#[derive(Clone, Copy, Debug, PartialEq, Eq, Structural)]
pub struct IntegrationCall {
    pub status: Option<CallStatus>,
    pub follow_up_run_id: Option<Id>,
    pub expires_at: Instant,
    pub session_id: Option<Id>,
}

/// How far a result from an integration has come.
#[derive(Clone, Copy, Debug, PartialEq, Eq, Structural)]
pub enum IntegrationState {
    /// Waits for the request to be locked.
    Request,
    /// Waits for the note that the request has expired.
    Expired,
    /// Waits for the run that asked for the tool.
    Run,
    /// Waits to hear whether another run is under way.
    Active,
    /// Waits for the profile of the user to be read.
    User,
    /// Waits for the result to be accepted as a message.
    Acceptance,
    Closed,
}

/// What was found, or done.
#[derive(Clone, Copy, Debug, PartialEq, Eq, Structural)]
pub enum IntegrationEvent {
    /// The request, locked at this time.
    RequestIs(IntegrationCall, Instant),
    ExpiryNoted,
    /// The run is one whose tools a client executes, and it belongs to the
    /// session of the request.
    RunIs { client_managed: bool, same_session: bool },
    ActiveRun(bool),
    /// The profile of the user can be read, or not.
    UserRead(bool),
    /// The message was accepted: with this run, or without one.
    Accepted(Option<Id>),
}

/// What to do next.
#[derive(Clone, Copy, Debug)]
pub enum IntegrationAction {
    LockRequest,
    /// The result came before: tell back this run.
    Replay(Id),
    /// Note that the request has expired.
    NoteExpiry,
    /// Find the run that asked for the tool, in this session.
    FindRun(Id),
    FindActiveRun,
    ReadUser,
    AcceptResult,
    /// Record the result, which this run goes on with.
    Complete(Id),
    Refuse(Refusal),
}

/// Where a step leads.
pub type IntegrationStep = (IntegrationState, IntegrationAction);

/// The event answers what the state waits for.
pub open spec fn integration_expects(state: IntegrationState, event: IntegrationEvent) -> bool {
    match state {
        IntegrationState::Request => event is RequestIs,
        IntegrationState::Expired => event is ExpiryNoted,
        IntegrationState::Run => event is RunIs,
        IntegrationState::Active => event is ActiveRun,
        IntegrationState::User => event is UserRead,
        IntegrationState::Acceptance => event is Accepted,
        IntegrationState::Closed => false,
    }
}

/// A refusal that ends the submission.
pub open spec fn integration_refused(status: Status, message: &'static str) -> IntegrationStep {
    (IntegrationState::Closed, IntegrationAction::Refuse(refusal(status, message)))
}

/// What follows what was found: a request that has its result tells back the
/// run that followed; one that is pending and in time gets this result, if its
/// run is the session's, is not a client's, and no other run is under way.
pub open spec fn integration_next(event: IntegrationEvent) -> IntegrationStep {
    match event {
        IntegrationEvent::RequestIs(call, now) => if call.status == Some(CallStatus::Completed) {
            match call.follow_up_run_id {
                Some(run) => (IntegrationState::Closed, IntegrationAction::Replay(run)),
                None => integration_refused(
                    Status::Internal,
                    "tool request follow-up run is missing",
                ),
            }
        } else if call.status == Some(CallStatus::TimedOut) {
            integration_refused(Status::Gone, "tool request expired")
        } else if call.status != Some(CallStatus::Pending) {
            integration_refused(Status::Forbidden, "tool request is not pending")
        } else if call.expires_at <= now {
            (IntegrationState::Expired, IntegrationAction::NoteExpiry)
        } else {
            match call.session_id {
                Some(session) => (IntegrationState::Run, IntegrationAction::FindRun(session)),
                None => integration_refused(
                    Status::Forbidden,
                    "tool request is not an Integration request",
                ),
            }
        },
        IntegrationEvent::ExpiryNoted => integration_refused(Status::Gone, "tool request expired"),
        IntegrationEvent::RunIs { client_managed, same_session } => if client_managed {
            integration_refused(
                Status::Forbidden,
                "Client Tool results require a Client Access Credential",
            )
        } else if !same_session {
            integration_refused(Status::Conflict, "tool request run belongs to another session")
        } else {
            (IntegrationState::Active, IntegrationAction::FindActiveRun)
        },
        IntegrationEvent::ActiveRun(active) => if active {
            integration_refused(Status::Conflict, "integration session already has an active run")
        } else {
            (IntegrationState::User, IntegrationAction::ReadUser)
        },
        IntegrationEvent::UserRead(readable) => if readable {
            (IntegrationState::Acceptance, IntegrationAction::AcceptResult)
        } else {
            integration_refused(Status::Internal, "Run external user context is invalid")
        },
        IntegrationEvent::Accepted(Some(run)) => (
            IntegrationState::Closed,
            IntegrationAction::Complete(run),
        ),
        IntegrationEvent::Accepted(None) => integration_refused(
            Status::Internal,
            "tool result did not schedule a run",
        ),
    }
}

/// The start of a submission.
pub fn begin_integration_tool_result() -> (r: IntegrationStep)
    ensures
        r == (IntegrationState::Request, IntegrationAction::LockRequest),
        r == integration_run(seq![]),
{
    (IntegrationState::Request, IntegrationAction::LockRequest)
}

fn stop_integration(status: Status, message: &'static str) -> (r: IntegrationStep)
    ensures
        r == integration_refused(status, message),
{
    (IntegrationState::Closed, IntegrationAction::Refuse(refuse(status, message)))
}

/// Takes a submission one step on.
pub fn submit_integration_tool_result(state: IntegrationState, event: IntegrationEvent) -> (r:
    IntegrationStep)
    requires
        integration_expects(state, event),
    ensures
        r == integration_next(event),
{
    match event {
        IntegrationEvent::RequestIs(call, now) => match call.status {
            Some(CallStatus::Completed) => match call.follow_up_run_id {
                Some(run) => (IntegrationState::Closed, IntegrationAction::Replay(run)),
                None => stop_integration(Status::Internal, "tool request follow-up run is missing"),
            },
            Some(CallStatus::TimedOut) => stop_integration(Status::Gone, "tool request expired"),
            Some(CallStatus::Pending) => {
                if call.expires_at <= now {
                    (IntegrationState::Expired, IntegrationAction::NoteExpiry)
                } else {
                    match call.session_id {
                        Some(session) => (
                            IntegrationState::Run,
                            IntegrationAction::FindRun(session),
                        ),
                        None => stop_integration(
                            Status::Forbidden,
                            "tool request is not an Integration request",
                        ),
                    }
                }
            },
            _ => stop_integration(Status::Forbidden, "tool request is not pending"),
        },
        IntegrationEvent::ExpiryNoted => stop_integration(Status::Gone, "tool request expired"),
        IntegrationEvent::RunIs { client_managed, same_session } => {
            if client_managed {
                stop_integration(
                    Status::Forbidden,
                    "Client Tool results require a Client Access Credential",
                )
            } else if !same_session {
                stop_integration(Status::Conflict, "tool request run belongs to another session")
            } else {
                (IntegrationState::Active, IntegrationAction::FindActiveRun)
            }
        },
        IntegrationEvent::ActiveRun(active) => {
            if active {
                stop_integration(Status::Conflict, "integration session already has an active run")
            } else {
                (IntegrationState::User, IntegrationAction::ReadUser)
            }
        },
        IntegrationEvent::UserRead(readable) => {
            if readable {
                (IntegrationState::Acceptance, IntegrationAction::AcceptResult)
            } else {
                stop_integration(Status::Internal, "Run external user context is invalid")
            }
        },
        IntegrationEvent::Accepted(accepted) => match accepted {
            Some(run) => (IntegrationState::Closed, IntegrationAction::Complete(run)),
            None => stop_integration(Status::Internal, "tool result did not schedule a run"),
        },
    }
}

/// A request after its result was recorded, which this run goes on with.
pub open spec fn answered(call: IntegrationCall, run: Id) -> IntegrationCall {
    IntegrationCall {
        status: Some(CallStatus::Completed),
        follow_up_run_id: Some(run),
        ..call
    }
}

/// The request as it is stored once its result is recorded.
pub fn answered_request(call: IntegrationCall, run: Id) -> (r: IntegrationCall)
    ensures
        r == answered(call, run),
{
    IntegrationCall { status: Some(CallStatus::Completed), follow_up_run_id: Some(run), ..call }
}

/// A request after it was noted that it has expired.
pub open spec fn expired(call: IntegrationCall) -> IntegrationCall {
    IntegrationCall { status: Some(CallStatus::TimedOut), ..call }
}

/// The request as it is stored once it was noted that it has expired.
pub fn expired_request(call: IntegrationCall) -> (r: IntegrationCall)
    ensures
        r == expired(call),
{
    IntegrationCall { status: Some(CallStatus::TimedOut), ..call }
}

/// The step that a history of events leads to.
pub open spec fn integration_run(events: Seq<IntegrationEvent>) -> IntegrationStep {
    if events.len() == 0 {
        (IntegrationState::Request, IntegrationAction::LockRequest)
    } else {
        integration_next(events.last())
    }
}

/// Each event answers what the state before it waits for.
pub open spec fn integration_history(events: Seq<IntegrationEvent>) -> bool
    decreases events.len(),
{
    events.len() == 0 || (integration_history(events.drop_last()) && integration_expects(
        integration_run(events.drop_last()).0,
        events.last(),
    ))
}

/// A result is recorded only for a request that was pending and in time, whose
/// run belongs to its session and is not a client's, while no other run of the
/// session was under way, and once a run went on with it.
pub proof fn integration_results_are_recorded_in_order(events: Seq<IntegrationEvent>)
    requires
        integration_history(events),
        integration_run(events).1 is Complete,
    ensures
        events.len() == 5,
        match events[0] {
            IntegrationEvent::RequestIs(call, now) => call.status == Some(CallStatus::Pending)
                && now < call.expires_at && call.session_id is Some,
            _ => false,
        },
        events[1] == (IntegrationEvent::RunIs { client_managed: false, same_session: true }),
        events[2] == IntegrationEvent::ActiveRun(false),
        events[3] == IntegrationEvent::UserRead(true),
        events[4] == IntegrationEvent::Accepted(Some(integration_run(events).1->Complete_0)),
{
    reveal_with_fuel(integration_history, 6);
    let e5 = events;
    let e4 = e5.drop_last();
    let e3 = e4.drop_last();
    let e2 = e3.drop_last();
    let e1 = e2.drop_last();
    let e0 = e1.drop_last();
    assert(integration_expects(integration_run(e4).0, e5.last()));
    assert(e4.len() > 0 && e4.last() == events[events.len() - 2]);
    assert(integration_expects(integration_run(e3).0, e4.last()));
    assert(e3.len() > 0 && e3.last() == events[events.len() - 3]);
    assert(integration_expects(integration_run(e2).0, e3.last()));
    assert(e2.len() > 0 && e2.last() == events[events.len() - 4]);
    assert(integration_expects(integration_run(e1).0, e2.last()));
    assert(e1.len() > 0 && e1.last() == events[events.len() - 5]);
    assert(integration_expects(integration_run(e0).0, e1.last()));
    assert(e0.len() == 0);
}

/// A result from an integration is taken once: submitted again, for the
/// request as the first submission stored it, it is told back the run that
/// went on with it, at whatever time; nothing is accepted or recorded. A
/// request that expired stays refused.
pub proof fn integration_results_are_taken_once(
    first: Seq<IntegrationEvent>,
    call: IntegrationCall,
    now: Instant,
)
    requires
        integration_history(first),
        first.len() > 0,
        first[0] is RequestIs,
        call == first[0]->RequestIs_0,
    ensures
        integration_run(first).1 is Complete ==> integration_next(
            IntegrationEvent::RequestIs(answered(call, integration_run(first).1->Complete_0), now),
        ) == (
            IntegrationState::Closed,
            IntegrationAction::Replay(integration_run(first).1->Complete_0),
        ),
        integration_next(IntegrationEvent::RequestIs(expired(call), now)) == integration_refused(
            Status::Gone,
            "tool request expired",
        ),
{
}

/// The message that carries a result into the conversation, given the text of
/// the result.
pub open spec fn result_content(tool_name: Seq<char>, result: Seq<char>) -> Seq<char> {
    "Tool result for "@ + tool_name + ": "@ + result
}

/// The message that carries a result into the conversation.
pub fn tool_result_content(tool_name: &str, result: &str) -> (r: String)
    ensures
        r@ == result_content(tool_name@, result@),
{
    let mut out = join("Tool result for ", tool_name);
    out.append(": ");
    out.append(result);
    out
}

/// The key under which the result of a request is accepted: it is accepted
/// once.
pub open spec fn result_key(request_id: Id) -> Seq<char> {
    "tool-result:"@ + hyphenated_id(request_id)
}

/// The key under which the result of a request is accepted.
pub fn tool_result_key(request_id: Id) -> (r: String)
    ensures
        r@ == result_key(request_id),
{
    let id = id_text(request_id);
    join("tool-result:", id.as_str())
}

/// How many calls of a batch have no result.
pub open spec fn unanswered(batch: Seq<ToolCall>) -> nat
    decreases batch.len(),
{
    if batch.len() == 0 {
        0
    } else {
        unanswered(batch.drop_last()) + if batch.last().status == Some(CallStatus::Completed) {
            0nat
        } else {
            1
        }
    }
}

/// The conversation goes on exactly when every call of the batch has its
/// result: after a result that was recorded, and that one alone.
pub proof fn conversations_go_on_once_every_call_is_answered(
    batch: Seq<ToolCall>,
    rows: u64,
    incomplete: i64,
)
    requires
        incomplete == unanswered(batch),
    ensures
        rows == 1 ==> after_record(rows, incomplete) is Ok && (after_record(
            rows,
            incomplete,
        )->Ok_0 <==> forall|i: int|
            0 <= i < batch.len() ==> (#[trigger] batch[i]).status == Some(CallStatus::Completed)),
        rows != 1 ==> after_record(rows, incomplete) is Err && after_record(
            rows,
            incomplete,
        )->Err_0.status == Status::Conflict,
{
    lemma_unanswered(batch);
}

proof fn lemma_unanswered(batch: Seq<ToolCall>)
    ensures
        unanswered(batch) == 0 <==> forall|i: int|
            0 <= i < batch.len() ==> (#[trigger] batch[i]).status == Some(CallStatus::Completed),
    decreases batch.len(),
{
    if batch.len() > 0 {
        let rest = batch.drop_last();
        lemma_unanswered(rest);
        if unanswered(batch) == 0 {
            assert forall|i: int| 0 <= i < batch.len() implies (#[trigger] batch[i]).status == Some(
                CallStatus::Completed,
            ) by {
                if i < rest.len() {
                    assert(rest[i] == batch[i]);
                }
            }
        }
        if forall|i: int|
            0 <= i < batch.len() ==> (#[trigger] batch[i]).status == Some(CallStatus::Completed) {
            assert forall|i: int| 0 <= i < rest.len() implies (#[trigger] rest[i]).status == Some(
                CallStatus::Completed,
            ) by {
                assert(rest[i] == batch[i]);
            }
            assert(batch[batch.len() - 1].status == Some(CallStatus::Completed));
        }
    }
}

/// A call that waits can be claimed by whoever comes in time, and by nobody
/// afterwards; one with a status that nobody knows is claimed by nobody.
pub proof fn waiting_calls_can_be_claimed(call: ToolCall, client: Id, now: Instant)
    ensures
        claim_decision(call, client, now) is Claim <==> call.status == Some(CallStatus::Pending)
            && now < call.expires_at,
        claim_decision(call, client, now) is Held <==> call.status == Some(CallStatus::Claimed)
            && call.claimed_by == Some(client) && now < call.expires_at,
        claim_decision(call, client, now) is FailBatch <==> call.expires_at <= now && (call.status
            == Some(CallStatus::Pending) || call.status == Some(CallStatus::Claimed) || call.status
            == Some(CallStatus::Unknown)),
        claim_decision(call, client, now) is Over <==> call.status == Some(CallStatus::Completed)
            || call.status == Some(CallStatus::TimedOut) || call.status == Some(
            CallStatus::Cancelled,
        ) || (call.status == Some(CallStatus::Unknown) && now < call.expires_at),
        claim_decision(call, client, now) matches ClaimDecision::Refuse(e) ==> e.status == (
        if call.status == Some(CallStatus::Claimed) {
            Status::Forbidden
        } else {
            Status::Internal
        }),
        claim_decision(call, client, now) matches ClaimDecision::FailBatch(e) ==> e.status
            == Status::Gone,
{
}

/// A result is recorded from the client instance that holds the call, in time,
/// and in no other case; a call that was given up takes none.
pub proof fn results_come_from_the_holder(
    call: ToolCall,
    client: Id,
    checksum: Seq<char>,
    now: Instant,
)
    ensures
        submit_decision(call, client, checksum, now) is Record <==> call.status == Some(
            CallStatus::Claimed,
        ) && call.claimed_by == Some(client) && now < call.expires_at,
        submit_decision(call, client, checksum, now) is FailBatch <==> call.expires_at <= now && (
        call.status == Some(CallStatus::Pending) || call.status == Some(CallStatus::Claimed)
            || call.status is None),
        submit_decision(call, client, checksum, now) is Replay <==> call.status == Some(
            CallStatus::Completed,
        ) && call.result_checksum is Some && call.result_checksum->0@ == checksum,
        submit_decision(call, client, checksum, now) matches SubmitDecision::Refuse(e) ==> e.status
            == (if call.status == Some(CallStatus::Completed) {
            Status::Conflict
        } else if call.status == Some(CallStatus::TimedOut) || call.status == Some(
            CallStatus::Unknown,
        ) || call.status == Some(CallStatus::Cancelled) {
            Status::Gone
        } else {
            Status::Forbidden
        }),
{
    match call.status {
        Some(CallStatus::Pending) | Some(CallStatus::Claimed) | None => {},
        Some(CallStatus::Completed) | Some(CallStatus::TimedOut) => {},
        Some(CallStatus::Unknown) | Some(CallStatus::Cancelled) => {},
    }
}

/// A batch that is given up closes just the calls that are open, all of them
/// in one way, and keeps every result that was recorded.
pub proof fn giving_up_closes_what_is_open(call: ToolCall, failure: BatchFailure)
    ensures
        ({
            let after = call_after(call, CallStep::GiveUp(failure));
            let open = call.status == Some(CallStatus::Pending) || call.status == Some(
                CallStatus::Claimed,
            ) || call.status == Some(CallStatus::Unknown);
            &&& !open ==> after == call
            &&& open && failure == BatchFailure::DeadlineReached ==> after.status == Some(
                CallStatus::TimedOut,
            )
            &&& open && failure == BatchFailure::Stopped ==> after.status == Some(
                CallStatus::Cancelled,
            )
            &&& after.result_checksum == call.result_checksum
            &&& after.claimed_by == call.claimed_by
            &&& after.follow_up_run_id == call.follow_up_run_id
        }),
{
}

/// Only a credential of a client instance locks a batch, and only one whose
/// call is found, whose session is in scope, whose run was started for that
/// same client instance, and whose tool the run knows.
pub proof fn batches_are_locked_step_by_step(
    credential: WidgetCredential,
    client: Id,
    other: Id,
    found: bool,
    registered: bool,
)
    requires
        other != client,
    ensures
        lock_start(credential).1 is FindPreview <==> credential.client_instance_id is Some,
        credential.client_instance_id is Some ==> lock_start(credential).0 == LockState::Preview(
            credential.client_instance_id->0,
        ),
        lock_next(LockState::Preview(client), LockEvent::PreviewIs(true)) == (
            LockState::Session(client),
            LockAction::FindSession,
        ),
        lock_next(LockState::Preview(client), LockEvent::PreviewIs(false)).1 is Refuse,
        lock_next(LockState::Session(client), LockEvent::SessionInScope) == (
            LockState::Run(client),
            LockAction::LockRun,
        ),
        lock_next(LockState::Run(client), LockEvent::RunIs(Some(client))) == (
            LockState::Batch(client),
            LockAction::LockBatch,
        ),
        lock_next(LockState::Run(client), LockEvent::RunIs(Some(other))).1 is Refuse,
        lock_next(LockState::Run(client), LockEvent::RunIs(None)).1 is Refuse,
        lock_next(LockState::Batch(client), LockEvent::BatchIs { found, registered }).1
            == LockAction::Locked(client) <==> found && registered,
        !(found && registered) ==> lock_next(
            LockState::Batch(client),
            LockEvent::BatchIs { found, registered },
        ).1 is Refuse,
{
}

/// A result from an integration goes the whole way where nothing stands
/// against it: to the run that asked, past any other run, to a message, and
/// into the request.
pub proof fn integration_results_go_their_way(
    call: IntegrationCall,
    session: Id,
    run: Id,
    now: Instant,
)
    requires
        call.status == Some(CallStatus::Pending),
        now < call.expires_at,
        call.session_id == Some(session),
    ensures
        integration_next(IntegrationEvent::RequestIs(call, now)) == (
            IntegrationState::Run,
            IntegrationAction::FindRun(session),
        ),
        integration_next(
            IntegrationEvent::RunIs { client_managed: false, same_session: true },
        ) == (IntegrationState::Active, IntegrationAction::FindActiveRun),
        integration_next(IntegrationEvent::ActiveRun(false)) == (
            IntegrationState::User,
            IntegrationAction::ReadUser,
        ),
        integration_next(IntegrationEvent::UserRead(true)) == (
            IntegrationState::Acceptance,
            IntegrationAction::AcceptResult,
        ),
        integration_next(IntegrationEvent::Accepted(Some(run))) == (
            IntegrationState::Closed,
            IntegrationAction::Complete(run),
        ),
{
}

/// What stands against a result from an integration, and how it is answered.
pub proof fn integration_results_are_refused(
    call: IntegrationCall,
    now: Instant,
    client_managed: bool,
    same_session: bool,
)
    ensures
        call.status == Some(CallStatus::Pending) && call.expires_at <= now ==> integration_next(
            IntegrationEvent::RequestIs(call, now),
        ).1 is NoteExpiry,
        call.status == Some(CallStatus::Completed) && call.follow_up_run_id is Some
            ==> integration_next(IntegrationEvent::RequestIs(call, now)).1
            == IntegrationAction::Replay(call.follow_up_run_id->0),
        call.status != Some(CallStatus::Pending) && call.status != Some(CallStatus::Completed)
            ==> integration_next(IntegrationEvent::RequestIs(call, now)).1 is Refuse,
        client_managed || !same_session ==> integration_next(
            IntegrationEvent::RunIs { client_managed, same_session },
        ).1 is Refuse,
        integration_next(IntegrationEvent::ActiveRun(true)).1 is Refuse,
        integration_next(IntegrationEvent::ActiveRun(true)).1->Refuse_0.status == Status::Conflict,
        integration_next(IntegrationEvent::UserRead(false)).1 is Refuse,
        integration_next(IntegrationEvent::Accepted(None)).1 is Refuse,
        integration_next(IntegrationEvent::ExpiryNoted).1 is Refuse,
        integration_next(IntegrationEvent::ExpiryNoted).1->Refuse_0.status == Status::Gone,
{
}

/// A result is too long exactly above the limit, and a higher limit changes no
/// checksum.
pub proof fn checksums_bound_their_results(text: Seq<char>, max_length: nat, more: nat)
    requires
        max_length <= more,
    ensures
        result_checksum(text, max_length) is Ok <==> byte_count(text) <= max_length,
        result_checksum(text, max_length) is Ok ==> result_checksum(text, more)
            == result_checksum(text, max_length),
        result_checksum(text, max_length) is Err ==> result_checksum(
            text,
            max_length,
        )->Err_0.status == Status::BadRequest,
{
}

/// Messages of different batches, and of different requests, have different
/// keys.
pub proof fn keys_tell_batches_and_requests_apart(a: Id, b: Id)
    ensures
        batch_key(a) == batch_key(b) ==> hyphenated_id(a) == hyphenated_id(b),
        result_key(a) == result_key(b) ==> hyphenated_id(a) == hyphenated_id(b),
        batch_key(a) != result_key(b),
{
    crate::ids::lemma_hyphenated_id(a);
    crate::ids::lemma_hyphenated_id(b);
    let p = batch_key(a).len() - 36;
    let q = result_key(a).len() - 36;
    assert(batch_key(a).skip(p) =~= hyphenated_id(a));
    assert(batch_key(b).skip(p) =~= hyphenated_id(b));
    assert(result_key(a).skip(q) =~= hyphenated_id(a));
    assert(result_key(b).skip(q) =~= hyphenated_id(b));
    reveal_strlit("client-tool-batch:");
    reveal_strlit("tool-result:");
    assert(batch_key(a)[0] == 'c');
    assert(result_key(b)[0] == 't');
}

/// A continuation takes each of its steps when the one before it changed just
/// what it should, and stops with a conflict when it did not.
pub proof fn continuations_go_step_by_step(rows: u64, results: bool, user: bool, run: bool)
    ensures
        continuation_next(
            ContinuationState::Results,
            ContinuationEvent::ResultsRead { results, user },
        ).1 is CompleteParentRun <==> results && user,
        continuation_next(
            ContinuationState::ParentRun,
            ContinuationEvent::Changed(rows),
        ).1 is NoteParentRun <==> rows == 1,
        continuation_next(
            ContinuationState::ParentNoted,
            ContinuationEvent::Done,
        ).1 is CompleteParentTurn,
        continuation_next(
            ContinuationState::ParentTurn,
            ContinuationEvent::Changed(rows),
        ).1 is FreeSession <==> rows == 1,
        continuation_next(
            ContinuationState::Session,
            ContinuationEvent::Changed(rows),
        ).1 is AcceptResults <==> rows == 1,
        continuation_next(
            ContinuationState::Acceptance,
            ContinuationEvent::Accepted(run),
        ).1 is BindContinuation <==> run,
        continuation_next(
            ContinuationState::Binding,
            ContinuationEvent::Changed(rows),
        ).1 is LinkCalls <==> rows == 1,
        continuation_next(ContinuationState::Linking, ContinuationEvent::Done).1 is Finish,
        rows != 1 ==> forall|state: ContinuationState|
            state == ContinuationState::ParentRun || state == ContinuationState::ParentTurn || state
                == ContinuationState::Session || state == ContinuationState::Binding
                ==> #[trigger] continuation_next(state, ContinuationEvent::Changed(rows)).1
                is Refuse,
{
}

/// The message that carries a result names the tool and ends with the result;
/// two results of one tool are carried apart.
pub proof fn results_are_carried_whole(tool_name: Seq<char>, result: Seq<char>, other: Seq<char>)
    ensures
        result_content(tool_name, result) == "Tool result for "@ + tool_name + ": "@ + result,
        result_content(tool_name, result).skip(
            result_content(tool_name, result).len() - result.len(),
        ) == result,
        result_content(tool_name, result) == result_content(tool_name, other) ==> result == other,
{
    let a = result_content(tool_name, result);
    let b = result_content(tool_name, other);
    let n = "Tool result for "@.len() + tool_name.len() + ": "@.len();
    assert(a.skip(n as int) =~= result);
    assert(b.skip(n as int) =~= other);
}

/// A result that is not taken is answered by what stands against it: a result
/// that differs, a call that is over or out of time, or a call of somebody
/// else.
pub proof fn refused_results_say_why(
    call: ToolCall,
    client: Id,
    checksum: Seq<char>,
    now: Instant,
)
    ensures
        submit_decision(call, client, checksum, now) matches SubmitDecision::FailBatch(e)
            ==> e.status == Status::Gone,
        submit_decision(call, client, checksum, now) matches SubmitDecision::Refuse(e) ==> e.status
            == if call.status == Some(CallStatus::Completed) {
            Status::Conflict
        } else if terminal_status(call.status) {
            Status::Gone
        } else {
            Status::Forbidden
        },
{
}

/// Locking a call ends where it or its run is not there, or is not the
/// client's own.
pub proof fn refused_locks_say_why(client: Id, executor: Option<Id>, found: bool, registered: bool)
    ensures
        ({
            let preview = lock_next(LockState::Preview(client), LockEvent::PreviewIs(found));
            &&& found ==> preview == (LockState::Session(client), LockAction::FindSession)
            &&& !found ==> preview.1 is Refuse && (preview.1->Refuse_0).status == Status::NotFound
        }),
        lock_next(LockState::Session(client), LockEvent::SessionInScope) == (
            LockState::Run(client),
            LockAction::LockRun,
        ),
        ({
            let run = lock_next(LockState::Run(client), LockEvent::RunIs(executor));
            &&& executor == Some(client) ==> run == (
                LockState::Batch(client),
                LockAction::LockBatch,
            )
            &&& executor is None ==> run.1 is Refuse && (run.1->Refuse_0).status
                == Status::NotFound
            &&& executor is Some && executor != Some(client) ==> run.1 is Refuse && (
            run.1->Refuse_0).status == Status::Forbidden
        }),
        ({
            let batch = lock_next(
                LockState::Batch(client),
                LockEvent::BatchIs { found, registered },
            );
            &&& found && registered ==> batch == (LockState::Closed, LockAction::Locked(client))
            &&& !found ==> batch.1 is Refuse && (batch.1->Refuse_0).status == Status::NotFound
            &&& found && !registered ==> batch.1 is Refuse && (batch.1->Refuse_0).status
                == Status::Forbidden
        }),
{
}

/// A continuation stops where something is no longer as it was locked, and
/// where what is stored cannot be used.
pub proof fn stopped_continuations_say_why(rows: u64, results: bool, user: bool)
    ensures
        !results || !user ==> ({
            let next = continuation_next(
                ContinuationState::Results,
                ContinuationEvent::ResultsRead { results, user },
            );
            next.1 is Refuse && (next.1->Refuse_0).status == Status::Internal
        }),
        rows != 1 ==> ({
            let run = continuation_next(
                ContinuationState::ParentRun,
                ContinuationEvent::Changed(rows),
            );
            let turn = continuation_next(
                ContinuationState::ParentTurn,
                ContinuationEvent::Changed(rows),
            );
            let session = continuation_next(
                ContinuationState::Session,
                ContinuationEvent::Changed(rows),
            );
            let binding = continuation_next(
                ContinuationState::Binding,
                ContinuationEvent::Changed(rows),
            );
            &&& run.1 is Refuse && (run.1->Refuse_0).status == Status::Conflict
            &&& turn.1 is Refuse && (turn.1->Refuse_0).status == Status::Conflict
            &&& session.1 is Refuse && (session.1->Refuse_0).status == Status::Conflict
            &&& binding.1 is Refuse && (binding.1->Refuse_0).status == Status::Conflict
        }),
        ({
            let next = continuation_next(
                ContinuationState::Acceptance,
                ContinuationEvent::Accepted(false),
            );
            next.1 is Refuse && (next.1->Refuse_0).status == Status::Internal
        }),
{
}

/// A submission of an integration is stopped by what stands against it.
pub proof fn stopped_submissions_say_why(client_managed: bool, same_session: bool)
    ensures
        ({
            let next = integration_next(IntegrationEvent::RunIs { client_managed, same_session });
            &&& client_managed ==> next.1 is Refuse && (next.1->Refuse_0).status
                == Status::Forbidden
            &&& !client_managed && !same_session ==> next.1 is Refuse && (
            next.1->Refuse_0).status == Status::Conflict
            &&& !client_managed && same_session ==> next == (
                IntegrationState::Active,
                IntegrationAction::FindActiveRun,
            )
        }),
        integration_next(IntegrationEvent::ActiveRun(true)).1 matches IntegrationAction::Refuse(e)
            && e.status == Status::Conflict,
        integration_next(IntegrationEvent::UserRead(false)).1 matches IntegrationAction::Refuse(e)
            && e.status == Status::Internal,
        integration_next(IntegrationEvent::Accepted(None)).1 matches IntegrationAction::Refuse(e)
            && e.status == Status::Internal,
        integration_next(IntegrationEvent::ExpiryNoted).1 matches IntegrationAction::Refuse(e)
            && e.status == Status::Gone,
{
}

} // verus!
