//! What becomes of runs, turns, messages and tool requests when the agent or
//! the user that they belong to is retired.

use crate::agent_flow::{archive_plan, ArchiveStep};
use crate::erasure::{freeze_plan, FreezeStep};
use vstd::prelude::*;

verus! {

/// Rows that have a status.
#[derive(Clone, Copy, Debug, PartialEq, Eq, Structural)]
pub enum RowKind {
    Run,
    Turn,
    Message,
    ToolRequest,
}

/// The statuses that a rule goes by.
pub open spec fn listed(kind: RowKind) -> Seq<Seq<char>> {
    match kind {
        RowKind::Run => seq!["pending"@, "running"@, "waiting_tool"@],
        RowKind::Turn => seq!["completed"@, "failed"@, "interrupted"@],
        RowKind::Message => seq!["queued"@, "deferred"@, "delivering"@],
        RowKind::ToolRequest => seq!["completed"@],
    }
}

/// The listed statuses are those that change; else they are those that stay.
pub open spec fn changes_listed(kind: RowKind) -> bool {
    kind == RowKind::Run || kind == RowKind::Message
}

/// A row with this status is still open, and changes.
pub open spec fn changes(kind: RowKind, status: Seq<char>) -> bool {
    listed(kind).contains(status) == changes_listed(kind)
}

/// The status that an open row gets.
pub open spec fn closing_status(kind: RowKind) -> Seq<char> {
    if kind == RowKind::ToolRequest {
        "cancelled"@
    } else {
        "failed"@
    }
}

/// The status of a row afterwards: a run that is under way fails, as does a
/// turn that has not ended and a message that was not delivered; a tool
/// request without a result is cancelled; everything else stays as it is.
pub open spec fn status_after(kind: RowKind, status: Seq<char>) -> Seq<char> {
    if changes(kind, status) {
        closing_status(kind)
    } else {
        status
    }
}

/// How the rows of a kind are retired.
#[derive(Debug)]
pub struct StatusRule {
    pub listed: Vec<&'static str>,
    pub changes_listed: bool,
    pub closing: &'static str,
}

/// What texts hold.
pub open spec fn texts_of(v: Seq<&'static str>) -> Seq<Seq<char>> {
    Seq::new(v.len(), |i: int| v[i]@)
}

/// How the rows of a kind are retired.
pub fn retirement_rule(kind: RowKind) -> (r: StatusRule)
    ensures
        texts_of(r.listed@) == listed(kind),
        r.changes_listed == changes_listed(kind),
        r.closing@ == closing_status(kind),
{
    let r = match kind {
        RowKind::Run => StatusRule {
            listed: vec!["pending", "running", "waiting_tool"],
            changes_listed: true,
            closing: "failed",
        },
        RowKind::Turn => StatusRule {
            listed: vec!["completed", "failed", "interrupted"],
            changes_listed: false,
            closing: "failed",
        },
        RowKind::Message => StatusRule {
            listed: vec!["queued", "deferred", "delivering"],
            changes_listed: true,
            closing: "failed",
        },
        RowKind::ToolRequest => StatusRule {
            listed: vec!["completed"],
            changes_listed: false,
            closing: "cancelled",
        },
    };
    assert(texts_of(r.listed@) =~= listed(kind));
    r
}

/// The rows whose status a step of archiving an agent changes.
pub open spec fn archived_rows(step: ArchiveStep) -> Option<RowKind> {
    match step {
        ArchiveStep::FailActiveRuns => Some(RowKind::Run),
        ArchiveStep::FailTurns => Some(RowKind::Turn),
        ArchiveStep::FailMessages => Some(RowKind::Message),
        ArchiveStep::CancelToolRequests => Some(RowKind::ToolRequest),
        _ => None,
    }
}

/// The rows whose status a step of archiving an agent changes.
pub fn rows_of_archive_step(step: ArchiveStep) -> (r: Option<RowKind>)
    ensures
        r == archived_rows(step),
{
    match step {
        ArchiveStep::FailActiveRuns => Some(RowKind::Run),
        ArchiveStep::FailTurns => Some(RowKind::Turn),
        ArchiveStep::FailMessages => Some(RowKind::Message),
        ArchiveStep::CancelToolRequests => Some(RowKind::ToolRequest),
        _ => None,
    }
}

/// The rows whose status a step of freezing a user changes.
pub open spec fn frozen_rows(step: FreezeStep) -> Option<RowKind> {
    match step {
        FreezeStep::FailActiveRuns => Some(RowKind::Run),
        FreezeStep::FailTurns => Some(RowKind::Turn),
        FreezeStep::FailMessages => Some(RowKind::Message),
        FreezeStep::CancelToolRequests => Some(RowKind::ToolRequest),
        _ => None,
    }
}

/// The rows whose status a step of freezing a user changes.
pub fn rows_of_freeze_step(step: FreezeStep) -> (r: Option<RowKind>)
    ensures
        r == frozen_rows(step),
{
    match step {
        FreezeStep::FailActiveRuns => Some(RowKind::Run),
        FreezeStep::FailTurns => Some(RowKind::Turn),
        FreezeStep::FailMessages => Some(RowKind::Message),
        FreezeStep::CancelToolRequests => Some(RowKind::ToolRequest),
        _ => None,
    }
}

// ---------------------------------------------------------------------------
// Laws
// ---------------------------------------------------------------------------

/// The status of a row after steps that change rows of these kinds.
pub open spec fn status_after_all(
    steps: Seq<Option<RowKind>>,
    kind: RowKind,
    status: Seq<char>,
) -> Seq<char>
    decreases steps.len(),
{
    if steps.len() == 0 {
        status
    } else {
        let before = status_after_all(steps.drop_last(), kind, status);
        if steps.last() == Some(kind) {
            status_after(kind, before)
        } else {
            before
        }
    }
}

/// The rows that the steps of archiving an agent change.
pub open spec fn archive_rows() -> Seq<Option<RowKind>> {
    Seq::new(archive_plan().len(), |i: int| archived_rows(archive_plan()[i]))
}

/// The rows that the steps of freezing a user change.
pub open spec fn freeze_rows() -> Seq<Option<RowKind>> {
    Seq::new(freeze_plan().len(), |i: int| frozen_rows(freeze_plan()[i]))
}

/// A row that was retired is closed, and retiring it again changes nothing.
pub proof fn retired_rows_are_closed(kind: RowKind, status: Seq<char>)
    ensures
        kind != RowKind::ToolRequest ==> !changes(kind, status_after(kind, status)),
        kind == RowKind::ToolRequest ==> status_after(kind, status) == "completed"@ || status_after(
            kind,
            status,
        ) == "cancelled"@,
        status_after(kind, status_after(kind, status)) == status_after(kind, status),
        !changes(kind, status) ==> status_after(kind, status) == status,
{
    reveal_strlit("failed");
    reveal_strlit("pending");
    reveal_strlit("running");
    reveal_strlit("waiting_tool");
    reveal_strlit("queued");
    reveal_strlit("deferred");
    reveal_strlit("delivering");
    let failed = "failed"@;
    assert(failed.len() == 6 && failed[0] == 'f');
    assert("queued"@[0] == 'q');
    assert(seq!["completed"@, "failed"@, "interrupted"@][1] == failed);
    assert(listed(RowKind::Turn).contains(failed));
    if listed(RowKind::ToolRequest).contains(status) {
        assert(status == "completed"@);
    }
    assert(listed(RowKind::ToolRequest)[0] == "completed"@);
}

proof fn lemma_status_after_all(steps: Seq<Option<RowKind>>, kind: RowKind, status: Seq<char>)
    ensures
        status_after_all(steps, kind, status) == if steps.contains(Some(kind)) {
            status_after(kind, status)
        } else {
            status
        },
    decreases steps.len(),
{
    if steps.len() > 0 {
        let rest = steps.drop_last();
        lemma_status_after_all(rest, kind, status);
        retired_rows_are_closed(kind, status);
        if steps.last() == Some(kind) {
            assert(steps[steps.len() - 1] == Some(kind));
        } else if steps.contains(Some(kind)) {
            let i = choose|i: int| 0 <= i < steps.len() && steps[i] == Some(kind);
            assert(rest[i] == Some(kind));
        }
        if rest.contains(Some(kind)) {
            let i = choose|i: int| 0 <= i < rest.len() && rest[i] == Some(kind);
            assert(steps[i] == Some(kind));
        }
    }
}

/// Once an agent is archived, or a user frozen, none of the runs, turns,
/// messages and tool requests in question is open any more, and those that
/// were closed before are as they were.
pub proof fn nothing_stays_open(kind: RowKind, status: Seq<char>)
    ensures
        status_after_all(archive_rows(), kind, status) == status_after(kind, status),
        status_after_all(freeze_rows(), kind, status) == status_after(kind, status),
{
    lemma_status_after_all(archive_rows(), kind, status);
    lemma_status_after_all(freeze_rows(), kind, status);
    assert(archive_rows()[6] == Some(RowKind::ToolRequest));
    assert(archive_rows()[7] == Some(RowKind::Run));
    assert(archive_rows()[10] == Some(RowKind::Turn));
    assert(archive_rows()[11] == Some(RowKind::Message));
    assert(freeze_rows()[17] == Some(RowKind::ToolRequest));
    assert(freeze_rows()[18] == Some(RowKind::Run));
    assert(freeze_rows()[20] == Some(RowKind::Turn));
    assert(freeze_rows()[21] == Some(RowKind::Message));
}

/// Retiring fails the runs and messages that are on their way and the turns
/// that are not over, and cancels the requests that have no result.
pub proof fn open_rows_are_closed(status: Seq<char>)
    ensures
        changes(RowKind::Run, status) <==> status == "pending"@ || status == "running"@ || status
            == "waiting_tool"@,
        changes(RowKind::Turn, status) <==> status != "completed"@ && status != "failed"@ && status
            != "interrupted"@,
        changes(RowKind::Message, status) <==> status == "queued"@ || status == "deferred"@
            || status == "delivering"@,
        changes(RowKind::ToolRequest, status) <==> status != "completed"@,
        changes(RowKind::Run, status) ==> status_after(RowKind::Run, status) == "failed"@,
        changes(RowKind::Turn, status) ==> status_after(RowKind::Turn, status) == "failed"@,
        changes(RowKind::Message, status) ==> status_after(RowKind::Message, status) == "failed"@,
        changes(RowKind::ToolRequest, status) ==> status_after(RowKind::ToolRequest, status)
            == "cancelled"@,
{
    let runs = listed(RowKind::Run);
    let turns = listed(RowKind::Turn);
    let messages = listed(RowKind::Message);
    let requests = listed(RowKind::ToolRequest);
    assert(runs[0] == "pending"@ && runs[1] == "running"@ && runs[2] == "waiting_tool"@);
    assert(turns[0] == "completed"@ && turns[1] == "failed"@ && turns[2] == "interrupted"@);
    assert(messages[0] == "queued"@ && messages[1] == "deferred"@ && messages[2]
        == "delivering"@);
    assert(requests[0] == "completed"@);
}

/// The rows of a step are those it is named after, when an agent is archived
/// and when a user is frozen.
pub proof fn steps_close_their_own_rows(a: ArchiveStep, f: FreezeStep)
    ensures
        archived_rows(a) == Some(RowKind::Run) <==> a == ArchiveStep::FailActiveRuns,
        archived_rows(a) == Some(RowKind::Turn) <==> a == ArchiveStep::FailTurns,
        archived_rows(a) == Some(RowKind::Message) <==> a == ArchiveStep::FailMessages,
        archived_rows(a) == Some(RowKind::ToolRequest) <==> a == ArchiveStep::CancelToolRequests,
        frozen_rows(f) == Some(RowKind::Run) <==> f == FreezeStep::FailActiveRuns,
        frozen_rows(f) == Some(RowKind::Turn) <==> f == FreezeStep::FailTurns,
        frozen_rows(f) == Some(RowKind::Message) <==> f == FreezeStep::FailMessages,
        frozen_rows(f) == Some(RowKind::ToolRequest) <==> f == FreezeStep::CancelToolRequests,
{
}

} // verus!
