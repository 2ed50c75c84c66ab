//! Starting a run from the console, changing an agent, and archiving one.

use crate::agent::Subagent;
use crate::error::{refusal, refuse, Refusal, Status};
use crate::identity::{administers, is_admin_role, Role};
use crate::ids::Id;
use crate::model_settings::{overrides_nothing, says_nothing};
use crate::text::same;
use vstd::prelude::*;

verus! {

// ---------------------------------------------------------------------------
// Starting a run
// ---------------------------------------------------------------------------

/// What a request for a run continues, if anything.
#[derive(Clone, Copy, Debug, PartialEq, Eq, Structural)]
pub struct RunRequest {
    pub hub_session_id: Option<Id>,
    pub parent_run_id: Option<Id>,
}

/// How far a request for a run has come.
#[derive(Clone, Copy, Debug, PartialEq, Eq, Structural)]
pub enum RunState {
    /// Waits for the origin of the session that is to be continued.
    Origin,
    /// Waits for the agent.
    Agent,
    /// Waits for the secrets that the user has not granted.
    Grants,
    /// Waits for the session of the run that is to be continued.
    ParentSession,
    /// Waits for the session, locked.
    Session(Id),
    /// Waits for the agent to be ready, for this session or a new one.
    Readiness(Option<Id>),
    /// Waits for the new session.
    NewSession,
    /// Waits for the message to be accepted, in a new session or not.
    Acceptance(bool),
    Closed,
}

/// What was found, or done.
#[derive(Debug)]
pub enum RunEvent {
    /// The session was started in the hub, or elsewhere, or is not the
    /// user's.
    OriginIs(Option<bool>),
    AgentLoaded,
    /// The secrets that are not granted.
    MissingGrants(Vec<String>),
    ParentSessionIs(Option<Id>),
    /// As `OriginIs`, of the session that will be used.
    SessionIs(Option<bool>),
    AgentReady,
    SessionCreated(Id),
    /// The message was accepted: with a run or without.
    Accepted(bool),
}

/// What to do next.
#[derive(Debug)]
pub enum RunAction {
    FindSessionOrigin(Id),
    FindParentOrigin(Id),
    LoadAgent,
    FindMissingGrants,
    FindParentSession(Id),
    FindSession(Id),
    RequireReadyAgent,
    CreateSession,
    /// Accept the message into this session.
    Accept(Id),
    /// The run is started; a new session gets a title.
    Finish { make_title: bool },
    /// Ask for the secrets that the agent needs and that are not granted.
    AskForGrants(Vec<String>),
    Refuse(Refusal),
}

/// Where a step leads.
pub type RunStep = (RunState, RunAction);

/// A refusal that ends the request.
pub open spec fn run_refused(status: Status, message: &'static str) -> RunStep {
    (RunState::Closed, RunAction::Refuse(refusal(status, message)))
}

/// The event answers what the state waits for.
pub open spec fn run_expects(state: RunState, event: RunEvent) -> bool {
    match state {
        RunState::Origin => event is OriginIs,
        RunState::Agent => event is AgentLoaded,
        RunState::Grants => event is MissingGrants,
        RunState::ParentSession => event is ParentSessionIs,
        RunState::Session(_) => event is SessionIs,
        RunState::Readiness(_) => event is AgentReady,
        RunState::NewSession => event is SessionCreated,
        RunState::Acceptance(_) => event is Accepted,
        RunState::Closed => false,
    }
}

/// A request that continues something starts with where that came from.
pub open spec fn run_start(request: RunRequest) -> RunStep {
    match (request.hub_session_id, request.parent_run_id) {
        (Some(session), _) => (RunState::Origin, RunAction::FindSessionOrigin(session)),
        (None, Some(parent)) => (RunState::Origin, RunAction::FindParentOrigin(parent)),
        (None, None) => (RunState::Agent, RunAction::LoadAgent),
    }
}

/// The session to use: the one named, that of the run named, or a new one.
pub open spec fn run_session(request: RunRequest) -> RunStep {
    match (request.hub_session_id, request.parent_run_id) {
        (Some(session), _) => (RunState::Session(session), RunAction::FindSession(session)),
        (None, Some(parent)) => (RunState::ParentSession, RunAction::FindParentSession(parent)),
        (None, None) => (RunState::Readiness(None), RunAction::RequireReadyAgent),
    }
}

/// What follows what was found. Sessions that were started elsewhere are
/// read-only in the console.
pub open spec fn run_next(request: RunRequest, state: RunState, event: RunEvent) -> RunStep {
    match (state, event) {
        (RunState::Origin, RunEvent::OriginIs(native)) => if native == Some(false) {
            run_refused(Status::Conflict, "External Sessions are read-only in the Hub console")
        } else {
            (RunState::Agent, RunAction::LoadAgent)
        },
        (RunState::Agent, _) => (RunState::Grants, RunAction::FindMissingGrants),
        (RunState::Grants, RunEvent::MissingGrants(secrets)) => if secrets@.len() > 0 {
            (RunState::Closed, RunAction::AskForGrants(secrets))
        } else {
            run_session(request)
        },
        (RunState::ParentSession, RunEvent::ParentSessionIs(session)) => match session {
            Some(s) => (RunState::Session(s), RunAction::FindSession(s)),
            None => run_refused(Status::BadRequest, "resume parent run is not available"),
        },
        (RunState::Session(session), RunEvent::SessionIs(native)) => match native {
            Some(true) => (RunState::Readiness(Some(session)), RunAction::RequireReadyAgent),
            Some(false) => run_refused(
                Status::Conflict,
                "External Sessions are read-only in the Hub console",
            ),
            None => run_refused(Status::BadRequest, "Session is not available"),
        },
        (RunState::Readiness(Some(session)), _) => (
            RunState::Acceptance(false),
            RunAction::Accept(session),
        ),
        (RunState::Readiness(None), _) => (RunState::NewSession, RunAction::CreateSession),
        (RunState::NewSession, RunEvent::SessionCreated(session)) => (
            RunState::Acceptance(true),
            RunAction::Accept(session),
        ),
        (RunState::Acceptance(new_session), RunEvent::Accepted(true)) => (
            RunState::Closed,
            RunAction::Finish { make_title: new_session },
        ),
        _ => run_refused(Status::Internal, "console message did not schedule a run"),
    }
}

/// The start of a request for a run.
pub fn begin_run(request: RunRequest) -> (r: RunStep)
    ensures
        r == run_start(request),
{
    match (request.hub_session_id, request.parent_run_id) {
        (Some(session), _) => (RunState::Origin, RunAction::FindSessionOrigin(session)),
        (None, Some(parent)) => (RunState::Origin, RunAction::FindParentOrigin(parent)),
        (None, None) => (RunState::Agent, RunAction::LoadAgent),
    }
}

fn stop_run(status: Status, message: &'static str) -> (r: RunStep)
    ensures
        r == run_refused(status, message),
{
    (RunState::Closed, RunAction::Refuse(refuse(status, message)))
}

/// Takes a request for a run one step on.
pub fn create_run(request: RunRequest, state: RunState, event: RunEvent) -> (r: RunStep)
    requires
        run_expects(state, event),
    ensures
        r == run_next(request, state, event),
{
    match (state, event) {
        (RunState::Origin, RunEvent::OriginIs(native)) => match native {
            Some(false) => stop_run(
                Status::Conflict,
                "External Sessions are read-only in the Hub console",
            ),
            _ => (RunState::Agent, RunAction::LoadAgent),
        },
        (RunState::Agent, _) => (RunState::Grants, RunAction::FindMissingGrants),
        (RunState::Grants, RunEvent::MissingGrants(secrets)) => {
            if secrets.len() > 0 {
                return (RunState::Closed, RunAction::AskForGrants(secrets));
            }
            match (request.hub_session_id, request.parent_run_id) {
                (Some(session), _) => (
                    RunState::Session(session),
                    RunAction::FindSession(session),
                ),
                (None, Some(parent)) => (
                    RunState::ParentSession,
                    RunAction::FindParentSession(parent),
                ),
                (None, None) => (RunState::Readiness(None), RunAction::RequireReadyAgent),
            }
        },
        (RunState::ParentSession, RunEvent::ParentSessionIs(session)) => match session {
            Some(s) => (RunState::Session(s), RunAction::FindSession(s)),
            None => stop_run(Status::BadRequest, "resume parent run is not available"),
        },
        (RunState::Session(session), RunEvent::SessionIs(native)) => match native {
            Some(true) => (RunState::Readiness(Some(session)), RunAction::RequireReadyAgent),
            Some(false) => stop_run(
                Status::Conflict,
                "External Sessions are read-only in the Hub console",
            ),
            None => stop_run(Status::BadRequest, "Session is not available"),
        },
        (RunState::Readiness(Some(session)), _) => (
            RunState::Acceptance(false),
            RunAction::Accept(session),
        ),
        (RunState::Readiness(None), _) => (RunState::NewSession, RunAction::CreateSession),
        (RunState::NewSession, RunEvent::SessionCreated(session)) => (
            RunState::Acceptance(true),
            RunAction::Accept(session),
        ),
        (RunState::Acceptance(new_session), RunEvent::Accepted(true)) => (
            RunState::Closed,
            RunAction::Finish { make_title: new_session },
        ),
        _ => stop_run(Status::Internal, "console message did not schedule a run"),
    }
}

/// The step that a history of events leads to.
pub open spec fn run_history_step(request: RunRequest, events: Seq<RunEvent>) -> RunStep
    decreases events.len(),
{
    if events.len() == 0 {
        run_start(request)
    } else {
        run_next(request, run_history_step(request, events.drop_last()).0, events.last())
    }
}

/// Each event answers what the state before it waits for.
pub open spec fn run_history(request: RunRequest, events: Seq<RunEvent>) -> bool
    decreases events.len(),
{
    events.len() == 0 || (run_history(request, events.drop_last()) && run_expects(
        run_history_step(request, events.drop_last()).0,
        events.last(),
    ))
}

/// The event says that nothing is left to be granted.
pub open spec fn nothing_missing(event: RunEvent) -> bool {
    event matches RunEvent::MissingGrants(secrets) && secrets@.len() == 0
}

/// An event said that nothing is left to be granted.
pub open spec fn granted(events: Seq<RunEvent>) -> bool {
    exists|i: int| 0 <= i < events.len() && nothing_missing(#[trigger] events[i])
}

/// An event said that the session in question was started in the hub.
pub open spec fn native(events: Seq<RunEvent>) -> bool {
    exists|i: int| 0 <= i < events.len() && #[trigger] events[i] == RunEvent::SessionIs(Some(true))
}

/// What the states say of the events that led to them.
pub open spec fn run_explained(request: RunRequest, events: Seq<RunEvent>, step: RunStep) -> bool {
    let fresh = request.hub_session_id is None && request.parent_run_id is None;
    match step.0 {
        RunState::ParentSession => granted(events) && request.hub_session_id is None
            && request.parent_run_id is Some,
        RunState::Session(s) => granted(events) && !fresh && (request.hub_session_id is Some
            ==> request.hub_session_id == Some(s)),
        RunState::Readiness(Some(s)) => granted(events) && native(events) && !fresh && (
        request.hub_session_id is Some ==> request.hub_session_id == Some(s)),
        RunState::Readiness(None) => granted(events) && fresh,
        RunState::NewSession => granted(events) && fresh,
        RunState::Acceptance(new_session) => granted(events) && new_session == fresh && (
        !new_session ==> native(events)),
        _ => true,
    }
}

proof fn lemma_run_explained(request: RunRequest, events: Seq<RunEvent>)
    requires
        run_history(request, events),
    ensures
        run_explained(request, events, run_history_step(request, events)),
    decreases events.len(),
{
    if events.len() > 0 {
        let before = events.drop_last();
        lemma_run_explained(request, before);
        assert(events.last() == events[events.len() - 1]);
        if granted(before) {
            let i = choose|i: int|
                0 <= i < before.len() && nothing_missing(#[trigger] before[i]);
            assert(nothing_missing(events[i]));
        }
        if native(before) {
            let i = choose|i: int|
                0 <= i < before.len() && #[trigger] before[i] == RunEvent::SessionIs(Some(true));
            assert(events[i] == RunEvent::SessionIs(Some(true)));
        }
        if nothing_missing(events.last()) {
            assert(nothing_missing(events[events.len() - 1]));
        }
        if events.last() == RunEvent::SessionIs(Some(true)) {
            assert(events[events.len() - 1] == RunEvent::SessionIs(Some(true)));
        }
    }
}

/// A message from the console is accepted only with every secret granted, and
/// only into the session that the request names, or into one of the hub's own
/// sessions, or into a new one; only a new session gets a title.
pub proof fn console_messages_stay_in_hub_sessions(request: RunRequest, events: Seq<RunEvent>)
    requires
        events.len() > 0,
        run_history(request, events),
    ensures
        match run_history_step(request, events).1 {
            RunAction::Accept(session) => granted(events) && (if request.hub_session_id is None
                && request.parent_run_id is None {
                events.last() == RunEvent::SessionCreated(session)
            } else {
                native(events) && (request.hub_session_id is Some ==> request.hub_session_id
                    == Some(session))
            }),
            RunAction::Finish { make_title } => make_title == (request.hub_session_id is None
                && request.parent_run_id is None),
            _ => true,
        },
{
    lemma_run_explained(request, events);
    lemma_run_explained(request, events.drop_last());
}

// ---------------------------------------------------------------------------
// Changing an agent
// ---------------------------------------------------------------------------

/// The steps of changing an agent.
#[derive(Clone, Copy, Debug, PartialEq, Eq, Structural)]
pub enum UpdateStep {
    CheckPayload,
    CheckRuntime,
    CheckSkills,
    CheckSubagents,
    CheckVisibility,
    CheckAudience,
    CheckModels,
    CheckAdminModels,
    StoreAgent,
    RefreshSessions,
    ReplaceSkills,
    ReplaceSubagents,
    ReplaceDeclarations,
}

/// A step, or none.
pub open spec fn step_if(condition: bool, step: UpdateStep) -> Seq<UpdateStep> {
    if condition {
        seq![step]
    } else {
        seq![]
    }
}

/// The steps of changing an agent: everything is checked before anything is
/// stored; a runtime is checked where one is named, models chosen for somebody
/// else's agent where an administrator who is no super administrator does, and
/// sessions are refreshed where their runs change.
pub open spec fn update_plan(
    names_runtime: bool,
    is_owner: bool,
    role: Role,
    changes_runs: bool,
) -> Seq<UpdateStep> {
    seq![UpdateStep::CheckPayload] + step_if(names_runtime, UpdateStep::CheckRuntime) + seq![
        UpdateStep::CheckSkills,
        UpdateStep::CheckSubagents,
        UpdateStep::CheckVisibility,
        UpdateStep::CheckAudience,
        UpdateStep::CheckModels,
    ] + step_if(!is_owner && role != Role::SuperAdmin, UpdateStep::CheckAdminModels) + seq![
        UpdateStep::StoreAgent,
    ] + step_if(changes_runs, UpdateStep::RefreshSessions) + seq![
        UpdateStep::ReplaceSkills,
        UpdateStep::ReplaceSubagents,
        UpdateStep::ReplaceDeclarations,
    ]
}

/// The steps of changing an agent.
pub fn update_agent(names_runtime: bool, is_owner: bool, role: Role, changes_runs: bool) -> (r: Vec<
    UpdateStep,
>)
    ensures
        r@ == update_plan(names_runtime, is_owner, role, changes_runs),
{
    let mut plan: Vec<UpdateStep> = Vec::new();
    plan.push(UpdateStep::CheckPayload);
    if names_runtime {
        plan.push(UpdateStep::CheckRuntime);
    }
    plan.push(UpdateStep::CheckSkills);
    plan.push(UpdateStep::CheckSubagents);
    plan.push(UpdateStep::CheckVisibility);
    plan.push(UpdateStep::CheckAudience);
    plan.push(UpdateStep::CheckModels);
    if !is_owner && role != Role::SuperAdmin {
        plan.push(UpdateStep::CheckAdminModels);
    }
    plan.push(UpdateStep::StoreAgent);
    if changes_runs {
        plan.push(UpdateStep::RefreshSessions);
    }
    plan.push(UpdateStep::ReplaceSkills);
    plan.push(UpdateStep::ReplaceSubagents);
    plan.push(UpdateStep::ReplaceDeclarations);
    assert(plan@ =~= update_plan(names_runtime, is_owner, role, changes_runs));
    plan
}

/// A step that only checks.
pub open spec fn checks_only(step: UpdateStep) -> bool {
    match step {
        UpdateStep::StoreAgent | UpdateStep::RefreshSessions | UpdateStep::ReplaceSkills
        | UpdateStep::ReplaceSubagents | UpdateStep::ReplaceDeclarations => false,
        _ => true,
    }
}

/// Nothing of an agent is stored before every check has passed.
pub proof fn changes_are_checked_first(
    names_runtime: bool,
    is_owner: bool,
    role: Role,
    changes_runs: bool,
    i: int,
    j: int,
)
    requires
        0 <= i < update_plan(names_runtime, is_owner, role, changes_runs).len(),
        0 <= j < update_plan(names_runtime, is_owner, role, changes_runs).len(),
        checks_only(update_plan(names_runtime, is_owner, role, changes_runs)[i]),
        !checks_only(update_plan(names_runtime, is_owner, role, changes_runs)[j]),
    ensures
        i < j,
{
}

/// Storing an agent must have changed exactly the one that is there.
pub open spec fn store_outcome(rows: u64) -> Result<(), Refusal> {
    if rows == 0 {
        Err(refusal(Status::NotFound, "agent not found"))
    } else {
        Ok(())
    }
}

/// Checks that an agent was stored.
pub fn check_agent_stored(rows: u64) -> (r: Result<(), Refusal>)
    ensures
        r == store_outcome(rows),
{
    if rows == 0 {
        return Err(refuse(Status::NotFound, "agent not found"));
    }
    Ok(())
}

/// The protocol of a subagent is not the agent's.
pub open spec fn brings_protocol(
    has_selection: bool,
    protocol: Seq<char>,
    parent: Seq<char>,
) -> bool {
    has_selection && protocol != parent
}

/// Tells whether a subagent's own model brings another protocol than the
/// agent has.
pub fn protocol_changed(has_selection: bool, protocol: &str, parent: &str) -> (r: bool)
    ensures
        r == brings_protocol(has_selection, protocol@, parent@),
{
    has_selection && !same(protocol, parent)
}

/// A subagent that runs with a model of its own: it is enabled, and chooses a
/// model or changes a setting.
pub open spec fn own_binding(s: Subagent) -> bool {
    s.enabled && (s.model_selection is Some || !says_nothing(s.overrides))
}

/// Tells whether a subagent runs with a model of its own.
pub fn needs_own_binding(s: &Subagent) -> (r: bool)
    ensures
        r == own_binding(*s),
{
    s.enabled && (s.model_selection.is_some() || !overrides_nothing(&s.overrides))
}

// ---------------------------------------------------------------------------
// Archiving an agent
// ---------------------------------------------------------------------------

/// What is known of an agent that is to be archived.
#[derive(Clone, Copy, Debug, PartialEq, Eq, Structural)]
pub struct StoredAgent {
    pub owner_id: Id,
    pub archived: bool,
}

/// The steps that archive an agent, in their order.
#[derive(Clone, Copy, Debug, PartialEq, Eq, Structural)]
pub enum ArchiveStep {
    QueueBundles,
    DetachApps,
    DeleteSkills,
    DeleteSubagents,
    DeleteAutomations,
    DeleteEmbedSessions,
    CancelToolRequests,
    FailActiveRuns,
    ClearRunSecrets,
    NoteFailedRuns,
    FailTurns,
    FailMessages,
    LockRuntimes,
    RecordWorkspaceCleanups,
    RetireHubSessions,
    RetireAgent,
}

/// The archiving steps in their order.
pub open spec fn archive_plan() -> Seq<ArchiveStep> {
    seq![
        ArchiveStep::QueueBundles,
        ArchiveStep::DetachApps,
        ArchiveStep::DeleteSkills,
        ArchiveStep::DeleteSubagents,
        ArchiveStep::DeleteAutomations,
        ArchiveStep::DeleteEmbedSessions,
        ArchiveStep::CancelToolRequests,
        ArchiveStep::FailActiveRuns,
        ArchiveStep::ClearRunSecrets,
        ArchiveStep::NoteFailedRuns,
        ArchiveStep::FailTurns,
        ArchiveStep::FailMessages,
        ArchiveStep::LockRuntimes,
        ArchiveStep::RecordWorkspaceCleanups,
        ArchiveStep::RetireHubSessions,
        ArchiveStep::RetireAgent,
    ]
}

/// The archiving of an agent: by its owner or an administrator; one that is
/// archived already has nothing left to do.
pub open spec fn archiving(agent: Option<StoredAgent>, user_id: Id, role: Role) -> Result<
    Seq<ArchiveStep>,
    Refusal,
> {
    match agent {
        None => Err(refusal(Status::NotFound, "agent not found")),
        Some(a) => if a.owner_id != user_id && !administers(role) {
            Err(refusal(Status::Forbidden, "agent management permission is required"))
        } else if a.archived {
            Ok(seq![])
        } else {
            Ok(archive_plan())
        },
    }
}

/// The steps that archive an agent, or why it cannot be.
pub fn delete_agent(agent: Option<StoredAgent>, user_id: Id, role: Role) -> (r: Result<
    Vec<ArchiveStep>,
    Refusal,
>)
    ensures
        match r {
            Ok(plan) => archiving(agent, user_id, role) == Ok::<Seq<ArchiveStep>, Refusal>(plan@),
            Err(e) => archiving(agent, user_id, role) == Err::<Seq<ArchiveStep>, Refusal>(e),
        },
{
    let stored = match agent {
        None => {
            return Err(refuse(Status::NotFound, "agent not found"));
        },
        Some(stored) => stored,
    };
    if stored.owner_id != user_id && !is_admin_role(role) {
        return Err(refuse(Status::Forbidden, "agent management permission is required"));
    }
    if stored.archived {
        let none: Vec<ArchiveStep> = Vec::new();
        assert(none@ =~= Seq::<ArchiveStep>::empty());
        return Ok(none);
    }
    let plan = vec![
        ArchiveStep::QueueBundles,
        ArchiveStep::DetachApps,
        ArchiveStep::DeleteSkills,
        ArchiveStep::DeleteSubagents,
        ArchiveStep::DeleteAutomations,
        ArchiveStep::DeleteEmbedSessions,
        ArchiveStep::CancelToolRequests,
        ArchiveStep::FailActiveRuns,
        ArchiveStep::ClearRunSecrets,
        ArchiveStep::NoteFailedRuns,
        ArchiveStep::FailTurns,
        ArchiveStep::FailMessages,
        ArchiveStep::LockRuntimes,
        ArchiveStep::RecordWorkspaceCleanups,
        ArchiveStep::RetireHubSessions,
        ArchiveStep::RetireAgent,
    ];
    assert(plan@ =~= archive_plan());
    Ok(plan)
}

/// Archiving an agent again changes nothing, and nobody but the owner and
/// administrators archives one.
pub proof fn archiving_happens_once(agent: StoredAgent, user_id: Id, role: Role)
    ensures
        archiving(Some(StoredAgent { archived: true, ..agent }), user_id, role) matches Ok(plan)
            ==> plan.len() == 0,
        archiving(Some(agent), user_id, role) is Ok ==> agent.owner_id == user_id || administers(
            role,
        ),
{
}

/// How far the deletion of queued bundles has come.
#[derive(Clone, Copy, Debug, PartialEq, Eq, Structural)]
pub enum CleanupState {
    /// Waits for the queue.
    Listing,
    /// Waits for the deletion of the bundle at this place, of so many; one
    /// before it failed or none did.
    Deleting { at: usize, count: usize, failed: bool },
    Closed,
}

/// What was found, or done.
#[derive(Clone, Copy, Debug, PartialEq, Eq, Structural)]
pub enum CleanupEvent {
    /// So many bundles are queued, and the store is there or not.
    Listed { count: usize, store_configured: bool },
    /// The bundle was deleted, and its entry with it.
    Deleted,
    /// The bundle could not be deleted, and that was noted.
    DeleteFailed,
}

/// What to do next.
#[derive(Clone, Copy, Debug)]
pub enum CleanupAction {
    List,
    Delete(usize),
    Finish,
    Refuse(Refusal),
}

/// Where a step leads.
pub type CleanupStep = (CleanupState, CleanupAction);

/// The event answers what the state waits for.
pub open spec fn cleanup_expects(state: CleanupState, event: CleanupEvent) -> bool {
    match state {
        CleanupState::Listing => event is Listed,
        CleanupState::Deleting { at, count, .. } => at < count && (event is Deleted || event
            is DeleteFailed),
        CleanupState::Closed => false,
    }
}

/// What comes after the bundle at `at`: the next, or the end.
pub open spec fn cleanup_after(at: int, count: usize, failed: bool) -> CleanupStep {
    if at + 1 < count {
        (
            CleanupState::Deleting { at: (at + 1) as usize, count, failed },
            CleanupAction::Delete((at + 1) as usize),
        )
    } else if failed {
        (
            CleanupState::Closed,
            CleanupAction::Refuse(
                refusal(
                    Status::BadGateway,
                    "failed to delete one or more Session Bundle objects",
                ),
            ),
        )
    } else {
        (CleanupState::Closed, CleanupAction::Finish)
    }
}

/// What follows: every bundle is tried, whatever became of the ones before,
/// and a failure is reported in the end.
pub open spec fn cleanup_next(state: CleanupState, event: CleanupEvent) -> CleanupStep {
    match (state, event) {
        (CleanupState::Listing, CleanupEvent::Listed { count, store_configured }) => if count
            == 0 {
            (CleanupState::Closed, CleanupAction::Finish)
        } else if !store_configured {
            (
                CleanupState::Closed,
                CleanupAction::Refuse(
                    refusal(
                        Status::ServiceUnavailable,
                        "Session Bundle object storage is not configured",
                    ),
                ),
            )
        } else {
            (CleanupState::Deleting { at: 0, count, failed: false }, CleanupAction::Delete(0))
        },
        (CleanupState::Deleting { at, count, failed }, CleanupEvent::Deleted) => cleanup_after(
            at as int,
            count,
            failed,
        ),
        (CleanupState::Deleting { at, count, .. }, CleanupEvent::DeleteFailed) => cleanup_after(
            at as int,
            count,
            true,
        ),
        _ => (CleanupState::Closed, CleanupAction::Finish),
    }
}

/// The start of the deletion of queued bundles.
pub fn begin_bundle_cleanup() -> (r: CleanupStep)
    ensures
        r == (CleanupState::Listing, CleanupAction::List),
        r == cleanup_run(seq![]),
{
    (CleanupState::Listing, CleanupAction::List)
}

fn after_bundle(at: usize, count: usize, failed: bool) -> (r: CleanupStep)
    requires
        at < count,
    ensures
        r == cleanup_after(at as int, count, failed),
{
    if at + 1 < count {
        (
            CleanupState::Deleting { at: at + 1, count, failed },
            CleanupAction::Delete(at + 1),
        )
    } else if failed {
        (
            CleanupState::Closed,
            CleanupAction::Refuse(
                refuse(Status::BadGateway, "failed to delete one or more Session Bundle objects"),
            ),
        )
    } else {
        (CleanupState::Closed, CleanupAction::Finish)
    }
}

/// Takes the deletion of queued bundles one step on.
pub fn delete_queued_agent_bundles(state: CleanupState, event: CleanupEvent) -> (r: CleanupStep)
    requires
        cleanup_expects(state, event),
    ensures
        r == cleanup_next(state, event),
{
    match (state, event) {
        (CleanupState::Listing, CleanupEvent::Listed { count, store_configured }) => {
            if count == 0 {
                (CleanupState::Closed, CleanupAction::Finish)
            } else if !store_configured {
                (
                    CleanupState::Closed,
                    CleanupAction::Refuse(
                        refuse(
                            Status::ServiceUnavailable,
                            "Session Bundle object storage is not configured",
                        ),
                    ),
                )
            } else {
                (
                    CleanupState::Deleting { at: 0, count, failed: false },
                    CleanupAction::Delete(0),
                )
            }
        },
        (CleanupState::Deleting { at, count, failed }, CleanupEvent::Deleted) => after_bundle(
            at,
            count,
            failed,
        ),
        (CleanupState::Deleting { at, count, .. }, CleanupEvent::DeleteFailed) => after_bundle(
            at,
            count,
            true,
        ),
        _ => (CleanupState::Closed, CleanupAction::Finish),
    }
}

/// The step that a history of a cleanup leads to.
pub open spec fn cleanup_run(events: Seq<CleanupEvent>) -> CleanupStep
    decreases events.len(),
{
    if events.len() == 0 {
        (CleanupState::Listing, CleanupAction::List)
    } else {
        cleanup_next(cleanup_run(events.drop_last()).0, events.last())
    }
}

/// Each event answers what the state before it waits for.
pub open spec fn cleanup_history(events: Seq<CleanupEvent>) -> bool
    decreases events.len(),
{
    events.len() == 0 || (cleanup_history(events.drop_last()) && cleanup_expects(
        cleanup_run(events.drop_last()).0,
        events.last(),
    ))
}

/// One of the deletions failed.
pub open spec fn some_failed(events: Seq<CleanupEvent>) -> bool {
    exists|i: int| 0 <= i < events.len() && #[trigger] events[i] == CleanupEvent::DeleteFailed
}

proof fn lemma_cleanup(events: Seq<CleanupEvent>)
    requires
        cleanup_history(events),
    ensures
        cleanup_run(events).0 is Listing ==> events.len() == 0,
        match cleanup_run(events).0 {
            CleanupState::Deleting { at, count, failed } => {
                &&& events.len() == at + 1
                &&& at < count
                &&& failed == some_failed(events)
                &&& events[0] == (CleanupEvent::Listed { count, store_configured: true })
            },
            _ => true,
        },
        cleanup_run(events).0 is Closed && events.len() > 1 ==> {
            &&& events[0] == (CleanupEvent::Listed {
                count: (events.len() - 1) as usize,
                store_configured: true,
            })
            &&& events.len() - 1 <= usize::MAX
            &&& cleanup_run(events).1 is Finish <==> !some_failed(events)
        },
    decreases events.len(),
{
    if events.len() > 0 {
        let before = events.drop_last();
        lemma_cleanup(before);
        assert(events.last() == events[events.len() - 1]);
        if before.len() > 0 {
            assert(events[0] == before[0]);
        }
        if some_failed(before) {
            let i = choose|i: int|
                0 <= i < before.len() && #[trigger] before[i] == CleanupEvent::DeleteFailed;
            assert(events[i] == CleanupEvent::DeleteFailed);
        }
        if some_failed(events) {
            let i = choose|i: int|
                0 <= i < events.len() && #[trigger] events[i] == CleanupEvent::DeleteFailed;
            if i < before.len() {
                assert(before[i] == CleanupEvent::DeleteFailed);
            }
        }
    }
}

/// Every queued bundle is tried once, whatever became of the others, and the
/// cleanup succeeds just where none of them failed.
pub proof fn every_bundle_is_tried(events: Seq<CleanupEvent>)
    requires
        cleanup_history(events),
        cleanup_run(events).0 is Closed,
        events.len() > 1,
    ensures
        events[0] == (CleanupEvent::Listed {
            count: (events.len() - 1) as usize,
            store_configured: true,
        }),
        cleanup_run(events).1 is Finish <==> !some_failed(events),
{
    lemma_cleanup(events);
}

/// What `a` does must be done before `b`: what is under way is ended before its
/// session is retired, and everything that belongs to the agent before the
/// agent.
pub open spec fn archived_first(a: ArchiveStep, b: ArchiveStep) -> bool {
    match b {
        ArchiveStep::NoteFailedRuns => a == ArchiveStep::FailActiveRuns,
        ArchiveStep::RecordWorkspaceCleanups => a == ArchiveStep::LockRuntimes,
        ArchiveStep::RetireHubSessions => a == ArchiveStep::QueueBundles || a == ArchiveStep::CancelToolRequests || a == ArchiveStep::FailActiveRuns || a == ArchiveStep::FailTurns || a == ArchiveStep::FailMessages || a == ArchiveStep::LockRuntimes || a == ArchiveStep::RecordWorkspaceCleanups,
        ArchiveStep::RetireAgent => a == ArchiveStep::DetachApps || a == ArchiveStep::DeleteSkills || a == ArchiveStep::DeleteSubagents || a == ArchiveStep::DeleteAutomations || a == ArchiveStep::DeleteEmbedSessions || a == ArchiveStep::FailActiveRuns || a == ArchiveStep::RetireHubSessions,
        _ => false,
    }
}

/// The place of a step in the archiving of an agent.
pub open spec fn archive_rank(step: ArchiveStep) -> int {
    match step {
        ArchiveStep::QueueBundles => 0,
        ArchiveStep::DetachApps => 1,
        ArchiveStep::DeleteSkills => 2,
        ArchiveStep::DeleteSubagents => 3,
        ArchiveStep::DeleteAutomations => 4,
        ArchiveStep::DeleteEmbedSessions => 5,
        ArchiveStep::CancelToolRequests => 6,
        ArchiveStep::FailActiveRuns => 7,
        ArchiveStep::ClearRunSecrets => 8,
        ArchiveStep::NoteFailedRuns => 9,
        ArchiveStep::FailTurns => 10,
        ArchiveStep::FailMessages => 11,
        ArchiveStep::LockRuntimes => 12,
        ArchiveStep::RecordWorkspaceCleanups => 13,
        ArchiveStep::RetireHubSessions => 14,
        ArchiveStep::RetireAgent => 15,
    }
}

/// Archiving an agent leaves out nothing and does nothing twice, and ends with
/// the agent.
pub proof fn archiving_is_complete(step: ArchiveStep, a: ArchiveStep, b: ArchiveStep)
    ensures
        exists|i: int|
            0 <= i < archive_plan().len() && #[trigger] archive_plan()[i] == step && forall|j: int|
                0 <= j < archive_plan().len() && #[trigger] archive_plan()[j] == step ==> j == i,
        archived_first(a, b) ==> forall|i: int, j: int|
            0 <= i < archive_plan().len() && 0 <= j < archive_plan().len() && #[trigger] archive_plan()[i] == a
                && #[trigger] archive_plan()[j] == b ==> i < j,
{
    let plan = archive_plan();
    assert forall|i: int| 0 <= i < plan.len() implies archive_rank(#[trigger] plan[i]) == i by {}
    assert(plan[archive_rank(step)] == step);
}

/// An agent is archived by its owner and by administrators, and by nobody
/// else; one that is not there is not found; only one that is still in use has
/// something to do.
pub proof fn archiving_is_for_owners_and_administrators(
    agent: Option<StoredAgent>,
    user_id: Id,
    role: Role,
)
    ensures
        agent is None ==> archiving(agent, user_id, role) is Err && archiving(
            agent,
            user_id,
            role,
        )->Err_0.status == Status::NotFound,
        agent is Some ==> (archiving(agent, user_id, role) is Ok <==> agent->0.owner_id == user_id
            || role == Role::Admin || role == Role::SuperAdmin),
        agent is Some && archiving(agent, user_id, role) is Err ==> archiving(
            agent,
            user_id,
            role,
        )->Err_0.status == Status::Forbidden,
        agent is Some && archiving(agent, user_id, role) is Ok ==> (archiving(
            agent,
            user_id,
            role,
        )->Ok_0.len() == 0 <==> agent->0.archived),
{
}

/// A message from the console starts by asking where the session it continues
/// was started, and a message without one with the agent.
pub proof fn runs_start_with_what_they_continue(request: RunRequest, session: Id, parent: Id)
    ensures
        request.hub_session_id == Some(session) ==> run_start(request) == (
            RunState::Origin,
            RunAction::FindSessionOrigin(session),
        ),
        request.hub_session_id is None && request.parent_run_id == Some(parent) ==> run_start(
            request,
        ) == (RunState::Origin, RunAction::FindParentOrigin(parent)),
        request.hub_session_id is None && request.parent_run_id is None ==> run_start(request) == (
            RunState::Agent,
            RunAction::LoadAgent,
        ),
{
}

/// A message goes on as long as each thing it depends on holds: a session of
/// the hub, every secret granted, the parent's session there, and the message
/// accepted with a run.
pub proof fn runs_go_step_by_step(
    request: RunRequest,
    native: Option<bool>,
    secrets: Vec<String>,
    session: Id,
    parent: Id,
    new_session: bool,
    accepted: bool,
)
    ensures
        ({
            let next = run_next(request, RunState::Origin, RunEvent::OriginIs(native));
            &&& native == Some(false) ==> next.1 is Refuse && (next.1->Refuse_0).status
                == Status::Conflict
            &&& native != Some(false) ==> next == (RunState::Agent, RunAction::LoadAgent)
        }),
        run_next(request, RunState::Agent, RunEvent::AgentLoaded) == (
            RunState::Grants,
            RunAction::FindMissingGrants,
        ),
        ({
            let next = run_next(request, RunState::Grants, RunEvent::MissingGrants(secrets));
            &&& secrets@.len() > 0 ==> next == (RunState::Closed, RunAction::AskForGrants(secrets))
            &&& secrets@.len() == 0 && request.hub_session_id == Some(session) ==> next == (
                RunState::Session(session),
                RunAction::FindSession(session),
            )
            &&& secrets@.len() == 0 && request.hub_session_id is None && request.parent_run_id
                == Some(parent) ==> next == (
                RunState::ParentSession,
                RunAction::FindParentSession(parent),
            )
            &&& secrets@.len() == 0 && request.hub_session_id is None && request.parent_run_id
                is None ==> next == (RunState::Readiness(None), RunAction::RequireReadyAgent)
        }),
        run_next(request, RunState::ParentSession, RunEvent::ParentSessionIs(Some(session))) == (
            RunState::Session(session),
            RunAction::FindSession(session),
        ),
        run_next(request, RunState::ParentSession, RunEvent::ParentSessionIs(None)).1 matches
            RunAction::Refuse(e) && e.status == Status::BadRequest,
        run_next(request, RunState::Session(session), RunEvent::SessionIs(Some(true))) == (
            RunState::Readiness(Some(session)),
            RunAction::RequireReadyAgent,
        ),
        run_next(request, RunState::Session(session), RunEvent::SessionIs(Some(false))).1 matches
            RunAction::Refuse(e) && e.status == Status::Conflict,
        run_next(request, RunState::Session(session), RunEvent::SessionIs(None)).1 matches
            RunAction::Refuse(e) && e.status == Status::BadRequest,
        run_next(request, RunState::Readiness(Some(session)), RunEvent::AgentReady) == (
            RunState::Acceptance(false),
            RunAction::Accept(session),
        ),
        run_next(request, RunState::Readiness(None), RunEvent::AgentReady) == (
            RunState::NewSession,
            RunAction::CreateSession,
        ),
        run_next(request, RunState::NewSession, RunEvent::SessionCreated(session)) == (
            RunState::Acceptance(true),
            RunAction::Accept(session),
        ),
        ({
            let next = run_next(
                request,
                RunState::Acceptance(new_session),
                RunEvent::Accepted(accepted),
            );
            &&& accepted ==> next == (
                RunState::Closed,
                RunAction::Finish { make_title: new_session },
            )
            &&& !accepted ==> next.1 is Refuse && (next.1->Refuse_0).status == Status::Internal
        }),
{
}

/// The place of a step among those of a change, where it is taken.
pub open spec fn update_rank(step: UpdateStep) -> int {
    match step {
        UpdateStep::CheckPayload => 0,
        UpdateStep::CheckRuntime => 1,
        UpdateStep::CheckSkills => 2,
        UpdateStep::CheckSubagents => 3,
        UpdateStep::CheckVisibility => 4,
        UpdateStep::CheckAudience => 5,
        UpdateStep::CheckModels => 6,
        UpdateStep::CheckAdminModels => 7,
        UpdateStep::StoreAgent => 8,
        UpdateStep::RefreshSessions => 9,
        UpdateStep::ReplaceSkills => 10,
        UpdateStep::ReplaceSubagents => 11,
        UpdateStep::ReplaceDeclarations => 12,
    }
}

/// A change of an agent takes every step once and in its place; three of them
/// only where they apply: the runtime is checked where one is named, the models
/// of an administrator who is not the owner, and sessions are refreshed where
/// the runs would change.
pub proof fn changes_take_every_step(
    names_runtime: bool,
    is_owner: bool,
    role: Role,
    changes_runs: bool,
    step: UpdateStep,
)
    ensures
        ({
            let plan = update_plan(names_runtime, is_owner, role, changes_runs);
            let applies = match step {
                UpdateStep::CheckRuntime => names_runtime,
                UpdateStep::CheckAdminModels => !is_owner && role != Role::SuperAdmin,
                UpdateStep::RefreshSessions => changes_runs,
                _ => true,
            };
            &&& plan.contains(step) <==> applies
            &&& forall|i: int, j: int|
                0 <= i < j < plan.len() ==> update_rank(#[trigger] plan[i]) < update_rank(
                    #[trigger] plan[j],
                )
        }),
{
    let plan = update_plan(names_runtime, is_owner, role, changes_runs);
    let admin = !is_owner && role != Role::SuperAdmin;
    let a: int = if names_runtime {
        1
    } else {
        0
    };
    let b: int = if admin {
        1
    } else {
        0
    };
    let c: int = if changes_runs {
        1
    } else {
        0
    };
    assert(plan.len() == 10 + a + b + c);
    assert(plan[0] == UpdateStep::CheckPayload);
    if names_runtime {
        assert(plan[1] == UpdateStep::CheckRuntime);
    }
    assert(plan[1 + a] == UpdateStep::CheckSkills);
    assert(plan[2 + a] == UpdateStep::CheckSubagents);
    assert(plan[3 + a] == UpdateStep::CheckVisibility);
    assert(plan[4 + a] == UpdateStep::CheckAudience);
    assert(plan[5 + a] == UpdateStep::CheckModels);
    if admin {
        assert(plan[6 + a] == UpdateStep::CheckAdminModels);
    }
    assert(plan[6 + a + b] == UpdateStep::StoreAgent);
    if changes_runs {
        assert(plan[7 + a + b] == UpdateStep::RefreshSessions);
    }
    assert(plan[7 + a + b + c] == UpdateStep::ReplaceSkills);
    assert(plan[8 + a + b + c] == UpdateStep::ReplaceSubagents);
    assert(plan[9 + a + b + c] == UpdateStep::ReplaceDeclarations);
}

/// A change that met no agent is told so.
pub proof fn lost_agents_are_noticed(rows: u64)
    ensures
        store_outcome(rows) is Ok <==> rows > 0,
        store_outcome(rows) matches Err(e) ==> e.status == Status::NotFound,
{
}

/// A subagent needs a binding of its own where it is enabled and has a model
/// or any setting of its own; its protocol is another one only with a model of
/// its own.
pub proof fn bindings_are_for_subagents_of_their_own(
    s: Subagent,
    has_selection: bool,
    protocol: Seq<char>,
    parent: Seq<char>,
)
    ensures
        !s.enabled ==> !own_binding(s),
        s.enabled && s.model_selection is Some ==> own_binding(s),
        s.enabled && s.model_selection is None ==> (own_binding(s) <==> !says_nothing(
            s.overrides,
        )),
        brings_protocol(has_selection, protocol, parent) <==> has_selection && protocol != parent,
{
}

/// Every bundle is tried, one after the other; one that cannot be deleted does
/// not stop the others but is told in the end.
pub proof fn cleanups_go_bundle_by_bundle(
    at: usize,
    count: usize,
    failed: bool,
    store_configured: bool,
)
    ensures
        ({
            let next = cleanup_next(
                CleanupState::Listing,
                CleanupEvent::Listed { count, store_configured },
            );
            &&& count == 0 <==> next.1 is Finish
            &&& count > 0 && store_configured ==> next == (
                CleanupState::Deleting { at: 0, count, failed: false },
                CleanupAction::Delete(0),
            )
            &&& count > 0 && !store_configured ==> next.1 is Refuse && (next.1->Refuse_0).status
                == Status::ServiceUnavailable
        }),
        at + 1 < count ==> cleanup_next(
            CleanupState::Deleting { at, count, failed },
            CleanupEvent::Deleted,
        ) == (
            CleanupState::Deleting { at: (at + 1) as usize, count, failed },
            CleanupAction::Delete((at + 1) as usize),
        ),
        at + 1 < count ==> cleanup_next(
            CleanupState::Deleting { at, count, failed },
            CleanupEvent::DeleteFailed,
        ) == (
            CleanupState::Deleting { at: (at + 1) as usize, count, failed: true },
            CleanupAction::Delete((at + 1) as usize),
        ),
        at + 1 == count ==> ({
            let good = cleanup_next(
                CleanupState::Deleting { at, count, failed },
                CleanupEvent::Deleted,
            );
            let bad = cleanup_next(
                CleanupState::Deleting { at, count, failed },
                CleanupEvent::DeleteFailed,
            );
            &&& good.1 is Finish <==> !failed
            &&& failed ==> good.1 is Refuse && (good.1->Refuse_0).status == Status::BadGateway
            &&& bad.1 is Refuse && (bad.1->Refuse_0).status == Status::BadGateway
        }),
{
}

} // verus!
