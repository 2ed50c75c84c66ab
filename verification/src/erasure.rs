//! Erasing a user: asking for it, freezing everything the user owns, deleting
//! stored objects, purging the records, and reporting on it.

use crate::clock::Instant;
use crate::error::{refusal, refuse, Refusal, Status};
use crate::identity::Role;
use crate::ids::Id;
use crate::text::{same, trim, trimmed};
use vstd::prelude::*;

verus! {

// ---------------------------------------------------------------------------
// Asking for an erasure
// ---------------------------------------------------------------------------

/// What is known of the user to be erased.
#[derive(Clone, Copy, Debug, PartialEq, Eq, Structural)]
pub struct Target {
    pub role: Role,
    /// The address that the request repeats is the user's.
    pub email_confirmed: bool,
    /// The erasure has been asked for before.
    pub already_requested: bool,
}

/// The steps that freeze what a user owns, in their order.
#[derive(Clone, Copy, Debug, PartialEq, Eq, Structural)]
pub enum FreezeStep {
    LockAgents,
    LockAutomations,
    RecordJob,
    DisableUser,
    DeleteSessions,
    DeleteApiKeys,
    QueueBundleObjects,
    QueueSkillObjects,
    AssignCleanups,
    RecordWorkspaceCleanups,
    DeleteAuthorizationCodes,
    DeleteAccessTokens,
    DisableChannels,
    RetireApps,
    DetachAgents,
    DeleteAutomations,
    DeleteEmbedSessions,
    CancelToolRequests,
    FailActiveRuns,
    ClearRunSecrets,
    FailTurns,
    FailMessages,
    RetireHubSessions,
    RetireAgents,
    WithdrawShares,
}

/// The freezing steps in their order.
pub open spec fn freeze_plan() -> Seq<FreezeStep> {
    seq![
        FreezeStep::LockAgents,
        FreezeStep::LockAutomations,
        FreezeStep::RecordJob,
        FreezeStep::DisableUser,
        FreezeStep::DeleteSessions,
        FreezeStep::DeleteApiKeys,
        FreezeStep::QueueBundleObjects,
        FreezeStep::QueueSkillObjects,
        FreezeStep::AssignCleanups,
        FreezeStep::RecordWorkspaceCleanups,
        FreezeStep::DeleteAuthorizationCodes,
        FreezeStep::DeleteAccessTokens,
        FreezeStep::DisableChannels,
        FreezeStep::RetireApps,
        FreezeStep::DetachAgents,
        FreezeStep::DeleteAutomations,
        FreezeStep::DeleteEmbedSessions,
        FreezeStep::CancelToolRequests,
        FreezeStep::FailActiveRuns,
        FreezeStep::ClearRunSecrets,
        FreezeStep::FailTurns,
        FreezeStep::FailMessages,
        FreezeStep::RetireHubSessions,
        FreezeStep::RetireAgents,
        FreezeStep::WithdrawShares,
    ]
}

fn freeze_steps() -> (r: Vec<FreezeStep>)
    ensures
        r@ == freeze_plan(),
{
    let plan = vec![
        FreezeStep::LockAgents,
        FreezeStep::LockAutomations,
        FreezeStep::RecordJob,
        FreezeStep::DisableUser,
        FreezeStep::DeleteSessions,
        FreezeStep::DeleteApiKeys,
        FreezeStep::QueueBundleObjects,
        FreezeStep::QueueSkillObjects,
        FreezeStep::AssignCleanups,
        FreezeStep::RecordWorkspaceCleanups,
        FreezeStep::DeleteAuthorizationCodes,
        FreezeStep::DeleteAccessTokens,
        FreezeStep::DisableChannels,
        FreezeStep::RetireApps,
        FreezeStep::DetachAgents,
        FreezeStep::DeleteAutomations,
        FreezeStep::DeleteEmbedSessions,
        FreezeStep::CancelToolRequests,
        FreezeStep::FailActiveRuns,
        FreezeStep::ClearRunSecrets,
        FreezeStep::FailTurns,
        FreezeStep::FailMessages,
        FreezeStep::RetireHubSessions,
        FreezeStep::RetireAgents,
        FreezeStep::WithdrawShares,
    ];
    assert(plan@ =~= freeze_plan());
    plan
}

/// How far a request for an erasure has come.
#[derive(Clone, Copy, Debug, PartialEq, Eq, Structural)]
pub enum RequestState {
    /// Waits for the role that the administrator has now.
    Administrator,
    /// Waits for the user, on behalf of an administrator with this role.
    User(Role),
    /// Waits for the record of an erasure that is complete.
    Audit(Role),
    /// Waits to hear whether another super administrator is there.
    Others,
    /// So many freezing steps are done.
    Freezing(usize),
    Closed,
}

/// What was found, or done.
#[derive(Clone, Copy, Debug, PartialEq, Eq, Structural)]
pub enum RequestEvent {
    /// The role of the administrator, if they still administer the hub.
    AdministratorIs(Option<Role>),
    UserIs(Option<Target>),
    /// The role that the erased user had, where that was recorded.
    AuditIs(Option<Role>),
    OthersRemain(bool),
    StepDone,
}

/// What to do next.
#[derive(Clone, Copy, Debug)]
pub enum RequestAction {
    FindAdministrator,
    FindUser,
    FindAudit,
    FindOthers,
    Freeze(FreezeStep),
    /// Everything is frozen: commit.
    Commit,
    /// The erasure was asked for, or completed, before: there is nothing to do.
    AlreadyDone,
    Refuse(Refusal),
}

/// The event answers what the state waits for.
pub open spec fn request_expects(state: RequestState, event: RequestEvent) -> bool {
    match state {
        RequestState::Administrator => match event {
            RequestEvent::AdministratorIs(Some(role)) => role != Role::Member,
            RequestEvent::AdministratorIs(None) => true,
            _ => false,
        },
        RequestState::User(_) => event is UserIs,
        RequestState::Audit(_) => event is AuditIs,
        RequestState::Others => event is OthersRemain,
        RequestState::Freezing(done) => done < freeze_plan().len() && event is StepDone,
        RequestState::Closed => false,
    }
}

/// A super administrator is hidden from everybody but super administrators.
pub open spec fn hidden_from(target: Role, administrator: Role) -> bool {
    target == Role::SuperAdmin && administrator != Role::SuperAdmin
}

/// The start of freezing.
pub open spec fn freeze_from(done: nat) -> (RequestState, RequestAction) {
    if done < freeze_plan().len() {
        (RequestState::Freezing(done as usize), RequestAction::Freeze(freeze_plan()[done as int]))
    } else {
        (RequestState::Closed, RequestAction::Commit)
    }
}

/// A refusal that closes the request.
pub open spec fn request_refused(status: Status, message: &'static str) -> (
    RequestState,
    RequestAction,
) {
    (RequestState::Closed, RequestAction::Refuse(refusal(status, message)))
}

/// What follows what was found. An erasure begins only for an administrator,
/// on a user that the administrator may see, with the address repeated
/// exactly, once, and never on the last super administrator.
pub open spec fn request_next(state: RequestState, event: RequestEvent) -> (
    RequestState,
    RequestAction,
) {
    match (state, event) {
        (RequestState::Administrator, RequestEvent::AdministratorIs(Some(role))) => (
            RequestState::User(role),
            RequestAction::FindUser,
        ),
        (RequestState::User(role), RequestEvent::UserIs(None)) => (
            RequestState::Audit(role),
            RequestAction::FindAudit,
        ),
        (RequestState::Audit(role), RequestEvent::AuditIs(erased)) => if erased is Some
            && !hidden_from(erased->0, role) {
            (RequestState::Closed, RequestAction::AlreadyDone)
        } else {
            request_refused(Status::NotFound, "user not found")
        },
        (RequestState::User(role), RequestEvent::UserIs(Some(target))) => if hidden_from(
            target.role,
            role,
        ) {
            request_refused(Status::NotFound, "user not found")
        } else if !target.email_confirmed {
            request_refused(Status::Conflict, "email confirmation does not match exactly")
        } else if target.already_requested {
            (RequestState::Closed, RequestAction::AlreadyDone)
        } else if target.role == Role::SuperAdmin {
            (RequestState::Others, RequestAction::FindOthers)
        } else {
            freeze_from(0)
        },
        (RequestState::Others, RequestEvent::OthersRemain(remain)) => if remain {
            freeze_from(0)
        } else {
            request_refused(Status::Conflict, "at least one Super Administrator must remain")
        },
        (RequestState::Freezing(done), RequestEvent::StepDone) => freeze_from((done + 1) as nat),
        _ => request_refused(Status::Forbidden, "administrator permission is required"),
    }
}

/// The start of a request for an erasure.
pub fn begin_user_erasure() -> (r: (RequestState, RequestAction))
    ensures
        r == (RequestState::Administrator, RequestAction::FindAdministrator),
        r == request_run(seq![]),
{
    (RequestState::Administrator, RequestAction::FindAdministrator)
}

fn freeze(done: usize) -> (r: (RequestState, RequestAction))
    requires
        done <= freeze_plan().len(),
    ensures
        r == freeze_from(done as nat),
{
    let steps = freeze_steps();
    if done < steps.len() {
        (RequestState::Freezing(done), RequestAction::Freeze(steps[done]))
    } else {
        (RequestState::Closed, RequestAction::Commit)
    }
}

/// Takes a request for an erasure one step on.
pub fn continue_user_erasure(state: RequestState, event: RequestEvent) -> (r: (
    RequestState,
    RequestAction,
))
    requires
        request_expects(state, event),
    ensures
        r == request_next(state, event),
{
    match (state, event) {
        (RequestState::Administrator, RequestEvent::AdministratorIs(Some(role))) => (
            RequestState::User(role),
            RequestAction::FindUser,
        ),
        (RequestState::User(role), RequestEvent::UserIs(None)) => (
            RequestState::Audit(role),
            RequestAction::FindAudit,
        ),
        (RequestState::Audit(role), RequestEvent::AuditIs(erased)) => {
            let visible = match erased {
                Some(erased_role) => erased_role != Role::SuperAdmin || role == Role::SuperAdmin,
                None => false,
            };
            if visible {
                (RequestState::Closed, RequestAction::AlreadyDone)
            } else {
                (
                    RequestState::Closed,
                    RequestAction::Refuse(refuse(Status::NotFound, "user not found")),
                )
            }
        },
        (RequestState::User(role), RequestEvent::UserIs(Some(target))) => {
            if target.role == Role::SuperAdmin && role != Role::SuperAdmin {
                (
                    RequestState::Closed,
                    RequestAction::Refuse(refuse(Status::NotFound, "user not found")),
                )
            } else if !target.email_confirmed {
                (
                    RequestState::Closed,
                    RequestAction::Refuse(
                        refuse(Status::Conflict, "email confirmation does not match exactly"),
                    ),
                )
            } else if target.already_requested {
                (RequestState::Closed, RequestAction::AlreadyDone)
            } else if target.role == Role::SuperAdmin {
                (RequestState::Others, RequestAction::FindOthers)
            } else {
                freeze(0)
            }
        },
        (RequestState::Others, RequestEvent::OthersRemain(remain)) => {
            if remain {
                freeze(0)
            } else {
                (
                    RequestState::Closed,
                    RequestAction::Refuse(
                        refuse(Status::Conflict, "at least one Super Administrator must remain"),
                    ),
                )
            }
        },
        (RequestState::Freezing(done), RequestEvent::StepDone) => freeze(done + 1),
        _ => (
            RequestState::Closed,
            RequestAction::Refuse(
                refuse(Status::Forbidden, "administrator permission is required"),
            ),
        ),
    }
}

/// The address that the request repeats is the user's, exactly but for white
/// space around it.
pub fn email_is_confirmed(email: &str, confirmed: &str) -> (r: bool)
    ensures
        r == (email@ == trimmed(confirmed@)),
        confirmed@ == email@ && trimmed(email@) == email@ ==> r,
{
    let t = trim(confirmed);
    same(email, t.as_str())
}

/// The state that a history of events leads to, and the last action.
pub open spec fn request_run(events: Seq<RequestEvent>) -> (RequestState, RequestAction)
    decreases events.len(),
{
    if events.len() == 0 {
        (RequestState::Administrator, RequestAction::FindAdministrator)
    } else {
        request_next(request_run(events.drop_last()).0, events.last())
    }
}

/// Each event answers what the state before it waits for.
pub open spec fn request_history(events: Seq<RequestEvent>) -> bool
    decreases events.len(),
{
    events.len() == 0 || (request_history(events.drop_last()) && request_expects(
        request_run(events.drop_last()).0,
        events.last(),
    ))
}

/// The role of the administrator of a history.
pub open spec fn history_administrator(events: Seq<RequestEvent>) -> Option<Role> {
    match events[0] {
        RequestEvent::AdministratorIs(role) => role,
        _ => None,
    }
}

/// The user that a history is about.
pub open spec fn history_target(events: Seq<RequestEvent>) -> Option<Target> {
    match events[1] {
        RequestEvent::UserIs(target) => target,
        _ => None,
    }
}

/// What each state says of the events that led to it.
pub open spec fn request_explained(events: Seq<RequestEvent>, state: RequestState) -> bool {
    let admin = history_administrator(events);
    let target = history_target(events);
    match state {
        RequestState::Administrator => events.len() == 0,
        RequestState::User(role) => events.len() == 1 && admin == Some(role) && role
            != Role::Member,
        RequestState::Audit(role) => events.len() == 2 && admin == Some(role) && target is None,
        RequestState::Others => events.len() == 2 && may_begin(admin, target) && target->0.role
            == Role::SuperAdmin,
        RequestState::Freezing(done) => begun(events) && done < freeze_plan().len()
            && events.len() == preamble(events) + done,
        RequestState::Closed => true,
    }
}

/// The administrator may begin to erase the target.
pub open spec fn may_begin(admin: Option<Role>, target: Option<Target>) -> bool {
    &&& admin is Some && admin->0 != Role::Member
    &&& target is Some && target->0.email_confirmed && !target->0.already_requested
    &&& !hidden_from(target->0.role, admin->0)
}

/// The number of events before the first freezing step.
pub open spec fn preamble(events: Seq<RequestEvent>) -> int {
    if history_target(events)->0.role == Role::SuperAdmin {
        3
    } else {
        2
    }
}

/// Everything that must hold before anything is frozen does.
pub open spec fn begun(events: Seq<RequestEvent>) -> bool {
    &&& may_begin(history_administrator(events), history_target(events))
    &&& history_target(events)->0.role == Role::SuperAdmin ==> events[2]
        == RequestEvent::OthersRemain(true)
    &&& events.len() >= preamble(events)
}

proof fn lemma_request_explained(events: Seq<RequestEvent>)
    requires
        request_history(events),
    ensures
        request_explained(events, request_run(events).0),
        request_run(events).1 is Freeze ==> begun(events) && request_run(events).0 is Freezing,
        request_run(events).1 is Commit ==> begun(events) && events.len() == preamble(events)
            + freeze_plan().len(),
    decreases events.len(),
{
    if events.len() > 0 {
        let before = events.drop_last();
        lemma_request_explained(before);
        assert(events.len() > 1 ==> events[0] == before[0]);
        assert(events.len() > 2 ==> events[1] == before[1]);
        assert(events.len() > 3 ==> events[2] == before[2]);
        assert(events.last() == events[events.len() - 1]);
    }
}

/// Nothing is frozen, and no erasure committed, unless an administrator asked
/// for it, may see the user, repeated the address exactly, and another super
/// administrator remains where the user is one. A commit comes only after
/// every freezing step, each done once and in order.
pub proof fn erasure_needs_consent_and_a_remaining_super_administrator(events: Seq<RequestEvent>)
    requires
        request_history(events),
        request_run(events).1 is Freeze || request_run(events).1 is Commit,
    ensures
        may_begin(history_administrator(events), history_target(events)),
        history_target(events)->0.role == Role::SuperAdmin ==> history_administrator(events)
            == Some(Role::SuperAdmin) && events[2] == RequestEvent::OthersRemain(true),
        request_run(events).1 is Commit ==> events.len() == preamble(events) + freeze_plan().len(),
{
    lemma_request_explained(events);
}

/// The step that is done after so many others is the one at that place in the
/// plan.
pub proof fn freezing_follows_the_plan(events: Seq<RequestEvent>)
    requires
        request_history(events),
        request_run(events).1 is Freeze,
    ensures
        request_run(events).1 == RequestAction::Freeze(
            freeze_plan()[events.len() - preamble(events)],
        ),
{
    lemma_request_explained(events);
    let before = events.drop_last();
    lemma_request_explained(before);
}

/// Asking again for an erasure that is under way changes nothing, whoever
/// asks.
pub proof fn erasure_is_asked_for_once(role: Role, target: Target)
    requires
        target.email_confirmed,
        target.already_requested,
        !hidden_from(target.role, role),
    ensures
        request_next(RequestState::User(role), RequestEvent::UserIs(Some(target))) == (
            RequestState::Closed,
            RequestAction::AlreadyDone,
        ),
{
}

// ---------------------------------------------------------------------------
// Deleting stored objects
// ---------------------------------------------------------------------------

/// The two stores that hold a user's objects.
#[derive(Clone, Copy, Debug, PartialEq, Eq, Structural)]
pub enum ObjectStore {
    Bundles,
    SkillPackages,
}

/// How far an erasure job has come.
#[derive(Clone, Copy, Debug, PartialEq, Eq, Structural)]
pub enum JobState {
    /// Waits for the objects that are left in a store.
    Listing(ObjectStore),
    /// Waits for the deletion of the object at this place, of so many.
    Deleting(ObjectStore, usize, usize),
    /// Waits for the note that a deletion failed.
    Noting(ObjectStore),
    Closed,
}

/// What was found, or done.
#[derive(Clone, Copy, Debug, PartialEq, Eq, Structural)]
pub enum JobEvent {
    /// So many objects are left, and the store is there or not.
    Listed { count: usize, store_configured: bool },
    /// The object was deleted, and its record with it.
    Deleted,
    DeleteFailed,
    Noted,
}

/// What to do next.
#[derive(Clone, Copy, Debug)]
pub enum JobAction {
    List(ObjectStore),
    /// Delete the object at this place of the listing.
    Delete(ObjectStore, usize),
    /// Note the failure of the deletion that was tried last.
    NoteFailure(ObjectStore),
    /// Nothing is left in the stores: purge the records.
    Finalize,
    Refuse(Refusal),
}

/// The event answers what the state waits for.
pub open spec fn job_expects(state: JobState, event: JobEvent) -> bool {
    match state {
        JobState::Listing(_) => event is Listed,
        JobState::Deleting(_, at, count) => at < count && (event is Deleted || event
            is DeleteFailed),
        JobState::Noting(_) => event is Noted,
        JobState::Closed => false,
    }
}

/// What comes once a store is empty.
pub open spec fn after_store(store: ObjectStore) -> (JobState, JobAction) {
    match store {
        ObjectStore::Bundles => (
            JobState::Listing(ObjectStore::SkillPackages),
            JobAction::List(ObjectStore::SkillPackages),
        ),
        ObjectStore::SkillPackages => (JobState::Closed, JobAction::Finalize),
    }
}

/// The refusal where a store is needed and not there.
pub open spec fn store_missing(store: ObjectStore) -> Refusal {
    match store {
        ObjectStore::Bundles => refusal(
            Status::ServiceUnavailable,
            "Session Bundle object storage is not configured",
        ),
        ObjectStore::SkillPackages => refusal(
            Status::ServiceUnavailable,
            "Skill package object storage is not configured",
        ),
    }
}

/// The refusal where an object could not be deleted.
pub open spec fn deletion_failed(store: ObjectStore) -> Refusal {
    match store {
        ObjectStore::Bundles => refusal(
            Status::BadGateway,
            "failed to delete one or more Session Bundle objects",
        ),
        ObjectStore::SkillPackages => refusal(
            Status::BadGateway,
            "failed to delete one or more Skill package objects",
        ),
    }
}

/// What follows: the objects of each store are deleted one by one, bundles
/// first; the first failure is noted and ends the job.
pub open spec fn job_next(state: JobState, event: JobEvent) -> (JobState, JobAction) {
    match (state, event) {
        (JobState::Listing(store), JobEvent::Listed { count, store_configured }) => if count == 0 {
            after_store(store)
        } else if !store_configured {
            (JobState::Closed, JobAction::Refuse(store_missing(store)))
        } else {
            (JobState::Deleting(store, 0, count), JobAction::Delete(store, 0))
        },
        (JobState::Deleting(store, at, count), JobEvent::Deleted) => if at + 1 < count {
            (
                JobState::Deleting(store, (at + 1) as usize, count),
                JobAction::Delete(store, (at + 1) as usize),
            )
        } else {
            after_store(store)
        },
        (JobState::Deleting(store, _, _), JobEvent::DeleteFailed) => (
            JobState::Noting(store),
            JobAction::NoteFailure(store),
        ),
        (JobState::Noting(store), JobEvent::Noted) => (
            JobState::Closed,
            JobAction::Refuse(deletion_failed(store)),
        ),
        _ => (JobState::Closed, JobAction::Finalize),
    }
}

/// The start of an erasure job.
pub fn begin_erasure_job() -> (r: (JobState, JobAction))
    ensures
        r == (JobState::Listing(ObjectStore::Bundles), JobAction::List(ObjectStore::Bundles)),
        r == job_run(seq![]),
{
    (JobState::Listing(ObjectStore::Bundles), JobAction::List(ObjectStore::Bundles))
}

fn store_done(store: ObjectStore) -> (r: (JobState, JobAction))
    ensures
        r == after_store(store),
{
    match store {
        ObjectStore::Bundles => (
            JobState::Listing(ObjectStore::SkillPackages),
            JobAction::List(ObjectStore::SkillPackages),
        ),
        ObjectStore::SkillPackages => (JobState::Closed, JobAction::Finalize),
    }
}

/// Takes an erasure job one step on.
pub fn process_user_erasure_job(state: JobState, event: JobEvent) -> (r: (JobState, JobAction))
    requires
        job_expects(state, event),
    ensures
        r == job_next(state, event),
{
    match (state, event) {
        (JobState::Listing(store), JobEvent::Listed { count, store_configured }) => {
            if count == 0 {
                store_done(store)
            } else if !store_configured {
                let missing = match store {
                    ObjectStore::Bundles => refuse(
                        Status::ServiceUnavailable,
                        "Session Bundle object storage is not configured",
                    ),
                    ObjectStore::SkillPackages => refuse(
                        Status::ServiceUnavailable,
                        "Skill package object storage is not configured",
                    ),
                };
                (JobState::Closed, JobAction::Refuse(missing))
            } else {
                (JobState::Deleting(store, 0, count), JobAction::Delete(store, 0))
            }
        },
        (JobState::Deleting(store, at, count), JobEvent::Deleted) => {
            if at + 1 < count {
                (JobState::Deleting(store, at + 1, count), JobAction::Delete(store, at + 1))
            } else {
                store_done(store)
            }
        },
        (JobState::Deleting(store, _, _), JobEvent::DeleteFailed) => (
            JobState::Noting(store),
            JobAction::NoteFailure(store),
        ),
        (JobState::Noting(store), JobEvent::Noted) => {
            let failed = match store {
                ObjectStore::Bundles => refuse(
                    Status::BadGateway,
                    "failed to delete one or more Session Bundle objects",
                ),
                ObjectStore::SkillPackages => refuse(
                    Status::BadGateway,
                    "failed to delete one or more Skill package objects",
                ),
            };
            (JobState::Closed, JobAction::Refuse(failed))
        },
        _ => (JobState::Closed, JobAction::Finalize),
    }
}

/// The state that a history of a job leads to, and the last action.
pub open spec fn job_run(events: Seq<JobEvent>) -> (JobState, JobAction)
    decreases events.len(),
{
    if events.len() == 0 {
        (JobState::Listing(ObjectStore::Bundles), JobAction::List(ObjectStore::Bundles))
    } else {
        job_next(job_run(events.drop_last()).0, events.last())
    }
}

/// Each event answers what the state before it waits for.
pub open spec fn job_history(events: Seq<JobEvent>) -> bool
    decreases events.len(),
{
    events.len() == 0 || (job_history(events.drop_last()) && job_expects(
        job_run(events.drop_last()).0,
        events.last(),
    ))
}

/// A deletion failed in this history, or its store was missing.
pub open spec fn went_wrong(events: Seq<JobEvent>) -> bool {
    exists|i: int| 0 <= i < events.len() && #[trigger] bad_event(events[i])
}

/// An event that ends a job in failure.
pub open spec fn bad_event(event: JobEvent) -> bool {
    match event {
        JobEvent::DeleteFailed => true,
        JobEvent::Listed { count, store_configured } => count > 0 && !store_configured,
        _ => false,
    }
}

/// The objects that the listings of a history named.
pub open spec fn objects_listed(events: Seq<JobEvent>) -> int
    decreases events.len(),
{
    if events.len() == 0 {
        0
    } else {
        objects_listed(events.drop_last()) + match events.last() {
            JobEvent::Listed { count, .. } => count as int,
            _ => 0,
        }
    }
}

/// The objects that were deleted in a history.
pub open spec fn objects_deleted(events: Seq<JobEvent>) -> int
    decreases events.len(),
{
    if events.len() == 0 {
        0
    } else {
        objects_deleted(events.drop_last()) + if events.last() is Deleted {
            1int
        } else {
            0
        }
    }
}

/// The stores that were listed in a history.
pub open spec fn stores_listed(events: Seq<JobEvent>) -> int
    decreases events.len(),
{
    if events.len() == 0 {
        0
    } else {
        stores_listed(events.drop_last()) + if events.last() is Listed {
            1int
        } else {
            0
        }
    }
}

/// Records are purged only after a job that listed both stores, deleted as
/// many objects as they named, and in which nothing went wrong; a job in which
/// something did is refused.
pub proof fn purging_waits_for_every_object(events: Seq<JobEvent>)
    requires
        job_history(events),
    ensures
        job_run(events).1 is Finalize ==> !went_wrong(events) && stores_listed(events) == 2
            && objects_deleted(events) == objects_listed(events),
        job_run(events).1 is Refuse ==> went_wrong(events),
    decreases events.len(),
{
    lemma_job(events);
    lemma_job_counts(events);
}

/// The stores that were listed once this one is being emptied.
spec fn stores_until(store: ObjectStore) -> int {
    match store {
        ObjectStore::Bundles => 1,
        ObjectStore::SkillPackages => 2,
    }
}

proof fn lemma_job_counts(events: Seq<JobEvent>)
    requires
        job_history(events),
    ensures
        match job_run(events).0 {
            JobState::Listing(store) => stores_listed(events) == stores_until(store) - 1
                && objects_deleted(events) == objects_listed(events),
            JobState::Deleting(store, at, count) => stores_listed(events) == stores_until(store)
                && at < count && objects_listed(events) == objects_deleted(events) + count - at,
            _ => true,
        },
        job_run(events).1 is Finalize ==> stores_listed(events) == 2 && objects_deleted(events)
            == objects_listed(events),
    decreases events.len(),
{
    if events.len() > 0 {
        lemma_job_counts(events.drop_last());
    }
}

proof fn lemma_job(events: Seq<JobEvent>)
    requires
        job_history(events),
    ensures
        job_run(events).0 is Listing || job_run(events).0 is Deleting ==> !went_wrong(events),
        job_run(events).0 is Noting ==> went_wrong(events),
        job_run(events).1 is Finalize ==> !went_wrong(events),
        job_run(events).1 is Refuse ==> went_wrong(events),
    decreases events.len(),
{
    if events.len() > 0 {
        let before = events.drop_last();
        lemma_job(before);
        if went_wrong(before) {
            let i = choose|i: int| 0 <= i < before.len() && #[trigger] bad_event(before[i]);
            assert(bad_event(events[i]));
        }
        if bad_event(events.last()) {
            assert(bad_event(events[events.len() - 1]));
        }
        if went_wrong(events) {
            let i = choose|i: int| 0 <= i < events.len() && #[trigger] bad_event(events[i]);
            if i < before.len() {
                assert(bad_event(before[i]));
            }
        }
    }
}

// ---------------------------------------------------------------------------
// Purging the records
// ---------------------------------------------------------------------------

/// The steps that purge the records of a user, in their order.
#[derive(Clone, Copy, Debug, PartialEq, Eq, Structural)]
pub enum PurgeStep {
    CollectOwnedRecords,
    BumpSharedSkillUsers,
    ClearActiveTurns,
    DetachMessages,
    DeleteAttachments,
    DeleteIntegrationMessages,
    DeleteRunEvents,
    DeleteEmbedSessions,
    DeleteIntegrationSessions,
    DeleteBundleQueue,
    DeleteRuns,
    DeleteMessages,
    DeleteTurns,
    DeleteHubSessions,
    DeleteApps,
    DeleteAgents,
    WriteAudit,
    DeleteUser,
    DeleteJob,
}

/// The purging steps in their order.
pub open spec fn purge_plan() -> Seq<PurgeStep> {
    seq![
        PurgeStep::CollectOwnedRecords,
        PurgeStep::BumpSharedSkillUsers,
        PurgeStep::ClearActiveTurns,
        PurgeStep::DetachMessages,
        PurgeStep::DeleteAttachments,
        PurgeStep::DeleteIntegrationMessages,
        PurgeStep::DeleteRunEvents,
        PurgeStep::DeleteEmbedSessions,
        PurgeStep::DeleteIntegrationSessions,
        PurgeStep::DeleteBundleQueue,
        PurgeStep::DeleteRuns,
        PurgeStep::DeleteMessages,
        PurgeStep::DeleteTurns,
        PurgeStep::DeleteHubSessions,
        PurgeStep::DeleteApps,
        PurgeStep::DeleteAgents,
        PurgeStep::WriteAudit,
        PurgeStep::DeleteUser,
        PurgeStep::DeleteJob,
    ]
}

/// What is left of a user's objects and workspaces.
#[derive(Clone, Copy, Debug, PartialEq, Eq, Structural)]
pub struct Leftovers {
    pub objects: bool,
    pub workspaces: bool,
}

/// The purge of an erasure job: none without a job, none while objects or
/// workspaces are left, else every step in order.
pub open spec fn purge_of(job_exists: bool, leftovers: Leftovers) -> Seq<PurgeStep> {
    if job_exists && !leftovers.objects && !leftovers.workspaces {
        purge_plan()
    } else {
        seq![]
    }
}

/// The steps that finalize an erasure; none where there is no job or where
/// something is left to be deleted first.
pub fn finalize_user_erasure(job_exists: bool, leftovers: Leftovers) -> (r: Vec<PurgeStep>)
    ensures
        r@ == purge_of(job_exists, leftovers),
{
    if !job_exists || leftovers.objects || leftovers.workspaces {
        let none: Vec<PurgeStep> = Vec::new();
        assert(none@ =~= Seq::<PurgeStep>::empty());
        return none;
    }
    let plan = vec![
        PurgeStep::CollectOwnedRecords,
        PurgeStep::BumpSharedSkillUsers,
        PurgeStep::ClearActiveTurns,
        PurgeStep::DetachMessages,
        PurgeStep::DeleteAttachments,
        PurgeStep::DeleteIntegrationMessages,
        PurgeStep::DeleteRunEvents,
        PurgeStep::DeleteEmbedSessions,
        PurgeStep::DeleteIntegrationSessions,
        PurgeStep::DeleteBundleQueue,
        PurgeStep::DeleteRuns,
        PurgeStep::DeleteMessages,
        PurgeStep::DeleteTurns,
        PurgeStep::DeleteHubSessions,
        PurgeStep::DeleteApps,
        PurgeStep::DeleteAgents,
        PurgeStep::WriteAudit,
        PurgeStep::DeleteUser,
        PurgeStep::DeleteJob,
    ];
    assert(plan@ =~= purge_plan());
    plan
}

/// A user is deleted only when nothing is left behind, only after the audit
/// record is written, and after everything that refers to the user.
pub proof fn users_leave_an_audit_and_nothing_else(job_exists: bool, leftovers: Leftovers, i: int)
    requires
        0 <= i < purge_of(job_exists, leftovers).len(),
        purge_of(job_exists, leftovers)[i] == PurgeStep::DeleteUser,
    ensures
        job_exists,
        !leftovers.objects,
        !leftovers.workspaces,
        purge_of(job_exists, leftovers)[i - 1] == PurgeStep::WriteAudit,
        purge_of(job_exists, leftovers)[i + 1] == PurgeStep::DeleteJob,
        i + 2 == purge_of(job_exists, leftovers).len(),
{
}

// ---------------------------------------------------------------------------
// Reporting
// ---------------------------------------------------------------------------

/// What is reported of an erasure.
#[derive(Debug)]
pub struct UserErasure {
    pub user_id: Id,
    /// The address, until the erasure is complete.
    pub email: Option<String>,
    pub completed: bool,
    pub requested_at: Instant,
    pub completed_at: Option<Instant>,
}

/// The report on an erasure that is under way.
pub open spec fn pending_report(user_id: Id, email: String, requested_at: Instant) -> UserErasure {
    UserErasure { user_id, email: Some(email), completed: false, requested_at, completed_at: None }
}

/// The report on an erasure that is complete: no address is left in it.
pub open spec fn completed_report(user_id: Id, erased_at: Instant) -> UserErasure {
    UserErasure {
        user_id,
        email: None,
        completed: true,
        requested_at: erased_at,
        completed_at: Some(erased_at),
    }
}

/// The report on an erasure that is under way.
pub fn pending_erasure(user_id: Id, email: String, requested_at: Instant) -> (r: UserErasure)
    ensures
        r == pending_report(user_id, email, requested_at),
{
    UserErasure { user_id, email: Some(email), completed: false, requested_at, completed_at: None }
}

/// The report on an erasure that is complete.
pub fn completed_erasure(user_id: Id, erased_at: Instant) -> (r: UserErasure)
    ensures
        r == completed_report(user_id, erased_at),
{
    UserErasure {
        user_id,
        email: None,
        completed: true,
        requested_at: erased_at,
        completed_at: Some(erased_at),
    }
}

/// The report on a user's erasure: on the job while there is one, else on the
/// audit record, if any.
pub fn load_user_erasure(
    user_id: Id,
    job: Option<(String, Instant)>,
    erased_at: Option<Instant>,
) -> (r: Option<UserErasure>)
    ensures
        r == match job {
            Some((email, requested_at)) => Some(pending_report(user_id, email, requested_at)),
            None => match erased_at {
                Some(at) => Some(completed_report(user_id, at)),
                None => None,
            },
        },
        r is None <==> job is None && erased_at is None,
        r is Some ==> r->0.user_id == user_id,
        r is Some ==> (r->0.completed <==> job is None),
{
    match job {
        Some((email, requested_at)) => Some(pending_erasure(user_id, email, requested_at)),
        None => match erased_at {
            Some(at) => Some(completed_erasure(user_id, at)),
            None => None,
        },
    }
}

/// The key by which reports are ordered.
pub open spec fn report_key(report: UserErasure) -> (Instant, Id) {
    (report.requested_at, report.user_id)
}

/// `a` stands before `b` in the listing, or may: it was requested later, or at
/// the same time by a greater identifier, or has the same key.
pub open spec fn no_earlier(a: UserErasure, b: UserErasure) -> bool {
    a.requested_at > b.requested_at || (a.requested_at == b.requested_at && a.user_id
        >= b.user_id)
}

/// Latest first.
pub open spec fn latest_first(v: Seq<UserErasure>) -> bool {
    forall|i: int, j: int| 0 <= i < j < v.len() ==> no_earlier(#[trigger] v[i], #[trigger] v[j])
}

/// The reports with one key, in their order.
pub open spec fn with_key(v: Seq<UserErasure>, key: (Instant, Id)) -> Seq<UserErasure> {
    v.filter(|report: UserErasure| report_key(report) == key)
}

/// All reports, latest first; reports with one key keep their order.
pub fn list_user_erasures(pending: Vec<UserErasure>, completed: Vec<UserErasure>) -> (r: Vec<
    UserErasure,
>)
    ensures
        latest_first(r@),
        forall|key: (Instant, Id)| with_key(r@, key) == with_key(pending@ + completed@, key),
{
    let mut items = pending;
    let mut more = completed;
    items.append(&mut more);
    let ghost all = pending@ + completed@;
    assert(items@ == all);
    let mut out: Vec<UserErasure> = Vec::new();
    let mut rest = items;
    assert forall|key: (Instant, Id)|
        #[trigger] with_key(rest@, key) + with_key(out@, key) == with_key(all, key) by {
        assert(with_key(out@, key) =~= seq![]) by {
            reveal(Seq::filter);
        }
        assert(with_key(rest@, key) + with_key(out@, key) =~= with_key(all, key));
    }
    while rest.len() > 0
        invariant
            latest_first(out@),
            forall|key: (Instant, Id)| #[trigger]
                with_key(rest@, key) + with_key(out@, key) == with_key(all, key),
        decreases rest@.len(),
    {
        let ghost rest_before = rest@;
        let ghost out_before = out@;
        match rest.pop() {
            Some(item) => {
                let mut at: usize = 0;
                while at < out.len() && (out[at].requested_at > item.requested_at || (
                out[at].requested_at == item.requested_at && out[at].user_id > item.user_id))
                    invariant
                        at <= out@.len(),
                        out@ == out_before,
                        latest_first(out@),
                        forall|k: int|
                            0 <= k < at ==> !no_earlier(item, #[trigger] out@[k]) && no_earlier(
                                out@[k],
                                item,
                            ),
                    decreases out@.len() - at,
                {
                    at = at + 1;
                }
                let ghost added = item;
                out.insert(at, item);
                proof {
                    lemma_insert_latest(out_before, added, at as int);
                    assert(rest_before =~= rest@.push(added));
                    assert(out@ =~= out_before.insert(at as int, added));
                    assert forall|key: (Instant, Id)| #[trigger]
                        with_key(rest@, key) + with_key(out@, key) == with_key(all, key) by {
                        lemma_insert_key(rest@, out_before, added, at as int, key);
                        assert(with_key(rest_before, key) + with_key(out_before, key) == with_key(
                            all,
                            key,
                        ));
                    }
                }
            },
            None => {},
        }
    }
    assert forall|key: (Instant, Id)| with_key(out@, key) == with_key(all, key) by {
        assert(with_key(rest@, key) + with_key(out@, key) == with_key(all, key));
        assert(with_key(rest@, key) =~= seq![]) by {
            reveal(Seq::filter);
        }
        assert(with_key(rest@, key) + with_key(out@, key) =~= with_key(out@, key));
    }
    out
}

proof fn lemma_insert_latest(v: Seq<UserErasure>, item: UserErasure, at: int)
    requires
        0 <= at <= v.len(),
        latest_first(v),
        forall|k: int| 0 <= k < at ==> no_earlier(#[trigger] v[k], item),
        at < v.len() ==> no_earlier(item, v[at]),
    ensures
        latest_first(v.insert(at, item)),
{
    let w = v.insert(at, item);
    assert forall|i: int, j: int| 0 <= i < j < w.len() implies no_earlier(
        #[trigger] w[i],
        #[trigger] w[j],
    ) by {
        let a = if i < at { i } else { i - 1 };
        let b = if j < at { j } else { j - 1 };
        if i != at && j != at {
            assert(w[i] == v[a] && w[j] == v[b]);
        } else if i == at {
            assert(w[j] == v[b]);
            if b > at {
                assert(no_earlier(v[at], v[b]));
            }
        } else {
            assert(w[i] == v[a]);
        }
    }
}

proof fn lemma_insert_key(
    rest: Seq<UserErasure>,
    out: Seq<UserErasure>,
    item: UserErasure,
    at: int,
    key: (Instant, Id),
)
    requires
        0 <= at <= out.len(),
        forall|k: int| 0 <= k < at ==> !no_earlier(item, #[trigger] out[k]),
    ensures
        with_key(rest, key) + with_key(out.insert(at, item), key) == with_key(rest.push(item), key)
            + with_key(out, key),
{
    let p = |report: UserErasure| report_key(report) == key;
    let head = out.take(at);
    let tail = out.skip(at);
    assert(out =~= head + tail);
    assert(out.insert(at, item) =~= head + (seq![item] + tail));
    Seq::filter_distributes_over_add(head, tail, p);
    Seq::filter_distributes_over_add(head, seq![item] + tail, p);
    Seq::filter_distributes_over_add(seq![item], tail, p);
    Seq::filter_distributes_over_add(rest, seq![item], p);
    assert(rest.push(item) =~= rest + seq![item]);
    if p(item) {
        lemma_none_with_key(head, p);
    } else {
        lemma_none_with_key(seq![item], p);
    }
    assert(with_key(rest, key) + with_key(out.insert(at, item), key) =~= with_key(
        rest.push(item),
        key,
    ) + with_key(out, key));
}

proof fn lemma_none_with_key(v: Seq<UserErasure>, p: spec_fn(UserErasure) -> bool)
    requires
        forall|k: int| 0 <= k < v.len() ==> !p(#[trigger] v[k]),
    ensures
        v.filter(p) == Seq::<UserErasure>::empty(),
    decreases v.len(),
{
    reveal(Seq::filter);
    if v.len() > 0 {
        assert forall|k: int| 0 <= k < v.drop_last().len() implies !p(
            #[trigger] v.drop_last()[k],
        ) by {
            assert(v.drop_last()[k] == v[k]);
        }
        lemma_none_with_key(v.drop_last(), p);
    }
}

/// What `a` deletes, or lets go, refers to what `b` deletes, so that it goes
/// first.
pub open spec fn purged_first(a: PurgeStep, b: PurgeStep) -> bool {
    match b {
        PurgeStep::DeleteRuns => a == PurgeStep::CollectOwnedRecords || a == PurgeStep::DetachMessages || a == PurgeStep::DeleteAttachments || a == PurgeStep::DeleteIntegrationMessages || a == PurgeStep::DeleteRunEvents,
        PurgeStep::DeleteMessages => a == PurgeStep::CollectOwnedRecords || a == PurgeStep::DeleteAttachments || a == PurgeStep::DeleteIntegrationMessages || a == PurgeStep::DeleteRunEvents,
        PurgeStep::DeleteTurns => a == PurgeStep::CollectOwnedRecords || a == PurgeStep::ClearActiveTurns || a == PurgeStep::DetachMessages || a == PurgeStep::DeleteMessages || a == PurgeStep::DeleteRuns,
        PurgeStep::DeleteHubSessions => a == PurgeStep::DeleteEmbedSessions || a == PurgeStep::DeleteIntegrationSessions || a == PurgeStep::DeleteBundleQueue || a == PurgeStep::DeleteRuns || a == PurgeStep::DeleteMessages || a == PurgeStep::DeleteTurns,
        PurgeStep::DeleteApps => a == PurgeStep::DeleteEmbedSessions || a == PurgeStep::DeleteIntegrationSessions || a == PurgeStep::DeleteHubSessions,
        PurgeStep::DeleteAgents => a == PurgeStep::BumpSharedSkillUsers || a == PurgeStep::DeleteHubSessions || a == PurgeStep::DeleteApps || a == PurgeStep::DeleteRuns,
        PurgeStep::DeleteUser => a == PurgeStep::BumpSharedSkillUsers || a == PurgeStep::DeleteHubSessions || a == PurgeStep::DeleteApps || a == PurgeStep::DeleteAgents || a == PurgeStep::WriteAudit,
        PurgeStep::DeleteJob => a == PurgeStep::WriteAudit || a == PurgeStep::DeleteUser,
        _ => false,
    }
}

/// The place of a step in a purge.
pub open spec fn purge_rank(step: PurgeStep) -> int {
    match step {
        PurgeStep::CollectOwnedRecords => 0,
        PurgeStep::BumpSharedSkillUsers => 1,
        PurgeStep::ClearActiveTurns => 2,
        PurgeStep::DetachMessages => 3,
        PurgeStep::DeleteAttachments => 4,
        PurgeStep::DeleteIntegrationMessages => 5,
        PurgeStep::DeleteRunEvents => 6,
        PurgeStep::DeleteEmbedSessions => 7,
        PurgeStep::DeleteIntegrationSessions => 8,
        PurgeStep::DeleteBundleQueue => 9,
        PurgeStep::DeleteRuns => 10,
        PurgeStep::DeleteMessages => 11,
        PurgeStep::DeleteTurns => 12,
        PurgeStep::DeleteHubSessions => 13,
        PurgeStep::DeleteApps => 14,
        PurgeStep::DeleteAgents => 15,
        PurgeStep::WriteAudit => 16,
        PurgeStep::DeleteUser => 17,
        PurgeStep::DeleteJob => 18,
    }
}

/// A user with a job, of whose objects and workspaces nothing is left, is
/// purged of every kind of record: each step is taken, and taken once, and
/// what refers to a record goes before the record. Otherwise nothing is
/// purged.
pub proof fn purges_are_complete(job_exists: bool, leftovers: Leftovers, step: PurgeStep, a: PurgeStep, b: PurgeStep)
    ensures
        ({
            let purge = purge_of(job_exists, leftovers);
            if job_exists && !leftovers.objects && !leftovers.workspaces {
                &&& exists|i: int|
                    0 <= i < purge.len() && #[trigger] purge[i] == step && forall|j: int|
                        0 <= j < purge.len() && #[trigger] purge[j] == step ==> j == i
                &&& purged_first(a, b) ==> forall|i: int, j: int|
                    0 <= i < purge.len() && 0 <= j < purge.len() && #[trigger] purge[i] == a
                        && #[trigger] purge[j] == b ==> i < j
            } else {
                purge.len() == 0
            }
        }),
{
    if job_exists && !leftovers.objects && !leftovers.workspaces {
        let purge = purge_of(job_exists, leftovers);
        assert forall|i: int| 0 <= i < purge.len() implies purge_rank(#[trigger] purge[i]) == i by {}
        assert(purge[purge_rank(step)] == step);
    }
}

/// What `a` does must be done before `b`: locks come first, then the job that
/// what is queued belongs to, the user is disabled before what it could still
/// use goes, and what is under way is ended before its session and agent.
pub open spec fn frozen_first(a: FreezeStep, b: FreezeStep) -> bool {
    match b {
        FreezeStep::LockAutomations => a == FreezeStep::LockAgents,
        FreezeStep::RecordJob => a == FreezeStep::LockAgents || a == FreezeStep::LockAutomations,
        FreezeStep::DisableUser => a == FreezeStep::RecordJob,
        FreezeStep::DeleteSessions => a == FreezeStep::DisableUser,
        FreezeStep::DeleteApiKeys => a == FreezeStep::DisableUser,
        FreezeStep::QueueBundleObjects => a == FreezeStep::RecordJob,
        FreezeStep::QueueSkillObjects => a == FreezeStep::RecordJob,
        FreezeStep::AssignCleanups => a == FreezeStep::RecordJob,
        FreezeStep::RecordWorkspaceCleanups => a == FreezeStep::AssignCleanups,
        FreezeStep::RetireApps => a == FreezeStep::DeleteAuthorizationCodes || a == FreezeStep::DeleteAccessTokens || a == FreezeStep::DisableChannels,
        FreezeStep::DeleteEmbedSessions => a == FreezeStep::DisableUser,
        FreezeStep::RetireHubSessions => a == FreezeStep::QueueBundleObjects || a == FreezeStep::RecordWorkspaceCleanups || a == FreezeStep::CancelToolRequests || a == FreezeStep::FailActiveRuns || a == FreezeStep::FailTurns || a == FreezeStep::FailMessages,
        FreezeStep::RetireAgents => a == FreezeStep::LockAgents || a == FreezeStep::DetachAgents || a == FreezeStep::DeleteAutomations || a == FreezeStep::FailActiveRuns || a == FreezeStep::RetireHubSessions,
        _ => false,
    }
}

/// The place of a step in the freezing of a user.
pub open spec fn freeze_rank(step: FreezeStep) -> int {
    match step {
        FreezeStep::LockAgents => 0,
        FreezeStep::LockAutomations => 1,
        FreezeStep::RecordJob => 2,
        FreezeStep::DisableUser => 3,
        FreezeStep::DeleteSessions => 4,
        FreezeStep::DeleteApiKeys => 5,
        FreezeStep::QueueBundleObjects => 6,
        FreezeStep::QueueSkillObjects => 7,
        FreezeStep::AssignCleanups => 8,
        FreezeStep::RecordWorkspaceCleanups => 9,
        FreezeStep::DeleteAuthorizationCodes => 10,
        FreezeStep::DeleteAccessTokens => 11,
        FreezeStep::DisableChannels => 12,
        FreezeStep::RetireApps => 13,
        FreezeStep::DetachAgents => 14,
        FreezeStep::DeleteAutomations => 15,
        FreezeStep::DeleteEmbedSessions => 16,
        FreezeStep::CancelToolRequests => 17,
        FreezeStep::FailActiveRuns => 18,
        FreezeStep::ClearRunSecrets => 19,
        FreezeStep::FailTurns => 20,
        FreezeStep::FailMessages => 21,
        FreezeStep::RetireHubSessions => 22,
        FreezeStep::RetireAgents => 23,
        FreezeStep::WithdrawShares => 24,
    }
}

/// Freezing a user leaves out nothing and does nothing twice, and in an order
/// that leaves nothing usable or lost in between.
pub proof fn freezing_is_complete(step: FreezeStep, a: FreezeStep, b: FreezeStep)
    ensures
        exists|i: int|
            0 <= i < freeze_plan().len() && #[trigger] freeze_plan()[i] == step && forall|j: int|
                0 <= j < freeze_plan().len() && #[trigger] freeze_plan()[j] == step ==> j == i,
        frozen_first(a, b) ==> forall|i: int, j: int|
            0 <= i < freeze_plan().len() && 0 <= j < freeze_plan().len() && #[trigger] freeze_plan()[i] == a
                && #[trigger] freeze_plan()[j] == b ==> i < j,
{
    let plan = freeze_plan();
    assert forall|i: int| 0 <= i < plan.len() implies freeze_rank(#[trigger] plan[i]) == i by {}
    assert(plan[freeze_rank(step)] == step);
}

/// Only an administrator has a user erased, one that they may see and whose
/// address was repeated; a super administrator goes only where another remains.
pub proof fn erasures_are_asked_for_by_administrators(
    admin: Role,
    target: Target,
    erased: Option<Role>,
    remain: bool,
)
    ensures
        request_next(RequestState::Administrator, RequestEvent::AdministratorIs(Some(admin))) == (
            RequestState::User(admin),
            RequestAction::FindUser,
        ),
        request_next(RequestState::Administrator, RequestEvent::AdministratorIs(None)).1 matches
            RequestAction::Refuse(e) && e.status == Status::Forbidden,
        request_next(RequestState::User(admin), RequestEvent::UserIs(None)) == (
            RequestState::Audit(admin),
            RequestAction::FindAudit,
        ),
        ({
            let next = request_next(RequestState::User(admin), RequestEvent::UserIs(Some(target)));
            let visible = target.role != Role::SuperAdmin || admin == Role::SuperAdmin;
            &&& !visible <==> next.1 is Refuse && (next.1->Refuse_0).status == Status::NotFound
            &&& visible && !target.email_confirmed <==> next.1 is Refuse && (
            next.1->Refuse_0).status == Status::Conflict
            &&& visible && target.email_confirmed && target.already_requested <==> next.1
                is AlreadyDone
            &&& visible && target.email_confirmed && !target.already_requested && target.role
                == Role::SuperAdmin <==> next == (RequestState::Others, RequestAction::FindOthers)
            &&& visible && target.email_confirmed && !target.already_requested && target.role
                != Role::SuperAdmin <==> next == (
                RequestState::Freezing(0),
                RequestAction::Freeze(FreezeStep::LockAgents),
            )
        }),
        ({
            let next = request_next(RequestState::Audit(admin), RequestEvent::AuditIs(erased));
            &&& next.1 is AlreadyDone <==> erased is Some && (erased->0 != Role::SuperAdmin
                || admin == Role::SuperAdmin)
            &&& !(next.1 is AlreadyDone) ==> next.1 is Refuse && (next.1->Refuse_0).status
                == Status::NotFound
        }),
        ({
            let next = request_next(RequestState::Others, RequestEvent::OthersRemain(remain));
            &&& remain ==> next == (
                RequestState::Freezing(0),
                RequestAction::Freeze(FreezeStep::LockAgents),
            )
            &&& !remain ==> next.1 is Refuse && (next.1->Refuse_0).status == Status::Conflict
        }),
{
}

/// One freezing step follows the other, and what is frozen is committed only
/// after the last.
pub proof fn freezing_goes_step_by_step(done: usize)
    requires
        done < freeze_plan().len(),
    ensures
        ({
            let next = request_next(RequestState::Freezing(done), RequestEvent::StepDone);
            &&& next.1 is Commit <==> done + 1 == 25
            &&& next.1 is Commit ==> next.0 is Closed
            &&& done + 1 < 25 ==> next == (
                RequestState::Freezing((done + 1) as usize),
                RequestAction::Freeze(freeze_plan()[done + 1]),
            )
        }),
{
}

/// Objects are deleted one after the other and store by store; the records go
/// only when both stores are empty, and whatever cannot be deleted ends the
/// attempt.
pub proof fn stores_are_emptied_object_by_object(
    store: ObjectStore,
    at: usize,
    count: usize,
    store_configured: bool,
)
    ensures
        ({
            let next = job_next(
                JobState::Listing(store),
                JobEvent::Listed { count, store_configured },
            );
            &&& count > 0 && store_configured ==> next == (
                JobState::Deleting(store, 0, count),
                JobAction::Delete(store, 0),
            )
            &&& count > 0 && !store_configured ==> next.1 is Refuse && (next.1->Refuse_0).status
                == Status::ServiceUnavailable
            &&& count == 0 && store == ObjectStore::Bundles ==> next == (
                JobState::Listing(ObjectStore::SkillPackages),
                JobAction::List(ObjectStore::SkillPackages),
            )
            &&& next.1 is Finalize <==> count == 0 && store == ObjectStore::SkillPackages
        }),
        at < count ==> ({
            let next = job_next(JobState::Deleting(store, at, count), JobEvent::Deleted);
            &&& at + 1 < count ==> next == (
                JobState::Deleting(store, (at + 1) as usize, count),
                JobAction::Delete(store, (at + 1) as usize),
            )
            &&& at + 1 == count && store == ObjectStore::Bundles ==> next == (
                JobState::Listing(ObjectStore::SkillPackages),
                JobAction::List(ObjectStore::SkillPackages),
            )
            &&& next.1 is Finalize <==> at + 1 == count && store == ObjectStore::SkillPackages
        }),
        job_next(JobState::Deleting(store, at, count), JobEvent::DeleteFailed) == (
            JobState::Noting(store),
            JobAction::NoteFailure(store),
        ),
        job_next(JobState::Noting(store), JobEvent::Noted).0 is Closed,
        job_next(JobState::Noting(store), JobEvent::Noted).1 matches JobAction::Refuse(e)
            && e.status == Status::BadGateway,
{
    match store {
        ObjectStore::Bundles => {},
        ObjectStore::SkillPackages => {},
    }
}

/// Of two reports the one whose erasure was asked for or completed later comes
/// first, and of two at one time the one of the greater identifier.
pub proof fn later_erasures_come_first(a: UserErasure, b: UserErasure)
    ensures
        a.requested_at > b.requested_at ==> latest_first(seq![a, b]),
        latest_first(seq![a, b]) ==> a.requested_at >= b.requested_at,
        latest_first(seq![a, b]) && a.requested_at == b.requested_at ==> a.user_id
            >= b.user_id,
{
    let pair = seq![a, b];
    assert(pair[0] == a && pair[1] == b);
    assert(latest_first(pair) ==> no_earlier(pair[0], pair[1]));
}

/// A report names the user, and the address only until the erasure is
/// complete.
pub proof fn reports_tell_how_far_it_is(user_id: Id, email: String, at: Instant)
    ensures
        pending_report(user_id, email, at).user_id == user_id,
        pending_report(user_id, email, at).email == Some(email),
        !pending_report(user_id, email, at).completed,
        pending_report(user_id, email, at).requested_at == at,
        pending_report(user_id, email, at).completed_at is None,
        completed_report(user_id, at).user_id == user_id,
        completed_report(user_id, at).email is None,
        completed_report(user_id, at).completed,
        completed_report(user_id, at).requested_at == at,
        completed_report(user_id, at).completed_at == Some(at),
        latest_first(seq![completed_report(user_id, at), pending_report(user_id, email, at)]),
{
}

} // verus!
