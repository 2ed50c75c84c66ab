//! Logging in with a password or against a directory: what happens in which
//! order.

use crate::error::{refusal, refuse, Refusal, Status};
use vstd::prelude::*;

verus! {

/// How somebody logs in.
#[derive(Clone, Copy, Debug, PartialEq, Eq, Structural)]
pub enum LoginKind {
    Password,
    Directory,
}

/// How far a login has come.
#[derive(Clone, Copy, Debug, PartialEq, Eq, Structural)]
pub enum LoginState {
    /// Waits for the attempt to be counted for its source.
    Source,
    /// Waits for the attempt to be counted for its address.
    Email,
    /// Waits for the policy on directory logins and the directory's
    /// configuration.
    Policy,
    /// Waits for the credentials to be checked.
    Credentials,
    /// Waits for the user that the directory vouches for.
    User,
    /// Waits for the failures of the address to be forgotten.
    Forgetting,
    /// Waits for a session.
    Session,
    Closed,
}

/// What happened.
#[derive(Clone, Copy, Debug, PartialEq, Eq, Structural)]
pub enum LoginEvent {
    /// The attempt was counted and is within the limit.
    Counted,
    /// Directory logins are open or not, and a directory is configured or
    /// not.
    PolicyIs { enabled: bool, configured: bool },
    /// The credentials are somebody's; for a password, a user's.
    Accepted { user: bool },
    UserResolved,
    Forgotten,
    SessionIssued,
}

/// What to do next. Where an action itself fails, the login ends with its
/// failure.
#[derive(Clone, Copy, Debug)]
pub enum LoginAction {
    CountSource,
    CountEmail,
    FindPolicy,
    CheckCredentials,
    ResolveUser,
    ForgetFailures,
    IssueSession,
    Finish,
    Refuse(Refusal),
}

/// Where a step leads.
pub type LoginStep = (LoginState, LoginAction);

/// The event answers what the state waits for.
pub open spec fn login_expects(state: LoginState, event: LoginEvent) -> bool {
    match state {
        LoginState::Source | LoginState::Email => event is Counted,
        LoginState::Policy => event is PolicyIs,
        LoginState::Credentials => event is Accepted,
        LoginState::User => event is UserResolved,
        LoginState::Forgetting => event is Forgotten,
        LoginState::Session => event is SessionIssued,
        LoginState::Closed => false,
    }
}

/// What comes once the attempt is counted.
pub open spec fn login_check(kind: LoginKind) -> LoginStep {
    match kind {
        LoginKind::Password => (LoginState::Credentials, LoginAction::CheckCredentials),
        LoginKind::Directory => (LoginState::Policy, LoginAction::FindPolicy),
    }
}

/// What comes once the user is known.
pub open spec fn login_success(counted_email: bool) -> LoginStep {
    if counted_email {
        (LoginState::Forgetting, LoginAction::ForgetFailures)
    } else {
        (LoginState::Session, LoginAction::IssueSession)
    }
}

/// A refusal that ends the login.
pub open spec fn login_refused(status: Status, message: &'static str) -> LoginStep {
    (LoginState::Closed, LoginAction::Refuse(refusal(status, message)))
}

/// What follows what happened. `counted_email` says that the address can be
/// counted.
pub open spec fn login_next(
    kind: LoginKind,
    counted_email: bool,
    state: LoginState,
    event: LoginEvent,
) -> LoginStep {
    match (state, event) {
        (LoginState::Source, _) => if counted_email {
            (LoginState::Email, LoginAction::CountEmail)
        } else {
            login_check(kind)
        },
        (LoginState::Email, _) => login_check(kind),
        (LoginState::Policy, LoginEvent::PolicyIs { enabled, configured }) => if !enabled {
            login_refused(Status::Forbidden, "LDAP login is disabled")
        } else if !configured {
            login_refused(Status::ServiceUnavailable, "LDAP service is temporarily unavailable")
        } else {
            (LoginState::Credentials, LoginAction::CheckCredentials)
        },
        (LoginState::Credentials, LoginEvent::Accepted { user }) => match kind {
            LoginKind::Directory => (LoginState::User, LoginAction::ResolveUser),
            LoginKind::Password => if user {
                login_success(counted_email)
            } else {
                login_refused(Status::Unauthorized, "invalid credentials")
            },
        },
        (LoginState::User, _) => login_success(counted_email),
        (LoginState::Forgetting, _) => (LoginState::Session, LoginAction::IssueSession),
        _ => (LoginState::Closed, LoginAction::Finish),
    }
}

/// The start of a login.
pub fn begin_login() -> (r: LoginStep)
    ensures
        r == (LoginState::Source, LoginAction::CountSource),
        forall|kind: LoginKind, counted_email: bool|
            r == #[trigger] login_run(kind, counted_email, seq![]),
{
    (LoginState::Source, LoginAction::CountSource)
}

fn check_step(kind: LoginKind) -> (r: LoginStep)
    ensures
        r == login_check(kind),
{
    match kind {
        LoginKind::Password => (LoginState::Credentials, LoginAction::CheckCredentials),
        LoginKind::Directory => (LoginState::Policy, LoginAction::FindPolicy),
    }
}

fn success_step(counted_email: bool) -> (r: LoginStep)
    ensures
        r == login_success(counted_email),
{
    if counted_email {
        (LoginState::Forgetting, LoginAction::ForgetFailures)
    } else {
        (LoginState::Session, LoginAction::IssueSession)
    }
}

fn stop_login(status: Status, message: &'static str) -> (r: LoginStep)
    ensures
        r == login_refused(status, message),
{
    (LoginState::Closed, LoginAction::Refuse(refuse(status, message)))
}

/// Takes a login one step on.
pub fn login(kind: LoginKind, counted_email: bool, state: LoginState, event: LoginEvent) -> (r:
    LoginStep)
    requires
        login_expects(state, event),
    ensures
        r == login_next(kind, counted_email, state, event),
{
    match (state, event) {
        (LoginState::Source, _) => {
            if counted_email {
                (LoginState::Email, LoginAction::CountEmail)
            } else {
                check_step(kind)
            }
        },
        (LoginState::Email, _) => check_step(kind),
        (LoginState::Policy, LoginEvent::PolicyIs { enabled, configured }) => {
            if !enabled {
                stop_login(Status::Forbidden, "LDAP login is disabled")
            } else if !configured {
                stop_login(Status::ServiceUnavailable, "LDAP service is temporarily unavailable")
            } else {
                (LoginState::Credentials, LoginAction::CheckCredentials)
            }
        },
        (LoginState::Credentials, LoginEvent::Accepted { user }) => match kind {
            LoginKind::Directory => (LoginState::User, LoginAction::ResolveUser),
            LoginKind::Password => {
                if user {
                    success_step(counted_email)
                } else {
                    stop_login(Status::Unauthorized, "invalid credentials")
                }
            },
        },
        (LoginState::User, _) => success_step(counted_email),
        (LoginState::Forgetting, _) => (LoginState::Session, LoginAction::IssueSession),
        _ => (LoginState::Closed, LoginAction::Finish),
    }
}

/// The step that a history of events leads to.
pub open spec fn login_run(kind: LoginKind, counted_email: bool, events: Seq<LoginEvent>) -> LoginStep
    decreases events.len(),
{
    if events.len() == 0 {
        (LoginState::Source, LoginAction::CountSource)
    } else {
        login_next(
            kind,
            counted_email,
            login_run(kind, counted_email, events.drop_last()).0,
            events.last(),
        )
    }
}

/// Each event answers what the state before it waits for.
pub open spec fn login_history(kind: LoginKind, counted_email: bool, events: Seq<LoginEvent>) -> bool
    decreases events.len(),
{
    events.len() == 0 || (login_history(kind, counted_email, events.drop_last()) && login_expects(
        login_run(kind, counted_email, events.drop_last()).0,
        events.last(),
    ))
}

/// The number of counts that come before anything else.
pub open spec fn counts(counted_email: bool) -> int {
    if counted_email {
        2
    } else {
        1
    }
}

/// The attempt was counted for its source, and for its address where that can
/// be counted.
pub open spec fn was_counted(counted_email: bool, events: Seq<LoginEvent>) -> bool {
    events.len() >= counts(counted_email) && forall|i: int|
        0 <= i < counts(counted_email) ==> #[trigger] events[i] == LoginEvent::Counted
}

/// The credentials were accepted.
pub open spec fn was_accepted(events: Seq<LoginEvent>) -> bool {
    exists|i: int| 0 <= i < events.len() && (#[trigger] events[i]) is Accepted
}

proof fn lemma_login(kind: LoginKind, counted_email: bool, events: Seq<LoginEvent>)
    requires
        login_history(kind, counted_email, events),
    ensures
        match login_run(kind, counted_email, events).0 {
            LoginState::Source => events.len() == 0,
            LoginState::Email => counted_email && events == seq![LoginEvent::Counted],
            LoginState::Policy | LoginState::Credentials => was_counted(counted_email, events),
            LoginState::User | LoginState::Session => was_counted(counted_email, events)
                && was_accepted(events),
            LoginState::Forgetting => counted_email && was_counted(counted_email, events)
                && was_accepted(events),
            LoginState::Closed => true,
        },
        login_run(kind, counted_email, events).1 is Finish ==> was_counted(counted_email, events)
            && was_accepted(events),
    decreases events.len(),
{
    if events.len() > 0 {
        let before = events.drop_last();
        lemma_login(kind, counted_email, before);
        assert(events.last() == events[events.len() - 1]);
        assert forall|i: int| 0 <= i < before.len() implies events[i] == before[i] by {}
        if was_accepted(before) {
            let i = choose|i: int| 0 <= i < before.len() && (#[trigger] before[i]) is Accepted;
            assert(events[i] is Accepted);
        }
        if events.last() is Accepted {
            assert(events[events.len() - 1] is Accepted);
        }
        if login_run(kind, counted_email, events).0 is Email {
            assert(events =~= seq![LoginEvent::Counted]);
        }
    }
}

/// Every attempt is counted before its credentials are looked at, so attempts
/// made at the same time cannot slip past the limit together; failures are
/// forgotten and a session is issued only after the credentials were accepted.
pub proof fn attempts_are_counted_before_they_are_checked(
    kind: LoginKind,
    counted_email: bool,
    events: Seq<LoginEvent>,
)
    requires
        login_history(kind, counted_email, events),
    ensures
        login_run(kind, counted_email, events).1 is CheckCredentials ==> was_counted(
            counted_email,
            events,
        ),
        login_run(kind, counted_email, events).1 is ForgetFailures || login_run(
            kind,
            counted_email,
            events,
        ).1 is IssueSession || login_run(kind, counted_email, events).1 is Finish ==> was_counted(
            counted_email,
            events,
        ) && was_accepted(events),
{
    lemma_login(kind, counted_email, events);
}

/// A login that goes well goes the whole way: counted for its source and for
/// its address where it has one, checked, its failures forgotten, and ended
/// with a session.
pub proof fn good_logins_get_a_session(counted_email: bool, user: bool)
    ensures
        login_next(LoginKind::Password, true, LoginState::Source, LoginEvent::Counted).1
            is CountEmail,
        login_next(LoginKind::Password, false, LoginState::Source, LoginEvent::Counted).1
            is CheckCredentials,
        login_next(LoginKind::Directory, true, LoginState::Source, LoginEvent::Counted).1
            is CountEmail,
        login_next(LoginKind::Directory, false, LoginState::Source, LoginEvent::Counted).1
            is FindPolicy,
        login_next(LoginKind::Password, true, LoginState::Email, LoginEvent::Counted).1
            is CheckCredentials,
        login_next(LoginKind::Directory, true, LoginState::Email, LoginEvent::Counted).1
            is FindPolicy,
        ({
            let end = login_next(
                LoginKind::Password,
                counted_email,
                LoginState::Credentials,
                LoginEvent::Accepted { user },
            ).1;
            &&& end is Refuse <==> !user
            &&& !user ==> end->Refuse_0.status == Status::Unauthorized
            &&& user && counted_email ==> end is ForgetFailures
            &&& user && !counted_email ==> end is IssueSession
        }),
        login_next(
            LoginKind::Directory,
            counted_email,
            LoginState::Credentials,
            LoginEvent::Accepted { user },
        ).1 is ResolveUser,
        login_next(
            LoginKind::Directory,
            counted_email,
            LoginState::User,
            LoginEvent::UserResolved,
        ).1 is ForgetFailures <==> counted_email,
        login_next(
            LoginKind::Directory,
            counted_email,
            LoginState::User,
            LoginEvent::UserResolved,
        ).1 is IssueSession <==> !counted_email,
        forall|kind: LoginKind|
            #[trigger] login_next(
                kind,
                counted_email,
                LoginState::Forgetting,
                LoginEvent::Forgotten,
            ).1 is IssueSession && login_next(
                kind,
                counted_email,
                LoginState::Session,
                LoginEvent::SessionIssued,
            ).1 is Finish,
{
}

/// The directory is asked only where its logins are open and there is one.
pub proof fn the_directory_is_asked_when_open(counted_email: bool, enabled: bool, configured: bool)
    ensures
        ({
            let next = login_next(
                LoginKind::Directory,
                counted_email,
                LoginState::Policy,
                LoginEvent::PolicyIs { enabled, configured },
            ).1;
            &&& next is CheckCredentials <==> enabled && configured
            &&& !enabled ==> next is Refuse && next->Refuse_0.status == Status::Forbidden
            &&& enabled && !configured ==> next is Refuse && next->Refuse_0.status
                == Status::ServiceUnavailable
        }),
{
}

} // verus!
