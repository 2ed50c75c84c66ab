//! A message from a widget: which session it goes to and what is recorded of
//! the run that it starts.

use crate::error::{refusal, refuse, Refusal, Status};
use crate::ids::Id;
use crate::text::opt_view;
use crate::widget::{
    run_session_locator, widget_run_session_locator, NamedSessions, WidgetCredential,
};
use crate::widget_profile::{client_message_key, normalize_client_message_key, opt_str};
use vstd::prelude::*;

verus! {

/// What a widget asks for.
#[derive(Debug)]
pub struct WidgetRunRequest {
    pub client_message_key: Option<String>,
    pub named: NamedSessions,
}

/// Who pays for the model that a run uses.
#[derive(Clone, Copy, Debug, PartialEq, Eq, Structural)]
pub enum ModelSubject {
    IntegrationApp,
    User,
}

/// The message to accept: its session, and who is charged.
#[derive(Clone, Copy, Debug, PartialEq, Eq, Structural)]
pub struct AcceptWidgetMessage {
    pub hub_session_id: Id,
    pub integration_session_id: Option<Id>,
    /// The profile of the outside user goes with the message.
    pub with_external_user: bool,
    pub subject: ModelSubject,
    pub subject_user_id: Option<Id>,
    pub source_app_id: Option<Id>,
}

/// How far the message has come.
#[derive(Clone, Copy, Debug, PartialEq, Eq, Structural)]
pub enum WidgetRunState {
    /// Waits for the agent's model to be found.
    Model,
    /// Waits for the secrets that the user has not granted.
    Grants,
    /// Waits for the visitor's session that took this message before; the
    /// request asks for this session.
    VisitorRetry(Option<Id>),
    /// Waits for the visitor's new session.
    VisitorSession,
    /// Waits for the profile of the outside user; the request asks for these
    /// sessions, and the message may have been sent before.
    Profile { integration: Option<Id>, hub: Option<Id>, keyed: bool },
    /// Waits for the outside user's session that took this message before.
    ExternalRetry,
    /// Waits for a session of the outside user.
    ExternalLookup,
    /// Waits for the outside user's new session.
    ExternalSession,
    /// Waits for the message to be accepted.
    Acceptance,
    Closed,
}

/// What was found, or done.
#[derive(Debug)]
pub enum WidgetRunEvent {
    ModelConfigured,
    /// The secrets that are not granted.
    MissingGrants(Vec<String>),
    VisitorRetried(Option<Id>),
    VisitorSessionCreated(Id),
    /// The profile that was stored with the credential can be read, or not.
    ProfileRead(bool),
    /// The integration session and the hub session that took the message.
    ExternalRetried(Option<(Id, Id)>),
    /// The hub session and the integration session that were found.
    ExternalFound(Id, Id),
    /// The hub session and the integration session that were created.
    ExternalSessionCreated(Id, Id),
    /// The message was accepted: with a run or without, into a turn that is
    /// under way or not.
    Accepted { run: bool, steered: bool },
}

/// What to do next.
#[derive(Debug)]
pub enum WidgetRunAction {
    RequireModel,
    FindMissingGrants,
    FindVisitorRetry,
    CreateVisitorSession,
    ReadProfile,
    FindExternalRetry,
    /// Look up a session of the outside user by these names.
    FindExternalSession(Option<Id>, Option<Id>),
    CreateExternalSession,
    Accept(AcceptWidgetMessage),
    /// Record the run: for this client instance with its tools, if any, and
    /// for the credential.
    Record(Option<Id>),
    /// Ask for the secrets that the agent needs and that are not granted.
    AskForGrants(Vec<String>),
    Refuse(Refusal),
}

/// Where a step leads.
pub type WidgetRunStep = (WidgetRunState, WidgetRunAction);

/// A refusal that ends the message.
pub open spec fn widget_refused(status: Status, message: &'static str) -> WidgetRunStep {
    (WidgetRunState::Closed, WidgetRunAction::Refuse(refusal(status, message)))
}

/// The event answers what the state waits for.
pub open spec fn widget_expects(
    credential: WidgetCredential,
    state: WidgetRunState,
    event: WidgetRunEvent,
) -> bool {
    match state {
        WidgetRunState::Model => event is ModelConfigured,
        WidgetRunState::Grants => event is MissingGrants,
        WidgetRunState::VisitorRetry(_) => event is VisitorRetried && credential.anonymous,
        WidgetRunState::VisitorSession => event is VisitorSessionCreated,
        WidgetRunState::Profile { .. } => event is ProfileRead,
        WidgetRunState::ExternalRetry => event is ExternalRetried,
        WidgetRunState::ExternalLookup => event is ExternalFound,
        WidgetRunState::ExternalSession => event is ExternalSessionCreated,
        WidgetRunState::Acceptance => event is Accepted,
        WidgetRunState::Closed => false,
    }
}

/// The message goes to this session; the application pays where there is one,
/// else the owner of the credential.
pub open spec fn accept_into(
    credential: WidgetCredential,
    hub: Id,
    integration: Option<Id>,
) -> WidgetRunStep {
    (
        WidgetRunState::Acceptance,
        WidgetRunAction::Accept(
            AcceptWidgetMessage {
                hub_session_id: hub,
                integration_session_id: integration,
                with_external_user: integration is Some,
                subject: if credential.oauth_app_id is Some {
                    ModelSubject::IntegrationApp
                } else {
                    ModelSubject::User
                },
                subject_user_id: if credential.oauth_app_id is Some {
                    None
                } else {
                    Some(credential.owner_id)
                },
                source_app_id: credential.oauth_app_id,
            },
        ),
    )
}

/// The session of a visitor's message that was not sent before: the one that
/// the credential is bound to, which the request may name, or a new one.
pub open spec fn visitor_session(
    credential: WidgetCredential,
    requested: Option<Id>,
) -> WidgetRunStep {
    match credential.hub_session_id {
        Some(bound) => if requested is Some && requested != Some(bound) {
            widget_refused(
                Status::BadRequest,
                "public Widget credential is bound to another session",
            )
        } else {
            accept_into(credential, bound, None)
        },
        None => if requested is Some {
            widget_refused(Status::BadRequest, "public Widget has not started this session")
        } else {
            (WidgetRunState::VisitorSession, WidgetRunAction::CreateVisitorSession)
        },
    }
}

/// What the credential of an outside user lacks, if anything.
pub open spec fn scope_gap(credential: WidgetCredential) -> Option<Refusal> {
    if credential.oauth_app_id is None {
        Some(refusal(Status::Internal, "external Widget app is missing"))
    } else if credential.external_platform_id is None {
        Some(refusal(Status::Internal, "external Widget platform is missing"))
    } else if credential.external_tenant_id is None {
        Some(refusal(Status::Internal, "external Widget tenant is missing"))
    } else if credential.external_user_id is None {
        Some(refusal(Status::Internal, "external Widget user is missing"))
    } else if credential.external_identity_id is None {
        Some(refusal(Status::Internal, "external Widget identity is missing"))
    } else {
        None
    }
}

/// The choice of a session, once the key and the names of the request are
/// understood.
pub open spec fn choose_session(
    credential: WidgetCredential,
    keyed: bool,
    integration: Option<Id>,
    hub: Option<Id>,
) -> WidgetRunStep {
    if credential.anonymous {
        if keyed {
            (WidgetRunState::VisitorRetry(hub), WidgetRunAction::FindVisitorRetry)
        } else {
            visitor_session(credential, hub)
        }
    } else if credential.external() {
        match scope_gap(credential) {
            Some(gap) => (WidgetRunState::Closed, WidgetRunAction::Refuse(gap)),
            None => (
                WidgetRunState::Profile { integration, hub, keyed },
                WidgetRunAction::ReadProfile,
            ),
        }
    } else {
        match credential.hub_session_id {
            None => widget_refused(Status::Unauthorized, "invalid embed session"),
            Some(bound) => if hub is Some && hub != Some(bound) {
                widget_refused(Status::BadRequest, "embed token is bound to another session")
            } else {
                accept_into(credential, bound, None)
            },
        }
    }
}

/// What follows once nothing stands against the message: its key must be
/// valid and the names of the session must agree.
pub open spec fn admitted(credential: WidgetCredential, request: WidgetRunRequest) -> WidgetRunStep {
    match client_message_key(opt_view(request.client_message_key)) {
        Err(_) => widget_refused(Status::BadRequest, "valid client message key is required"),
        Ok(key) => match run_session_locator(credential, request.named) {
            Err(e) => (WidgetRunState::Closed, WidgetRunAction::Refuse(e)),
            Ok((integration, hub)) => choose_session(credential, key is Some, integration, hub),
        },
    }
}

/// What follows what was found. A message that was sent before goes to the
/// session that took it then.
pub open spec fn widget_next(
    credential: WidgetCredential,
    request: WidgetRunRequest,
    state: WidgetRunState,
    event: WidgetRunEvent,
) -> WidgetRunStep {
    match event {
        WidgetRunEvent::ModelConfigured => if credential.anonymous {
            admitted(credential, request)
        } else {
            (WidgetRunState::Grants, WidgetRunAction::FindMissingGrants)
        },
        WidgetRunEvent::MissingGrants(secrets) => if secrets@.len() > 0 {
            (WidgetRunState::Closed, WidgetRunAction::AskForGrants(secrets))
        } else {
            admitted(credential, request)
        },
        WidgetRunEvent::VisitorRetried(retried) => match (retried, state) {
            (Some(hub), _) => accept_into(credential, hub, None),
            (None, WidgetRunState::VisitorRetry(requested)) => visitor_session(
                credential,
                requested,
            ),
            _ => widget_refused(Status::Internal, "widget message is out of order"),
        },
        WidgetRunEvent::VisitorSessionCreated(hub) => accept_into(credential, hub, None),
        WidgetRunEvent::ProfileRead(readable) => match state {
            WidgetRunState::Profile { integration, hub, keyed } => if !readable {
                widget_refused(Status::Internal, "external Widget profile is invalid")
            } else if integration is Some || hub is Some {
                (
                    WidgetRunState::ExternalLookup,
                    WidgetRunAction::FindExternalSession(integration, hub),
                )
            } else if keyed {
                (WidgetRunState::ExternalRetry, WidgetRunAction::FindExternalRetry)
            } else {
                (WidgetRunState::ExternalSession, WidgetRunAction::CreateExternalSession)
            },
            _ => widget_refused(Status::Internal, "widget message is out of order"),
        },
        WidgetRunEvent::ExternalRetried(Some((integration, hub))) => (
            WidgetRunState::ExternalLookup,
            WidgetRunAction::FindExternalSession(Some(integration), Some(hub)),
        ),
        WidgetRunEvent::ExternalRetried(None) => (
            WidgetRunState::ExternalSession,
            WidgetRunAction::CreateExternalSession,
        ),
        WidgetRunEvent::ExternalFound(hub, integration) => accept_into(
            credential,
            hub,
            Some(integration),
        ),
        WidgetRunEvent::ExternalSessionCreated(hub, integration) => accept_into(
            credential,
            hub,
            Some(integration),
        ),
        WidgetRunEvent::Accepted { run, steered } => if !run {
            widget_refused(Status::Internal, "widget message did not schedule a run")
        } else {
            (
                WidgetRunState::Closed,
                WidgetRunAction::Record(
                    if steered {
                        None
                    } else {
                        credential.client_instance_id
                    },
                ),
            )
        },
    }
}

/// The start of a message.
pub fn begin_widget_run() -> (r: WidgetRunStep)
    ensures
        r == (WidgetRunState::Model, WidgetRunAction::RequireModel),
{
    (WidgetRunState::Model, WidgetRunAction::RequireModel)
}

fn refused_step(status: Status, message: &'static str) -> (r: WidgetRunStep)
    ensures
        r == widget_refused(status, message),
{
    (WidgetRunState::Closed, WidgetRunAction::Refuse(refuse(status, message)))
}

fn accept_step(credential: &WidgetCredential, hub: Id, integration: Option<Id>) -> (r: WidgetRunStep)
    ensures
        r == accept_into(*credential, hub, integration),
{
    let subject = if credential.oauth_app_id.is_some() {
        ModelSubject::IntegrationApp
    } else {
        ModelSubject::User
    };
    let subject_user_id = if credential.oauth_app_id.is_some() {
        None
    } else {
        Some(credential.owner_id)
    };
    (
        WidgetRunState::Acceptance,
        WidgetRunAction::Accept(
            AcceptWidgetMessage {
                hub_session_id: hub,
                integration_session_id: integration,
                with_external_user: integration.is_some(),
                subject,
                subject_user_id,
                source_app_id: credential.oauth_app_id,
            },
        ),
    )
}

fn visitor_step(credential: &WidgetCredential, requested: Option<Id>) -> (r: WidgetRunStep)
    ensures
        r == visitor_session(*credential, requested),
{
    match (credential.hub_session_id, requested) {
        (Some(bound), Some(wanted)) => {
            if wanted != bound {
                refused_step(
                    Status::BadRequest,
                    "public Widget credential is bound to another session",
                )
            } else {
                accept_step(credential, bound, None)
            }
        },
        (Some(bound), None) => accept_step(credential, bound, None),
        (None, Some(_)) => refused_step(
            Status::BadRequest,
            "public Widget has not started this session",
        ),
        (None, None) => (WidgetRunState::VisitorSession, WidgetRunAction::CreateVisitorSession),
    }
}

fn find_scope_gap(credential: &WidgetCredential) -> (r: Option<Refusal>)
    ensures
        r == scope_gap(*credential),
{
    if credential.oauth_app_id.is_none() {
        Some(refuse(Status::Internal, "external Widget app is missing"))
    } else if credential.external_platform_id.is_none() {
        Some(refuse(Status::Internal, "external Widget platform is missing"))
    } else if credential.external_tenant_id.is_none() {
        Some(refuse(Status::Internal, "external Widget tenant is missing"))
    } else if credential.external_user_id.is_none() {
        Some(refuse(Status::Internal, "external Widget user is missing"))
    } else if credential.external_identity_id.is_none() {
        Some(refuse(Status::Internal, "external Widget identity is missing"))
    } else {
        None
    }
}

fn choose_step(
    credential: &WidgetCredential,
    keyed: bool,
    integration: Option<Id>,
    hub: Option<Id>,
) -> (r: WidgetRunStep)
    ensures
        r == choose_session(*credential, keyed, integration, hub),
{
    if credential.is_anonymous() {
        if keyed {
            return (WidgetRunState::VisitorRetry(hub), WidgetRunAction::FindVisitorRetry);
        }
        return visitor_step(credential, hub);
    }
    if credential.is_external() {
        return match find_scope_gap(credential) {
            Some(gap) => (WidgetRunState::Closed, WidgetRunAction::Refuse(gap)),
            None => (
                WidgetRunState::Profile { integration, hub, keyed },
                WidgetRunAction::ReadProfile,
            ),
        };
    }
    match (credential.hub_session_id, hub) {
        (None, _) => refused_step(Status::Unauthorized, "invalid embed session"),
        (Some(bound), Some(wanted)) => {
            if wanted != bound {
                refused_step(Status::BadRequest, "embed token is bound to another session")
            } else {
                accept_step(credential, bound, None)
            }
        },
        (Some(bound), None) => accept_step(credential, bound, None),
    }
}

fn admit_step(credential: &WidgetCredential, request: &WidgetRunRequest) -> (r: WidgetRunStep)
    ensures
        r == admitted(*credential, *request),
{
    let given = match &request.client_message_key {
        Some(key) => Some(key.as_str()),
        None => None,
    };
    assert(opt_str(given) == opt_view(request.client_message_key));
    let keyed = match normalize_client_message_key(given) {
        Ok(key) => key.is_some(),
        Err(_) => {
            return refused_step(Status::BadRequest, "valid client message key is required");
        },
    };
    match widget_run_session_locator(credential, request.named) {
        Err(e) => (WidgetRunState::Closed, WidgetRunAction::Refuse(e)),
        Ok((integration, hub)) => choose_step(credential, keyed, integration, hub),
    }
}

/// Takes a message one step on.
pub fn create_widget_run(
    credential: &WidgetCredential,
    request: &WidgetRunRequest,
    state: WidgetRunState,
    event: WidgetRunEvent,
) -> (r: WidgetRunStep)
    requires
        widget_expects(*credential, state, event),
    ensures
        r == widget_next(*credential, *request, state, event),
{
    match event {
        WidgetRunEvent::ModelConfigured => {
            if credential.is_anonymous() {
                admit_step(credential, request)
            } else {
                (WidgetRunState::Grants, WidgetRunAction::FindMissingGrants)
            }
        },
        WidgetRunEvent::MissingGrants(secrets) => {
            if secrets.len() > 0 {
                (WidgetRunState::Closed, WidgetRunAction::AskForGrants(secrets))
            } else {
                admit_step(credential, request)
            }
        },
        WidgetRunEvent::VisitorRetried(retried) => match (retried, state) {
            (Some(hub), _) => accept_step(credential, hub, None),
            (None, WidgetRunState::VisitorRetry(requested)) => visitor_step(credential, requested),
            _ => refused_step(Status::Internal, "widget message is out of order"),
        },
        WidgetRunEvent::VisitorSessionCreated(hub) => accept_step(credential, hub, None),
        WidgetRunEvent::ProfileRead(readable) => match state {
            WidgetRunState::Profile { integration, hub, keyed } => {
                if !readable {
                    refused_step(Status::Internal, "external Widget profile is invalid")
                } else if integration.is_some() || hub.is_some() {
                    (
                        WidgetRunState::ExternalLookup,
                        WidgetRunAction::FindExternalSession(integration, hub),
                    )
                } else if keyed {
                    (WidgetRunState::ExternalRetry, WidgetRunAction::FindExternalRetry)
                } else {
                    (WidgetRunState::ExternalSession, WidgetRunAction::CreateExternalSession)
                }
            },
            _ => refused_step(Status::Internal, "widget message is out of order"),
        },
        WidgetRunEvent::ExternalRetried(Some((integration, hub))) => (
            WidgetRunState::ExternalLookup,
            WidgetRunAction::FindExternalSession(Some(integration), Some(hub)),
        ),
        WidgetRunEvent::ExternalRetried(None) => (
            WidgetRunState::ExternalSession,
            WidgetRunAction::CreateExternalSession,
        ),
        WidgetRunEvent::ExternalFound(hub, integration) => accept_step(
            credential,
            hub,
            Some(integration),
        ),
        WidgetRunEvent::ExternalSessionCreated(hub, integration) => accept_step(
            credential,
            hub,
            Some(integration),
        ),
        WidgetRunEvent::Accepted { run, steered } => {
            if !run {
                refused_step(Status::Internal, "widget message did not schedule a run")
            } else if steered {
                (WidgetRunState::Closed, WidgetRunAction::Record(None))
            } else {
                (WidgetRunState::Closed, WidgetRunAction::Record(credential.client_instance_id))
            }
        },
    }
}

// ---------------------------------------------------------------------------
// Laws
// ---------------------------------------------------------------------------

/// The session that an accepted message goes to.
pub open spec fn goes_to(step: WidgetRunStep) -> Option<Id> {
    match step.1 {
        WidgetRunAction::Accept(message) => Some(message.hub_session_id),
        _ => None,
    }
}

/// The state that a history of events leads to, and the last action.
pub open spec fn widget_history_step(
    credential: WidgetCredential,
    request: WidgetRunRequest,
    events: Seq<WidgetRunEvent>,
) -> WidgetRunStep
    decreases events.len(),
{
    if events.len() == 0 {
        (WidgetRunState::Model, WidgetRunAction::RequireModel)
    } else {
        widget_next(
            credential,
            request,
            widget_history_step(credential, request, events.drop_last()).0,
            events.last(),
        )
    }
}

/// Each event answers what the state before it waits for.
pub open spec fn widget_history(
    credential: WidgetCredential,
    request: WidgetRunRequest,
    events: Seq<WidgetRunEvent>,
) -> bool
    decreases events.len(),
{
    events.len() == 0 || (widget_history(credential, request, events.drop_last()) && widget_expects(
        credential,
        widget_history_step(credential, request, events.drop_last()).0,
        events.last(),
    ))
}

/// What the states after the profile belong to.
pub open spec fn state_fits(credential: WidgetCredential, state: WidgetRunState) -> bool {
    match state {
        WidgetRunState::Grants => !credential.anonymous,
        WidgetRunState::VisitorRetry(_) => credential.anonymous,
        WidgetRunState::VisitorSession => credential.anonymous && credential.hub_session_id is None,
        WidgetRunState::Profile { .. } | WidgetRunState::ExternalRetry
        | WidgetRunState::ExternalLookup | WidgetRunState::ExternalSession => credential.external()
            && credential.fully_scoped(),
        _ => true,
    }
}

proof fn lemma_state_fits(
    credential: WidgetCredential,
    request: WidgetRunRequest,
    events: Seq<WidgetRunEvent>,
)
    requires
        widget_history(credential, request, events),
    ensures
        state_fits(credential, widget_history_step(credential, request, events).0),
    decreases events.len(),
{
    if events.len() > 0 {
        lemma_state_fits(credential, request, events.drop_last());
    }
}

/// A message goes only where its credential reaches. An embedding page's
/// credential reaches the session that it is bound to. A visitor's reaches
/// the session that it is bound to, the one that took the same message
/// before, or a new one where it has none. An outside user's reaches a session
/// that was found in the user's scope, or a new one.
pub proof fn messages_stay_in_scope(
    credential: WidgetCredential,
    request: WidgetRunRequest,
    events: Seq<WidgetRunEvent>,
)
    requires
        events.len() > 0,
        widget_history(credential, request, events),
        goes_to(widget_history_step(credential, request, events)) is Some,
    ensures
        ({
            let hub = goes_to(widget_history_step(credential, request, events))->0;
            if credential.anonymous {
                ||| credential.hub_session_id == Some(hub)
                ||| events.last() == WidgetRunEvent::VisitorRetried(Some(hub))
                ||| credential.hub_session_id is None && events.last()
                    == WidgetRunEvent::VisitorSessionCreated(hub)
            } else if credential.external() {
                match events.last() {
                    WidgetRunEvent::ExternalFound(found, _) => found == hub,
                    WidgetRunEvent::ExternalSessionCreated(created, _) => created == hub,
                    _ => false,
                }
            } else {
                credential.hub_session_id == Some(hub)
            }
        }),
{
    lemma_state_fits(credential, request, events.drop_last());
}

/// A message of a user whose secrets are not all granted is never accepted:
/// just those that are not are asked for.
pub proof fn missing_grants_stop_a_message(
    credential: WidgetCredential,
    request: WidgetRunRequest,
    state: WidgetRunState,
    secrets: Vec<String>,
)
    requires
        secrets@.len() > 0,
    ensures
        widget_next(credential, request, state, WidgetRunEvent::MissingGrants(secrets)) == (
            WidgetRunState::Closed,
            WidgetRunAction::AskForGrants(secrets),
        ),
        !credential.anonymous ==> widget_next(
            credential,
            request,
            WidgetRunState::Model,
            WidgetRunEvent::ModelConfigured,
        ) == (WidgetRunState::Grants, WidgetRunAction::FindMissingGrants),
{
}

/// The application pays for the messages of its credentials, and the owner of
/// the credential for the others; nobody else is ever charged.
pub proof fn messages_are_charged_to_their_origin(
    credential: WidgetCredential,
    hub: Id,
    integration: Option<Id>,
)
    ensures
        match accept_into(credential, hub, integration).1 {
            WidgetRunAction::Accept(message) => if credential.oauth_app_id is Some {
                message.subject == ModelSubject::IntegrationApp && message.subject_user_id is None
                    && message.source_app_id == credential.oauth_app_id
            } else {
                message.subject == ModelSubject::User && message.subject_user_id == Some(
                    credential.owner_id,
                ) && message.source_app_id is None
            },
            _ => false,
        },
{
}

/// What an event says of earlier sessions is what an accepted message left:
/// the session that took a message is the one that it went to.
pub open spec fn tells_of(first: AcceptWidgetMessage, event: WidgetRunEvent) -> bool {
    match event {
        WidgetRunEvent::VisitorRetried(retried) => retried == Some(first.hub_session_id),
        WidgetRunEvent::ExternalRetried(retried) => match retried {
            Some((integration, hub)) => Some(integration) == first.integration_session_id && hub
                == first.hub_session_id,
            None => false,
        },
        WidgetRunEvent::ExternalFound(hub, integration) => hub == first.hub_session_id && Some(
            integration,
        ) == first.integration_session_id,
        _ => true,
    }
}

/// A request carries a key that its message is known by, and names no session.
pub open spec fn keyed_and_unnamed(credential: WidgetCredential, request: WidgetRunRequest) -> bool {
    &&& client_message_key(opt_view(request.client_message_key)) matches Ok(Some(_))
    &&& run_session_locator(credential, request.named) == Ok::<(Option<Id>, Option<Id>), Refusal>(
        (None, None),
    )
}

/// Where a message with a key can stand when it comes again.
pub open spec fn on_retry(first: AcceptWidgetMessage, step: WidgetRunStep) -> bool {
    &&& match step.0 {
        WidgetRunState::VisitorRetry(requested) => requested is None,
        WidgetRunState::Profile { integration, hub, keyed } => integration is None && hub is None
            && keyed,
        WidgetRunState::VisitorSession | WidgetRunState::ExternalSession => false,
        _ => true,
    }
    &&& !(step.1 is CreateVisitorSession)
    &&& !(step.1 is CreateExternalSession)
    &&& goes_to(step) is Some ==> goes_to(step) == Some(first.hub_session_id)
}

/// A message with a key that comes again, from a visitor or an outside user
/// and without the name of a session, goes to the session that it went to the
/// first time, and no session is created for it.
pub proof fn repeated_messages_go_to_one_session(
    credential: WidgetCredential,
    request: WidgetRunRequest,
    before: Seq<WidgetRunEvent>,
    first: AcceptWidgetMessage,
    events: Seq<WidgetRunEvent>,
)
    requires
        credential.anonymous || credential.external(),
        keyed_and_unnamed(credential, request),
        widget_history(credential, request, before),
        widget_history_step(credential, request, before).1 == WidgetRunAction::Accept(first),
        widget_history(credential, request, events),
        forall|i: int| 0 <= i < events.len() ==> tells_of(first, #[trigger] events[i]),
    ensures
        on_retry(first, widget_history_step(credential, request, events)),
    decreases events.len(),
{
    if events.len() > 0 {
        let rest = events.drop_last();
        assert forall|i: int| 0 <= i < rest.len() implies tells_of(first, #[trigger] rest[i]) by {
            assert(rest[i] == events[i]);
        }
        repeated_messages_go_to_one_session(credential, request, before, first, rest);
        lemma_state_fits(credential, request, rest);
        assert(tells_of(first, events[events.len() - 1]));
    }
}

/// What a visitor or an embedding page may name: nothing, or the session that
/// the credential is bound to.
pub open spec fn names_at_most(named: NamedSessions, bound: Id) -> bool {
    &&& named.integration_session_id is None
    &&& named.session_id is None || named.session_id == Some(bound)
    &&& named.hub_session_id is None || named.hub_session_id == Some(bound)
}

/// A visitor whose credential is bound to a session is heard there: a message
/// with a valid key or none, that was not sent before, and that names that
/// session or none, is accepted into it.
pub proof fn visitors_are_heard_in_their_session(
    credential: WidgetCredential,
    request: WidgetRunRequest,
    bound: Id,
)
    requires
        credential.anonymous,
        credential.hub_session_id == Some(bound),
        names_at_most(request.named, bound),
        client_message_key(opt_view(request.client_message_key)) is Ok,
    ensures
        ({
            let start = widget_next(
                credential,
                request,
                WidgetRunState::Model,
                WidgetRunEvent::ModelConfigured,
            );
            if client_message_key(opt_view(request.client_message_key))->Ok_0 is None {
                goes_to(start) == Some(bound)
            } else {
                &&& start.1 is FindVisitorRetry
                &&& goes_to(
                    widget_next(
                        credential,
                        request,
                        start.0,
                        WidgetRunEvent::VisitorRetried(None),
                    ),
                ) == Some(bound)
            }
        }),
{
}

/// A visitor that names a session other than its own is turned away, and one
/// that has none yet gets a new one by naming none.
pub proof fn visitors_open_no_other_session(
    credential: WidgetCredential,
    request: WidgetRunRequest,
    wanted: Id,
)
    requires
        credential.anonymous,
        request.client_message_key is None,
        request.named.integration_session_id is None,
        request.named.session_id == Some(wanted),
        request.named.hub_session_id is None,
        credential.hub_session_id != Some(wanted),
    ensures
        ({
            let start = widget_next(
                credential,
                request,
                WidgetRunState::Model,
                WidgetRunEvent::ModelConfigured,
            );
            start.1 is Refuse && start.1->Refuse_0.status == Status::BadRequest
        }),
        credential.hub_session_id is None ==> visitor_session(credential, None) == (
            WidgetRunState::VisitorSession,
            WidgetRunAction::CreateVisitorSession,
        ),
        goes_to(
            widget_next(
                credential,
                request,
                WidgetRunState::VisitorSession,
                WidgetRunEvent::VisitorSessionCreated(wanted),
            ),
        ) == Some(wanted),
{
}

/// An embedding page is heard in the session that its credential is bound to,
/// naming it or not, and nowhere else.
pub proof fn embedding_pages_are_heard_in_their_session(
    credential: WidgetCredential,
    request: WidgetRunRequest,
    bound: Id,
    wanted: Id,
    none: Vec<String>,
)
    requires
        !credential.anonymous,
        !credential.external(),
        credential.hub_session_id == Some(bound),
        client_message_key(opt_view(request.client_message_key)) is Ok,
        none@.len() == 0,
        wanted != bound,
    ensures
        names_at_most(request.named, bound) ==> goes_to(
            widget_next(
                credential,
                request,
                WidgetRunState::Grants,
                WidgetRunEvent::MissingGrants(none),
            ),
        ) == Some(bound),
        names_at_most(request.named, wanted) && (request.named.session_id is Some
            || request.named.hub_session_id is Some) ==> widget_next(
            credential,
            request,
            WidgetRunState::Grants,
            WidgetRunEvent::MissingGrants(none),
        ).1 is Refuse,
{
}

/// An outside user whose credential is complete is heard in the session that
/// is named, in the one that took the same message before, or in a new one;
/// what is looked up is just what was named.
pub proof fn outside_users_are_heard(
    credential: WidgetCredential,
    request: WidgetRunRequest,
    integration: Option<Id>,
    hub: Option<Id>,
    keyed: bool,
    a: Id,
    b: Id,
)
    requires
        credential.external(),
        !credential.anonymous,
        credential.fully_scoped(),
    ensures
        choose_session(credential, keyed, integration, hub).0 == (WidgetRunState::Profile {
            integration,
            hub,
            keyed,
        }),
        choose_session(credential, keyed, integration, hub).1 is ReadProfile,
        ({
            let next = widget_next(
                credential,
                request,
                WidgetRunState::Profile { integration, hub, keyed },
                WidgetRunEvent::ProfileRead(true),
            );
            &&& integration is Some || hub is Some ==> next.1
                == WidgetRunAction::FindExternalSession(integration, hub)
            &&& integration is None && hub is None && keyed ==> next.1 is FindExternalRetry
            &&& integration is None && hub is None && !keyed ==> next.1 is CreateExternalSession
        }),
        widget_next(
            credential,
            request,
            WidgetRunState::Profile { integration, hub, keyed },
            WidgetRunEvent::ProfileRead(false),
        ).1 is Refuse,
        widget_next(
            credential,
            request,
            WidgetRunState::ExternalRetry,
            WidgetRunEvent::ExternalRetried(Some((a, b))),
        ).1 == WidgetRunAction::FindExternalSession(Some(a), Some(b)),
        widget_next(
            credential,
            request,
            WidgetRunState::ExternalRetry,
            WidgetRunEvent::ExternalRetried(None),
        ).1 is CreateExternalSession,
        widget_next(
            credential,
            request,
            WidgetRunState::ExternalLookup,
            WidgetRunEvent::ExternalFound(a, b),
        ).1 matches WidgetRunAction::Accept(m) && m.hub_session_id == a
            && m.integration_session_id == Some(b) && m.with_external_user,
        widget_next(
            credential,
            request,
            WidgetRunState::ExternalSession,
            WidgetRunEvent::ExternalSessionCreated(a, b),
        ).1 matches WidgetRunAction::Accept(m) && m.hub_session_id == a
            && m.integration_session_id == Some(b) && m.with_external_user,
{
}

/// The credential of an outside user that lacks a part of its scope is of no
/// use, and one that is bound to nothing opens no page.
pub proof fn incomplete_credentials_are_refused(
    credential: WidgetCredential,
    keyed: bool,
    integration: Option<Id>,
    hub: Option<Id>,
)
    requires
        !credential.anonymous,
    ensures
        credential.external() && (credential.oauth_app_id is None
            || credential.external_platform_id is None || credential.external_tenant_id is None
            || credential.external_user_id is None || credential.external_identity_id is None)
            ==> choose_session(credential, keyed, integration, hub).1 is Refuse,
        !credential.external() && credential.hub_session_id is None ==> choose_session(
            credential,
            keyed,
            integration,
            hub,
        ).1 is Refuse,
{
}

/// A message that was accepted is recorded with its run; the client instance
/// is given its tools unless the message joined a turn that was under way.
pub proof fn accepted_messages_are_recorded(
    credential: WidgetCredential,
    request: WidgetRunRequest,
    run: bool,
    steered: bool,
)
    ensures
        ({
            let end = widget_next(
                credential,
                request,
                WidgetRunState::Acceptance,
                WidgetRunEvent::Accepted { run, steered },
            );
            &&& end.1 is Record <==> run
            &&& !run ==> end.1 is Refuse
            &&& run && !steered ==> end.1 == WidgetRunAction::Record(credential.client_instance_id)
            &&& run && steered ==> end.1 == WidgetRunAction::Record(None)
        }),
{
}

/// A message with a key that is not valid goes nowhere, and only users are
/// asked for their secrets.
pub proof fn messages_need_a_valid_key(
    credential: WidgetCredential,
    request: WidgetRunRequest,
    none: Vec<String>,
)
    requires
        client_message_key(opt_view(request.client_message_key)) is Err,
        none@.len() == 0,
    ensures
        credential.anonymous ==> widget_next(
            credential,
            request,
            WidgetRunState::Model,
            WidgetRunEvent::ModelConfigured,
        ).1 is Refuse,
        widget_next(
            credential,
            request,
            WidgetRunState::Grants,
            WidgetRunEvent::MissingGrants(none),
        ).1 is Refuse,
{
}

/// A message is refused for its key or the session that it names as the
/// request's own fault, and for a credential with gaps as the hub's.
pub proof fn refused_messages_say_why(
    credential: WidgetCredential,
    request: WidgetRunRequest,
    keyed: bool,
    integration: Option<Id>,
    hub: Option<Id>,
)
    ensures
        scope_gap(credential) is Some <==> credential.oauth_app_id is None
            || credential.external_platform_id is None || credential.external_tenant_id is None
            || credential.external_user_id is None || credential.external_identity_id is None,
        scope_gap(credential) matches Some(e) ==> e.status == Status::Internal,
        choose_session(credential, keyed, integration, hub).1 matches WidgetRunAction::Refuse(e)
            ==> e.status == if credential.anonymous {
            Status::BadRequest
        } else if credential.external() {
            Status::Internal
        } else if credential.hub_session_id is None {
            Status::Unauthorized
        } else {
            Status::BadRequest
        },
        client_message_key(opt_view(request.client_message_key)) is Err ==> (admitted(
            credential,
            request,
        ).1 matches WidgetRunAction::Refuse(e) && e.status == Status::BadRequest),
{
}

} // verus!
