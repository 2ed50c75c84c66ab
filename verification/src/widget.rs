//! Widget credentials: what one stands for, and which sessions it opens.

use crate::clock::Instant;
use crate::error::{plain, refusal, refuse, ApiError, ErrorView, Refusal, Status};
use crate::ids::Id;
use crate::text::views;
use crate::web::{request_admission, validate_client_request_origin, OriginHeaders};
use vstd::prelude::*;

verus! {

/// What an access credential of a widget stands for.
#[derive(Debug)]
pub struct WidgetCredential {
    pub id: Id,
    pub agent_id: Id,
    pub agent_owner_id: Id,
    pub owner_id: Id,
    /// The session that the credential is bound to, if it is.
    pub hub_session_id: Option<Id>,
    pub oauth_app_id: Option<Id>,
    pub external_platform_id: Option<Id>,
    pub external_tenant_id: Option<String>,
    pub external_user_id: Option<String>,
    pub external_identity_id: Option<Id>,
    pub expires_at: Instant,
    pub history_enabled: bool,
    pub anonymous: bool,
    pub client_instance_id: Option<Id>,
    pub tool_names: Vec<String>,
    pub allowed_origins: Vec<String>,
}

/// The outside user that a credential is scoped to.
#[derive(Debug)]
pub struct ExternalScope {
    pub oauth_app_id: Id,
    pub external_platform_id: Id,
    pub external_tenant_id: String,
    pub external_user_id: String,
    pub external_identity_id: Id,
}

impl WidgetCredential {
    /// The credential of a user that an application vouches for.
    pub open spec fn external(&self) -> bool {
        !self.anonymous && self.oauth_app_id is Some && self.external_identity_id is Some
    }

    /// Tells whether the credential is a visitor's without an account.
    pub fn is_anonymous(&self) -> (r: bool)
        ensures
            r == self.anonymous,
    {
        self.anonymous
    }

    /// Tells whether the credential is that of a user that an application
    /// vouches for.
    pub fn is_external(&self) -> (r: bool)
        ensures
            r == self.external(),
    {
        !self.anonymous && self.oauth_app_id.is_some() && self.external_identity_id.is_some()
    }

    /// Everything that scopes the credential to an outside user is there.
    pub open spec fn fully_scoped(&self) -> bool {
        &&& self.oauth_app_id is Some
        &&& self.external_platform_id is Some
        &&& self.external_tenant_id is Some
        &&& self.external_user_id is Some
        &&& self.external_identity_id is Some
    }

    /// The outside user that the credential is scoped to.
    pub fn external_scope(&self) -> (r: Result<ExternalScope, Refusal>)
        ensures
            match r {
                Ok(scope) => self.fully_scoped() && scope == (ExternalScope {
                    oauth_app_id: self.oauth_app_id->0,
                    external_platform_id: self.external_platform_id->0,
                    external_tenant_id: self.external_tenant_id->0,
                    external_user_id: self.external_user_id->0,
                    external_identity_id: self.external_identity_id->0,
                }),
                Err(e) => !self.fully_scoped() && e == refusal(
                    Status::Unauthorized,
                    "invalid external Widget credential",
                ),
            },
    {
        match (
            self.oauth_app_id,
            self.external_platform_id,
            &self.external_tenant_id,
            &self.external_user_id,
            self.external_identity_id,
        ) {
            (Some(app), Some(platform), Some(tenant), Some(user), Some(identity)) => Ok(
                ExternalScope {
                    oauth_app_id: app,
                    external_platform_id: platform,
                    external_tenant_id: tenant.clone(),
                    external_user_id: user.clone(),
                    external_identity_id: identity,
                },
            ),
            _ => Err(refuse(Status::Unauthorized, "invalid external Widget credential")),
        }
    }

    /// A request under the credential must say its origin: always for a
    /// visitor without an account, else where the application lists origins.
    pub open spec fn needs_origin(&self) -> bool {
        self.anonymous || self.allowed_origins@.len() > 0
    }

    /// Tells whether a request under the credential must say its origin.
    pub fn requires_origin(&self) -> (r: bool)
        ensures
            r == self.needs_origin(),
    {
        self.anonymous || self.allowed_origins.len() > 0
    }

    /// The session that is told back with a renewed credential: only that of
    /// a visitor without an account.
    pub fn renewed_session(&self) -> (r: Option<Id>)
        ensures
            r == if self.anonymous {
                self.hub_session_id
            } else {
                None
            },
            self.anonymous ==> r == self.hub_session_id,
            !self.anonymous ==> r is None,
    {
        if self.anonymous {
            self.hub_session_id
        } else {
            None
        }
    }
}

/// A session as a credential names it: by its integration session or by its
/// hub session.
pub open spec fn session_locator(credential: WidgetCredential, session_id: Id) -> (
    Option<Id>,
    Option<Id>,
) {
    if credential.external() {
        (Some(session_id), None)
    } else {
        (None, Some(session_id))
    }
}

/// A session as a credential names it.
pub fn widget_session_locator(credential: &WidgetCredential, session_id: Id) -> (r: (
    Option<Id>,
    Option<Id>,
))
    ensures
        r == session_locator(*credential, session_id),
{
    if credential.is_external() {
        (Some(session_id), None)
    } else {
        (None, Some(session_id))
    }
}

/// One session named twice: the names must agree where both are given.
pub open spec fn merged_session_id(canonical: Option<Id>, compatibility: Option<Id>) -> Result<
    Option<Id>,
    Refusal,
> {
    if canonical is Some && compatibility is Some && canonical != compatibility {
        Err(refusal(Status::BadRequest, "conflicting Client Session ids"))
    } else if canonical is Some {
        Ok(canonical)
    } else {
        Ok(compatibility)
    }
}

/// One session named twice.
pub fn merge_client_session_id(canonical: Option<Id>, compatibility: Option<Id>) -> (r: Result<
    Option<Id>,
    Refusal,
>)
    ensures
        r == merged_session_id(canonical, compatibility),
{
    match (canonical, compatibility) {
        (Some(a), Some(b)) => {
            if a != b {
                Err(refuse(Status::BadRequest, "conflicting Client Session ids"))
            } else {
                Ok(Some(a))
            }
        },
        (Some(a), None) => Ok(Some(a)),
        (None, b) => Ok(b),
    }
}

/// The sessions that a request for a run names.
#[derive(Clone, Copy, Debug, PartialEq, Eq, Structural)]
pub struct NamedSessions {
    pub session_id: Option<Id>,
    pub integration_session_id: Option<Id>,
    pub hub_session_id: Option<Id>,
}

/// The session that a request for a run asks for, as the credential names it.
pub open spec fn run_session_locator(credential: WidgetCredential, named: NamedSessions) -> Result<
    (Option<Id>, Option<Id>),
    Refusal,
> {
    if credential.external() {
        match merged_session_id(named.session_id, named.integration_session_id) {
            Ok(integration) => Ok((integration, named.hub_session_id)),
            Err(e) => Err(e),
        }
    } else if named.integration_session_id is Some {
        Err(refusal(Status::BadRequest, "this Client does not use Integration Sessions"))
    } else {
        match merged_session_id(named.session_id, named.hub_session_id) {
            Ok(hub) => Ok((None, hub)),
            Err(e) => Err(e),
        }
    }
}

/// The session that a request for a run asks for, as the credential names it.
pub fn widget_run_session_locator(credential: &WidgetCredential, named: NamedSessions) -> (r: Result<
    (Option<Id>, Option<Id>),
    Refusal,
>)
    ensures
        r == run_session_locator(*credential, named),
{
    if credential.is_external() {
        match merge_client_session_id(named.session_id, named.integration_session_id) {
            Ok(integration) => Ok((integration, named.hub_session_id)),
            Err(e) => Err(e),
        }
    } else if named.integration_session_id.is_some() {
        Err(refuse(Status::BadRequest, "this Client does not use Integration Sessions"))
    } else {
        match merge_client_session_id(named.session_id, named.hub_session_id) {
            Ok(hub) => Ok((None, hub)),
            Err(e) => Err(e),
        }
    }
}

/// How a credential's session is found.
#[derive(Clone, Copy, Debug)]
pub enum ScopeLookup {
    /// The session of a visitor: this one, if it is the one that the
    /// credential is bound to and still there.
    Visitor(Id),
    /// The session that the credential is bound to; there is nothing to look
    /// up.
    Bound(Id),
    /// A session of the outside user that the credential is scoped to.
    External,
    Refuse(Refusal),
}

/// How the session that is asked for under a credential is found.
pub open spec fn scope_lookup(
    credential: WidgetCredential,
    integration: Option<Id>,
    hub: Option<Id>,
) -> ScopeLookup {
    if integration is None && hub is None {
        ScopeLookup::Refuse(refusal(Status::BadRequest, "Widget Session id is required"))
    } else if credential.anonymous {
        if integration is Some {
            ScopeLookup::Refuse(
                refusal(Status::BadRequest, "public Widget does not use Integration Sessions"),
            )
        } else {
            ScopeLookup::Visitor(hub->0)
        }
    } else if !credential.external() {
        if integration is None && hub is Some && hub == credential.hub_session_id {
            ScopeLookup::Bound(hub->0)
        } else {
            ScopeLookup::Refuse(refusal(Status::NotFound, "Widget Session not found"))
        }
    } else if credential.fully_scoped() {
        ScopeLookup::External
    } else {
        ScopeLookup::Refuse(refusal(Status::Unauthorized, "invalid external Widget credential"))
    }
}

/// How the session that is asked for under a credential is found.
pub fn plan_scoped_session(
    credential: &WidgetCredential,
    integration_session_id: Option<Id>,
    hub_session_id: Option<Id>,
) -> (r: ScopeLookup)
    ensures
        r == scope_lookup(*credential, integration_session_id, hub_session_id),
{
    if integration_session_id.is_none() && hub_session_id.is_none() {
        return ScopeLookup::Refuse(refuse(Status::BadRequest, "Widget Session id is required"));
    }
    if credential.is_anonymous() {
        return match (integration_session_id, hub_session_id) {
            (None, Some(hub)) => ScopeLookup::Visitor(hub),
            _ => ScopeLookup::Refuse(
                refuse(Status::BadRequest, "public Widget does not use Integration Sessions"),
            ),
        };
    }
    if !credential.is_external() {
        return match (integration_session_id, hub_session_id, credential.hub_session_id) {
            (None, Some(hub), Some(bound)) => {
                if hub == bound {
                    ScopeLookup::Bound(hub)
                } else {
                    ScopeLookup::Refuse(refuse(Status::NotFound, "Widget Session not found"))
                }
            },
            _ => ScopeLookup::Refuse(refuse(Status::NotFound, "Widget Session not found")),
        };
    }
    match credential.external_scope() {
        Ok(_) => ScopeLookup::External,
        Err(e) => ScopeLookup::Refuse(e),
    }
}

/// A credential that no application vouches for opens its own session and no
/// other.
pub proof fn bound_credentials_open_their_session(
    credential: WidgetCredential,
    integration: Option<Id>,
    hub: Option<Id>,
)
    requires
        !credential.external(),
        !credential.anonymous,
        !(scope_lookup(credential, integration, hub) is Refuse),
    ensures
        credential.hub_session_id is Some,
        scope_lookup(credential, integration, hub) == ScopeLookup::Bound(
            credential.hub_session_id->0,
        ),
        hub == credential.hub_session_id,
{
}

/// The two locks that guard a credential found the same agent.
pub open spec fn locked_agent(
    credential: WidgetCredential,
    agent_id: Id,
    agent_owner_id: Id,
) -> Result<(), Refusal> {
    if credential.agent_id == agent_id && credential.agent_owner_id == agent_owner_id {
        Ok(())
    } else {
        Err(refusal(Status::Internal, "Widget credential Agent changed while locking"))
    }
}

/// Checks that the agent that was locked is still the credential's.
pub fn check_locked_agent(
    credential: &WidgetCredential,
    agent_id: Id,
    agent_owner_id: Id,
) -> (r: Result<(), Refusal>)
    ensures
        r == locked_agent(*credential, agent_id, agent_owner_id),
{
    if credential.agent_id != agent_id || credential.agent_owner_id != agent_owner_id {
        return Err(refuse(Status::Internal, "Widget credential Agent changed while locking"));
    }
    Ok(())
}

/// A request under a credential of a client instance comes from where the
/// credential may be used.
pub open spec fn credential_admission(credential: WidgetCredential, headers: OriginHeaders) -> Result<
    (),
    ErrorView,
> {
    if credential.client_instance_id is Some {
        request_admission(headers, views(credential.allowed_origins@), credential.needs_origin())
    } else {
        Ok(())
    }
}

/// Lets a request under a credential through by its origin.
pub fn admit_credential_request(credential: &WidgetCredential, headers: &OriginHeaders) -> (r: Result<
    (),
    ApiError,
>)
    ensures
        plain(r) == credential_admission(*credential, *headers),
{
    if credential.client_instance_id.is_some() {
        return validate_client_request_origin(
            headers,
            &credential.allowed_origins,
            credential.requires_origin(),
        );
    }
    Ok(())
}

/// The history of a widget is open to its user where the application says so.
pub open spec fn history_access(credential: WidgetCredential) -> Option<Refusal> {
    if !credential.history_enabled {
        Some(refusal(Status::Forbidden, "Widget history is disabled"))
    } else if !credential.fully_scoped() {
        Some(refusal(Status::Unauthorized, "invalid external Widget credential"))
    } else {
        None
    }
}

/// The outside user whose history a credential opens.
pub fn history_scope(credential: &WidgetCredential) -> (r: Result<ExternalScope, Refusal>)
    ensures
        match r {
            Ok(scope) => history_access(*credential) is None && Some(scope.external_identity_id)
                == credential.external_identity_id && Some(scope.oauth_app_id)
                == credential.oauth_app_id && Some(scope.external_platform_id)
                == credential.external_platform_id && Some(scope.external_tenant_id)
                == credential.external_tenant_id && Some(scope.external_user_id)
                == credential.external_user_id,
            Err(e) => history_access(*credential) == Some(e),
        },
{
    if !credential.history_enabled {
        return Err(refuse(Status::Forbidden, "Widget history is disabled"));
    }
    credential.external_scope()
}

/// The cursor of an event listing: from the start when none is given.
pub open spec fn event_cursor(after: Option<i64>) -> Result<i64, Refusal> {
    if after is Some && after->0 < 0 {
        Err(refusal(Status::BadRequest, "event cursor must be nonnegative"))
    } else {
        Ok(after.unwrap_or(0))
    }
}

/// The cursor of an event listing.
pub fn widget_event_cursor(after: Option<i64>) -> (r: Result<i64, Refusal>)
    ensures
        r == event_cursor(after),
{
    let cursor: i64 = after.unwrap_or(0);
    if cursor < 0 {
        return Err(refuse(Status::BadRequest, "event cursor must be nonnegative"));
    }
    Ok(cursor)
}

/// How many events a listing that is limited returns: one to two thousand.
pub fn clamp_event_limit(limit: i64) -> (r: i64)
    ensures
        1 <= r <= 2000,
        1 <= limit <= 2000 ==> r == limit,
        limit > 2000 ==> r == 2000,
        r == if limit < 1 {
            1
        } else if limit > 2000 {
            2000
        } else {
            limit as int
        },
{
    if limit < 1 {
        1
    } else if limit > 2000 {
        2000
    } else {
        limit
    }
}

/// Where a stream of events goes on after it has sent these: behind the last.
pub open spec fn cursor_after(cursor: i64, sent: Seq<i64>) -> i64 {
    if sent.len() == 0 {
        cursor
    } else {
        sent.last()
    }
}

/// Where a stream of events goes on after it has sent these.
pub fn advance_cursor(cursor: i64, sent: &Vec<i64>) -> (r: i64)
    ensures
        r == cursor_after(cursor, sent@),
{
    if sent.len() == 0 {
        cursor
    } else {
        sent[sent.len() - 1]
    }
}

/// A stream that asks for the events behind its cursor, and gets them in
/// ascending order, sends none twice: what it has sent is not behind the
/// cursor that it goes on with.
pub proof fn streams_send_no_event_twice(cursor: i64, sent: Seq<i64>, i: int)
    requires
        forall|k: int| 0 <= k < sent.len() ==> cursor < #[trigger] sent[k],
        forall|k: int, l: int| 0 <= k < l < sent.len() ==> sent[k] < sent[l],
        0 <= i < sent.len(),
    ensures
        sent[i] <= cursor_after(cursor, sent),
        cursor < cursor_after(cursor, sent),
{
}

/// A credential is an outside user's exactly where an application vouches for
/// an identity; visitors never are.
pub proof fn outside_users_have_an_identity(credential: WidgetCredential)
    ensures
        credential.external() <==> !credential.anonymous && credential.oauth_app_id is Some
            && credential.external_identity_id is Some,
        credential.fully_scoped() && !credential.anonymous ==> credential.external(),
        credential.needs_origin() <==> credential.anonymous || credential.allowed_origins@.len()
            >= 1,
{
}

/// Two names for a session are one where they agree or one is missing, and
/// a conflict where they differ; which of them came first does not matter.
pub proof fn two_names_are_one(a: Option<Id>, b: Option<Id>)
    ensures
        merged_session_id(a, b) is Err <==> a is Some && b is Some && a->0 != b->0,
        merged_session_id(a, b) is Ok ==> merged_session_id(a, b) == merged_session_id(b, a),
        merged_session_id(a, None) == Ok::<Option<Id>, Refusal>(a),
        merged_session_id(a, a) == Ok::<Option<Id>, Refusal>(a),
        merged_session_id(a, b) matches Err(e) ==> e.status == Status::BadRequest,
{
}

/// The session that a request names is an integration session for an outside
/// user and a hub session for everybody else, wherever it is named.
pub proof fn sessions_are_named_by_kind(
    credential: WidgetCredential,
    named: NamedSessions,
    session: Id,
)
    ensures
        credential.external() ==> session_locator(credential, session) == (
            Some(session),
            None::<Id>,
        ),
        !credential.external() ==> session_locator(credential, session) == (
            None::<Id>,
            Some(session),
        ),
        run_session_locator(
            credential,
            NamedSessions {
                session_id: Some(session),
                integration_session_id: None,
                hub_session_id: None,
            },
        ) == Ok::<(Option<Id>, Option<Id>), Refusal>(session_locator(credential, session)),
        !credential.external() && named.integration_session_id is Some ==> run_session_locator(
            credential,
            named,
        ) is Err,
        run_session_locator(credential, named) matches Ok((integration, hub)) ==> {
            &&& integration is Some ==> credential.external() && (integration == named.session_id
                || integration == named.integration_session_id)
            &&& hub is Some ==> hub == named.hub_session_id || (!credential.external() && hub
                == named.session_id)
            &&& named.session_id is Some ==> (if credential.external() {
                integration == named.session_id
            } else {
                hub == named.session_id
            })
            &&& named.hub_session_id is Some ==> hub == named.hub_session_id
            &&& named.integration_session_id is Some ==> integration
                == named.integration_session_id
        },
{
}

/// Where a session is looked for: a visitor's by its name, an embedding page's
/// only as the one that it has, an outside user's in its scope; without a name
/// nothing is looked for.
pub proof fn sessions_are_looked_for_in_scope(
    credential: WidgetCredential,
    integration: Option<Id>,
    hub: Option<Id>,
    session: Id,
)
    ensures
        scope_lookup(credential, None, None) is Refuse,
        credential.anonymous ==> scope_lookup(credential, None, Some(session))
            == ScopeLookup::Visitor(session),
        credential.anonymous && integration is Some ==> scope_lookup(credential, integration, hub)
            is Refuse,
        !credential.anonymous && !credential.external() ==> (scope_lookup(
            credential,
            None,
            Some(session),
        ) == ScopeLookup::Bound(session) <==> credential.hub_session_id == Some(session)),
        !credential.anonymous && !credential.external() && credential.hub_session_id != Some(session)
            ==> scope_lookup(credential, None, Some(session)) is Refuse,
        !credential.anonymous && !credential.external() && integration is Some ==> scope_lookup(
            credential,
            integration,
            hub,
        ) is Refuse,
        credential.external() && (integration is Some || hub is Some) ==> (scope_lookup(
            credential,
            integration,
            hub,
        ) is External <==> credential.external_platform_id is Some && credential.external_tenant_id
            is Some && credential.external_user_id is Some),
{
}

/// A credential is for one agent of one owner.
pub proof fn credentials_are_for_one_agent(credential: WidgetCredential, agent: Id, owner: Id)
    ensures
        locked_agent(credential, agent, owner) is Ok <==> credential.agent_id == agent
            && credential.agent_owner_id == owner,
        locked_agent(credential, agent, owner) matches Err(e) ==> e.status == Status::Internal,
{
}

/// A credential of a client instance goes with requests from where it is
/// allowed; visitors, and applications that list their origins, must say where
/// they come from. Credentials without a client instance are not asked.
pub proof fn credentials_are_used_where_they_are_allowed(
    credential: WidgetCredential,
    headers: OriginHeaders,
)
    ensures
        credential.client_instance_id is None ==> credential_admission(credential, headers) is Ok,
        credential.client_instance_id is Some ==> credential_admission(credential, headers)
            == request_admission(
            headers,
            views(credential.allowed_origins@),
            credential.anonymous || credential.allowed_origins@.len() > 0,
        ),
{
}

/// History is shown where it is enabled, to an outside user with a complete
/// credential, and to nobody else.
pub proof fn history_is_for_outside_users(credential: WidgetCredential)
    ensures
        history_access(credential) is None <==> credential.history_enabled
            && credential.oauth_app_id is Some && credential.external_platform_id is Some
            && credential.external_tenant_id is Some && credential.external_user_id is Some
            && credential.external_identity_id is Some,
        !credential.history_enabled ==> history_access(credential)->0.status == Status::Forbidden,
        credential.history_enabled && history_access(credential) is Some ==> history_access(
            credential,
        )->0.status == Status::Unauthorized,
{
}

/// A stream starts after the event that is named, or at the first one; nothing
/// comes before the first.
pub proof fn streams_start_where_they_are_asked(after: Option<i64>)
    ensures
        event_cursor(after) is Ok <==> after is None || after->0 >= 0,
        event_cursor(after) matches Ok(cursor) ==> cursor >= 0 && (after is Some ==> Some(cursor)
            == after) && (after is None ==> cursor == 0),
        forall|cursor: i64|
            #[trigger] cursor_after(cursor, seq![]) == cursor,
{
}

/// A session that is named wrongly is the request's own fault, one that is not
/// the credential's is not there, and a credential with gaps is not believed.
pub proof fn refused_lookups_say_why(
    credential: WidgetCredential,
    named: NamedSessions,
    integration: Option<Id>,
    hub: Option<Id>,
)
    ensures
        run_session_locator(credential, named) matches Err(e) ==> e.status == Status::BadRequest,
        scope_lookup(credential, integration, hub) matches ScopeLookup::Refuse(e) ==> e.status
            == if (integration is None && hub is None) || credential.anonymous {
            Status::BadRequest
        } else if !credential.external() {
            Status::NotFound
        } else {
            Status::Unauthorized
        },
{
}

} // verus!
