//! Giving a widget access: for a user that an application vouches for, for a
//! visitor without an account, and anew for both.

use crate::clock::{on_calendar, second_of, Instant, LAST_SECOND};
use crate::digest::text_digest;
use crate::error::{plain, refusal, refuse, refused, seen, ApiError, ErrorView, Refusal, Status};
use crate::ids::{new_secret, secret_text, Id};
use crate::json::{json_text_of, Json, JsonView};
use crate::oauth::{check_client_secret, client_check};
use crate::text::{byte_count, opt_view, views};
use crate::tools::{
    public_app, stored_definitions, tool_views, tools_json, validate_client_tool_definitions,
    validate_public_widget_app_record, ClientToolDefinition, opt_views,
};
use crate::web::{request_admission, validate_client_request_origin, OriginHeaders};
use crate::widget::WidgetCredential;
use crate::widget_profile::{
    basic_client, external_user_id, normalize_external_user_id, normalize_widget_user_profile,
    normalized_profile, opt_str, require_origin_tenant, required_tenant, visitor_digest,
    visitor_key_hash, widget_client_credentials, ProfileView, WidgetUserProfile,
};
use vstd::prelude::*;

verus! {

/// A client instance has an identifier of its own.
pub open spec fn instance_validity(id: Id) -> Result<(), ErrorView> {
    if id == 0 {
        refused(Status::BadRequest, "valid Client Instance id is required"@)
    } else {
        Ok(())
    }
}

/// Refuses a client instance without an identifier.
pub fn check_client_instance(id: Id) -> (r: Result<(), ApiError>)
    ensures
        plain(r) == instance_validity(id),
{
    if id == 0 {
        return Err(ApiError::bad_request("valid Client Instance id is required"));
    }
    Ok(())
}

// ---------------------------------------------------------------------------
// Users that an application vouches for
// ---------------------------------------------------------------------------

/// What is known of a request for access before the application is looked up.
#[derive(Debug)]
pub struct PreparedAccess {
    pub client_id: String,
    pub client_secret: String,
    pub tool_definitions: Json,
}

/// What `PreparedAccess` holds.
pub struct PreparedView {
    pub client_id: Seq<char>,
    pub client_secret: Seq<char>,
    pub tool_definitions: JsonView,
}

impl View for PreparedAccess {
    type V = PreparedView;

    open spec fn view(&self) -> PreparedView {
        PreparedView {
            client_id: self.client_id@,
            client_secret: self.client_secret@,
            tool_definitions: self.tool_definitions@,
        }
    }
}

/// A request for access names an application and its secret, a client
/// instance, and tools that are accepted.
pub open spec fn prepared_access(
    client: Result<(Seq<char>, Seq<char>), ErrorView>,
    client_instance_id: Id,
    tools: Result<JsonView, ErrorView>,
) -> Result<PreparedView, ErrorView> {
    match client {
        Err(e) => Err(e),
        Ok((client_id, client_secret)) => match instance_validity(client_instance_id) {
            Err(e) => Err(e),
            Ok(_) => match tools {
                Err(e) => Err(e),
                Ok(tool_definitions) => Ok(
                    PreparedView { client_id, client_secret, tool_definitions },
                ),
            },
        },
    }
}

/// What is known of a request for access before the application is looked up.
pub fn prepare_client_access(
    authorization: Option<&str>,
    client_instance_id: Id,
    tools: &Vec<ClientToolDefinition>,
    max_tools: usize,
    max_tool_bytes: usize,
) -> (r: Result<PreparedAccess, ApiError>)
    ensures
        seen(r) == prepared_access(
            basic_client(opt_str(authorization)),
            client_instance_id,
            stored_definitions(
                tool_views(tools@),
                max_tools as nat,
                byte_count(json_text_of(tools_json(tool_views(tools@)))),
                max_tool_bytes as nat,
            ),
        ),
{
    let (client_id, client_secret) = match widget_client_credentials(authorization) {
        Ok(client) => client,
        Err(e) => {
            return Err(e);
        },
    };
    match check_client_instance(client_instance_id) {
        Ok(_) => {},
        Err(e) => {
            return Err(e);
        },
    }
    match validate_client_tool_definitions(tools, max_tools, max_tool_bytes) {
        Ok(tool_definitions) => Ok(PreparedAccess { client_id, client_secret, tool_definitions }),
        Err(e) => Err(e),
    }
}

/// The user that an application vouches for.
#[derive(Debug)]
pub struct VouchedUser {
    pub tenant_id: String,
    pub external_user_id: String,
    pub profile: WidgetUserProfile,
}

/// What `VouchedUser` holds.
pub struct VouchedView {
    pub tenant_id: Seq<char>,
    pub external_user_id: Seq<char>,
    pub profile: ProfileView,
}

impl View for VouchedUser {
    type V = VouchedView;

    open spec fn view(&self) -> VouchedView {
        VouchedView {
            tenant_id: self.tenant_id@,
            external_user_id: self.external_user_id@,
            profile: self.profile@,
        }
    }
}

/// The user that an application vouches for: the secret is the application's,
/// the origin is one of its origins, and tenant, identifier and profile are
/// accepted.
pub open spec fn vouched_user(
    client: Result<(), ErrorView>,
    origin: Result<(), ErrorView>,
    tenant: Result<Seq<char>, ErrorView>,
    user: Result<Seq<char>, ErrorView>,
    profile: Result<ProfileView, ErrorView>,
) -> Result<VouchedView, ErrorView> {
    match client {
        Err(e) => Err(e),
        Ok(_) => match origin {
            Err(e) => Err(e),
            Ok(_) => match tenant {
                Err(e) => Err(e),
                Ok(tenant_id) => match user {
                    Err(e) => Err(e),
                    Ok(user_id) => match profile {
                        Err(e) => Err(e),
                        Ok(p) => Ok(
                            VouchedView { tenant_id, external_user_id: user_id, profile: p },
                        ),
                    },
                },
            },
        },
    }
}

/// The user that an application vouches for, once the application is known.
pub fn admit_vouched_user(
    stored_secret: &str,
    client_secret: &str,
    headers: &OriginHeaders,
    allowed_origins: &Vec<String>,
    tenant_id: &str,
    user_id: &str,
    profile: WidgetUserProfile,
) -> (r: Result<VouchedUser, ApiError>)
    ensures
        seen(r) == vouched_user(
            client_check(stored_secret@, client_secret@),
            request_admission(*headers, views(allowed_origins@), false),
            required_tenant(Some(tenant_id@)),
            external_user_id(user_id@),
            normalized_profile(profile@),
        ),
{
    match check_client_secret(stored_secret, client_secret) {
        Ok(_) => {},
        Err(e) => {
            return Err(e);
        },
    }
    match validate_client_request_origin(headers, allowed_origins, false) {
        Ok(_) => {},
        Err(e) => {
            return Err(e);
        },
    }
    let tenant = match require_origin_tenant(Some(tenant_id)) {
        Ok(tenant) => tenant,
        Err(e) => {
            return Err(e);
        },
    };
    let user = match normalize_external_user_id(user_id) {
        Ok(user) => user,
        Err(e) => {
            return Err(e);
        },
    };
    match normalize_widget_user_profile(profile) {
        Ok(p) => Ok(VouchedUser { tenant_id: tenant, external_user_id: user, profile: p }),
        Err(e) => Err(e),
    }
}

/// Nobody is vouched for without the application's secret, or from an origin
/// outside its list.
pub proof fn vouching_needs_the_secret(
    stored: Seq<char>,
    secret: Seq<char>,
    origin: Result<(), ErrorView>,
    tenant: Result<Seq<char>, ErrorView>,
    user: Result<Seq<char>, ErrorView>,
    profile: Result<ProfileView, ErrorView>,
)
    requires
        vouched_user(client_check(stored, secret), origin, tenant, user, profile) is Ok,
    ensures
        stored == text_digest(secret),
        origin is Ok,
{
}

// ---------------------------------------------------------------------------
// Visitors
// ---------------------------------------------------------------------------

/// The visitor behind a request: a client instance and a key.
pub open spec fn visitor(client_instance_id: Id, visitor_key: Seq<char>) -> Result<
    Seq<char>,
    ErrorView,
> {
    match instance_validity(client_instance_id) {
        Err(e) => Err(e),
        Ok(_) => visitor_digest(visitor_key),
    }
}

/// The digest of the visitor behind a request.
pub fn identify_visitor(client_instance_id: Id, visitor_key: &str) -> (r: Result<String, ApiError>)
    ensures
        seen(r) == visitor(client_instance_id, visitor_key@),
{
    match check_client_instance(client_instance_id) {
        Err(e) => Err(e),
        Ok(_) => visitor_key_hash(visitor_key),
    }
}

/// A public application serves exactly one agent.
pub open spec fn single_agent(agents: nat) -> Result<(), ErrorView> {
    if agents == 1 {
        Ok(())
    } else {
        refused(Status::Conflict, "public Widget must delegate exactly one active Agent"@)
    }
}

/// Refuses a public application that does not serve exactly one agent.
pub fn check_single_agent(agents: usize) -> (r: Result<(), ApiError>)
    ensures
        plain(r) == single_agent(agents as nat),
{
    if agents != 1 {
        return Err(ApiError::conflict("public Widget must delegate exactly one active Agent"));
    }
    Ok(())
}

/// A visitor is admitted: the application is public and serves one agent, and
/// the request says that it comes from one of its origins.
pub open spec fn visitor_admission(
    app: Result<(), ErrorView>,
    agents: nat,
    origin: Result<(), ErrorView>,
) -> Result<(), ErrorView> {
    match app {
        Err(e) => Err(e),
        Ok(_) => match single_agent(agents) {
            Err(e) => Err(e),
            Ok(_) => origin,
        },
    }
}

/// Admits a visitor to a stored application.
pub fn admit_visitor(
    login_required: bool,
    allowed_origins: &Vec<String>,
    tool_allowlist: &Option<Vec<String>>,
    public_tools: &Vec<String>,
    agents: usize,
    headers: &OriginHeaders,
) -> (r: Result<(), ApiError>)
    ensures
        plain(r) == visitor_admission(
            public_app(
                login_required,
                allowed_origins@.len(),
                opt_views(*tool_allowlist),
                views(public_tools@),
            ),
            agents as nat,
            request_admission(*headers, views(allowed_origins@), true),
        ),
{
    match validate_public_widget_app_record(
        login_required,
        allowed_origins,
        tool_allowlist,
        public_tools,
    ) {
        Ok(_) => {},
        Err(e) => {
            return Err(e);
        },
    }
    match check_single_agent(agents) {
        Ok(_) => {},
        Err(e) => {
            return Err(e);
        },
    }
    validate_client_request_origin(headers, allowed_origins, true)
}

/// The session that a visitor comes back to: one that the visitor has, which
/// the request may name; a session that is named must be the visitor's.
pub open spec fn recovered_session(
    named: Option<Id>,
    recovered: Option<Option<Id>>,
) -> Result<Option<Id>, Refusal> {
    match recovered {
        None => if named is Some {
            Err(refusal(Status::NotFound, "anonymous Client Session not found"))
        } else {
            Ok(None)
        },
        Some(session) => Ok(session),
    }
}

/// The session that a visitor comes back to. `recovered` is the session of the
/// visitor's last credential, if the visitor has one.
pub fn recover_session(named: Option<Id>, recovered: Option<Option<Id>>) -> (r: Result<
    Option<Id>,
    Refusal,
>)
    ensures
        r == recovered_session(named, recovered),
{
    match recovered {
        None => {
            if named.is_some() {
                Err(refuse(Status::NotFound, "anonymous Client Session not found"))
            } else {
                Ok(None)
            }
        },
        Some(session) => Ok(session),
    }
}

// ---------------------------------------------------------------------------
// Anew
// ---------------------------------------------------------------------------

/// A credential can be renewed: it stands for a client instance, and for a
/// visitor or a user that an application vouches for; a visitor brings no
/// profile.
pub open spec fn renewal(credential: WidgetCredential, with_profile: bool) -> Result<Id, Refusal> {
    match credential.client_instance_id {
        None => Err(refusal(Status::Unauthorized, "invalid Client Access Credential")),
        Some(client) => if !credential.external() && !credential.anonymous {
            Err(refusal(Status::Unauthorized, "invalid Widget credential"))
        } else if with_profile && credential.anonymous {
            Err(
                refusal(
                    Status::BadRequest,
                    "anonymous Client Access has no trusted user profile",
                ),
            )
        } else {
            Ok(client)
        },
    }
}

/// The client instance that a credential is renewed for, or why it cannot be.
pub fn rotate_client_access(credential: &WidgetCredential, with_profile: bool) -> (r: Result<
    Id,
    Refusal,
>)
    ensures
        r == renewal(*credential, with_profile),
{
    let client: u128 = match credential.client_instance_id {
        Some(client) => client,
        None => {
            return Err(refuse(Status::Unauthorized, "invalid Client Access Credential"));
        },
    };
    if !credential.is_external() && !credential.is_anonymous() {
        return Err(refuse(Status::Unauthorized, "invalid Widget credential"));
    }
    if with_profile && credential.is_anonymous() {
        return Err(
            refuse(Status::BadRequest, "anonymous Client Access has no trusted user profile"),
        );
    }
    Ok(client)
}

/// Whom a new profile is about.
#[derive(Debug)]
pub struct ProfileTarget {
    pub identity_id: Id,
    pub external_user_id: String,
    pub tenant_id: String,
}

/// What the credential lacks to take a new profile, if anything.
pub open spec fn profile_gap(credential: WidgetCredential) -> Option<Refusal> {
    if credential.external_identity_id is None {
        Some(refusal(Status::Internal, "external Widget identity is missing"))
    } else if credential.external_user_id is None {
        Some(refusal(Status::Internal, "external Widget user is missing"))
    } else if credential.external_tenant_id is None {
        Some(refusal(Status::Internal, "external Widget tenant is missing"))
    } else {
        None
    }
}

/// Whom a new profile of a credential is about.
pub fn profile_target(credential: &WidgetCredential) -> (r: Result<ProfileTarget, Refusal>)
    ensures
        match r {
            Ok(target) => {
                &&& profile_gap(*credential) is None
                &&& credential.external_identity_id == Some(target.identity_id)
                &&& opt_view(credential.external_user_id) == Some(target.external_user_id@)
                &&& opt_view(credential.external_tenant_id) == Some(target.tenant_id@)
            },
            Err(e) => profile_gap(*credential) == Some(e),
        },
{
    let identity_id: u128 = match credential.external_identity_id {
        Some(id) => id,
        None => {
            return Err(refuse(Status::Internal, "external Widget identity is missing"));
        },
    };
    match (&credential.external_user_id, &credential.external_tenant_id) {
        (None, _) => Err(refuse(Status::Internal, "external Widget user is missing")),
        (Some(_), None) => Err(refuse(Status::Internal, "external Widget tenant is missing")),
        (Some(user), Some(tenant)) => Ok(
            ProfileTarget {
                identity_id,
                external_user_id: user.clone(),
                tenant_id: tenant.clone(),
            },
        ),
    }
}

/// Only the application of a credential, with its secret, changes the profile
/// that goes with it.
pub open spec fn profile_client(
    app_id: Id,
    credential_app: Option<Id>,
    client: Result<(), ErrorView>,
) -> Result<(), ErrorView> {
    if credential_app != Some(app_id) || client is Err {
        refused(Status::Unauthorized, "invalid oauth client"@)
    } else {
        Ok(())
    }
}

/// Accepts the application that changes the profile of a credential.
pub fn check_profile_client(
    app_id: Id,
    credential_app: Option<Id>,
    stored_secret: &str,
    client_secret: &str,
) -> (r: Result<(), ApiError>)
    ensures
        plain(r) == profile_client(
            app_id,
            credential_app,
            client_check(stored_secret@, client_secret@),
        ),
{
    let own = match credential_app {
        Some(app) => app == app_id,
        None => false,
    };
    if !own {
        return Err(ApiError::unauthorized("invalid oauth client"));
    }
    match check_client_secret(stored_secret, client_secret) {
        Ok(_) => Ok(()),
        Err(_) => Err(ApiError::unauthorized("invalid oauth client")),
    }
}

/// A fresh access token: a visitor's is told from a user's by its prefix.
pub fn new_access_token(anonymous: bool) -> (r: String)
    ensures
        anonymous ==> exists|a: Id, b: Id| r@ == #[trigger] secret_text("ahp_"@, a, b),
        !anonymous ==> exists|a: Id, b: Id| r@ == #[trigger] secret_text("ahw_"@, a, b),
{
    if anonymous {
        new_secret("ahp_")
    } else {
        new_secret("ahw_")
    }
}

/// When something that lasts this many seconds expires.
pub fn expires_after(now: Instant, seconds: u32) -> (r: Instant)
    requires
        on_calendar(now),
        second_of(now) + seconds <= LAST_SECOND,
    ensures
        r == now + seconds * 1_000_000_000,
{
    now + seconds as i128 * 1_000_000_000
}

/// Access is prepared for a named client with its secret, a client instance
/// and tools that are accepted; whatever is wrong first is told.
pub proof fn access_is_prepared_from_its_parts(
    client: Result<(Seq<char>, Seq<char>), ErrorView>,
    instance: Id,
    tools: Result<JsonView, ErrorView>,
)
    ensures
        prepared_access(client, instance, tools) is Ok <==> client is Ok && instance != 0 && tools
            is Ok,
        prepared_access(client, instance, tools) matches Ok(p) ==> p.client_id == client->Ok_0.0
            && p.client_secret == client->Ok_0.1 && p.tool_definitions == tools->Ok_0,
        client is Err ==> prepared_access(client, instance, tools) == Err::<
            PreparedView,
            ErrorView,
        >(client->Err_0),
        client is Ok && instance != 0 && tools is Err ==> prepared_access(client, instance, tools)
            == Err::<PreparedView, ErrorView>(tools->Err_0),
        instance_validity(instance) is Ok <==> instance != 0,
        instance_validity(instance) matches Err(e) ==> e.status == Status::BadRequest,
{
}

/// A user is vouched for by everything together: the client, the origin, the
/// tenant, the user and the profile; and is then just that user.
pub proof fn vouched_users_are_who_they_are_said_to_be(
    client: Result<(), ErrorView>,
    origin: Result<(), ErrorView>,
    tenant: Result<Seq<char>, ErrorView>,
    user: Result<Seq<char>, ErrorView>,
    profile: Result<ProfileView, ErrorView>,
)
    ensures
        vouched_user(client, origin, tenant, user, profile) is Ok <==> client is Ok && origin is Ok
            && tenant is Ok && user is Ok && profile is Ok,
        vouched_user(client, origin, tenant, user, profile) matches Ok(v) ==> v.tenant_id
            == tenant->Ok_0 && v.external_user_id == user->Ok_0 && v.profile == profile->Ok_0,
        client is Err ==> vouched_user(client, origin, tenant, user, profile)->Err_0
            == client->Err_0,
        client is Ok && origin is Err ==> vouched_user(client, origin, tenant, user, profile)->Err_0
            == origin->Err_0,
{
}

/// A visitor is let in where the application is a public one, with one agent,
/// from an origin that is allowed; a visitor without a client instance is
/// nobody.
pub proof fn visitors_are_let_in_to_public_applications(
    app: Result<(), ErrorView>,
    agents: nat,
    origin: Result<(), ErrorView>,
    instance: Id,
    key: Seq<char>,
)
    ensures
        visitor_admission(app, agents, origin) is Ok <==> app is Ok && agents == 1 && origin is Ok,
        single_agent(agents) matches Err(e) ==> e.status == Status::Conflict,
        visitor(instance, key) is Ok <==> instance != 0 && visitor_digest(key) is Ok,
        visitor(instance, key) is Ok ==> visitor(instance, key) == visitor_digest(key),
{
}

/// A session that a visitor names is found again or refused, and a visitor
/// that names none may have had one.
pub proof fn named_sessions_are_found_again(named: Option<Id>, recovered: Option<Option<Id>>)
    ensures
        recovered_session(named, recovered) is Err <==> named is Some && recovered is None,
        recovered is Some ==> recovered_session(named, recovered) == Ok::<Option<Id>, Refusal>(
            recovered->0,
        ),
        named is None && recovered is None ==> recovered_session(named, recovered) == Ok::<
            Option<Id>,
            Refusal,
        >(None),
        recovered_session(named, recovered) matches Err(e) ==> e.status == Status::NotFound,
{
}

/// Access is renewed for the client instance that has it: a visitor's without
/// a profile, an outside user's with or without one, nobody else's.
pub proof fn access_is_renewed_for_its_client(credential: WidgetCredential, with_profile: bool)
    ensures
        renewal(credential, with_profile) is Ok <==> credential.client_instance_id is Some && (
        credential.external() || (credential.anonymous && !with_profile)),
        renewal(credential, with_profile) matches Ok(client) ==> credential.client_instance_id
            == Some(client),
        credential.client_instance_id is None ==> renewal(credential, with_profile)->Err_0.status
            == Status::Unauthorized,
        credential.client_instance_id is Some && credential.anonymous && with_profile ==> renewal(
            credential,
            with_profile,
        )->Err_0.status == Status::BadRequest,
{
}

/// A profile is changed for a complete identity, by the application that the
/// credential is from, with its secret.
pub proof fn profiles_are_changed_by_their_application(
    credential: WidgetCredential,
    app_id: Id,
    credential_app: Option<Id>,
    client: Result<(), ErrorView>,
)
    ensures
        profile_gap(credential) is None <==> credential.external_identity_id is Some
            && credential.external_user_id is Some && credential.external_tenant_id is Some,
        profile_client(app_id, credential_app, client) is Ok <==> credential_app == Some(app_id)
            && client is Ok,
        profile_client(app_id, credential_app, client) matches Err(e) ==> e.status
            == Status::Unauthorized,
{
}

/// A credential that is no client's is not believed; a visitor has no profile
/// to renew.
pub proof fn refused_renewals_say_why(credential: WidgetCredential, with_profile: bool)
    ensures
        renewal(credential, with_profile) matches Err(e) ==> e.status
            == if credential.client_instance_id is Some && (credential.external()
            || credential.anonymous) {
            Status::BadRequest
        } else {
            Status::Unauthorized
        },
{
}

/// A credential of an outside user that lacks a part of who they are is a
/// fault of the hub's own.
pub proof fn incomplete_users_are_a_fault(credential: WidgetCredential)
    ensures
        profile_gap(credential) matches Some(e) ==> e.status == Status::Internal,
{
}

} // verus!
