//! Sessions that an application runs for its own users: whose they are, who
//! pays, and what a run of one is given.

use crate::error::{refusal, refuse, refused, seen, ApiError, ErrorView, Refusal, Status};
use crate::ids::{hyphenated_id, id_text, Id};
use crate::json::{copy_json, integer_json, integer_numeral, Json, JsonView};
use crate::jwt::some_json;
use crate::text::{opt_view, same};
use crate::tools::{
    tool_definitions_validity, validate_tool_definitions, AttachmentRow, AttachmentView,
};
use crate::widget_profile::{
    external_user_id, normalize_external_user_id, opt_str, require_origin_tenant, required_tenant,
};
use crate::widget_run::ModelSubject;
use vstd::prelude::*;

verus! {

/// Whom a token of an application speaks for.
#[derive(Clone, Copy, Debug, PartialEq, Eq, Structural)]
pub enum GrantType {
    /// The application itself.
    ClientCredentials,
    /// The user who authorized the application.
    AuthorizationCode,
    Other,
}

/// The grant that a stored name stands for.
pub open spec fn grant_named(name: Seq<char>) -> GrantType {
    if name == "client_credentials"@ {
        GrantType::ClientCredentials
    } else if name == "authorization_code"@ {
        GrantType::AuthorizationCode
    } else {
        GrantType::Other
    }
}

/// The grant that a stored name stands for.
pub fn stored_grant(name: &str) -> (r: GrantType)
    ensures
        r == grant_named(name@),
{
    if same(name, "client_credentials") {
        GrantType::ClientCredentials
    } else if same(name, "authorization_code") {
        GrantType::AuthorizationCode
    } else {
        GrantType::Other
    }
}

/// Who an application speaks for.
#[derive(Debug)]
pub struct IntegrationPrincipal {
    pub oauth_app_id: Id,
    pub grant: GrantType,
    pub subject_user_id: Option<Id>,
    pub origin_tenant_id: Option<String>,
    pub origin_external_identity_id: Option<Id>,
}

/// Who pays for the model that a run uses.
#[derive(Clone, Copy, Debug, PartialEq, Eq, Structural)]
pub struct RunModelAttribution {
    pub subject: ModelSubject,
    pub subject_user_id: Option<Id>,
    pub source_integration_app_id: Option<Id>,
}

/// The application pays where it speaks for itself, else the user that it
/// speaks for; either way it is named.
pub open spec fn attribution(principal: IntegrationPrincipal) -> RunModelAttribution {
    if principal.grant == GrantType::ClientCredentials {
        RunModelAttribution {
            subject: ModelSubject::IntegrationApp,
            subject_user_id: None,
            source_integration_app_id: Some(principal.oauth_app_id),
        }
    } else {
        RunModelAttribution {
            subject: ModelSubject::User,
            subject_user_id: principal.subject_user_id,
            source_integration_app_id: Some(principal.oauth_app_id),
        }
    }
}

/// Who pays for the model that a run uses.
pub fn integration_run_model_attribution(principal: &IntegrationPrincipal) -> (r: RunModelAttribution)
    ensures
        r == attribution(*principal),
{
    match principal.grant {
        GrantType::ClientCredentials => RunModelAttribution {
            subject: ModelSubject::IntegrationApp,
            subject_user_id: None,
            source_integration_app_id: Some(principal.oauth_app_id),
        },
        _ => RunModelAttribution {
            subject: ModelSubject::User,
            subject_user_id: principal.subject_user_id,
            source_integration_app_id: Some(principal.oauth_app_id),
        },
    }
}

/// Only an application that speaks for itself hands out widget sessions.
pub open spec fn widget_exchange(grant: GrantType) -> Result<(), Refusal> {
    if grant == GrantType::ClientCredentials {
        Ok(())
    } else {
        Err(refusal(Status::Forbidden, "widget exchange requires client credentials"))
    }
}

/// Refuses to hand out widget sessions for anybody else.
pub fn check_widget_exchange(grant: GrantType) -> (r: Result<(), Refusal>)
    ensures
        r == widget_exchange(grant),
{
    match grant {
        GrantType::ClientCredentials => Ok(()),
        _ => Err(refuse(Status::Forbidden, "widget exchange requires client credentials")),
    }
}

// ---------------------------------------------------------------------------
// Creating a session
// ---------------------------------------------------------------------------

/// The outside user of a new session.
#[derive(Debug)]
pub struct SessionUser {
    pub external_user_id: String,
    pub tenant_id: String,
}

/// What `SessionUser` holds.
pub struct SessionUserView {
    pub external_user_id: Seq<char>,
    pub tenant_id: Seq<char>,
}

impl View for SessionUser {
    type V = SessionUserView;

    open spec fn view(&self) -> SessionUserView {
        SessionUserView {
            external_user_id: self.external_user_id@,
            tenant_id: self.tenant_id@,
        }
    }
}

/// The outside user of a new session, whose tools, identifier, metadata and
/// tenant are accepted.
pub open spec fn session_user(
    tools: JsonView,
    user: Seq<char>,
    metadata: JsonView,
    tenant: Option<Seq<char>>,
) -> Result<SessionUserView, ErrorView> {
    match tool_definitions_validity(tools) {
        Err(e) => Err(e),
        Ok(_) => match external_user_id(user) {
            Err(e) => Err(e),
            Ok(user_id) => if !(metadata is Object) {
                refused(Status::BadRequest, "metadata must be a JSON object"@)
            } else {
                match required_tenant(tenant) {
                    Err(e) => Err(e),
                    Ok(tenant_id) => Ok(SessionUserView { external_user_id: user_id, tenant_id }),
                }
            },
        },
    }
}

/// The outside user of a new session, or what is wrong with the request.
pub fn prepare_integration_session(
    tools: &Json,
    user: &str,
    metadata: &Json,
    tenant: Option<&str>,
) -> (r: Result<SessionUser, ApiError>)
    ensures
        seen(r) == session_user(tools@, user@, metadata@, opt_str(tenant)),
{
    match validate_tool_definitions(tools) {
        Ok(_) => {},
        Err(e) => {
            return Err(e);
        },
    }
    let user_id = match normalize_external_user_id(user) {
        Ok(user_id) => user_id,
        Err(e) => {
            return Err(e);
        },
    };
    if !metadata.is_object() {
        return Err(ApiError::bad_request("metadata must be a JSON object"));
    }
    match require_origin_tenant(tenant) {
        Ok(tenant_id) => Ok(SessionUser { external_user_id: user_id, tenant_id }),
        Err(e) => Err(e),
    }
}

/// How the user of a new session is found.
#[derive(Clone, Copy, Debug)]
pub enum SessionSubject {
    /// The token is bound to this user by this identity, which must be the
    /// one that the request names.
    Bound { user_id: Id, identity_id: Id },
    /// The application vouches for the user, by an address.
    Vouched,
    Refuse(Refusal),
}

/// How the user of a new session is found: a token that speaks for a user is
/// bound to that user's identity and tenant; an application that speaks for
/// itself vouches for an address.
pub open spec fn session_subject(
    principal: IntegrationPrincipal,
    tenant: Seq<char>,
    has_email: bool,
) -> SessionSubject {
    if principal.grant == GrantType::AuthorizationCode {
        if principal.subject_user_id is None || principal.origin_tenant_id is None
            || principal.origin_external_identity_id is None {
            SessionSubject::Refuse(
                refusal(Status::Unauthorized, "invalid user application token"),
            )
        } else if principal.origin_tenant_id->0@ != tenant {
            SessionSubject::Refuse(
                refusal(Status::Forbidden, "application token is bound to another tenant"),
            )
        } else {
            SessionSubject::Bound {
                user_id: principal.subject_user_id->0,
                identity_id: principal.origin_external_identity_id->0,
            }
        }
    } else if has_email {
        SessionSubject::Vouched
    } else {
        SessionSubject::Refuse(refusal(Status::BadRequest, "trusted email is required"))
    }
}

/// How the user of a new session is found.
pub fn create_integration_session(
    principal: &IntegrationPrincipal,
    tenant: &str,
    has_email: bool,
) -> (r: SessionSubject)
    ensures
        r == session_subject(*principal, tenant@, has_email),
{
    match principal.grant {
        GrantType::AuthorizationCode => {
            match (
                principal.subject_user_id,
                &principal.origin_tenant_id,
                principal.origin_external_identity_id,
            ) {
                (Some(user_id), Some(origin), Some(identity_id)) => {
                    if !same(origin.as_str(), tenant) {
                        return SessionSubject::Refuse(
                            refuse(
                                Status::Forbidden,
                                "application token is bound to another tenant",
                            ),
                        );
                    }
                    SessionSubject::Bound { user_id, identity_id }
                },
                _ => SessionSubject::Refuse(
                    refuse(Status::Unauthorized, "invalid user application token"),
                ),
            }
        },
        _ => {
            if has_email {
                SessionSubject::Vouched
            } else {
                SessionSubject::Refuse(refuse(Status::BadRequest, "trusted email is required"))
            }
        },
    }
}

/// The identity that the request names is the one that the token is bound to.
pub open spec fn bound_identity(matches: bool) -> Result<(), Refusal> {
    if matches {
        Ok(())
    } else {
        Err(
            refusal(Status::Forbidden, "application token is bound to another external identity"),
        )
    }
}

/// Refuses a token that is bound to another identity.
pub fn check_bound_identity(matches: bool) -> (r: Result<(), Refusal>)
    ensures
        r == bound_identity(matches),
{
    if matches {
        Ok(())
    } else {
        Err(refuse(Status::Forbidden, "application token is bound to another external identity"))
    }
}

/// A token that speaks for a user never opens a session for another user or
/// tenant, and needs no address; an application that speaks for itself always
/// vouches for one.
pub proof fn tokens_stay_with_their_user(
    principal: IntegrationPrincipal,
    tenant: Seq<char>,
    has_email: bool,
)
    ensures
        match session_subject(principal, tenant, has_email) {
            SessionSubject::Bound { user_id, identity_id } => principal.grant
                == GrantType::AuthorizationCode && principal.subject_user_id == Some(user_id)
                && principal.origin_external_identity_id == Some(identity_id) && opt_view(
                principal.origin_tenant_id,
            ) == Some(tenant),
            SessionSubject::Vouched => principal.grant != GrantType::AuthorizationCode && has_email,
            SessionSubject::Refuse(_) => true,
        },
{
}

// ---------------------------------------------------------------------------
// What a run is given
// ---------------------------------------------------------------------------

/// What is known of a run when its context is put together.
#[derive(Clone, Copy, Debug, PartialEq, Eq, Structural)]
pub struct ContextRun {
    pub integration_session_id: Option<Id>,
    pub client_managed: bool,
    /// The run goes on with the results of tools.
    pub after_tools: bool,
    pub parent_run_id: Option<Id>,
    pub hub_session_id: Option<Id>,
}

/// What the context of a run is made of.
#[derive(Clone, Copy, Debug)]
pub struct ContextPlan {
    /// The tools are those that the client offered, not those of this session.
    pub client_tools: bool,
    pub session_id: Option<Id>,
    /// The results of the tools that the run before asked for, in this
    /// session.
    pub results_of: Option<(Id, Id)>,
    /// Every result is given, not only the last.
    pub all_results: bool,
}

/// What the context of a run is made of; a run without a session or client
/// has none.
pub open spec fn context_plan(run: ContextRun) -> Result<Option<ContextPlan>, Refusal> {
    if run.integration_session_id is None && !run.client_managed {
        Ok(None)
    } else if run.after_tools && run.parent_run_id is None {
        Err(refusal(Status::Internal, "tool-result run parent is missing"))
    } else if run.after_tools && run.hub_session_id is None {
        Err(refusal(Status::Internal, "tool-result Run Session is missing"))
    } else {
        Ok(
            Some(
                ContextPlan {
                    client_tools: run.client_managed,
                    session_id: run.integration_session_id,
                    results_of: if run.after_tools {
                        Some((run.parent_run_id->0, run.hub_session_id->0))
                    } else {
                        None
                    },
                    all_results: run.after_tools && run.client_managed,
                },
            ),
        )
    }
}

/// What the context of a run is made of.
pub fn plan_integration_context(run: ContextRun) -> (r: Result<Option<ContextPlan>, Refusal>)
    ensures
        r == context_plan(run),
{
    if run.integration_session_id.is_none() && !run.client_managed {
        return Ok(None);
    }
    let results_of = if run.after_tools {
        match (run.parent_run_id, run.hub_session_id) {
            (None, _) => {
                return Err(refuse(Status::Internal, "tool-result run parent is missing"));
            },
            (Some(_), None) => {
                return Err(refuse(Status::Internal, "tool-result Run Session is missing"));
            },
            (Some(parent), Some(session)) => Some((parent, session)),
        }
    } else {
        None
    };
    Ok(
        Some(
            ContextPlan {
                client_tools: run.client_managed,
                session_id: run.integration_session_id,
                results_of,
                all_results: run.after_tools && run.client_managed,
            },
        ),
    )
}

/// An attachment as a run is given it.
pub open spec fn shown_attachment(a: AttachmentView) -> JsonView {
    JsonView::Object(
        seq![
            ("content_type"@, JsonView::Text(a.content_type)),
            ("kind"@, JsonView::Text(a.kind)),
            ("name"@, JsonView::Text(a.name)),
            ("size_bytes"@, JsonView::Number(Some(a.size_bytes as i64), integer_numeral(a.size_bytes))),
            ("text"@, text_or_null(a.text)),
            ("url"@, text_or_null(a.url)),
        ],
    )
}

/// A text, or the value that says there is none.
pub open spec fn text_or_null(text: Option<Seq<char>>) -> JsonView {
    match text {
        Some(t) => JsonView::Text(t),
        None => JsonView::Null,
    }
}

fn text_value(text: &Option<String>) -> (r: Json)
    ensures
        r@ == text_or_null(opt_view(*text)),
{
    match text {
        Some(t) => Json::Text(t.clone()),
        None => Json::Null,
    }
}

fn named_text(text: &String) -> (r: Json)
    ensures
        r@ == JsonView::Text(text@),
{
    Json::Text(text.clone())
}

/// An attachment as a run is given it.
pub fn attachment_json(a: &AttachmentRow) -> (r: Json)
    ensures
        r@ == shown_attachment(a@),
{
    let content_type = named_text(&a.content_type);
    let kind = named_text(&a.kind);
    let name = named_text(&a.name);
    let size = integer_json(a.size_bytes);
    let text = text_value(&a.text);
    let url = text_value(&a.url);
    let fields = vec![
        ("content_type".to_owned(), content_type),
        ("kind".to_owned(), kind),
        ("name".to_owned(), name),
        ("size_bytes".to_owned(), size),
        ("text".to_owned(), text),
        ("url".to_owned(), url),
    ];
    let r = Json::Object(fields);
    assert(r@->Object_0 =~= shown_attachment(a@)->Object_0);
    r
}

/// A completed call as it is stored.
#[derive(Debug)]
pub struct CompletedCall {
    pub call_id: Id,
    pub tool_name: String,
    pub payload: Option<Json>,
    /// The payload reads as a result.
    pub readable: bool,
}

/// What a `CompletedCall` holds.
pub struct CompletedCallView {
    pub call_id: Id,
    pub tool_name: Seq<char>,
    pub payload: Option<JsonView>,
    pub readable: bool,
}

impl View for CompletedCall {
    type V = CompletedCallView;

    open spec fn view(&self) -> CompletedCallView {
        CompletedCallView {
            call_id: self.call_id,
            tool_name: self.tool_name@,
            payload: some_json(self.payload),
            readable: self.readable,
        }
    }
}

/// What completed calls hold.
pub open spec fn completed_views(v: Seq<CompletedCall>) -> Seq<CompletedCallView> {
    Seq::new(v.len(), |i: int| v[i]@)
}

/// A call has a payload that reads as a result.
pub open spec fn has_result(call: CompletedCallView) -> bool {
    call.readable && call.payload is Some
}

/// The result of a call as a run is given it.
pub open spec fn shown_result(call: CompletedCallView) -> JsonView {
    JsonView::Object(
        seq![
            ("result"@, call.payload->0),
            ("tool_call_id"@, JsonView::Text(hyphenated_id(call.call_id))),
            ("tool_name"@, JsonView::Text(call.tool_name)),
        ],
    )
}

/// The results of completed calls, all of them and in order, as a run is given
/// them.
pub open spec fn shown_results(calls: Seq<CompletedCallView>) -> Result<
    Seq<JsonView>,
    ErrorView,
> {
    if forall|i: int| 0 <= i < calls.len() ==> has_result(#[trigger] calls[i]) {
        Ok(Seq::new(calls.len(), |i: int| shown_result(calls[i])))
    } else {
        refused(Status::Internal, "stored Client Tool result is invalid"@)
    }
}

/// What the results of calls hold, or the error.
pub open spec fn results_seen(r: Result<Vec<Json>, ApiError>) -> Result<Seq<JsonView>, ErrorView> {
    match r {
        Ok(v) => Ok(Seq::new(v@.len(), |i: int| v@[i]@)),
        Err(e) => Err(e@),
    }
}

/// The results of completed calls, as a run is given them.
pub fn tool_results(calls: &Vec<CompletedCall>) -> (r: Result<Vec<Json>, ApiError>)
    ensures
        results_seen(r) == shown_results(completed_views(calls@)),
{
    let ghost all = completed_views(calls@);
    let mut out: Vec<Json> = Vec::new();
    let mut i: usize = 0;
    while i < calls.len()
        invariant
            i <= calls@.len(),
            out@.len() == i,
            all == completed_views(calls@),
            forall|k: int|
                0 <= k < i ==> has_result(#[trigger] all[k]) && out@[k]@ == shown_result(all[k]),
        decreases calls@.len() - i,
    {
        let call = &calls[i];
        assert(all[i as int] == call@);
        match (&call.payload, call.readable) {
            (Some(payload), true) => {
                let fields = vec![
                    ("result".to_owned(), copy_json(payload)),
                    ("tool_call_id".to_owned(), named_text(&id_text(call.call_id))),
                    ("tool_name".to_owned(), named_text(&call.tool_name)),
                ];
                let shown = Json::Object(fields);
                assert(shown@->Object_0 =~= shown_result(call@)->Object_0);
                out.push(shown);
            },
            _ => {
                assert(!has_result(all[i as int]));
                return Err(ApiError::internal("stored Client Tool result is invalid"));
            },
        }
        i = i + 1;
    }
    assert(results_seen(Ok(out))->Ok_0 =~= shown_results(all)->Ok_0);
    Ok(out)
}

/// The user that a run is told of: as stored with the run, where it can be
/// read.
pub open spec fn told_user(stored: Option<JsonView>, readable: bool) -> Result<
    Option<JsonView>,
    ErrorView,
> {
    if stored is Some && !readable {
        refused(Status::Internal, "Run external user context is invalid"@)
    } else {
        Ok(stored)
    }
}

/// The user that a run is told of.
pub fn external_user_of(stored: Option<Json>, readable: bool) -> (r: Result<
    Option<Json>,
    ApiError,
>)
    ensures
        match r {
            Ok(user) => told_user(some_json(stored), readable) == Ok::<
                Option<JsonView>,
                ErrorView,
            >(some_json(user)),
            Err(e) => told_user(some_json(stored), readable) == Err::<Option<JsonView>, ErrorView>(
                e@,
            ),
        },
{
    if stored.is_some() && !readable {
        return Err(ApiError::internal("Run external user context is invalid"));
    }
    Ok(stored)
}

/// What a run is told besides its message.
#[derive(Debug)]
pub struct IntegrationContext {
    pub tools: Json,
    pub attachments: Json,
    /// The last result.
    pub tool_result: Option<Json>,
    /// Every result.
    pub tool_results: Vec<Json>,
}

/// What attachments hold.
pub open spec fn attachment_views(v: Seq<AttachmentRow>) -> Seq<AttachmentView> {
    Seq::new(v.len(), |i: int| v[i]@)
}

/// The attachments of a run as it is given them.
pub open spec fn shown_attachments(v: Seq<AttachmentView>) -> JsonView {
    JsonView::List(Seq::new(v.len(), |i: int| shown_attachment(v[i])))
}

/// The result that a run goes on with: the last one, where it goes on with
/// results at all.
pub open spec fn result_given(plan: ContextPlan, calls: Seq<CompletedCallView>) -> Option<
    JsonView,
> {
    if plan.results_of is Some && calls.len() > 0 {
        calls.last().payload
    } else {
        None
    }
}

/// The results that a run goes on with: all of them, where a client executed
/// the tools.
pub open spec fn results_given(plan: ContextPlan, calls: Seq<CompletedCallView>) -> Result<
    Seq<JsonView>,
    ErrorView,
> {
    if plan.all_results {
        shown_results(calls)
    } else {
        Ok(seq![])
    }
}

/// Puts the context of a run together: the tools of its client or of its
/// session, its attachments, the last of the results, and all of them for a
/// client.
pub fn load_integration_context(
    plan: ContextPlan,
    session_tools: &Json,
    client_tools: &Json,
    attachments: &Vec<AttachmentRow>,
    calls: &Vec<CompletedCall>,
) -> (r: Result<IntegrationContext, ApiError>)
    ensures
        match r {
            Ok(context) => {
                &&& context.tools@ == if plan.client_tools {
                    client_tools@
                } else {
                    session_tools@
                }
                &&& context.attachments@ == shown_attachments(attachment_views(attachments@))
                &&& some_json(context.tool_result) == result_given(plan, completed_views(calls@))
                &&& results_given(plan, completed_views(calls@)) == results_seen(
                    Ok(context.tool_results),
                )
            },
            Err(e) => results_given(plan, completed_views(calls@)) == Err::<
                Seq<JsonView>,
                ErrorView,
            >(e@),
        },
{
    let tool_results = if plan.all_results {
        match tool_results(calls) {
            Ok(found) => found,
            Err(e) => {
                return Err(e);
            },
        }
    } else {
        Vec::new()
    };
    assert(!plan.all_results ==> results_seen(Ok(tool_results))->Ok_0 =~= seq![]);
    let tools = if plan.client_tools {
        copy_json(client_tools)
    } else {
        copy_json(session_tools)
    };
    let ghost all = attachment_views(attachments@);
    let mut items: Vec<Json> = Vec::new();
    let mut i: usize = 0;
    while i < attachments.len()
        invariant
            i <= attachments@.len(),
            items@.len() == i,
            all == attachment_views(attachments@),
            forall|k: int| 0 <= k < i ==> (#[trigger] items@[k])@ == shown_attachment(all[k]),
        decreases attachments@.len() - i,
    {
        assert(all[i as int] == attachments@[i as int]@);
        items.push(attachment_json(&attachments[i]));
        i = i + 1;
    }
    let list = Json::List(items);
    assert(list@->List_0 =~= shown_attachments(all)->List_0);
    let tool_result = if plan.results_of.is_some() && calls.len() > 0 {
        match &calls[calls.len() - 1].payload {
            Some(payload) => Some(copy_json(payload)),
            None => None,
        }
    } else {
        None
    };
    Ok(IntegrationContext { tools, attachments: list, tool_result, tool_results })
}

/// A message of an application starts a run.
pub open spec fn message_run(scheduled: bool) -> Result<(), Refusal> {
    if scheduled {
        Ok(())
    } else {
        Err(refusal(Status::Internal, "integration message did not schedule a run"))
    }
}

/// Checks that a message of an application started a run.
pub fn check_message_run(scheduled: bool) -> (r: Result<(), Refusal>)
    ensures
        r == message_run(scheduled),
{
    if scheduled {
        Ok(())
    } else {
        Err(refuse(Status::Internal, "integration message did not schedule a run"))
    }
}

/// A run that the application asked for itself is counted for the application,
/// any other for the user who authorized it; both name the application.
pub proof fn runs_are_counted_for_who_asked(principal: IntegrationPrincipal)
    ensures
        attribution(principal).source_integration_app_id == Some(principal.oauth_app_id),
        attribution(principal).subject == ModelSubject::IntegrationApp <==> principal.grant
            == GrantType::ClientCredentials,
        attribution(principal).subject == ModelSubject::User <==> principal.grant
            != GrantType::ClientCredentials,
        attribution(principal).subject_user_id == if principal.grant
            == GrantType::ClientCredentials {
            None
        } else {
            principal.subject_user_id
        },
        widget_exchange(principal.grant) is Ok <==> principal.grant
            == GrantType::ClientCredentials,
        widget_exchange(principal.grant) matches Err(e) ==> e.status == Status::Forbidden,
{
}

/// A grant is read back from its name, and any other name is of neither kind.
pub proof fn grants_are_read_from_their_names(name: Seq<char>)
    ensures
        grant_named("client_credentials"@) == GrantType::ClientCredentials,
        grant_named("authorization_code"@) == GrantType::AuthorizationCode,
        grant_named(name) == GrantType::Other <==> name != "client_credentials"@ && name
            != "authorization_code"@,
{
    reveal_strlit("client_credentials");
    reveal_strlit("authorization_code");
    assert("client_credentials"@[0] == 'c' && "authorization_code"@[0] == 'a');
}

/// A session is prepared for a user and a tenant that are named rightly, with
/// tools that have names and metadata that are an object.
pub proof fn sessions_are_prepared_for_a_user(
    tools: JsonView,
    user: Seq<char>,
    metadata: JsonView,
    tenant: Option<Seq<char>>,
)
    ensures
        session_user(tools, user, metadata, tenant) is Ok <==> {
            &&& tool_definitions_validity(tools) is Ok
            &&& external_user_id(user) is Ok
            &&& metadata is Object
            &&& required_tenant(tenant) is Ok
        },
        session_user(tools, user, metadata, tenant) matches Ok(found) ==> {
            &&& external_user_id(user) == Ok::<Seq<char>, ErrorView>(found.external_user_id)
            &&& required_tenant(tenant) == Ok::<Seq<char>, ErrorView>(found.tenant_id)
        },
{
}

/// A token that a user authorized opens sessions of that user in the tenant
/// that it came from; other tokens open one wherever an address is given.
pub proof fn tokens_open_their_sessions(
    principal: IntegrationPrincipal,
    tenant: Seq<char>,
    has_email: bool,
    matches: bool,
    scheduled: bool,
)
    ensures
        session_subject(principal, tenant, has_email) is Bound <==> {
            &&& principal.grant == GrantType::AuthorizationCode
            &&& principal.subject_user_id is Some
            &&& principal.origin_external_identity_id is Some
            &&& principal.origin_tenant_id is Some
            &&& principal.origin_tenant_id->0@ == tenant
        },
        session_subject(principal, tenant, has_email) is Vouched <==> principal.grant
            != GrantType::AuthorizationCode && has_email,
        session_subject(principal, tenant, has_email) matches SessionSubject::Refuse(e)
            ==> e.status == if principal.grant != GrantType::AuthorizationCode {
            Status::BadRequest
        } else if principal.subject_user_id is Some && principal.origin_external_identity_id is Some
            && principal.origin_tenant_id is Some {
            Status::Forbidden
        } else {
            Status::Unauthorized
        },
        bound_identity(matches) is Ok <==> matches,
        bound_identity(matches) matches Err(e) ==> e.status == Status::Forbidden,
        message_run(scheduled) is Ok <==> scheduled,
        message_run(scheduled) matches Err(e) ==> e.status == Status::Internal,
{
}

/// A run has a context where it came through an integration or a client; one
/// that goes on after tools is told what the run before it asked for, and all
/// of it where the client manages the tools.
pub proof fn contexts_follow_their_run(run: ContextRun)
    ensures
        context_plan(run) == Ok::<Option<ContextPlan>, Refusal>(None) <==> run.integration_session_id
            is None && !run.client_managed,
        context_plan(run) is Err <==> (run.integration_session_id is Some || run.client_managed)
            && run.after_tools && (run.parent_run_id is None || run.hub_session_id is None),
        context_plan(run) matches Err(e) ==> e.status == Status::Internal,
        context_plan(run) matches Ok(Some(plan)) ==> {
            &&& plan.client_tools == run.client_managed
            &&& plan.session_id == run.integration_session_id
            &&& plan.results_of is Some <==> run.after_tools
            &&& plan.results_of is Some ==> run.parent_run_id == Some((plan.results_of->0).0)
                && run.hub_session_id == Some((plan.results_of->0).1)
            &&& plan.all_results <==> run.after_tools && run.client_managed
        },
{
}

/// An attachment is shown with everything that is stored of it, under the
/// names by which attachments are sent.
pub proof fn attachments_are_shown_as_stored(a: AttachmentView)
    requires
        i64::MIN <= a.size_bytes <= i64::MAX,
    ensures
        shown_attachment(a).text_field("kind"@) == Some(a.kind),
        shown_attachment(a).text_field("name"@) == Some(a.name),
        shown_attachment(a).text_field("content_type"@) == Some(a.content_type),
        shown_attachment(a).text_field("text"@) == a.text,
        shown_attachment(a).text_field("url"@) == a.url,
        shown_attachment(a).integer_field("size_bytes"@) == Some(a.size_bytes as i64),
        shown_attachment(a)->Object_0.len() == 6,
{
    reveal_strlit("content_type");
    reveal_strlit("kind");
    reveal_strlit("name");
    reveal_strlit("size_bytes");
    reveal_strlit("text");
    reveal_strlit("url");
    assert("content_type"@.len() == 12 && "size_bytes"@.len() == 10 && "url"@.len() == 3);
    assert("kind"@[0] == 'k' && "name"@[0] == 'n' && "text"@[0] == 't');
    assert("kind"@.len() == 4 && "name"@.len() == 4 && "text"@.len() == 4);
    reveal_with_fuel(crate::json::field_from, 7);
}

/// Results are told one for one and in the order of their calls, each with its
/// call, where every call has one that can be read.
pub proof fn results_are_told_in_order(calls: Seq<CompletedCallView>, i: int)
    ensures
        shown_results(calls) is Ok <==> forall|k: int|
            0 <= k < calls.len() ==> (#[trigger] calls[k]).readable && calls[k].payload is Some,
        shown_results(calls) matches Err(e) ==> e.status == Status::Internal,
        shown_results(calls) matches Ok(shown) ==> shown.len() == calls.len() && (0 <= i
            < calls.len() ==> shown[i].field("result"@) == calls[i].payload && shown[i].text_field(
            "tool_call_id"@,
        ) == Some(hyphenated_id(calls[i].call_id)) && shown[i].text_field("tool_name"@) == Some(
            calls[i].tool_name,
        )),
{
    reveal_strlit("result");
    reveal_strlit("tool_call_id");
    reveal_strlit("tool_name");
    assert("result"@.len() == 6 && "tool_call_id"@.len() == 12 && "tool_name"@.len() == 9);
    reveal_with_fuel(crate::json::field_from, 4);
    if shown_results(calls) is Ok {
        assert forall|k: int| 0 <= k < calls.len() implies (#[trigger] calls[k]).readable
            && calls[k].payload is Some by {
            assert(has_result(calls[k]));
        }
        if 0 <= i < calls.len() {
            assert(has_result(calls[i]));
        }
    }
}

/// The last result is given where results are asked for, and every one where
/// all are.
pub proof fn results_are_given_as_planned(plan: ContextPlan, calls: Seq<CompletedCallView>)
    ensures
        result_given(plan, calls) is Some ==> plan.results_of is Some,
        plan.results_of is Some && calls.len() > 0 ==> result_given(plan, calls)
            == calls[calls.len() - 1].payload,
        calls.len() == 0 ==> result_given(plan, calls) is None,
        plan.all_results ==> results_given(plan, calls) == shown_results(calls),
        !plan.all_results ==> results_given(plan, calls) is Ok && results_given(
            plan,
            calls,
        )->Ok_0.len() == 0,
{
}

/// What is told of an outside user is what was stored, where it can be read.
pub proof fn users_are_told_as_stored(stored: Option<JsonView>, readable: bool)
    ensures
        told_user(stored, readable) is Ok <==> stored is None || readable,
        told_user(stored, readable) matches Ok(user) ==> user == stored,
        told_user(stored, readable) matches Err(e) ==> e.status == Status::Internal,
{
}

} // verus!
