//! Agents: what is accepted of one, who sees what of it, which tools it may
//! use in a session, and when a change reaches its runs.

use crate::error::{error_of, plain, refused, ApiError, ErrorView, Status};
use crate::identity::{administers, is_admin_role, Role};
use crate::ids::Id;
use crate::json::{Json, JsonView};
use crate::mcp::{
    redact_mcp_secrets, redacted, servers_validity, validate_mcp_servers,
};
use crate::model_settings::{
    default_settings, opt_selection, ModelSelection, ModelSettings, SettingsOverride,
};
use crate::oauth::ids_are_unique;
use crate::order::contains;
use crate::text::{
    alphanumeric, any_control, blank, byte_count, byte_len, char_count, chars_of, has_control,
    is_alphanumeric, is_blank, lowercase, lowered, opt_view, same, same_ignoring_case, trim,
    trimmed, views,
};
use crate::tools::{normalize_agent_tool_allowlist, tool_allowlist};
use vstd::prelude::*;

verus! {

// ---------------------------------------------------------------------------
// Visibility
// ---------------------------------------------------------------------------

/// Who may use an agent besides its owner.
#[derive(Clone, Copy, Debug, PartialEq, Eq, Structural)]
pub enum Visibility {
    Private,
    PublicTo,
    Public,
}

/// The visibility that a name stands for.
pub open spec fn visibility_named(name: Seq<char>) -> Option<Visibility> {
    if name == "private"@ {
        Some(Visibility::Private)
    } else if name == "public_to"@ {
        Some(Visibility::PublicTo)
    } else if name == "public"@ {
        Some(Visibility::Public)
    } else {
        None
    }
}

/// The name of a visibility.
pub fn visibility_name(visibility: Visibility) -> (r: &'static str)
    ensures
        visibility_named(r@) == Some(visibility),
{
    proof {
        reveal_strlit("private");
        reveal_strlit("public_to");
        reveal_strlit("public");
        assert("private"@.len() == 7 && "public_to"@.len() == 9 && "public"@.len() == 6);
    }
    match visibility {
        Visibility::Private => "private",
        Visibility::PublicTo => "public_to",
        Visibility::Public => "public",
    }
}

/// The visibility that a request names.
pub open spec fn normalized_visibility(value: Seq<char>) -> Result<Visibility, ErrorView> {
    match visibility_named(trimmed(value)) {
        Some(v) => Ok(v),
        None => refused(Status::BadRequest, "unsupported visibility"@),
    }
}

/// The visibility that a request names.
pub fn normalize_visibility(visibility: &str) -> (r: Result<Visibility, ApiError>)
    ensures
        plain(r) == normalized_visibility(visibility@),
{
    let name = trim(visibility);
    if same(name.as_str(), "private") {
        Ok(Visibility::Private)
    } else if same(name.as_str(), "public_to") {
        Ok(Visibility::PublicTo)
    } else if same(name.as_str(), "public") {
        Ok(Visibility::Public)
    } else {
        Err(ApiError::bad_request("unsupported visibility"))
    }
}

/// Only administrators make agents public.
pub open spec fn visibility_right(visibility: Visibility, role: Role) -> Result<(), ErrorView> {
    if visibility == Visibility::Public && !administers(role) {
        refused(Status::Forbidden, "administrator permission is required for public agents"@)
    } else {
        Ok(())
    }
}

/// Refuses to let anybody but administrators make agents public.
pub fn validate_public_visibility_role(visibility: Visibility, role: Role) -> (r: Result<
    (),
    ApiError,
>)
    ensures
        plain(r) == visibility_right(visibility, role),
{
    if visibility == Visibility::Public && !is_admin_role(role) {
        return Err(ApiError::forbidden("administrator permission is required for public agents"));
    }
    Ok(())
}

/// The users that an agent is shared with: named where it is shared and only
/// there, each once, and not its owner.
pub open spec fn audience_validity(visibility: Visibility, public_to: Seq<Id>, owner_id: Id) -> Result<
    (),
    ErrorView,
> {
    if visibility != Visibility::PublicTo && public_to.len() > 0 {
        refused(Status::BadRequest, "public_to users require public_to visibility"@)
    } else if visibility == Visibility::PublicTo && public_to.len() == 0 {
        refused(Status::BadRequest, "public_to visibility requires at least one user"@)
    } else if !public_to.no_duplicates() || public_to.contains(owner_id) {
        refused(Status::BadRequest, "public_to users must be unique and exclude the owner"@)
    } else {
        Ok(())
    }
}

/// Tells whether a list holds an identifier.
pub fn holds_id(ids: &Vec<Id>, id: Id) -> (r: bool)
    ensures
        r == ids@.contains(id),
{
    let mut i: usize = 0;
    while i < ids.len()
        invariant
            i <= ids@.len(),
            forall|k: int| 0 <= k < i ==> ids@[k] != id,
        decreases ids@.len() - i,
    {
        if ids[i] == id {
            assert(ids@[i as int] == id);
            return true;
        }
        i = i + 1;
    }
    false
}

/// Accepts the users that an agent is shared with, before they are looked up.
pub fn validate_public_to(visibility: Visibility, public_to: &Vec<Id>, owner_id: Id) -> (r: Result<
    (),
    ApiError,
>)
    ensures
        plain(r) == audience_validity(visibility, public_to@, owner_id),
{
    if visibility != Visibility::PublicTo && public_to.len() > 0 {
        return Err(ApiError::bad_request("public_to users require public_to visibility"));
    }
    if visibility == Visibility::PublicTo && public_to.len() == 0 {
        return Err(ApiError::bad_request("public_to visibility requires at least one user"));
    }
    if !ids_are_unique(public_to) || holds_id(public_to, owner_id) {
        return Err(ApiError::bad_request("public_to users must be unique and exclude the owner"));
    }
    Ok(())
}

/// All the users that an agent is shared with were found.
pub open spec fn audience_found(named: nat, found: i64) -> Result<(), ErrorView> {
    if named == found {
        Ok(())
    } else {
        refused(Status::BadRequest, "public_to user does not exist"@)
    }
}

/// Checks how many of the users that an agent is shared with were found.
pub fn check_audience_found(named: usize, found: i64) -> (r: Result<(), ApiError>)
    ensures
        plain(r) == audience_found(named as nat, found),
{
    if found < 0 || found as u64 != named as u64 {
        return Err(ApiError::bad_request("public_to user does not exist"));
    }
    Ok(())
}

// ---------------------------------------------------------------------------
// What is accepted of an agent
// ---------------------------------------------------------------------------

/// The policy on models: it goes through the hub, and a base URL is a text.
pub open spec fn model_policy_validity(policy: JsonView) -> Result<(), ErrorView> {
    let provider = policy.text_field("provider"@);
    let base = policy.field("base_url"@);
    if !(policy is Object) {
        refused(Status::BadRequest, "model policy must be a JSON object"@)
    } else if provider is None {
        refused(Status::BadRequest, "model provider is required"@)
    } else if provider->0 != "hub-proxy"@ {
        refused(Status::BadRequest, "unsupported model provider"@)
    } else if base is Some && (base->0.text() is None || base->0.text()->0.len() == 0) {
        refused(Status::BadRequest, "model base_url must be a string"@)
    } else {
        Ok(())
    }
}

/// Accepts the policy on models.
pub fn validate_model_policy(policy: &Json) -> (r: Result<(), ApiError>)
    ensures
        plain(r) == model_policy_validity(policy@),
{
    if !policy.is_object() {
        return Err(ApiError::bad_request("model policy must be a JSON object"));
    }
    match policy.text_field("provider") {
        Some(provider) => {
            if !same(provider, "hub-proxy") {
                return Err(ApiError::bad_request("unsupported model provider"));
            }
        },
        None => {
            return Err(ApiError::bad_request("model provider is required"));
        },
    }
    match policy.get("base_url") {
        Some(base) => {
            let good = match base.as_str() {
                Some(text) => !text.is_empty(),
                None => false,
            };
            if !good {
                return Err(ApiError::bad_request("model base_url must be a string"));
            }
        },
        None => {},
    }
    Ok(())
}

/// The policy on the sandbox: a known mode, and network access said.
pub open spec fn sandbox_policy_validity(policy: JsonView) -> Result<(), ErrorView> {
    let mode = policy.text_field("mode"@);
    let network = policy.field("network_access"@);
    if !(policy is Object) {
        refused(Status::BadRequest, "sandbox policy must be a JSON object"@)
    } else if mode is None {
        refused(Status::BadRequest, "sandbox mode is required"@)
    } else if mode->0 != "workspace-write"@ && mode->0 != "read-only"@ {
        refused(Status::BadRequest, "unsupported sandbox mode"@)
    } else if network is None || !(network->0 is Bool) {
        refused(Status::BadRequest, "sandbox network_access must be a boolean"@)
    } else {
        Ok(())
    }
}

/// Accepts the policy on the sandbox.
pub fn validate_sandbox_policy(policy: &Json) -> (r: Result<(), ApiError>)
    ensures
        plain(r) == sandbox_policy_validity(policy@),
{
    if !policy.is_object() {
        return Err(ApiError::bad_request("sandbox policy must be a JSON object"));
    }
    match policy.text_field("mode") {
        Some(mode) => {
            if !same(mode, "workspace-write") && !same(mode, "read-only") {
                return Err(ApiError::bad_request("unsupported sandbox mode"));
            }
        },
        None => {
            return Err(ApiError::bad_request("sandbox mode is required"));
        },
    }
    let said = match policy.get("network_access") {
        Some(network) => match network {
            Json::Bool(_) => true,
            _ => false,
        },
        None => false,
    };
    if !said {
        return Err(ApiError::bad_request("sandbox network_access must be a boolean"));
    }
    Ok(())
}

/// What a request says of an agent.
#[derive(Debug)]
pub struct AgentPayload {
    pub name: String,
    pub tool_allowlist: Vec<String>,
    pub model_policy: Json,
    pub sandbox_policy: Json,
    pub mcp_allowlist: Json,
}

/// Whether what a request says of an agent is accepted. `known` lists the
/// hub's tools, and `marker` stands for a hidden secret.
pub open spec fn payload_validity(
    req: AgentPayload,
    known: Seq<Seq<char>>,
    marker: Seq<char>,
) -> Result<(), ErrorView> {
    if blank(req.name@) {
        refused(Status::BadRequest, "agent name is required"@)
    } else {
        match tool_allowlist(views(req.tool_allowlist@), known) {
            Err(e) => Err(e),
            Ok(_) => match model_policy_validity(req.model_policy@) {
                Err(e) => Err(e),
                Ok(_) => match sandbox_policy_validity(req.sandbox_policy@) {
                    Err(e) => Err(e),
                    Ok(_) => servers_validity(req.mcp_allowlist@, marker),
                },
            },
        }
    }
}

/// Accepts what a request says of an agent, or says what is wrong with it.
pub fn validate_agent_payload(req: &AgentPayload, known: &Vec<String>, marker: &str) -> (r: Result<
    (),
    ApiError,
>)
    ensures
        plain(r) == payload_validity(*req, views(known@), marker@),
{
    if is_blank(req.name.as_str()) {
        return Err(ApiError::bad_request("agent name is required"));
    }
    match normalize_agent_tool_allowlist(&req.tool_allowlist, known) {
        Ok(_) => {},
        Err(e) => {
            return Err(e);
        },
    }
    match validate_model_policy(&req.model_policy) {
        Ok(_) => {},
        Err(e) => {
            return Err(e);
        },
    }
    match validate_sandbox_policy(&req.sandbox_policy) {
        Ok(_) => {},
        Err(e) => {
            return Err(e);
        },
    }
    validate_mcp_servers(&req.mcp_allowlist, marker)
}

// ---------------------------------------------------------------------------
// Subagents
// ---------------------------------------------------------------------------

/// A helper of an agent.
#[derive(Debug)]
pub struct Subagent {
    pub name: String,
    pub description: String,
    pub developer_instructions: String,
    pub model_selection: Option<ModelSelection>,
    pub overrides: SettingsOverride,
    pub enabled: bool,
    pub disabled_reason: Option<String>,
}

/// A character of a subagent's name.
pub open spec fn subagent_char(c: char) -> bool {
    is_alphanumeric(c) || c == '-' || c == '_'
}

/// A name of a subagent: 1 to 64 letters, digits, hyphens and underscores.
pub open spec fn valid_subagent_name(name: Seq<char>) -> bool {
    &&& name.len() > 0
    &&& byte_count(name) <= 64
    &&& forall|i: int| 0 <= i < name.len() ==> subagent_char(#[trigger] name[i])
}

/// The form in which names of subagents are compared.
pub open spec fn subagent_key(s: Subagent) -> Seq<char> {
    lowered(trimmed(s.name@))
}

/// A subagent before the `n`th has this key.
pub open spec fn key_taken(v: Seq<Subagent>, n: int, key: Seq<char>) -> bool {
    exists|k: int| 0 <= k < n && subagent_key(#[trigger] v[k]) == key
}

/// The reasons for which the hub itself disables a subagent.
pub open spec fn lost_its_model(reason: Option<Seq<char>>) -> bool {
    reason == Some("model_connection_deleted"@) || reason == Some("model_selection_removed"@)
}

/// What is wrong with the subagent at `i`, if anything.
pub open spec fn subagent_error(v: Seq<Subagent>, i: int) -> Option<Seq<char>> {
    let s = v[i];
    let name = trimmed(s.name@);
    let description = trimmed(s.description@);
    if !valid_subagent_name(name) {
        Some("Subagent name must use 1 to 64 letters, digits, hyphens, or underscores"@)
    } else if key_taken(v, i, subagent_key(s)) {
        Some("Subagent names must be unique"@)
    } else if lowered(name) == lowered("main"@) {
        Some("Subagent name 'main' is reserved"@)
    } else if !(1 <= description.len() <= 512) || has_control(description) {
        Some("Subagent description must be 1 to 512 characters"@)
    } else if blank(s.developer_instructions@) || byte_count(s.developer_instructions@) > 100_000 {
        Some("Subagent developer instructions are required and must not exceed 100000 bytes"@)
    } else if s.enabled {
        if s.disabled_reason is Some {
            Some("enabled Subagents cannot have a disabled reason"@)
        } else {
            None
        }
    } else if s.model_selection is Some || !lost_its_model(opt_view(s.disabled_reason)) {
        Some("disabled Subagents must retain the deleted-model reason without an override"@)
    } else {
        None
    }
}

/// The first thing that is wrong with the subagents from `from` on.
pub open spec fn subagents_error(v: Seq<Subagent>, from: int) -> Option<Seq<char>>
    decreases v.len() - from,
{
    if from >= v.len() {
        None
    } else if subagent_error(v, from) is Some {
        subagent_error(v, from)
    } else {
        subagents_error(v, from + 1)
    }
}

/// The subagents of an agent: at most 32, each in order.
pub open spec fn subagents_validity(v: Seq<Subagent>) -> Result<(), ErrorView> {
    if v.len() > 32 {
        refused(Status::BadRequest, "an Agent supports at most 32 Subagents"@)
    } else {
        match subagents_error(v, 0) {
            Some(message) => refused(Status::BadRequest, message),
            None => Ok(()),
        }
    }
}

fn is_subagent_name(name: &str) -> (r: bool)
    ensures
        r == valid_subagent_name(name@),
{
    let chars = chars_of(name);
    if chars.len() == 0 || byte_len(name) > 64 {
        return false;
    }
    let mut i: usize = 0;
    while i < chars.len()
        invariant
            i <= chars@.len(),
            chars@ == name@,
            forall|k: int| 0 <= k < i ==> subagent_char(#[trigger] chars@[k]),
        decreases chars@.len() - i,
    {
        let c = chars[i];
        if !(alphanumeric(c) || c == '-' || c == '_') {
            assert(!subagent_char(chars@[i as int]));
            return false;
        }
        i = i + 1;
    }
    true
}

fn is_key_taken(v: &Vec<Subagent>, n: usize, key: &str) -> (r: bool)
    requires
        n <= v@.len(),
    ensures
        r == key_taken(v@, n as int, key@),
{
    let mut k: usize = 0;
    while k < n
        invariant
            k <= n <= v@.len(),
            forall|j: int| 0 <= j < k ==> subagent_key(#[trigger] v@[j]) != key@,
        decreases n - k,
    {
        let name = trim(v[k].name.as_str());
        let other = lowercase(name.as_str());
        if same(other.as_str(), key) {
            assert(subagent_key(v@[k as int]) == key@);
            return true;
        }
        k = k + 1;
    }
    false
}

fn has_lost_its_model(reason: &Option<String>) -> (r: bool)
    ensures
        r == lost_its_model(opt_view(*reason)),
{
    match reason {
        Some(text) => same(text.as_str(), "model_connection_deleted") || same(
            text.as_str(),
            "model_selection_removed",
        ),
        None => false,
    }
}

fn check_subagent(v: &Vec<Subagent>, i: usize) -> (r: Result<(), ApiError>)
    requires
        i < v@.len(),
    ensures
        match r {
            Ok(_) => subagent_error(v@, i as int) is None,
            Err(e) => subagent_error(v@, i as int) is Some && e@ == error_of(
                Status::BadRequest,
                subagent_error(v@, i as int)->0,
            ),
        },
{
    let s = &v[i];
    let name = trim(s.name.as_str());
    if !is_subagent_name(name.as_str()) {
        return Err(
            ApiError::bad_request(
                "Subagent name must use 1 to 64 letters, digits, hyphens, or underscores",
            ),
        );
    }
    let key = lowercase(name.as_str());
    if is_key_taken(v, i, key.as_str()) {
        return Err(ApiError::bad_request("Subagent names must be unique"));
    }
    if same_ignoring_case(name.as_str(), "main") {
        return Err(ApiError::bad_request("Subagent name 'main' is reserved"));
    }
    let description = trim(s.description.as_str());
    let length: usize = char_count(description.as_str());
    if length == 0 || length > 512 || any_control(description.as_str()) {
        return Err(ApiError::bad_request("Subagent description must be 1 to 512 characters"));
    }
    if is_blank(s.developer_instructions.as_str()) || byte_len(s.developer_instructions.as_str())
        > 100_000 {
        return Err(
            ApiError::bad_request(
                "Subagent developer instructions are required and must not exceed 100000 bytes",
            ),
        );
    }
    if s.enabled {
        if s.disabled_reason.is_some() {
            return Err(ApiError::bad_request("enabled Subagents cannot have a disabled reason"));
        }
    } else if s.model_selection.is_some() || !has_lost_its_model(&s.disabled_reason) {
        return Err(
            ApiError::bad_request(
                "disabled Subagents must retain the deleted-model reason without an override",
            ),
        );
    }
    Ok(())
}

/// Accepts the subagents of an agent, or says what is wrong with them.
pub fn validate_subagent_definitions(definitions: &Vec<Subagent>) -> (r: Result<(), ApiError>)
    ensures
        plain(r) == subagents_validity(definitions@),
{
    if definitions.len() > 32 {
        return Err(ApiError::bad_request("an Agent supports at most 32 Subagents"));
    }
    let mut i: usize = 0;
    while i < definitions.len()
        invariant
            i <= definitions@.len() <= 32,
            subagents_error(definitions@, 0) == subagents_error(definitions@, i as int),
        decreases definitions@.len() - i,
    {
        match check_subagent(definitions, i) {
            Ok(_) => {},
            Err(e) => {
                return Err(e);
            },
        }
        i = i + 1;
    }
    Ok(())
}

/// Accepted subagents can be told apart whatever the case of their names, and
/// none is called like the agent itself.
pub proof fn accepted_subagents_are_distinct(v: Seq<Subagent>, i: int, j: int)
    requires
        subagents_validity(v) is Ok,
        0 <= i < v.len(),
        0 <= j < v.len(),
    ensures
        i != j ==> subagent_key(v[i]) != subagent_key(v[j]),
        subagent_key(v[i]) != lowered("main"@),
{
    lemma_no_subagent_error(v, 0, i);
    lemma_no_subagent_error(v, 0, j);
}

proof fn lemma_no_subagent_error(v: Seq<Subagent>, from: int, i: int)
    requires
        subagents_error(v, from) is None,
        0 <= from <= i < v.len(),
    ensures
        subagent_error(v, i) is None,
    decreases v.len() - from,
{
    if from < i {
        lemma_no_subagent_error(v, from + 1, i);
    }
}

/// The identifier of a stored subagent with this key, from `from` on.
pub open spec fn stored_subagent(stored: Seq<(String, Id)>, key: Seq<char>, from: int) -> Option<Id>
    decreases stored.len() - from,
{
    if from >= stored.len() {
        None
    } else if stored[from].0@ == key {
        Some(stored[from].1)
    } else {
        stored_subagent(stored, key, from + 1)
    }
}

/// The identifier that a subagent keeps when the subagents of an agent are
/// replaced: that of the stored one with the same name, whatever its case.
/// The stored names are in the form in which names are compared, each once.
pub fn retained_subagent_id(stored: &Vec<(String, Id)>, name: &str) -> (r: Option<Id>)
    ensures
        r == stored_subagent(stored@, lowered(trimmed(name@)), 0),
{
    let t = trim(name);
    let key = lowercase(t.as_str());
    let mut i: usize = 0;
    while i < stored.len()
        invariant
            i <= stored@.len(),
            key@ == lowered(trimmed(name@)),
            stored_subagent(stored@, key@, 0) == stored_subagent(stored@, key@, i as int),
        decreases stored@.len() - i,
    {
        if same(stored[i].0.as_str(), key.as_str()) {
            return Some(stored[i].1);
        }
        i = i + 1;
    }
    None
}

// ---------------------------------------------------------------------------
// Who sees what
// ---------------------------------------------------------------------------

/// What somebody may do with an agent.
#[derive(Clone, Copy, Debug, PartialEq, Eq, Structural)]
pub struct AgentAccess {
    pub can_manage: bool,
    pub can_administer: bool,
    pub can_invoke: bool,
}

/// The owner and administrators manage an agent; the owner and those that it
/// is shared with use it.
pub open spec fn access_of(
    owner_id: Id,
    visibility: Visibility,
    public_to: Seq<Id>,
    user_id: Id,
    role: Role,
) -> AgentAccess {
    let manages = owner_id == user_id || administers(role);
    AgentAccess {
        can_manage: manages,
        can_administer: manages,
        can_invoke: owner_id == user_id || visibility == Visibility::Public || (visibility
            == Visibility::PublicTo && public_to.contains(user_id)),
    }
}

/// What a user may do with an agent.
pub fn agent_access(
    owner_id: Id,
    visibility: Visibility,
    public_to: &Vec<Id>,
    user_id: Id,
    role: Role,
) -> (r: AgentAccess)
    ensures
        r == access_of(owner_id, visibility, public_to@, user_id, role),
{
    let manages = owner_id == user_id || is_admin_role(role);
    AgentAccess {
        can_manage: manages,
        can_administer: manages,
        can_invoke: owner_id == user_id || visibility == Visibility::Public || (visibility
            == Visibility::PublicTo && holds_id(public_to, user_id)),
    }
}

/// An agent as it is shown.
#[derive(Debug)]
pub struct Agent {
    pub id: Id,
    pub owner_id: Id,
    pub name: String,
    pub instructions: String,
    pub visibility: Visibility,
    pub public_to: Vec<Id>,
    pub runtime_id: Option<Id>,
    pub model_selection: Option<ModelSelection>,
    pub model_settings: ModelSettings,
    pub subagents: Vec<Subagent>,
    pub model_policy: Json,
    pub sandbox_policy: Json,
    pub managed_skill_ids: Vec<Id>,
    pub mcp_allowlist: Json,
    pub tool_allowlist: Vec<String>,
    pub is_owner: bool,
    pub access: AgentAccess,
}

/// An empty object.
pub open spec fn empty_object() -> JsonView {
    JsonView::Object(seq![])
}

/// An empty list.
pub open spec fn empty_list() -> JsonView {
    JsonView::List(seq![])
}

/// `shown` is what a user sees of `agent`: everybody sees what they may do with
/// it; its configuration is seen only by the owner and administrators, and its
/// secrets by nobody.
pub open spec fn shown_to(
    shown: Agent,
    agent: Agent,
    user_id: Id,
    role: Role,
    marker: Seq<char>,
) -> bool {
    let configures = agent.owner_id == user_id || administers(role);
    &&& shown.id == agent.id
    &&& shown.owner_id == agent.owner_id
    &&& shown.name == agent.name
    &&& shown.instructions == agent.instructions
    &&& shown.visibility == agent.visibility
    &&& shown.tool_allowlist == agent.tool_allowlist
    &&& shown.is_owner == (agent.owner_id == user_id)
    &&& shown.access == access_of(
        agent.owner_id,
        agent.visibility,
        agent.public_to@,
        user_id,
        role,
    )
    &&& if configures {
        &&& shown.public_to == agent.public_to
        &&& shown.runtime_id == agent.runtime_id
        &&& shown.model_selection == agent.model_selection
        &&& shown.model_settings == agent.model_settings
        &&& shown.subagents == agent.subagents
        &&& shown.model_policy == agent.model_policy
        &&& shown.sandbox_policy == agent.sandbox_policy
        &&& shown.managed_skill_ids == agent.managed_skill_ids
        &&& shown.mcp_allowlist@ == redacted(agent.mcp_allowlist@, marker)
    } else {
        &&& shown.public_to@.len() == 0
        &&& shown.runtime_id is None
        &&& shown.model_selection is None
        &&& shown.model_settings@ == default_settings()
        &&& shown.subagents@.len() == 0
        &&& shown.model_policy@ == empty_object()
        &&& shown.sandbox_policy@ == empty_object()
        &&& shown.managed_skill_ids@.len() == 0
        &&& shown.mcp_allowlist@ == empty_list()
    }
}

fn new_object() -> (r: Json)
    ensures
        r@ == empty_object(),
{
    let r = Json::Object(Vec::new());
    assert(r@->Object_0 =~= seq![]);
    r
}

fn new_list() -> (r: Json)
    ensures
        r@ == empty_list(),
{
    let r = Json::List(Vec::new());
    assert(r@->List_0 =~= seq![]);
    r
}

/// What a user sees of an agent.
pub fn apply_agent_access(agent: Agent, user_id: Id, role: Role, marker: &str) -> (r: Agent)
    ensures
        shown_to(r, agent, user_id, role, marker@),
{
    let access = agent_access(
        agent.owner_id,
        agent.visibility,
        &agent.public_to,
        user_id,
        role,
    );
    let is_owner = agent.owner_id == user_id;
    if !is_owner && !is_admin_role(role) {
        return Agent {
            id: agent.id,
            owner_id: agent.owner_id,
            name: agent.name,
            instructions: agent.instructions,
            visibility: agent.visibility,
            public_to: Vec::new(),
            runtime_id: None,
            model_selection: None,
            model_settings: ModelSettings::default(),
            subagents: Vec::new(),
            model_policy: new_object(),
            sandbox_policy: new_object(),
            managed_skill_ids: Vec::new(),
            mcp_allowlist: new_list(),
            tool_allowlist: agent.tool_allowlist,
            is_owner,
            access,
        };
    }
    let mcp_allowlist = redact_mcp_secrets(&agent.mcp_allowlist, marker);
    Agent {
        id: agent.id,
        owner_id: agent.owner_id,
        name: agent.name,
        instructions: agent.instructions,
        visibility: agent.visibility,
        public_to: agent.public_to,
        runtime_id: agent.runtime_id,
        model_selection: agent.model_selection,
        model_settings: agent.model_settings,
        subagents: agent.subagents,
        model_policy: agent.model_policy,
        sandbox_policy: agent.sandbox_policy,
        managed_skill_ids: agent.managed_skill_ids,
        mcp_allowlist,
        tool_allowlist: agent.tool_allowlist,
        is_owner,
        access,
    }
}

/// Somebody who neither owns an agent nor administers the hub sees the same of
/// it, however it is configured.
pub proof fn configuration_is_private(
    a: Agent,
    b: Agent,
    shown_a: Agent,
    shown_b: Agent,
    user_id: Id,
    role: Role,
    marker: Seq<char>,
)
    requires
        a.owner_id != user_id,
        !administers(role),
        shown_to(shown_a, a, user_id, role, marker),
        shown_to(shown_b, b, user_id, role, marker),
    ensures
        shown_a.public_to@ == shown_b.public_to@ || b.owner_id == user_id,
        b.owner_id != user_id ==> {
            &&& shown_a.runtime_id == shown_b.runtime_id
            &&& opt_selection(shown_a.model_selection) == opt_selection(shown_b.model_selection)
            &&& shown_a.model_settings@ == shown_b.model_settings@
            &&& shown_a.subagents@ == shown_b.subagents@
            &&& shown_a.model_policy@ == shown_b.model_policy@
            &&& shown_a.sandbox_policy@ == shown_b.sandbox_policy@
            &&& shown_a.managed_skill_ids@ == shown_b.managed_skill_ids@
            &&& shown_a.mcp_allowlist@ == shown_b.mcp_allowlist@
        },
        !shown_a.access.can_manage,
        !shown_a.access.can_administer,
{
    assert(shown_a.public_to@ =~= seq![]);
    assert(shown_a.subagents@ =~= seq![]);
    assert(shown_a.managed_skill_ids@ =~= seq![]);
    if b.owner_id != user_id {
        assert(shown_b.public_to@ =~= seq![]);
        assert(shown_b.subagents@ =~= seq![]);
        assert(shown_b.managed_skill_ids@ =~= seq![]);
    }
}

/// An agent as a widget shows it: its name and its instructions, and nothing
/// else of its configuration.
#[derive(Debug)]
pub struct WidgetAgent {
    pub id: Id,
    pub name: String,
    pub instructions: String,
}

/// What a widget shows of an agent.
pub fn widget_agent_from_agent(agent: Agent) -> (r: WidgetAgent)
    ensures
        r.id == agent.id,
        r.name == agent.name,
        r.instructions == agent.instructions,
{
    WidgetAgent { id: agent.id, name: agent.name, instructions: agent.instructions }
}

/// The personal model connections of an agent's owner are offered to the owner
/// and to super administrators. An ordinary administrator who manages somebody
/// else's agent is only offered global ones.
pub fn offers_personal_connections(is_owner: bool, role: Role) -> (r: bool)
    ensures
        r == (is_owner || role == Role::SuperAdmin),
        is_owner ==> r,
        !is_owner ==> (r <==> role == Role::SuperAdmin),
{
    is_owner || role == Role::SuperAdmin
}

// ---------------------------------------------------------------------------
// Tools in a session
// ---------------------------------------------------------------------------

/// What a session adds to the policy on tools.
#[derive(Debug)]
pub struct SessionToolPolicy {
    pub public_widget: bool,
    pub app_tool_allowlist: Option<Vec<String>>,
}

/// The tools of a list that another holds.
pub open spec fn kept(tools: Seq<Seq<char>>, allowed: Seq<Seq<char>>) -> Seq<Seq<char>> {
    tools.filter(|t: Seq<char>| allowed.contains(t))
}

/// The tools that are left in a session: those of the agent that the
/// application allows, and in a public widget only the read-only ones.
pub open spec fn session_tools(
    agent_tools: Seq<Seq<char>>,
    app_tools: Option<Seq<Seq<char>>>,
    public_widget: bool,
    public_tools: Seq<Seq<char>>,
) -> Seq<Seq<char>> {
    let allowed = match app_tools {
        Some(tools) => kept(agent_tools, tools),
        None => agent_tools,
    };
    if public_widget {
        kept(allowed, public_tools)
    } else {
        allowed
    }
}

/// The sandbox of a public widget.
pub open spec fn read_only_sandbox() -> JsonView {
    JsonView::Object(
        seq![
            ("mode"@, JsonView::Text("read-only"@)),
            ("network_access"@, JsonView::Bool(false)),
        ],
    )
}

/// The tools that are left in a session, or why it cannot run.
pub open spec fn session_policy(
    tools: Seq<Seq<char>>,
    known: Seq<Seq<char>>,
    app_tools: Option<Seq<Seq<char>>>,
    public_widget: bool,
    public_tools: Seq<Seq<char>>,
) -> Result<Seq<Seq<char>>, ErrorView> {
    match tool_allowlist(tools, known) {
        Err(e) => Err(e),
        Ok(agent_tools) => {
            let left = session_tools(agent_tools, app_tools, public_widget, public_tools);
            if left.len() > 0 {
                Ok(left)
            } else if public_widget {
                refused(
                    Status::Conflict,
                    "public Widget Agent must enable at least one read-only file tool"@,
                )
            } else {
                refused(Status::Conflict, "effective Agent tool policy is empty"@)
            }
        },
    }
}

fn keep(tools: Vec<String>, allowed: &Vec<String>) -> (r: Vec<String>)
    ensures
        views(r@) == kept(views(tools@), views(allowed@)),
{
    let ghost all = views(tools@);
    let ghost p = |t: Seq<char>| views(allowed@).contains(t);
    let mut out: Vec<String> = Vec::new();
    let mut i: usize = 0;
    assert(views(out@) =~= all.take(0).filter(p)) by {
        reveal(Seq::filter);
    }
    while i < tools.len()
        invariant
            i <= tools@.len(),
            all == views(tools@),
            p == |t: Seq<char>| views(allowed@).contains(t),
            views(out@) == all.take(i as int).filter(p),
        decreases tools@.len() - i,
    {
        assert(all[i as int] == tools@[i as int]@);
        proof {
            reveal(Seq::filter);
            assert(all.take(i + 1).drop_last() =~= all.take(i as int));
        }
        if contains(allowed, tools[i].as_str()) {
            let ghost before = views(out@);
            out.push(tools[i].clone());
            assert(views(out@) =~= before.push(all[i as int]));
        }
        i = i + 1;
    }
    assert(all.take(i as int) =~= all);
    out
}

fn sandbox_for_visitors() -> (r: Json)
    ensures
        r@ == read_only_sandbox(),
{
    let mode = Json::Text("read-only".to_owned());
    let network = Json::Bool(false);
    assert(mode@ == JsonView::Text("read-only"@));
    assert(network@ == JsonView::Bool(false));
    let fields = vec![("mode".to_owned(), mode), ("network_access".to_owned(), network)];
    let r = Json::Object(fields);
    assert(r@->Object_0 =~= read_only_sandbox()->Object_0);
    r
}

/// The listed texts, if any are.
pub open spec fn opt_list(v: Option<Vec<String>>) -> Option<Seq<Seq<char>>> {
    match v {
        Some(list) => Some(views(list@)),
        None => None,
    }
}

/// Narrows the tools of an agent to those that a session leaves it, and the
/// sandbox and the servers to what a public widget may have. `known` lists the
/// hub's tools and `public_tools` the read-only ones.
pub fn apply_session_tool_policy(
    tools: &mut Vec<String>,
    sandbox_policy: &mut Json,
    mcp_allowlist: &mut Json,
    policy: &SessionToolPolicy,
    known: &Vec<String>,
    public_tools: &Vec<String>,
) -> (r: Result<(), ApiError>)
    ensures
        match r {
            Ok(_) => {
                &&& session_policy(
                    views(old(tools)@),
                    views(known@),
                    opt_list(policy.app_tool_allowlist),
                    policy.public_widget,
                    views(public_tools@),
                ) == Ok::<Seq<Seq<char>>, ErrorView>(views(final(tools)@))
                &&& policy.public_widget ==> final(sandbox_policy)@ == read_only_sandbox()
                    && final(mcp_allowlist)@ == empty_list()
                &&& !policy.public_widget ==> final(sandbox_policy)@ == old(sandbox_policy)@
                    && final(mcp_allowlist)@ == old(mcp_allowlist)@
            },
            Err(e) => {
                &&& session_policy(
                    views(old(tools)@),
                    views(known@),
                    opt_list(policy.app_tool_allowlist),
                    policy.public_widget,
                    views(public_tools@),
                ) == Err::<Seq<Seq<char>>, ErrorView>(e@)
                &&& final(tools)@ == old(tools)@
                &&& final(sandbox_policy)@ == old(sandbox_policy)@
                &&& final(mcp_allowlist)@ == old(mcp_allowlist)@
            },
        },
{
    let agent_tools = match normalize_agent_tool_allowlist(&*tools, known) {
        Ok(v) => v,
        Err(e) => {
            return Err(e);
        },
    };
    let allowed = match &policy.app_tool_allowlist {
        Some(app_tools) => keep(agent_tools, app_tools),
        None => agent_tools,
    };
    if policy.public_widget {
        let left = keep(allowed, public_tools);
        assert(views(left@).len() == left@.len());
        if left.len() == 0 {
            return Err(
                ApiError::conflict(
                    "public Widget Agent must enable at least one read-only file tool",
                ),
            );
        }
        *sandbox_policy = sandbox_for_visitors();
        *mcp_allowlist = new_list();
        *tools = left;
        return Ok(());
    }
    assert(views(allowed@).len() == allowed@.len());
    if allowed.len() == 0 {
        return Err(ApiError::conflict("effective Agent tool policy is empty"));
    }
    *tools = allowed;
    Ok(())
}

/// A session never gives an agent a tool that it does not have, that its
/// application withholds, or, in a public widget, that is not read-only.
pub proof fn sessions_only_take_tools_away(
    tools: Seq<Seq<char>>,
    known: Seq<Seq<char>>,
    app_tools: Option<Seq<Seq<char>>>,
    public_widget: bool,
    public_tools: Seq<Seq<char>>,
    t: Seq<char>,
)
    requires
        session_policy(tools, known, app_tools, public_widget, public_tools) is Ok,
        session_policy(tools, known, app_tools, public_widget, public_tools)->Ok_0.contains(t),
    ensures
        tool_allowlist(tools, known) is Ok,
        tool_allowlist(tools, known)->Ok_0.contains(t),
        app_tools is Some ==> app_tools->0.contains(t),
        public_widget ==> public_tools.contains(t),
{
    let agent_tools = tool_allowlist(tools, known)->Ok_0;
    let allowed = match app_tools {
        Some(list) => kept(agent_tools, list),
        None => agent_tools,
    };
    if public_widget {
        lemma_kept(allowed, public_tools, t);
    }
    match app_tools {
        Some(list) => {
            lemma_kept(agent_tools, list, t);
        },
        None => {},
    }
}

proof fn lemma_kept(tools: Seq<Seq<char>>, allowed: Seq<Seq<char>>, t: Seq<char>)
    ensures
        kept(tools, allowed).contains(t) ==> tools.contains(t) && allowed.contains(t),
    decreases tools.len(),
{
    reveal(Seq::filter);
    let p = |x: Seq<char>| allowed.contains(x);
    if tools.len() > 0 {
        let before = tools.drop_last();
        lemma_kept(before, allowed, t);
        let f = tools.filter(p);
        let g = before.filter(p);
        if f.contains(t) {
            let k = choose|k: int| 0 <= k < f.len() && f[k] == t;
            if p(tools.last()) {
                assert(f == g.push(tools.last()));
                if k < g.len() {
                    assert(g[k] == t);
                }
            }
            if before.contains(t) {
                let m = choose|m: int| 0 <= m < before.len() && before[m] == t;
                assert(tools[m] == t);
            }
            assert(tools[tools.len() - 1] == tools.last());
        }
    }
}

/// There are three visibilities, each read from its own name and no other.
pub proof fn visibilities_are_read_from_their_names(value: Seq<char>, name: Seq<char>)
    ensures
        visibility_named(name) == Some(Visibility::Private) <==> name == "private"@,
        visibility_named(name) == Some(Visibility::PublicTo) <==> name == "public_to"@,
        visibility_named(name) == Some(Visibility::Public) <==> name == "public"@,
        normalized_visibility(value) is Ok <==> trimmed(value) == "private"@ || trimmed(value)
            == "public_to"@ || trimmed(value) == "public"@,
        normalized_visibility(value) matches Ok(v) ==> visibility_named(trimmed(value)) == Some(v),
        normalized_visibility(value) matches Err(e) ==> e.status == Status::BadRequest,
{
    reveal_strlit("private");
    reveal_strlit("public_to");
    reveal_strlit("public");
    assert("private"@.len() == 7 && "public_to"@.len() == 9 && "public"@.len() == 6);
}

/// Only administrators make agents public; an audience is named for just the
/// agents that have one, each user once and never the owner.
pub proof fn audiences_fit_the_visibility(
    visibility: Visibility,
    public_to: Seq<Id>,
    owner_id: Id,
    role: Role,
    named: nat,
    found: i64,
)
    ensures
        visibility_right(visibility, role) is Ok <==> visibility != Visibility::Public || role
            == Role::Admin || role == Role::SuperAdmin,
        visibility_right(visibility, role) matches Err(e) ==> e.status == Status::Forbidden,
        audience_validity(visibility, public_to, owner_id) is Ok <==> {
            &&& public_to.len() > 0 <==> visibility == Visibility::PublicTo
            &&& forall|i: int, j: int|
                0 <= i < j < public_to.len() ==> #[trigger] public_to[i] != #[trigger] public_to[j]
            &&& forall|i: int| 0 <= i < public_to.len() ==> #[trigger] public_to[i] != owner_id
        },
        audience_validity(visibility, public_to, owner_id) matches Err(e) ==> e.status
            == Status::BadRequest,
        audience_found(named, found) is Ok <==> named == found,
        audience_found(named, found) matches Err(e) ==> e.status == Status::BadRequest,
{
    if public_to.contains(owner_id) {
        let i = choose|i: int| 0 <= i < public_to.len() && public_to[i] == owner_id;
        assert(public_to[i] == owner_id);
    }
    if forall|i: int, j: int|
        0 <= i < j < public_to.len() ==> #[trigger] public_to[i] != #[trigger] public_to[j] {
        assert(public_to.no_duplicates());
    }
}

/// A model policy is an object that names the hub's own provider, with an
/// address that says something where it has one; a sandbox policy names one of
/// two modes and says whether the network is open.
pub proof fn policies_say_what_they_must(policy: JsonView)
    ensures
        model_policy_validity(policy) is Ok <==> {
            &&& policy is Object
            &&& policy.text_field("provider"@) == Some("hub-proxy"@)
            &&& policy.field("base_url"@) is Some ==> policy.field("base_url"@)->0.text() is Some
                && policy.field("base_url"@)->0.text()->0.len() > 0
        },
        model_policy_validity(policy) matches Err(e) ==> e.status == Status::BadRequest,
        sandbox_policy_validity(policy) is Ok <==> {
            &&& policy is Object
            &&& policy.text_field("mode"@) == Some("workspace-write"@) || policy.text_field(
                "mode"@,
            ) == Some("read-only"@)
            &&& policy.field("network_access"@) is Some
            &&& policy.field("network_access"@)->0 is Bool
        },
        sandbox_policy_validity(policy) matches Err(e) ==> e.status == Status::BadRequest,
{
}

/// An agent is accepted where it has a name and each of its settings is.
pub proof fn agents_are_accepted_part_by_part(
    req: AgentPayload,
    known: Seq<Seq<char>>,
    marker: Seq<char>,
)
    ensures
        payload_validity(req, known, marker) is Ok <==> {
            &&& !blank(req.name@)
            &&& tool_allowlist(views(req.tool_allowlist@), known) is Ok
            &&& model_policy_validity(req.model_policy@) is Ok
            &&& sandbox_policy_validity(req.sandbox_policy@) is Ok
            &&& servers_validity(req.mcp_allowlist@, marker) is Ok
        },
{
}

/// What a subagent must be to be accepted among the others.
pub open spec fn acceptable(s: Subagent) -> bool {
    let name = trimmed(s.name@);
    let description = trimmed(s.description@);
    &&& name.len() > 0
    &&& byte_count(name) <= 64
    &&& forall|k: int|
        0 <= k < name.len() ==> is_alphanumeric(#[trigger] name[k]) || name[k] == '-' || name[k]
            == '_'
    &&& lowered(name) != lowered("main"@)
    &&& 1 <= description.len() <= 512
    &&& !has_control(description)
    &&& !blank(s.developer_instructions@)
    &&& byte_count(s.developer_instructions@) <= 100_000
    &&& s.enabled ==> s.disabled_reason is None
    &&& !s.enabled ==> s.model_selection is None && s.disabled_reason is Some && (
    (s.disabled_reason->0)@ == "model_connection_deleted"@ || (s.disabled_reason->0)@
        == "model_selection_removed"@)
}

proof fn lemma_subagents(v: Seq<Subagent>, from: int)
    requires
        0 <= from <= v.len(),
    ensures
        subagents_error(v, from) is None <==> forall|i: int|
            from <= i < v.len() ==> #[trigger] subagent_error(v, i) is None,
    decreases v.len() - from,
{
    if from < v.len() {
        lemma_subagents(v, from + 1);
        assert(subagent_error(v, from) is None || subagent_error(v, from) is Some);
    }
}

proof fn lemma_subagent(v: Seq<Subagent>, i: int)
    ensures
        subagent_error(v, i) is None <==> acceptable(v[i]) && !key_taken(
            v,
            i,
            lowered(trimmed(v[i].name@)),
        ),
{
    let name = trimmed(v[i].name@);
    if valid_subagent_name(name) {
        assert forall|k: int| 0 <= k < name.len() implies is_alphanumeric(#[trigger] name[k])
            || name[k] == '-' || name[k] == '_' by {
            assert(subagent_char(name[k]));
        }
    }
    if acceptable(v[i]) {
        assert(valid_subagent_name(name));
    }
}

/// At most thirty-two subagents are accepted, each of them acceptable, whose
/// names differ in more than case.
pub proof fn subagents_are_accepted_one_by_one(v: Seq<Subagent>)
    ensures
        subagents_validity(v) is Ok <==> {
            &&& v.len() <= 32
            &&& forall|i: int| 0 <= i < v.len() ==> acceptable(#[trigger] v[i])
            &&& forall|i: int, j: int|
                0 <= i < j < v.len() ==> lowered(trimmed((#[trigger] v[i]).name@)) != lowered(
                    trimmed((#[trigger] v[j]).name@),
                )
        },
        subagents_validity(v) matches Err(e) ==> e.status == Status::BadRequest,
{
    lemma_subagents(v, 0);
    if subagents_error(v, 0) is None {
        assert forall|i: int| 0 <= i < v.len() implies acceptable(#[trigger] v[i]) by {
            assert(subagent_error(v, i) is None);
            lemma_subagent(v, i);
        }
        assert forall|i: int, j: int| 0 <= i < j < v.len() implies lowered(
            trimmed((#[trigger] v[i]).name@),
        ) != lowered(trimmed((#[trigger] v[j]).name@)) by {
            assert(subagent_error(v, j) is None);
            lemma_subagent(v, j);
            assert(subagent_key(v[i]) == lowered(trimmed(v[i].name@)));
        }
    }
    if (forall|i: int| 0 <= i < v.len() ==> acceptable(#[trigger] v[i])) && (forall|i: int, j: int|
        0 <= i < j < v.len() ==> lowered(trimmed((#[trigger] v[i]).name@)) != lowered(
            trimmed((#[trigger] v[j]).name@),
        )) {
        assert forall|i: int| 0 <= i < v.len() implies #[trigger] subagent_error(v, i) is None by {
            assert(acceptable(v[i]));
            lemma_subagent(v, i);
            if key_taken(v, i, lowered(trimmed(v[i].name@))) {
                let k = choose|k: int|
                    0 <= k < i && subagent_key(#[trigger] v[k]) == lowered(trimmed(v[i].name@));
                assert(v[k] == v[k]);
            }
        }
    }
}

/// A subagent keeps the identifier under which its name is stored.
pub proof fn subagents_keep_their_identifier(stored: Seq<(String, Id)>, key: Seq<char>, from: int)
    requires
        0 <= from <= stored.len(),
    ensures
        stored_subagent(stored, key, from) is None <==> forall|i: int|
            from <= i < stored.len() ==> (#[trigger] stored[i]).0@ != key,
        stored_subagent(stored, key, from) is Some ==> exists|i: int|
            from <= i < stored.len() && (#[trigger] stored[i]).0@ == key && stored_subagent(
                stored,
                key,
                from,
            ) == Some(stored[i].1),
    decreases stored.len() - from,
{
    if from < stored.len() {
        subagents_keep_their_identifier(stored, key, from + 1);
        assert(stored[from].0@ == key || stored[from].0@ != key);
    }
}

/// Owners and administrators manage an agent; it is invoked by its owner, and
/// by whom it is public to.
pub proof fn agents_are_open_to_their_audience(
    owner_id: Id,
    visibility: Visibility,
    public_to: Seq<Id>,
    user_id: Id,
    role: Role,
)
    ensures
        ({
            let access = access_of(owner_id, visibility, public_to, user_id, role);
            &&& access.can_manage <==> owner_id == user_id || role == Role::Admin || role
                == Role::SuperAdmin
            &&& access.can_administer == access.can_manage
            &&& owner_id == user_id ==> access.can_invoke
            &&& owner_id != user_id && visibility == Visibility::Private ==> !access.can_invoke
            &&& visibility == Visibility::Public ==> access.can_invoke
            &&& owner_id != user_id && visibility == Visibility::PublicTo ==> (access.can_invoke
                <==> public_to.contains(user_id))
        }),
{
}

/// Who manages an agent is shown all of it but the secrets; everyone is shown
/// what it is called and does.
pub proof fn agents_are_shown_to_their_managers(
    shown: Agent,
    agent: Agent,
    user_id: Id,
    role: Role,
    marker: Seq<char>,
)
    requires
        shown_to(shown, agent, user_id, role, marker),
    ensures
        shown.id == agent.id,
        shown.owner_id == agent.owner_id,
        shown.name == agent.name,
        shown.instructions == agent.instructions,
        shown.visibility == agent.visibility,
        shown.tool_allowlist == agent.tool_allowlist,
        shown.is_owner <==> agent.owner_id == user_id,
        shown.access.can_manage <==> agent.owner_id == user_id || role == Role::Admin || role
            == Role::SuperAdmin,
        shown.access.can_manage ==> {
            &&& shown.public_to == agent.public_to
            &&& shown.runtime_id == agent.runtime_id
            &&& shown.model_selection == agent.model_selection
            &&& shown.model_settings == agent.model_settings
            &&& shown.subagents == agent.subagents
            &&& shown.model_policy == agent.model_policy
            &&& shown.sandbox_policy == agent.sandbox_policy
            &&& shown.managed_skill_ids == agent.managed_skill_ids
            &&& shown.mcp_allowlist@ == redacted(agent.mcp_allowlist@, marker)
        },
        !shown.access.can_manage ==> shown.public_to@.len() == 0 && shown.runtime_id is None
            && shown.model_selection is None && shown.subagents@.len() == 0
            && shown.managed_skill_ids@.len() == 0 && shown.mcp_allowlist@ == JsonView::List(
            seq![],
        ) && shown.model_policy@ == JsonView::Object(seq![]) && shown.sandbox_policy@
            == JsonView::Object(seq![]),
{
}

/// A session has just the agent's tools that its application and, for
/// everyone's widget, the public list leave; it needs at least one.
pub proof fn sessions_have_the_tools_that_are_left(
    tools: Seq<Seq<char>>,
    known: Seq<Seq<char>>,
    app_tools: Option<Seq<Seq<char>>>,
    public_widget: bool,
    public_tools: Seq<Seq<char>>,
    t: Seq<char>,
)
    requires
        tool_allowlist(tools, known) is Ok,
    ensures
        ({
            let agent_tools = tool_allowlist(tools, known)->Ok_0;
            let left = session_tools(agent_tools, app_tools, public_widget, public_tools);
            &&& left.contains(t) <==> agent_tools.contains(t) && (app_tools is Some
                ==> app_tools->0.contains(t)) && (public_widget ==> public_tools.contains(t))
            &&& app_tools is None && !public_widget ==> left == agent_tools
            &&& session_policy(tools, known, app_tools, public_widget, public_tools) is Ok
                <==> left.len() > 0
            &&& session_policy(tools, known, app_tools, public_widget, public_tools) matches Ok(
                kept,
            ) ==> kept == left
            &&& session_policy(tools, known, app_tools, public_widget, public_tools) matches Err(e)
                ==> e.status == Status::Conflict
        }),
{
    broadcast use vstd::seq_lib::group_filter_ensures;

    let agent_tools = tool_allowlist(tools, known)->Ok_0;
    lemma_kept_exactly(agent_tools, app_tools.unwrap_or(seq![]), t);
    lemma_kept_exactly(agent_tools, public_tools, t);
    lemma_kept_exactly(kept(agent_tools, app_tools.unwrap_or(seq![])), public_tools, t);
}

proof fn lemma_kept_exactly(tools: Seq<Seq<char>>, allowed: Seq<Seq<char>>, t: Seq<char>)
    ensures
        kept(tools, allowed).contains(t) <==> tools.contains(t) && allowed.contains(t),
{
    broadcast use vstd::seq_lib::group_filter_ensures;

    let pred = |x: Seq<char>| allowed.contains(x);
    let left = kept(tools, allowed);
    lemma_kept(tools, allowed, t);
    if tools.contains(t) && allowed.contains(t) {
        let i = choose|i: int| 0 <= i < tools.len() && tools[i] == t;
        assert(pred(tools[i]));
        assert(left.contains(tools[i]));
    }
}

/// The sandbox of everyone's widget writes nothing and reaches no network.
pub proof fn the_public_sandbox_is_closed()
    ensures
        read_only_sandbox().text_field("mode"@) == Some("read-only"@),
        read_only_sandbox().field("network_access"@) == Some(JsonView::Bool(false)),
        sandbox_policy_validity(read_only_sandbox()) is Ok,
{
    reveal_strlit("mode");
    reveal_strlit("network_access");
    assert("mode"@.len() == 4 && "network_access"@.len() == 14);
    reveal_with_fuel(crate::json::field_from, 3);
}

} // verus!
