//! The command-line client: how it reaches a hub, what each command asks for,
//! how answers are read, and how a skill package is sent.

use crate::json::{
    copy_json, json_text, json_text_of, lemma_field_at, opt_json, parse_json, parsed_json, Json,
    JsonView,
};
use crate::jwt::some_json;
use crate::numeral::{decimal, decimal_text};
use crate::order::contains;
use crate::text::{
    blank, chars_of, is_blank, join, opt_view, range_string, same, starts_with, trim_end_char,
    views, without_trailing,
};
use vstd::prelude::*;
use vstd::utf8::encode_utf8;

verus! {

// ---------------------------------------------------------------------------
// Reaching a hub
// ---------------------------------------------------------------------------

/// Where a hub is and how to authenticate there.
#[derive(Debug)]
pub struct HubConnection {
    pub base_url: String,
    pub api_key: String,
}

/// What `HubConnection` holds.
pub struct ConnectionView {
    pub base_url: Seq<char>,
    pub api_key: Seq<char>,
}

impl View for HubConnection {
    type V = ConnectionView;

    open spec fn view(&self) -> ConnectionView {
        ConnectionView { base_url: self.base_url@, api_key: self.api_key@ }
    }
}

/// An outcome by its views: what came out, or what went wrong.
pub open spec fn outcome<T: View>(r: Result<T, String>) -> Result<T::V, Seq<char>> {
    match r {
        Ok(v) => Ok(v@),
        Err(message) => Err(message@),
    }
}

/// The connection to a hub: an HTTP(S) URL without trailing slashes, and a key
/// that is not blank.
pub open spec fn connection(base_url: Seq<char>, api_key: Seq<char>) -> Result<
    ConnectionView,
    Seq<char>,
> {
    let base = without_trailing(base_url, '/');
    if !"http://"@.is_prefix_of(base) && !"https://"@.is_prefix_of(base) {
        Err("AGENT_HUB_HUB_URL must be an absolute HTTP(S) URL"@)
    } else if blank(api_key) {
        Err("missing Agent Hub API key"@)
    } else {
        Ok(ConnectionView { base_url: base, api_key })
    }
}

impl HubConnection {
    /// The connection to a hub, or why there can be none.
    pub fn new(base_url: &str, api_key: String) -> (r: Result<HubConnection, String>)
        ensures
            outcome(r) == connection(base_url@, api_key@),
    {
        let base = trim_end_char(base_url, '/');
        if !starts_with(base.as_str(), "http://") && !starts_with(base.as_str(), "https://") {
            return Err("AGENT_HUB_HUB_URL must be an absolute HTTP(S) URL".to_owned());
        }
        if is_blank(api_key.as_str()) {
            return Err("missing Agent Hub API key".to_owned());
        }
        Ok(HubConnection { base_url: base, api_key })
    }
}

/// Where the key comes from.
#[derive(Debug)]
pub enum KeySource {
    Given(String),
    File(String),
    Missing,
}

/// A key that is given and not blank comes first, then a file that is named.
pub fn api_key_source(given: &Option<String>, file: &Option<String>) -> (r: KeySource)
    ensures
        match r {
            KeySource::Given(key) => *given == Some(key) && !blank(key@),
            KeySource::File(path) => (given is None || blank(given->0@)) && *file == Some(path)
                && !blank(path@),
            KeySource::Missing => (given is None || blank(given->0@)) && (file is None || blank(
                file->0@,
            )),
        },
{
    match given {
        Some(key) => {
            if !is_blank(key.as_str()) {
                return KeySource::Given(key.clone());
            }
        },
        None => {},
    }
    match file {
        Some(path) => {
            if !is_blank(path.as_str()) {
                return KeySource::File(path.clone());
            }
        },
        None => {},
    }
    KeySource::Missing
}

// ---------------------------------------------------------------------------
// Reading answers
// ---------------------------------------------------------------------------

/// The first `limit` characters of a text, and an ellipsis where there are
/// more.
pub open spec fn truncated(value: Seq<char>, limit: nat) -> Seq<char> {
    if value.len() > limit {
        value.take(limit as int) + "..."@
    } else {
        value
    }
}

/// The first `limit` characters of a text, and an ellipsis where there are
/// more.
pub fn truncate(value: &str, limit: usize) -> (r: String)
    ensures
        r@ == truncated(value@, limit as nat),
{
    let chars = chars_of(value);
    if chars.len() > limit {
        let mut head = range_string(&chars, 0, limit);
        assert(head@ =~= value@.take(limit as int));
        head.append("...");
        head
    } else {
        value.to_owned()
    }
}

/// A truncated text is never longer than its limit and the ellipsis, starts as
/// the text does, and a text within the limit is kept.
pub proof fn truncation_keeps_the_start(value: Seq<char>, limit: nat)
    ensures
        truncated(value, limit).len() <= limit + 3,
        value.len() <= limit ==> truncated(value, limit) == value,
        forall|i: int|
            0 <= i < value.len() && i < limit ==> #[trigger] truncated(value, limit)[i] == value[i],
{
    reveal_strlit("...");
}

/// What a refusal says: its `error`, or the start of its text. `parsed` is the
/// value that the text spells.
pub open spec fn refusal_detail(text: Seq<char>, parsed: Option<JsonView>) -> Seq<char> {
    match parsed {
        Some(value) => match value.text_field("error"@) {
            Some(error) => error,
            None => truncated(text, 500),
        },
        None => truncated(text, 500),
    }
}

/// What a refusal says, given the value that its text spells.
pub fn error_detail(text: &str, parsed: &Option<Json>) -> (r: String)
    ensures
        r@ == refusal_detail(text@, some_json(*parsed)),
{
    match parsed {
        Some(value) => match value.text_field("error") {
            Some(error) => error.to_owned(),
            None => truncate(text, 500),
        },
        None => truncate(text, 500),
    }
}

/// What an answer to a request says, given the value that its text spells.
pub open spec fn answer(
    path: Seq<char>,
    success: bool,
    status: Seq<char>,
    text: Seq<char>,
    parsed: Option<JsonView>,
) -> Result<JsonView, Seq<char>> {
    if !success {
        Err(
            "Hub request "@ + path + " failed ("@ + status + "): "@ + refusal_detail(text, parsed),
        )
    } else if blank(text) {
        Ok(JsonView::Null)
    } else {
        match parsed {
            Some(value) => Ok(value),
            None => Err("parse Hub JSON response"@),
        }
    }
}

/// What an answer to a request says, given the value that its text spells.
pub fn read_answer(path: &str, success: bool, status: &str, text: &str, parsed: Option<Json>) -> (r:
    Result<Json, String>)
    ensures
        outcome(r) == answer(path@, success, status@, text@, some_json(parsed)),
{
    if !success {
        let detail = error_detail(text, &parsed);
        let mut message = join("Hub request ", path);
        message.append(" failed (");
        message.append(status);
        message.append("): ");
        message.append(detail.as_str());
        return Err(message);
    }
    if is_blank(text) {
        return Ok(Json::Null);
    }
    match parsed {
        Some(value) => Ok(value),
        None => Err("parse Hub JSON response".to_owned()),
    }
}

/// What the answer with this status and text says.
pub fn interpret_response(path: &str, success: bool, status: &str, text: &str) -> (r: Result<
    Json,
    String,
>)
    ensures
        outcome(r) == answer(path@, success, status@, text@, parsed_json(encode_utf8(text@))),
{
    let parsed = parse_json(text.as_bytes());
    read_answer(path, success, status, text, parsed)
}

/// What the answer to an upload says, given the value that its text spells.
pub open spec fn upload_answer(
    success: bool,
    status: Seq<char>,
    text: Seq<char>,
    parsed: Option<JsonView>,
) -> Result<JsonView, Seq<char>> {
    if !success {
        Err("Skill package upload failed ("@ + status + "): "@ + refusal_detail(text, parsed))
    } else {
        match parsed {
            Some(value) => Ok(value),
            None => Err("parse Skill package response"@),
        }
    }
}

/// What the answer to an upload says, given the value that its text spells.
pub fn read_upload_answer(success: bool, status: &str, text: &str, parsed: Option<Json>) -> (r: Result<
    Json,
    String,
>)
    ensures
        outcome(r) == upload_answer(success, status@, text@, some_json(parsed)),
{
    if !success {
        let detail = error_detail(text, &parsed);
        let mut message = join("Skill package upload failed (", status);
        message.append("): ");
        message.append(detail.as_str());
        return Err(message);
    }
    match parsed {
        Some(value) => Ok(value),
        None => Err("parse Skill package response".to_owned()),
    }
}

/// What the answer to an upload with this status and text says.
pub fn interpret_upload_response(success: bool, status: &str, text: &str) -> (r: Result<Json, String>)
    ensures
        outcome(r) == upload_answer(success, status@, text@, parsed_json(encode_utf8(text@))),
{
    let parsed = parse_json(text.as_bytes());
    read_upload_answer(success, status, text, parsed)
}

// ---------------------------------------------------------------------------
// Changing an agent
// ---------------------------------------------------------------------------

/// What the command says to change of an agent.
#[derive(Debug)]
pub struct AgentChanges {
    pub name: Option<String>,
    pub instructions: Option<String>,
    pub visibility: Option<String>,
    pub add_skills: Vec<String>,
    pub remove_skills: Vec<String>,
}

/// A skill in a list is this one.
pub open spec fn names_skill(value: JsonView, skill: Seq<char>) -> bool {
    value.text() == Some(skill)
}

/// The skills of a list without one of them.
pub open spec fn without_skill(skills: Seq<JsonView>, skill: Seq<char>) -> Seq<JsonView> {
    skills.filter(|value: JsonView| !names_skill(value, skill))
}

/// The list holds the skill.
pub open spec fn holds_skill(skills: Seq<JsonView>, skill: Seq<char>) -> bool {
    exists|i: int| 0 <= i < skills.len() && names_skill(#[trigger] skills[i], skill)
}

/// The skills of a list with one of them, at the end where it is new.
pub open spec fn with_skill(skills: Seq<JsonView>, skill: Seq<char>) -> Seq<JsonView> {
    if holds_skill(skills, skill) {
        skills
    } else {
        skills.push(JsonView::Text(skill))
    }
}

/// The skills of a list without the first `n` of these.
pub open spec fn without_skills(skills: Seq<JsonView>, removed: Seq<Seq<char>>, n: int) -> Seq<JsonView>
    decreases n,
{
    if n <= 0 {
        skills
    } else {
        without_skill(without_skills(skills, removed, n - 1), removed[n - 1])
    }
}

/// The skills of a list with the first `n` of these.
pub open spec fn with_skills(skills: Seq<JsonView>, added: Seq<Seq<char>>, n: int) -> Seq<JsonView>
    decreases n,
{
    if n <= 0 {
        skills
    } else {
        with_skill(with_skills(skills, added, n - 1), added[n - 1])
    }
}

/// The skills of an agent after a command: some are removed, then some added.
pub open spec fn changed_skills(
    current: JsonView,
    removed: Seq<Seq<char>>,
    added: Seq<Seq<char>>,
) -> Seq<JsonView> {
    let skills = match current.field("managed_skill_ids"@) {
        Some(value) => match value.items() {
            Some(items) => items,
            None => seq![],
        },
        None => seq![],
    };
    with_skills(
        without_skills(skills, removed, removed.len() as int),
        added,
        added.len() as int,
    )
}

/// What the values of a vector hold.
pub open spec fn held(v: Seq<Json>) -> Seq<JsonView> {
    Seq::new(v.len(), |i: int| v[i]@)
}

fn is_skill(value: &Json, skill: &str) -> (r: bool)
    ensures
        r == names_skill(value@, skill@),
{
    match value.as_str() {
        Some(text) => same(text, skill),
        None => false,
    }
}

fn remove_skill(skills: Vec<Json>, skill: &str) -> (r: Vec<Json>)
    ensures
        held(r@) == without_skill(held(skills@), skill@),
{
    let ghost all = held(skills@);
    let ghost p = |value: JsonView| !names_skill(value, skill@);
    let mut out: Vec<Json> = Vec::new();
    let mut i: usize = 0;
    assert(held(out@) =~= all.take(0).filter(p)) by {
        reveal(Seq::filter);
    }
    while i < skills.len()
        invariant
            i <= skills@.len(),
            all == held(skills@),
            p == |value: JsonView| !names_skill(value, skill@),
            held(out@) == all.take(i as int).filter(p),
        decreases skills@.len() - i,
    {
        assert(all[i as int] == skills@[i as int]@);
        proof {
            reveal(Seq::filter);
            assert(all.take(i + 1).drop_last() =~= all.take(i as int));
        }
        if !is_skill(&skills[i], skill) {
            let ghost before = held(out@);
            out.push(copy_json(&skills[i]));
            assert(held(out@) =~= before.push(all[i as int]));
        }
        i = i + 1;
    }
    assert(all.take(i as int) =~= all);
    out
}

fn has_skill(skills: &Vec<Json>, skill: &str) -> (r: bool)
    ensures
        r == holds_skill(held(skills@), skill@),
{
    let ghost all = held(skills@);
    let mut i: usize = 0;
    while i < skills.len()
        invariant
            i <= skills@.len(),
            all == held(skills@),
            forall|k: int| 0 <= k < i ==> !names_skill(#[trigger] all[k], skill@),
        decreases skills@.len() - i,
    {
        assert(all[i as int] == skills@[i as int]@);
        if is_skill(&skills[i], skill) {
            return true;
        }
        i = i + 1;
    }
    false
}

fn list_or_empty(value: Option<&Json>) -> (r: Vec<Json>)
    ensures
        held(r@) == match opt_json(value) {
            Some(json) => match json.items() {
                Some(items) => items,
                None => seq![],
            },
            None => seq![],
        },
{
    let mut out: Vec<Json> = Vec::new();
    match value {
        Some(json) => match json {
            Json::List(items) => {
                let mut i: usize = 0;
                while i < items.len()
                    invariant
                        i <= items@.len(),
                        i == out@.len(),
                        forall|k: int| 0 <= k < i ==> (#[trigger] out@[k])@ == items@[k]@,
                    decreases items@.len() - i,
                {
                    out.push(copy_json(&items[i]));
                    i = i + 1;
                }
                assert(held(out@) =~= json@->List_0);
            },
            _ => {
                assert(held(out@) =~= seq![]);
            },
        },
        None => {
            assert(held(out@) =~= seq![]);
        },
    }
    out
}

/// The skills of an agent after a command.
pub fn update_skills(current: &Json, removed: &Vec<String>, added: &Vec<String>) -> (r: Vec<Json>)
    ensures
        held(r@) == changed_skills(current@, views(removed@), views(added@)),
{
    let mut skills = list_or_empty(current.get("managed_skill_ids"));
    let ghost start = held(skills@);
    let mut i: usize = 0;
    while i < removed.len()
        invariant
            i <= removed@.len(),
            held(skills@) == without_skills(start, views(removed@), i as int),
        decreases removed@.len() - i,
    {
        assert(views(removed@)[i as int] == removed@[i as int]@);
        skills = remove_skill(skills, removed[i].as_str());
        i = i + 1;
    }
    let ghost middle = held(skills@);
    let mut j: usize = 0;
    while j < added.len()
        invariant
            j <= added@.len(),
            held(skills@) == with_skills(middle, views(added@), j as int),
        decreases added@.len() - j,
    {
        assert(views(added@)[j as int] == added@[j as int]@);
        if !has_skill(&skills, added[j].as_str()) {
            let ghost before = held(skills@);
            let item = Json::Text(added[j].clone());
            assert(item@ == JsonView::Text(added@[j as int]@));
            skills.push(item);
            assert(held(skills@) =~= before.push(JsonView::Text(added@[j as int]@)));
        }
        j = j + 1;
    }
    skills
}

/// A field of the agent as it is, or null.
pub open spec fn current_field(current: JsonView, key: Seq<char>) -> JsonView {
    match current.field(key) {
        Some(value) => value,
        None => JsonView::Null,
    }
}

/// A field of the agent after a command.
pub open spec fn changed_field(current: JsonView, key: Seq<char>, change: Option<Seq<char>>) -> JsonView {
    match change {
        Some(text) => JsonView::Text(text),
        None => current_field(current, key),
    }
}

/// The request that changes an agent: everything as it is but for what the
/// command changes.
pub open spec fn update_body(current: JsonView, changes: AgentChanges) -> JsonView {
    JsonView::Object(
        seq![
            (
                "instructions"@,
                changed_field(current, "instructions"@, opt_view(changes.instructions)),
            ),
            (
                "managed_skill_ids"@,
                JsonView::List(
                    changed_skills(
                        current,
                        views(changes.remove_skills@),
                        views(changes.add_skills@),
                    ),
                ),
            ),
            ("mcp_allowlist"@, current_field(current, "mcp_allowlist"@)),
            ("model_selection"@, current_field(current, "model_selection"@)),
            ("model_settings"@, current_field(current, "model_settings"@)),
            ("name"@, changed_field(current, "name"@, opt_view(changes.name))),
            ("public_to"@, current_field(current, "public_to"@)),
            ("runtime_id"@, current_field(current, "runtime_id"@)),
            ("sandbox_policy"@, current_field(current, "sandbox_policy"@)),
            ("secret_declarations"@, current_field(current, "secret_declarations"@)),
            ("subagents"@, current_field(current, "subagents"@)),
            ("tool_allowlist"@, current_field(current, "tool_allowlist"@)),
            (
                "visibility"@,
                changed_field(current, "visibility"@, opt_view(changes.visibility)),
            ),
        ],
    )
}

fn keep_field(current: &Json, key: &str) -> (r: Json)
    ensures
        r@ == current_field(current@, key@),
{
    match current.get(key) {
        Some(value) => copy_json(value),
        None => Json::Null,
    }
}

fn change_field(current: &Json, key: &str, change: &Option<String>) -> (r: Json)
    ensures
        r@ == changed_field(current@, key@, opt_view(*change)),
{
    match change {
        Some(text) => Json::Text(text.clone()),
        None => keep_field(current, key),
    }
}

fn list_of(items: Vec<Json>) -> (r: Json)
    ensures
        r@ == JsonView::List(held(items@)),
{
    let r = Json::List(items);
    assert(r@->List_0 =~= held(items@));
    r
}

/// The request that changes an agent.
pub fn agent_update_body(current: &Json, changes: &AgentChanges) -> (r: Json)
    ensures
        r@ == update_body(current@, *changes),
{
    let skills = list_of(update_skills(current, &changes.remove_skills, &changes.add_skills));
    let fields = vec![
        (
            "instructions".to_owned(),
            change_field(current, "instructions", &changes.instructions),
        ),
        ("managed_skill_ids".to_owned(), skills),
        ("mcp_allowlist".to_owned(), keep_field(current, "mcp_allowlist")),
        ("model_selection".to_owned(), keep_field(current, "model_selection")),
        ("model_settings".to_owned(), keep_field(current, "model_settings")),
        ("name".to_owned(), change_field(current, "name", &changes.name)),
        ("public_to".to_owned(), keep_field(current, "public_to")),
        ("runtime_id".to_owned(), keep_field(current, "runtime_id")),
        ("sandbox_policy".to_owned(), keep_field(current, "sandbox_policy")),
        ("secret_declarations".to_owned(), keep_field(current, "secret_declarations")),
        ("subagents".to_owned(), keep_field(current, "subagents")),
        ("tool_allowlist".to_owned(), keep_field(current, "tool_allowlist")),
        ("visibility".to_owned(), change_field(current, "visibility", &changes.visibility)),
    ];
    let r = Json::Object(fields);
    assert(r@->Object_0 =~= update_body(current@, *changes)->Object_0);
    r
}

// ---------------------------------------------------------------------------
// Commands
// ---------------------------------------------------------------------------

/// What the client is told to do.
#[derive(Debug)]
pub enum Command {
    Health,
    ListAgents,
    GetAgent { id: String },
    UpdateAgent { id: String, changes: AgentChanges },
    ListSessions,
    ListRuntimes,
    ListModels,
    ListSkills,
    CreateSkill { name: String, description: String, content: String },
    DeleteSkill { id: String },
}

/// How a request is made.
#[derive(Clone, Copy, Debug, PartialEq, Eq, Structural)]
pub enum HttpMethod {
    Get,
    Post,
    Patch,
    Delete,
}

/// A request to the hub.
#[derive(Debug)]
pub struct HubRequest {
    pub method: HttpMethod,
    pub path: String,
    pub body: Option<Json>,
}

/// What a `HubRequest` holds.
pub struct RequestView {
    pub method: HttpMethod,
    pub path: Seq<char>,
    pub body: Option<JsonView>,
}

impl View for HubRequest {
    type V = RequestView;

    open spec fn view(&self) -> RequestView {
        RequestView { method: self.method, path: self.path@, body: some_json(self.body) }
    }
}

/// A request without a body.
pub open spec fn bare(method: HttpMethod, path: Seq<char>) -> RequestView {
    RequestView { method, path, body: None }
}

/// The body that creates a skill.
pub open spec fn skill_body(name: Seq<char>, description: Seq<char>, content: Seq<char>) -> JsonView {
    JsonView::Object(
        seq![
            ("content"@, JsonView::Text(content)),
            ("description"@, JsonView::Text(description)),
            ("name"@, JsonView::Text(name)),
        ],
    )
}

/// The first request of a command; a change of an agent starts with the agent
/// as it is.
pub open spec fn first_request(command: Command) -> RequestView {
    match command {
        Command::Health => bare(HttpMethod::Get, "/api/auth/me"@),
        Command::ListAgents => bare(HttpMethod::Get, "/api/agents"@),
        Command::GetAgent { id } => bare(HttpMethod::Get, "/api/agents/"@ + id@),
        Command::UpdateAgent { id, .. } => bare(HttpMethod::Get, "/api/agents/"@ + id@),
        Command::ListSessions => bare(HttpMethod::Get, "/api/sessions"@),
        Command::ListRuntimes => bare(HttpMethod::Get, "/api/runtimes"@),
        Command::ListModels => bare(HttpMethod::Get, "/api/model-connections"@),
        Command::ListSkills => bare(HttpMethod::Get, "/api/skills"@),
        Command::CreateSkill { name, description, content } => RequestView {
            method: HttpMethod::Post,
            path: "/api/skills"@,
            body: Some(skill_body(name@, description@, content@)),
        },
        Command::DeleteSkill { id } => bare(HttpMethod::Delete, "/api/skills/"@ + id@),
    }
}

fn bare_request(method: HttpMethod, path: String) -> (r: HubRequest)
    ensures
        r@ == bare(method, path@),
{
    HubRequest { method, path, body: None }
}

/// The first request of a command.
pub fn begin_command(command: &Command) -> (r: HubRequest)
    ensures
        r@ == first_request(*command),
{
    match command {
        Command::Health => bare_request(HttpMethod::Get, "/api/auth/me".to_owned()),
        Command::ListAgents => bare_request(HttpMethod::Get, "/api/agents".to_owned()),
        Command::GetAgent { id } => bare_request(
            HttpMethod::Get,
            join("/api/agents/", id.as_str()),
        ),
        Command::UpdateAgent { id, .. } => bare_request(
            HttpMethod::Get,
            join("/api/agents/", id.as_str()),
        ),
        Command::ListSessions => bare_request(HttpMethod::Get, "/api/sessions".to_owned()),
        Command::ListRuntimes => bare_request(HttpMethod::Get, "/api/runtimes".to_owned()),
        Command::ListModels => bare_request(HttpMethod::Get, "/api/model-connections".to_owned()),
        Command::ListSkills => bare_request(HttpMethod::Get, "/api/skills".to_owned()),
        Command::CreateSkill { name, description, content } => {
            let content_json = Json::Text(content.clone());
            let description_json = Json::Text(description.clone());
            let name_json = Json::Text(name.clone());
            assert(content_json@ == JsonView::Text(content@));
            assert(description_json@ == JsonView::Text(description@));
            assert(name_json@ == JsonView::Text(name@));
            let fields = vec![
                ("content".to_owned(), content_json),
                ("description".to_owned(), description_json),
                ("name".to_owned(), name_json),
            ];
            let body = Json::Object(fields);
            assert(body@->Object_0 =~= skill_body(name@, description@, content@)->Object_0);
            HubRequest { method: HttpMethod::Post, path: "/api/skills".to_owned(), body: Some(body) }
        },
        Command::DeleteSkill { id } => bare_request(
            HttpMethod::Delete,
            join("/api/skills/", id.as_str()),
        ),
    }
}

/// The second request of a command, after the first was answered with
/// `answer`: only a change of an agent has one.
pub open spec fn second_request(command: Command, answer: JsonView) -> Option<RequestView> {
    match command {
        Command::UpdateAgent { id, changes } => Some(
            RequestView {
                method: HttpMethod::Patch,
                path: "/api/agents/"@ + id@,
                body: Some(update_body(answer, changes)),
            },
        ),
        _ => None,
    }
}

/// The request that follows the first answer; where there is none, the answer
/// is what the command prints.
pub fn continue_command(command: &Command, answer: &Json) -> (r: Option<HubRequest>)
    ensures
        match r {
            Some(request) => second_request(*command, answer@) == Some(request@),
            None => second_request(*command, answer@) is None,
        },
{
    match command {
        Command::UpdateAgent { id, changes } => {
            let body = agent_update_body(answer, changes);
            Some(
                HubRequest {
                    method: HttpMethod::Patch,
                    path: join("/api/agents/", id.as_str()),
                    body: Some(body),
                },
            )
        },
        _ => None,
    }
}

// ---------------------------------------------------------------------------
// Packages
// ---------------------------------------------------------------------------

/// A path that leaves the package.
pub open spec fn unsafe_path(relative: Seq<char>) -> bool {
    relative.len() == 0 || relative == ".."@ || "../"@.is_prefix_of(relative)
}

/// Accepts the path of a file in a package.
pub fn check_package_path(relative: &str) -> (r: Result<(), String>)
    ensures
        match r {
            Ok(_) => !unsafe_path(relative@),
            Err(message) => unsafe_path(relative@) && message@ == "package path is unsafe: "@
                + relative@,
        },
{
    if relative.is_empty() || same(relative, "..") || starts_with(relative, "../") {
        return Err(join("package path is unsafe: ", relative));
    }
    Ok(())
}

/// The first path from `from` on that stands before it too.
pub open spec fn repeated_path(paths: Seq<Seq<char>>, from: int) -> Option<Seq<char>>
    decreases paths.len() - from,
{
    if from < 0 || from >= paths.len() {
        None
    } else if paths.take(from).contains(paths[from]) {
        Some(paths[from])
    } else {
        repeated_path(paths, from + 1)
    }
}

/// The files of a package: one of them is its root document, and no path
/// occurs twice.
pub open spec fn package_validity(paths: Seq<Seq<char>>) -> Result<(), Seq<char>> {
    if !paths.contains("SKILL.md"@) {
        Err("Skill package must contain a root SKILL.md"@)
    } else {
        match repeated_path(paths, 0) {
            Some(path) => Err("Skill package contains duplicate path "@ + path),
            None => Ok(()),
        }
    }
}

/// Accepts the files of a package by their paths.
pub fn check_package_files(paths: &Vec<String>) -> (r: Result<(), String>)
    ensures
        match r {
            Ok(_) => package_validity(views(paths@)) == Ok::<(), Seq<char>>(()),
            Err(message) => package_validity(views(paths@)) == Err::<(), Seq<char>>(message@),
        },
{
    let ghost all = views(paths@);
    if !contains(paths, "SKILL.md") {
        return Err("Skill package must contain a root SKILL.md".to_owned());
    }
    let mut seen: Vec<String> = Vec::new();
    let mut i: usize = 0;
    while i < paths.len()
        invariant
            i <= paths@.len(),
            all == views(paths@),
            all.contains("SKILL.md"@),
            views(seen@) == all.take(i as int),
            repeated_path(all, 0) == repeated_path(all, i as int),
        decreases paths@.len() - i,
    {
        assert(all[i as int] == paths@[i as int]@);
        if contains(&seen, paths[i].as_str()) {
            return Err(join("Skill package contains duplicate path ", paths[i].as_str()));
        }
        let ghost before = views(seen@);
        seen.push(paths[i].clone());
        assert(views(seen@) =~= before.push(all[i as int]));
        i = i + 1;
        assert(views(seen@) =~= all.take(i as int));
    }
    Ok(())
}

proof fn lemma_not_repeated(paths: Seq<Seq<char>>, from: int, j: int)
    requires
        repeated_path(paths, from) is None,
        0 <= from <= j < paths.len(),
    ensures
        !paths.take(j).contains(paths[j]),
    decreases j - from,
{
    if from < j {
        lemma_not_repeated(paths, from + 1, j);
    }
}

/// An accepted package has its root document, and each path once.
pub proof fn accepted_packages_are_complete(paths: Seq<Seq<char>>)
    requires
        package_validity(paths) is Ok,
    ensures
        paths.contains("SKILL.md"@),
        paths.no_duplicates(),
{
    assert forall|i: int, j: int| 0 <= i < paths.len() && 0 <= j < paths.len() && i
        != j implies paths[i] != paths[j] by {
        let a = if i < j {
            i
        } else {
            j
        };
        let b = if i < j {
            j
        } else {
            i
        };
        lemma_not_repeated(paths, 0, b);
        if paths[a] == paths[b] {
            assert(paths.take(b)[a] == paths[a]);
            assert(paths.take(b).contains(paths[b]));
        }
    }
}

/// The manifest of a package: the paths of its files.
pub open spec fn manifest_json(paths: Seq<Seq<char>>) -> JsonView {
    JsonView::Object(
        seq![
            (
                "paths"@,
                JsonView::List(Seq::new(paths.len(), |i: int| JsonView::Text(paths[i]))),
            ),
        ],
    )
}

/// The manifest of a package as text.
pub fn package_manifest(paths: &Vec<String>) -> (r: String)
    ensures
        r@ == json_text_of(manifest_json(views(paths@))),
{
    let mut items: Vec<Json> = Vec::new();
    let mut i: usize = 0;
    while i < paths.len()
        invariant
            i <= paths@.len(),
            i == items@.len(),
            forall|k: int| 0 <= k < i ==> (#[trigger] items@[k])@ == JsonView::Text(paths@[k]@),
        decreases paths@.len() - i,
    {
        let item = Json::Text(paths[i].clone());
        assert(item@ == JsonView::Text(paths@[i as int]@));
        items.push(item);
        i = i + 1;
    }
    let list = list_of(items);
    assert(list@->List_0 =~= manifest_json(views(paths@))->Object_0[0].1->List_0);
    let fields = vec![("paths".to_owned(), list)];
    let json = Json::Object(fields);
    assert(json@->Object_0 =~= manifest_json(views(paths@))->Object_0);
    json_text(&json)
}

/// A file of a package: its name and what it holds.
#[derive(Debug)]
pub struct PackagePart {
    pub file_name: String,
    pub bytes: Vec<u8>,
}

/// The start of the part that holds the manifest, and the manifest.
pub open spec fn manifest_part(boundary: Seq<char>, manifest: Seq<char>) -> Seq<char> {
    "--"@ + boundary + "\r\nContent-Disposition: form-data; name=\"manifest\"\r\n\r\n"@ + manifest
        + "\r\n"@
}

/// The start of the part that holds the file at `index`.
pub open spec fn file_head(boundary: Seq<char>, index: nat, file_name: Seq<char>) -> Seq<char> {
    "--"@ + boundary + "\r\nContent-Disposition: form-data; name=\"file-"@ + decimal(index)
        + "\"; filename=\""@ + file_name
        + "\"\r\nContent-Type: application/octet-stream\r\n\r\n"@
}

/// The end of an upload.
pub open spec fn closing(boundary: Seq<char>) -> Seq<char> {
    "--"@ + boundary + "--\r\n"@
}

/// The parts of the first `n` files.
pub open spec fn file_parts(boundary: Seq<char>, parts: Seq<PackagePart>, n: int) -> Seq<u8>
    decreases n,
{
    if n <= 0 {
        seq![]
    } else {
        file_parts(boundary, parts, n - 1) + encode_utf8(
            file_head(boundary, (n - 1) as nat, parts[n - 1].file_name@),
        ) + parts[n - 1].bytes@ + encode_utf8("\r\n"@)
    }
}

/// The body of an upload: the manifest, every file in order, and the end.
pub open spec fn upload_bytes(
    boundary: Seq<char>,
    manifest: Seq<char>,
    parts: Seq<PackagePart>,
) -> Seq<u8> {
    encode_utf8(manifest_part(boundary, manifest)) + file_parts(
        boundary,
        parts,
        parts.len() as int,
    ) + encode_utf8(closing(boundary))
}

fn append_bytes(body: &mut Vec<u8>, more: &[u8])
    ensures
        final(body)@ == old(body)@ + more@,
{
    let ghost start = body@;
    let mut i: usize = 0;
    assert(start + more@.take(0) =~= start);
    while i < more.len()
        invariant
            i <= more@.len(),
            body@ == start + more@.take(i as int),
        decreases more@.len() - i,
    {
        body.push(more[i]);
        i = i + 1;
        assert(body@ =~= start + more@.take(i as int));
    }
    assert(more@.take(i as int) =~= more@);
}

fn append_text(body: &mut Vec<u8>, text: &str)
    ensures
        final(body)@ == old(body)@ + encode_utf8(text@),
{
    append_bytes(body, text.as_bytes());
}

/// The body of an upload, in parts between the boundary.
pub fn upload_package_body(boundary: &str, manifest: &str, parts: &Vec<PackagePart>) -> (r: Vec<u8>)
    ensures
        r@ == upload_bytes(boundary@, manifest@, parts@),
{
    let mut body: Vec<u8> = Vec::new();
    let mut head = join("--", boundary);
    head.append("\r\nContent-Disposition: form-data; name=\"manifest\"\r\n\r\n");
    head.append(manifest);
    head.append("\r\n");
    append_text(&mut body, head.as_str());
    let ghost start = encode_utf8(manifest_part(boundary@, manifest@));
    assert(body@ =~= start);
    let mut i: usize = 0;
    assert(start + file_parts(boundary@, parts@, 0) =~= start);
    while i < parts.len()
        invariant
            i <= parts@.len(),
            body@ == start + file_parts(boundary@, parts@, i as int),
        decreases parts@.len() - i,
    {
        let index = decimal_text(i as u64);
        let mut part = join("--", boundary);
        part.append("\r\nContent-Disposition: form-data; name=\"file-");
        part.append(index.as_str());
        part.append("\"; filename=\"");
        part.append(parts[i].file_name.as_str());
        part.append("\"\r\nContent-Type: application/octet-stream\r\n\r\n");
        let ghost before = body@;
        append_text(&mut body, part.as_str());
        append_bytes(&mut body, parts[i].bytes.as_slice());
        append_text(&mut body, "\r\n");
        assert(body@ =~= start + file_parts(boundary@, parts@, i + 1));
        i = i + 1;
    }
    let mut end = join("--", boundary);
    end.append("--\r\n");
    append_text(&mut body, end.as_str());
    assert(body@ =~= upload_bytes(boundary@, manifest@, parts@));
    body
}

// ---------------------------------------------------------------------------
// Laws
// ---------------------------------------------------------------------------

proof fn lemma_removed(skills: Seq<JsonView>, skill: Seq<char>, other: Seq<char>)
    ensures
        holds_skill(without_skill(skills, skill), other) <==> holds_skill(skills, other) && other
            != skill,
    decreases skills.len(),
{
    reveal(Seq::filter);
    let p = |value: JsonView| !names_skill(value, skill);
    if skills.len() > 0 {
        let before = skills.drop_last();
        lemma_removed(before, skill, other);
        let f = skills.filter(p);
        let g = before.filter(p);
        assert(skills[skills.len() - 1] == skills.last());
        if p(skills.last()) {
            assert(f == g.push(skills.last()));
            if holds_skill(g, other) {
                let k = choose|k: int| 0 <= k < g.len() && names_skill(#[trigger] g[k], other);
                assert(names_skill(f[k], other));
            }
            if names_skill(skills.last(), other) {
                assert(names_skill(f[f.len() - 1], other));
            }
            if holds_skill(f, other) {
                let k = choose|k: int| 0 <= k < f.len() && names_skill(#[trigger] f[k], other);
                if k < g.len() {
                    assert(names_skill(g[k], other));
                }
            }
        }
        if holds_skill(before, other) {
            let k = choose|k: int|
                0 <= k < before.len() && names_skill(#[trigger] before[k], other);
            assert(names_skill(skills[k], other));
        }
        if holds_skill(skills, other) {
            let k = choose|k: int|
                0 <= k < skills.len() && names_skill(#[trigger] skills[k], other);
            if k < before.len() {
                assert(names_skill(before[k], other));
            }
        }
    }
}

proof fn lemma_added(skills: Seq<JsonView>, skill: Seq<char>, other: Seq<char>)
    ensures
        holds_skill(with_skill(skills, skill), other) <==> holds_skill(skills, other) || other
            == skill,
{
    let w = with_skill(skills, skill);
    if !holds_skill(skills, skill) {
        assert(names_skill(w[w.len() - 1], skill));
        if holds_skill(skills, other) {
            let k = choose|k: int|
                0 <= k < skills.len() && names_skill(#[trigger] skills[k], other);
            assert(names_skill(w[k], other));
        }
        if holds_skill(w, other) {
            let k = choose|k: int| 0 <= k < w.len() && names_skill(#[trigger] w[k], other);
            if k < skills.len() {
                assert(names_skill(skills[k], other));
            }
        }
    }
}

proof fn lemma_all_removed(skills: Seq<JsonView>, removed: Seq<Seq<char>>, n: int, other: Seq<char>)
    requires
        0 <= n <= removed.len(),
    ensures
        holds_skill(without_skills(skills, removed, n), other) <==> holds_skill(skills, other)
            && !removed.take(n).contains(other),
    decreases n,
{
    if n > 0 {
        lemma_all_removed(skills, removed, n - 1, other);
        lemma_removed(without_skills(skills, removed, n - 1), removed[n - 1], other);
        assert(removed.take(n) =~= removed.take(n - 1).push(removed[n - 1]));
        if removed.take(n - 1).contains(other) {
            let shorter = removed.take(n - 1);
            let k = choose|k: int| 0 <= k < shorter.len() && shorter[k] == other;
            assert(removed.take(n)[k] == other);
        }
        if other == removed[n - 1] {
            assert(removed.take(n)[n - 1] == other);
        }
        if removed.take(n).contains(other) {
            let longer = removed.take(n);
            let k = choose|k: int| 0 <= k < longer.len() && longer[k] == other;
            if k < n - 1 {
                assert(removed.take(n - 1)[k] == other);
            }
        }
    }
}

proof fn lemma_all_added(skills: Seq<JsonView>, added: Seq<Seq<char>>, n: int, other: Seq<char>)
    requires
        0 <= n <= added.len(),
    ensures
        holds_skill(with_skills(skills, added, n), other) <==> holds_skill(skills, other)
            || added.take(n).contains(other),
    decreases n,
{
    if n > 0 {
        lemma_all_added(skills, added, n - 1, other);
        lemma_added(with_skills(skills, added, n - 1), added[n - 1], other);
        if added.take(n - 1).contains(other) {
            let shorter = added.take(n - 1);
            let k = choose|k: int| 0 <= k < shorter.len() && shorter[k] == other;
            assert(added.take(n)[k] == other);
        }
        if other == added[n - 1] {
            assert(added.take(n)[n - 1] == other);
        }
        if added.take(n).contains(other) {
            let longer = added.take(n);
            let k = choose|k: int| 0 <= k < longer.len() && longer[k] == other;
            if k < n - 1 {
                assert(added.take(n - 1)[k] == other);
            }
        }
    }
}

/// After a command an agent has the skills that were added, and of the others
/// just those that it had and that were not removed.
pub proof fn skills_change_as_told(
    current: JsonView,
    removed: Seq<Seq<char>>,
    added: Seq<Seq<char>>,
    skill: Seq<char>,
)
    ensures
        ({
            let before = match current.field("managed_skill_ids"@) {
                Some(value) => match value.items() {
                    Some(items) => items,
                    None => seq![],
                },
                None => seq![],
            };
            holds_skill(changed_skills(current, removed, added), skill) <==> added.contains(skill)
                || (holds_skill(before, skill) && !removed.contains(skill))
        }),
{
    let before = match current.field("managed_skill_ids"@) {
        Some(value) => match value.items() {
            Some(items) => items,
            None => seq![],
        },
        None => seq![],
    };
    let middle = without_skills(before, removed, removed.len() as int);
    lemma_all_removed(before, removed, removed.len() as int, skill);
    lemma_all_added(middle, added, added.len() as int, skill);
    assert(removed.take(removed.len() as int) =~= removed);
    assert(added.take(added.len() as int) =~= added);
}

/// The parts of an agent that the client never changes.
pub open spec fn untouched(key: Seq<char>) -> bool {
    ||| key == "mcp_allowlist"@ || key == "model_selection"@ || key == "model_settings"@
    ||| key == "public_to"@ || key == "runtime_id"@ || key == "sandbox_policy"@
    ||| key == "secret_declarations"@ || key == "subagents"@ || key == "tool_allowlist"@
}

/// A command sends back as they were the parts of an agent that it cannot
/// change, and the name, the instructions and the visibility that it does not
/// change.
pub proof fn updates_leave_the_rest(current: JsonView, changes: AgentChanges, key: Seq<char>)
    requires
        untouched(key) || (key == "name"@ && changes.name is None) || (key == "instructions"@
            && changes.instructions is None) || (key == "visibility"@ && changes.visibility is None),
    ensures
        update_body(current, changes).field(key) == Some(current_field(current, key)),
{
    reveal_strlit("instructions");
    reveal_strlit("managed_skill_ids");
    reveal_strlit("mcp_allowlist");
    reveal_strlit("model_selection");
    reveal_strlit("model_settings");
    reveal_strlit("name");
    reveal_strlit("public_to");
    reveal_strlit("runtime_id");
    reveal_strlit("sandbox_policy");
    reveal_strlit("secret_declarations");
    reveal_strlit("subagents");
    reveal_strlit("tool_allowlist");
    reveal_strlit("visibility");
    assert("model_settings"@[0] == 'm' && "sandbox_policy"@[0] == 's' && "tool_allowlist"@[0] == 't');
    assert("public_to"@[0] == 'p' && "subagents"@[0] == 's');
    assert("runtime_id"@[0] == 'r' && "visibility"@[0] == 'v');
    let fields = update_body(current, changes)->Object_0;
    let i = choose|i: int| 0 <= i < fields.len() && (#[trigger] fields[i]).0 == key;
    assert(fields[0].0 == "instructions"@ && fields[1].0 == "managed_skill_ids"@);
    assert(fields[2].0 == "mcp_allowlist"@);
    assert(fields[3].0 == "model_selection"@ && fields[4].0 == "model_settings"@);
    assert(fields[5].0 == "name"@ && fields[6].0 == "public_to"@ && fields[7].0 == "runtime_id"@);
    assert(fields[8].0 == "sandbox_policy"@ && fields[9].0 == "secret_declarations"@);
    assert(fields[10].0 == "subagents"@ && fields[11].0 == "tool_allowlist"@);
    assert(fields[12].0 == "visibility"@);
    assert forall|k: int| 0 <= k < fields.len() && k != i implies (#[trigger] fields[k]).0
        != key by {
        assert(fields[k].0.len() != key.len() || fields[k].0[0] != key[0]);
    }
    lemma_field_at(fields, key, 0, i);
}

/// A connection is made to an address on the web, without the slashes at its
/// end, with a key that says something.
pub proof fn connections_have_an_address_and_a_key(base_url: Seq<char>, api_key: Seq<char>)
    ensures
        connection(base_url, api_key) is Ok <==> ("http://"@.is_prefix_of(
            without_trailing(base_url, '/'),
        ) || "https://"@.is_prefix_of(without_trailing(base_url, '/'))) && !blank(api_key),
        connection(base_url, api_key) matches Ok(c) ==> c.base_url == without_trailing(
            base_url,
            '/',
        ) && c.api_key == api_key,
{
}

/// A text that is too long is cut and marked.
pub proof fn long_texts_are_cut(value: Seq<char>, limit: nat)
    ensures
        value.len() <= limit ==> truncated(value, limit) == value,
        value.len() > limit ==> truncated(value, limit) == value.take(limit as int) + "..."@,
        value.len() > limit ==> truncated(value, limit).len() == limit + 3,
{
    reveal_strlit("...");
}

/// An answer is the value that came with a success, nothing where nothing
/// came, and otherwise an error; the error of a refusal is the one that was
/// told, or the start of what came.
pub proof fn answers_are_read_as_sent(
    path: Seq<char>,
    status: Seq<char>,
    text: Seq<char>,
    parsed: Option<JsonView>,
)
    ensures
        answer(path, false, status, text, parsed) is Err,
        answer(path, true, status, text, parsed) is Ok <==> blank(text) || parsed is Some,
        blank(text) ==> answer(path, true, status, text, parsed) == Ok::<JsonView, Seq<char>>(
            JsonView::Null,
        ),
        !blank(text) && parsed is Some ==> answer(path, true, status, text, parsed) == Ok::<
            JsonView,
            Seq<char>,
        >(parsed->0),
        upload_answer(false, status, text, parsed) is Err,
        upload_answer(true, status, text, parsed) is Ok <==> parsed is Some,
        parsed is Some ==> upload_answer(true, status, text, parsed) == Ok::<JsonView, Seq<char>>(
            parsed->0,
        ),
        parsed is Some && parsed->0.text_field("error"@) is Some ==> refusal_detail(text, parsed)
            == parsed->0.text_field("error"@)->0,
        parsed is None || parsed->0.text_field("error"@) is None ==> refusal_detail(text, parsed)
            == truncated(text, 500),
        answer(path, false, status, text, parsed)->Err_0 == "Hub request "@ + path + " failed ("@
            + status + "): "@ + refusal_detail(text, parsed),
        upload_answer(false, status, text, parsed)->Err_0 == "Skill package upload failed ("@
            + status + "): "@ + refusal_detail(text, parsed),
{
}

/// A skill that is there already is not added again; adding keeps the order
/// and removing takes every entry of the name.
pub proof fn skills_are_added_once(skills: Seq<JsonView>, skill: Seq<char>)
    ensures
        holds_skill(skills, skill) ==> with_skill(skills, skill) == skills,
        !holds_skill(skills, skill) ==> with_skill(skills, skill) == skills.push(
            JsonView::Text(skill),
        ),
        with_skill(with_skill(skills, skill), skill) == with_skill(skills, skill),
        names_skill(JsonView::Text(skill), skill),
{
    let added = skills.push(JsonView::Text(skill));
    assert(names_skill(added[skills.len() as int], skill));
}

/// An update sends what was asked to change, and the skills that are left.
pub proof fn updates_send_the_changes(current: JsonView, changes: AgentChanges)
    ensures
        changes.name is Some ==> update_body(current, changes).text_field("name"@) == Some(
            changes.name->0@,
        ),
        changes.instructions is Some ==> update_body(current, changes).text_field(
            "instructions"@,
        ) == Some(changes.instructions->0@),
        changes.visibility is Some ==> update_body(current, changes).text_field("visibility"@)
            == Some(changes.visibility->0@),
        update_body(current, changes).field("managed_skill_ids"@) == Some(
            JsonView::List(
                changed_skills(current, views(changes.remove_skills@), views(changes.add_skills@)),
            ),
        ),
        update_body(current, changes)->Object_0.len() == 13,
{
    reveal_strlit("instructions");
    reveal_strlit("managed_skill_ids");
    reveal_strlit("mcp_allowlist");
    reveal_strlit("model_selection");
    reveal_strlit("model_settings");
    reveal_strlit("name");
    reveal_strlit("public_to");
    reveal_strlit("runtime_id");
    reveal_strlit("sandbox_policy");
    reveal_strlit("secret_declarations");
    reveal_strlit("subagents");
    reveal_strlit("tool_allowlist");
    reveal_strlit("visibility");
    let fields = update_body(current, changes)->Object_0;
    assert(fields[0].0.len() == 12 && fields[1].0.len() == 17 && fields[2].0.len() == 13);
    assert(fields[3].0.len() == 15 && fields[4].0.len() == 14 && fields[5].0.len() == 4);
    assert(fields[6].0.len() == 9 && fields[7].0.len() == 10 && fields[8].0.len() == 14);
    assert(fields[9].0.len() == 19 && fields[10].0.len() == 9 && fields[11].0.len() == 14);
    assert(fields[12].0.len() == 10);
    assert("runtime_id"@[0] == 'r' && "visibility"@[0] == 'v');
    lemma_field_at(fields, "instructions"@, 0, 0);
    lemma_field_at(fields, "managed_skill_ids"@, 0, 1);
    lemma_field_at(fields, "name"@, 0, 5);
    lemma_field_at(fields, "visibility"@, 0, 12);
}

/// Every command asks the hub for what it is about: things are listed and read,
/// made and deleted under their own paths.
pub proof fn commands_ask_under_their_paths(
    id: String,
    name: String,
    description: String,
    content: String,
    changes: AgentChanges,
)
    ensures
        first_request(Command::Health) == (RequestView {
            method: HttpMethod::Get,
            path: "/api/auth/me"@,
            body: None,
        }),
        first_request(Command::ListAgents) == (RequestView {
            method: HttpMethod::Get,
            path: "/api/agents"@,
            body: None,
        }),
        first_request(Command::GetAgent { id }) == (RequestView {
            method: HttpMethod::Get,
            path: "/api/agents/"@ + id@,
            body: None,
        }),
        first_request(Command::UpdateAgent { id, changes }) == first_request(
            Command::GetAgent { id },
        ),
        first_request(Command::ListSessions) == (RequestView {
            method: HttpMethod::Get,
            path: "/api/sessions"@,
            body: None,
        }),
        first_request(Command::ListRuntimes) == (RequestView {
            method: HttpMethod::Get,
            path: "/api/runtimes"@,
            body: None,
        }),
        first_request(Command::ListModels) == (RequestView {
            method: HttpMethod::Get,
            path: "/api/model-connections"@,
            body: None,
        }),
        first_request(Command::ListSkills) == (RequestView {
            method: HttpMethod::Get,
            path: "/api/skills"@,
            body: None,
        }),
        first_request(Command::DeleteSkill { id }) == (RequestView {
            method: HttpMethod::Delete,
            path: "/api/skills/"@ + id@,
            body: None,
        }),
        ({
            let r = first_request(Command::CreateSkill { name, description, content });
            &&& r.method == HttpMethod::Post
            &&& r.path == "/api/skills"@
            &&& r.body is Some
            &&& r.body->0.text_field("name"@) == Some(name@)
            &&& r.body->0.text_field("description"@) == Some(description@)
            &&& r.body->0.text_field("content"@) == Some(content@)
        }),
{
    reveal_strlit("content");
    reveal_strlit("description");
    reveal_strlit("name");
    assert("content"@.len() == 7 && "description"@.len() == 11 && "name"@.len() == 4);
    reveal_with_fuel(crate::json::field_from, 4);
}

/// Only an update goes on after the first answer: it sends the agent back with
/// its changes.
pub proof fn updates_go_on(command: Command, told: JsonView)
    ensures
        second_request(command, told) is Some <==> command is UpdateAgent,
        command matches Command::UpdateAgent { id, changes } ==> {
            &&& (second_request(command, told)->0).method == HttpMethod::Patch
            &&& (second_request(command, told)->0).path == first_request(command).path
            &&& (second_request(command, told)->0).body == Some(update_body(told, changes))
        },
{
}

/// A path stays in its package where it is one and does not begin by leaving
/// it.
pub proof fn paths_stay_in_the_package(relative: Seq<char>)
    ensures
        unsafe_path(relative) <==> relative.len() == 0 || relative == ".."@
            || "../"@.is_prefix_of(relative),
{
}

/// A package is accepted where it has its main file and no file twice.
pub proof fn complete_packages_are_accepted(paths: Seq<Seq<char>>)
    ensures
        package_validity(paths) is Ok <==> paths.contains("SKILL.md"@) && paths.no_duplicates(),
{
    if package_validity(paths) is Ok {
        accepted_packages_are_complete(paths);
    }
    if paths.no_duplicates() {
        lemma_none_repeated(paths, 0);
    }
}

proof fn lemma_none_repeated(paths: Seq<Seq<char>>, from: int)
    requires
        paths.no_duplicates(),
        0 <= from <= paths.len(),
    ensures
        repeated_path(paths, from) is None,
    decreases paths.len() - from,
{
    if from < paths.len() {
        if paths.take(from).contains(paths[from]) {
            let k = choose|k: int| 0 <= k < from && paths.take(from)[k] == paths[from];
            assert(paths[k] == paths[from]);
        }
        lemma_none_repeated(paths, from + 1);
    }
}

/// A manifest lists the paths in their order.
pub proof fn manifests_list_the_paths(paths: Seq<Seq<char>>)
    ensures
        manifest_json(paths).field("paths"@) is Some,
        crate::json::list_of_texts(manifest_json(paths).field("paths"@)->0) == Some(paths),
{
    let list = manifest_json(paths)->Object_0[0].1;
    assert(crate::json::all_texts(list->List_0));
    assert(crate::json::list_of_texts(list)->0 =~= paths);
}

/// An upload begins with the manifest and ends with the boundary; in between
/// each file comes in its turn, with its name and its bytes.
pub proof fn uploads_hold_every_file(
    boundary: Seq<char>,
    manifest: Seq<char>,
    parts: Seq<PackagePart>,
    n: int,
)
    requires
        0 <= n < parts.len(),
    ensures
        upload_bytes(boundary, manifest, parts) == encode_utf8(
            "--"@ + boundary + "\r\nContent-Disposition: form-data; name=\"manifest\"\r\n\r\n"@
                + manifest + "\r\n"@,
        ) + file_parts(boundary, parts, parts.len() as int) + encode_utf8(
            "--"@ + boundary + "--\r\n"@,
        ),
        file_parts(boundary, parts, 0) == Seq::<u8>::empty(),
        file_parts(boundary, parts, n + 1) == file_parts(boundary, parts, n) + encode_utf8(
            "--"@ + boundary + "\r\nContent-Disposition: form-data; name=\"file-"@ + decimal(
                n as nat,
            ) + "\"; filename=\""@ + parts[n].file_name@
                + "\"\r\nContent-Type: application/octet-stream\r\n\r\n"@,
        ) + parts[n].bytes@ + encode_utf8("\r\n"@),
{
}

} // verus!
