//! Tools: which of them an agent may use, which a client offers, and what
//! comes with a message from an integration.

use crate::error::{error_of, plain, refused, seen, ApiError, ErrorView, Status};
use crate::identity::{administers, is_admin_role, Role};
use crate::json::{copy_json, json_text, json_text_of, opt_text, Json, JsonView};
use crate::order::contains;
use crate::text::{
    alphanumeric, blank, byte_count, byte_len, chars_of, is_alphanumeric, is_blank, opt_view, same,
    starts_with, trim, trimmed, views,
};
use vstd::prelude::*;

verus! {

// ---------------------------------------------------------------------------
// Tools of an agent
// ---------------------------------------------------------------------------

/// The texts, each trimmed.
pub open spec fn all_trimmed(v: Seq<Seq<char>>) -> Seq<Seq<char>> {
    Seq::new(v.len(), |i: int| trimmed(v[i]))
}

/// The tools that a request enables, in the order in which the hub lists its
/// tools: at least one, each known and named once.
pub open spec fn tool_allowlist(value: Seq<Seq<char>>, known: Seq<Seq<char>>) -> Result<
    Seq<Seq<char>>,
    ErrorView,
> {
    let names = all_trimmed(value);
    if names.len() == 0 {
        refused(Status::BadRequest, "at least one Agent tool must be enabled"@)
    } else if !names.no_duplicates() || exists|i: int|
        0 <= i < names.len() && !known.contains(#[trigger] names[i]) {
        refused(Status::BadRequest, "unsupported or duplicate Agent tool"@)
    } else {
        Ok(known.filter(|name: Seq<char>| names.contains(name)))
    }
}

/// An outcome of a list of texts by its views.
pub open spec fn texts_seen(r: Result<Vec<String>, ApiError>) -> Result<Seq<Seq<char>>, ErrorView> {
    match r {
        Ok(v) => Ok(views(v@)),
        Err(e) => Err(e@),
    }
}

/// The tools that a request enables, in the order of `known`.
pub fn normalize_agent_tool_allowlist(value: &Vec<String>, known: &Vec<String>) -> (r: Result<
    Vec<String>,
    ApiError,
>)
    ensures
        texts_seen(r) == tool_allowlist(views(value@), views(known@)),
{
    if value.len() == 0 {
        return Err(ApiError::bad_request("at least one Agent tool must be enabled"));
    }
    let ghost names = all_trimmed(views(value@));
    let ghost catalog = views(known@);
    let mut requested: Vec<String> = Vec::new();
    let mut i: usize = 0;
    while i < value.len()
        invariant
            i <= value@.len(),
            names == all_trimmed(views(value@)),
            catalog == views(known@),
            views(requested@) == names.take(i as int),
            names.take(i as int).no_duplicates(),
            forall|k: int| 0 <= k < i ==> catalog.contains(#[trigger] names[k]),
        decreases value@.len() - i,
    {
        let name = trim(value[i].as_str());
        assert(name@ == names[i as int]);
        if contains(&requested, name.as_str()) {
            proof {
                let k = choose|k: int|
                    0 <= k < names.take(i as int).len() && names.take(i as int)[k] == name@;
                assert(names[k] == names[i as int] && k != i);
                assert(!names.no_duplicates());
            }
            return Err(ApiError::bad_request("unsupported or duplicate Agent tool"));
        }
        if !contains(known, name.as_str()) {
            assert(!catalog.contains(names[i as int]));
            return Err(ApiError::bad_request("unsupported or duplicate Agent tool"));
        }
        proof {
            let t = names.take(i + 1);
            assert forall|a: int, b: int| 0 <= a < t.len() && 0 <= b < t.len() && a
                != b implies t[a] != t[b] by {
                if a < i && b < i {
                    assert(t[a] == names.take(i as int)[a]);
                    assert(t[b] == names.take(i as int)[b]);
                } else if a < i {
                    assert(names.take(i as int)[a] == t[a]);
                } else if b < i {
                    assert(names.take(i as int)[b] == t[b]);
                }
            }
        }
        requested.push(name);
        i = i + 1;
        assert(views(requested@) =~= names.take(i as int));
    }
    assert(names.take(i as int) =~= names);
    let mut out: Vec<String> = Vec::new();
    let mut j: usize = 0;
    let ghost p = |name: Seq<char>| names.contains(name);
    assert(views(out@) =~= catalog.take(0).filter(p)) by {
        reveal(Seq::filter);
    }
    while j < known.len()
        invariant
            j <= known@.len(),
            catalog == views(known@),
            views(requested@) == names,
            p == |name: Seq<char>| names.contains(name),
            views(out@) == catalog.take(j as int).filter(p),
        decreases known@.len() - j,
    {
        assert(known@[j as int]@ == catalog[j as int]);
        proof {
            reveal(Seq::filter);
            assert(catalog.take(j + 1).drop_last() =~= catalog.take(j as int));
        }
        if contains(&requested, known[j].as_str()) {
            let ghost before = views(out@);
            out.push(known[j].clone());
            assert(views(out@) =~= before.push(catalog[j as int]));
        }
        j = j + 1;
    }
    assert(catalog.take(j as int) =~= catalog);
    Ok(out)
}

/// What is enabled was asked for and is known; asking for it again gives the
/// same list, where the hub lists its tools once each and trimmed.
pub proof fn enabled_tools_are_stable(value: Seq<Seq<char>>, known: Seq<Seq<char>>)
    requires
        tool_allowlist(value, known) is Ok,
        known.no_duplicates(),
        forall|i: int| 0 <= i < known.len() ==> trimmed(#[trigger] known[i]) == known[i],
    ensures
        ({
            let tools = tool_allowlist(value, known)->Ok_0;
            &&& forall|t: Seq<char>|
                tools.contains(t) <==> known.contains(t) && all_trimmed(value).contains(t)
            &&& tools.no_duplicates()
            &&& tool_allowlist(tools, known) == tool_allowlist(value, known)
        }),
{
    let names = all_trimmed(value);
    let p = |name: Seq<char>| names.contains(name);
    let tools = known.filter(p);
    lemma_filter(known, p);
    assert(tools.no_duplicates()) by {
        lemma_filter_unique(known, p);
    }
    assert(forall|t: Seq<char>| tools.contains(t) <==> known.contains(t) && names.contains(t));
    let again = all_trimmed(tools);
    assert(again =~= tools) by {
        assert forall|i: int| 0 <= i < tools.len() implies trimmed(#[trigger] tools[i])
            == tools[i] by {
            assert(tools.contains(tools[i]));
            let k = choose|k: int| 0 <= k < known.len() && known[k] == tools[i];
            assert(trimmed(known[k]) == known[k]);
        }
    }
    assert(tools.len() > 0) by {
        assert(known.contains(names[0]));
        assert(names.contains(names[0]));
        assert(tools.contains(names[0]));
    }
    assert forall|i: int| 0 <= i < again.len() implies known.contains(#[trigger] again[i]) by {
        assert(tools.contains(tools[i]));
    }
    let q = |name: Seq<char>| again.contains(name);
    lemma_filter_same(known, p, q);
}

proof fn lemma_filter(v: Seq<Seq<char>>, p: spec_fn(Seq<char>) -> bool)
    ensures
        forall|t: Seq<char>| v.filter(p).contains(t) <==> v.contains(t) && p(t),
    decreases v.len(),
{
    reveal(Seq::filter);
    if v.len() > 0 {
        let w = v.drop_last();
        lemma_filter(w, p);
        let f = v.filter(p);
        assert forall|t: Seq<char>| f.contains(t) <==> v.contains(t) && p(t) by {
            if v.contains(t) {
                let k = choose|k: int| 0 <= k < v.len() && v[k] == t;
                if k < w.len() {
                    assert(w[k] == t);
                }
            }
            if w.contains(t) {
                let k = choose|k: int| 0 <= k < w.len() && w[k] == t;
                assert(v[k] == t);
            }
            assert(v[v.len() - 1] == v.last());
            if p(v.last()) {
                let g = w.filter(p);
                assert(f == g.push(v.last()));
                assert(f[f.len() - 1] == v.last());
                if g.contains(t) {
                    let k = choose|k: int| 0 <= k < g.len() && g[k] == t;
                    assert(f[k] == t);
                }
                if f.contains(t) {
                    let k = choose|k: int| 0 <= k < f.len() && f[k] == t;
                    if k < g.len() {
                        assert(g[k] == t);
                    }
                }
            }
        }
    }
}

proof fn lemma_filter_unique(v: Seq<Seq<char>>, p: spec_fn(Seq<char>) -> bool)
    requires
        v.no_duplicates(),
    ensures
        v.filter(p).no_duplicates(),
    decreases v.len(),
{
    reveal(Seq::filter);
    if v.len() > 0 {
        let w = v.drop_last();
        assert forall|a: int, b: int| 0 <= a < w.len() && 0 <= b < w.len() && a != b implies w[a]
            != w[b] by {
            assert(v[a] != v[b]);
        }
        lemma_filter_unique(w, p);
        lemma_filter(w, p);
        let f = v.filter(p);
        let g = w.filter(p);
        if p(v.last()) {
            assert(f == g.push(v.last()));
            assert forall|a: int, b: int| 0 <= a < f.len() && 0 <= b < f.len() && a
                != b implies f[a] != f[b] by {
                if a < g.len() && b < g.len() {
                    assert(f[a] == g[a] && f[b] == g[b]);
                } else {
                    let k = if a < g.len() {
                        a
                    } else {
                        b
                    };
                    assert(g.contains(g[k]));
                    assert(w.contains(g[k]));
                    let m = choose|m: int| 0 <= m < w.len() && w[m] == g[k];
                    assert(v[m] != v[v.len() - 1]);
                }
            }
        }
    }
}

proof fn lemma_filter_same(
    v: Seq<Seq<char>>,
    p: spec_fn(Seq<char>) -> bool,
    q: spec_fn(Seq<char>) -> bool,
)
    requires
        forall|i: int| 0 <= i < v.len() ==> p(#[trigger] v[i]) == q(v[i]),
    ensures
        v.filter(p) == v.filter(q),
    decreases v.len(),
{
    reveal(Seq::filter);
    if v.len() > 0 {
        let w = v.drop_last();
        assert forall|i: int| 0 <= i < w.len() implies p(#[trigger] w[i]) == q(w[i]) by {
            assert(w[i] == v[i]);
        }
        lemma_filter_same(w, p, q);
        assert(v[v.len() - 1] == v.last());
    }
}

/// All the tools of `a` are in `b`.
pub open spec fn tools_within(a: Seq<Seq<char>>, b: Seq<Seq<char>>) -> bool {
    forall|i: int| 0 <= i < a.len() ==> b.contains(#[trigger] a[i])
}

/// Tells whether all the tools of `a` are in `b`.
pub fn all_within(a: &Vec<String>, b: &Vec<String>) -> (r: bool)
    ensures
        r == tools_within(views(a@), views(b@)),
{
    let ghost texts = views(a@);
    let mut i: usize = 0;
    while i < a.len()
        invariant
            i <= a@.len(),
            texts == views(a@),
            forall|k: int| 0 <= k < i ==> views(b@).contains(#[trigger] texts[k]),
        decreases a@.len() - i,
    {
        assert(texts[i as int] == a@[i as int]@);
        if !contains(b, a[i].as_str()) {
            return false;
        }
        i = i + 1;
    }
    true
}

/// An application's choice of tools may only narrow that of each of its
/// agents.
pub open spec fn app_tools_check(tools: Seq<Seq<char>>, agent_tools: Seq<Seq<char>>) -> Result<
    (),
    ErrorView,
> {
    if tools_within(tools, agent_tools) {
        Ok(())
    } else {
        refused(Status::BadRequest, "App tools can only further restrict its Agents"@)
    }
}

/// Checks an application's choice of tools against those of one agent.
pub fn check_app_tools(tools: &Vec<String>, agent_tools: &Vec<String>) -> (r: Result<(), ApiError>)
    ensures
        plain(r) == app_tools_check(views(tools@), views(agent_tools@)),
{
    if !all_within(tools, agent_tools) {
        return Err(ApiError::bad_request("App tools can only further restrict its Agents"));
    }
    Ok(())
}

// ---------------------------------------------------------------------------
// Public widgets
// ---------------------------------------------------------------------------

/// A widget without login: set up by an administrator, for listed origins,
/// without history, for one agent, with read-only tools.
pub open spec fn public_widget(
    login_required: bool,
    history: bool,
    origins: nat,
    tools: Option<Seq<Seq<char>>>,
    public_tools: Seq<Seq<char>>,
    agents: nat,
    role: Role,
) -> Result<(), ErrorView> {
    if login_required {
        Ok(())
    } else if !administers(role) {
        refused(Status::Forbidden, "administrator permission is required for public Widgets"@)
    } else if origins == 0 {
        refused(Status::BadRequest, "public Widget requires at least one allowed Origin"@)
    } else if history {
        refused(Status::BadRequest, "public Widget cannot enable history"@)
    } else if agents != 1 {
        refused(Status::BadRequest, "public Widget requires exactly one Agent"@)
    } else if tools is Some && !tools_within(tools->0, public_tools) {
        refused(Status::BadRequest, "public Widget only permits read-only file tools"@)
    } else {
        Ok(())
    }
}

/// The tools that are listed, if any are.
pub open spec fn opt_views(v: Option<Vec<String>>) -> Option<Seq<Seq<char>>> {
    match v {
        Some(tools) => Some(views(tools@)),
        None => None,
    }
}

/// Accepts the settings of a widget, or says why one without login cannot
/// have them.
pub fn validate_public_widget_settings(
    login_required: bool,
    widget_history_enabled: bool,
    allowed_origins: &Vec<String>,
    tool_allowlist: &Option<Vec<String>>,
    public_tools: &Vec<String>,
    agent_count: usize,
    role: Role,
) -> (r: Result<(), ApiError>)
    ensures
        plain(r) == public_widget(
            login_required,
            widget_history_enabled,
            allowed_origins@.len(),
            opt_views(*tool_allowlist),
            views(public_tools@),
            agent_count as nat,
            role,
        ),
{
    if login_required {
        return Ok(());
    }
    if !is_admin_role(role) {
        return Err(
            ApiError::forbidden("administrator permission is required for public Widgets"),
        );
    }
    if allowed_origins.len() == 0 {
        return Err(ApiError::bad_request("public Widget requires at least one allowed Origin"));
    }
    if widget_history_enabled {
        return Err(ApiError::bad_request("public Widget cannot enable history"));
    }
    if agent_count != 1 {
        return Err(ApiError::bad_request("public Widget requires exactly one Agent"));
    }
    match tool_allowlist {
        Some(tools) => {
            if !all_within(tools, public_tools) {
                return Err(
                    ApiError::bad_request("public Widget only permits read-only file tools"),
                );
            }
        },
        None => {},
    }
    Ok(())
}

/// A stored application that visitors may use.
pub open spec fn public_app(
    login_required: bool,
    origins: nat,
    tools: Option<Seq<Seq<char>>>,
    public_tools: Seq<Seq<char>>,
) -> Result<(), ErrorView> {
    if login_required {
        refused(Status::NotFound, "public Widget application not found"@)
    } else if origins == 0 {
        refused(Status::Conflict, "public Widget has no allowed Origins"@)
    } else if tools is Some && !tools_within(tools->0, public_tools) {
        refused(Status::Conflict, "public Widget tool policy is invalid"@)
    } else {
        Ok(())
    }
}

/// Lets visitors use a stored application, or says why they cannot.
pub fn validate_public_widget_app_record(
    login_required: bool,
    allowed_origins: &Vec<String>,
    tool_allowlist: &Option<Vec<String>>,
    public_tools: &Vec<String>,
) -> (r: Result<(), ApiError>)
    ensures
        plain(r) == public_app(
            login_required,
            allowed_origins@.len(),
            opt_views(*tool_allowlist),
            views(public_tools@),
        ),
{
    if login_required {
        return Err(ApiError::not_found("public Widget application not found"));
    }
    if allowed_origins.len() == 0 {
        return Err(ApiError::conflict("public Widget has no allowed Origins"));
    }
    match tool_allowlist {
        Some(tools) => {
            if !all_within(tools, public_tools) {
                return Err(ApiError::conflict("public Widget tool policy is invalid"));
            }
        },
        None => {},
    }
    Ok(())
}

/// An application that was accepted for visitors is one they may use, as long
/// as it stays as it was.
pub proof fn accepted_public_widgets_open(
    history: bool,
    origins: nat,
    tools: Option<Seq<Seq<char>>>,
    public_tools: Seq<Seq<char>>,
    agents: nat,
    role: Role,
)
    requires
        public_widget(false, history, origins, tools, public_tools, agents, role) is Ok,
    ensures
        public_app(false, origins, tools, public_tools) == Ok::<(), ErrorView>(()),
        administers(role),
        agents == 1,
        !history,
{
}

// ---------------------------------------------------------------------------
// Tools that a client offers
// ---------------------------------------------------------------------------

/// A tool that a client offers.
#[derive(Debug)]
pub struct ClientToolDefinition {
    pub name: String,
    pub description: String,
    pub input_schema: Json,
}

/// What a `ClientToolDefinition` holds.
pub struct ToolView {
    pub name: Seq<char>,
    pub description: Seq<char>,
    pub input_schema: JsonView,
}

impl View for ClientToolDefinition {
    type V = ToolView;

    open spec fn view(&self) -> ToolView {
        ToolView {
            name: self.name@,
            description: self.description@,
            input_schema: self.input_schema@,
        }
    }
}

/// What a list of definitions holds.
pub open spec fn tool_views(v: Seq<ClientToolDefinition>) -> Seq<ToolView> {
    Seq::new(v.len(), |i: int| v[i]@)
}

/// A character of a tool's name.
pub open spec fn tool_char(c: char) -> bool {
    is_alphanumeric(c) || c == '_' || c == '-'
}

/// A name of a tool: 1 to 64 letters, digits, underscores and hyphens.
pub open spec fn valid_tool_name(name: Seq<char>) -> bool {
    &&& name.len() > 0
    &&& byte_count(name) <= 64
    &&& forall|i: int| 0 <= i < name.len() ==> tool_char(#[trigger] name[i])
}

/// The name occurs among the first `n` definitions.
pub open spec fn named_before(defs: Seq<ToolView>, n: int, name: Seq<char>) -> bool {
    exists|k: int| 0 <= k < n && (#[trigger] defs[k]).name == name
}

/// What is wrong with the definition at `i`, if anything.
pub open spec fn definition_error(defs: Seq<ToolView>, i: int) -> Option<Seq<char>> {
    let d = defs[i];
    if !valid_tool_name(d.name) || named_before(defs, i, d.name) {
        Some("Client Tool names must be unique and contain only letters, digits, '_' or '-'"@)
    } else if blank(d.description) {
        Some("Client Tool description is required"@)
    } else if !(d.input_schema is Object) {
        Some("Client Tool input_schema must be a JSON object"@)
    } else if d.input_schema.text_field("type"@) != Some("object"@) {
        Some("Client Tool input_schema type must be object"@)
    } else {
        None
    }
}

/// The first thing that is wrong with the definitions from `from` on.
pub open spec fn definitions_error(defs: Seq<ToolView>, from: int) -> Option<Seq<char>>
    decreases defs.len() - from,
{
    if from >= defs.len() {
        None
    } else if definition_error(defs, from) is Some {
        definition_error(defs, from)
    } else {
        definitions_error(defs, from + 1)
    }
}

/// A definition as a JSON object.
pub open spec fn tool_json(d: ToolView) -> JsonView {
    JsonView::Object(
        seq![
            ("description"@, JsonView::Text(d.description)),
            ("input_schema"@, d.input_schema),
            ("name"@, JsonView::Text(d.name)),
        ],
    )
}

/// The definitions as a JSON list.
pub open spec fn tools_json(defs: Seq<ToolView>) -> JsonView {
    JsonView::List(Seq::new(defs.len(), |i: int| tool_json(defs[i])))
}

/// The definitions that are stored: not too many, each in order, and not too
/// long, where `length` is the number of bytes of their text.
pub open spec fn stored_definitions(
    defs: Seq<ToolView>,
    max_count: nat,
    length: nat,
    max_length: nat,
) -> Result<JsonView, ErrorView> {
    if defs.len() > max_count {
        refused(Status::BadRequest, "too many Client Tools"@)
    } else {
        match definitions_error(defs, 0) {
            Some(message) => refused(Status::BadRequest, message),
            None => if length > max_length {
                refused(Status::BadRequest, "Client Tool definitions are too large"@)
            } else {
                Ok(tools_json(defs))
            },
        }
    }
}

fn is_tool_name(name: &str) -> (r: bool)
    ensures
        r == valid_tool_name(name@),
{
    let chars = chars_of(name);
    if chars.len() == 0 || byte_len(name) > 64 {
        return false;
    }
    let mut i: usize = 0;
    while i < chars.len()
        invariant
            i <= chars@.len(),
            chars@ == name@,
            forall|k: int| 0 <= k < i ==> tool_char(#[trigger] chars@[k]),
        decreases chars@.len() - i,
    {
        let c = chars[i];
        if !(alphanumeric(c) || c == '_' || c == '-') {
            assert(!tool_char(chars@[i as int]));
            return false;
        }
        i = i + 1;
    }
    true
}

fn is_named_before(defs: &Vec<ClientToolDefinition>, n: usize, name: &str) -> (r: bool)
    requires
        n <= defs@.len(),
    ensures
        r == named_before(tool_views(defs@), n as int, name@),
{
    let mut k: usize = 0;
    while k < n
        invariant
            k <= n <= defs@.len(),
            forall|j: int| 0 <= j < k ==> (#[trigger] tool_views(defs@)[j]).name != name@,
        decreases n - k,
    {
        if same(defs[k].name.as_str(), name) {
            assert(tool_views(defs@)[k as int].name == name@);
            return true;
        }
        k = k + 1;
    }
    false
}

fn check_definition(defs: &Vec<ClientToolDefinition>, i: usize) -> (r: Result<(), ApiError>)
    requires
        i < defs@.len(),
    ensures
        match r {
            Ok(_) => definition_error(tool_views(defs@), i as int) is None,
            Err(e) => definition_error(tool_views(defs@), i as int) is Some && e@ == error_of(
                Status::BadRequest,
                definition_error(tool_views(defs@), i as int)->0,
            ),
        },
{
    let d = &defs[i];
    assert(tool_views(defs@)[i as int] == d@);
    if !is_tool_name(d.name.as_str()) || is_named_before(defs, i, d.name.as_str()) {
        return Err(
            ApiError::bad_request(
                "Client Tool names must be unique and contain only letters, digits, '_' or '-'",
            ),
        );
    }
    if is_blank(d.description.as_str()) {
        return Err(ApiError::bad_request("Client Tool description is required"));
    }
    if !d.input_schema.is_object() {
        return Err(ApiError::bad_request("Client Tool input_schema must be a JSON object"));
    }
    let typed = match d.input_schema.text_field("type") {
        Some(t) => same(t, "object"),
        None => false,
    };
    if !typed {
        return Err(ApiError::bad_request("Client Tool input_schema type must be object"));
    }
    Ok(())
}

/// The definitions as a JSON list.
pub fn client_tools_json(defs: &Vec<ClientToolDefinition>) -> (r: Json)
    ensures
        r@ == tools_json(tool_views(defs@)),
{
    let mut out: Vec<Json> = Vec::new();
    let mut i: usize = 0;
    while i < defs.len()
        invariant
            i <= defs@.len(),
            i == out@.len(),
            forall|k: int| 0 <= k < i ==> (#[trigger] out@[k])@ == tool_json(defs@[k]@),
        decreases defs@.len() - i,
    {
        let d = &defs[i];
        let description = Json::Text(d.description.clone());
        let schema = copy_json(&d.input_schema);
        let name = Json::Text(d.name.clone());
        assert(description@ == JsonView::Text(d.description@));
        assert(name@ == JsonView::Text(d.name@));
        let fields = vec![
            ("description".to_owned(), description),
            ("input_schema".to_owned(), schema),
            ("name".to_owned(), name),
        ];
        let item = Json::Object(fields);
        assert(item@->Object_0 =~= tool_json(d@)->Object_0);
        out.push(item);
        i = i + 1;
    }
    let r = Json::List(out);
    assert(r@->List_0 =~= tools_json(tool_views(defs@))->List_0);
    r
}

/// The definitions that are stored, given the number of bytes of their text.
pub fn check_client_tool_definitions(
    definitions: &Vec<ClientToolDefinition>,
    max_count: usize,
    length: usize,
    max_length: usize,
) -> (r: Result<Json, ApiError>)
    ensures
        seen(r) == stored_definitions(
            tool_views(definitions@),
            max_count as nat,
            length as nat,
            max_length as nat,
        ),
{
    if definitions.len() > max_count {
        return Err(ApiError::bad_request("too many Client Tools"));
    }
    let ghost defs = tool_views(definitions@);
    let mut i: usize = 0;
    while i < definitions.len()
        invariant
            i <= definitions@.len(),
            defs == tool_views(definitions@),
            definitions_error(defs, 0) == definitions_error(defs, i as int),
            definitions@.len() <= max_count,
        decreases definitions@.len() - i,
    {
        match check_definition(definitions, i) {
            Ok(_) => {},
            Err(e) => {
                return Err(e);
            },
        }
        i = i + 1;
    }
    if length > max_length {
        return Err(ApiError::bad_request("Client Tool definitions are too large"));
    }
    Ok(client_tools_json(definitions))
}

/// The definitions that are stored of the tools that a client offers, or what
/// is wrong with them.
pub fn validate_client_tool_definitions(
    definitions: &Vec<ClientToolDefinition>,
    max_count: usize,
    max_length: usize,
) -> (r: Result<Json, ApiError>)
    ensures
        seen(r) == stored_definitions(
            tool_views(definitions@),
            max_count as nat,
            byte_count(json_text_of(tools_json(tool_views(definitions@)))),
            max_length as nat,
        ),
{
    let json = client_tools_json(definitions);
    let text = json_text(&json);
    let length: usize = byte_len(text.as_str());
    check_client_tool_definitions(definitions, max_count, length, max_length)
}

/// The names of accepted definitions are all different.
pub proof fn accepted_tools_have_distinct_names(
    defs: Seq<ToolView>,
    max_count: nat,
    length: nat,
    max_length: nat,
    i: int,
    j: int,
)
    requires
        stored_definitions(defs, max_count, length, max_length) is Ok,
        0 <= i < j < defs.len(),
    ensures
        defs[i].name != defs[j].name,
        valid_tool_name(defs[i].name),
{
    lemma_no_definition_error(defs, 0, i);
    lemma_no_definition_error(defs, 0, j);
}

proof fn lemma_no_definition_error(defs: Seq<ToolView>, from: int, i: int)
    requires
        definitions_error(defs, from) is None,
        0 <= from <= i < defs.len(),
    ensures
        definition_error(defs, i) is None,
    decreases defs.len() - from,
{
    if from < i {
        lemma_no_definition_error(defs, from + 1, i);
    }
}

/// A list of tool definitions names this tool.
pub open spec fn tool_registered(tools: JsonView, name: Seq<char>) -> bool {
    match tools.items() {
        Some(items) => exists|i: int|
            0 <= i < items.len() && (#[trigger] items[i]).text_field("name"@) == Some(name),
        None => false,
    }
}

/// Tells whether a list of tool definitions names this tool.
pub fn is_tool_registered(tools: &Json, name: &str) -> (r: bool)
    ensures
        r == tool_registered(tools@, name@),
{
    match tools {
        Json::List(items) => {
            let ghost all = tools@->List_0;
            let mut i: usize = 0;
            while i < items.len()
                invariant
                    i <= items@.len(),
                    *tools == Json::List(*items),
                    all == tools@->List_0,
                    all.len() == items@.len(),
                    forall|k: int|
                        0 <= k < i ==> (#[trigger] all[k]).text_field("name"@) != Some(name@),
                decreases items@.len() - i,
            {
                assert(all[i as int] == items@[i as int]@);
                let found = match items[i].text_field("name") {
                    Some(n) => same(n, name),
                    None => false,
                };
                if found {
                    return true;
                }
                i = i + 1;
            }
            false
        },
        _ => false,
    }
}

// ---------------------------------------------------------------------------
// Tools, attachments and results of integrations
// ---------------------------------------------------------------------------

/// A list of tools names each of them.
pub open spec fn tools_named(items: Seq<JsonView>, from: int) -> bool {
    forall|i: int|
        from <= i < items.len() ==> match (#[trigger] items[i]).text_field("name"@) {
            Some(name) => !blank(name),
            None => false,
        }
}

/// The tools of a session: a list whose entries all have names.
pub open spec fn tool_definitions_validity(tools: JsonView) -> Result<(), ErrorView> {
    match tools.items() {
        None => refused(Status::BadRequest, "tools must be an array"@),
        Some(items) => if tools_named(items, 0) {
            Ok(())
        } else {
            refused(Status::BadRequest, "tool name is required"@)
        },
    }
}

/// Accepts the tools of a session.
pub fn validate_tool_definitions(tools: &Json) -> (r: Result<(), ApiError>)
    ensures
        plain(r) == tool_definitions_validity(tools@),
{
    match tools {
        Json::List(items) => {
            let ghost all = tools@->List_0;
            let mut i: usize = 0;
            while i < items.len()
                invariant
                    i <= items@.len(),
                    *tools == Json::List(*items),
                    all == tools@->List_0,
                    all.len() == items@.len(),
                    forall|k: int|
                        0 <= k < i ==> match (#[trigger] all[k]).text_field("name"@) {
                            Some(name) => !blank(name),
                            None => false,
                        },
                decreases items@.len() - i,
            {
                assert(all[i as int] == items@[i as int]@);
                let named = match items[i].text_field("name") {
                    Some(name) => !is_blank(name),
                    None => false,
                };
                if !named {
                    assert(!tools_named(all, 0));
                    return Err(ApiError::bad_request("tool name is required"));
                }
                i = i + 1;
            }
            Ok(())
        },
        _ => Err(ApiError::bad_request("tools must be an array")),
    }
}

/// What is wrong with an attachment, if anything.
pub open spec fn attachment_error(a: JsonView) -> Option<Seq<char>> {
    let kind = a.text_field("kind"@);
    let name = a.text_field("name"@);
    let size = a.integer_field("size_bytes"@).unwrap_or(0);
    if kind is None {
        Some("attachment kind is required"@)
    } else if kind->0 != "text"@ && kind->0 != "url"@ {
        Some("unsupported attachment kind"@)
    } else if name is None || blank(name->0) {
        Some("attachment name is required"@)
    } else if !(0 <= size <= 64_000) {
        Some("attachment is too large"@)
    } else if kind->0 == "text"@ {
        match a.text_field("text"@) {
            None => Some("text attachment content is required"@),
            Some(text) => if byte_count(text) > 16_000 {
                Some("text attachment is too large"@)
            } else {
                None
            },
        }
    } else {
        match a.text_field("url"@) {
            None => Some("url attachment url is required"@),
            Some(url) => if "http://"@.is_prefix_of(url) || "https://"@.is_prefix_of(url) {
                None
            } else {
                Some("attachment url must be http or https"@)
            },
        }
    }
}

/// The first thing that is wrong with the attachments from `from` on.
pub open spec fn attachments_error(items: Seq<JsonView>, from: int) -> Option<Seq<char>>
    decreases items.len() - from,
{
    if from >= items.len() {
        None
    } else if attachment_error(items[from]) is Some {
        attachment_error(items[from])
    } else {
        attachments_error(items, from + 1)
    }
}

/// The attachments of a message: a list of at most five.
pub open spec fn attachments_validity(attachments: JsonView) -> Result<(), ErrorView> {
    match attachments.items() {
        None => refused(Status::BadRequest, "attachments must be an array"@),
        Some(items) => if items.len() > 5 {
            refused(Status::BadRequest, "too many attachments"@)
        } else {
            match attachments_error(items, 0) {
                Some(message) => refused(Status::BadRequest, message),
                None => Ok(()),
            }
        },
    }
}

fn check_attachment(a: &Json) -> (r: Result<(), ApiError>)
    ensures
        match r {
            Ok(_) => attachment_error(a@) is None,
            Err(e) => attachment_error(a@) is Some && e@ == error_of(
                Status::BadRequest,
                attachment_error(a@)->0,
            ),
        },
{
    let kind = match a.text_field("kind") {
        Some(kind) => kind,
        None => {
            return Err(ApiError::bad_request("attachment kind is required"));
        },
    };
    let is_text = same(kind, "text");
    if !is_text && !same(kind, "url") {
        return Err(ApiError::bad_request("unsupported attachment kind"));
    }
    let named = match a.text_field("name") {
        Some(name) => !is_blank(name),
        None => false,
    };
    if !named {
        return Err(ApiError::bad_request("attachment name is required"));
    }
    let size: i64 = a.integer_field("size_bytes").unwrap_or(0);
    if size < 0 || size > 64_000 {
        return Err(ApiError::bad_request("attachment is too large"));
    }
    if is_text {
        match a.text_field("text") {
            Some(text) => {
                if byte_len(text) > 16_000 {
                    return Err(ApiError::bad_request("text attachment is too large"));
                }
            },
            None => {
                return Err(ApiError::bad_request("text attachment content is required"));
            },
        }
    } else {
        match a.text_field("url") {
            Some(url) => {
                if !(starts_with(url, "http://") || starts_with(url, "https://")) {
                    return Err(ApiError::bad_request("attachment url must be http or https"));
                }
            },
            None => {
                return Err(ApiError::bad_request("url attachment url is required"));
            },
        }
    }
    Ok(())
}

/// Accepts the attachments of a message, or says what is wrong with them.
pub fn validate_integration_attachments(attachments: &Json) -> (r: Result<(), ApiError>)
    ensures
        plain(r) == attachments_validity(attachments@),
{
    match attachments {
        Json::List(items) => {
            if items.len() > 5 {
                return Err(ApiError::bad_request("too many attachments"));
            }
            let ghost all = attachments@->List_0;
            let mut i: usize = 0;
            while i < items.len()
                invariant
                    i <= items@.len() <= 5,
                    *attachments == Json::List(*items),
                    all == attachments@->List_0,
                    all.len() == items@.len(),
                    attachments_error(all, 0) == attachments_error(all, i as int),
                decreases items@.len() - i,
            {
                assert(all[i as int] == items@[i as int]@);
                match check_attachment(&items[i]) {
                    Ok(_) => {},
                    Err(e) => {
                        return Err(e);
                    },
                }
                i = i + 1;
            }
            Ok(())
        },
        _ => Err(ApiError::bad_request("attachments must be an array")),
    }
}

/// What is stored of an attachment.
#[derive(Debug)]
pub struct AttachmentRow {
    pub kind: String,
    pub name: String,
    pub content_type: String,
    pub size_bytes: i64,
    pub text: Option<String>,
    pub url: Option<String>,
}

/// What an `AttachmentRow` holds.
pub struct AttachmentView {
    pub kind: Seq<char>,
    pub name: Seq<char>,
    pub content_type: Seq<char>,
    pub size_bytes: int,
    pub text: Option<Seq<char>>,
    pub url: Option<Seq<char>>,
}

impl View for AttachmentRow {
    type V = AttachmentView;

    open spec fn view(&self) -> AttachmentView {
        AttachmentView {
            kind: self.kind@,
            name: self.name@,
            content_type: self.content_type@,
            size_bytes: self.size_bytes as int,
            text: opt_view(self.text),
            url: opt_view(self.url),
        }
    }
}

/// What is stored of an attachment: what it says, with defaults where it says
/// nothing; a text without a size counts its own bytes.
pub open spec fn attachment_row(a: JsonView) -> AttachmentView {
    AttachmentView {
        kind: a.text_field("kind"@).unwrap_or("text"@),
        name: a.text_field("name"@).unwrap_or("attachment"@),
        content_type: a.text_field("content_type"@).unwrap_or("text/plain"@),
        size_bytes: match a.integer_field("size_bytes"@) {
            Some(size) => size as int,
            None => match a.text_field("text"@) {
                Some(text) => byte_count(text) as int,
                None => 0,
            },
        },
        text: a.text_field("text"@),
        url: a.text_field("url"@),
    }
}

fn text_or(value: Option<&str>, default: &str) -> (r: String)
    ensures
        r@ == opt_text(value).unwrap_or(default@),
{
    match value {
        Some(v) => v.to_owned(),
        None => default.to_owned(),
    }
}

fn owned(value: Option<&str>) -> (r: Option<String>)
    ensures
        opt_view(r) == opt_text(value),
{
    match value {
        Some(v) => Some(v.to_owned()),
        None => None,
    }
}

/// What is stored of an attachment.
pub fn attachment_to_store(a: &Json) -> (r: AttachmentRow)
    requires
        a@.text_field("text"@) is Some ==> byte_count(a@.text_field("text"@)->0) <= i64::MAX,
    ensures
        r@ == attachment_row(a@),
{
    let size_bytes: i64 = match a.integer_field("size_bytes") {
        Some(size) => size,
        None => match a.text_field("text") {
            Some(text) => byte_len(text) as i64,
            None => 0,
        },
    };
    AttachmentRow {
        kind: text_or(a.text_field("kind"), "text"),
        name: text_or(a.text_field("name"), "attachment"),
        content_type: text_or(a.text_field("content_type"), "text/plain"),
        size_bytes,
        text: owned(a.text_field("text")),
        url: owned(a.text_field("url")),
    }
}

/// The result of a tool: something, in at most 16000 bytes of text.
pub open spec fn tool_result_validity(result: JsonView, length: nat) -> Result<(), ErrorView> {
    if result is Null {
        refused(Status::BadRequest, "tool result is required"@)
    } else if length > 16_000 {
        refused(Status::BadRequest, "tool result is too large"@)
    } else {
        Ok(())
    }
}

/// Accepts the result of a tool, given the number of bytes of its text.
pub fn check_tool_result(result: &Json, length: usize) -> (r: Result<(), ApiError>)
    ensures
        plain(r) == tool_result_validity(result@, length as nat),
{
    if result.is_null() {
        return Err(ApiError::bad_request("tool result is required"));
    }
    if length > 16_000 {
        return Err(ApiError::bad_request("tool result is too large"));
    }
    Ok(())
}

/// Accepts the result of a tool.
pub fn validate_tool_result(result: &Json) -> (r: Result<(), ApiError>)
    ensures
        plain(r) == tool_result_validity(result@, byte_count(json_text_of(result@))),
{
    let text = json_text(result);
    check_tool_result(result, byte_len(text.as_str()))
}

/// Tools are enabled where at least one is named, none twice, and all are
/// known; what is enabled is what was named, in the order of the known ones.
pub proof fn tools_are_enabled_by_name(value: Seq<Seq<char>>, known: Seq<Seq<char>>)
    ensures
        tool_allowlist(value, known) is Ok <==> {
            &&& value.len() > 0
            &&& forall|i: int, j: int|
                0 <= i < j < value.len() ==> trimmed(#[trigger] value[i]) != trimmed(
                    #[trigger] value[j],
                )
            &&& forall|i: int| 0 <= i < value.len() ==> known.contains(trimmed(#[trigger] value[i]))
        },
        tool_allowlist(value, known) matches Err(e) ==> e.status == Status::BadRequest,
{
    let names = all_trimmed(value);
    if tool_allowlist(value, known) is Ok {
        assert forall|i: int, j: int| 0 <= i < j < value.len() implies trimmed(#[trigger] value[i])
            != trimmed(#[trigger] value[j]) by {
            assert(names[i] != names[j]);
        }
        assert forall|i: int| 0 <= i < value.len() implies known.contains(
            trimmed(#[trigger] value[i]),
        ) by {
            assert(known.contains(names[i]));
        }
    }
    if value.len() > 0 && (forall|i: int, j: int|
        0 <= i < j < value.len() ==> trimmed(#[trigger] value[i]) != trimmed(#[trigger] value[j]))
        && (forall|i: int| 0 <= i < value.len() ==> known.contains(trimmed(#[trigger] value[i]))) {
        assert(names.no_duplicates()) by {
            assert forall|i: int, j: int|
                0 <= i < names.len() && 0 <= j < names.len() && i != j implies names[i]
                != names[j] by {
                if i < j {
                    assert(trimmed(value[i]) != trimmed(value[j]));
                } else {
                    assert(trimmed(value[j]) != trimmed(value[i]));
                }
            }
        }
        assert forall|i: int| 0 <= i < names.len() implies known.contains(#[trigger] names[i]) by {
            assert(known.contains(trimmed(value[i])));
        }
    }
}

/// An application restricts its agents: each of its tools must be one of
/// theirs, and fewer tools always do.
pub proof fn applications_take_tools_from_their_agents(
    tools: Seq<Seq<char>>,
    agent_tools: Seq<Seq<char>>,
    more: Seq<char>,
)
    ensures
        app_tools_check(seq![], agent_tools) is Ok,
        app_tools_check(agent_tools, agent_tools) is Ok,
        app_tools_check(tools.push(more), agent_tools) is Ok <==> app_tools_check(
            tools,
            agent_tools,
        ) is Ok && agent_tools.contains(more),
        app_tools_check(tools, agent_tools) matches Err(e) ==> e.status == Status::BadRequest,
{
    let all = tools.push(more);
    if tools_within(all, agent_tools) {
        assert forall|i: int| 0 <= i < tools.len() implies agent_tools.contains(
            #[trigger] tools[i],
        ) by {
            assert(all[i] == tools[i]);
        }
        assert(all[tools.len() as int] == more);
    }
    if tools_within(tools, agent_tools) && agent_tools.contains(more) {
        assert forall|i: int| 0 <= i < all.len() implies agent_tools.contains(#[trigger] all[i]) by {
            if i < tools.len() {
                assert(all[i] == tools[i]);
            }
        }
    }
    assert forall|i: int| 0 <= i < agent_tools.len() implies agent_tools.contains(
        #[trigger] agent_tools[i],
    ) by {}
}

/// A widget for everyone is set up by an administrator, for pages that are
/// listed, with one agent, without history, and with tools that do no harm;
/// one that asks for a login is set up freely.
pub proof fn widgets_for_everyone_are_restricted(
    login_required: bool,
    history: bool,
    origins: nat,
    tools: Option<Seq<Seq<char>>>,
    public_tools: Seq<Seq<char>>,
    agents: nat,
    role: Role,
)
    ensures
        public_widget(login_required, history, origins, tools, public_tools, agents, role) is Ok
            <==> login_required || {
            &&& role == Role::Admin || role == Role::SuperAdmin
            &&& origins >= 1
            &&& !history
            &&& agents == 1
            &&& tools is Some ==> forall|i: int|
                0 <= i < tools->0.len() ==> public_tools.contains(#[trigger] tools->0[i])
        },
        public_app(login_required, origins, tools, public_tools) is Ok <==> {
            &&& !login_required
            &&& origins >= 1
            &&& tools is Some ==> forall|i: int|
                0 <= i < tools->0.len() ==> public_tools.contains(#[trigger] tools->0[i])
        },
        login_required ==> public_app(login_required, origins, tools, public_tools)->Err_0.status
            == Status::NotFound,
        !login_required ==> (public_app(login_required, origins, tools, public_tools) matches Err(e)
            ==> e.status == Status::Conflict),
        !login_required && (role == Role::Admin || role == Role::SuperAdmin) ==> (public_widget(
            login_required,
            history,
            origins,
            tools,
            public_tools,
            agents,
            role,
        ) matches Err(e) ==> e.status == Status::BadRequest),
        !login_required && role == Role::Member ==> public_widget(
            login_required,
            history,
            origins,
            tools,
            public_tools,
            agents,
            role,
        )->Err_0.status == Status::Forbidden,
{
}

proof fn lemma_definitions_error(defs: Seq<ToolView>, from: int)
    requires
        0 <= from <= defs.len(),
    ensures
        definitions_error(defs, from) is None <==> forall|i: int|
            from <= i < defs.len() ==> #[trigger] definition_error(defs, i) is None,
    decreases defs.len() - from,
{
    if from < defs.len() {
        lemma_definitions_error(defs, from + 1);
        assert(definition_error(defs, from) is None || definition_error(defs, from) is Some);
    }
}

/// A tool of a client has a name of letters, digits, hyphens and underscores
/// that is its own, a description, and the schema of an object; a list of such
/// tools that is not too long is stored as it is.
pub proof fn client_tools_are_described(
    defs: Seq<ToolView>,
    max_count: nat,
    length: nat,
    max_length: nat,
)
    ensures
        stored_definitions(defs, max_count, length, max_length) is Ok <==> {
            &&& defs.len() <= max_count
            &&& length <= max_length
            &&& forall|i: int|
                0 <= i < defs.len() ==> {
                    &&& 1 <= (#[trigger] defs[i]).name.len()
                    &&& byte_count(defs[i].name) <= 64
                    &&& forall|k: int|
                        0 <= k < defs[i].name.len() ==> is_alphanumeric(
                            #[trigger] defs[i].name[k],
                        ) || defs[i].name[k] == '_' || defs[i].name[k] == '-'
                    &&& !blank(defs[i].description)
                    &&& defs[i].input_schema is Object
                    &&& defs[i].input_schema.text_field("type"@) == Some("object"@)
                }
            &&& forall|i: int, j: int|
                0 <= i < j < defs.len() ==> (#[trigger] defs[i]).name != (#[trigger] defs[j]).name
        },
        stored_definitions(defs, max_count, length, max_length) matches Ok(stored) ==> stored
            is List && stored->List_0.len() == defs.len() && forall|i: int|
            0 <= i < defs.len() ==> (#[trigger] stored->List_0[i]).text_field("name"@) == Some(
                defs[i].name,
            ),
        stored_definitions(defs, max_count, length, max_length) matches Err(e) ==> e.status
            == Status::BadRequest,
{
    lemma_definitions_error(defs, 0);
    if definitions_error(defs, 0) is None {
        assert forall|i: int| 0 <= i < defs.len() implies {
            &&& 1 <= (#[trigger] defs[i]).name.len()
            &&& byte_count(defs[i].name) <= 64
            &&& forall|k: int|
                0 <= k < defs[i].name.len() ==> is_alphanumeric(#[trigger] defs[i].name[k])
                    || defs[i].name[k] == '_' || defs[i].name[k] == '-'
            &&& !blank(defs[i].description)
            &&& defs[i].input_schema is Object
            &&& defs[i].input_schema.text_field("type"@) == Some("object"@)
        } by {
            assert(definition_error(defs, i) is None);
            assert forall|k: int| 0 <= k < defs[i].name.len() implies is_alphanumeric(
                #[trigger] defs[i].name[k],
            ) || defs[i].name[k] == '_' || defs[i].name[k] == '-' by {
                assert(tool_char(defs[i].name[k]));
            }
        }
        assert forall|i: int, j: int| 0 <= i < j < defs.len() implies (#[trigger] defs[i]).name != (
        #[trigger] defs[j]).name by {
            assert(definition_error(defs, j) is None);
        }
    }
    if (forall|i: int|
        0 <= i < defs.len() ==> {
            &&& 1 <= (#[trigger] defs[i]).name.len()
            &&& byte_count(defs[i].name) <= 64
            &&& forall|k: int|
                0 <= k < defs[i].name.len() ==> is_alphanumeric(#[trigger] defs[i].name[k])
                    || defs[i].name[k] == '_' || defs[i].name[k] == '-'
            &&& !blank(defs[i].description)
            &&& defs[i].input_schema is Object
            &&& defs[i].input_schema.text_field("type"@) == Some("object"@)
        }) && (forall|i: int, j: int|
        0 <= i < j < defs.len() ==> (#[trigger] defs[i]).name != (#[trigger] defs[j]).name) {
        assert forall|i: int| 0 <= i < defs.len() implies #[trigger] definition_error(defs, i)
            is None by {
            assert(valid_tool_name(defs[i].name));
            assert(!named_before(defs, i, defs[i].name));
        }
    }
    assert forall|i: int| 0 <= i < defs.len() implies (#[trigger] tools_json(
        defs,
    )->List_0[i]).text_field("name"@) == Some(defs[i].name) by {
        lemma_tool_name(defs[i]);
    }
}

proof fn lemma_tool_name(d: ToolView)
    ensures
        tool_json(d).text_field("name"@) == Some(d.name),
{
    reveal_strlit("description");
    reveal_strlit("input_schema");
    reveal_strlit("name");
    let fields = tool_json(d)->Object_0;
    assert(fields[0].0.len() == 11 && fields[1].0.len() == 12 && fields[2].0.len() == 4);
    reveal_with_fuel(crate::json::field_from, 4);
}

/// The tools that are stored are just those that are registered.
pub proof fn stored_tools_are_registered(defs: Seq<ToolView>, name: Seq<char>)
    ensures
        tool_registered(tools_json(defs), name) <==> exists|i: int|
            0 <= i < defs.len() && (#[trigger] defs[i]).name == name,
        !tool_registered(JsonView::Null, name),
{
    let items = tools_json(defs)->List_0;
    assert forall|i: int| 0 <= i < items.len() implies (#[trigger] items[i]).text_field("name"@)
        == Some(defs[i].name) by {
        lemma_tool_name(defs[i]);
    }
    if exists|i: int| 0 <= i < defs.len() && (#[trigger] defs[i]).name == name {
        let i = choose|i: int| 0 <= i < defs.len() && (#[trigger] defs[i]).name == name;
        assert(items[i].text_field("name"@) == Some(name));
    }
    if tool_registered(tools_json(defs), name) {
        let i = choose|i: int|
            0 <= i < items.len() && (#[trigger] items[i]).text_field("name"@) == Some(name);
        assert(defs[i].name == name);
    }
}

/// Tools of an application are accepted where they are a list and each has a
/// name.
pub proof fn tools_need_a_name(items: Seq<JsonView>, tool: JsonView, value: JsonView)
    ensures
        tool_definitions_validity(JsonView::List(seq![])) is Ok,
        tool_definitions_validity(JsonView::List(items.push(tool))) is Ok
            <==> tool_definitions_validity(JsonView::List(items)) is Ok && tool.text_field(
            "name"@,
        ) is Some && !blank(tool.text_field("name"@)->0),
        !(value is List) ==> tool_definitions_validity(value) is Err,
{
    let all = items.push(tool);
    if tools_named(all, 0) {
        assert forall|i: int| 0 <= i < items.len() implies (match (#[trigger] items[i]).text_field(
            "name"@,
        ) {
            Some(name) => !blank(name),
            None => false,
        }) by {
            assert(all[i] == items[i]);
        }
        assert(all[items.len() as int] == tool);
    }
    if tools_named(items, 0) && tool.text_field("name"@) is Some && !blank(
        tool.text_field("name"@)->0,
    ) {
        assert forall|i: int| 0 <= i < all.len() implies (match (#[trigger] all[i]).text_field(
            "name"@,
        ) {
            Some(name) => !blank(name),
            None => false,
        }) by {
            if i < items.len() {
                assert(all[i] == items[i]);
            }
        }
    }
}

/// An attachment is a text that is not too long, or the address of something
/// on the web; it has a name and is not too large.
pub proof fn attachments_are_texts_or_addresses(a: JsonView)
    ensures
        attachment_error(a) is None <==> {
            &&& a.text_field("name"@) is Some && !blank(a.text_field("name"@)->0)
            &&& a.integer_field("size_bytes"@) is Some ==> 0 <= a.integer_field("size_bytes"@)->0
                <= 64_000
            &&& (a.text_field("kind"@) == Some("text"@) && a.text_field("text"@) is Some
                && byte_count(a.text_field("text"@)->0) <= 16_000) || (a.text_field("kind"@)
                == Some("url"@) && a.text_field("url"@) is Some && ("http://"@.is_prefix_of(
                a.text_field("url"@)->0,
            ) || "https://"@.is_prefix_of(a.text_field("url"@)->0)))
        },
{
    reveal_strlit("text");
    reveal_strlit("url");
    assert("text"@.len() == 4 && "url"@.len() == 3);
}

/// At most five attachments come with a message, each of them acceptable.
pub proof fn attachments_come_in_small_numbers(attachments: JsonView)
    ensures
        attachments_validity(attachments) is Ok <==> attachments is List
            && attachments->List_0.len() <= 5 && forall|i: int|
            0 <= i < attachments->List_0.len() ==> attachment_error(
                #[trigger] attachments->List_0[i],
            ) is None,
        attachments_validity(attachments) matches Err(e) ==> e.status == Status::BadRequest,
{
    if attachments is List {
        lemma_attachments_error(attachments->List_0, 0);
    }
}

proof fn lemma_attachments_error(items: Seq<JsonView>, from: int)
    requires
        0 <= from <= items.len(),
    ensures
        attachments_error(items, from) is None <==> forall|i: int|
            from <= i < items.len() ==> attachment_error(#[trigger] items[i]) is None,
    decreases items.len() - from,
{
    if from < items.len() {
        lemma_attachments_error(items, from + 1);
        assert(attachment_error(items[from]) is None || attachment_error(items[from]) is Some);
    }
}

/// An attachment is stored as it came, and what it did not say is what it most
/// likely is; the size of a text is that of its bytes.
pub proof fn attachments_are_stored_as_they_came(a: JsonView)
    ensures
        attachment_row(a).text == a.text_field("text"@),
        attachment_row(a).url == a.text_field("url"@),
        a.text_field("kind"@) is Some ==> attachment_row(a).kind == a.text_field("kind"@)->0,
        a.text_field("name"@) is Some ==> attachment_row(a).name == a.text_field("name"@)->0,
        a.text_field("content_type"@) is Some ==> attachment_row(a).content_type == a.text_field(
            "content_type"@,
        )->0,
        a.integer_field("size_bytes"@) is Some ==> attachment_row(a).size_bytes
            == a.integer_field("size_bytes"@)->0,
        a.integer_field("size_bytes"@) is None && a.text_field("text"@) is Some
            ==> attachment_row(a).size_bytes == byte_count(a.text_field("text"@)->0),
        attachment_error(a) is None && a.integer_field("size_bytes"@) is Some ==> 0
            <= attachment_row(a).size_bytes <= 64_000,
{
}

/// A result of a tool says something, and not too much.
pub proof fn results_say_something(result: JsonView, length: nat)
    ensures
        tool_result_validity(result, length) is Ok <==> !(result is Null) && length <= 16_000,
        tool_result_validity(result, length) matches Err(e) ==> e.status == Status::BadRequest,
{
}

/// Tools that are no list, or have no names, are the request's own fault.
pub proof fn unnamed_tools_are_refused(value: JsonView)
    ensures
        tool_definitions_validity(value) matches Err(e) ==> e.status == Status::BadRequest,
{
}

} // verus!
