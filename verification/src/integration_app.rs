//! Applications that owners register: what is accepted of one, and which of
//! its agents are there.

use crate::error::{error_of, plain, refused, ApiError, ErrorView, Status};
use crate::identity::Role;
use crate::ids::Id;
use crate::json::{json_text_of, list_of_texts, read_texts, Json, JsonView};
use crate::oauth::{app_validity, validate_integration_app_payload};
use crate::text::{byte_count, trim, trimmed, views};
use crate::tool_batch::json_views;
use crate::tools::{
    app_tools_check, check_app_tools, normalize_agent_tool_allowlist, opt_views, public_widget, stored_definitions, tool_allowlist,
    tool_views, tools_json, tools_within, validate_client_tool_definitions, validate_public_widget_settings,
    ClientToolDefinition,
};
use crate::web::{lists_origins, normalize_allowed_origins, origin_entry, origins_error};
use vstd::prelude::*;

verus! {

/// What an owner says of an application.
#[derive(Debug)]
pub struct AppRequest {
    pub name: String,
    pub redirect_uris: Json,
    pub agent_ids: Vec<Id>,
    pub allowed_origins: Vec<String>,
    pub tool_allowlist: Option<Vec<String>>,
    pub client_tools: Vec<ClientToolDefinition>,
    pub login_required: bool,
    pub history_enabled: bool,
}

/// What the hub allows: its tools, its read-only tools, and how many and how
/// large the tools of a client may be.
#[derive(Debug)]
pub struct ToolLimits {
    pub known: Vec<String>,
    pub public: Vec<String>,
    pub max_client_tools: usize,
    pub max_client_tool_bytes: usize,
}

/// What is stored of an application.
#[derive(Debug)]
pub struct AppFields {
    pub name: String,
    pub allowed_origins: Vec<String>,
    pub tool_allowlist: Option<Vec<String>>,
    pub client_tools: Json,
}

/// The tools that an application leaves its agents, if it chooses any.
pub open spec fn app_tools(tools: Option<Seq<Seq<char>>>, known: Seq<Seq<char>>) -> Result<
    Option<Seq<Seq<char>>>,
    ErrorView,
> {
    match tools {
        None => Ok(None),
        Some(list) => match tool_allowlist(list, known) {
            Ok(tools) => Ok(Some(tools)),
            Err(e) => Err(e),
        },
    }
}

/// The definitions of the client's tools that are stored.
pub open spec fn app_definitions(req: AppRequest, limits: ToolLimits) -> Result<
    JsonView,
    ErrorView,
> {
    stored_definitions(
        tool_views(req.client_tools@),
        limits.max_client_tools as nat,
        byte_count(json_text_of(tools_json(tool_views(req.client_tools@)))),
        limits.max_client_tool_bytes as nat,
    )
}

/// What is wrong with an application, if anything.
pub open spec fn app_error(req: AppRequest, limits: ToolLimits, role: Role) -> Option<ErrorView> {
    let valid = app_validity(req.name@, req.redirect_uris@, req.agent_ids@);
    let tools = app_tools(opt_views(req.tool_allowlist), views(limits.known@));
    let definitions = app_definitions(req, limits);
    if valid is Err {
        Some(valid->Err_0)
    } else if origins_error(views(req.allowed_origins@), 0) is Some {
        origins_error(views(req.allowed_origins@), 0)
    } else if tools is Err {
        Some(tools->Err_0)
    } else if definitions is Err {
        Some(definitions->Err_0)
    } else {
        let settings = public_widget(
            req.login_required,
            req.history_enabled,
            req.allowed_origins@.len(),
            tools->Ok_0,
            views(limits.public@),
            req.agent_ids@.len(),
            role,
        );
        if settings is Err {
            Some(settings->Err_0)
        } else {
            None
        }
    }
}

/// What is stored of an application.
pub open spec fn app_stored(fields: AppFields, req: AppRequest, limits: ToolLimits) -> bool {
    &&& fields.name@ == trimmed(req.name@)
    &&& lists_origins(views(fields.allowed_origins@), views(req.allowed_origins@))
    &&& app_tools(opt_views(req.tool_allowlist), views(limits.known@)) == Ok::<
        Option<Seq<Seq<char>>>,
        ErrorView,
    >(opt_views(fields.tool_allowlist))
    &&& app_definitions(req, limits) == Ok::<JsonView, ErrorView>(fields.client_tools@)
}

/// An accepted list of origins is empty just where its source is.
proof fn lemma_some_origin(origins: Seq<Seq<char>>, raw: Seq<Seq<char>>)
    requires
        origins_error(raw, 0) is None,
        lists_origins(origins, raw),
    ensures
        origins.len() == 0 <==> raw.len() == 0,
{
    if raw.len() > 0 {
        let o = origin_entry(raw[0])->Ok_0;
        assert(origin_entry(raw[0]) == Ok::<Seq<char>, ErrorView>(o));
        assert(origins.contains(o));
    }
    if origins.len() > 0 {
        assert(origins.contains(origins[0]));
    }
}

/// What is stored of an application that is registered or changed, or what is
/// wrong with it. `role` is that of its owner.
pub fn validate_integration_app(req: &AppRequest, limits: &ToolLimits, role: Role) -> (r: Result<
    AppFields,
    ApiError,
>)
    ensures
        match r {
            Ok(fields) => app_stored(fields, *req, *limits) && app_error(*req, *limits, role)
                is None,
            Err(e) => app_error(*req, *limits, role) == Some(e@),
        },
{
    match validate_integration_app_payload(
        req.name.as_str(),
        &req.redirect_uris,
        &req.agent_ids,
    ) {
        Ok(_) => {},
        Err(e) => {
            return Err(e);
        },
    }
    let origins = match normalize_allowed_origins(&req.allowed_origins) {
        Ok(origins) => origins,
        Err(e) => {
            return Err(e);
        },
    };
    proof {
        lemma_some_origin(views(origins@), views(req.allowed_origins@));
        assert(views(origins@).len() == origins@.len());
    }
    let tools = match &req.tool_allowlist {
        None => None,
        Some(list) => match normalize_agent_tool_allowlist(list, &limits.known) {
            Ok(tools) => Some(tools),
            Err(e) => {
                    return Err(e);
            },
        },
    };
    assert(app_tools(opt_views(req.tool_allowlist), views(limits.known@)) == Ok::<
        Option<Seq<Seq<char>>>,
        ErrorView,
    >(opt_views(tools)));
    let client_tools = match validate_client_tool_definitions(
        &req.client_tools,
        limits.max_client_tools,
        limits.max_client_tool_bytes,
    ) {
        Ok(client_tools) => client_tools,
        Err(e) => {
            return Err(e);
        },
    };
    match validate_public_widget_settings(
        req.login_required,
        req.history_enabled,
        &origins,
        &tools,
        &limits.public,
        req.agent_ids.len(),
        role,
    ) {
        Ok(_) => {},
        Err(e) => {
            return Err(e);
        },
    }
    Ok(
        AppFields {
            name: trim(req.name.as_str()),
            allowed_origins: origins,
            tool_allowlist: tools,
            client_tools,
        },
    )
}

// ---------------------------------------------------------------------------
// The agents of an application
// ---------------------------------------------------------------------------

/// Identifiers in ascending order.
pub open spec fn sorted_ids(v: Seq<Id>) -> bool {
    forall|i: int, j: int| 0 <= i <= j < v.len() ==> v[i] <= v[j]
}

/// The identifiers in ascending order.
pub fn sort_ids(ids: &Vec<Id>) -> (r: Vec<Id>)
    ensures
        sorted_ids(r@),
        r@.to_multiset() == ids@.to_multiset(),
        r@.len() == ids@.len(),
{
    let mut out: Vec<Id> = Vec::new();
    let mut i: usize = 0;
    assert(ids@.take(0) =~= out@);
    while i < ids.len()
        invariant
            i <= ids@.len(),
            i == out@.len(),
            sorted_ids(out@),
            out@.to_multiset() == ids@.take(i as int).to_multiset(),
        decreases ids@.len() - i,
    {
        let id: u128 = ids[i];
        let mut at: usize = 0;
        while at < out.len() && out[at] <= id
            invariant
                at <= out@.len(),
                sorted_ids(out@),
                forall|k: int| 0 <= k < at ==> out@[k] <= id,
            decreases out@.len() - at,
        {
            at = at + 1;
        }
        let ghost before = out@;
        out.insert(at, id);
        proof {
            assert(out@ =~= before.insert(at as int, id));
            assert forall|a: int, b: int| 0 <= a <= b < out@.len() implies out@[a] <= out@[b] by {
                let x = if a < at {
                    a
                } else {
                    a - 1
                };
                let y = if b < at {
                    b
                } else {
                    b - 1
                };
                if a == at || b == at {
                    if a == at && b > at {
                        assert(before[at as int] <= before[y]);
                    }
                } else {
                    assert(before[x] <= before[y]);
                }
            }
            before.to_multiset_ensures();
            assert(out@.to_multiset() =~= before.to_multiset().insert(id)) by {
                out@.to_multiset_ensures();
                assert(out@.remove(at as int) =~= before);
                assert(out@.to_multiset().remove(id) =~= before.to_multiset());
                assert(out@.contains(out@[at as int]));
            }
            ids@.take(i as int).to_multiset_ensures();
            assert(ids@.take(i + 1) =~= ids@.take(i as int).push(id));
            assert(ids@.take(i + 1).to_multiset() =~= ids@.take(i as int).to_multiset().insert(
                id,
            ));
        }
        i = i + 1;
    }
    assert(ids@.take(i as int) =~= ids@);
    out
}

/// Every agent that is named was found, and no other: the found ones are the
/// named ones in ascending order.
pub open spec fn agents_found(named: Seq<Id>, found: Seq<Id>) -> Result<(), ErrorView> {
    if sorted_ids(found) && found.to_multiset() == named.to_multiset() {
        Ok(())
    } else {
        refused(Status::NotFound, "agent not found"@)
    }
}

proof fn lemma_sorted_unique(a: Seq<Id>, b: Seq<Id>)
    requires
        sorted_ids(a),
        sorted_ids(b),
        a.to_multiset() == b.to_multiset(),
    ensures
        a == b,
    decreases a.len(),
{
    a.to_multiset_ensures();
    b.to_multiset_ensures();
    assert(a.len() == a.to_multiset().len());
    assert(b.len() == b.to_multiset().len());
    if a.len() == 0 {
        assert(a =~= b);
    } else {
        let x = a.last();
        let y = b.last();
        assert(a.contains(a[a.len() - 1]));
        assert(b.contains(b[b.len() - 1]));
        assert(b.to_multiset().count(x) > 0);
        assert(b.contains(x));
        assert(a.to_multiset().count(y) > 0);
        assert(a.contains(y));
        let i = choose|i: int| 0 <= i < b.len() && b[i] == x;
        let j = choose|j: int| 0 <= j < a.len() && a[j] == y;
        assert(b[i] <= b[b.len() - 1]);
        assert(a[j] <= a[a.len() - 1]);
        assert(x == y);
        let p = a.drop_last();
        let q = b.drop_last();
        assert(a.remove(a.len() - 1) =~= p);
        assert(b.remove(b.len() - 1) =~= q);
        assert(p.to_multiset() =~= a.to_multiset().remove(x));
        assert(q.to_multiset() =~= b.to_multiset().remove(y));
        assert forall|m: int, n: int| 0 <= m <= n < p.len() implies p[m] <= p[n] by {
            assert(a[m] <= a[n]);
        }
        assert forall|m: int, n: int| 0 <= m <= n < q.len() implies q[m] <= q[n] by {
            assert(b[m] <= b[n]);
        }
        lemma_sorted_unique(p, q);
        assert(a =~= p.push(x));
        assert(b =~= q.push(y));
    }
}

/// Checks the agents that were found, in ascending order, against those that
/// an application names.
pub fn validate_integration_app_agents(named: &Vec<Id>, found: &Vec<Id>) -> (r: Result<(), ApiError>)
    ensures
        plain(r) == agents_found(named@, found@),
{
    let expected = sort_ids(named);
    let mut same_ids = expected.len() == found.len();
    let mut i: usize = 0;
    while same_ids && i < found.len()
        invariant
            i <= found@.len(),
            same_ids ==> expected@.len() == found@.len() && forall|k: int|
                0 <= k < i ==> expected@[k] == found@[k],
            !same_ids ==> expected@ != found@,
        decreases found@.len() - i,
    {
        if expected[i] != found[i] {
            assert(expected@[i as int] != found@[i as int]);
            same_ids = false;
        }
        i = i + 1;
    }
    proof {
        if same_ids {
            assert(expected@ =~= found@);
        } else if sorted_ids(found@) && found@.to_multiset() == named@.to_multiset() {
            lemma_sorted_unique(expected@, found@);
        }
    }
    if same_ids {
        Ok(())
    } else {
        Err(ApiError::not_found("agent not found"))
    }
}

/// The first agent that does not allow all of an application's tools, from
/// `from` on, and what is wrong there. The policies of the agents are as they
/// are stored.
pub open spec fn restriction_error(
    tools: Seq<Seq<char>>,
    stored: Seq<JsonView>,
    known: Seq<Seq<char>>,
    from: int,
) -> Option<ErrorView>
    decreases stored.len() - from,
{
    if from >= stored.len() {
        None
    } else {
        match list_of_texts(stored[from]) {
            None => Some(error_of(Status::Internal, "stored Agent tool policy is invalid"@)),
            Some(texts) => match tool_allowlist(texts, known) {
                Err(e) => Some(e),
                Ok(allowed) => match app_tools_check(tools, allowed) {
                    Err(e) => Some(e),
                    Ok(_) => restriction_error(tools, stored, known, from + 1),
                },
            },
        }
    }
}

/// The tools of an application, where it names any, restrict those of its
/// agents: it names agents, all of them are there, and each allows the tools.
pub open spec fn app_restriction(
    named: nat,
    tools: Option<Seq<Seq<char>>>,
    stored: Seq<JsonView>,
    known: Seq<Seq<char>>,
) -> Result<(), ErrorView> {
    match tools {
        None => Ok(()),
        Some(tools) => if named == 0 {
            refused(Status::BadRequest, "App tool selection requires at least one Agent"@)
        } else if stored.len() != named {
            refused(Status::NotFound, "agent not found"@)
        } else {
            match restriction_error(tools, stored, known, 0) {
                Some(e) => Err(e),
                None => Ok(()),
            }
        },
    }
}

/// Accepts the tools of an application that names `named` agents, given the
/// stored policies of those that are there.
pub fn validate_integration_app_tool_allowlist(
    named: usize,
    tools: &Option<Vec<String>>,
    stored: &Vec<Json>,
    known: &Vec<String>,
) -> (r: Result<(), ApiError>)
    ensures
        plain(r) == app_restriction(
            named as nat,
            opt_views(*tools),
            json_views(stored@),
            views(known@),
        ),
{
    let wanted = match tools {
        None => {
            return Ok(());
        },
        Some(wanted) => wanted,
    };
    if named == 0 {
        return Err(ApiError::bad_request("App tool selection requires at least one Agent"));
    }
    if stored.len() != named {
        return Err(ApiError::not_found("agent not found"));
    }
    let ghost all = json_views(stored@);
    let mut i: usize = 0;
    while i < stored.len()
        invariant
            i <= stored@.len(),
            stored@.len() == named,
            named > 0,
            all == json_views(stored@),
            opt_views(*tools) == Some(views(wanted@)),
            restriction_error(views(wanted@), all, views(known@), 0) == restriction_error(
                views(wanted@),
                all,
                views(known@),
                i as int,
            ),
        decreases stored@.len() - i,
    {
        assert(all[i as int] == stored@[i as int]@);
        let texts = match read_texts(&stored[i]) {
            Some(texts) => texts,
            None => {
                return Err(ApiError::internal("stored Agent tool policy is invalid"));
            },
        };
        let allowed = match normalize_agent_tool_allowlist(&texts, known) {
            Ok(allowed) => allowed,
            Err(e) => {
                return Err(e);
            },
        };
        match check_app_tools(wanted, &allowed) {
            Ok(_) => {},
            Err(e) => {
                return Err(e);
            },
        }
        i = i + 1;
    }
    Ok(())
}

/// An application that is accepted only has tools that each of its agents
/// allows.
pub proof fn applications_only_restrict(
    named: nat,
    tools: Seq<Seq<char>>,
    stored: Seq<JsonView>,
    known: Seq<Seq<char>>,
    i: int,
)
    requires
        app_restriction(named, Some(tools), stored, known) is Ok,
        0 <= i < stored.len(),
    ensures
        list_of_texts(stored[i]) is Some,
        tool_allowlist(list_of_texts(stored[i])->0, known) is Ok,
        tools_within(tools, tool_allowlist(list_of_texts(stored[i])->0, known)->Ok_0),
{
    lemma_no_restriction_error(tools, stored, known, 0, i);
}

proof fn lemma_no_restriction_error(
    tools: Seq<Seq<char>>,
    stored: Seq<JsonView>,
    known: Seq<Seq<char>>,
    from: int,
    i: int,
)
    requires
        restriction_error(tools, stored, known, from) is None,
        0 <= from <= i < stored.len(),
    ensures
        list_of_texts(stored[i]) is Some,
        tool_allowlist(list_of_texts(stored[i])->0, known) is Ok,
        tools_within(tools, tool_allowlist(list_of_texts(stored[i])->0, known)->Ok_0),
    decreases stored.len() - from,
{
    if from < i {
        lemma_no_restriction_error(tools, stored, known, from + 1, i);
    }
}

/// The positions of the first `n` identifiers that differ from the one before
/// them, the first included.
pub open spec fn run_starts(ids: Seq<Id>, n: int) -> Seq<usize>
    decreases n,
{
    if n <= 0 {
        seq![]
    } else if n == 1 || ids[n - 1] != ids[n - 2] {
        run_starts(ids, n - 1).push((n - 1) as usize)
    } else {
        run_starts(ids, n - 1)
    }
}

/// Where each platform begins in a list of channels that is ordered by
/// platform: the platforms that an owner can choose from.
pub fn platform_starts(platform_ids: &Vec<Id>) -> (r: Vec<usize>)
    ensures
        r@ == run_starts(platform_ids@, platform_ids@.len() as int),
{
    let mut starts: Vec<usize> = Vec::new();
    let mut i: usize = 0;
    while i < platform_ids.len()
        invariant
            i <= platform_ids@.len(),
            starts@ == run_starts(platform_ids@, i as int),
        decreases platform_ids@.len() - i,
    {
        if i == 0 || platform_ids[i] != platform_ids[i - 1] {
            starts.push(i);
        }
        i = i + 1;
    }
    starts
}

/// An application is accepted where each part of it is; one without a list of
/// tools keeps those of its agents.
pub proof fn applications_are_accepted_part_by_part(
    req: AppRequest,
    limits: ToolLimits,
    role: Role,
)
    ensures
        app_tools(None, views(limits.known@)) == Ok::<Option<Seq<Seq<char>>>, ErrorView>(None),
        req.tool_allowlist is Some ==> (app_tools(
            opt_views(req.tool_allowlist),
            views(limits.known@),
        ) is Ok <==> tool_allowlist(views((req.tool_allowlist->0)@), views(limits.known@)) is Ok),
        app_error(req, limits, role) is None <==> {
            &&& app_validity(req.name@, req.redirect_uris@, req.agent_ids@) is Ok
            &&& origins_error(views(req.allowed_origins@), 0) is None
            &&& req.tool_allowlist is Some ==> tool_allowlist(
                views((req.tool_allowlist->0)@),
                views(limits.known@),
            ) is Ok
            &&& stored_definitions(
                tool_views(req.client_tools@),
                limits.max_client_tools as nat,
                byte_count(json_text_of(tools_json(tool_views(req.client_tools@)))),
                limits.max_client_tool_bytes as nat,
            ) is Ok
            &&& public_widget(
                req.login_required,
                req.history_enabled,
                req.allowed_origins@.len(),
                if req.tool_allowlist is Some {
                    Some(
                        tool_allowlist(
                            views((req.tool_allowlist->0)@),
                            views(limits.known@),
                        )->Ok_0,
                    )
                } else {
                    None
                },
                views(limits.public@),
                req.agent_ids@.len(),
                role,
            ) is Ok
        },
{
}

/// An application is stored under its trimmed name, with the pages and tools
/// that were asked for.
pub proof fn applications_are_stored_as_asked(fields: AppFields, req: AppRequest, limits: ToolLimits)
    requires
        app_stored(fields, req, limits),
    ensures
        fields.name@ == trimmed(req.name@),
        lists_origins(views(fields.allowed_origins@), views(req.allowed_origins@)),
        fields.tool_allowlist is Some <==> req.tool_allowlist is Some,
        req.tool_allowlist is Some ==> Ok::<Seq<Seq<char>>, ErrorView>(
            views((fields.tool_allowlist->0)@),
        ) == tool_allowlist(views((req.tool_allowlist->0)@), views(limits.known@)),
        fields.client_tools@ == tools_json(tool_views(req.client_tools@)),
{
}

/// The agents that an application names are there where those that were found
/// are the same ones, each as often, in order.
pub proof fn named_agents_are_all_found(named: Seq<Id>, found: Seq<Id>, id: Id)
    ensures
        agents_found(named, found) is Ok ==> named.len() == found.len(),
        agents_found(named, found) is Ok ==> (named.contains(id) <==> found.contains(id)),
        agents_found(named, found) is Ok <==> found.to_multiset() == named.to_multiset() && forall|
            i: int,
            j: int,
        |
            0 <= i < j < found.len() ==> found[i] <= found[j],
        agents_found(named, found) matches Err(e) ==> e.status == Status::NotFound,
{
    broadcast use vstd::seq_lib::group_to_multiset_ensures;

    assert(named.to_multiset().len() == named.len());
    assert(found.to_multiset().len() == found.len());
    assert(named.contains(id) <==> named.to_multiset().count(id) > 0);
    assert(found.contains(id) <==> found.to_multiset().count(id) > 0);
}

proof fn lemma_restriction(
    tools: Seq<Seq<char>>,
    stored: Seq<JsonView>,
    known: Seq<Seq<char>>,
    from: int,
)
    requires
        0 <= from <= stored.len(),
    ensures
        restriction_error(tools, stored, known, from) is None <==> forall|i: int|
            from <= i < stored.len() ==> allows(tools, #[trigger] stored[i], known),
    decreases stored.len() - from,
{
    if from < stored.len() {
        lemma_restriction(tools, stored, known, from + 1);
        assert(allows(tools, stored[from], known) || !allows(tools, stored[from], known));
    }
}

/// The agent with these stored tools has every one of the named ones.
pub open spec fn allows(tools: Seq<Seq<char>>, stored: JsonView, known: Seq<Seq<char>>) -> bool {
    &&& list_of_texts(stored) is Some
    &&& tool_allowlist(list_of_texts(stored)->0, known) is Ok
    &&& forall|k: int|
        0 <= k < tools.len() ==> tool_allowlist(
            list_of_texts(stored)->0,
            known,
        )->Ok_0.contains(#[trigger] tools[k])
}

/// An application may select the tools that all of its agents have, and
/// selects none where it has no agent.
pub proof fn selected_tools_belong_to_every_agent(
    named: nat,
    tools: Seq<Seq<char>>,
    stored: Seq<JsonView>,
    known: Seq<Seq<char>>,
)
    ensures
        app_restriction(named, None, stored, known) is Ok,
        app_restriction(named, Some(tools), stored, known) is Ok <==> named > 0 && stored.len()
            == named && forall|i: int|
            0 <= i < stored.len() ==> allows(tools, #[trigger] stored[i], known),
        named == 0 ==> app_restriction(named, Some(tools), stored, known)->Err_0.status
            == Status::BadRequest,
        named > 0 && stored.len() != named ==> app_restriction(
            named,
            Some(tools),
            stored,
            known,
        )->Err_0.status == Status::NotFound,
{
    lemma_restriction(tools, stored, known, 0);
}

/// A place is a start just where the identifier differs from the one before
/// it; the starts are in order.
pub proof fn starts_are_where_the_platform_changes(ids: Seq<Id>, n: int, k: usize)
    requires
        0 <= n <= ids.len() <= usize::MAX,
    ensures
        run_starts(ids, n).contains(k) <==> k < n && (k == 0 || ids[k as int] != ids[k - 1]),
        forall|i: int, j: int|
            0 <= i < j < run_starts(ids, n).len() ==> run_starts(ids, n)[i] < run_starts(ids, n)[j],
        forall|i: int| 0 <= i < run_starts(ids, n).len() ==> #[trigger] run_starts(ids, n)[i] < n,
    decreases n,
{
    if n > 0 {
        starts_are_where_the_platform_changes(ids, n - 1, k);
        let before = run_starts(ids, n - 1);
        let after = run_starts(ids, n);
        if n == 1 || ids[n - 1] != ids[n - 2] {
            assert(after == before.push((n - 1) as usize));
            assert(after[before.len() as int] == n - 1);
            if before.contains(k) {
                let i = choose|i: int| 0 <= i < before.len() && before[i] == k;
                assert(after[i] == k);
            }
            if after.contains(k) && k != n - 1 {
                let i = choose|i: int| 0 <= i < after.len() && after[i] == k;
                assert(before[i] == k);
            }
        }
    }
}

} // verus!
