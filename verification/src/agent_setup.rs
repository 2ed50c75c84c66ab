//! Setting up an agent: what a new one is made of, which models it and its
//! subagents run with, and what a session adds to its tools.

use crate::agent::{
    accepted_subagents_are_distinct, audience_found, audience_validity, check_audience_found,
    normalize_visibility, normalized_visibility, opt_list, subagents_validity, validate_public_to,
    validate_public_visibility_role, validate_subagent_definitions, visibility_right,
    SessionToolPolicy, Subagent, Visibility,
};
use crate::agent_flow::{needs_own_binding, own_binding};
use crate::error::{refusal, refuse, refused, seen, ApiError, ErrorView, Refusal, Status};
use crate::identity::Role;
use crate::ids::Id;
use crate::json::{list_of_texts, read_texts, Json};
use crate::model_settings::{
    check_admin_agent_model_selection, default_settings, plain_settings, says_nothing,
    selection_views, AdminChoice, ModelSelection, ModelSettings, RequestSettings, SelectionView,
    SettingOverride, SettingsOverride, SettingsView,
};
use crate::text::{blank, copy_opt, is_blank, lowered, opt_view, same, trim, trimmed, views};
use crate::tools::{normalize_agent_tool_allowlist, tool_allowlist};
use vstd::prelude::*;

verus! {

// ---------------------------------------------------------------------------
// A new agent
// ---------------------------------------------------------------------------

/// What a new agent is asked to be.
#[derive(Debug)]
pub struct NewAgentRequest {
    pub name: String,
    pub instructions: String,
    pub visibility: String,
    pub public_to: Vec<Id>,
    pub subagents: Vec<Subagent>,
    pub tool_allowlist: Vec<String>,
}

/// What is stored of a new agent.
#[derive(Debug)]
pub struct NewAgentFields {
    pub name: String,
    pub instructions: String,
    pub visibility: Visibility,
    pub tool_allowlist: Vec<String>,
}

/// What `NewAgentFields` hold.
pub struct NewAgentView {
    pub name: Seq<char>,
    pub instructions: Seq<char>,
    pub visibility: Visibility,
    pub tool_allowlist: Seq<Seq<char>>,
}

impl View for NewAgentFields {
    type V = NewAgentView;

    open spec fn view(&self) -> NewAgentView {
        NewAgentView {
            name: self.name@,
            instructions: self.instructions@,
            visibility: self.visibility,
            tool_allowlist: views(self.tool_allowlist@),
        }
    }
}

/// The users that an agent is shared with are valid and, where there are any,
/// were all found.
pub open spec fn audience(
    visibility: Visibility,
    public_to: Seq<Id>,
    owner_id: Id,
    found: i64,
) -> Result<(), ErrorView> {
    match audience_validity(visibility, public_to, owner_id) {
        Err(e) => Err(e),
        Ok(_) => if public_to.len() == 0 {
            Ok(())
        } else {
            audience_found(public_to.len(), found)
        },
    }
}

/// What is stored of a new agent, or why there can be none: it has a name, a
/// visibility that its owner may choose, an audience of which `found` users
/// are known, valid subagents, and tools.
pub open spec fn new_agent(
    req: NewAgentRequest,
    role: Role,
    owner_id: Id,
    found: i64,
    known: Seq<Seq<char>>,
) -> Result<NewAgentView, ErrorView> {
    if blank(req.name@) {
        refused(Status::BadRequest, "agent name is required"@)
    } else {
        match normalized_visibility(req.visibility@) {
            Err(e) => Err(e),
            Ok(visibility) => match visibility_right(visibility, role) {
                Err(e) => Err(e),
                Ok(_) => match audience(visibility, req.public_to@, owner_id, found) {
                    Err(e) => Err(e),
                    Ok(_) => match subagents_validity(req.subagents@) {
                        Err(e) => Err(e),
                        Ok(_) => match tool_allowlist(views(req.tool_allowlist@), known) {
                            Err(e) => Err(e),
                            Ok(tools) => Ok(
                                NewAgentView {
                                    name: trimmed(req.name@),
                                    instructions: trimmed(req.instructions@),
                                    visibility,
                                    tool_allowlist: tools,
                                },
                            ),
                        },
                    },
                },
            },
        }
    }
}

/// What is stored of a new agent, or why there can be none.
pub fn create_agent(
    req: &NewAgentRequest,
    role: Role,
    owner_id: Id,
    found: i64,
    known: &Vec<String>,
) -> (r: Result<NewAgentFields, ApiError>)
    ensures
        seen(r) == new_agent(*req, role, owner_id, found, views(known@)),
{
    if is_blank(req.name.as_str()) {
        return Err(ApiError::bad_request("agent name is required"));
    }
    let visibility = match normalize_visibility(req.visibility.as_str()) {
        Ok(visibility) => visibility,
        Err(e) => {
            return Err(e);
        },
    };
    match validate_public_visibility_role(visibility, role) {
        Ok(_) => {},
        Err(e) => {
            return Err(e);
        },
    }
    match validate_public_to(visibility, &req.public_to, owner_id) {
        Ok(_) => {},
        Err(e) => {
            return Err(e);
        },
    }
    if req.public_to.len() > 0 {
        match check_audience_found(req.public_to.len(), found) {
            Ok(_) => {},
            Err(e) => {
                return Err(e);
            },
        }
    }
    match validate_subagent_definitions(&req.subagents) {
        Ok(_) => {},
        Err(e) => {
            return Err(e);
        },
    }
    match normalize_agent_tool_allowlist(&req.tool_allowlist, known) {
        Ok(tools) => Ok(
            NewAgentFields {
                name: trim(req.name.as_str()),
                instructions: trim(req.instructions.as_str()),
                visibility,
                tool_allowlist: tools,
            },
        ),
        Err(e) => Err(e),
    }
}

/// The model settings of a new agent: those that are given, else the plain
/// ones, in the protocol of its model where it has one.
pub open spec fn first_settings(given: Option<ModelSettings>, protocol: Option<Seq<char>>) -> SettingsView {
    match (given, protocol) {
        (Some(settings), _) => settings@,
        (None, Some(p)) => SettingsView {
            request_settings: plain_settings(p),
            ..default_settings()
        },
        (None, None) => default_settings(),
    }
}

/// The model settings of a new agent.
pub fn settings_of_new_agent(given: Option<ModelSettings>, protocol: &Option<String>) -> (r:
    ModelSettings)
    ensures
        r@ == first_settings(given, opt_view(*protocol)),
{
    match given {
        Some(settings) => settings,
        None => {
            let mut settings = ModelSettings::default();
            match protocol {
                Some(p) => {
                    settings.request_settings = RequestSettings::for_protocol(p.as_str());
                },
                None => {},
            }
            settings
        },
    }
}

// ---------------------------------------------------------------------------
// Models
// ---------------------------------------------------------------------------

/// A selection that may be missing, as a list.
pub open spec fn at_most_one(selection: Option<ModelSelection>) -> Seq<SelectionView> {
    match selection {
        Some(s) => seq![s@],
        None => seq![],
    }
}

/// The models that the first `n` subagents choose, those that are disabled
/// left out on demand.
pub open spec fn chosen_by(subagents: Seq<Subagent>, n: int, enabled_only: bool) -> Seq<SelectionView>
    decreases n,
{
    if n <= 0 {
        seq![]
    } else {
        let before = chosen_by(subagents, n - 1, enabled_only);
        let s = subagents[n - 1];
        match s.model_selection {
            Some(selection) => if !enabled_only || s.enabled {
                before.push(selection@)
            } else {
                before
            },
            None => before,
        }
    }
}

/// The models that an agent and its subagents choose.
pub open spec fn chosen_models(
    selection: Option<ModelSelection>,
    subagents: Seq<Subagent>,
    enabled_only: bool,
) -> Seq<SelectionView> {
    at_most_one(selection) + chosen_by(subagents, subagents.len() as int, enabled_only)
}

/// A copy of a selection.
pub fn copy_selection(s: &ModelSelection) -> (r: ModelSelection)
    ensures
        r@ == s@,
{
    ModelSelection { connection_id: s.connection_id, model_id: s.model_id.clone() }
}

fn collect_models(
    selection: &Option<ModelSelection>,
    subagents: &Vec<Subagent>,
    enabled_only: bool,
) -> (r: Vec<ModelSelection>)
    ensures
        selection_views(r@) == chosen_models(*selection, subagents@, enabled_only),
{
    let mut out: Vec<ModelSelection> = Vec::new();
    match selection {
        Some(s) => {
            out.push(copy_selection(s));
        },
        None => {},
    }
    let ghost first = at_most_one(*selection);
    assert(selection_views(out@) =~= first + chosen_by(subagents@, 0, enabled_only));
    let mut i: usize = 0;
    while i < subagents.len()
        invariant
            i <= subagents@.len(),
            selection_views(out@) == first + chosen_by(subagents@, i as int, enabled_only),
        decreases subagents@.len() - i,
    {
        let ghost before = out@;
        match &subagents[i].model_selection {
            Some(s) => {
                if !enabled_only || subagents[i].enabled {
                    out.push(copy_selection(s));
                    assert(selection_views(out@) =~= selection_views(before).push(s@));
                }
            },
            None => {},
        }
        i = i + 1;
        assert(selection_views(out@) =~= first + chosen_by(subagents@, i as int, enabled_only));
    }
    out
}

/// The models of a request that the agent does not have already.
pub open spec fn newly_chosen(requested: Seq<SelectionView>, retained: Seq<SelectionView>) -> Seq<
    SelectionView,
> {
    requested.filter(|s: SelectionView| !retained.contains(s))
}

/// The models that are looked up when an administrator changes somebody
/// else's agent: those of the request that neither the agent nor a subagent of
/// it has. What a disabled subagent would choose does not matter.
pub open spec fn models_to_vet(
    existing: Option<ModelSelection>,
    existing_subagents: Seq<Subagent>,
    requested: Option<ModelSelection>,
    subagents: Seq<Subagent>,
) -> Seq<SelectionView> {
    newly_chosen(
        chosen_models(requested, subagents, true),
        chosen_models(existing, existing_subagents, false),
    )
}

/// The models that an administrator newly chooses for somebody else's agent,
/// in the order in which they are looked up: all of them must be on global
/// connections.
pub fn enforce_admin_agent_model_selection(
    existing: &Option<ModelSelection>,
    existing_subagents: &Vec<Subagent>,
    requested: &Option<ModelSelection>,
    subagents: &Vec<Subagent>,
) -> (r: Vec<ModelSelection>)
    ensures
        selection_views(r@) == models_to_vet(
            *existing,
            existing_subagents@,
            *requested,
            subagents@,
        ),
{
    let retained = collect_models(existing, existing_subagents, false);
    let wanted = collect_models(requested, subagents, true);
    let ghost all = selection_views(wanted@);
    let ghost kept = selection_views(retained@);
    let ghost p = |s: SelectionView| !kept.contains(s);
    let mut out: Vec<ModelSelection> = Vec::new();
    let mut i: usize = 0;
    assert(selection_views(out@) =~= all.take(0).filter(p)) by {
        reveal(Seq::filter);
    }
    while i < wanted.len()
        invariant
            i <= wanted@.len(),
            all == selection_views(wanted@),
            kept == selection_views(retained@),
            p == |s: SelectionView| !kept.contains(s),
            selection_views(out@) == all.take(i as int).filter(p),
        decreases wanted@.len() - i,
    {
        let ghost before = out@;
        let next = copy_selection(&wanted[i]);
        assert(all[i as int] == wanted@[i as int]@);
        let chosen = Some(next);
        let judged = check_admin_agent_model_selection(&retained, &chosen);
        proof {
            reveal(Seq::filter);
            assert(all.take(i + 1).drop_last() =~= all.take(i as int));
            assert(all.take(i + 1).last() == all[i as int]);
        }
        match judged {
            AdminChoice::Kept => {},
            AdminChoice::MustBeGlobal => {
                out.push(copy_selection(&wanted[i]));
                assert(selection_views(out@) =~= selection_views(before).push(all[i as int]));
            },
        }
        i = i + 1;
    }
    assert(all.take(all.len() as int) =~= all);
    out
}

/// Where all the models that are looked up are on global connections, every
/// model of the changed agent is on one or was the agent's before.
pub proof fn changed_agents_stay_on_global_connections(
    existing: Option<ModelSelection>,
    existing_subagents: Seq<Subagent>,
    requested: Option<ModelSelection>,
    subagents: Seq<Subagent>,
    global: Set<SelectionView>,
    s: SelectionView,
)
    requires
        forall|i: int|
            0 <= i < models_to_vet(existing, existing_subagents, requested, subagents).len()
                ==> global.contains(
                #[trigger] models_to_vet(existing, existing_subagents, requested, subagents)[i],
            ),
        chosen_models(requested, subagents, true).contains(s),
    ensures
        global.contains(s) || chosen_models(existing, existing_subagents, false).contains(s),
{
    let wanted = chosen_models(requested, subagents, true);
    let kept = chosen_models(existing, existing_subagents, false);
    let p = |x: SelectionView| !kept.contains(x);
    if !kept.contains(s) {
        let looked_up = models_to_vet(existing, existing_subagents, requested, subagents);
        let i = choose|i: int| 0 <= i < wanted.len() && wanted[i] == s;
        assert(p(wanted[i]));
        wanted.lemma_filter_contains(p, i);
        assert(looked_up.contains(s));
        let k = choose|k: int| 0 <= k < looked_up.len() && looked_up[k] == s;
        assert(global.contains(looked_up[k]));
    }
}

/// A model that a run is bound to: the agent's own under the key `main`, or
/// that of the subagent at an index.
#[derive(Debug)]
pub struct BindingPlan {
    pub key: String,
    pub selection: ModelSelection,
    pub subagent: Option<usize>,
}

/// What a `BindingPlan` holds.
pub struct BindingView {
    pub key: Seq<char>,
    pub selection: SelectionView,
    pub subagent: Option<usize>,
}

impl View for BindingPlan {
    type V = BindingView;

    open spec fn view(&self) -> BindingView {
        BindingView { key: self.key@, selection: self.selection@, subagent: self.subagent }
    }
}

/// What bindings hold.
pub open spec fn binding_views(v: Seq<BindingPlan>) -> Seq<BindingView> {
    Seq::new(v.len(), |i: int| v[i]@)
}

/// The binding of the subagent at `i`: to its own model, else the agent's.
pub open spec fn subagent_binding(main: SelectionView, s: Subagent, i: int) -> BindingView {
    BindingView {
        key: trimmed(s.name@),
        selection: match s.model_selection {
            Some(own) => own@,
            None => main,
        },
        subagent: Some(i as usize),
    }
}

/// The models of a run: the agent's, then those of the first `n` subagents
/// that need a binding of their own.
pub open spec fn bindings(main: SelectionView, subagents: Seq<Subagent>, n: int) -> Seq<BindingView>
    decreases n,
{
    if n <= 0 {
        seq![BindingView { key: "main"@, selection: main, subagent: None }]
    } else {
        let before = bindings(main, subagents, n - 1);
        if own_binding(subagents[n - 1]) {
            before.push(subagent_binding(main, subagents[n - 1], n - 1))
        } else {
            before
        }
    }
}

/// The models that a run of an agent is bound to.
pub fn create_run_model_bindings(selection: &Option<ModelSelection>, subagents: &Vec<Subagent>) -> (r:
    Result<Vec<BindingPlan>, Refusal>)
    ensures
        match (*selection, r) {
            (None, Err(e)) => e == refusal(Status::Conflict, "Agent has no configured model"),
            (Some(main), Ok(plans)) => binding_views(plans@) == bindings(
                main@,
                subagents@,
                subagents@.len() as int,
            ),
            _ => false,
        },
{
    let main = match selection {
        Some(main) => main,
        None => {
            return Err(refuse(Status::Conflict, "Agent has no configured model"));
        },
    };
    let first = BindingPlan {
        key: "main".to_owned(),
        selection: copy_selection(main),
        subagent: None,
    };
    let mut out: Vec<BindingPlan> = vec![first];
    assert(binding_views(out@) =~= bindings(main@, subagents@, 0));
    let mut i: usize = 0;
    while i < subagents.len()
        invariant
            i <= subagents@.len(),
            binding_views(out@) == bindings(main@, subagents@, i as int),
        decreases subagents@.len() - i,
    {
        let ghost before = out@;
        if needs_own_binding(&subagents[i]) {
            let own = match &subagents[i].model_selection {
                Some(own) => copy_selection(own),
                None => copy_selection(main),
            };
            out.push(
                BindingPlan {
                    key: trim(subagents[i].name.as_str()),
                    selection: own,
                    subagent: Some(i),
                },
            );
            assert(binding_views(out@) =~= binding_views(before).push(
                subagent_binding(main@, subagents@[i as int], i as int),
            ));
        }
        i = i + 1;
    }
    Ok(out)
}

proof fn lemma_binding_source(main: SelectionView, subagents: Seq<Subagent>, n: int, i: int)
    requires
        0 <= n <= subagents.len(),
        subagents.len() <= usize::MAX,
        0 <= i < bindings(main, subagents, n).len(),
    ensures
        i == 0 ==> bindings(main, subagents, n)[i].key == "main"@,
        i > 0 ==> bindings(main, subagents, n)[i].subagent is Some,
        i > 0 ==> ({
            let at = bindings(main, subagents, n)[i].subagent->0;
            at < n && bindings(main, subagents, n)[i].key == trimmed(subagents[at as int].name@)
        }),
        forall|j: int|
            0 < j < i ==> (#[trigger] bindings(main, subagents, n)[j]).subagent is Some && bindings(
                main,
                subagents,
                n,
            )[j].subagent->0 < bindings(main, subagents, n)[i].subagent->0,
    decreases n,
{
    if n > 0 {
        let before = bindings(main, subagents, n - 1);
        let all = bindings(main, subagents, n);
        if i < before.len() {
            lemma_binding_source(main, subagents, n - 1, i);
            assert forall|j: int| 0 < j < i implies (#[trigger] all[j]).subagent is Some
                && all[j].subagent->0 < all[i].subagent->0 by {
                assert(all[j] == before[j]);
            }
        } else {
            assert forall|j: int| 0 < j < i implies (#[trigger] all[j]).subagent is Some
                && all[j].subagent->0 < all[i].subagent->0 by {
                lemma_binding_source(main, subagents, n - 1, j);
                assert(all[j] == before[j]);
            }
            lemma_first_binding(main, subagents, n - 1);
        }
    }
}

proof fn lemma_first_binding(main: SelectionView, subagents: Seq<Subagent>, n: int)
    requires
        0 <= n <= subagents.len(),
    ensures
        bindings(main, subagents, n).len() > 0,
        bindings(main, subagents, n)[0] == (BindingView {
            key: "main"@,
            selection: main,
            subagent: None,
        }),
    decreases n,
{
    if n > 0 {
        lemma_first_binding(main, subagents, n - 1);
    }
}

/// The models of a run can be told apart by their keys, whatever the case,
/// where the subagents of its agent were accepted.
pub proof fn bindings_have_distinct_keys(
    main: SelectionView,
    subagents: Seq<Subagent>,
    i: int,
    j: int,
)
    requires
        subagents_validity(subagents) is Ok,
        0 <= i < j < bindings(main, subagents, subagents.len() as int).len(),
    ensures
        lowered(bindings(main, subagents, subagents.len() as int)[i].key) != lowered(
            bindings(main, subagents, subagents.len() as int)[j].key,
        ),
{
    let n = subagents.len() as int;
    lemma_binding_source(main, subagents, n, j);
    lemma_binding_source(main, subagents, n, i);
    let b = bindings(main, subagents, n);
    let at = b[j].subagent->0 as int;
    if i == 0 {
        accepted_subagents_are_distinct(subagents, at, at);
    } else {
        accepted_subagents_are_distinct(subagents, b[i].subagent->0 as int, at);
    }
}

/// `r` is `s` without a model and without settings of its own.
pub open spec fn without_route(s: Subagent, r: Subagent) -> bool {
    &&& r.name@ == s.name@
    &&& r.description@ == s.description@
    &&& r.developer_instructions@ == s.developer_instructions@
    &&& r.model_selection is None
    &&& says_nothing(r.overrides)
    &&& r.enabled == s.enabled
    &&& opt_view(r.disabled_reason) == opt_view(s.disabled_reason)
}

/// The subagents as a refresh between runs hands them out: a session that is
/// online keeps the models that it is bound to, so a refresh names none.
pub fn without_model_routes(subagents: &Vec<Subagent>) -> (r: Vec<Subagent>)
    ensures
        r@.len() == subagents@.len(),
        forall|i: int|
            0 <= i < r@.len() ==> without_route(subagents@[i], #[trigger] r@[i]),
{
    let mut out: Vec<Subagent> = Vec::new();
    let mut i: usize = 0;
    while i < subagents.len()
        invariant
            i <= subagents@.len(),
            out@.len() == i,
            forall|k: int| 0 <= k < i ==> without_route(subagents@[k], #[trigger] out@[k]),
        decreases subagents@.len() - i,
    {
        let s = &subagents[i];
        out.push(
            Subagent {
                name: s.name.clone(),
                description: s.description.clone(),
                developer_instructions: s.developer_instructions.clone(),
                model_selection: None,
                overrides: SettingsOverride {
                    reasoning_effort: SettingOverride::Inherit,
                    reasoning_summary: SettingOverride::Inherit,
                    verbosity: SettingOverride::Inherit,
                    context_window_tokens: SettingOverride::Inherit,
                    auto_compact_token_limit: SettingOverride::Inherit,
                    reasoning_summary_support: SettingOverride::Inherit,
                    service_tier: SettingOverride::Inherit,
                    provider_request_timeout_ms: SettingOverride::Inherit,
                    stream_max_retries: SettingOverride::Inherit,
                    stream_idle_timeout_ms: SettingOverride::Inherit,
                    request_settings: SettingOverride::Inherit,
                },
                enabled: s.enabled,
                disabled_reason: copy_opt(&s.disabled_reason),
            },
        );
        i = i + 1;
    }
    out
}

/// The models of a configuration: the agent's, its settings, and the
/// subagents.
#[derive(Debug)]
pub struct ModelRoutes {
    pub model_selection: Option<ModelSelection>,
    pub model_settings: ModelSettings,
    pub subagents: Vec<Subagent>,
}

/// `routes` names no model at all: neither for the agent nor for a subagent.
pub open spec fn names_no_model(routes: ModelRoutes, subagents: Seq<Subagent>) -> bool {
    &&& routes.model_selection is None
    &&& routes.model_settings@ == default_settings()
    &&& routes.subagents@.len() == subagents.len()
    &&& forall|i: int|
        0 <= i < subagents.len() ==> without_route(subagents[i], #[trigger] routes.subagents@[i])
}

/// The models of a configuration that is refreshed between runs: it names
/// none, so that the next run brings its own.
pub fn refreshed_routes(subagents: &Vec<Subagent>) -> (r: ModelRoutes)
    ensures
        names_no_model(r, subagents@),
{
    ModelRoutes {
        model_selection: None,
        model_settings: ModelSettings::default(),
        subagents: without_model_routes(subagents),
    }
}

/// A refresh between runs binds no model: no subagent of it needs a binding of
/// its own, and no model is chosen in it.
pub proof fn refreshes_bind_no_model(routes: ModelRoutes, subagents: Seq<Subagent>)
    requires
        names_no_model(routes, subagents),
    ensures
        chosen_models(routes.model_selection, routes.subagents@, false) == Seq::<
            SelectionView,
        >::empty(),
        forall|i: int|
            0 <= i < routes.subagents@.len() ==> !own_binding(#[trigger] routes.subagents@[i]),
{
    assert forall|i: int| 0 <= i < routes.subagents@.len() implies !own_binding(
        #[trigger] routes.subagents@[i],
    ) && routes.subagents@[i].model_selection is None by {
        assert(without_route(subagents[i], routes.subagents@[i]));
    }
    lemma_none_chosen(routes.subagents@, routes.subagents@.len() as int);
    assert(chosen_models(routes.model_selection, routes.subagents@, false) =~= seq![]);
}

proof fn lemma_none_chosen(subagents: Seq<Subagent>, n: int)
    requires
        0 <= n <= subagents.len(),
        forall|i: int| 0 <= i < subagents.len() ==> (#[trigger] subagents[i]).model_selection is None,
    ensures
        chosen_by(subagents, n, false) == Seq::<SelectionView>::empty(),
    decreases n,
{
    if n > 0 {
        lemma_none_chosen(subagents, n - 1);
    }
}

// ---------------------------------------------------------------------------
// What a session adds
// ---------------------------------------------------------------------------

/// The tools that an application allows, as they are stored: a list of texts,
/// or none.
pub open spec fn stored_tools(stored: Option<Json>) -> Result<Option<Seq<Seq<char>>>, Refusal> {
    match stored {
        None => Ok(None),
        Some(json) => match list_of_texts(json@) {
            Some(texts) => Ok(Some(texts)),
            None => Err(refusal(Status::Internal, "stored App tool policy is invalid")),
        },
    }
}

/// What a session adds to the policy on tools: where it comes from, and the
/// tools that its application allows.
pub fn read_session_tool_policy(origin_kind: &str, stored: &Option<Json>) -> (r: Result<
    SessionToolPolicy,
    Refusal,
>)
    ensures
        match r {
            Ok(policy) => {
                &&& policy.public_widget == (origin_kind@ == "public_widget"@)
                &&& stored_tools(*stored) == Ok::<Option<Seq<Seq<char>>>, Refusal>(
                    opt_list(policy.app_tool_allowlist),
                )
            },
            Err(e) => stored_tools(*stored) == Err::<Option<Seq<Seq<char>>>, Refusal>(e),
        },
{
    let public_widget = same(origin_kind, "public_widget");
    match stored {
        None => Ok(SessionToolPolicy { public_widget, app_tool_allowlist: None }),
        Some(json) => match read_texts(json) {
            Some(tools) => Ok(
                SessionToolPolicy { public_widget, app_tool_allowlist: Some(tools) },
            ),
            None => Err(refuse(Status::Internal, "stored App tool policy is invalid")),
        },
    }
}

/// An audience is accepted where it fits the visibility and everyone in it is
/// there.
pub proof fn audiences_are_found(
    visibility: Visibility,
    public_to: Seq<Id>,
    owner_id: Id,
    found: i64,
)
    ensures
        audience(visibility, public_to, owner_id, found) is Ok <==> audience_validity(
            visibility,
            public_to,
            owner_id,
        ) is Ok && (public_to.len() > 0 ==> found == public_to.len()),
        audience(visibility, public_to, owner_id, found) matches Err(e) ==> e.status
            == Status::BadRequest,
{
}

/// An agent is created where every part of the request is right, as it was
/// asked for and trimmed.
pub proof fn agents_are_created_as_asked(
    req: NewAgentRequest,
    role: Role,
    owner_id: Id,
    found: i64,
    known: Seq<Seq<char>>,
)
    ensures
        new_agent(req, role, owner_id, found, known) is Ok <==> {
            &&& !blank(req.name@)
            &&& normalized_visibility(req.visibility@) is Ok
            &&& visibility_right(normalized_visibility(req.visibility@)->Ok_0, role) is Ok
            &&& audience(
                normalized_visibility(req.visibility@)->Ok_0,
                req.public_to@,
                owner_id,
                found,
            ) is Ok
            &&& subagents_validity(req.subagents@) is Ok
            &&& tool_allowlist(views(req.tool_allowlist@), known) is Ok
        },
        new_agent(req, role, owner_id, found, known) matches Ok(agent) ==> {
            &&& agent.name == trimmed(req.name@)
            &&& agent.instructions == trimmed(req.instructions@)
            &&& normalized_visibility(req.visibility@) == Ok::<Visibility, ErrorView>(
                agent.visibility,
            )
            &&& tool_allowlist(views(req.tool_allowlist@), known) == Ok::<
                Seq<Seq<char>>,
                ErrorView,
            >(agent.tool_allowlist)
        },
{
}

/// A new agent has the settings that were given, or the first ones for the
/// protocol of its model.
pub proof fn new_agents_have_settings(given: ModelSettings, protocol: Seq<char>)
    ensures
        first_settings(Some(given), Some(protocol)) == given@,
        first_settings(Some(given), None) == given@,
        first_settings(None, None) == default_settings(),
        first_settings(None, Some(protocol)).request_settings.protocol == protocol,
        first_settings(None, Some(protocol)) == (SettingsView {
            request_settings: first_settings(None, Some(protocol)).request_settings,
            ..default_settings()
        }),
{
}

/// A model is chosen by an agent where it or one of its subagents selects it,
/// of the subagents only the enabled ones where those are asked for.
pub proof fn chosen_models_are_selected(
    selection: Option<ModelSelection>,
    subagents: Seq<Subagent>,
    n: int,
    enabled_only: bool,
    s: SelectionView,
)
    requires
        0 <= n <= subagents.len(),
    ensures
        chosen_by(subagents, n, enabled_only).contains(s) <==> exists|i: int|
            0 <= i < n && (#[trigger] subagents[i]).model_selection is Some
                && subagents[i].model_selection->0@ == s && (enabled_only ==> subagents[i].enabled),
        chosen_models(selection, subagents, enabled_only).contains(s) <==> (selection is Some
            && selection->0@ == s) || chosen_by(
            subagents,
            subagents.len() as int,
            enabled_only,
        ).contains(s),
    decreases n,
{
    if n > 0 {
        chosen_models_are_selected(selection, subagents, n - 1, enabled_only, s);
        let before = chosen_by(subagents, n - 1, enabled_only);
        let after = chosen_by(subagents, n, enabled_only);
        let last = subagents[n - 1];
        if last.model_selection is Some && (!enabled_only || last.enabled) {
            assert(after == before.push(last.model_selection->0@));
            assert(after[before.len() as int] == last.model_selection->0@);
            if before.contains(s) {
                let k = choose|k: int| 0 <= k < before.len() && before[k] == s;
                assert(after[k] == s);
            }
            if after.contains(s) && last.model_selection->0@ != s {
                let k = choose|k: int| 0 <= k < after.len() && after[k] == s;
                assert(before[k] == s);
            }
        } else {
            assert(after == before);
        }
    }
    let own = at_most_one(selection);
    let others = chosen_by(subagents, subagents.len() as int, enabled_only);
    let all = chosen_models(selection, subagents, enabled_only);
    if all.contains(s) {
        let k = choose|k: int| 0 <= k < all.len() && all[k] == s;
        if k >= own.len() {
            assert(others[k - own.len()] == s);
        }
    }
    if others.contains(s) {
        let k = choose|k: int| 0 <= k < others.len() && others[k] == s;
        assert(all[k + own.len()] == s);
    }
    if selection is Some {
        assert(all[0] == selection->0@);
    }
}

/// A model is vetted just where it is chosen now and was not before.
pub proof fn new_choices_are_vetted(
    requested: Seq<SelectionView>,
    retained: Seq<SelectionView>,
    s: SelectionView,
)
    ensures
        newly_chosen(requested, retained).contains(s) <==> requested.contains(s)
            && !retained.contains(s),
    decreases requested.len(),
{
    reveal(Seq::filter);
    let p = |x: SelectionView| !retained.contains(x);
    if requested.len() > 0 {
        let before = requested.drop_last();
        new_choices_are_vetted(before, retained, s);
        let f = requested.filter(p);
        let g = before.filter(p);
        assert(requested[requested.len() - 1] == requested.last());
        if before.contains(s) {
            let m = choose|m: int| 0 <= m < before.len() && before[m] == s;
            assert(requested[m] == s);
        }
        if requested.contains(s) && requested.last() != s {
            let m = choose|m: int| 0 <= m < requested.len() && requested[m] == s;
            assert(before[m] == s);
        }
        if p(requested.last()) {
            assert(f == g.push(requested.last()));
            assert(f[g.len() as int] == requested.last());
            if g.contains(s) {
                let k = choose|k: int| 0 <= k < g.len() && g[k] == s;
                assert(f[k] == s);
            }
            if f.contains(s) && requested.last() != s {
                let k = choose|k: int| 0 <= k < f.len() && f[k] == s;
                assert(g[k] == s);
            }
        }
    }
}

/// The first binding is the agent's own; a subagent that needs one has its own
/// binding under its name, with its model or the agent's, and no other has.
pub proof fn bindings_name_their_models(main: SelectionView, subagents: Seq<Subagent>, n: int, i: int)
    requires
        0 <= n <= subagents.len() <= usize::MAX,
        0 <= i < n,
    ensures
        bindings(main, subagents, n).len() > 0,
        bindings(main, subagents, n)[0].key == "main"@,
        bindings(main, subagents, n)[0].selection == main,
        bindings(main, subagents, n)[0].subagent is None,
        own_binding(subagents[i]) <==> exists|k: int|
            0 <= k < bindings(main, subagents, n).len() && (#[trigger] bindings(
                main,
                subagents,
                n,
            )[k]).subagent == Some(i as usize),
        forall|k: int|
            0 <= k < bindings(main, subagents, n).len() && (#[trigger] bindings(
                main,
                subagents,
                n,
            )[k]).subagent == Some(i as usize) ==> {
                &&& bindings(main, subagents, n)[k].key == trimmed(subagents[i].name@)
                &&& bindings(main, subagents, n)[k].selection
                    == if subagents[i].model_selection is Some {
                    subagents[i].model_selection->0@
                } else {
                    main
                }
            },
    decreases n,
{
    let before = bindings(main, subagents, n - 1);
    let after = bindings(main, subagents, n);
    lemma_first_binding(main, subagents, n);
    lemma_first_binding(main, subagents, n - 1);
    lemma_bound_below(main, subagents, n - 1);
    if i < n - 1 {
        bindings_name_their_models(main, subagents, n - 1, i);
        if own_binding(subagents[n - 1]) {
            assert(after == before.push(subagent_binding(main, subagents[n - 1], n - 1)));
            if own_binding(subagents[i]) {
                let k = choose|k: int|
                    0 <= k < before.len() && (#[trigger] before[k]).subagent == Some(i as usize);
                assert(after[k] == before[k]);
            }
            assert forall|k: int|
                0 <= k < after.len() && (#[trigger] after[k]).subagent == Some(
                    i as usize,
                ) implies k < before.len() && after[k] == before[k] by {}
        } else {
            assert(after == before);
        }
    } else if own_binding(subagents[i]) {
        assert(after == before.push(subagent_binding(main, subagents[i], i)));
        assert(after[before.len() as int].subagent == Some(i as usize));
        assert forall|k: int|
            0 <= k < after.len() && (#[trigger] after[k]).subagent == Some(i as usize) implies k
            == before.len() by {
            if k < before.len() {
                assert(after[k] == before[k]);
            }
        }
    } else {
        assert(after == before);
    }
}

proof fn lemma_bound_below(main: SelectionView, subagents: Seq<Subagent>, n: int)
    requires
        0 <= n <= subagents.len() <= usize::MAX,
    ensures
        forall|k: int|
            0 <= k < bindings(main, subagents, n).len() ==> ((#[trigger] bindings(
                main,
                subagents,
                n,
            )[k]).subagent is Some ==> bindings(main, subagents, n)[k].subagent->0 < n),
    decreases n,
{
    if n > 0 {
        lemma_bound_below(main, subagents, n - 1);
        let before = bindings(main, subagents, n - 1);
        let after = bindings(main, subagents, n);
        assert forall|k: int| 0 <= k < after.len() && (#[trigger] after[k]).subagent is Some implies
            after[k].subagent->0 < n by {
            if k < before.len() {
                assert(after[k] == before[k]);
            }
        }
    }
}

/// A subagent without its route keeps everything but its model and settings.
pub proof fn routes_are_all_that_goes(s: Subagent, r: Subagent)
    requires
        without_route(s, r),
    ensures
        r.name@ == s.name@,
        r.description@ == s.description@,
        r.developer_instructions@ == s.developer_instructions@,
        r.enabled == s.enabled,
        r.model_selection is None,
        r.overrides.reasoning_effort is Inherit,
        r.overrides.request_settings is Inherit,
        opt_view(r.disabled_reason) == opt_view(s.disabled_reason),
{
}

/// The tools of an application are read back from a list of texts and from
/// nothing else; an application that has none restricts nothing.
pub proof fn stored_tools_are_read_back(stored: Json)
    ensures
        stored_tools(None) == Ok::<Option<Seq<Seq<char>>>, Refusal>(None),
        stored_tools(Some(stored)) is Ok <==> list_of_texts(stored@) is Some,
        stored_tools(Some(stored)) matches Ok(tools) ==> tools == list_of_texts(stored@),
        stored_tools(Some(stored)) matches Err(e) ==> e.status == Status::Internal,
{
}

} // verus!
