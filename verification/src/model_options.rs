//! The models that may be chosen for an agent.

use crate::agent::offers_personal_connections;
use crate::identity::Role;
use crate::ids::Id;
use crate::text::same;
use vstd::prelude::*;

verus! {

/// Whom a connection is there for.
#[derive(Clone, Copy, Debug, PartialEq, Eq, Structural)]
pub enum ConnectionScope {
    Global,
    Personal,
}

/// Whether a connection is in use.
#[derive(Clone, Copy, Debug, PartialEq, Eq, Structural)]
pub enum ConnectionStatus {
    Enabled,
    Disabled,
}

/// A connection to a model API, as it is stored.
#[derive(Debug)]
pub struct ModelConnection {
    pub id: Id,
    pub name: String,
    pub api_type: String,
    pub allowed_model_ids: Vec<String>,
    pub scope: String,
    pub owner_id: Option<Id>,
    pub enabled: bool,
}

/// A model that may be chosen.
#[derive(Debug)]
pub struct ModelOption {
    pub connection_id: Id,
    pub connection_name: String,
    pub model_id: String,
    pub api_type: String,
    pub scope: ConnectionScope,
    pub status: ConnectionStatus,
}

/// What a `ModelOption` holds.
pub struct OptionView {
    pub connection_id: Id,
    pub connection_name: Seq<char>,
    pub model_id: Seq<char>,
    pub api_type: Seq<char>,
    pub scope: ConnectionScope,
    pub status: ConnectionStatus,
}

impl View for ModelOption {
    type V = OptionView;

    open spec fn view(&self) -> OptionView {
        OptionView {
            connection_id: self.connection_id,
            connection_name: self.connection_name@,
            model_id: self.model_id@,
            api_type: self.api_type@,
            scope: self.scope,
            status: self.status,
        }
    }
}

/// What options hold.
pub open spec fn option_views(v: Seq<ModelOption>) -> Seq<OptionView> {
    Seq::new(v.len(), |i: int| v[i]@)
}

/// Whom a stored connection is there for.
pub open spec fn scope_of(c: ModelConnection) -> ConnectionScope {
    if c.scope@ == "global"@ {
        ConnectionScope::Global
    } else {
        ConnectionScope::Personal
    }
}

/// Whether a stored connection is in use.
pub open spec fn status_of(c: ModelConnection) -> ConnectionStatus {
    if c.enabled {
        ConnectionStatus::Enabled
    } else {
        ConnectionStatus::Disabled
    }
}

/// A connection that is offered: a global one, or a personal one of the
/// agent's owner where those are.
pub open spec fn offered(c: ModelConnection, owner_id: Id, personal: bool) -> bool {
    scope_of(c) == ConnectionScope::Global || (c.owner_id == Some(owner_id) && personal)
}

/// The option that the model at `m` of a connection makes.
pub open spec fn option_of(c: ModelConnection, m: int) -> OptionView {
    OptionView {
        connection_id: c.id,
        connection_name: c.name@,
        model_id: c.allowed_model_ids@[m]@,
        api_type: c.api_type@,
        scope: scope_of(c),
        status: status_of(c),
    }
}

/// One option for each model that a connection allows.
pub open spec fn options_of(c: ModelConnection) -> Seq<OptionView> {
    Seq::new(c.allowed_model_ids@.len(), |m: int| option_of(c, m))
}

/// The options that the first `n` connections make.
pub open spec fn options_among(
    connections: Seq<ModelConnection>,
    n: int,
    owner_id: Id,
    personal: bool,
) -> Seq<OptionView>
    decreases n,
{
    if n <= 0 {
        seq![]
    } else {
        let before = options_among(connections, n - 1, owner_id, personal);
        if offered(connections[n - 1], owner_id, personal) {
            before + options_of(connections[n - 1])
        } else {
            before
        }
    }
}

/// The user is shown the personal connections of the agent's owner: they are
/// the owner, or a super administrator.
pub open spec fn sees_personal(owner_id: Id, user_id: Id, role: Role) -> bool {
    user_id == owner_id || role == Role::SuperAdmin
}

/// The models that may be chosen for an agent.
pub open spec fn model_options(
    connections: Seq<ModelConnection>,
    owner_id: Id,
    user_id: Id,
    role: Role,
) -> Seq<OptionView> {
    options_among(
        connections,
        connections.len() as int,
        owner_id,
        sees_personal(owner_id, user_id, role),
    )
}

/// Adds one option for each model that a connection allows.
fn add_options(out: &mut Vec<ModelOption>, c: &ModelConnection)
    ensures
        option_views(final(out)@) == option_views(old(out)@) + options_of(*c),
{
    let ghost before = option_views(out@);
    let scope = if same(c.scope.as_str(), "global") {
        ConnectionScope::Global
    } else {
        ConnectionScope::Personal
    };
    let status = if c.enabled {
        ConnectionStatus::Enabled
    } else {
        ConnectionStatus::Disabled
    };
    let mut m: usize = 0;
    assert(option_views(out@) =~= before + options_of(*c).take(0));
    while m < c.allowed_model_ids.len()
        invariant
            m <= c.allowed_model_ids@.len(),
            scope == scope_of(*c),
            status == status_of(*c),
            option_views(out@) == before + options_of(*c).take(m as int),
        decreases c.allowed_model_ids@.len() - m,
    {
        let ghost so_far = out@;
        out.push(
            ModelOption {
                connection_id: c.id,
                connection_name: c.name.clone(),
                model_id: c.allowed_model_ids[m].clone(),
                api_type: c.api_type.clone(),
                scope,
                status,
            },
        );
        assert(option_views(out@) =~= option_views(so_far).push(option_of(*c, m as int)));
        assert(options_of(*c).take(m + 1) =~= options_of(*c).take(m as int).push(
            option_of(*c, m as int),
        ));
        m = m + 1;
        assert(option_views(out@) =~= before + options_of(*c).take(m as int));
    }
    assert(options_of(*c).take(m as int) =~= options_of(*c));
}

/// The models that a user may choose for an agent, from the connections that
/// are not deleted: one for each model that a connection allows, in the order
/// of the connections.
pub fn get_agent_model_connection_options(
    connections: &Vec<ModelConnection>,
    owner_id: Id,
    user_id: Id,
    role: Role,
) -> (r: Vec<ModelOption>)
    ensures
        option_views(r@) == model_options(connections@, owner_id, user_id, role),
{
    let personal = offers_personal_connections(user_id == owner_id, role);
    let mut out: Vec<ModelOption> = Vec::new();
    let mut i: usize = 0;
    assert(option_views(out@) =~= options_among(connections@, 0, owner_id, personal));
    while i < connections.len()
        invariant
            i <= connections@.len(),
            option_views(out@) == options_among(connections@, i as int, owner_id, personal),
        decreases connections@.len() - i,
    {
        let c = &connections[i];
        let owned = match c.owner_id {
            Some(id) => id == owner_id,
            None => false,
        };
        if same(c.scope.as_str(), "global") || (owned && personal) {
            add_options(&mut out, c);
        }
        i = i + 1;
    }
    out
}

proof fn lemma_offered(
    connections: Seq<ModelConnection>,
    n: int,
    owner_id: Id,
    personal: bool,
    k: int,
)
    requires
        0 <= n <= connections.len(),
        0 <= k < options_among(connections, n, owner_id, personal).len(),
    ensures
        exists|i: int, m: int|
            0 <= i < n && offered(connections[i], owner_id, personal) && 0 <= m
                < connections[i].allowed_model_ids@.len() && options_among(
                connections,
                n,
                owner_id,
                personal,
            )[k] == #[trigger] option_of(connections[i], m),
    decreases n,
{
    if n > 0 {
        let before = options_among(connections, n - 1, owner_id, personal);
        let all = options_among(connections, n, owner_id, personal);
        if k < before.len() {
            lemma_offered(connections, n - 1, owner_id, personal, k);
            let (i, m) = choose|i: int, m: int|
                0 <= i < n - 1 && offered(connections[i], owner_id, personal) && 0 <= m
                    < connections[i].allowed_model_ids@.len() && before[k] == #[trigger] option_of(
                    connections[i],
                    m,
                );
            assert(all[k] == option_of(connections[i], m));
        } else {
            assert(all[k] == option_of(connections[n - 1], k - before.len()));
        }
    }
}

/// Nobody but the owner and super administrators is offered a model on a
/// personal connection, and nobody is offered one on a personal connection of
/// somebody other than the agent's owner.
pub proof fn personal_connections_stay_with_the_owner(
    connections: Seq<ModelConnection>,
    owner_id: Id,
    user_id: Id,
    role: Role,
    k: int,
)
    requires
        0 <= k < model_options(connections, owner_id, user_id, role).len(),
        model_options(connections, owner_id, user_id, role)[k].scope == ConnectionScope::Personal,
    ensures
        user_id == owner_id || role == Role::SuperAdmin,
        exists|i: int, m: int|
            0 <= i < connections.len() && connections[i].owner_id == Some(owner_id)
                && model_options(connections, owner_id, user_id, role)[k] == #[trigger] option_of(
                connections[i],
                m,
            ),
{
    let personal = sees_personal(owner_id, user_id, role);
    lemma_offered(connections, connections.len() as int, owner_id, personal, k);
}

/// Every model that a global connection allows is offered to everybody.
pub proof fn global_models_are_offered_to_all(
    connections: Seq<ModelConnection>,
    owner_id: Id,
    user_id: Id,
    role: Role,
    i: int,
    m: int,
)
    requires
        0 <= i < connections.len(),
        scope_of(connections[i]) == ConnectionScope::Global,
        0 <= m < connections[i].allowed_model_ids@.len(),
    ensures
        model_options(connections, owner_id, user_id, role).contains(option_of(connections[i], m)),
{
    lemma_global_offered(
        connections,
        connections.len() as int,
        owner_id,
        sees_personal(owner_id, user_id, role),
        i,
        m,
    );
}

proof fn lemma_global_offered(
    connections: Seq<ModelConnection>,
    n: int,
    owner_id: Id,
    personal: bool,
    i: int,
    m: int,
)
    requires
        0 <= i < n <= connections.len(),
        scope_of(connections[i]) == ConnectionScope::Global,
        0 <= m < connections[i].allowed_model_ids@.len(),
    ensures
        options_among(connections, n, owner_id, personal).contains(option_of(connections[i], m)),
    decreases n,
{
    let before = options_among(connections, n - 1, owner_id, personal);
    let all = options_among(connections, n, owner_id, personal);
    if i == n - 1 {
        assert(all[before.len() + m] == option_of(connections[i], m));
    } else {
        lemma_global_offered(connections, n - 1, owner_id, personal, i, m);
        let k = choose|k: int| 0 <= k < before.len() && before[k] == option_of(connections[i], m);
        assert(all[k] == before[k]);
    }
}

/// A connection is global where it says so, and its models are on offer or
/// not as it is enabled or not.
pub proof fn connections_are_offered_as_they_are(
    c: ModelConnection,
    m: int,
    owner_id: Id,
    user_id: Id,
    role: Role,
)
    ensures
        scope_of(c) == ConnectionScope::Global <==> c.scope@ == "global"@,
        option_of(c, m).connection_id == c.id,
        option_of(c, m).connection_name == c.name@,
        option_of(c, m).api_type == c.api_type@,
        option_of(c, m).scope == scope_of(c),
        option_of(c, m).status == ConnectionStatus::Enabled <==> c.enabled,
        0 <= m < c.allowed_model_ids@.len() ==> option_of(c, m).model_id
            == c.allowed_model_ids@[m]@,
        sees_personal(owner_id, user_id, role) <==> user_id == owner_id || role
            == Role::SuperAdmin,
        offered(c, owner_id, true) <==> c.scope@ == "global"@ || c.owner_id == Some(owner_id),
        offered(c, owner_id, false) <==> c.scope@ == "global"@,
        options_of(c).len() == c.allowed_model_ids@.len(),
        0 <= m < c.allowed_model_ids@.len() ==> options_of(c)[m] == option_of(c, m),
{
}

/// One more connection adds its models behind the others, where it is offered,
/// and takes none away.
pub proof fn connections_add_their_models(
    connections: Seq<ModelConnection>,
    c: ModelConnection,
    owner_id: Id,
    user_id: Id,
    role: Role,
)
    ensures
        model_options(seq![], owner_id, user_id, role).len() == 0,
        model_options(connections.push(c), owner_id, user_id, role) == model_options(
            connections,
            owner_id,
            user_id,
            role,
        ) + if c.scope@ == "global"@ || (c.owner_id == Some(owner_id) && (user_id == owner_id
            || role == Role::SuperAdmin)) {
            options_of(c)
        } else {
            seq![]
        },
{
    let all = connections.push(c);
    lemma_options_below(
        connections,
        all,
        connections.len() as int,
        owner_id,
        sees_personal(owner_id, user_id, role),
    );
    assert(all[connections.len() as int] == c);
    let before = model_options(connections, owner_id, user_id, role);
    assert(before + Seq::<OptionView>::empty() =~= before);
}

proof fn lemma_options_below(
    a: Seq<ModelConnection>,
    b: Seq<ModelConnection>,
    n: int,
    owner_id: Id,
    personal: bool,
)
    requires
        n <= a.len() <= b.len(),
        forall|i: int| 0 <= i < n ==> #[trigger] a[i] == b[i],
    ensures
        options_among(a, n, owner_id, personal) == options_among(b, n, owner_id, personal),
    decreases n,
{
    if n > 0 {
        lemma_options_below(a, b, n - 1, owner_id, personal);
        assert(a[n - 1] == b[n - 1]);
    }
}

} // verus!
