//! The configuration that an agent runs with: whether a change reaches its
//! runs, and which skills it brings.

use crate::ids::Id;
use crate::json::{copy_json, json_eq, json_equal, json_text, json_text_of, Json, JsonView};
use crate::model_settings::{opt_selection, same_selection, ModelSelection};
use crate::oauth::same_texts;
use crate::order::{
    in_order, lemma_less_total, lemma_less_transitive, less, order_is_unique, sort_texts, text_less,
};
use crate::text::{blank, is_blank, same, trim, trimmed, views};
use crate::tool_batch::json_views;
use vstd::prelude::*;

verus! {

// ---------------------------------------------------------------------------
// Collections without an order
// ---------------------------------------------------------------------------

/// `listed` holds the texts of `texts`, in ascending order.
pub open spec fn listing(texts: Seq<Seq<char>>, listed: Seq<Seq<char>>) -> bool {
    in_order(listed) && listed.to_multiset() == texts.to_multiset()
}

/// Tells whether two lists hold the same identifiers, in any order and however
/// often.
pub fn same_id_set(a: &Vec<Id>, b: &Vec<Id>) -> (r: bool)
    ensures
        r == (forall|id: Id| a@.contains(id) <==> b@.contains(id)),
{
    ids_within(a, b) && ids_within(b, a)
}

fn ids_within(a: &Vec<Id>, b: &Vec<Id>) -> (r: bool)
    ensures
        r == (forall|id: Id| a@.contains(id) ==> b@.contains(id)),
{
    let mut i: usize = 0;
    while i < a.len()
        invariant
            i <= a@.len(),
            forall|k: int| 0 <= k < i ==> b@.contains(#[trigger] a@[k]),
        decreases a@.len() - i,
    {
        if !crate::agent::holds_id(b, a[i]) {
            assert(a@.contains(a@[i as int]));
            return false;
        }
        i = i + 1;
    }
    true
}

// ---------------------------------------------------------------------------
// Whether a change reaches the runs
// ---------------------------------------------------------------------------

/// What an agent declares about a secret.
#[derive(Debug)]
pub struct SecretDeclaration {
    pub name: String,
    pub kind: Json,
    pub description: Json,
}

/// The declaration as a JSON object.
pub open spec fn declaration_json(d: SecretDeclaration) -> JsonView {
    JsonView::Object(
        seq![
            ("description"@, d.description@),
            ("kind"@, d.kind@),
            ("name"@, JsonView::Text(d.name@)),
        ],
    )
}

/// The texts of declarations.
pub open spec fn declaration_texts(v: Seq<SecretDeclaration>) -> Seq<Seq<char>> {
    Seq::new(v.len(), |i: int| json_text_of(declaration_json(v[i])))
}

/// The texts of declarations, in ascending order. The canonical text of a
/// value is taken to be its compact text with the keys of every object in
/// order.
pub fn normalized_secret_declarations(declarations: &Vec<SecretDeclaration>) -> (r: Vec<String>)
    ensures
        listing(declaration_texts(declarations@), views(r@)),
{
    let ghost wanted = declaration_texts(declarations@);
    let mut out: Vec<String> = Vec::new();
    let mut i: usize = 0;
    while i < declarations.len()
        invariant
            i <= declarations@.len(),
            i == out@.len(),
            wanted == declaration_texts(declarations@),
            forall|k: int| 0 <= k < i ==> (#[trigger] out@[k])@ == wanted[k],
        decreases declarations@.len() - i,
    {
        let d = &declarations[i];
        let name = Json::Text(d.name.clone());
        assert(name@ == JsonView::Text(d.name@));
        let fields = vec![
            ("description".to_owned(), copy_json(&d.description)),
            ("kind".to_owned(), copy_json(&d.kind)),
            ("name".to_owned(), name),
        ];
        let json = Json::Object(fields);
        assert(json@->Object_0 =~= declaration_json(*d)->Object_0);
        out.push(json_text(&json));
        i = i + 1;
    }
    assert(views(out@) =~= wanted);
    sort_texts(&out)
}

/// The texts of values.
pub open spec fn value_texts(v: Seq<JsonView>) -> Seq<Seq<char>> {
    Seq::new(v.len(), |i: int| json_text_of(v[i]))
}

/// The texts of values, in ascending order. The canonical text of a
/// value is taken to be its compact text with the keys of every object in
/// order.
pub fn normalized_values(values: &Vec<Json>) -> (r: Vec<String>)
    ensures
        listing(value_texts(json_views(values@)), views(r@)),
{
    let ghost wanted = value_texts(json_views(values@));
    let mut out: Vec<String> = Vec::new();
    let mut i: usize = 0;
    while i < values.len()
        invariant
            i <= values@.len(),
            i == out@.len(),
            wanted == value_texts(json_views(values@)),
            forall|k: int| 0 <= k < i ==> (#[trigger] out@[k])@ == wanted[k],
        decreases values@.len() - i,
    {
        out.push(json_text(&values[i]));
        i = i + 1;
    }
    assert(views(out@) =~= wanted);
    sort_texts(&out)
}

/// The texts of the entries of a list; none where it is no list.
pub open spec fn entry_texts(value: JsonView) -> Seq<Seq<char>> {
    match value.items() {
        Some(items) => value_texts(items),
        None => seq![],
    }
}

/// The texts of the entries of a list, in ascending order. The canonical text
/// of a value is taken to be its compact text with the keys of every object in
/// order.
pub fn normalized_unordered_entries(value: &Json) -> (r: Vec<String>)
    ensures
        listing(entry_texts(value@), views(r@)),
{
    match value {
        Json::List(items) => {
            let r = normalized_values(items);
            assert(json_views(items@) =~= value@->List_0);
            r
        },
        _ => {
            let none: Vec<String> = Vec::new();
            assert(views(none@) =~= seq![]);
            none
        },
    }
}

/// What of an agent its runs depend on. The settings of the model and the
/// subagents stand in it as JSON values.
#[derive(Debug)]
pub struct ExecutionConfiguration {
    pub instructions: String,
    pub model_selection: Option<ModelSelection>,
    pub model_settings: Json,
    pub subagents: Vec<Json>,
    pub model_policy: Json,
    pub sandbox_policy: Json,
    pub mcp_allowlist: Json,
    pub tool_allowlist: Vec<String>,
    pub managed_skill_ids: Vec<Id>,
    /// None where a request leaves the declarations as they are.
    pub secret_declarations: Option<Vec<SecretDeclaration>>,
}

/// The texts of declarations that may be missing.
pub open spec fn declared_texts(v: Option<Vec<SecretDeclaration>>) -> Seq<Seq<char>> {
    match v {
        Some(d) => declaration_texts(d@),
        None => seq![],
    }
}

/// The texts by which parts without an order are compared, in ascending order.
#[derive(Debug)]
pub struct ConfigurationTexts {
    pub subagents: Vec<String>,
    pub servers: Vec<String>,
    pub declarations: Vec<String>,
}

/// Nothing is different in the parts that have an order, nor in the skills.
pub open spec fn same_ordered_parts(
    existing: ExecutionConfiguration,
    request: ExecutionConfiguration,
) -> bool {
    &&& existing.instructions@ == trimmed(request.instructions@)
    &&& opt_selection(existing.model_selection) == opt_selection(request.model_selection)
    &&& json_eq(existing.model_settings@, request.model_settings@)
    &&& json_eq(existing.model_policy@, request.model_policy@)
    &&& json_eq(existing.sandbox_policy@, request.sandbox_policy@)
    &&& views(existing.tool_allowlist@) == views(request.tool_allowlist@)
    &&& forall|id: Id|
        existing.managed_skill_ids@.contains(id) <==> request.managed_skill_ids@.contains(id)
}

/// The runs of an agent stay as they are: nothing that they depend on is
/// different, given the texts of subagents, servers and declarations.
pub open spec fn unchanged(
    existing: ExecutionConfiguration,
    request: ExecutionConfiguration,
    existing_texts: ConfigurationTexts,
    request_texts: ConfigurationTexts,
) -> bool {
    &&& same_ordered_parts(existing, request)
    &&& views(existing_texts.subagents@) == views(request_texts.subagents@)
    &&& views(existing_texts.servers@) == views(request_texts.servers@)
    &&& request.secret_declarations is Some ==> views(existing_texts.declarations@) == views(
        request_texts.declarations@,
    )
}

/// The runs of an agent stay as they are: nothing that they depend on is
/// different, whatever the order of subagents, servers, skills and
/// declarations.
pub open spec fn same_configuration(
    existing: ExecutionConfiguration,
    request: ExecutionConfiguration,
) -> bool {
    &&& same_ordered_parts(existing, request)
    &&& value_texts(json_views(existing.subagents@)).to_multiset() == value_texts(
        json_views(request.subagents@),
    ).to_multiset()
    &&& entry_texts(existing.mcp_allowlist@).to_multiset() == entry_texts(
        request.mcp_allowlist@,
    ).to_multiset()
    &&& request.secret_declarations is Some ==> declared_texts(
        existing.secret_declarations,
    ).to_multiset() == declared_texts(request.secret_declarations).to_multiset()
}

/// The texts of subagents, servers and declarations, in ascending order.
pub fn configuration_texts(c: &ExecutionConfiguration) -> (r: ConfigurationTexts)
    ensures
        listing(value_texts(json_views(c.subagents@)), views(r.subagents@)),
        listing(entry_texts(c.mcp_allowlist@), views(r.servers@)),
        listing(declared_texts(c.secret_declarations), views(r.declarations@)),
{
    let declarations = match &c.secret_declarations {
        Some(d) => normalized_secret_declarations(d),
        None => {
            let none: Vec<String> = Vec::new();
            assert(views(none@) =~= seq![]);
            none
        },
    };
    ConfigurationTexts {
        subagents: normalized_values(&c.subagents),
        servers: normalized_unordered_entries(&c.mcp_allowlist),
        declarations,
    }
}

/// Tells whether a request changes what the runs of an agent depend on, given
/// the texts by which parts without an order are compared.
pub fn configuration_differs(
    existing: &ExecutionConfiguration,
    request: &ExecutionConfiguration,
    existing_texts: &ConfigurationTexts,
    request_texts: &ConfigurationTexts,
) -> (r: bool)
    ensures
        r == !unchanged(*existing, *request, *existing_texts, *request_texts),
{
    let instructions = trim(request.instructions.as_str());
    if !same(existing.instructions.as_str(), instructions.as_str()) {
        return true;
    }
    if !same_selection(&existing.model_selection, &request.model_selection) {
        return true;
    }
    if !json_equal(&existing.model_settings, &request.model_settings) || !json_equal(
        &existing.model_policy,
        &request.model_policy,
    ) || !json_equal(&existing.sandbox_policy, &request.sandbox_policy) {
        return true;
    }
    if !same_texts(&existing_texts.subagents, &request_texts.subagents) || !same_texts(
        &existing_texts.servers,
        &request_texts.servers,
    ) {
        return true;
    }
    if !same_texts(&existing.tool_allowlist, &request.tool_allowlist) {
        return true;
    }
    if !same_id_set(&existing.managed_skill_ids, &request.managed_skill_ids) {
        return true;
    }
    request.secret_declarations.is_some() && !same_texts(
        &existing_texts.declarations,
        &request_texts.declarations,
    )
}

/// Tells whether a request changes what the runs of an agent depend on.
pub fn agent_execution_configuration_changed(
    existing: &ExecutionConfiguration,
    request: &ExecutionConfiguration,
) -> (r: bool)
    ensures
        r == !same_configuration(*existing, *request),
{
    let kept = configuration_texts(existing);
    let asked = configuration_texts(request);
    proof {
        order_is_unique(views(kept.subagents@), views(asked.subagents@));
        order_is_unique(views(kept.servers@), views(asked.servers@));
        order_is_unique(views(kept.declarations@), views(asked.declarations@));
    }
    configuration_differs(existing, request, &kept, &asked)
}

/// Saving an agent as it is changes nothing for its runs, nor does another
/// order of its subagents.
pub proof fn saving_unchanged_keeps_the_runs(existing: ExecutionConfiguration, request: ExecutionConfiguration)
    requires
        existing.instructions@ == trimmed(existing.instructions@),
        request.instructions@ == existing.instructions@,
        opt_selection(request.model_selection) == opt_selection(existing.model_selection),
        request.model_settings@ == existing.model_settings@,
        value_texts(json_views(request.subagents@)).to_multiset() == value_texts(
            json_views(existing.subagents@),
        ).to_multiset(),
        request.model_policy@ == existing.model_policy@,
        request.sandbox_policy@ == existing.sandbox_policy@,
        request.mcp_allowlist@ == existing.mcp_allowlist@,
        views(request.tool_allowlist@) == views(existing.tool_allowlist@),
        request.managed_skill_ids@ == existing.managed_skill_ids@,
        request.secret_declarations is None,
    ensures
        same_configuration(existing, request),
{
    crate::json::json_eq_reflexive(existing.model_settings@);
    crate::json::json_eq_reflexive(existing.model_policy@);
    crate::json::json_eq_reflexive(existing.sandbox_policy@);
}

// ---------------------------------------------------------------------------
// Skills
// ---------------------------------------------------------------------------

/// The files of a skill, packed.
#[derive(Debug)]
pub struct SkillPackage {
    pub id: Id,
    pub format_version: u32,
    pub size_bytes: u64,
    pub checksum: String,
    pub files: Json,
}

/// What a `SkillPackage` holds.
pub struct SkillPackageView {
    pub id: Id,
    pub format_version: u32,
    pub size_bytes: u64,
    pub checksum: Seq<char>,
    pub files: JsonView,
}

impl View for SkillPackage {
    type V = SkillPackageView;

    open spec fn view(&self) -> SkillPackageView {
        SkillPackageView {
            id: self.id,
            format_version: self.format_version,
            size_bytes: self.size_bytes,
            checksum: self.checksum@,
            files: self.files@,
        }
    }
}

/// What the package of a skill holds, if it has one.
pub open spec fn package_view(package: Option<SkillPackage>) -> Option<SkillPackageView> {
    match package {
        Some(p) => Some(p@),
        None => None,
    }
}

/// The package of a skill, from the columns that it is stored in: a skill
/// without the identifier of one has none.
pub fn execution_skill_package_from_row(
    id: Option<Id>,
    format_version: i32,
    size_bytes: i64,
    checksum: String,
    files: Json,
) -> (r: Option<SkillPackage>)
    requires
        id is Some ==> format_version >= 0 && size_bytes >= 0,
    ensures
        package_view(r) == match id {
            Some(id) => Some(
                SkillPackageView {
                    id,
                    format_version: format_version as u32,
                    size_bytes: size_bytes as u64,
                    checksum: checksum@,
                    files: files@,
                },
            ),
            None => None,
        },
{
    match id {
        Some(id) => Some(
            SkillPackage {
                id,
                format_version: format_version as u32,
                size_bytes: size_bytes as u64,
                checksum,
                files,
            },
        ),
        None => None,
    }
}

/// A skill of an agent, as it is stored.
#[derive(Debug)]
pub struct SkillRow {
    pub id: Id,
    pub name: String,
    pub description: String,
    pub content: String,
    pub revision: i64,
    pub checksum: String,
    pub package: Option<SkillPackage>,
}

/// What a `SkillRow` holds.
pub struct SkillRowView {
    pub id: Id,
    pub name: Seq<char>,
    pub description: Seq<char>,
    pub content: Seq<char>,
    pub revision: i64,
    pub checksum: Seq<char>,
    pub package: Option<SkillPackageView>,
}

impl View for SkillRow {
    type V = SkillRowView;

    open spec fn view(&self) -> SkillRowView {
        SkillRowView {
            id: self.id,
            name: self.name@,
            description: self.description@,
            content: self.content@,
            revision: self.revision,
            checksum: self.checksum@,
            package: package_view(self.package),
        }
    }
}

/// What stored skills hold.
pub open spec fn skill_row_views(v: Seq<SkillRow>) -> Seq<SkillRowView> {
    Seq::new(v.len(), |i: int| v[i]@)
}

/// A skill that an agent brings to its runs.
#[derive(Debug)]
pub struct Skill {
    pub source: String,
    pub source_id: Option<Id>,
    pub name: String,
    pub description: String,
    pub content: String,
    pub revision: i64,
    pub checksum: String,
    pub package: Option<SkillPackage>,
}

/// What a `Skill` holds.
pub struct SkillView {
    pub source: Seq<char>,
    pub source_id: Option<Id>,
    pub name: Seq<char>,
    pub description: Seq<char>,
    pub content: Seq<char>,
    pub revision: i64,
    pub checksum: Seq<char>,
    pub package: Option<SkillPackageView>,
}

impl View for Skill {
    type V = SkillView;

    open spec fn view(&self) -> SkillView {
        SkillView {
            source: self.source@,
            source_id: self.source_id,
            name: self.name@,
            description: self.description@,
            content: self.content@,
            revision: self.revision,
            checksum: self.checksum@,
            package: package_view(self.package),
        }
    }
}

/// What skills hold.
pub open spec fn skill_views(v: Seq<Skill>) -> Seq<SkillView> {
    Seq::new(v.len(), |i: int| v[i]@)
}

/// A stored skill as it is brought: it is a managed one, and without a
/// description it is described by its name.
pub open spec fn described(s: SkillRowView) -> SkillView {
    SkillView {
        source: "managed"@,
        source_id: Some(s.id),
        name: s.name,
        description: if blank(s.description) {
            s.name
        } else {
            s.description
        },
        content: s.content,
        revision: s.revision,
        checksum: s.checksum,
        package: s.package,
    }
}

/// The last of the first `n` skills with this name.
pub open spec fn last_named(v: Seq<SkillRowView>, name: Seq<char>, n: int) -> Option<SkillRowView>
    decreases n,
{
    if n <= 0 {
        None
    } else if v[n - 1].name == name {
        Some(v[n - 1])
    } else {
        last_named(v, name, n - 1)
    }
}

/// `out` brings the first `n` skills: one for each name, the last with that
/// name, in ascending order of the names.
pub open spec fn brings(out: Seq<SkillView>, v: Seq<SkillRowView>, n: int) -> bool {
    &&& forall|i: int, j: int|
        0 <= i < j < out.len() ==> less((#[trigger] out[i]).name, (#[trigger] out[j]).name)
    &&& forall|i: int|
        0 <= i < out.len() ==> last_named(v, (#[trigger] out[i]).name, n) is Some && out[i]
            == described(last_named(v, out[i].name, n)->0)
    &&& forall|k: int|
        0 <= k < n ==> exists|i: int|
            0 <= i < out.len() && (#[trigger] out[i]).name == (#[trigger] v[k]).name
}

fn copy_package(package: &Option<SkillPackage>) -> (r: Option<SkillPackage>)
    ensures
        package_view(r) == package_view(*package),
{
    match package {
        Some(p) => Some(
            SkillPackage {
                id: p.id,
                format_version: p.format_version,
                size_bytes: p.size_bytes,
                checksum: p.checksum.clone(),
                files: copy_json(&p.files),
            },
        ),
        None => None,
    }
}

fn describe(s: &SkillRow) -> (r: Skill)
    ensures
        r@ == described(s@),
{
    let description = if is_blank(s.description.as_str()) {
        s.name.clone()
    } else {
        s.description.clone()
    };
    Skill {
        source: "managed".to_owned(),
        source_id: Some(s.id),
        name: s.name.clone(),
        description,
        content: s.content.clone(),
        revision: s.revision,
        checksum: s.checksum.clone(),
        package: copy_package(&s.package),
    }
}

/// The skills that an agent brings to its runs.
pub fn execution_skills(rows: &Vec<SkillRow>) -> (r: Vec<Skill>)
    ensures
        brings(skill_views(r@), skill_row_views(rows@), rows@.len() as int),
{
    let ghost all = skill_row_views(rows@);
    let mut out: Vec<Skill> = Vec::new();
    let mut n: usize = 0;
    while n < rows.len()
        invariant
            n <= rows@.len(),
            all == skill_row_views(rows@),
            brings(skill_views(out@), all, n as int),
        decreases rows@.len() - n,
    {
        let ghost before = skill_views(out@);
        let name = rows[n].name.as_str();
        assert(all[n as int] == rows@[n as int]@);
        let mut at: usize = 0;
        while at < out.len() && text_less(out[at].name.as_str(), name)
            invariant
                at <= out@.len(),
                before == skill_views(out@),
                forall|k: int| 0 <= k < at ==> less((#[trigger] before[k]).name, name@),
            decreases out@.len() - at,
        {
            assert(before[at as int].name == out@[at as int].name@);
            at = at + 1;
        }
        let found = at < out.len() && same(out[at].name.as_str(), name);
        proof {
            if at < before.len() {
                assert(before[at as int].name == out@[at as int].name@);
            }
        }
        let item = describe(&rows[n]);
        let ghost added = item@;
        if found {
            out.remove(at);
            out.insert(at, item);
            assert(skill_views(out@) =~= before.update(at as int, added));
            proof {
                lemma_replace(before, all, n as int, at as int, added);
            }
        } else {
            out.insert(at, item);
            assert(skill_views(out@) =~= before.insert(at as int, added));
            proof {
                lemma_insert(before, all, n as int, at as int, added);
            }
        }
        n = n + 1;
    }
    out
}

proof fn lemma_replace(out: Seq<SkillView>, v: Seq<SkillRowView>, n: int, at: int, added: SkillView)
    requires
        brings(out, v, n),
        0 <= n < v.len(),
        0 <= at < out.len(),
        out[at].name == v[n].name,
        added == described(v[n]),
    ensures
        brings(out.update(at, added), v, n + 1),
{
    let w = out.update(at, added);
    assert forall|i: int, j: int| 0 <= i < j < w.len() implies less(
        (#[trigger] w[i]).name,
        (#[trigger] w[j]).name,
    ) by {
        assert(w[i].name == out[i].name);
        assert(w[j].name == out[j].name);
    }
    assert forall|i: int| 0 <= i < w.len() implies last_named(v, (#[trigger] w[i]).name, n + 1)
        is Some && w[i] == described(last_named(v, w[i].name, n + 1)->0) by {
        if i != at {
            assert(w[i] == out[i]);
            if i < at {
                assert(less(out[i].name, out[at].name));
            } else {
                assert(less(out[at].name, out[i].name));
            }
            lemma_less_total(out[i].name, out[at].name);
        }
    }
    assert forall|k: int| 0 <= k < n + 1 implies exists|i: int|
        0 <= i < w.len() && (#[trigger] w[i]).name == (#[trigger] v[k]).name by {
        if k < n {
            let i = choose|i: int|
                0 <= i < out.len() && (#[trigger] out[i]).name == v[k].name;
            assert(w[i].name == v[k].name);
        } else {
            assert(w[at].name == v[k].name);
        }
    }
}

proof fn lemma_insert(out: Seq<SkillView>, v: Seq<SkillRowView>, n: int, at: int, added: SkillView)
    requires
        brings(out, v, n),
        0 <= n < v.len(),
        0 <= at <= out.len(),
        forall|k: int| 0 <= k < at ==> less((#[trigger] out[k]).name, v[n].name),
        at < out.len() ==> !less(out[at].name, v[n].name) && out[at].name != v[n].name,
        added == described(v[n]),
    ensures
        brings(out.insert(at, added), v, n + 1),
{
    let w = out.insert(at, added);
    assert forall|k: int| at <= k < out.len() implies less(v[n].name, (#[trigger] out[k]).name) by {
        lemma_less_total(out[at].name, v[n].name);
        if k > at {
            assert(less(out[at].name, out[k].name));
            lemma_less_transitive(v[n].name, out[at].name, out[k].name);
        }
    }
    assert forall|i: int, j: int| 0 <= i < j < w.len() implies less(
        (#[trigger] w[i]).name,
        (#[trigger] w[j]).name,
    ) by {
        let a = if i < at {
            i
        } else {
            i - 1
        };
        let b = if j < at {
            j
        } else {
            j - 1
        };
        if i != at && j != at {
            assert(w[i] == out[a] && w[j] == out[b]);
        } else if i == at {
            assert(w[j] == out[b]);
        } else {
            assert(w[i] == out[a]);
        }
    }
    assert forall|i: int| 0 <= i < w.len() implies last_named(v, (#[trigger] w[i]).name, n + 1)
        is Some && w[i] == described(last_named(v, w[i].name, n + 1)->0) by {
        if i != at {
            let a = if i < at {
                i
            } else {
                i - 1
            };
            assert(w[i] == out[a]);
            lemma_less_total(out[a].name, v[n].name);
        }
    }
    assert forall|k: int| 0 <= k < n + 1 implies exists|i: int|
        0 <= i < w.len() && (#[trigger] w[i]).name == (#[trigger] v[k]).name by {
        if k < n {
            let i = choose|i: int|
                0 <= i < out.len() && (#[trigger] out[i]).name == v[k].name;
            if i < at {
                assert(w[i].name == v[k].name);
            } else {
                assert(w[i + 1] == out[i]);
                assert(w[i + 1].name == v[k].name);
            }
        } else {
            assert(w[at].name == v[k].name);
        }
    }
}

/// A configuration that counts as unchanged has the same instructions, model,
/// settings, policies, tools and skills, and, in any order, the same subagents,
/// servers and, where they are given, declarations.
pub proof fn changes_are_noticed(existing: ExecutionConfiguration, request: ExecutionConfiguration)
    ensures
        existing.instructions@ != trimmed(request.instructions@) ==> !same_configuration(
            existing,
            request,
        ),
        opt_selection(existing.model_selection) != opt_selection(request.model_selection)
            ==> !same_configuration(existing, request),
        !json_eq(existing.model_settings@, request.model_settings@) ==> !same_configuration(
            existing,
            request,
        ),
        !json_eq(existing.model_policy@, request.model_policy@) ==> !same_configuration(
            existing,
            request,
        ),
        !json_eq(existing.sandbox_policy@, request.sandbox_policy@) ==> !same_configuration(
            existing,
            request,
        ),
        views(existing.tool_allowlist@) != views(request.tool_allowlist@) ==> !same_configuration(
            existing,
            request,
        ),
        (exists|id: Id|
            existing.managed_skill_ids@.contains(id) != request.managed_skill_ids@.contains(id))
            ==> !same_configuration(existing, request),
        value_texts(json_views(existing.subagents@)).to_multiset() != value_texts(
            json_views(request.subagents@),
        ).to_multiset() ==> !same_configuration(existing, request),
        entry_texts(existing.mcp_allowlist@).to_multiset() != entry_texts(
            request.mcp_allowlist@,
        ).to_multiset() ==> !same_configuration(existing, request),
        request.secret_declarations is Some && declared_texts(
            existing.secret_declarations,
        ).to_multiset() != declared_texts(request.secret_declarations).to_multiset()
            ==> !same_configuration(existing, request),
        existing.instructions@ == trimmed(request.instructions@) && opt_selection(
            existing.model_selection,
        ) == opt_selection(request.model_selection) && json_eq(
            existing.model_settings@,
            request.model_settings@,
        ) && json_eq(existing.model_policy@, request.model_policy@) && json_eq(
            existing.sandbox_policy@,
            request.sandbox_policy@,
        ) && views(existing.tool_allowlist@) == views(request.tool_allowlist@) && (forall|id: Id|
            existing.managed_skill_ids@.contains(id) <==> request.managed_skill_ids@.contains(id))
            && value_texts(json_views(existing.subagents@)).to_multiset() == value_texts(
            json_views(request.subagents@),
        ).to_multiset() && entry_texts(existing.mcp_allowlist@).to_multiset() == entry_texts(
            request.mcp_allowlist@,
        ).to_multiset() && (request.secret_declarations is None || declared_texts(
            existing.secret_declarations,
        ).to_multiset() == declared_texts(request.secret_declarations).to_multiset())
            ==> same_configuration(existing, request),
{
}

/// Comparing the lists of two configurations is comparing the configurations.
pub proof fn lists_stand_for_their_configurations(
    existing: ExecutionConfiguration,
    request: ExecutionConfiguration,
    kept: ConfigurationTexts,
    asked: ConfigurationTexts,
)
    requires
        listing(value_texts(json_views(existing.subagents@)), views(kept.subagents@)),
        listing(entry_texts(existing.mcp_allowlist@), views(kept.servers@)),
        listing(declared_texts(existing.secret_declarations), views(kept.declarations@)),
        listing(value_texts(json_views(request.subagents@)), views(asked.subagents@)),
        listing(entry_texts(request.mcp_allowlist@), views(asked.servers@)),
        listing(declared_texts(request.secret_declarations), views(asked.declarations@)),
    ensures
        unchanged(existing, request, kept, asked) <==> same_configuration(existing, request),
{
    order_is_unique(views(kept.subagents@), views(asked.subagents@));
    order_is_unique(views(kept.servers@), views(asked.servers@));
    order_is_unique(views(kept.declarations@), views(asked.declarations@));
}

/// A declaration tells its name, its kind and its description.
pub proof fn declarations_are_told_whole(d: SecretDeclaration)
    ensures
        declaration_json(d).text_field("name"@) == Some(d.name@),
        declaration_json(d).field("kind"@) == Some(d.kind@),
        declaration_json(d).field("description"@) == Some(d.description@),
        declaration_json(d)->Object_0.len() == 3,
{
    reveal_strlit("description");
    reveal_strlit("kind");
    reveal_strlit("name");
    assert("description"@.len() == 11 && "kind"@[0] == 'k' && "name"@[0] == 'n');
    assert("kind"@.len() == 4 && "name"@.len() == 4);
    reveal_with_fuel(crate::json::field_from, 4);
}

/// A skill is brought as it is stored; one without a description is described
/// by its name.
pub proof fn skills_are_brought_as_stored(s: SkillRowView)
    ensures
        described(s).source == "managed"@,
        described(s).source_id == Some(s.id),
        described(s).name == s.name,
        !blank(s.description) ==> described(s).description == s.description,
        blank(s.description) ==> described(s).description == s.name,
        described(s).content == s.content,
        described(s).revision == s.revision,
        described(s).checksum == s.checksum,
        described(s).package == s.package,
{
}

/// Of the skills of one name the last is brought, once, and every name is.
pub proof fn the_last_skill_of_a_name_is_brought(
    out: Seq<SkillView>,
    v: Seq<SkillRowView>,
    n: int,
    k: int,
    i: int,
    j: int,
)
    requires
        0 <= n <= v.len(),
        brings(out, v, n),
        0 <= k < n,
        0 <= i < out.len(),
        0 <= j < out.len(),
    ensures
        exists|m: int| 0 <= m < out.len() && (#[trigger] out[m]).name == v[k].name,
        i < j ==> less(out[i].name, out[j].name),
        out[i].name == v[k].name && (forall|m: int|
            k < m < n ==> (#[trigger] v[m]).name != v[k].name) ==> out[i] == described(v[k]),
        exists|m: int| 0 <= m < n && (#[trigger] v[m]).name == out[i].name,
{
    assert(v[k].name == v[k].name);
    lemma_last(v, out[i].name, n);
    let m = choose|m: int|
        0 <= m < n && (#[trigger] v[m]).name == out[i].name && last_named(v, out[i].name, n)
            == Some(v[m]) && forall|q: int| m < q < n ==> (#[trigger] v[q]).name != out[i].name;
    if out[i].name == v[k].name && (forall|m: int|
        k < m < n ==> (#[trigger] v[m]).name != v[k].name) {
        assert(v[m].name == v[k].name);
        assert(m == k);
    }
}

proof fn lemma_last(v: Seq<SkillRowView>, name: Seq<char>, n: int)
    requires
        0 <= n <= v.len(),
    ensures
        last_named(v, name, n) is Some ==> exists|m: int|
            0 <= m < n && (#[trigger] v[m]).name == name && last_named(v, name, n) == Some(v[m])
                && forall|q: int| m < q < n ==> (#[trigger] v[q]).name != name,
        last_named(v, name, n) is None ==> forall|m: int|
            0 <= m < n ==> (#[trigger] v[m]).name != name,
    decreases n,
{
    if n > 0 {
        if v[n - 1].name == name {
            assert(last_named(v, name, n) == Some(v[n - 1]));
        } else {
            lemma_last(v, name, n - 1);
            if last_named(v, name, n) is Some {
                let m = choose|m: int|
                    0 <= m < n - 1 && (#[trigger] v[m]).name == name && last_named(v, name, n - 1)
                        == Some(v[m]) && forall|q: int|
                        m < q < n - 1 ==> (#[trigger] v[q]).name != name;
                assert(v[m].name == name && last_named(v, name, n) == Some(v[m]));
                assert forall|q: int| m < q < n implies (#[trigger] v[q]).name != name by {}
            }
        }
    }
}

} // verus!
