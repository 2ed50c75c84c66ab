//! Settings of the model that an agent uses, and what its subagents make of
//! them.

use crate::error::{error_of, plain, refused, ApiError, ErrorView, Status};
use crate::ids::Id;
use crate::json::{copy_json, Json, JsonView};
use crate::text::{
    any_control, blank, char_count, copy_opt, has_control, join, opt_view, same, trimmed,
};
use vstd::prelude::*;

verus! {

/// The settings of a request under one upstream protocol.
#[derive(Debug)]
pub struct RequestSettings {
    pub protocol: String,
    pub options: Json,
}

/// What `RequestSettings` holds.
pub struct RequestSettingsView {
    pub protocol: Seq<char>,
    pub options: JsonView,
}

impl View for RequestSettings {
    type V = RequestSettingsView;

    open spec fn view(&self) -> RequestSettingsView {
        RequestSettingsView { protocol: self.protocol@, options: self.options@ }
    }
}

/// The settings of a protocol with nothing chosen.
pub open spec fn plain_settings(protocol: Seq<char>) -> RequestSettingsView {
    RequestSettingsView { protocol, options: JsonView::Object(seq![]) }
}

impl RequestSettings {
    /// The settings of a protocol with nothing chosen.
    pub fn for_protocol(protocol: &str) -> (r: RequestSettings)
        ensures
            r@ == plain_settings(protocol@),
    {
        let options = Json::Object(Vec::new());
        assert(options@->Object_0 =~= seq![]);
        RequestSettings { protocol: protocol.to_owned(), options }
    }

    /// A copy of the settings.
    pub fn copy(&self) -> (r: RequestSettings)
        ensures
            r@ == self@,
    {
        RequestSettings { protocol: self.protocol.clone(), options: copy_json(&self.options) }
    }
}

/// The settings of the model that an agent uses. The choices by name have a
/// default, the others may be missing.
#[derive(Debug)]
pub struct ModelSettings {
    pub reasoning_effort: String,
    pub reasoning_summary: String,
    pub verbosity: String,
    pub context_window_tokens: Option<u64>,
    pub auto_compact_token_limit: Option<u64>,
    pub reasoning_summary_support: String,
    pub service_tier: Option<String>,
    pub provider_request_timeout_ms: Option<u64>,
    pub stream_max_retries: Option<u64>,
    pub stream_idle_timeout_ms: Option<u64>,
    pub request_settings: RequestSettings,
}

/// What `ModelSettings` holds.
pub struct SettingsView {
    pub reasoning_effort: Seq<char>,
    pub reasoning_summary: Seq<char>,
    pub verbosity: Seq<char>,
    pub context_window_tokens: Option<u64>,
    pub auto_compact_token_limit: Option<u64>,
    pub reasoning_summary_support: Seq<char>,
    pub service_tier: Option<Seq<char>>,
    pub provider_request_timeout_ms: Option<u64>,
    pub stream_max_retries: Option<u64>,
    pub stream_idle_timeout_ms: Option<u64>,
    pub request_settings: RequestSettingsView,
}

impl View for ModelSettings {
    type V = SettingsView;

    open spec fn view(&self) -> SettingsView {
        SettingsView {
            reasoning_effort: self.reasoning_effort@,
            reasoning_summary: self.reasoning_summary@,
            verbosity: self.verbosity@,
            context_window_tokens: self.context_window_tokens,
            auto_compact_token_limit: self.auto_compact_token_limit,
            reasoning_summary_support: self.reasoning_summary_support@,
            service_tier: opt_view(self.service_tier),
            provider_request_timeout_ms: self.provider_request_timeout_ms,
            stream_max_retries: self.stream_max_retries,
            stream_idle_timeout_ms: self.stream_idle_timeout_ms,
            request_settings: self.request_settings@,
        }
    }
}

/// The settings with nothing chosen, under the protocol `openai_responses`.
pub open spec fn default_settings() -> SettingsView {
    SettingsView {
        reasoning_effort: "default"@,
        reasoning_summary: "default"@,
        verbosity: "default"@,
        context_window_tokens: None,
        auto_compact_token_limit: None,
        reasoning_summary_support: "auto"@,
        service_tier: None,
        provider_request_timeout_ms: None,
        stream_max_retries: None,
        stream_idle_timeout_ms: None,
        request_settings: plain_settings("openai_responses"@),
    }
}

impl Default for ModelSettings {
    fn default() -> (r: ModelSettings)
        ensures
            r@ == default_settings(),
    {
        ModelSettings {
            reasoning_effort: "default".to_owned(),
            reasoning_summary: "default".to_owned(),
            verbosity: "default".to_owned(),
            context_window_tokens: None,
            auto_compact_token_limit: None,
            reasoning_summary_support: "auto".to_owned(),
            service_tier: None,
            provider_request_timeout_ms: None,
            stream_max_retries: None,
            stream_idle_timeout_ms: None,
            request_settings: RequestSettings::for_protocol("openai_responses"),
        }
    }
}

impl ModelSettings {
    /// A copy of the settings.
    pub fn copy(&self) -> (r: ModelSettings)
        ensures
            r@ == self@,
    {
        ModelSettings {
            reasoning_effort: self.reasoning_effort.clone(),
            reasoning_summary: self.reasoning_summary.clone(),
            verbosity: self.verbosity.clone(),
            context_window_tokens: self.context_window_tokens,
            auto_compact_token_limit: self.auto_compact_token_limit,
            reasoning_summary_support: self.reasoning_summary_support.clone(),
            service_tier: copy_opt(&self.service_tier),
            provider_request_timeout_ms: self.provider_request_timeout_ms,
            stream_max_retries: self.stream_max_retries,
            stream_idle_timeout_ms: self.stream_idle_timeout_ms,
            request_settings: self.request_settings.copy(),
        }
    }
}

// ---------------------------------------------------------------------------
// Accepting settings
// ---------------------------------------------------------------------------

/// A number that the database holds: positive, and a signed 64-bit integer.
pub open spec fn storable(value: Option<u64>) -> bool {
    value is Some ==> 0 < value->0 <= i64::MAX
}

/// The message that a number is out of range.
pub open spec fn number_message(name: Seq<char>) -> Seq<char> {
    "Agent Model Settings "@ + name + " must be a positive signed 64-bit integer"@
}

/// The first number of the settings that is out of range, by its name.
pub open spec fn bad_number(s: SettingsView) -> Option<Seq<char>> {
    if !storable(s.context_window_tokens) {
        Some("context window"@)
    } else if !storable(s.auto_compact_token_limit) {
        Some("automatic compact limit"@)
    } else if !storable(s.provider_request_timeout_ms) {
        Some("provider request timeout"@)
    } else if !storable(s.stream_idle_timeout_ms) {
        Some("stream idle timeout"@)
    } else {
        None
    }
}

/// The service tier that is stored: trimmed, none when it is blank.
pub open spec fn stored_tier(tier: Option<Seq<char>>) -> Option<Seq<char>> {
    match tier {
        Some(t) => if blank(t) {
            None
        } else {
            Some(trimmed(t))
        },
        None => None,
    }
}

/// A service tier that is accepted.
pub open spec fn valid_tier(tier: Option<Seq<char>>) -> bool {
    tier is Some ==> tier->0.len() <= 64 && !has_control(tier->0)
}

/// The settings that are stored, given what the check of the request settings
/// says.
pub open spec fn stored_settings(
    s: SettingsView,
    request_settings: Result<RequestSettingsView, ErrorView>,
) -> Result<SettingsView, ErrorView> {
    if bad_number(s) is Some {
        refused(Status::BadRequest, number_message(bad_number(s)->0))
    } else if s.context_window_tokens is Some && s.auto_compact_token_limit is Some
        && s.auto_compact_token_limit->0 > s.context_window_tokens->0 {
        refused(
            Status::BadRequest,
            "Agent Model Settings automatic compact limit cannot exceed the context window"@,
        )
    } else if s.stream_max_retries is Some && s.stream_max_retries->0 > 100 {
        refused(
            Status::BadRequest,
            "Agent Model Settings retry counts must be between 0 and 100"@,
        )
    } else if !valid_tier(stored_tier(s.service_tier)) {
        refused(
            Status::BadRequest,
            "Agent Model Settings service tier must not exceed 64 characters or contain controls"@,
        )
    } else {
        match request_settings {
            Err(e) => Err(e),
            Ok(checked) => Ok(
                SettingsView {
                    service_tier: stored_tier(s.service_tier),
                    request_settings: checked,
                    ..s
                },
            ),
        }
    }
}

fn is_storable(value: Option<u64>) -> (r: bool)
    ensures
        r == storable(value),
{
    match value {
        Some(v) => v > 0 && v <= 0x7fff_ffff_ffff_ffff,
        None => true,
    }
}

fn number_error(name: &str) -> (r: ApiError)
    ensures
        r@ == error_of(Status::BadRequest, number_message(name@)),
{
    let mut message = join("Agent Model Settings ", name);
    message.append(" must be a positive signed 64-bit integer");
    ApiError::bad_request(message.as_str())
}

/// What the check of request settings says.
pub open spec fn checked_view(r: Result<RequestSettings, ApiError>) -> Result<
    RequestSettingsView,
    ErrorView,
> {
    match r {
        Ok(s) => Ok(s@),
        Err(e) => Err(e@),
    }
}

/// What a check of settings says.
pub open spec fn settings_seen(r: Result<ModelSettings, ApiError>) -> Result<
    SettingsView,
    ErrorView,
> {
    match r {
        Ok(s) => Ok(s@),
        Err(e) => Err(e@),
    }
}

/// The settings that are stored. `request_settings` is what the check of the
/// request settings against their protocol gave.
pub fn validate_agent_model_settings(
    settings: ModelSettings,
    request_settings: Result<RequestSettings, ApiError>,
) -> (r: Result<ModelSettings, ApiError>)
    ensures
        settings_seen(r) == stored_settings(settings@, checked_view(request_settings)),
{
    if !is_storable(settings.context_window_tokens) {
        return Err(number_error("context window"));
    }
    if !is_storable(settings.auto_compact_token_limit) {
        return Err(number_error("automatic compact limit"));
    }
    if !is_storable(settings.provider_request_timeout_ms) {
        return Err(number_error("provider request timeout"));
    }
    if !is_storable(settings.stream_idle_timeout_ms) {
        return Err(number_error("stream idle timeout"));
    }
    match (settings.context_window_tokens, settings.auto_compact_token_limit) {
        (Some(window), Some(limit)) => {
            if limit > window {
                return Err(
                    ApiError::bad_request(
                        "Agent Model Settings automatic compact limit cannot exceed the context window",
                    ),
                );
            }
        },
        _ => {},
    }
    match settings.stream_max_retries {
        Some(retries) => {
            if retries > 100 {
                return Err(
                    ApiError::bad_request(
                        "Agent Model Settings retry counts must be between 0 and 100",
                    ),
                );
            }
        },
        None => {},
    }
    let service_tier = crate::automation::trim_unless_blank(&settings.service_tier);
    match &service_tier {
        Some(tier) => {
            if char_count(tier.as_str()) > 64 || any_control(tier.as_str()) {
                return Err(
                    ApiError::bad_request(
                        "Agent Model Settings service tier must not exceed 64 characters or contain controls",
                    ),
                );
            }
        },
        None => {},
    }
    match request_settings {
        Err(e) => Err(e),
        Ok(checked) => Ok(
            ModelSettings {
                reasoning_effort: settings.reasoning_effort,
                reasoning_summary: settings.reasoning_summary,
                verbosity: settings.verbosity,
                context_window_tokens: settings.context_window_tokens,
                auto_compact_token_limit: settings.auto_compact_token_limit,
                reasoning_summary_support: settings.reasoning_summary_support,
                service_tier,
                provider_request_timeout_ms: settings.provider_request_timeout_ms,
                stream_max_retries: settings.stream_max_retries,
                stream_idle_timeout_ms: settings.stream_idle_timeout_ms,
                request_settings: checked,
            },
        ),
    }
}

/// Settings that were stored are accepted again as they stand, with the same
/// request settings.
pub proof fn stored_settings_are_stable(
    s: SettingsView,
    request_settings: Result<RequestSettingsView, ErrorView>,
)
    requires
        stored_settings(s, request_settings) is Ok,
    ensures
        stored_settings(stored_settings(s, request_settings)->Ok_0, request_settings)
            == stored_settings(s, request_settings),
{
    match s.service_tier {
        Some(t) => {
            crate::text::lemma_trimmed(t);
        },
        None => {},
    }
}

// ---------------------------------------------------------------------------
// Subagents
// ---------------------------------------------------------------------------

/// What a subagent says of a setting.
#[derive(Debug)]
pub enum SettingOverride<T> {
    /// As the agent has it.
    Inherit,
    /// As if nothing had been chosen.
    Automatic,
    Value(T),
}

/// What a subagent says of its settings.
#[derive(Debug)]
pub struct SettingsOverride {
    pub reasoning_effort: SettingOverride<String>,
    pub reasoning_summary: SettingOverride<String>,
    pub verbosity: SettingOverride<String>,
    pub context_window_tokens: SettingOverride<u64>,
    pub auto_compact_token_limit: SettingOverride<u64>,
    pub reasoning_summary_support: SettingOverride<String>,
    pub service_tier: SettingOverride<String>,
    pub provider_request_timeout_ms: SettingOverride<u64>,
    pub stream_max_retries: SettingOverride<u64>,
    pub stream_idle_timeout_ms: SettingOverride<u64>,
    pub request_settings: SettingOverride<RequestSettings>,
}

/// A choice by name after an override; `default` is what stands for no choice.
pub open spec fn overridden_name(
    value: Seq<char>,
    setting: SettingOverride<String>,
    default: Seq<char>,
) -> Seq<char> {
    match setting {
        SettingOverride::Inherit => value,
        SettingOverride::Automatic => default,
        SettingOverride::Value(v) => v@,
    }
}

/// A choice by name after an override.
pub fn apply_enum_model_setting_override(
    value: &mut String,
    setting: &SettingOverride<String>,
    default: &str,
)
    ensures
        final(value)@ == overridden_name(old(value)@, *setting, default@),
{
    match setting {
        SettingOverride::Inherit => {},
        SettingOverride::Automatic => {
            *value = default.to_owned();
        },
        SettingOverride::Value(v) => {
            *value = v.clone();
        },
    }
}

/// A number that may be missing after an override.
pub open spec fn overridden_number(value: Option<u64>, setting: SettingOverride<u64>) -> Option<u64> {
    match setting {
        SettingOverride::Inherit => value,
        SettingOverride::Automatic => None,
        SettingOverride::Value(v) => Some(v),
    }
}

/// A number that may be missing after an override.
pub fn apply_optional_model_setting_override(value: &mut Option<u64>, setting: &SettingOverride<u64>)
    ensures
        *final(value) == overridden_number(*old(value), *setting),
{
    match setting {
        SettingOverride::Inherit => {},
        SettingOverride::Automatic => {
            *value = None;
        },
        SettingOverride::Value(v) => {
            *value = Some(*v);
        },
    }
}

/// A text that may be missing after an override.
pub open spec fn overridden_text(value: Option<Seq<char>>, setting: SettingOverride<String>) -> Option<
    Seq<char>,
> {
    match setting {
        SettingOverride::Inherit => value,
        SettingOverride::Automatic => None,
        SettingOverride::Value(v) => Some(v@),
    }
}

fn override_text(value: &mut Option<String>, setting: &SettingOverride<String>)
    ensures
        opt_view(*final(value)) == overridden_text(opt_view(*old(value)), *setting),
{
    match setting {
        SettingOverride::Inherit => {},
        SettingOverride::Automatic => {
            *value = None;
        },
        SettingOverride::Value(v) => {
            *value = Some(v.clone());
        },
    }
}

/// The request settings after an override: those of another protocol are not
/// inherited.
pub open spec fn overridden_request(
    value: RequestSettingsView,
    setting: SettingOverride<RequestSettings>,
    protocol: Seq<char>,
    protocol_changed: bool,
) -> RequestSettingsView {
    match setting {
        SettingOverride::Inherit => if protocol_changed {
            plain_settings(protocol)
        } else {
            value
        },
        SettingOverride::Automatic => plain_settings(protocol),
        SettingOverride::Value(v) => v@,
    }
}

/// The settings of a subagent, before they are checked.
pub open spec fn effective_settings(
    parent: SettingsView,
    o: SettingsOverride,
    protocol: Seq<char>,
    protocol_changed: bool,
) -> SettingsView {
    SettingsView {
        reasoning_effort: overridden_name(
            parent.reasoning_effort,
            o.reasoning_effort,
            "default"@,
        ),
        reasoning_summary: overridden_name(
            parent.reasoning_summary,
            o.reasoning_summary,
            "default"@,
        ),
        verbosity: overridden_name(parent.verbosity, o.verbosity, "default"@),
        context_window_tokens: overridden_number(
            parent.context_window_tokens,
            o.context_window_tokens,
        ),
        auto_compact_token_limit: overridden_number(
            parent.auto_compact_token_limit,
            o.auto_compact_token_limit,
        ),
        reasoning_summary_support: overridden_name(
            parent.reasoning_summary_support,
            o.reasoning_summary_support,
            "auto"@,
        ),
        service_tier: overridden_text(parent.service_tier, o.service_tier),
        provider_request_timeout_ms: overridden_number(
            parent.provider_request_timeout_ms,
            o.provider_request_timeout_ms,
        ),
        stream_max_retries: overridden_number(parent.stream_max_retries, o.stream_max_retries),
        stream_idle_timeout_ms: overridden_number(
            parent.stream_idle_timeout_ms,
            o.stream_idle_timeout_ms,
        ),
        request_settings: overridden_request(
            parent.request_settings,
            o.request_settings,
            protocol,
            protocol_changed,
        ),
    }
}

/// The settings of a subagent, before they are checked: those of the agent
/// with the overrides applied. `protocol` is the subagent's, and
/// `protocol_changed` says that its own model brought another one than the
/// agent has.
pub fn effective_subagent_model_settings(
    parent: &ModelSettings,
    overrides: &SettingsOverride,
    protocol: &str,
    protocol_changed: bool,
) -> (r: ModelSettings)
    ensures
        r@ == effective_settings(parent@, *overrides, protocol@, protocol_changed),
{
    let mut reasoning_effort = parent.reasoning_effort.clone();
    apply_enum_model_setting_override(
        &mut reasoning_effort,
        &overrides.reasoning_effort,
        "default",
    );
    let mut reasoning_summary = parent.reasoning_summary.clone();
    apply_enum_model_setting_override(
        &mut reasoning_summary,
        &overrides.reasoning_summary,
        "default",
    );
    let mut verbosity = parent.verbosity.clone();
    apply_enum_model_setting_override(&mut verbosity, &overrides.verbosity, "default");
    let mut reasoning_summary_support = parent.reasoning_summary_support.clone();
    apply_enum_model_setting_override(
        &mut reasoning_summary_support,
        &overrides.reasoning_summary_support,
        "auto",
    );
    let mut context_window_tokens = parent.context_window_tokens;
    apply_optional_model_setting_override(
        &mut context_window_tokens,
        &overrides.context_window_tokens,
    );
    let mut auto_compact_token_limit = parent.auto_compact_token_limit;
    apply_optional_model_setting_override(
        &mut auto_compact_token_limit,
        &overrides.auto_compact_token_limit,
    );
    let mut provider_request_timeout_ms = parent.provider_request_timeout_ms;
    apply_optional_model_setting_override(
        &mut provider_request_timeout_ms,
        &overrides.provider_request_timeout_ms,
    );
    let mut stream_max_retries = parent.stream_max_retries;
    apply_optional_model_setting_override(&mut stream_max_retries, &overrides.stream_max_retries);
    let mut stream_idle_timeout_ms = parent.stream_idle_timeout_ms;
    apply_optional_model_setting_override(
        &mut stream_idle_timeout_ms,
        &overrides.stream_idle_timeout_ms,
    );
    let mut service_tier = copy_opt(&parent.service_tier);
    override_text(&mut service_tier, &overrides.service_tier);
    let request_settings = match &overrides.request_settings {
        SettingOverride::Inherit => {
            if protocol_changed {
                RequestSettings::for_protocol(protocol)
            } else {
                parent.request_settings.copy()
            }
        },
        SettingOverride::Automatic => RequestSettings::for_protocol(protocol),
        SettingOverride::Value(v) => v.copy(),
    };
    ModelSettings {
        reasoning_effort,
        reasoning_summary,
        verbosity,
        context_window_tokens,
        auto_compact_token_limit,
        reasoning_summary_support,
        service_tier,
        provider_request_timeout_ms,
        stream_max_retries,
        stream_idle_timeout_ms,
        request_settings,
    }
}

/// The settings that a subagent runs with: those of the agent with the
/// overrides applied, checked like the agent's own. `request_settings` is what
/// the check of the request settings that result gave.
pub fn checked_subagent_model_settings(
    parent: &ModelSettings,
    overrides: &SettingsOverride,
    protocol: &str,
    protocol_changed: bool,
    request_settings: Result<RequestSettings, ApiError>,
) -> (r: Result<ModelSettings, ApiError>)
    ensures
        settings_seen(r) == stored_settings(
            effective_settings(parent@, *overrides, protocol@, protocol_changed),
            checked_view(request_settings),
        ),
{
    let effective = effective_subagent_model_settings(
        parent,
        overrides,
        protocol,
        protocol_changed,
    );
    validate_agent_model_settings(effective, request_settings)
}

/// Overrides that say nothing.
pub open spec fn says_nothing(o: SettingsOverride) -> bool {
    &&& o.reasoning_effort is Inherit
    &&& o.reasoning_summary is Inherit
    &&& o.verbosity is Inherit
    &&& o.context_window_tokens is Inherit
    &&& o.auto_compact_token_limit is Inherit
    &&& o.reasoning_summary_support is Inherit
    &&& o.service_tier is Inherit
    &&& o.provider_request_timeout_ms is Inherit
    &&& o.stream_max_retries is Inherit
    &&& o.stream_idle_timeout_ms is Inherit
    &&& o.request_settings is Inherit
}

fn inherits<T>(setting: &SettingOverride<T>) -> (r: bool)
    ensures
        r == (*setting is Inherit),
{
    match setting {
        SettingOverride::Inherit => true,
        _ => false,
    }
}

/// Tells whether the overrides say nothing.
pub fn overrides_nothing(o: &SettingsOverride) -> (r: bool)
    ensures
        r == says_nothing(*o),
{
    inherits(&o.reasoning_effort) && inherits(&o.reasoning_summary) && inherits(&o.verbosity)
        && inherits(&o.context_window_tokens) && inherits(&o.auto_compact_token_limit) && inherits(
        &o.reasoning_summary_support,
    ) && inherits(&o.service_tier) && inherits(&o.provider_request_timeout_ms) && inherits(
        &o.stream_max_retries,
    ) && inherits(&o.stream_idle_timeout_ms) && inherits(&o.request_settings)
}

/// A subagent that says nothing and keeps the protocol has the settings of
/// the agent.
pub proof fn silent_subagents_inherit(parent: SettingsView, o: SettingsOverride, protocol: Seq<char>)
    requires
        says_nothing(o),
    ensures
        effective_settings(parent, o, protocol, false) == parent,
        effective_settings(parent, o, protocol, true) == (SettingsView {
            request_settings: plain_settings(protocol),
            ..parent
        }),
{
}

/// A model, by its connection and its name there.
#[derive(Debug)]
pub struct ModelSelection {
    pub connection_id: Id,
    pub model_id: String,
}

/// What a `ModelSelection` holds.
pub struct SelectionView {
    pub connection_id: Id,
    pub model_id: Seq<char>,
}

impl View for ModelSelection {
    type V = SelectionView;

    open spec fn view(&self) -> SelectionView {
        SelectionView { connection_id: self.connection_id, model_id: self.model_id@ }
    }
}

/// A selection that may be missing.
pub open spec fn opt_selection(s: Option<ModelSelection>) -> Option<SelectionView> {
    match s {
        Some(selection) => Some(selection@),
        None => None,
    }
}

/// Tells whether two selections that may be missing are the same.
pub fn same_selection(a: &Option<ModelSelection>, b: &Option<ModelSelection>) -> (r: bool)
    ensures
        r == (opt_selection(*a) == opt_selection(*b)),
{
    match (a, b) {
        (Some(x), Some(y)) => x.connection_id == y.connection_id && same(
            x.model_id.as_str(),
            y.model_id.as_str(),
        ),
        (None, None) => true,
        _ => false,
    }
}

/// The selections of an agent as it is stored.
pub open spec fn selection_views(v: Seq<ModelSelection>) -> Seq<SelectionView> {
    Seq::new(v.len(), |i: int| v[i]@)
}

/// How a model that an administrator chooses for somebody else's agent is
/// judged.
#[derive(Clone, Copy, Debug, PartialEq, Eq, Structural)]
pub enum AdminChoice {
    /// Nothing is chosen, or what the agent had already.
    Kept,
    /// It must be on a global connection.
    MustBeGlobal,
}

/// An administrator may keep what the agent had, and otherwise only choose
/// models on global connections.
pub open spec fn admin_choice(retained: Seq<SelectionView>, chosen: Option<SelectionView>) -> AdminChoice {
    match chosen {
        None => AdminChoice::Kept,
        Some(s) => if retained.contains(s) {
            AdminChoice::Kept
        } else {
            AdminChoice::MustBeGlobal
        },
    }
}

/// How a model that an administrator chooses for somebody else's agent is
/// judged, given the models that the agent has.
pub fn check_admin_agent_model_selection(
    retained: &Vec<ModelSelection>,
    chosen: &Option<ModelSelection>,
) -> (r: AdminChoice)
    ensures
        r == admin_choice(selection_views(retained@), opt_selection(*chosen)),
{
    match chosen {
        None => AdminChoice::Kept,
        Some(s) => {
            let ghost all = selection_views(retained@);
            let mut i: usize = 0;
            while i < retained.len()
                invariant
                    i <= retained@.len(),
                    all == selection_views(retained@),
                    opt_selection(*chosen) == Some(s@),
                    forall|k: int| 0 <= k < i ==> all[k] != s@,
                decreases retained@.len() - i,
            {
                assert(all[i as int] == retained@[i as int]@);
                if retained[i].connection_id == s.connection_id && same(
                    retained[i].model_id.as_str(),
                    s.model_id.as_str(),
                ) {
                    assert(all[i as int] == s@);
                    return AdminChoice::Kept;
                }
                i = i + 1;
            }
            AdminChoice::MustBeGlobal
        },
    }
}

/// The outcome of a choice, once it is known whether the model is on a global
/// connection.
pub open spec fn admin_choice_outcome(choice: AdminChoice, global: bool) -> Result<(), ErrorView> {
    if choice == AdminChoice::MustBeGlobal && !global {
        refused(Status::BadRequest, "admin model changes are limited to Global connections"@)
    } else {
        Ok(())
    }
}

/// Accepts an administrator's choice of a model.
pub fn settle_admin_choice(choice: AdminChoice, global: bool) -> (r: Result<(), ApiError>)
    ensures
        plain(r) == admin_choice_outcome(choice, global),
{
    match choice {
        AdminChoice::Kept => Ok(()),
        AdminChoice::MustBeGlobal => {
            if global {
                Ok(())
            } else {
                Err(
                    ApiError::bad_request("admin model changes are limited to Global connections"),
                )
            }
        },
    }
}

/// An administrator never points somebody else's agent at a personal
/// connection that it did not use.
pub proof fn administrators_stay_on_global_connections(
    retained: Seq<SelectionView>,
    chosen: SelectionView,
    global: bool,
)
    requires
        admin_choice_outcome(admin_choice(retained, Some(chosen)), global) is Ok,
    ensures
        global || retained.contains(chosen),
{
}

/// Settings are accepted where the numbers can be stored and fit together and
/// the tier is short; everything is stored as it was given but the tier, which
/// is trimmed, and the request's own settings, which were checked.
pub proof fn settings_are_stored_as_given(
    s: SettingsView,
    request_settings: Result<RequestSettingsView, ErrorView>,
)
    ensures
        stored_settings(s, request_settings) is Ok <==> {
            &&& s.context_window_tokens is Some ==> 0 < s.context_window_tokens->0 <= i64::MAX
            &&& s.auto_compact_token_limit is Some ==> 0 < s.auto_compact_token_limit->0
                <= i64::MAX
            &&& s.provider_request_timeout_ms is Some ==> 0 < s.provider_request_timeout_ms->0
                <= i64::MAX
            &&& s.stream_idle_timeout_ms is Some ==> 0 < s.stream_idle_timeout_ms->0 <= i64::MAX
            &&& s.context_window_tokens is Some && s.auto_compact_token_limit is Some
                ==> s.auto_compact_token_limit->0 <= s.context_window_tokens->0
            &&& s.stream_max_retries is Some ==> s.stream_max_retries->0 <= 100
            &&& s.service_tier is Some && !blank(s.service_tier->0) ==> trimmed(
                s.service_tier->0,
            ).len() <= 64 && !has_control(trimmed(s.service_tier->0))
            &&& request_settings is Ok
        },
        stored_settings(s, request_settings) matches Ok(stored) ==> {
            &&& stored.reasoning_effort == s.reasoning_effort
            &&& stored.reasoning_summary == s.reasoning_summary
            &&& stored.verbosity == s.verbosity
            &&& stored.context_window_tokens == s.context_window_tokens
            &&& stored.auto_compact_token_limit == s.auto_compact_token_limit
            &&& stored.reasoning_summary_support == s.reasoning_summary_support
            &&& stored.service_tier is Some <==> s.service_tier is Some && !blank(
                s.service_tier->0,
            )
            &&& stored.service_tier is Some ==> stored.service_tier->0 == trimmed(
                s.service_tier->0,
            )
            &&& stored.provider_request_timeout_ms == s.provider_request_timeout_ms
            &&& stored.stream_max_retries == s.stream_max_retries
            &&& stored.stream_idle_timeout_ms == s.stream_idle_timeout_ms
            &&& Ok::<RequestSettingsView, ErrorView>(stored.request_settings) == request_settings
        },
        request_settings is Ok && stored_settings(s, request_settings) is Err
            ==> stored_settings(s, request_settings)->Err_0.status == Status::BadRequest,
{
}

/// What an override says of a setting is what the subagent has: its own value,
/// none, or the agent's.
pub proof fn overrides_are_followed(
    name: Seq<char>,
    number: Option<u64>,
    text: Option<Seq<char>>,
    request: RequestSettingsView,
    own_name: String,
    own_number: u64,
    own_request: RequestSettings,
    default: Seq<char>,
    protocol: Seq<char>,
    changed: bool,
)
    ensures
        overridden_name(name, SettingOverride::Inherit, default) == name,
        overridden_name(name, SettingOverride::Automatic, default) == default,
        overridden_name(name, SettingOverride::Value(own_name), default) == own_name@,
        overridden_number(number, SettingOverride::Inherit) == number,
        overridden_number(number, SettingOverride::Automatic) is None,
        overridden_number(number, SettingOverride::Value(own_number)) == Some(own_number),
        overridden_text(text, SettingOverride::Inherit) == text,
        overridden_text(text, SettingOverride::Automatic) is None,
        overridden_text(text, SettingOverride::Value(own_name)) == Some(own_name@),
        overridden_request(request, SettingOverride::Inherit, protocol, false) == request,
        overridden_request(request, SettingOverride::Inherit, protocol, true).protocol == protocol,
        overridden_request(request, SettingOverride::Inherit, protocol, true).options
            == JsonView::Object(seq![]),
        overridden_request(request, SettingOverride::Automatic, protocol, changed).protocol
            == protocol,
        overridden_request(request, SettingOverride::Automatic, protocol, changed).options
            == JsonView::Object(seq![]),
        overridden_request(request, SettingOverride::Value(own_request), protocol, changed)
            == own_request@,
{
}

/// Each setting of a subagent goes by its own override and the agent's own
/// setting of that name.
pub proof fn settings_are_overridden_one_by_one(
    parent: SettingsView,
    o: SettingsOverride,
    protocol: Seq<char>,
    changed: bool,
)
    ensures
        ({
            let s = effective_settings(parent, o, protocol, changed);
            &&& s.reasoning_effort == overridden_name(
                parent.reasoning_effort,
                o.reasoning_effort,
                "default"@,
            )
            &&& s.reasoning_summary == overridden_name(
                parent.reasoning_summary,
                o.reasoning_summary,
                "default"@,
            )
            &&& s.verbosity == overridden_name(parent.verbosity, o.verbosity, "default"@)
            &&& s.context_window_tokens == overridden_number(
                parent.context_window_tokens,
                o.context_window_tokens,
            )
            &&& s.auto_compact_token_limit == overridden_number(
                parent.auto_compact_token_limit,
                o.auto_compact_token_limit,
            )
            &&& s.reasoning_summary_support == overridden_name(
                parent.reasoning_summary_support,
                o.reasoning_summary_support,
                "auto"@,
            )
            &&& s.service_tier == overridden_text(parent.service_tier, o.service_tier)
            &&& s.provider_request_timeout_ms == overridden_number(
                parent.provider_request_timeout_ms,
                o.provider_request_timeout_ms,
            )
            &&& s.stream_max_retries == overridden_number(
                parent.stream_max_retries,
                o.stream_max_retries,
            )
            &&& s.stream_idle_timeout_ms == overridden_number(
                parent.stream_idle_timeout_ms,
                o.stream_idle_timeout_ms,
            )
            &&& s.request_settings == overridden_request(
                parent.request_settings,
                o.request_settings,
                protocol,
                changed,
            )
        }),
{
}

/// Where everything is automatic the settings are those of a new agent, for
/// the protocol that is spoken; they can be stored.
pub proof fn automatic_settings_are_the_first_ones(
    parent: SettingsView,
    o: SettingsOverride,
    protocol: Seq<char>,
    changed: bool,
)
    requires
        o.reasoning_effort is Automatic,
        o.reasoning_summary is Automatic,
        o.verbosity is Automatic,
        o.context_window_tokens is Automatic,
        o.auto_compact_token_limit is Automatic,
        o.reasoning_summary_support is Automatic,
        o.service_tier is Automatic,
        o.provider_request_timeout_ms is Automatic,
        o.stream_max_retries is Automatic,
        o.stream_idle_timeout_ms is Automatic,
        o.request_settings is Automatic,
    ensures
        effective_settings(parent, o, protocol, changed) == (SettingsView {
            request_settings: RequestSettingsView { protocol, options: JsonView::Object(seq![]) },
            ..default_settings()
        }),
        default_settings().request_settings.protocol == "openai_responses"@,
        stored_settings(default_settings(), Ok(default_settings().request_settings)) == Ok::<
            SettingsView,
            ErrorView,
        >(default_settings()),
{
}

/// An administrator's choice is free where it is global or nothing new.
pub proof fn choices_are_settled(retained: Seq<SelectionView>, chosen: SelectionView, global: bool)
    ensures
        admin_choice_outcome(admin_choice(retained, None), global) is Ok,
        admin_choice_outcome(admin_choice(retained, Some(chosen)), global) is Ok <==> global
            || retained.contains(chosen),
        admin_choice(retained, Some(chosen)) == AdminChoice::Kept <==> retained.contains(chosen),
        admin_choice_outcome(admin_choice(retained, Some(chosen)), global) matches Err(e)
            ==> e.status == Status::BadRequest,
{
}

} // verus!
