//! The check of the models and of the settings that an agent and its subagents
//! are to run with.

use crate::agent::Subagent;
use crate::agent_flow::{brings_protocol, protocol_changed};
use crate::agent_setup::copy_selection;
use crate::error::{error_of, ApiError, ErrorView, Status};
use crate::model_settings::{
    checked_subagent_model_settings, checked_view, effective_settings,
    effective_subagent_model_settings, opt_selection, stored_settings,
    validate_agent_model_settings, ModelSelection, ModelSettings, RequestSettings,
    RequestSettingsView, SelectionView, SettingOverride, SettingsOverride, SettingsView,
};
use crate::text::{opt_view, trim, trimmed};
use vstd::prelude::*;

verus! {

// ---------------------------------------------------------------------------
// Service tiers
// ---------------------------------------------------------------------------

/// `r` says of the service tier what `setting` says, without the blanks around
/// it.
pub open spec fn tier_trimmed(setting: SettingOverride<String>, r: SettingOverride<String>) -> bool {
    match (setting, r) {
        (SettingOverride::Inherit, SettingOverride::Inherit) => true,
        (SettingOverride::Automatic, SettingOverride::Automatic) => true,
        (SettingOverride::Value(given), SettingOverride::Value(kept)) => kept@ == trimmed(given@),
        _ => false,
    }
}

/// What a subagent says of the service tier, without the blanks around it.
pub fn trim_service_tier(setting: &SettingOverride<String>) -> (r: SettingOverride<String>)
    ensures
        tier_trimmed(*setting, r),
{
    match setting {
        SettingOverride::Inherit => SettingOverride::Inherit,
        SettingOverride::Automatic => SettingOverride::Automatic,
        SettingOverride::Value(tier) => SettingOverride::Value(trim(tier.as_str())),
    }
}

/// `r` is `s`, with a trimmed service tier where it is enabled.
pub open spec fn tidied(s: Subagent, r: Subagent) -> bool {
    if s.enabled {
        &&& tier_trimmed(s.overrides.service_tier, r.overrides.service_tier)
        &&& r == (Subagent {
            overrides: SettingsOverride {
                service_tier: r.overrides.service_tier,
                ..s.overrides
            },
            ..s
        })
    } else {
        r == s
    }
}

/// Trims what the enabled subagents say of the service tier.
pub fn trim_service_tiers(subagents: &mut Vec<Subagent>)
    ensures
        final(subagents)@.len() == old(subagents)@.len(),
        forall|i: int|
            0 <= i < final(subagents)@.len() ==> tidied(
                old(subagents)@[i],
                #[trigger] final(subagents)@[i],
            ),
{
    let ghost given = subagents@;
    let mut i: usize = 0;
    while i < subagents.len()
        invariant
            i <= subagents@.len(),
            subagents@.len() == given.len(),
            forall|k: int| 0 <= k < i ==> tidied(given[k], #[trigger] subagents@[k]),
            forall|k: int| i <= k < given.len() ==> given[k] == #[trigger] subagents@[k],
        decreases subagents@.len() - i,
    {
        if subagents[i].enabled {
            let tier = trim_service_tier(&subagents[i].overrides.service_tier);
            subagents[i].overrides.service_tier = tier;
        }
        i = i + 1;
    }
}

// ---------------------------------------------------------------------------
// The check
// ---------------------------------------------------------------------------

/// How far the check has come.
#[derive(Debug)]
pub enum ModelCheckState {
    /// Waits for the protocol of the agent's model.
    Protocol,
    /// Waits for the check of the agent's request settings, in this protocol.
    Request { protocol: String },
    /// Waits for the protocol of the model that the subagent at this place
    /// chooses. The agent has that protocol and those settings.
    SubagentProtocol { at: usize, protocol: String, settings: ModelSettings },
    /// Waits for the check of the request settings of the subagent at this
    /// place, whose own protocol is `own`.
    SubagentRequest { at: usize, protocol: String, settings: ModelSettings, own: String },
    Closed,
}

/// What was found.
#[derive(Debug)]
pub enum ModelCheckEvent {
    /// The protocol of a model, where the owner of the agent may use it.
    Protocol(Option<String>),
    /// What the check of request settings says.
    Request(Result<RequestSettings, ApiError>),
}

/// What to do next.
#[derive(Debug)]
pub enum ModelCheckAction {
    /// Look the protocol of a model up.
    LookUp(ModelSelection),
    /// Check request settings against a protocol.
    CheckRequest { protocol: String, settings: RequestSettings },
    /// Store the settings of the agent.
    Finish(ModelSettings),
    Refuse(ApiError),
}

/// What a `ModelCheckState` holds.
pub enum CheckStateView {
    Protocol,
    Request { protocol: Seq<char> },
    SubagentProtocol { at: int, protocol: Seq<char>, settings: SettingsView },
    SubagentRequest { at: int, protocol: Seq<char>, settings: SettingsView, own: Seq<char> },
    Closed,
}

/// What a `ModelCheckEvent` holds.
pub enum CheckEventView {
    Protocol(Option<Seq<char>>),
    Request(Result<RequestSettingsView, ErrorView>),
}

/// What a `ModelCheckAction` holds.
pub enum CheckActionView {
    LookUp(SelectionView),
    CheckRequest { protocol: Seq<char>, settings: RequestSettingsView },
    Finish(SettingsView),
    Refuse(ErrorView),
}

impl View for ModelCheckState {
    type V = CheckStateView;

    open spec fn view(&self) -> CheckStateView {
        match self {
            ModelCheckState::Protocol => CheckStateView::Protocol,
            ModelCheckState::Request { protocol } => CheckStateView::Request {
                protocol: protocol@,
            },
            ModelCheckState::SubagentProtocol { at, protocol, settings } => {
                CheckStateView::SubagentProtocol {
                    at: *at as int,
                    protocol: protocol@,
                    settings: settings@,
                }
            },
            ModelCheckState::SubagentRequest { at, protocol, settings, own } => {
                CheckStateView::SubagentRequest {
                    at: *at as int,
                    protocol: protocol@,
                    settings: settings@,
                    own: own@,
                }
            },
            ModelCheckState::Closed => CheckStateView::Closed,
        }
    }
}

impl View for ModelCheckEvent {
    type V = CheckEventView;

    open spec fn view(&self) -> CheckEventView {
        match self {
            ModelCheckEvent::Protocol(found) => CheckEventView::Protocol(opt_view(*found)),
            ModelCheckEvent::Request(checked) => CheckEventView::Request(checked_view(*checked)),
        }
    }
}

impl View for ModelCheckAction {
    type V = CheckActionView;

    open spec fn view(&self) -> CheckActionView {
        match self {
            ModelCheckAction::LookUp(selection) => CheckActionView::LookUp(selection@),
            ModelCheckAction::CheckRequest { protocol, settings } => {
                CheckActionView::CheckRequest { protocol: protocol@, settings: settings@ }
            },
            ModelCheckAction::Finish(settings) => CheckActionView::Finish(settings@),
            ModelCheckAction::Refuse(e) => CheckActionView::Refuse(e@),
        }
    }
}

/// Where a step leads.
pub type ModelCheckStep = (ModelCheckState, ModelCheckAction);

/// What a step holds.
pub type CheckStepView = (CheckStateView, CheckActionView);

/// What a step holds.
pub open spec fn step_view(step: ModelCheckStep) -> CheckStepView {
    (step.0@, step.1@)
}

/// What is checked: the settings of an agent, and its subagents.
pub struct CheckPlan {
    pub settings: SettingsView,
    pub subagents: Seq<Subagent>,
}

/// The refusal of a model that the owner of the agent may not use.
pub open spec fn not_permitted() -> ErrorView {
    error_of(
        Status::BadRequest,
        "Agent model selection must be an allowed model on an enabled Global or Agent-owner Personal Model API Connection"@,
    )
}

/// The end with a refusal.
pub open spec fn refused_step(e: ErrorView) -> CheckStepView {
    (CheckStateView::Closed, CheckActionView::Refuse(e))
}

/// The check of the agent's request settings.
pub open spec fn request_step(settings: SettingsView, protocol: Seq<char>) -> CheckStepView {
    (
        CheckStateView::Request { protocol },
        CheckActionView::CheckRequest { protocol, settings: settings.request_settings },
    )
}

/// The settings of the subagent at `at`, before they are checked.
pub open spec fn settings_at(
    plan: CheckPlan,
    at: int,
    protocol: Seq<char>,
    settings: SettingsView,
    own: Seq<char>,
) -> SettingsView {
    let s = plan.subagents[at];
    effective_settings(
        settings,
        s.overrides,
        own,
        brings_protocol(s.model_selection is Some, own, protocol),
    )
}

/// The check of the request settings of the subagent at `at`.
pub open spec fn subagent_request_step(
    plan: CheckPlan,
    at: int,
    protocol: Seq<char>,
    settings: SettingsView,
    own: Seq<char>,
) -> CheckStepView {
    (
        CheckStateView::SubagentRequest { at, protocol, settings, own },
        CheckActionView::CheckRequest {
            protocol: own,
            settings: settings_at(plan, at, protocol, settings, own).request_settings,
        },
    )
}

/// What comes once the subagents before `from` are checked: the next one that
/// is enabled, or the end.
pub open spec fn subagent_step(
    plan: CheckPlan,
    from: int,
    protocol: Seq<char>,
    settings: SettingsView,
) -> CheckStepView
    decreases plan.subagents.len() - from,
{
    if from < 0 || from >= plan.subagents.len() {
        (CheckStateView::Closed, CheckActionView::Finish(settings))
    } else if !plan.subagents[from].enabled {
        subagent_step(plan, from + 1, protocol, settings)
    } else {
        match plan.subagents[from].model_selection {
            Some(selection) => (
                CheckStateView::SubagentProtocol { at: from, protocol, settings },
                CheckActionView::LookUp(selection@),
            ),
            None => subagent_request_step(plan, from, protocol, settings, protocol),
        }
    }
}

/// The first step: the protocol of the agent's model is looked up; where it
/// has none, its request settings say in which protocol they are.
pub open spec fn first_check_step(
    selection: Option<SelectionView>,
    settings: SettingsView,
) -> CheckStepView {
    match selection {
        Some(s) => (CheckStateView::Protocol, CheckActionView::LookUp(s)),
        None => request_step(settings, settings.request_settings.protocol),
    }
}

/// The event answers what the state waits for.
pub open spec fn check_expects(plan: CheckPlan, state: CheckStateView, event: CheckEventView) -> bool {
    match state {
        CheckStateView::Protocol => event is Protocol,
        CheckStateView::Request { .. } => event is Request,
        CheckStateView::SubagentProtocol { at, .. } => 0 <= at < plan.subagents.len() && event
            is Protocol,
        CheckStateView::SubagentRequest { at, .. } => 0 <= at < plan.subagents.len() && event
            is Request,
        CheckStateView::Closed => false,
    }
}

/// What follows: the first model that is not permitted and the first settings
/// that are not accepted end the check.
pub open spec fn check_next(plan: CheckPlan, state: CheckStateView, event: CheckEventView) -> CheckStepView {
    match (state, event) {
        (CheckStateView::Protocol, CheckEventView::Protocol(found)) => match found {
            None => refused_step(not_permitted()),
            Some(protocol) => request_step(plan.settings, protocol),
        },
        (CheckStateView::Request { protocol }, CheckEventView::Request(checked)) => {
            match stored_settings(plan.settings, checked) {
                Err(e) => refused_step(e),
                Ok(settings) => subagent_step(plan, 0, protocol, settings),
            }
        },
        (
            CheckStateView::SubagentProtocol { at, protocol, settings },
            CheckEventView::Protocol(found),
        ) => match found {
            None => refused_step(not_permitted()),
            Some(own) => subagent_request_step(plan, at, protocol, settings, own),
        },
        (
            CheckStateView::SubagentRequest { at, protocol, settings, own },
            CheckEventView::Request(checked),
        ) => match stored_settings(settings_at(plan, at, protocol, settings, own), checked) {
            Err(e) => refused_step(e),
            Ok(_) => subagent_step(plan, at + 1, protocol, settings),
        },
        _ => refused_step(not_permitted()),
    }
}

fn refuse_check(e: ApiError) -> (r: ModelCheckStep)
    ensures
        step_view(r) == refused_step(e@),
{
    (ModelCheckState::Closed, ModelCheckAction::Refuse(e))
}

fn refuse_model() -> (r: ModelCheckStep)
    ensures
        step_view(r) == refused_step(not_permitted()),
{
    refuse_check(
        ApiError::bad_request(
            "Agent model selection must be an allowed model on an enabled Global or Agent-owner Personal Model API Connection",
        ),
    )
}

fn ask_request(settings: &ModelSettings, protocol: String) -> (r: ModelCheckStep)
    ensures
        step_view(r) == request_step(settings@, protocol@),
{
    let own = protocol.clone();
    (
        ModelCheckState::Request { protocol },
        ModelCheckAction::CheckRequest {
            protocol: own,
            settings: settings.request_settings.copy(),
        },
    )
}

fn ask_subagent_request(
    subagents: &Vec<Subagent>,
    at: usize,
    protocol: String,
    settings: ModelSettings,
    own: String,
    Ghost(plan): Ghost<CheckPlan>,
) -> (r: ModelCheckStep)
    requires
        plan.subagents == subagents@,
        at < subagents@.len(),
    ensures
        step_view(r) == subagent_request_step(plan, at as int, protocol@, settings@, own@),
{
    let s = &subagents[at];
    let changed = protocol_changed(
        s.model_selection.is_some(),
        own.as_str(),
        protocol.as_str(),
    );
    let effective = effective_subagent_model_settings(
        &settings,
        &s.overrides,
        own.as_str(),
        changed,
    );
    let asked = own.clone();
    (
        ModelCheckState::SubagentRequest { at, protocol, settings, own },
        ModelCheckAction::CheckRequest { protocol: asked, settings: effective.request_settings },
    )
}

fn next_subagent(
    subagents: &Vec<Subagent>,
    from: usize,
    protocol: String,
    settings: ModelSettings,
    Ghost(plan): Ghost<CheckPlan>,
) -> (r: ModelCheckStep)
    requires
        plan.subagents == subagents@,
        from <= subagents@.len(),
    ensures
        step_view(r) == subagent_step(plan, from as int, protocol@, settings@),
{
    let mut at: usize = from;
    while at < subagents.len() && !subagents[at].enabled
        invariant
            plan.subagents == subagents@,
            at <= subagents@.len(),
            subagent_step(plan, at as int, protocol@, settings@) == subagent_step(
                plan,
                from as int,
                protocol@,
                settings@,
            ),
        decreases subagents@.len() - at,
    {
        at = at + 1;
    }
    if at >= subagents.len() {
        return (ModelCheckState::Closed, ModelCheckAction::Finish(settings));
    }
    match &subagents[at].model_selection {
        Some(selection) => (
            ModelCheckState::SubagentProtocol { at, protocol, settings },
            ModelCheckAction::LookUp(copy_selection(selection)),
        ),
        None => {
            let own = protocol.clone();
            ask_subagent_request(subagents, at, protocol, settings, own, Ghost(plan))
        },
    }
}

/// The start of the check.
pub fn begin_model_check(selection: &Option<ModelSelection>, settings: &ModelSettings) -> (r:
    ModelCheckStep)
    ensures
        step_view(r) == first_check_step(opt_selection(*selection), settings@),
{
    match selection {
        Some(s) => (ModelCheckState::Protocol, ModelCheckAction::LookUp(copy_selection(s))),
        None => ask_request(settings, settings.request_settings.protocol.clone()),
    }
}

/// What is checked.
pub open spec fn check_plan(settings: ModelSettings, subagents: Seq<Subagent>) -> CheckPlan {
    CheckPlan { settings: settings@, subagents }
}

/// Takes the check one step on.
pub fn validate_agent_model_configuration(
    settings: &ModelSettings,
    subagents: &Vec<Subagent>,
    state: ModelCheckState,
    event: ModelCheckEvent,
) -> (r: ModelCheckStep)
    requires
        check_expects(check_plan(*settings, subagents@), state@, event@),
    ensures
        step_view(r) == check_next(check_plan(*settings, subagents@), state@, event@),
{
    let ghost plan = check_plan(*settings, subagents@);
    match (state, event) {
        (ModelCheckState::Protocol, ModelCheckEvent::Protocol(found)) => match found {
            None => refuse_model(),
            Some(protocol) => ask_request(settings, protocol),
        },
        (ModelCheckState::Request { protocol }, ModelCheckEvent::Request(checked)) => {
            match validate_agent_model_settings(settings.copy(), checked) {
                Err(e) => refuse_check(e),
                Ok(accepted) => next_subagent(subagents, 0, protocol, accepted, Ghost(plan)),
            }
        },
        (
            ModelCheckState::SubagentProtocol { at, protocol, settings: accepted },
            ModelCheckEvent::Protocol(found),
        ) => match found {
            None => refuse_model(),
            Some(own) => ask_subagent_request(
                subagents,
                at,
                protocol,
                accepted,
                own,
                Ghost(plan),
            ),
        },
        (
            ModelCheckState::SubagentRequest { at, protocol, settings: accepted, own },
            ModelCheckEvent::Request(checked),
        ) => {
            assert(at < subagents.len());
            let s = &subagents[at];
            let changed = protocol_changed(
                s.model_selection.is_some(),
                own.as_str(),
                protocol.as_str(),
            );
            match checked_subagent_model_settings(
                &accepted,
                &s.overrides,
                own.as_str(),
                changed,
                checked,
            ) {
                Err(e) => refuse_check(e),
                Ok(_) => next_subagent(subagents, at + 1, protocol, accepted, Ghost(plan)),
            }
        },
        _ => refuse_model(),
    }
}

// ---------------------------------------------------------------------------
// What the check comes to
// ---------------------------------------------------------------------------

/// The answers that a check gets: the protocol of each model that the owner of
/// the agent may use, and what the check of request settings says.
pub struct Answers {
    pub protocols: spec_fn(SelectionView) -> Option<Seq<char>>,
    pub requests: spec_fn(Seq<char>, RequestSettingsView) -> Result<RequestSettingsView, ErrorView>,
}

/// The outcome for the subagents from `from` on: every enabled one may use the
/// model that it chooses, and has settings that are accepted.
pub open spec fn subagents_outcome(
    plan: CheckPlan,
    answers: Answers,
    from: int,
    protocol: Seq<char>,
    settings: SettingsView,
) -> Result<SettingsView, ErrorView>
    decreases plan.subagents.len() - from,
{
    if from < 0 || from >= plan.subagents.len() {
        Ok(settings)
    } else if !plan.subagents[from].enabled {
        subagents_outcome(plan, answers, from + 1, protocol, settings)
    } else {
        match own_protocol(answers, plan.subagents[from], protocol) {
            None => Err(not_permitted()),
            Some(own) => {
                let effective = settings_at(plan, from, protocol, settings, own);
                match stored_settings(effective, (answers.requests)(own, effective.request_settings)) {
                    Err(e) => Err(e),
                    Ok(_) => subagents_outcome(plan, answers, from + 1, protocol, settings),
                }
            },
        }
    }
}

/// The outcome once the protocol of the agent is known.
pub open spec fn settings_outcome(plan: CheckPlan, answers: Answers, protocol: Seq<char>) -> Result<
    SettingsView,
    ErrorView,
> {
    match stored_settings(
        plan.settings,
        (answers.requests)(protocol, plan.settings.request_settings),
    ) {
        Err(e) => Err(e),
        Ok(settings) => subagents_outcome(plan, answers, 0, protocol, settings),
    }
}

/// The settings that an agent is stored with, or why it is not.
pub open spec fn configuration_outcome(
    selection: Option<SelectionView>,
    plan: CheckPlan,
    answers: Answers,
) -> Result<SettingsView, ErrorView> {
    match selection {
        None => settings_outcome(plan, answers, plan.settings.request_settings.protocol),
        Some(s) => match (answers.protocols)(s) {
            None => Err(not_permitted()),
            Some(protocol) => settings_outcome(plan, answers, protocol),
        },
    }
}

/// The event that answers an action.
pub open spec fn answer_to(answers: Answers, action: CheckActionView) -> CheckEventView {
    match action {
        CheckActionView::LookUp(s) => CheckEventView::Protocol((answers.protocols)(s)),
        CheckActionView::CheckRequest { protocol, settings } => CheckEventView::Request(
            (answers.requests)(protocol, settings),
        ),
        _ => CheckEventView::Protocol(None),
    }
}

/// The step that a check has come to after so many answers; once it is closed
/// it stays there.
pub open spec fn checked_after(
    selection: Option<SelectionView>,
    plan: CheckPlan,
    answers: Answers,
    n: nat,
) -> CheckStepView
    decreases n,
{
    if n == 0 {
        first_check_step(selection, plan.settings)
    } else {
        let before = checked_after(selection, plan, answers, (n - 1) as nat);
        if before.0 is Closed {
            before
        } else {
            check_next(plan, before.0, answer_to(answers, before.1))
        }
    }
}

/// What is still open in a state: two answers for each subagent that is left,
/// and two for the agent.
pub open spec fn left_open(plan: CheckPlan, state: CheckStateView) -> int {
    let count: int = plan.subagents.len() as int;
    match state {
        CheckStateView::Protocol => 2 * count + 2,
        CheckStateView::Request { .. } => 2 * count + 1,
        CheckStateView::SubagentProtocol { at, .. } => 2 * (count - at),
        CheckStateView::SubagentRequest { at, .. } => 2 * (count - at) - 1,
        CheckStateView::Closed => 0,
    }
}

/// The outcome that a step leads to.
spec fn step_outcome(plan: CheckPlan, answers: Answers, step: CheckStepView) -> Result<
    SettingsView,
    ErrorView,
> {
    match step.0 {
        CheckStateView::Protocol => match answer_to(answers, step.1)->Protocol_0 {
            None => Err(not_permitted()),
            Some(protocol) => settings_outcome(plan, answers, protocol),
        },
        CheckStateView::Request { protocol } => settings_outcome(plan, answers, protocol),
        CheckStateView::SubagentProtocol { at, protocol, settings } => subagents_outcome(
            plan,
            answers,
            at,
            protocol,
            settings,
        ),
        CheckStateView::SubagentRequest { at, protocol, settings, own } => {
            let effective = settings_at(plan, at, protocol, settings, own);
            match stored_settings(effective, (answers.requests)(own, effective.request_settings)) {
                Err(e) => Err(e),
                Ok(_) => subagents_outcome(plan, answers, at + 1, protocol, settings),
            }
        },
        CheckStateView::Closed => match step.1 {
            CheckActionView::Finish(settings) => Ok(settings),
            CheckActionView::Refuse(e) => Err(e),
            _ => Err(not_permitted()),
        },
    }
}

/// The action asks for what the state waits for.
spec fn asks(plan: CheckPlan, step: CheckStepView) -> bool {
    match step.0 {
        CheckStateView::Protocol => step.1 is LookUp,
        CheckStateView::Request { protocol } => step.1 == request_step(plan.settings, protocol).1,
        CheckStateView::SubagentProtocol { at, .. } => 0 <= at < plan.subagents.len()
            && plan.subagents[at].enabled && plan.subagents[at].model_selection is Some && step.1
            == CheckActionView::LookUp(plan.subagents[at].model_selection->0@),
        CheckStateView::SubagentRequest { at, protocol, settings, own } => 0 <= at
            < plan.subagents.len() && step.1 == subagent_request_step(
            plan,
            at,
            protocol,
            settings,
            own,
        ).1,
        CheckStateView::Closed => step.1 is Finish || step.1 is Refuse,
    }
}

proof fn lemma_subagent_step(
    plan: CheckPlan,
    answers: Answers,
    from: int,
    protocol: Seq<char>,
    settings: SettingsView,
)
    requires
        0 <= from <= plan.subagents.len(),
    ensures
        asks(plan, subagent_step(plan, from, protocol, settings)),
        step_outcome(plan, answers, subagent_step(plan, from, protocol, settings))
            == subagents_outcome(plan, answers, from, protocol, settings),
        0 <= left_open(plan, subagent_step(plan, from, protocol, settings).0) <= 2 * (
        plan.subagents.len() - from),
    decreases plan.subagents.len() - from,
{
    if from < plan.subagents.len() && !plan.subagents[from].enabled {
        lemma_subagent_step(plan, answers, from + 1, protocol, settings);
    }
}

proof fn lemma_check_step(plan: CheckPlan, answers: Answers, step: CheckStepView)
    requires
        asks(plan, step),
        !(step.0 is Closed),
    ensures
        check_expects(plan, step.0, answer_to(answers, step.1)),
        ({
            let next = check_next(plan, step.0, answer_to(answers, step.1));
            &&& asks(plan, next)
            &&& step_outcome(plan, answers, next) == step_outcome(plan, answers, step)
            &&& 0 <= left_open(plan, next.0) < left_open(plan, step.0)
        }),
{
    match step.0 {
        CheckStateView::Request { protocol } => {
            match stored_settings(
                plan.settings,
                (answers.requests)(protocol, plan.settings.request_settings),
            ) {
                Ok(settings) => {
                    lemma_subagent_step(plan, answers, 0, protocol, settings);
                },
                Err(_) => {},
            }
        },
        CheckStateView::SubagentRequest { at, protocol, settings, own } => {
            lemma_subagent_step(plan, answers, at + 1, protocol, settings);
        },
        _ => {},
    }
}

proof fn lemma_checked(
    selection: Option<SelectionView>,
    plan: CheckPlan,
    answers: Answers,
    n: nat,
)
    ensures
        ({
            let step = checked_after(selection, plan, answers, n);
            &&& asks(plan, step)
            &&& step_outcome(plan, answers, step) == configuration_outcome(
                selection,
                plan,
                answers,
            )
            &&& step.0 is Closed || n + left_open(plan, step.0) <= 2 * plan.subagents.len() + 2
            &&& 0 <= left_open(plan, step.0)
        }),
    decreases n,
{
    if n > 0 {
        lemma_checked(selection, plan, answers, (n - 1) as nat);
        let before = checked_after(selection, plan, answers, (n - 1) as nat);
        if !(before.0 is Closed) {
            lemma_check_step(plan, answers, before);
        }
    }
}

/// Whatever the answers are, the check asks only what they can answer, and ends
/// after at most two answers for the agent and two for each subagent. It then
/// stores the settings, or refuses them, just as the models that are permitted
/// and the settings that are accepted say.
pub proof fn model_check_is_complete(
    selection: Option<SelectionView>,
    plan: CheckPlan,
    answers: Answers,
    n: nat,
)
    ensures
        ({
            let step = checked_after(selection, plan, answers, n);
            &&& !(step.0 is Closed) ==> check_expects(plan, step.0, answer_to(answers, step.1))
            &&& n >= 2 * plan.subagents.len() + 2 ==> step.0 is Closed
            &&& step.0 is Closed ==> match configuration_outcome(selection, plan, answers) {
                Ok(settings) => step.1 == CheckActionView::Finish(settings),
                Err(e) => step.1 == CheckActionView::Refuse(e),
            }
        }),
{
    lemma_checked(selection, plan, answers, n);
    let step = checked_after(selection, plan, answers, n);
    if !(step.0 is Closed) {
        lemma_check_step(plan, answers, step);
    }
}

/// The protocol that a subagent runs with: that of the model that it chooses,
/// else the agent's.
pub open spec fn own_protocol(answers: Answers, s: Subagent, protocol: Seq<char>) -> Option<Seq<char>> {
    match s.model_selection {
        Some(selection) => (answers.protocols)(selection@),
        None => Some(protocol),
    }
}

/// The subagent at `at` may use the model that it chooses, and has settings
/// that are accepted.
pub open spec fn subagent_accepted(
    plan: CheckPlan,
    answers: Answers,
    protocol: Seq<char>,
    settings: SettingsView,
    at: int,
) -> bool {
    match own_protocol(answers, plan.subagents[at], protocol) {
        None => false,
        Some(own) => {
            let effective = settings_at(plan, at, protocol, settings, own);
            stored_settings(effective, (answers.requests)(own, effective.request_settings)) is Ok
        },
    }
}

/// An agent that is stored has its settings as the check of them gave them, in
/// the protocol of its model, and every enabled subagent may use the model that
/// it chooses and has settings that are accepted.
pub proof fn stored_agents_are_accepted(
    selection: Option<SelectionView>,
    plan: CheckPlan,
    answers: Answers,
    at: int,
)
    requires
        configuration_outcome(selection, plan, answers) is Ok,
        0 <= at < plan.subagents.len(),
        plan.subagents[at].enabled,
    ensures
        selection is Some ==> (answers.protocols)(selection->0) is Some,
        ({
            let protocol = match selection {
                Some(s) => (answers.protocols)(s)->0,
                None => plan.settings.request_settings.protocol,
            };
            let settings = configuration_outcome(selection, plan, answers)->Ok_0;
            &&& stored_settings(
                plan.settings,
                (answers.requests)(protocol, plan.settings.request_settings),
            ) == Ok::<SettingsView, ErrorView>(settings)
            &&& subagent_accepted(plan, answers, protocol, settings, at)
        }),
{
    let protocol = match selection {
        Some(s) => (answers.protocols)(s)->0,
        None => plan.settings.request_settings.protocol,
    };
    let checked = (answers.requests)(protocol, plan.settings.request_settings);
    lemma_accepted(plan, answers, 0, protocol, stored_settings(plan.settings, checked)->Ok_0, at);
}

proof fn lemma_accepted(
    plan: CheckPlan,
    answers: Answers,
    from: int,
    protocol: Seq<char>,
    settings: SettingsView,
    at: int,
)
    requires
        subagents_outcome(plan, answers, from, protocol, settings) is Ok,
        0 <= from <= at < plan.subagents.len(),
        plan.subagents[at].enabled,
    ensures
        subagent_accepted(plan, answers, protocol, settings, at),
        subagents_outcome(plan, answers, from, protocol, settings) == Ok::<
            SettingsView,
            ErrorView,
        >(settings),
    decreases at - from,
{
    if from < at {
        lemma_accepted(plan, answers, from + 1, protocol, settings, at);
    } else {
        lemma_outcome(plan, answers, from + 1, protocol, settings);
    }
}

proof fn lemma_outcome(
    plan: CheckPlan,
    answers: Answers,
    from: int,
    protocol: Seq<char>,
    settings: SettingsView,
)
    requires
        0 <= from <= plan.subagents.len(),
    ensures
        subagents_outcome(plan, answers, from, protocol, settings) matches Ok(s) ==> s == settings,
    decreases plan.subagents.len() - from,
{
    if from < plan.subagents.len() {
        lemma_outcome(plan, answers, from + 1, protocol, settings);
    }
}

/// A tier is trimmed where one is given, and nothing else of a subagent is
/// touched; one that is not enabled is left alone.
pub proof fn tidying_trims_the_tier(s: Subagent, r: Subagent)
    requires
        tidied(s, r),
    ensures
        r.name == s.name,
        r.description == s.description,
        r.developer_instructions == s.developer_instructions,
        r.model_selection == s.model_selection,
        r.enabled == s.enabled,
        r.disabled_reason == s.disabled_reason,
        r.overrides.reasoning_effort == s.overrides.reasoning_effort,
        r.overrides.request_settings == s.overrides.request_settings,
        r.overrides.context_window_tokens == s.overrides.context_window_tokens,
        !s.enabled ==> r == s,
        s.enabled ==> (r.overrides.service_tier is Inherit <==> s.overrides.service_tier
            is Inherit),
        s.enabled ==> (r.overrides.service_tier is Automatic <==> s.overrides.service_tier
            is Automatic),
        s.enabled && s.overrides.service_tier is Value ==> r.overrides.service_tier is Value
            && r.overrides.service_tier->Value_0@ == trimmed(s.overrides.service_tier->Value_0@),
{
}

/// A subagent is checked with the agent's settings and its own overrides; only
/// a model of its own with another protocol drops the agent's request settings.
pub proof fn subagents_are_checked_with_their_settings(
    plan: CheckPlan,
    at: int,
    protocol: Seq<char>,
    settings: SettingsView,
    own: Seq<char>,
)
    ensures
        settings_at(plan, at, protocol, settings, own) == effective_settings(
            settings,
            plan.subagents[at].overrides,
            own,
            plan.subagents[at].model_selection is Some && own != protocol,
        ),
{
}

/// Each subagent that is enabled has a model that may be used and settings
/// that can be stored.
pub open spec fn all_accepted(
    plan: CheckPlan,
    answers: Answers,
    protocol: Seq<char>,
    settings: SettingsView,
    from: int,
) -> bool {
    forall|i: int|
        from <= i < plan.subagents.len() && (#[trigger] plan.subagents[i]).enabled
            ==> subagent_accepted(plan, answers, protocol, settings, i)
}

/// The protocol that the agent's own model speaks.
pub open spec fn agent_protocol(
    selection: Option<SelectionView>,
    plan: CheckPlan,
    answers: Answers,
) -> Seq<char> {
    match selection {
        Some(s) => (answers.protocols)(s)->0,
        None => plan.settings.request_settings.protocol,
    }
}

proof fn lemma_subagents_outcome(
    plan: CheckPlan,
    answers: Answers,
    from: int,
    protocol: Seq<char>,
    settings: SettingsView,
)
    requires
        0 <= from <= plan.subagents.len(),
    ensures
        subagents_outcome(plan, answers, from, protocol, settings) is Ok <==> all_accepted(
            plan,
            answers,
            protocol,
            settings,
            from,
        ),
        subagents_outcome(plan, answers, from, protocol, settings) matches Ok(kept) ==> kept
            == settings,
    decreases plan.subagents.len() - from,
{
    if from < plan.subagents.len() {
        lemma_subagents_outcome(plan, answers, from + 1, protocol, settings);
        let first = plan.subagents[from];
        if first.enabled {
            let accepted = subagent_accepted(plan, answers, protocol, settings, from);
            if subagents_outcome(plan, answers, from, protocol, settings) is Ok {
                assert(accepted);
                assert(all_accepted(plan, answers, protocol, settings, from + 1));
                assert forall|i: int|
                    from <= i < plan.subagents.len() && (
                    #[trigger] plan.subagents[i]).enabled implies subagent_accepted(
                    plan,
                    answers,
                    protocol,
                    settings,
                    i,
                ) by {}
            }
            if all_accepted(plan, answers, protocol, settings, from) {
                assert(accepted);
                assert(all_accepted(plan, answers, protocol, settings, from + 1));
            }
        }
    }
}

/// An agent's models are accepted just where its own model may be used, its
/// settings can be stored, and each subagent that is enabled has a model that
/// may be used and settings that can be stored; what is stored is the agent's
/// own settings.
pub proof fn accepted_models_are_stored(
    selection: Option<SelectionView>,
    plan: CheckPlan,
    answers: Answers,
)
    ensures
        ({
            let protocol = agent_protocol(selection, plan, answers);
            let own = stored_settings(
                plan.settings,
                (answers.requests)(protocol, plan.settings.request_settings),
            );
            &&& configuration_outcome(selection, plan, answers) is Ok <==> {
                &&& selection is Some ==> (answers.protocols)(selection->0) is Some
                &&& own is Ok
                &&& all_accepted(plan, answers, protocol, own->Ok_0, 0)
            }
            &&& configuration_outcome(selection, plan, answers) is Ok ==> configuration_outcome(
                selection,
                plan,
                answers,
            ) == own
        }),
        selection is Some && (answers.protocols)(selection->0) is None ==> configuration_outcome(
            selection,
            plan,
            answers,
        )->Err_0.status == Status::BadRequest,
{
    let protocol = agent_protocol(selection, plan, answers);
    let own = stored_settings(
        plan.settings,
        (answers.requests)(protocol, plan.settings.request_settings),
    );
    lemma_subagents_outcome(plan, answers, 0, protocol, own->Ok_0);
}

/// A subagent that selects a model is held to that model's protocol, any other
/// to the agent's.
pub proof fn subagents_speak_their_own_protocol(answers: Answers, s: Subagent, protocol: Seq<char>)
    ensures
        s.model_selection is None ==> own_protocol(answers, s, protocol) == Some(protocol),
        s.model_selection is Some ==> own_protocol(answers, s, protocol) == (answers.protocols)(
            s.model_selection->0@,
        ),
{
}

} // verus!
