//! Automations: what is stored of one, its webhook token, and who may set it
//! off.

use crate::digest::{sha256_hex, text_digest};
use crate::error::{plain, refused, seen, ApiError, ErrorView, Status};
use crate::ids::{new_secret, secret_text, Id};
use crate::schedule::{
    normalize_automation_trigger, normalized_trigger, schedule_validity, unit_is_cuttable,
    validate_automation_schedule, Trigger,
};
use crate::text::{blank, copy_opt, is_blank, opt_view, same_opt, trim, trimmed};
use vstd::prelude::*;

verus! {

/// What a request says about an automation.
#[derive(Debug)]
pub struct AutomationRequest {
    pub name: String,
    pub trigger_type: String,
    pub prompt: String,
    pub schedule: Option<String>,
    pub enabled: bool,
}

/// What is stored of an automation.
#[derive(Debug)]
pub struct AutomationFields {
    pub name: String,
    pub trigger: Trigger,
    pub prompt: String,
    pub schedule: Option<String>,
    pub enabled: bool,
}

/// What `AutomationFields` holds.
pub struct AutomationView {
    pub name: Seq<char>,
    pub trigger: Trigger,
    pub prompt: Seq<char>,
    pub schedule: Option<Seq<char>>,
    pub enabled: bool,
}

impl View for AutomationFields {
    type V = AutomationView;

    open spec fn view(&self) -> AutomationView {
        AutomationView {
            name: self.name@,
            trigger: self.trigger,
            prompt: self.prompt@,
            schedule: opt_view(self.schedule),
            enabled: self.enabled,
        }
    }
}

/// The trimmed text, unless it is blank.
pub open spec fn unless_blank(text: Option<Seq<char>>) -> Option<Seq<char>> {
    match text {
        Some(t) => if blank(t) {
            None
        } else {
            Some(trimmed(t))
        },
        None => None,
    }
}

/// The trimmed text, unless it is blank.
pub fn trim_unless_blank(text: &Option<String>) -> (r: Option<String>)
    ensures
        opt_view(r) == unless_blank(opt_view(*text)),
{
    match text {
        Some(t) => {
            let trimmed_text = trim(t.as_str());
            if trimmed_text.as_str().is_empty() {
                None
            } else {
                Some(trimmed_text)
            }
        },
        None => None,
    }
}

/// What is stored of an automation: a name and a prompt that are not blank, a
/// known trigger, and a schedule that fits it.
pub open spec fn automation_fields(req: AutomationRequest) -> Result<AutomationView, ErrorView> {
    if blank(req.name@) {
        refused(Status::BadRequest, "automation name is required"@)
    } else {
        match normalized_trigger(req.trigger_type@) {
            Err(e) => Err(e),
            Ok(trigger) => if blank(req.prompt@) {
                refused(Status::BadRequest, "automation prompt is required"@)
            } else {
                match schedule_validity(trigger, opt_view(req.schedule)) {
                    Err(e) => Err(e),
                    Ok(_) => Ok(
                        AutomationView {
                            name: trimmed(req.name@),
                            trigger,
                            prompt: trimmed(req.prompt@),
                            schedule: unless_blank(opt_view(req.schedule)),
                            enabled: req.enabled,
                        },
                    ),
                }
            },
        }
    }
}

/// The request gets as far as reading its schedule as an interval.
pub open spec fn reads_interval(req: AutomationRequest) -> bool {
    &&& !blank(req.name@)
    &&& normalized_trigger(req.trigger_type@) == Ok::<Trigger, ErrorView>(Trigger::Interval)
    &&& !blank(req.prompt@)
    &&& req.schedule is Some
}

/// What is stored of an automation that is created or changed.
pub fn validate_automation_request(req: &AutomationRequest) -> (r: Result<
    AutomationFields,
    ApiError,
>)
    requires
        reads_interval(*req) ==> unit_is_cuttable(req.schedule->0@),
    ensures
        seen(r) == automation_fields(*req),
{
    if is_blank(req.name.as_str()) {
        return Err(ApiError::bad_request("automation name is required"));
    }
    let trigger = match normalize_automation_trigger(req.trigger_type.as_str()) {
        Ok(trigger) => trigger,
        Err(e) => {
            return Err(e);
        },
    };
    if is_blank(req.prompt.as_str()) {
        return Err(ApiError::bad_request("automation prompt is required"));
    }
    match validate_automation_schedule(trigger, &req.schedule) {
        Ok(_) => {},
        Err(e) => {
            return Err(e);
        },
    }
    Ok(
        AutomationFields {
            name: trim(req.name.as_str()),
            trigger,
            prompt: trim(req.prompt.as_str()),
            schedule: trim_unless_blank(&req.schedule),
            enabled: req.enabled,
        },
    )
}

// ---------------------------------------------------------------------------
// The webhook token
// ---------------------------------------------------------------------------

/// What becomes of the webhook token of an automation.
#[derive(Clone, Copy, Debug, PartialEq, Eq, Structural)]
pub enum TokenPlan {
    /// There is no token, or no longer one.
    Clear,
    /// The token that callers know stays valid.
    Keep,
    /// A new token is issued and shown once.
    Issue,
}

/// A token stays when a webhook stays a webhook, is issued when an automation
/// becomes one, and is cleared otherwise.
pub open spec fn token_plan(previous: Option<Trigger>, next: Trigger) -> TokenPlan {
    if next != Trigger::Webhook {
        TokenPlan::Clear
    } else if previous == Some(Trigger::Webhook) {
        TokenPlan::Keep
    } else {
        TokenPlan::Issue
    }
}

/// What becomes of the webhook token when an automation that had `previous`
/// as its trigger (none when it is new) gets `next`.
pub fn plan_webhook_token(previous: Option<Trigger>, next: Trigger) -> (r: TokenPlan)
    ensures
        r == token_plan(previous, next),
{
    match (previous, next) {
        (Some(Trigger::Webhook), Trigger::Webhook) => TokenPlan::Keep,
        (_, Trigger::Webhook) => TokenPlan::Issue,
        _ => TokenPlan::Clear,
    }
}

/// A fresh webhook token.
pub fn new_webhook_token() -> (r: String)
    ensures
        exists|a: Id, b: Id| r@ == #[trigger] secret_text("ahw_"@, a, b),
{
    new_secret("ahw_")
}

/// The digest that is stored of the webhook token.
pub open spec fn stored_token(
    plan: TokenPlan,
    current: Option<Seq<char>>,
    issued: Seq<char>,
) -> Option<Seq<char>> {
    match plan {
        TokenPlan::Clear => None,
        TokenPlan::Keep => current,
        TokenPlan::Issue => Some(text_digest(issued)),
    }
}

/// The digest that is stored of the webhook token: the current one, that of
/// the issued token, or none.
pub fn webhook_token_hash(plan: TokenPlan, current: &Option<String>, issued: &str) -> (r: Option<
    String,
>)
    ensures
        opt_view(r) == stored_token(plan, opt_view(*current), issued@),
{
    match plan {
        TokenPlan::Clear => None,
        TokenPlan::Keep => copy_opt(current),
        TokenPlan::Issue => Some(sha256_hex(issued)),
    }
}

// ---------------------------------------------------------------------------
// Setting an automation off
// ---------------------------------------------------------------------------

/// Where a run of an automation comes from.
#[derive(Clone, Copy, Debug, PartialEq, Eq, Structural)]
pub enum RunSource {
    Manual,
    Webhook,
    Scheduler,
}

/// The sources that may set off each trigger.
pub open spec fn source_serves(source: RunSource, trigger: Option<Trigger>) -> bool {
    match source {
        RunSource::Manual => trigger == Some(Trigger::Manual),
        RunSource::Webhook => trigger == Some(Trigger::Webhook),
        RunSource::Scheduler => trigger == Some(Trigger::Interval) || trigger == Some(
            Trigger::Cron,
        ),
    }
}

/// The source must fit the trigger.
pub open spec fn source_check(source: RunSource, trigger: Option<Trigger>) -> Result<
    (),
    ErrorView,
> {
    if source_serves(source, trigger) {
        Ok(())
    } else {
        refused(
            Status::Forbidden,
            match source {
                RunSource::Manual => "only manual automation can be triggered here"@,
                RunSource::Webhook => "only webhook automation can be triggered here"@,
                RunSource::Scheduler => "only scheduled automation can be triggered here"@,
            },
        )
    }
}

/// Refuses a source that does not fit the trigger.
pub fn check_trigger_source(source: RunSource, trigger: Option<Trigger>) -> (r: Result<
    (),
    ApiError,
>)
    ensures
        plain(r) == source_check(source, trigger),
{
    match (source, trigger) {
        (RunSource::Manual, Some(Trigger::Manual)) => Ok(()),
        (RunSource::Webhook, Some(Trigger::Webhook)) => Ok(()),
        (RunSource::Scheduler, Some(Trigger::Interval)) => Ok(()),
        (RunSource::Scheduler, Some(Trigger::Cron)) => Ok(()),
        (RunSource::Manual, _) => Err(
            ApiError::forbidden("only manual automation can be triggered here"),
        ),
        (RunSource::Webhook, _) => Err(
            ApiError::forbidden("only webhook automation can be triggered here"),
        ),
        (RunSource::Scheduler, _) => Err(
            ApiError::forbidden("only scheduled automation can be triggered here"),
        ),
    }
}

/// The message of a run: the one given, unless it is blank, else the prompt.
pub open spec fn run_message(message: Option<Seq<char>>, prompt: Seq<char>) -> Seq<char> {
    match unless_blank(message) {
        Some(m) => m,
        None => prompt,
    }
}

/// The message of a run.
pub fn trigger_message(message: &Option<String>, prompt: &str) -> (r: String)
    ensures
        r@ == run_message(opt_view(*message), prompt@),
{
    match trim_unless_blank(message) {
        Some(m) => m,
        None => prompt.to_owned(),
    }
}

/// What is stored of an automation when it is locked to run.
#[derive(Debug)]
pub struct LockedAutomation {
    pub enabled: bool,
    pub trigger: Option<Trigger>,
    pub webhook_token_hash: Option<String>,
}

/// The locked automation may run: it is enabled, still has the trigger it was
/// found with, and a webhook caller presented the token it has now.
pub open spec fn may_run(
    locked: LockedAutomation,
    trigger: Trigger,
    presented: Option<Seq<char>>,
) -> bool {
    &&& locked.enabled
    &&& locked.trigger == Some(trigger)
    &&& presented is Some ==> opt_view(locked.webhook_token_hash) == presented
}

/// Whether a run may start, once the agent and the automation are locked.
pub open spec fn run_authorization(
    agent_active: bool,
    locked: Option<LockedAutomation>,
    trigger: Trigger,
    presented: Option<Seq<char>>,
) -> Result<(), ErrorView> {
    if !agent_active || locked is None {
        refused(Status::Forbidden, "automation is disabled or agent is deleted"@)
    } else if may_run(locked->0, trigger, presented) {
        Ok(())
    } else if presented is Some {
        refused(Status::Unauthorized, "invalid automation webhook token"@)
    } else {
        refused(Status::Forbidden, "automation is disabled or agent is deleted"@)
    }
}

/// Whether a run may start, once the agent and the automation are locked.
/// `presented` is the digest of the token that a webhook caller presented.
pub fn authorize_run(
    agent_active: bool,
    locked: &Option<LockedAutomation>,
    trigger: Trigger,
    presented: &Option<String>,
) -> (r: Result<(), ApiError>)
    ensures
        plain(r) == run_authorization(agent_active, *locked, trigger, opt_view(*presented)),
{
    if !agent_active {
        return Err(ApiError::forbidden("automation is disabled or agent is deleted"));
    }
    match locked {
        None => Err(ApiError::forbidden("automation is disabled or agent is deleted")),
        Some(stored) => {
            let token_matches = match presented {
                Some(_) => same_opt(&stored.webhook_token_hash, presented),
                None => true,
            };
            let trigger_matches = match stored.trigger {
                Some(t) => t == trigger,
                None => false,
            };
            if stored.enabled && trigger_matches && token_matches {
                Ok(())
            } else if presented.is_some() {
                Err(ApiError::unauthorized("invalid automation webhook token"))
            } else {
                Err(ApiError::forbidden("automation is disabled or agent is deleted"))
            }
        },
    }
}

// ---------------------------------------------------------------------------
// Laws
// ---------------------------------------------------------------------------

/// A change that keeps an automation a webhook keeps the token that its
/// callers know, and any other change makes that token useless unless its
/// digest is issued anew.
pub proof fn webhook_tokens_follow_the_trigger(
    previous: Trigger,
    next: Trigger,
    current: Option<Seq<char>>,
    issued: Seq<char>,
)
    ensures
        previous == Trigger::Webhook && next == Trigger::Webhook ==> stored_token(
            token_plan(Some(previous), next),
            current,
            issued,
        ) == current,
        next != Trigger::Webhook ==> stored_token(
            token_plan(Some(previous), next),
            current,
            issued,
        ) is None,
        previous != Trigger::Webhook && next == Trigger::Webhook ==> stored_token(
            token_plan(Some(previous), next),
            current,
            issued,
        ) == Some(text_digest(issued)),
        token_plan(None, next) == TokenPlan::Issue <==> next == Trigger::Webhook,
{
}

/// A webhook run starts only for the token that is stored now, and never for
/// an automation that is disabled or has changed its trigger.
pub proof fn webhook_runs_need_the_current_token(
    agent_active: bool,
    locked: Option<LockedAutomation>,
    trigger: Trigger,
    presented: Seq<char>,
)
    requires
        run_authorization(agent_active, locked, trigger, Some(presented)) is Ok,
    ensures
        agent_active,
        locked is Some,
        locked->0.enabled,
        locked->0.trigger == Some(trigger),
        opt_view(locked->0.webhook_token_hash) == Some(presented),
{
}

/// An automation has a name, a prompt, a trigger that is known and a schedule
/// that fits it; it is stored as it was asked for, trimmed.
pub proof fn automations_are_stored_as_asked(req: AutomationRequest)
    ensures
        automation_fields(req) is Ok <==> {
            &&& !blank(req.name@)
            &&& !blank(req.prompt@)
            &&& normalized_trigger(req.trigger_type@) is Ok
            &&& schedule_validity(
                normalized_trigger(req.trigger_type@)->Ok_0,
                opt_view(req.schedule),
            ) is Ok
        },
        automation_fields(req) matches Ok(fields) ==> {
            &&& fields.name == trimmed(req.name@)
            &&& fields.prompt == trimmed(req.prompt@)
            &&& normalized_trigger(req.trigger_type@) == Ok::<Trigger, ErrorView>(fields.trigger)
            &&& fields.enabled == req.enabled
            &&& fields.schedule is Some <==> req.schedule is Some && !blank(req.schedule->0@)
            &&& fields.schedule is Some ==> fields.schedule->0 == trimmed(req.schedule->0@)
        },
        blank(req.name@) || blank(req.prompt@) ==> automation_fields(req)->Err_0.status
            == Status::BadRequest || normalized_trigger(req.trigger_type@) is Err,
{
}

/// A run is started by hand, by a caller or by the clock, each for the
/// automations that are meant for it; every automation has one way to start.
pub proof fn automations_start_in_their_own_way(source: RunSource, trigger: Trigger)
    ensures
        source_check(source, None) is Err,
        source_check(RunSource::Manual, Some(trigger)) is Ok <==> trigger == Trigger::Manual,
        source_check(RunSource::Webhook, Some(trigger)) is Ok <==> trigger == Trigger::Webhook,
        source_check(RunSource::Scheduler, Some(trigger)) is Ok <==> trigger == Trigger::Interval
            || trigger == Trigger::Cron,
        source_check(source, Some(trigger)) matches Err(e) ==> e.status == Status::Forbidden,
        source_check(source, None)->Err_0.status == Status::Forbidden,
{
}

/// A run is about the message that came with it, or about the prompt where
/// none did.
pub proof fn runs_are_about_their_message(message: Seq<char>, prompt: Seq<char>)
    ensures
        run_message(None, prompt) == prompt,
        blank(message) ==> run_message(Some(message), prompt) == prompt,
        !blank(message) ==> run_message(Some(message), prompt) == trimmed(message),
{
}

/// A run is let through where the agent is there and the automation is enabled
/// and still has the trigger, and, where a token is presented, it is the stored
/// one.
pub proof fn runs_are_let_through(
    agent_active: bool,
    locked: Option<LockedAutomation>,
    trigger: Trigger,
    presented: Option<Seq<char>>,
)
    ensures
        run_authorization(agent_active, locked, trigger, presented) is Ok <==> {
            &&& agent_active
            &&& locked is Some
            &&& locked->0.enabled
            &&& locked->0.trigger == Some(trigger)
            &&& presented is Some ==> locked->0.webhook_token_hash is Some
                && locked->0.webhook_token_hash->0@ == presented->0
        },
        run_authorization(agent_active, locked, trigger, presented) matches Err(e) ==> e.status
            == if agent_active && locked is Some && presented is Some {
            Status::Unauthorized
        } else {
            Status::Forbidden
        },
{
}

} // verus!
