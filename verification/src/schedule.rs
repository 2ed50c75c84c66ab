//! When an automation runs by itself: intervals and cron schedules.

use crate::clock::{
    civil, civil_of, holds_seconds, on_calendar, second_of, timestamp, try_seconds, Civil, Instant,
};
use crate::error::{error_of, plain, refused, ApiError, ErrorView, Status};
use crate::ids::Id;
use crate::numeral::{parse_i64, parse_u32, signed_value, unsigned_value};
use crate::text::{
    blank, byte_count, byte_len, chars_of, is_blank, opt_view, range_string, same,
    split_whitespace, trim, trimmed, views, words,
};
use vstd::prelude::*;

verus! {

// ---------------------------------------------------------------------------
// Triggers
// ---------------------------------------------------------------------------

/// What sets an automation off.
#[derive(Clone, Copy, Debug, PartialEq, Eq, Structural)]
pub enum Trigger {
    Manual,
    Webhook,
    Interval,
    Cron,
}

/// The trigger that a stored name stands for.
pub open spec fn trigger_named(name: Seq<char>) -> Option<Trigger> {
    if name == "manual"@ {
        Some(Trigger::Manual)
    } else if name == "webhook"@ {
        Some(Trigger::Webhook)
    } else if name == "interval"@ {
        Some(Trigger::Interval)
    } else if name == "cron"@ {
        Some(Trigger::Cron)
    } else {
        None
    }
}

/// The trigger that a stored name stands for.
pub fn stored_trigger(name: &str) -> (r: Option<Trigger>)
    ensures
        r == trigger_named(name@),
{
    if same(name, "manual") {
        Some(Trigger::Manual)
    } else if same(name, "webhook") {
        Some(Trigger::Webhook)
    } else if same(name, "interval") {
        Some(Trigger::Interval)
    } else if same(name, "cron") {
        Some(Trigger::Cron)
    } else {
        None
    }
}

/// The name of a trigger.
pub fn trigger_name(trigger: Trigger) -> (r: &'static str)
    ensures
        trigger_named(r@) == Some(trigger),
{
    proof {
        reveal_strlit("manual");
        reveal_strlit("webhook");
        reveal_strlit("interval");
        reveal_strlit("cron");
        assert("manual"@[0] == 'm' && "webhook"@[0] == 'w' && "interval"@[0] == 'i' && "cron"@[0]
            == 'c');
    }
    match trigger {
        Trigger::Manual => "manual",
        Trigger::Webhook => "webhook",
        Trigger::Interval => "interval",
        Trigger::Cron => "cron",
    }
}

/// The trigger that a request names.
pub open spec fn normalized_trigger(name: Seq<char>) -> Result<Trigger, ErrorView> {
    match trigger_named(trimmed(name)) {
        Some(trigger) => Ok(trigger),
        None => refused(Status::BadRequest, "unsupported automation trigger type"@),
    }
}

/// The trigger that a request names.
pub fn normalize_automation_trigger(trigger_type: &str) -> (r: Result<Trigger, ApiError>)
    ensures
        plain(r) == normalized_trigger(trigger_type@),
{
    let name = trim(trigger_type);
    match stored_trigger(name.as_str()) {
        Some(trigger) => Ok(trigger),
        None => Err(ApiError::bad_request("unsupported automation trigger type")),
    }
}

// ---------------------------------------------------------------------------
// Intervals
// ---------------------------------------------------------------------------

/// The seconds in a unit of an interval.
pub open spec fn unit_seconds(unit: char) -> Option<int> {
    if unit == 's' {
        Some(1)
    } else if unit == 'm' {
        Some(60)
    } else if unit == 'h' {
        Some(3600)
    } else {
        None
    }
}

/// An interval whose unit, its last byte, can be cut off.
pub open spec fn unit_is_cuttable(schedule: Seq<char>) -> bool {
    let t = trimmed(schedule);
    byte_count(t) >= 2 ==> t.len() > 0 && t.last() <= '\u{7f}'
}

/// The seconds of an interval such as `5m`.
pub open spec fn interval_seconds(schedule: Seq<char>) -> Result<i64, ErrorView> {
    let t = trimmed(schedule);
    if byte_count(t) < 2 {
        refused(Status::BadRequest, "interval schedule must be like 5m"@)
    } else {
        match signed_value(t.drop_last()) {
            Some(amount) => if !(i64::MIN <= amount <= i64::MAX) {
                refused(Status::BadRequest, "interval amount must be a number"@)
            } else if amount <= 0 {
                refused(Status::BadRequest, "interval amount must be positive"@)
            } else {
                match unit_seconds(t.last()) {
                    Some(unit) => duration_seconds(amount, unit),
                    None => refused(Status::BadRequest, "interval schedule must use s, m, or h"@),
                }
            },
            None => refused(Status::BadRequest, "interval amount must be a number"@),
        }
    }
}

/// The seconds of `amount` units, where a duration can hold them.
pub open spec fn duration_seconds(amount: int, unit: int) -> Result<i64, ErrorView> {
    if holds_seconds(amount * unit) {
        Ok((amount * unit) as i64)
    } else {
        refused(Status::BadRequest, "interval schedule is too large"@)
    }
}

/// The seconds of `amount` units, where a duration can hold them.
pub fn checked_interval_duration(amount: i64, seconds_per_unit: i64) -> (r: Result<i64, ApiError>)
    ensures
        plain(r) == duration_seconds(amount as int, seconds_per_unit as int),
{
    match amount.checked_mul(seconds_per_unit) {
        Some(seconds) => match try_seconds(seconds) {
            Some(duration) => Ok(duration),
            None => Err(ApiError::bad_request("interval schedule is too large")),
        },
        None => Err(ApiError::bad_request("interval schedule is too large")),
    }
}

/// Tells whether the last byte of an interval can be cut off: it cannot where
/// it belongs to a longer character.
pub fn interval_unit_is_cuttable(schedule: &str) -> (r: bool)
    ensures
        r == unit_is_cuttable(schedule@),
{
    let t = trim(schedule);
    let chars = chars_of(t.as_str());
    byte_len(t.as_str()) < 2 || (chars.len() > 0 && chars[chars.len() - 1] <= '\u{7f}')
}

/// The seconds of an interval such as `5m`.
pub fn parse_interval_schedule(schedule: &str) -> (r: Result<i64, ApiError>)
    requires
        unit_is_cuttable(schedule@),
    ensures
        plain(r) == interval_seconds(schedule@),
{
    let t = trim(schedule);
    if byte_len(t.as_str()) < 2 {
        return Err(ApiError::bad_request("interval schedule must be like 5m"));
    }
    let chars = chars_of(t.as_str());
    let last: usize = chars.len() - 1;
    let amount_text = range_string(&chars, 0, last);
    assert(amount_text@ =~= t@.drop_last());
    let amount: i64 = match parse_i64(amount_text.as_str()) {
        Some(amount) => amount,
        None => {
            return Err(ApiError::bad_request("interval amount must be a number"));
        },
    };
    if amount <= 0 {
        return Err(ApiError::bad_request("interval amount must be positive"));
    }
    let unit = chars[last];
    if unit == 's' {
        checked_interval_duration(amount, 1)
    } else if unit == 'm' {
        checked_interval_duration(amount, 60)
    } else if unit == 'h' {
        checked_interval_duration(amount, 3600)
    } else {
        Err(ApiError::bad_request("interval schedule must use s, m, or h"))
    }
}

// ---------------------------------------------------------------------------
// Cron schedules
// ---------------------------------------------------------------------------

/// The values of the field at `index`: minute, hour, day, month and weekday,
/// which is counted from Sunday and takes seven for Sunday too.
pub open spec fn field_in_range(index: int, value: nat) -> bool {
    if index == 0 {
        value <= 59
    } else if index == 1 {
        value <= 23
    } else if index == 2 {
        1 <= value <= 31
    } else if index == 3 {
        1 <= value <= 12
    } else {
        index == 4 && value <= 7
    }
}

/// What is wrong with the field at `index`, if anything.
pub open spec fn field_error(field: Seq<char>, index: int) -> Option<Seq<char>> {
    if field == "*"@ {
        None
    } else {
        match unsigned_value(field) {
            Some(value) => if value > u32::MAX {
                Some("cron fields must be * or a number"@)
            } else if !field_in_range(index, value) {
                Some("cron field is out of range"@)
            } else {
                None
            },
            None => Some("cron fields must be * or a number"@),
        }
    }
}

/// The first thing that is wrong with the fields from `index` on.
pub open spec fn fields_error(fields: Seq<Seq<char>>, index: int) -> Option<Seq<char>>
    decreases fields.len() - index,
{
    if index >= fields.len() {
        None
    } else if field_error(fields[index], index) is Some {
        field_error(fields[index], index)
    } else {
        fields_error(fields, index + 1)
    }
}

/// A cron schedule has five fields, each a star or a number in its range.
pub open spec fn cron_validity(schedule: Seq<char>) -> Result<(), ErrorView> {
    let fields = words(schedule);
    if fields.len() != 5 {
        refused(Status::BadRequest, "cron schedule must have 5 fields"@)
    } else {
        match fields_error(fields, 0) {
            Some(message) => refused(Status::BadRequest, message),
            None => Ok(()),
        }
    }
}

/// The five fields of a cron schedule.
pub fn cron_fields(schedule: &str) -> (r: Result<Vec<String>, ApiError>)
    ensures
        match r {
            Ok(fields) => views(fields@) == words(schedule@) && fields@.len() == 5,
            Err(e) => words(schedule@).len() != 5 && e@ == error_of(
                Status::BadRequest,
                "cron schedule must have 5 fields"@,
            ),
        },
{
    let fields = split_whitespace(schedule);
    assert(views(fields@).len() == fields@.len());
    if fields.len() != 5 {
        return Err(ApiError::bad_request("cron schedule must have 5 fields"));
    }
    Ok(fields)
}

fn in_range(index: usize, value: u32) -> (r: bool)
    ensures
        r == field_in_range(index as int, value as nat),
{
    if index == 0 {
        value <= 59
    } else if index == 1 {
        value <= 23
    } else if index == 2 {
        1 <= value && value <= 31
    } else if index == 3 {
        1 <= value && value <= 12
    } else {
        index == 4 && value <= 7
    }
}

/// Accepts a cron schedule, or says what is wrong with it.
pub fn validate_cron_schedule(schedule: &str) -> (r: Result<(), ApiError>)
    ensures
        plain(r) == cron_validity(schedule@),
{
    let fields = match cron_fields(schedule) {
        Ok(fields) => fields,
        Err(e) => {
            return Err(e);
        },
    };
    let ghost texts = words(schedule@);
    let mut index: usize = 0;
    while index < fields.len()
        invariant
            index <= fields@.len() == 5,
            texts == words(schedule@),
            views(fields@) == texts,
            fields_error(texts, 0) == fields_error(texts, index as int),
        decreases fields@.len() - index,
    {
        let field = fields[index].as_str();
        assert(field@ == texts[index as int]);
        if !same(field, "*") {
            match parse_u32(field) {
                Some(value) => {
                    if !in_range(index, value) {
                        return Err(ApiError::bad_request("cron field is out of range"));
                    }
                },
                None => {
                    return Err(ApiError::bad_request("cron fields must be * or a number"));
                },
            }
        }
        index = index + 1;
    }
    Ok(())
}

/// A field admits a value: a star admits every value, a number in range admits
/// itself, and seven as weekday admits Sunday.
pub open spec fn field_admits(field: Seq<char>, value: u32, index: int) -> bool {
    field == "*"@ || match unsigned_value(field) {
        Some(expected) => expected <= u32::MAX && field_in_range(index, expected) && value == (
        if index == 4 && expected == 7 {
            0
        } else {
            expected as int
        }),
        None => false,
    }
}

/// Tells whether a field admits a value.
pub fn cron_field_matches(field: &str, value: u32, index: usize) -> (r: bool)
    ensures
        r == field_admits(field@, value, index as int),
{
    if same(field, "*") {
        return true;
    }
    match parse_u32(field) {
        Some(number) => {
            let expected: u32 = if index == 4 && number == 7 {
                0
            } else {
                number
            };
            in_range(index, number) && expected == value
        },
        None => false,
    }
}

/// All five fields of the schedule admit the civil time.
pub open spec fn cron_admits(schedule: Seq<char>, at: Civil) -> bool {
    let fields = words(schedule);
    &&& fields.len() == 5
    &&& field_admits(fields[0], at.minute, 0)
    &&& field_admits(fields[1], at.hour, 1)
    &&& field_admits(fields[2], at.day, 2)
    &&& field_admits(fields[3], at.month, 3)
    &&& field_admits(fields[4], at.weekday, 4)
}

/// Tells whether all five fields of the schedule admit the civil time.
pub fn cron_matches_civil(schedule: &str, at: Civil) -> (r: bool)
    ensures
        r == cron_admits(schedule@, at),
{
    match cron_fields(schedule) {
        Ok(fields) => {
            assert forall|i: int| 0 <= i < 5 implies fields@[i]@ == #[trigger] words(
                schedule@,
            )[i] by {
                assert(views(fields@)[i] == fields@[i]@);
            }
            cron_field_matches(fields[0].as_str(), at.minute, 0) && cron_field_matches(
                fields[1].as_str(),
                at.hour,
                1,
            ) && cron_field_matches(fields[2].as_str(), at.day, 2) && cron_field_matches(
                fields[3].as_str(),
                at.month,
                3,
            ) && cron_field_matches(fields[4].as_str(), at.weekday, 4)
        },
        Err(_) => false,
    }
}

/// Tells whether a cron schedule admits the minute of `now`.
pub fn cron_schedule_matches(schedule: &str, now: Instant) -> (r: bool)
    requires
        on_calendar(now),
    ensures
        r == cron_admits(schedule@, civil_of(second_of(now))),
{
    let at = civil(timestamp(now));
    assert(at == civil_of(second_of(now)));
    cron_matches_civil(schedule, at)
}

/// The minute that an instant falls in, counted from the epoch and rounded
/// towards it.
pub open spec fn minute_of(t: Instant) -> int {
    if second_of(t) >= 0 {
        second_of(t) / 60
    } else {
        -((-second_of(t)) / 60)
    }
}

/// The minute that an instant falls in, counted from the epoch.
pub fn minute_key(t: Instant) -> (r: i64)
    requires
        on_calendar(t),
    ensures
        r == minute_of(t),
{
    let second: i64 = timestamp(t);
    if second >= 0 {
        second / 60
    } else {
        -((-second) / 60)
    }
}

// ---------------------------------------------------------------------------
// Schedules of automations
// ---------------------------------------------------------------------------

/// A schedule is needed for the timed triggers, must be readable there, and is
/// refused for the others.
pub open spec fn schedule_validity(trigger: Trigger, schedule: Option<Seq<char>>) -> Result<
    (),
    ErrorView,
> {
    let given = schedule is Some && !blank(schedule->0);
    match trigger {
        Trigger::Manual | Trigger::Webhook => if given {
            refused(
                Status::BadRequest,
                "schedule is only valid for cron or interval automation"@,
            )
        } else {
            Ok(())
        },
        Trigger::Interval => if !given {
            refused(Status::BadRequest, "schedule is required for cron or interval automation"@)
        } else {
            match interval_seconds(schedule->0) {
                Ok(_) => Ok(()),
                Err(e) => Err(e),
            }
        },
        Trigger::Cron => if !given {
            refused(Status::BadRequest, "schedule is required for cron or interval automation"@)
        } else {
            cron_validity(schedule->0)
        },
    }
}

/// Accepts the schedule of an automation, or says what is wrong with it.
pub fn validate_automation_schedule(trigger: Trigger, schedule: &Option<String>) -> (r: Result<
    (),
    ApiError,
>)
    requires
        trigger == Trigger::Interval && schedule is Some ==> unit_is_cuttable(schedule->0@),
    ensures
        plain(r) == schedule_validity(trigger, opt_view(*schedule)),
{
    let given = match schedule {
        Some(text) => !is_blank(text.as_str()),
        None => false,
    };
    match trigger {
        Trigger::Manual | Trigger::Webhook => {
            if given {
                return Err(
                    ApiError::bad_request("schedule is only valid for cron or interval automation"),
                );
            }
            Ok(())
        },
        Trigger::Interval => match schedule {
            Some(text) => {
                if !given {
                    return Err(
                        ApiError::bad_request("schedule is required for cron or interval automation"),
                    );
                }
                match parse_interval_schedule(text.as_str()) {
                    Ok(_) => Ok(()),
                    Err(e) => Err(e),
                }
            },
            None => Err(
                ApiError::bad_request("schedule is required for cron or interval automation"),
            ),
        },
        Trigger::Cron => match schedule {
            Some(text) => {
                if !given {
                    return Err(
                        ApiError::bad_request("schedule is required for cron or interval automation"),
                    );
                }
                validate_cron_schedule(text.as_str())
            },
            None => Err(
                ApiError::bad_request("schedule is required for cron or interval automation"),
            ),
        },
    }
}

/// What decides when an automation runs by itself.
#[derive(Debug)]
pub struct Timing {
    pub enabled: bool,
    pub trigger: Option<Trigger>,
    pub schedule: Option<String>,
    pub last_triggered_at: Option<Instant>,
    pub created_at: Instant,
}

/// Timing whose instants the calendar holds and whose interval can be read.
pub open spec fn readable(timing: Timing) -> bool {
    &&& on_calendar(timing.created_at)
    &&& timing.last_triggered_at is Some ==> on_calendar(timing.last_triggered_at->0)
    &&& timing.enabled && timing.trigger == Some(Trigger::Interval) && timing.schedule is Some
        ==> unit_is_cuttable(timing.schedule->0@)
}

/// An automation is due at an instant with these civil fields: it is enabled,
/// and its interval has passed since it last ran (or was created), or its cron
/// schedule admits a minute in which it has not run yet.
pub open spec fn due_at(timing: Timing, now: Instant, at: Civil) -> bool {
    timing.enabled && timing.schedule is Some && match timing.trigger {
        Some(Trigger::Interval) => match interval_seconds(timing.schedule->0@) {
            Ok(seconds) => now - timing.last_triggered_at.unwrap_or(timing.created_at) >= seconds
                * 1_000_000_000,
            Err(_) => false,
        },
        Some(Trigger::Cron) => cron_admits(timing.schedule->0@, at) && (timing.last_triggered_at
            is None || minute_of(timing.last_triggered_at->0) != minute_of(now)),
        _ => false,
    }
}

/// An automation is due.
pub open spec fn due(timing: Timing, now: Instant) -> bool {
    due_at(timing, now, civil_of(second_of(now)))
}

/// Tells whether an automation is due at an instant with these civil fields.
pub fn is_due_at(timing: &Timing, now: Instant, at: Civil) -> (r: bool)
    requires
        on_calendar(now),
        readable(*timing),
    ensures
        r == due_at(*timing, now, at),
{
    if !timing.enabled {
        return false;
    }
    match (timing.trigger, &timing.schedule) {
        (Some(Trigger::Interval), Some(schedule)) => match parse_interval_schedule(
            schedule.as_str(),
        ) {
            Ok(seconds) => {
                let last: i128 = timing.last_triggered_at.unwrap_or(timing.created_at);
                assert(on_calendar(last));
                let passed: i128 = now - last;
                passed >= seconds as i128 * 1_000_000_000
            },
            Err(_) => false,
        },
        (Some(Trigger::Cron), Some(schedule)) => cron_matches_civil(schedule.as_str(), at) && (
        match timing.last_triggered_at {
            Some(last) => minute_key(last) != minute_key(now),
            None => true,
        }),
        _ => false,
    }
}

/// Tells whether an automation is due.
pub fn scheduled_automation_due(timing: &Timing, now: Instant) -> (r: bool)
    requires
        on_calendar(now),
        readable(*timing),
    ensures
        r == due(*timing, now),
{
    let at = civil(timestamp(now));
    assert(at == civil_of(second_of(now)));
    is_due_at(timing, now, at)
}

// ---------------------------------------------------------------------------
// Running by itself
// ---------------------------------------------------------------------------

/// An automation that runs by itself, as it is stored.
#[derive(Debug)]
pub struct ScheduledAutomation {
    pub id: Id,
    pub agent_id: Id,
    pub owner_id: Id,
    pub prompt: String,
    pub timing: Timing,
}

/// A run that an automation starts by itself.
#[derive(Debug)]
pub struct ScheduledRun {
    pub agent_id: Id,
    pub owner_id: Id,
    pub message: String,
    pub source: String,
    pub automation_id: Id,
}

/// What a `ScheduledRun` holds.
pub struct ScheduledRunView {
    pub agent_id: Id,
    pub owner_id: Id,
    pub message: Seq<char>,
    pub source: Seq<char>,
    pub automation_id: Id,
}

impl View for ScheduledRun {
    type V = ScheduledRunView;

    open spec fn view(&self) -> ScheduledRunView {
        ScheduledRunView {
            agent_id: self.agent_id,
            owner_id: self.owner_id,
            message: self.message@,
            source: self.source@,
            automation_id: self.automation_id,
        }
    }
}

/// The run that an automation starts when it is due: with its prompt, and
/// recorded as its own.
pub open spec fn scheduled_run(locked: Option<ScheduledAutomation>, now: Instant) -> Option<
    ScheduledRunView,
> {
    match locked {
        Some(automation) => if due(automation.timing, now) {
            Some(
                ScheduledRunView {
                    agent_id: automation.agent_id,
                    owner_id: automation.owner_id,
                    message: automation.prompt@,
                    source: "automation:scheduler"@,
                    automation_id: automation.id,
                },
            )
        } else {
            None
        },
        None => None,
    }
}

/// The automation as it is stored afterwards: one that ran has run now.
pub open spec fn stored_after(locked: Option<ScheduledAutomation>, now: Instant) -> Option<
    ScheduledAutomation,
> {
    match locked {
        Some(automation) => if due(automation.timing, now) {
            Some(
                ScheduledAutomation {
                    timing: Timing { last_triggered_at: Some(now), ..automation.timing },
                    ..automation
                },
            )
        } else {
            locked
        },
        None => None,
    }
}

/// Runs an automation that could be locked, if it is due: the run to start,
/// and the automation as it is stored afterwards.
pub fn trigger_scheduled_automation_if_due(
    locked: Option<ScheduledAutomation>,
    now: Instant,
) -> (r: (Option<ScheduledRun>, Option<ScheduledAutomation>))
    requires
        on_calendar(now),
        locked is Some ==> readable(locked->0.timing),
    ensures
        match r.0 {
            Some(run) => scheduled_run(locked, now) == Some(run@),
            None => scheduled_run(locked, now) is None,
        },
        r.1 == stored_after(locked, now),
{
    match locked {
        Some(automation) => {
            if !scheduled_automation_due(&automation.timing, now) {
                return (None, Some(automation));
            }
            let run = ScheduledRun {
                agent_id: automation.agent_id,
                owner_id: automation.owner_id,
                message: automation.prompt.clone(),
                source: "automation:scheduler".to_owned(),
                automation_id: automation.id,
            };
            let timing = Timing { last_triggered_at: Some(now), ..automation.timing };
            (Some(run), Some(ScheduledAutomation { timing, ..automation }))
        },
        None => (None, None),
    }
}

// ---------------------------------------------------------------------------
// Laws
// ---------------------------------------------------------------------------

/// A schedule that admits some point in time is one that is accepted.
pub proof fn what_matches_is_valid(schedule: Seq<char>, at: Civil)
    requires
        cron_admits(schedule, at),
    ensures
        cron_validity(schedule) == Ok::<(), ErrorView>(()),
{
    reveal_with_fuel(fields_error, 7);
}

/// Every field of an accepted schedule admits some value of its range, and a
/// number admits just one.
pub proof fn valid_fields_admit_a_value(schedule: Seq<char>, index: int)
    requires
        cron_validity(schedule) is Ok,
        0 <= index < 5,
    ensures
        exists|value: u32|
            field_in_range(index, value as nat) && #[trigger] field_admits(
                words(schedule)[index],
                value,
                index,
            ),
        words(schedule)[index] != "*"@ ==> forall|a: u32, b: u32|
            field_admits(words(schedule)[index], a, index) && field_admits(
                words(schedule)[index],
                b,
                index,
            ) ==> a == b,
{
    reveal_with_fuel(fields_error, 7);
    let field = words(schedule)[index];
    assert(field_error(field, index) is None);
    if field == "*"@ {
        assert(field_admits(field, 1u32, index));
        assert(field_in_range(index, 1u32 as nat));
    } else {
        let number = unsigned_value(field)->0;
        let value: u32 = if index == 4 && number == 7 {
            0
        } else {
            number as u32
        };
        assert(field_admits(field, value, index));
        assert(field_in_range(index, value as nat));
    }
}

/// A cron automation that has just run is not due again in the same minute.
pub proof fn cron_runs_once_a_minute(timing: Timing, ran: Instant, now: Instant)
    requires
        timing.trigger == Some(Trigger::Cron),
        timing.last_triggered_at == Some(ran),
        minute_of(ran) == minute_of(now),
    ensures
        !due(timing, now),
{
}

/// An interval automation that ran at `ran` stays quiet until its interval has
/// passed, and is due from then on until it runs again.
pub proof fn intervals_are_kept(timing: Timing, ran: Instant, now: Instant)
    requires
        timing.enabled,
        timing.trigger == Some(Trigger::Interval),
        timing.schedule is Some,
        interval_seconds(timing.schedule->0@) is Ok,
        timing.last_triggered_at == Some(ran),
    ensures
        due(timing, now) <==> now >= ran + interval_seconds(timing.schedule->0@)->Ok_0
            * 1_000_000_000,
        interval_seconds(timing.schedule->0@)->Ok_0 >= 1,
{
    let t = trimmed(timing.schedule->0@);
    let amount = signed_value(t.drop_last())->0;
    let unit = unit_seconds(t.last())->0;
    assert(amount * unit >= 1) by (nonlinear_arith)
        requires
            amount >= 1,
            unit >= 1,
    ;
}

/// A disabled automation is never due, nor is one without a timed trigger.
pub proof fn only_enabled_timed_automations_are_due(timing: Timing, now: Instant)
    requires
        due(timing, now),
    ensures
        timing.enabled,
        timing.schedule is Some,
        timing.trigger == Some(Trigger::Interval) || timing.trigger == Some(Trigger::Cron),
{
}

/// An automation that is due starts one run: asked again at the same instant,
/// as it was stored by the first, it starts none.
pub proof fn scheduled_automations_run_once(locked: Option<ScheduledAutomation>, now: Instant)
    ensures
        scheduled_run(stored_after(locked, now), now) is None,
        stored_after(stored_after(locked, now), now) == stored_after(locked, now),
        scheduled_run(locked, now) is Some ==> {
            &&& locked is Some && locked->0.timing.enabled
            &&& scheduled_run(locked, now)->0.automation_id == locked->0.id
            &&& scheduled_run(locked, now)->0.message == locked->0.prompt@
            &&& stored_after(locked, now)->0.timing.last_triggered_at == Some(now)
        },
{
    if scheduled_run(locked, now) is Some {
        let timing = stored_after(locked, now)->0.timing;
        if timing.trigger == Some(Trigger::Interval) {
            intervals_are_kept(timing, now, now);
        } else {
            cron_runs_once_a_minute(timing, now, now);
        }
    }
}

/// The part of a civil time that a field of a cron schedule is about.
pub open spec fn component(at: Civil, index: int) -> int {
    if index == 0 {
        at.minute as int
    } else if index == 1 {
        at.hour as int
    } else if index == 2 {
        at.day as int
    } else if index == 3 {
        at.month as int
    } else {
        at.weekday as int
    }
}

/// The number that a field names for its component: Sunday is seven or zero.
pub open spec fn named_component(field: Seq<char>, index: int) -> int {
    match unsigned_value(field) {
        Some(n) => if index == 4 && n == 7 {
            0
        } else {
            n as int
        },
        None => -1,
    }
}

/// A schedule admits a time only where each of its five fields that is a
/// number is that component of the time, so that two times which it admits
/// agree in every component that it names.
pub proof fn numbers_fix_their_component(schedule: Seq<char>, at: Civil, other: Civil, index: int)
    requires
        cron_admits(schedule, at),
        0 <= index < 5,
    ensures
        words(schedule).len() == 5,
        words(schedule)[index] != "*"@ ==> component(at, index) == named_component(
            words(schedule)[index],
            index,
        ),
        words(schedule)[index] != "*"@ && cron_admits(schedule, other) ==> component(at, index)
            == component(other, index),
{
}

/// A schedule admits every time that agrees with it: where each field is a
/// star, or a number of its range that is that component of the time.
pub proof fn agreeing_times_are_admitted(schedule: Seq<char>, at: Civil)
    requires
        words(schedule).len() == 5,
        forall|i: int|
            0 <= i < 5 ==> #[trigger] words(schedule)[i] == "*"@ || (unsigned_value(
                words(schedule)[i],
            ) is Some && component(at, i) == named_component(words(schedule)[i], i)),
        at.minute <= 59,
        at.hour <= 23,
        1 <= at.day <= 31,
        1 <= at.month <= 12,
        at.weekday <= 6,
    ensures
        cron_admits(schedule, at),
{
    assert(words(schedule)[0] == "*"@ || unsigned_value(words(schedule)[0]) is Some);
    assert(words(schedule)[1] == "*"@ || unsigned_value(words(schedule)[1]) is Some);
    assert(words(schedule)[2] == "*"@ || unsigned_value(words(schedule)[2]) is Some);
    assert(words(schedule)[3] == "*"@ || unsigned_value(words(schedule)[3]) is Some);
    assert(words(schedule)[4] == "*"@ || unsigned_value(words(schedule)[4]) is Some);
}

/// A schedule that admits a time at some star still admits it at any other
/// value of that component: the other fields alone decide.
pub proof fn stars_leave_their_component_free(schedule: Seq<char>, at: Civil, minute: u32)
    requires
        cron_admits(schedule, at),
        words(schedule)[0] == "*"@,
    ensures
        cron_admits(schedule, Civil { minute, ..at }),
{
}

/// The accepted cron schedules are those that admit some time of the calendar.
pub proof fn accepted_schedules_admit_a_time(schedule: Seq<char>)
    ensures
        cron_validity(schedule) is Ok <==> exists|at: Civil|
            #[trigger] cron_admits(schedule, at) && at.minute <= 59 && at.hour <= 23 && 1 <= at.day
                <= 31 && 1 <= at.month <= 12 && at.weekday <= 6,
        cron_validity(schedule) is Err ==> cron_validity(schedule)->Err_0.status
            == Status::BadRequest,
{
    if cron_validity(schedule) is Ok {
        reveal_with_fuel(fields_error, 7);
        let f = words(schedule);
        let pick = |i: int, low: int|
            if f[i] == "*"@ {
                low
            } else {
                named_component(f[i], i)
            };
        let at = Civil {
            minute: pick(0, 0) as u32,
            hour: pick(1, 0) as u32,
            day: pick(2, 1) as u32,
            month: pick(3, 1) as u32,
            weekday: pick(4, 0) as u32,
        };
        assert(cron_admits(schedule, at));
    }
    if exists|at: Civil| cron_admits(schedule, at) {
        let at = choose|at: Civil| cron_admits(schedule, at);
        what_matches_is_valid(schedule, at);
    }
}

/// Hours are sixty minutes, and minutes sixty seconds: one amount stands for
/// so many seconds in each unit, as long as a duration can hold them, and no
/// other unit is read.
pub proof fn units_are_multiples(
    amount: Seq<char>,
    unit: char,
    seconds: Seq<char>,
    minutes: Seq<char>,
    hours: Seq<char>,
    other: Seq<char>,
)
    requires
        trimmed(seconds) == amount.push('s'),
        trimmed(minutes) == amount.push('m'),
        trimmed(hours) == amount.push('h'),
        trimmed(other) == amount.push(unit),
        byte_count(trimmed(seconds)) >= 2,
        byte_count(trimmed(minutes)) >= 2,
        byte_count(trimmed(hours)) >= 2,
    ensures
        interval_seconds(seconds) is Ok ==> signed_value(amount) == Some(
            interval_seconds(seconds)->Ok_0 as int,
        ) && interval_seconds(seconds)->Ok_0 >= 1,
        signed_value(amount) is Some && 1 <= signed_value(amount)->0 <= 9_223_372_036_854_775
            ==> interval_seconds(seconds) is Ok,
        interval_seconds(minutes) is Ok ==> interval_seconds(seconds) is Ok && interval_seconds(
            minutes,
        )->Ok_0 == 60 * interval_seconds(seconds)->Ok_0,
        interval_seconds(hours) is Ok ==> interval_seconds(minutes) is Ok && interval_seconds(
            hours,
        )->Ok_0 == 60 * interval_seconds(minutes)->Ok_0,
        signed_value(amount) is Some && 1 <= signed_value(amount)->0 && 3600 * signed_value(
            amount,
        )->0 <= 9_223_372_036_854_775 ==> interval_seconds(hours) is Ok,
        unit != 's' && unit != 'm' && unit != 'h' ==> interval_seconds(other) is Err,
{
    assert(amount.push('s').drop_last() =~= amount);
    assert(amount.push('m').drop_last() =~= amount);
    assert(amount.push('h').drop_last() =~= amount);
    assert(amount.push(unit).drop_last() =~= amount);
    let n = signed_value(amount)->0;
    let (s, m, h) = (unit_seconds('s')->0, unit_seconds('m')->0, unit_seconds('h')->0);
    assert(n * s == n && n * m == 60 * n && n * h == 3600 * n) by (nonlinear_arith)
        requires
            s == 1,
            m == 60,
            h == 3600,
    ;
}

/// An automation that has never run counts its interval from its creation, as
/// if it had run then.
pub proof fn intervals_start_at_creation(timing: Timing, created: Instant, ran: Instant, now: Instant)
    requires
        timing.trigger == Some(Trigger::Interval),
        timing.last_triggered_at is None,
    ensures
        due(timing, now) == due(
            Timing { last_triggered_at: Some(timing.created_at), created_at: created, ..timing },
            now,
        ),
        due(
            Timing { last_triggered_at: Some(ran), ..timing },
            now,
        ) == due(Timing { last_triggered_at: Some(ran), created_at: created, ..timing }, now),
{
}

/// A cron automation is due in a minute that its schedule admits and in which
/// it has not run yet, and at no other time.
pub proof fn cron_automations_are_due_when_admitted(timing: Timing, now: Instant, at: Civil)
    requires
        timing.enabled,
        timing.trigger == Some(Trigger::Cron),
        timing.schedule is Some,
    ensures
        due_at(timing, now, at) ==> cron_admits(timing.schedule->0@, at),
        cron_admits(timing.schedule->0@, at) && timing.last_triggered_at is None ==> due_at(
            timing,
            now,
            at,
        ),
        cron_admits(timing.schedule->0@, at) && timing.last_triggered_at is Some && (
        second_of(timing.last_triggered_at->0) + 60 <= second_of(now)) && second_of(
            timing.last_triggered_at->0,
        ) >= 0 ==> due_at(timing, now, at),
        timing.last_triggered_at is Some && second_of(now) >= 0 && second_of(now) / 60
            == second_of(timing.last_triggered_at->0) / 60 ==> !due_at(timing, now, at),
        due(timing, now) == due_at(timing, now, civil_of(second_of(now))),
{
}

/// A run that an automation starts by itself is started exactly when it is
/// due, for its agent and its owner; an automation that does not run is stored
/// as it was, and one that runs changes in nothing but when it last ran.
pub proof fn due_automations_run_for_their_owner(automation: ScheduledAutomation, now: Instant)
    ensures
        scheduled_run(Some(automation), now) is Some <==> due(automation.timing, now),
        scheduled_run(Some(automation), now) matches Some(run) ==> run.agent_id
            == automation.agent_id && run.owner_id == automation.owner_id && run.source
            == "automation:scheduler"@,
        scheduled_run(None, now) is None,
        stored_after(None, now) is None,
        !due(automation.timing, now) ==> stored_after(Some(automation), now) == Some(automation),
        ({
            let after = stored_after(Some(automation), now)->0;
            &&& stored_after(Some(automation), now) is Some
            &&& after.id == automation.id && after.prompt == automation.prompt
            &&& after.agent_id == automation.agent_id && after.owner_id == automation.owner_id
            &&& after.timing.enabled == automation.timing.enabled
            &&& after.timing.schedule == automation.timing.schedule
            &&& after.timing.trigger == automation.timing.trigger
            &&& after.timing.created_at == automation.timing.created_at
        }),
{
}

/// Only automations with a timed trigger take a schedule, and they need one
/// that can be read; what surrounds the name of a trigger does not matter.
pub proof fn schedules_fit_their_trigger(
    trigger: Trigger,
    schedule: Option<Seq<char>>,
    name: Seq<char>,
)
    ensures
        trigger == Trigger::Manual || trigger == Trigger::Webhook ==> (schedule_validity(
            trigger,
            schedule,
        ) is Ok <==> schedule is None || blank(schedule->0)),
        trigger == Trigger::Cron ==> (schedule_validity(trigger, schedule) is Ok <==> schedule
            is Some && !blank(schedule->0) && cron_validity(schedule->0) is Ok),
        trigger == Trigger::Interval ==> (schedule_validity(trigger, schedule) is Ok <==> schedule
            is Some && !blank(schedule->0) && interval_seconds(schedule->0) is Ok),
        normalized_trigger(name) is Ok ==> {
            let text = trimmed(name);
            match normalized_trigger(name)->Ok_0 {
                Trigger::Manual => text == "manual"@,
                Trigger::Webhook => text == "webhook"@,
                Trigger::Interval => text == "interval"@,
                Trigger::Cron => text == "cron"@,
            }
        },
        normalized_trigger(name) is Err ==> trigger_named(trimmed(name)) is None,
{
}

/// A trigger or a schedule that cannot be read is the request's own fault.
pub proof fn unreadable_schedules_are_refused(
    name: Seq<char>,
    schedule: Seq<char>,
    given: Option<Seq<char>>,
    trigger: Trigger,
)
    ensures
        normalized_trigger(name) matches Err(e) ==> e.status == Status::BadRequest,
        interval_seconds(schedule) matches Err(e) ==> e.status == Status::BadRequest,
        cron_validity(schedule) matches Err(e) ==> e.status == Status::BadRequest,
        schedule_validity(trigger, given) matches Err(e) ==> e.status == Status::BadRequest,
{
}

/// A minute is sixty seconds, on either side of the epoch; the seconds around
/// it are in its minute.
pub proof fn minutes_are_sixty_seconds(t: Instant, later: Instant)
    requires
        later == t + 60_000_000_000,
    ensures
        second_of(t) >= 0 || second_of(t) <= -60 ==> minute_of(later) == minute_of(t) + 1,
        -60 < second_of(t) < 60 ==> minute_of(t) == 0,
{
    assert(second_of(later) == second_of(t) + 60);
}

} // verus!
