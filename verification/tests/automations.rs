use agent_hub::automation::{
    authorize_run, check_trigger_source, new_webhook_token, plan_webhook_token, trigger_message,
    validate_automation_request, webhook_token_hash, AutomationRequest, LockedAutomation, RunSource,
    TokenPlan,
};
use agent_hub::clock::{Civil, NANOS};
use agent_hub::digest::sha256_hex;
use agent_hub::error::Status;
use agent_hub::pagination::AutomationRunListQuery;
use agent_hub::schedule::{
    checked_interval_duration, cron_field_matches, cron_matches_civil, cron_schedule_matches,
    interval_unit_is_cuttable, is_due_at, minute_key, normalize_automation_trigger,
    parse_interval_schedule, scheduled_automation_due, stored_trigger, trigger_name,
    trigger_scheduled_automation_if_due, validate_automation_schedule, validate_cron_schedule,
    ScheduledAutomation, Timing, Trigger,
};

fn instant(seconds: i64) -> i128 {
    seconds as i128 * NANOS
}

fn timing(trigger: Trigger, schedule: &str, last: Option<i64>, created: i64) -> Timing {
    Timing {
        enabled: true,
        trigger: Some(trigger),
        schedule: Some(schedule.to_string()),
        last_triggered_at: last.map(instant),
        created_at: instant(created),
    }
}

fn request(trigger: &str, schedule: Option<&str>) -> AutomationRequest {
    AutomationRequest {
        name: " Updated automation ".to_string(),
        trigger_type: trigger.to_string(),
        prompt: " Updated prompt ".to_string(),
        schedule: schedule.map(str::to_string),
        enabled: false,
    }
}

#[test]
fn automation_run_pagination_is_one_based_and_bounded() {
    assert_eq!(AutomationRunListQuery::default().validated().unwrap(), (1, 20, 0));
    assert_eq!(
        AutomationRunListQuery { page: Some(3), page_size: Some(100) }.validated().unwrap(),
        (3, 100, 200)
    );
    for query in [
        AutomationRunListQuery { page: Some(0), page_size: None },
        AutomationRunListQuery { page: None, page_size: Some(0) },
        AutomationRunListQuery { page: None, page_size: Some(101) },
        AutomationRunListQuery { page: Some(i64::MAX), page_size: Some(100) },
    ] {
        assert_eq!(query.validated().unwrap_err().status, Status::BadRequest);
    }
}

#[test]
fn consecutive_pages_meet() {
    let page = |page: i64| {
        AutomationRunListQuery { page: Some(page), page_size: Some(7) }.validated().unwrap().2
    };
    assert_eq!(page(1), 0);
    for p in 1..20 {
        assert_eq!(page(p) + 7, page(p + 1));
    }
}

#[test]
fn triggers_are_read_by_name() {
    for trigger in [Trigger::Manual, Trigger::Webhook, Trigger::Interval, Trigger::Cron] {
        assert_eq!(stored_trigger(trigger_name(trigger)), Some(trigger));
        let padded = format!(" {} ", trigger_name(trigger));
        assert_eq!(normalize_automation_trigger(&padded).unwrap(), trigger);
    }
    assert_eq!(stored_trigger(" manual"), None);
    assert_eq!(
        normalize_automation_trigger("unknown").unwrap_err().message,
        "unsupported automation trigger type"
    );
}

#[test]
fn intervals_are_parsed_with_their_unit() {
    assert_eq!(parse_interval_schedule(" 5m ").unwrap(), 300);
    assert_eq!(parse_interval_schedule("90s").unwrap(), 90);
    assert_eq!(parse_interval_schedule("2h").unwrap(), 7200);
    assert_eq!(parse_interval_schedule("+1s").unwrap(), 1);
    for (text, message) in [
        ("5", "interval schedule must be like 5m"),
        ("", "interval schedule must be like 5m"),
        ("xm", "interval amount must be a number"),
        ("later", "interval amount must be a number"),
        ("0m", "interval amount must be positive"),
        ("-3m", "interval amount must be positive"),
        ("5d", "interval schedule must use s, m, or h"),
        ("9223372036854775807h", "interval schedule is too large"),
        ("9223372036854776s", "interval schedule is too large"),
    ] {
        let error = parse_interval_schedule(text).unwrap_err();
        assert_eq!(error.message, message);
        assert_eq!(error.status, Status::BadRequest);
    }
    assert_eq!(parse_interval_schedule("9223372036854775s").unwrap(), 9223372036854775);
    assert_eq!(checked_interval_duration(3, 60).unwrap(), 180);
    assert!(interval_unit_is_cuttable("5m"));
    assert!(interval_unit_is_cuttable("x"));
    assert!(!interval_unit_is_cuttable("5é"));
}

#[test]
fn cron_schedules_are_validated_field_by_field() {
    assert!(validate_cron_schedule("* * * * *").is_ok());
    assert!(validate_cron_schedule(" 59 23  31 12 7 ").is_ok());
    for (text, message) in [
        ("* * * *", "cron schedule must have 5 fields"),
        ("60 * * * *", "cron field is out of range"),
        ("* 24 * * *", "cron field is out of range"),
        ("* * 0 * *", "cron field is out of range"),
        ("* * * 13 *", "cron field is out of range"),
        ("* * * * 8", "cron field is out of range"),
        ("*/5 * * * *", "cron fields must be * or a number"),
        ("x 99 * * *", "cron fields must be * or a number"),
        ("99 x * * *", "cron field is out of range"),
    ] {
        assert_eq!(validate_cron_schedule(text).unwrap_err().message, message);
    }
}

#[test]
fn cron_fields_admit_their_values() {
    assert!(cron_field_matches("*", 17, 0));
    assert!(cron_field_matches("17", 17, 0));
    assert!(!cron_field_matches("18", 17, 0));
    assert!(cron_field_matches("7", 0, 4));
    assert!(cron_field_matches("0", 0, 4));
    assert!(!cron_field_matches("7", 7, 4));
    assert!(!cron_field_matches("60", 60, 0));
    let at = Civil { minute: 30, hour: 9, day: 15, month: 5, weekday: 5 };
    assert!(cron_matches_civil("30 9 15 5 5", at));
    assert!(cron_matches_civil("30 9 * * *", at));
    assert!(!cron_matches_civil("31 9 * * *", at));
    assert!(!cron_matches_civil("30 9 * *", at));
}

#[test]
fn cron_schedules_follow_the_calendar() {
    // 2015-05-15 09:30:42 UTC, a Friday.
    let now = instant(1_431_682_242);
    assert!(cron_schedule_matches("30 9 15 5 5", now));
    assert!(!cron_schedule_matches("30 9 16 5 *", now));
    assert!(!cron_schedule_matches("30 9 15 6 *", now));
    assert!(!cron_schedule_matches("30 9 * * 4", now));
    // 1969-12-31 23:59:59.5 UTC, a Wednesday.
    let before_epoch = instant(0) - NANOS / 2;
    assert!(cron_schedule_matches("59 23 31 12 3", before_epoch));
    // 2024-02-29, 2000-02-29, 2100-02-28 and 2100-03-01, at noon UTC.
    for (second, schedule) in [
        (1709208000, "0 12 29 2 4"),
        (951825600, "0 12 29 2 2"),
        (4107499200, "0 12 28 2 0"),
        (4107585600, "0 12 1 3 1"),
    ] {
        assert!(cron_schedule_matches(schedule, instant(second)), "{schedule}");
    }
}

#[test]
fn minutes_are_counted_towards_the_epoch() {
    assert_eq!(minute_key(instant(59)), 0);
    assert_eq!(minute_key(instant(60)), 1);
    assert_eq!(minute_key(instant(-30)), 0);
    assert_eq!(minute_key(instant(-60)), -1);
}

#[test]
fn intervals_fall_due_after_the_last_run() {
    let automation = timing(Trigger::Interval, "5m", Some(1_000), 0);
    assert!(!scheduled_automation_due(&automation, instant(1_299)));
    assert!(scheduled_automation_due(&automation, instant(1_300)));
    let fresh = timing(Trigger::Interval, "5m", None, 2_000);
    assert!(!scheduled_automation_due(&fresh, instant(2_299)));
    assert!(scheduled_automation_due(&fresh, instant(2_300)));
    let broken = timing(Trigger::Interval, "soon", None, 0);
    assert!(!scheduled_automation_due(&broken, instant(1_000_000)));
}

#[test]
fn cron_automations_run_once_a_minute() {
    let now = 1_431_682_242;
    let at = Civil { minute: 30, hour: 9, day: 15, month: 5, weekday: 5 };
    let automation = timing(Trigger::Cron, "* * * * *", Some(now - 1), 0);
    assert!(!scheduled_automation_due(&automation, instant(now)));
    assert!(scheduled_automation_due(&automation, instant(now + 60)));
    assert!(!is_due_at(&automation, instant(now), at));
    let never = timing(Trigger::Cron, "30 9 * * *", None, 0);
    assert!(is_due_at(&never, instant(now), at));
}

#[test]
fn only_enabled_timed_automations_fall_due() {
    let mut automation = timing(Trigger::Interval, "1s", None, 0);
    automation.enabled = false;
    assert!(!scheduled_automation_due(&automation, instant(100)));
    assert!(!scheduled_automation_due(&timing(Trigger::Manual, "1s", None, 0), instant(100)));
    let mut unscheduled = timing(Trigger::Interval, "1s", None, 0);
    unscheduled.schedule = None;
    assert!(!scheduled_automation_due(&unscheduled, instant(100)));
}

#[test]
fn schedules_belong_to_timed_triggers() {
    let schedule = |text: &str| Some(text.to_string());
    assert!(validate_automation_schedule(Trigger::Manual, &None).is_ok());
    assert!(validate_automation_schedule(Trigger::Webhook, &schedule("  ")).is_ok());
    assert_eq!(
        validate_automation_schedule(Trigger::Manual, &schedule("5m")).unwrap_err().message,
        "schedule is only valid for cron or interval automation"
    );
    for trigger in [Trigger::Interval, Trigger::Cron] {
        assert_eq!(
            validate_automation_schedule(trigger, &schedule(" ")).unwrap_err().message,
            "schedule is required for cron or interval automation"
        );
        assert!(validate_automation_schedule(trigger, &None).is_err());
    }
    assert!(validate_automation_schedule(Trigger::Interval, &schedule("5m")).is_ok());
    assert!(validate_automation_schedule(Trigger::Cron, &schedule("5m")).is_err());
}

#[test]
fn automation_requests_are_trimmed_and_checked() {
    let stored = validate_automation_request(&request("manual", None)).unwrap();
    assert_eq!(stored.name, "Updated automation");
    assert_eq!(stored.prompt, "Updated prompt");
    assert_eq!(stored.trigger, Trigger::Manual);
    assert_eq!(stored.schedule, None);
    assert!(!stored.enabled);
    let interval = validate_automation_request(&request("interval", Some(" 5m "))).unwrap();
    assert_eq!(interval.schedule, Some("5m".to_string()));
    let mut unnamed = request("manual", None);
    unnamed.name = " ".to_string();
    assert_eq!(
        validate_automation_request(&unnamed).unwrap_err().message,
        "automation name is required"
    );
    let mut silent = request("manual", None);
    silent.prompt = " ".to_string();
    assert_eq!(
        validate_automation_request(&silent).unwrap_err().message,
        "automation prompt is required"
    );
    assert!(validate_automation_request(&request("unknown", None)).is_err());
    assert!(validate_automation_request(&request("interval", Some("later"))).is_err());
    assert!(validate_automation_request(&request("cron", None)).is_err());
}

#[test]
fn webhook_tokens_follow_the_trigger() {
    assert_eq!(plan_webhook_token(None, Trigger::Webhook), TokenPlan::Issue);
    assert_eq!(plan_webhook_token(None, Trigger::Cron), TokenPlan::Clear);
    assert_eq!(plan_webhook_token(Some(Trigger::Webhook), Trigger::Webhook), TokenPlan::Keep);
    assert_eq!(plan_webhook_token(Some(Trigger::Manual), Trigger::Webhook), TokenPlan::Issue);
    assert_eq!(plan_webhook_token(Some(Trigger::Webhook), Trigger::Manual), TokenPlan::Clear);
    let current = Some("old".to_string());
    assert_eq!(webhook_token_hash(TokenPlan::Keep, &current, "new"), current);
    assert_eq!(webhook_token_hash(TokenPlan::Clear, &current, "new"), None);
    assert_eq!(webhook_token_hash(TokenPlan::Issue, &current, "new"), Some(sha256_hex("new")));
    let token = new_webhook_token();
    assert!(token.starts_with("ahw_"));
    assert_eq!(token.len(), 68);
}

#[test]
fn sources_fit_their_triggers() {
    assert!(check_trigger_source(RunSource::Manual, Some(Trigger::Manual)).is_ok());
    assert!(check_trigger_source(RunSource::Webhook, Some(Trigger::Webhook)).is_ok());
    assert!(check_trigger_source(RunSource::Scheduler, Some(Trigger::Cron)).is_ok());
    assert!(check_trigger_source(RunSource::Scheduler, Some(Trigger::Interval)).is_ok());
    for (source, message) in [
        (RunSource::Manual, "only manual automation can be triggered here"),
        (RunSource::Webhook, "only webhook automation can be triggered here"),
        (RunSource::Scheduler, "only scheduled automation can be triggered here"),
    ] {
        let error = check_trigger_source(source, None).unwrap_err();
        assert_eq!(error.message, message);
        assert_eq!(error.status, Status::Forbidden);
    }
    assert!(check_trigger_source(RunSource::Manual, Some(Trigger::Cron)).is_err());
}

#[test]
fn runs_say_the_message_or_the_prompt() {
    assert_eq!(trigger_message(&Some(" hi ".to_string()), "prompt"), "hi");
    assert_eq!(trigger_message(&Some("  ".to_string()), " prompt "), " prompt ");
    assert_eq!(trigger_message(&None, "prompt"), "prompt");
}

#[test]
fn webhook_runs_need_the_current_token() {
    let locked = |enabled: bool, trigger: Trigger, hash: Option<&str>| {
        Some(LockedAutomation {
            enabled,
            trigger: Some(trigger),
            webhook_token_hash: hash.map(str::to_string),
        })
    };
    let token = Some("h".to_string());
    assert!(authorize_run(true, &locked(true, Trigger::Webhook, Some("h")), Trigger::Webhook, &token)
        .is_ok());
    for stored in [
        locked(false, Trigger::Webhook, Some("h")),
        locked(true, Trigger::Webhook, Some("other")),
        locked(true, Trigger::Webhook, None),
        locked(true, Trigger::Manual, Some("h")),
    ] {
        let error = authorize_run(true, &stored, Trigger::Webhook, &token).unwrap_err();
        assert_eq!(error.status, Status::Unauthorized);
        assert_eq!(error.message, "invalid automation webhook token");
    }
    let disabled =
        authorize_run(true, &locked(false, Trigger::Manual, None), Trigger::Manual, &None).unwrap_err();
    assert_eq!(disabled.status, Status::Forbidden);
    assert_eq!(disabled.message, "automation is disabled or agent is deleted");
    assert!(authorize_run(true, &locked(true, Trigger::Manual, None), Trigger::Manual, &None).is_ok());
    assert_eq!(
        authorize_run(false, &locked(true, Trigger::Webhook, Some("h")), Trigger::Webhook, &token)
            .unwrap_err()
            .status,
        Status::Forbidden
    );
    assert!(authorize_run(true, &None, Trigger::Webhook, &token).is_err());
}

#[test]
fn scheduled_automations_run_once() {
    for (trigger, schedule) in [(Trigger::Interval, "5m"), (Trigger::Cron, "* * * * *")] {
        let automation = ScheduledAutomation {
            id: 1,
            agent_id: 2,
            owner_id: 3,
            prompt: "Go.".to_string(),
            timing: timing(trigger, schedule, None, 0),
        };
        let (run, stored) = trigger_scheduled_automation_if_due(Some(automation), instant(600));
        let run = run.unwrap();
        assert_eq!((run.automation_id, run.agent_id, run.owner_id), (1, 2, 3));
        assert_eq!((run.message.as_str(), run.source.as_str()), ("Go.", "automation:scheduler"));
        let timing = &stored.as_ref().unwrap().timing;
        assert_eq!(timing.last_triggered_at, Some(instant(600)));
        let (again, stored) = trigger_scheduled_automation_if_due(stored, instant(600));
        assert!(again.is_none());
        let (next, _) = trigger_scheduled_automation_if_due(stored, instant(900));
        assert!(next.is_some());
    }
    assert!(trigger_scheduled_automation_if_due(None, instant(600)).0.is_none());
}
