use aw_automation::cron::parse_schedule;
use aw_automation::condition::{evaluate, validate_condition, Condition, ConfigError, Literal, Operator};
use aw_automation::context::{EvaluationContext, Field, UsageEntry};
use aw_automation::dispatch::{plan_pass, Command, Dispatcher, PassError};
use aw_automation::selection::select;
use aw_automation::rule::{
    delete_rule, find_rule, mark_triggered, update_rule, validate_rule, Action, AutomationRule,
    LifecycleError, RulePatch,
};
use aw_automation::trigger::{date_of, CronField, CronRange, Schedule, TargetCriteria, Trigger};

const T0: u64 = 1_700_000_000_000;

fn usage(name: &str, seconds: u64) -> UsageEntry {
    UsageEntry { name: name.to_string(), seconds }
}

fn context(now_ms: u64, app_usage: Vec<UsageEntry>) -> EvaluationContext {
    EvaluationContext {
        now_ms,
        active_app: Some("Chrome".to_string()),
        active_category: None,
        focus_mode: Some("deep".to_string()),
        previous_mode: Some("normal".to_string()),
        idle_seconds: Some(30),
        app_usage,
        category_usage: vec![usage("Browsing", 500)],
        last_evaluated_ms: None,
    }
}

fn chrome_threshold(threshold_seconds: u64) -> Trigger {
    Trigger::Threshold {
        threshold_seconds,
        scope: TargetCriteria {
            app_names: Some(vec!["Chrome".to_string()]),
            categories: None,
            tags: None,
        },
    }
}

fn rule(id: &str, priority: i64, created_at: u64, trigger: Trigger) -> AutomationRule {
    AutomationRule {
        id: id.to_string(),
        user_id: "u1".to_string(),
        name: format!("rule {}", id),
        description: None,
        is_active: true,
        priority,
        trigger,
        action: Action::Notify { title: Some("Break".to_string()), message: None },
        cooldown_seconds: Some(60),
        last_triggered_at: None,
        created_at,
        updated_at: created_at,
        version: 1,
    }
}

fn always() -> Trigger {
    Trigger::Composite { conditions: vec![] }
}

/// Runs a pass, answering each `Execute` with `exec` and each write-back with
/// success; returns the executed rule ids in order and the result.
fn run(
    rules: Vec<AutomationRule>,
    ctx: EvaluationContext,
    exec: impl Fn(&str) -> Result<(), String>,
) -> (Vec<String>, Vec<String>, Vec<PassError>, Vec<(usize, u64)>) {
    let mut d = Dispatcher::begin(rules, ctx);
    let mut executed = Vec::new();
    let mut write_backs = Vec::new();
    loop {
        match d.next_command() {
            Command::Execute { rule } => {
                let id = d.rules[rule].id.clone();
                executed.push(id.clone());
                d.on_executed(exec(&id));
            }
            Command::WriteBack { rule, at_ms } => {
                write_backs.push((rule, at_ms));
                d.on_written_back(Ok(()));
            }
            Command::Finish => break,
        }
    }
    let r = d.finish();
    (executed, r.fired_rule_ids, r.errors, write_backs)
}

#[test]
fn scenario_first_pass_fires_once() {
    let mut stored = rule("r1", 10, T0 - 1000, chrome_threshold(1800));
    let ctx = context(T0, vec![usage("Chrome", 1900)]);
    let (executed, fired, errors, write_backs) =
        run(vec![rule("r1", 10, T0 - 1000, chrome_threshold(1800))], ctx, |_| Ok(()));
    assert_eq!(executed, vec!["r1".to_string()]);
    assert_eq!(fired, vec!["r1".to_string()]);
    assert!(errors.is_empty());
    assert_eq!(write_backs, vec![(0, T0)]);
    mark_triggered(&mut stored, write_backs[0].1);
    assert_eq!(stored.last_triggered_at, Some(T0));
    assert_eq!(stored.version, 2);
}

#[test]
fn scenario_second_pass_in_cooldown_does_not_fire() {
    let mut r = rule("r1", 10, T0 - 1000, chrome_threshold(1800));
    mark_triggered(&mut r, T0);
    let ctx = context(T0 + 30_000, vec![usage("Chrome", 1930)]);
    let (executed, fired, errors, _) = run(vec![r], ctx, |_| Ok(()));
    assert!(executed.is_empty());
    assert!(fired.is_empty());
    assert!(errors.is_empty());
}

#[test]
fn scenario_after_cooldown_below_threshold_does_not_fire() {
    let mut r = rule("r1", 10, T0 - 1000, chrome_threshold(1800));
    mark_triggered(&mut r, T0);
    let ctx = context(T0 + 70_000, vec![usage("Chrome", 100)]);
    let (executed, _, _, _) = run(vec![r], ctx, |_| Ok(()));
    assert!(executed.is_empty());
}

#[test]
fn after_cooldown_with_threshold_met_fires_again() {
    let mut r = rule("r1", 10, T0 - 1000, chrome_threshold(1800));
    mark_triggered(&mut r, T0);
    let ctx = context(T0 + 60_000, vec![usage("Chrome", 1900)]);
    let (executed, _, _, _) = run(vec![r], ctx, |_| Ok(()));
    assert_eq!(executed, vec!["r1".to_string()]);
}

#[test]
fn scenario_higher_priority_dispatched_first() {
    let rules = vec![rule("low", 5, T0 - 5000, always()), rule("high", 10, T0 - 1000, always())];
    let (executed, fired, _, _) = run(rules, context(T0, vec![]), |_| Ok(()));
    assert_eq!(executed, vec!["high".to_string(), "low".to_string()]);
    assert_eq!(fired, vec!["high".to_string(), "low".to_string()]);
}

#[test]
fn scenario_executor_error_does_not_stop_pass() {
    let rules = vec![
        rule("R1", 30, T0, always()),
        rule("R2", 20, T0, always()),
        rule("R3", 10, T0, always()),
    ];
    let (executed, fired, errors, write_backs) = run(rules, context(T0, vec![]), |id| {
        if id == "R1" {
            Err("blocked".to_string())
        } else {
            Ok(())
        }
    });
    assert_eq!(executed, vec!["R1".to_string(), "R2".to_string(), "R3".to_string()]);
    assert_eq!(fired, vec!["R2".to_string(), "R3".to_string()]);
    assert_eq!(errors.len(), 1);
    match &errors[0] {
        PassError::Execution { rule_id, reason } => {
            assert_eq!(rule_id, "R1");
            assert_eq!(reason, "blocked");
        }
        PassError::WriteBack { .. } => panic!("expected an execution error"),
    }
    assert_eq!(write_backs, vec![(1, T0), (2, T0)]);
}

#[test]
fn write_back_failure_is_recorded_and_pass_continues() {
    let rules = vec![rule("a", 2, T0, always()), rule("b", 1, T0, always())];
    let mut d = Dispatcher::begin(rules, context(T0, vec![]));
    assert_eq!(d.next_command(), Command::Execute { rule: 0 });
    d.on_executed(Ok(()));
    assert_eq!(d.next_command(), Command::WriteBack { rule: 0, at_ms: T0 });
    d.on_written_back(Err("store down".to_string()));
    assert_eq!(d.next_command(), Command::Execute { rule: 1 });
    d.on_executed(Ok(()));
    d.on_written_back(Ok(()));
    assert_eq!(d.next_command(), Command::Finish);
    let r = d.finish();
    assert_eq!(r.fired_rule_ids, vec!["a".to_string(), "b".to_string()]);
    assert_eq!(r.errors.len(), 1);
    assert!(matches!(&r.errors[0], PassError::WriteBack { rule_id, .. } if rule_id == "a"));
}

#[test]
fn select_drops_inactive_and_cooling_rules() {
    let mut inactive = rule("off", 100, T0, always());
    inactive.is_active = false;
    let mut cooling = rule("cool", 50, T0, always());
    cooling.last_triggered_at = Some(T0 - 59_999);
    let mut cooled = rule("cooled", 40, T0, always());
    cooled.last_triggered_at = Some(T0 - 60_000);
    let mut no_cooldown = rule("free", 30, T0, always());
    no_cooldown.cooldown_seconds = None;
    no_cooldown.last_triggered_at = Some(T0);
    let rules = vec![inactive, cooling, cooled, no_cooldown];
    assert_eq!(select(&rules, T0), vec![2, 3]);
}

#[test]
fn select_orders_by_priority_then_creation() {
    let rules = vec![
        rule("a", 1, 300, always()),
        rule("b", 7, 200, always()),
        rule("c", 7, 100, always()),
        rule("d", 1, 300, always()),
        rule("e", -4, 0, always()),
    ];
    let first = select(&rules, T0);
    assert_eq!(first, vec![2, 1, 0, 3, 4]);
    assert_eq!(select(&rules, T0), first);
}

#[test]
fn select_of_nothing_is_empty() {
    assert!(select(&vec![], T0).is_empty());
}

#[test]
fn plan_keeps_only_matching_rules() {
    let rules = vec![
        rule("big", 1, 0, chrome_threshold(5000)),
        rule("small", 2, 0, chrome_threshold(10)),
    ];
    assert_eq!(plan_pass(&rules, &context(T0, vec![usage("Chrome", 100)])), vec![1]);
}

fn cond(field: Field, operator: Operator, value: Literal) -> Condition {
    Condition { field, operator, value }
}

#[test]
fn evaluate_compares_numbers() {
    let ctx = context(T0, vec![]);
    assert!(evaluate(&cond(Field::IdleSeconds, Operator::Gte, Literal::Number(30)), &ctx));
    assert!(!evaluate(&cond(Field::IdleSeconds, Operator::Gt, Literal::Number(30)), &ctx));
    assert!(evaluate(&cond(Field::IdleSeconds, Operator::Lt, Literal::Number(31)), &ctx));
    assert!(evaluate(&cond(Field::IdleSeconds, Operator::Lte, Literal::Number(30)), &ctx));
    assert!(evaluate(&cond(Field::IdleSeconds, Operator::Eq, Literal::Number(30)), &ctx));
    assert!(evaluate(&cond(Field::NowMs, Operator::Neq, Literal::Number(0)), &ctx));
}

#[test]
fn evaluate_missing_field() {
    let mut ctx = context(T0, vec![]);
    ctx.idle_seconds = None;
    assert!(!evaluate(&cond(Field::IdleSeconds, Operator::Gt, Literal::Number(0)), &ctx));
    assert!(!evaluate(&cond(Field::IdleSeconds, Operator::Lt, Literal::Number(100)), &ctx));
    assert!(!evaluate(&cond(Field::IdleSeconds, Operator::Eq, Literal::Number(0)), &ctx));
    assert!(evaluate(&cond(Field::IdleSeconds, Operator::Neq, Literal::Number(0)), &ctx));
    let missing_text = cond(Field::ActiveCategory, Operator::Eq, Literal::Text("Work".to_string()));
    assert!(!evaluate(&missing_text, &ctx));
}

#[test]
fn evaluate_text_and_lists() {
    let ctx = context(T0, vec![usage("Chrome", 10), usage("Slack", 5)]);
    let chrome = || Literal::Text("Chrome".to_string());
    assert!(evaluate(&cond(Field::ActiveApp, Operator::Eq, chrome()), &ctx));
    assert!(!evaluate(&cond(Field::ActiveApp, Operator::Neq, chrome()), &ctx));
    assert!(evaluate(&cond(Field::UsedApps, Operator::Contains, chrome()), &ctx));
    let zoom = Literal::Text("Zoom".to_string());
    assert!(!evaluate(&cond(Field::UsedApps, Operator::Contains, zoom), &ctx));
    assert!(!evaluate(&cond(Field::ActiveApp, Operator::Contains, chrome()), &ctx));
}

#[test]
fn evaluate_twice_gives_same_answer() {
    let ctx = context(T0, vec![usage("Chrome", 10)]);
    let c = cond(Field::UsedApps, Operator::Contains, Literal::Text("Chrome".to_string()));
    assert_eq!(evaluate(&c, &ctx), evaluate(&c, &ctx));
    let d = cond(Field::IdleSeconds, Operator::Gt, Literal::Number(10));
    assert_eq!(evaluate(&d, &ctx), evaluate(&d, &ctx));
}

#[test]
fn validate_condition_checks_types() {
    assert_eq!(validate_condition(&cond(Field::IdleSeconds, Operator::Gt, Literal::Number(1))), Ok(()));
    assert_eq!(
        validate_condition(&cond(Field::ActiveApp, Operator::Gt, Literal::Text("a".to_string()))),
        Err(ConfigError::UnsupportedCondition)
    );
    assert_eq!(
        validate_condition(&cond(Field::IdleSeconds, Operator::Contains, Literal::Number(1))),
        Err(ConfigError::UnsupportedCondition)
    );
    assert_eq!(
        validate_condition(&cond(Field::UsedApps, Operator::Contains, Literal::Text("a".to_string()))),
        Ok(())
    );
}

#[test]
fn threshold_scopes() {
    let ctx = context(T0, vec![usage("Chrome", 1000), usage("Slack", 900)]);
    let global = Trigger::Threshold {
        threshold_seconds: 1900,
        scope: TargetCriteria { app_names: None, categories: None, tags: None },
    };
    assert!(aw_automation::trigger::matches(&global, &ctx));
    let both = Trigger::Threshold {
        threshold_seconds: 1500,
        scope: TargetCriteria {
            app_names: Some(vec!["Chrome".to_string()]),
            categories: Some(vec!["Browsing".to_string()]),
            tags: None,
        },
    };
    assert!(aw_automation::trigger::matches(&both, &ctx));
    assert!(!aw_automation::trigger::matches(&chrome_threshold(1001), &ctx));
}

#[test]
fn threshold_saturates_without_overflow() {
    let ctx = context(T0, vec![usage("Chrome", u64::MAX), usage("Chrome", u64::MAX)]);
    assert!(aw_automation::trigger::matches(&chrome_threshold(u64::MAX), &ctx));
}

#[test]
fn mode_transition_and_composite() {
    let ctx = context(T0, vec![]);
    let t = Trigger::ModeTransition { from_mode: "normal".to_string(), to_mode: "deep".to_string() };
    assert!(aw_automation::trigger::matches(&t, &ctx));
    let back = Trigger::ModeTransition { from_mode: "deep".to_string(), to_mode: "normal".to_string() };
    assert!(!aw_automation::trigger::matches(&back, &ctx));
    assert!(aw_automation::trigger::matches(&always(), &ctx));
    let failing = Trigger::Composite {
        conditions: vec![
            cond(Field::IdleSeconds, Operator::Eq, Literal::Number(30)),
            cond(Field::FocusMode, Operator::Eq, Literal::Text("off".to_string())),
        ],
    };
    assert!(!aw_automation::trigger::matches(&failing, &ctx));
}

#[test]
fn schedule_fires_once_per_tick() {
    // 1970-01-05 is a Monday; 09:30 UTC.
    let monday_0930: u64 = (4 * 86_400 + 9 * 3600 + 30 * 60) * 1000;
    let s = Trigger::Scheduled { schedule: parse_schedule("*/15 9 * * 1").unwrap() };
    let mut ctx = context(monday_0930 + 5000, vec![]);
    assert!(aw_automation::trigger::matches(&s, &ctx));
    ctx.last_evaluated_ms = Some(monday_0930 + 1000);
    assert!(!aw_automation::trigger::matches(&s, &ctx));
    ctx.last_evaluated_ms = Some(monday_0930 - 60_000);
    assert!(aw_automation::trigger::matches(&s, &ctx));
    ctx.now_ms = monday_0930 + 60_000;
    assert!(!aw_automation::trigger::matches(&s, &ctx));
}

#[test]
fn calendar_dates() {
    assert_eq!(date_of(0), (1, 1));
    // 2024-02-29 12:00 UTC
    assert_eq!(date_of(1_709_208_000_000), (2, 29));
    // 2023-12-31 23:59 UTC
    assert_eq!(date_of(1_704_067_140_000), (12, 31));
    // 2000-03-01 00:00 UTC
    assert_eq!(date_of(951_868_800_000), (3, 1));
}

#[test]
fn schedule_on_day_of_month_and_month() {
    // 2024-02-29 12:00 UTC, a Thursday.
    let leap_day_noon: u64 = 1_709_208_000_000;
    let ctx = context(leap_day_noon, vec![]);
    let hit = Trigger::Scheduled { schedule: parse_schedule("0 12 29 2 *").unwrap() };
    assert!(aw_automation::trigger::matches(&hit, &ctx));
    let miss = Trigger::Scheduled { schedule: parse_schedule("0 12 28 2 *").unwrap() };
    assert!(!aw_automation::trigger::matches(&miss, &ctx));
    // Both day fields restricted: either one is enough (Thursday is 4).
    let either = Trigger::Scheduled { schedule: parse_schedule("0 12 1 * 4").unwrap() };
    assert!(aw_automation::trigger::matches(&either, &ctx));
    let neither = Trigger::Scheduled { schedule: parse_schedule("0 12 1 * 5").unwrap() };
    assert!(!aw_automation::trigger::matches(&neither, &ctx));
    let list = Trigger::Scheduled { schedule: parse_schedule("0,30 10-14/2 * 1-3 *").unwrap() };
    assert!(aw_automation::trigger::matches(&list, &ctx));
}

fn cron_field(start: u8, end: u8, step: u8) -> CronField {
    CronField { ranges: vec![CronRange { start, end, step }] }
}

fn schedule_with_minute(minute: CronField) -> Schedule {
    Schedule {
        minute,
        hour: cron_field(0, 23, 1),
        day_of_month: cron_field(1, 31, 1),
        month: cron_field(1, 12, 1),
        day_of_week: cron_field(0, 6, 1),
    }
}

#[test]
fn validate_rule_rejects_bad_schedule_and_conditions() {
    let bad = rule("s", 1, 0, Trigger::Scheduled { schedule: schedule_with_minute(cron_field(60, 60, 1)) });
    assert_eq!(validate_rule(&bad), Err(ConfigError::InvalidSchedule));
    let zero_step = rule("z", 1, 0, Trigger::Scheduled { schedule: schedule_with_minute(cron_field(0, 59, 0)) });
    assert_eq!(validate_rule(&zero_step), Err(ConfigError::InvalidSchedule));
    let empty = rule("e", 1, 0, Trigger::Scheduled { schedule: schedule_with_minute(CronField { ranges: vec![] }) });
    assert_eq!(validate_rule(&empty), Err(ConfigError::InvalidSchedule));
    let good = rule("g", 1, 0, Trigger::Scheduled { schedule: schedule_with_minute(cron_field(5, 50, 5)) });
    assert_eq!(validate_rule(&good), Ok(()));
    let cond_rule = rule(
        "c",
        1,
        0,
        Trigger::Composite { conditions: vec![cond(Field::NowMs, Operator::Contains, Literal::Number(1))] },
    );
    assert_eq!(validate_rule(&cond_rule), Err(ConfigError::UnsupportedCondition));
    assert_eq!(validate_rule(&rule("ok", 1, 0, chrome_threshold(1))), Ok(()));
}

fn empty_patch() -> RulePatch {
    RulePatch {
        name: None,
        description: None,
        is_active: None,
        priority: None,
        trigger: None,
        action: None,
        cooldown_seconds: None,
    }
}

#[test]
fn update_bumps_version_and_checks_staleness() {
    let mut r = rule("r", 1, 0, always());
    let mut p = empty_patch();
    p.is_active = Some(false);
    p.priority = Some(9);
    assert_eq!(update_rule(&mut r, p, 500, Some(1)), Ok(()));
    assert!(!r.is_active);
    assert_eq!(r.priority, 9);
    assert_eq!(r.version, 2);
    assert_eq!(r.updated_at, 500);
    assert_eq!(update_rule(&mut r, empty_patch(), 600, Some(1)), Err(LifecycleError::StaleVersion));
    assert_eq!(r.version, 2);
    assert_eq!(r.updated_at, 500);
    let mut bad = empty_patch();
    let mut late = schedule_with_minute(cron_field(0, 59, 1));
    late.hour = cron_field(24, 24, 1);
    bad.trigger = Some(Trigger::Scheduled { schedule: late });
    assert_eq!(
        update_rule(&mut r, bad, 700, None),
        Err(LifecycleError::Config(ConfigError::InvalidSchedule))
    );
    assert_eq!(update_rule(&mut r, empty_patch(), 800, None), Ok(()));
    assert_eq!(r.version, 3);
}

#[test]
fn parse_schedule_reads_fields() {
    let s = parse_schedule("*/15 9 * * 1").unwrap();
    assert_eq!(s.minute.ranges, vec![CronRange { start: 0, end: 59, step: 15 }]);
    assert_eq!(s.hour.ranges, vec![CronRange { start: 9, end: 9, step: 1 }]);
    assert_eq!(s.day_of_month.ranges, vec![CronRange { start: 1, end: 31, step: 1 }]);
    assert_eq!(s.month.ranges, vec![CronRange { start: 1, end: 12, step: 1 }]);
    assert_eq!(s.day_of_week.ranges, vec![CronRange { start: 1, end: 1, step: 1 }]);
    let t = parse_schedule("0,30 8-18/2 1,15 1-6 *").unwrap();
    assert_eq!(
        t.minute.ranges,
        vec![CronRange { start: 0, end: 0, step: 1 }, CronRange { start: 30, end: 30, step: 1 }]
    );
    assert_eq!(t.hour.ranges, vec![CronRange { start: 8, end: 18, step: 2 }]);
    assert_eq!(
        t.day_of_month.ranges,
        vec![CronRange { start: 1, end: 1, step: 1 }, CronRange { start: 15, end: 15, step: 1 }]
    );
    assert_eq!(t.month.ranges, vec![CronRange { start: 1, end: 6, step: 1 }]);
    let u = parse_schedule("059 23 31 12 6").unwrap();
    assert_eq!(u.minute.ranges, vec![CronRange { start: 59, end: 59, step: 1 }]);
    assert_eq!(u.day_of_month.ranges, vec![CronRange { start: 31, end: 31, step: 1 }]);
}

#[test]
fn parse_schedule_rejects_bad_text() {
    for bad in [
        "", "* * * *", "* * * * * *", "60 * * * *", "* 24 * * *", "* * * * 7", "*/0 * * * *",
        "* * 0 * *", "* * * 13 *", "* * 32 * *", "5-3 * * * *", "1,,2 * * * *", "1-2-3 * * * *",
        "5/2 * * * *", "*/2/2 * * * *", "*  * * * *", "a * * * *", "*/ * * * *", "1000 * * * *",
    ] {
        assert!(matches!(parse_schedule(bad), Err(ConfigError::InvalidSchedule)), "{}", bad);
    }
}

#[test]
fn delete_removes_only_the_owners_rule() {
    let mut other_user = rule("r", 1, 0, always());
    other_user.user_id = "u2".to_string();
    let mut rules = vec![rule("a", 1, 0, always()), rule("r", 1, 0, always()), other_user];
    assert!(delete_rule(&mut rules, &"u1".to_string(), &"r".to_string()));
    assert_eq!(rules.len(), 2);
    assert_eq!(rules[0].id, "a");
    assert_eq!(rules[1].id, "r");
    assert_eq!(rules[1].user_id, "u2");
    assert!(!delete_rule(&mut rules, &"u1".to_string(), &"r".to_string()));
    assert_eq!(rules.len(), 2);
    assert_eq!(find_rule(&rules, &"r".to_string()), Some(1));
    assert_eq!(find_rule(&rules, &"zz".to_string()), None);
}

#[test]
fn validate_rule_requires_a_name() {
    let mut r = rule("n", 1, 0, always());
    r.name = String::new();
    assert_eq!(validate_rule(&r), Err(ConfigError::EmptyName));
}
