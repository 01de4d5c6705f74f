use vstd::prelude::*;
use vstd::string::StrSliceExecFns;
use crate::condition::{Condition, ConfigError, condition_supported, validate_condition};
use crate::trigger::{CronField, CronRange, Schedule, Trigger};

verus! {

/// The effect executed when a rule fires; each kind carries its own parameters.
pub enum Action {
    Notify { title: Option<String>, message: Option<String> },
    BlockApp { app_name: String, duration_minutes: Option<u64> },
    SuggestBreak { break_duration_minutes: u64 },
    SwitchFocusMode { target_focus_mode: String },
    LogMood { mood_options: Vec<String> },
    ContextPrompt { prompt_text: String },
}

/// A stored automation: a trigger paired with an action.
pub struct AutomationRule {
    pub id: String,
    pub user_id: String,
    pub name: String,
    pub description: Option<String>,
    pub is_active: bool,
    /// Higher fires first.
    pub priority: i64,
    pub trigger: Trigger,
    pub action: Action,
    /// Minimum time between two firings; `None` is no cooldown.
    pub cooldown_seconds: Option<u64>,
    /// Time of the last firing, in milliseconds since the Unix epoch.
    pub last_triggered_at: Option<u64>,
    pub created_at: u64,
    pub updated_at: u64,
    /// Bumped on every mutation.
    pub version: u64,
}

/// Why an update was refused.
#[derive(Clone, Copy, PartialEq, Eq, Structural, Debug)]
pub enum LifecycleError {
    Config(ConfigError),
    /// The caller's version is not the stored one.
    StaleVersion,
}

/// Fields an update may change; `None` keeps the current value.
pub struct RulePatch {
    pub name: Option<String>,
    pub description: Option<Option<String>>,
    pub is_active: Option<bool>,
    pub priority: Option<i64>,
    pub trigger: Option<Trigger>,
    pub action: Option<Action>,
    pub cooldown_seconds: Option<Option<u64>>,
}

pub open spec fn range_valid(r: CronRange, lo: int, hi: int) -> bool {
    1 <= r.step && lo <= r.start && r.start <= r.end && r.end <= hi
}

/// A field with at least one range, every range inside `lo..=hi`.
pub open spec fn cron_field_valid(f: CronField, lo: int, hi: int) -> bool {
    &&& f.ranges@.len() > 0
    &&& forall|i: int| 0 <= i < f.ranges@.len() ==> range_valid(#[trigger] f.ranges@[i], lo, hi)
}

pub open spec fn schedule_valid(s: Schedule) -> bool {
    &&& cron_field_valid(s.minute, 0, 59)
    &&& cron_field_valid(s.hour, 0, 23)
    &&& cron_field_valid(s.day_of_month, 1, 31)
    &&& cron_field_valid(s.month, 1, 12)
    &&& cron_field_valid(s.day_of_week, 0, 6)
}

pub open spec fn conditions_supported(cs: Seq<Condition>) -> bool {
    forall|i: int| 0 <= i < cs.len() ==> condition_supported(#[trigger] cs[i])
}

/// The error validation reports for a trigger, if any.
pub open spec fn trigger_error(t: Trigger) -> Option<ConfigError> {
    match t {
        Trigger::Scheduled { schedule } => if schedule_valid(schedule) {
            None
        } else {
            Some(ConfigError::InvalidSchedule)
        },
        Trigger::Composite { conditions } => if conditions_supported(conditions@) {
            None
        } else {
            Some(ConfigError::UnsupportedCondition)
        },
        _ => None,
    }
}

pub(crate) fn check_cron_field(f: &CronField, lo: u8, hi: u8) -> (r: bool)
    ensures
        r == cron_field_valid(*f, lo as int, hi as int),
{
    if f.ranges.len() == 0 {
        return false;
    }
    let mut i: usize = 0;
    while i < f.ranges.len()
        invariant
            i <= f.ranges@.len(),
            forall|j: int| 0 <= j < i ==> range_valid(#[trigger] f.ranges@[j], lo as int, hi as int),
        decreases f.ranges.len() - i,
    {
        let r = f.ranges[i];
        if !(1 <= r.step && lo <= r.start && r.start <= r.end && r.end <= hi) {
            assert(!range_valid(f.ranges@[i as int], lo as int, hi as int));
            return false;
        }
        i = i + 1;
    }
    true
}

/// Accepts a trigger whose schedule fields are in range and whose conditions
/// suit their fields' types.
pub fn validate_trigger(trigger: &Trigger) -> (r: Result<(), ConfigError>)
    ensures
        r is Ok <==> trigger_error(*trigger) is None,
        r is Err ==> r == Err::<(), ConfigError>(trigger_error(*trigger)->Some_0),
{
    match trigger {
        Trigger::Scheduled { schedule } => {
            if check_cron_field(&schedule.minute, 0, 59) && check_cron_field(&schedule.hour, 0, 23)
                && check_cron_field(&schedule.day_of_month, 1, 31) && check_cron_field(
                &schedule.month,
                1,
                12,
            ) && check_cron_field(&schedule.day_of_week, 0, 6) {
                Ok(())
            } else {
                Err(ConfigError::InvalidSchedule)
            }
        },
        Trigger::Composite { conditions } => {
            let mut i: usize = 0;
            while i < conditions.len()
                invariant
                    *trigger == (Trigger::Composite { conditions: *conditions }),
                    i <= conditions.len(),
                    forall|j: int| 0 <= j < i ==> condition_supported(#[trigger] conditions@[j]),
                decreases conditions.len() - i,
            {
                let checked = validate_condition(&conditions[i]);
                if checked.is_err() {
                    assert(!condition_supported(conditions@[i as int]));
                    assert(!conditions_supported(conditions@));
                    return Err(ConfigError::UnsupportedCondition);
                }
                i = i + 1;
            }
            Ok(())
        },
        _ => Ok(()),
    }
}

/// Accepts a rule that has a name and a well-formed trigger. Priority and the kinds of
/// trigger and action are well-formed by construction.
pub fn validate_rule(rule: &AutomationRule) -> (r: Result<(), ConfigError>)
    ensures
        rule.name@.len() == 0 ==> r == Err::<(), ConfigError>(ConfigError::EmptyName),
        rule.name@.len() > 0 ==> (r is Ok <==> trigger_error(rule.trigger) is None),
        rule.name@.len() > 0 && r is Err ==> r == Err::<(), ConfigError>(
            trigger_error(rule.trigger)->Some_0,
        ),
{
    if rule.name.as_str().unicode_len() == 0 {
        return Err(ConfigError::EmptyName);
    }
    validate_trigger(&rule.trigger)
}

pub open spec fn patched<T>(p: Option<T>, current: T) -> T {
    match p {
        Some(v) => v,
        None => current,
    }
}

/// When an update is refused, and why.
pub open spec fn update_error(rule: AutomationRule, patch: RulePatch, expected_version: Option<u64>) -> Option<LifecycleError> {
    if expected_version is Some && expected_version->Some_0 != rule.version {
        Some(LifecycleError::StaleVersion)
    } else if patch.trigger is Some && trigger_error(patch.trigger->Some_0) is Some {
        Some(LifecycleError::Config(trigger_error(patch.trigger->Some_0)->Some_0))
    } else {
        None
    }
}

/// Applies an update. With `expected_version` set, a write based on another
/// version is refused (optimistic concurrency); a new trigger is validated.
/// An accepted update bumps the version and stamps `updated_at`; a refused one
/// changes nothing.
pub fn update_rule(
    rule: &mut AutomationRule,
    patch: RulePatch,
    now_ms: u64,
    expected_version: Option<u64>,
) -> (r: Result<(), LifecycleError>)
    requires
        old(rule).version < u64::MAX,
    ensures
        r is Err <==> update_error(*old(rule), patch, expected_version) is Some,
        r is Err ==> r == Err::<(), LifecycleError>(
            update_error(*old(rule), patch, expected_version)->Some_0,
        ) && *final(rule) == *old(rule),
        r is Ok ==> {
            &&& final(rule).version == old(rule).version + 1
            &&& final(rule).updated_at == now_ms
            &&& final(rule).id == old(rule).id
            &&& final(rule).user_id == old(rule).user_id
            &&& final(rule).created_at == old(rule).created_at
            &&& final(rule).last_triggered_at == old(rule).last_triggered_at
            &&& final(rule).name == patched(patch.name, old(rule).name)
            &&& final(rule).description == patched(patch.description, old(rule).description)
            &&& final(rule).is_active == patched(patch.is_active, old(rule).is_active)
            &&& final(rule).priority == patched(patch.priority, old(rule).priority)
            &&& final(rule).trigger == patched(patch.trigger, old(rule).trigger)
            &&& final(rule).action == patched(patch.action, old(rule).action)
            &&& final(rule).cooldown_seconds == patched(
                patch.cooldown_seconds,
                old(rule).cooldown_seconds,
            )
        },
{
    if let Some(v) = expected_version {
        if v != rule.version {
            return Err(LifecycleError::StaleVersion);
        }
    }
    if let Some(t) = &patch.trigger {
        if let Err(e) = validate_trigger(t) {
            return Err(LifecycleError::Config(e));
        }
    }
    let RulePatch { name, description, is_active, priority, trigger, action, cooldown_seconds } =
        patch;
    if let Some(v) = name {
        rule.name = v;
    }
    if let Some(v) = description {
        rule.description = v;
    }
    if let Some(v) = is_active {
        rule.is_active = v;
    }
    if let Some(v) = priority {
        rule.priority = v;
    }
    if let Some(v) = trigger {
        rule.trigger = v;
    }
    if let Some(v) = action {
        rule.action = v;
    }
    if let Some(v) = cooldown_seconds {
        rule.cooldown_seconds = v;
    }
    rule.version = rule.version + 1;
    rule.updated_at = now_ms;
    Ok(())
}

/// Records a firing: stamps `last_triggered_at` and `updated_at` and bumps the
/// version; nothing else changes.
pub fn mark_triggered(rule: &mut AutomationRule, at_ms: u64)
    requires
        old(rule).version < u64::MAX,
    ensures
        *final(rule) == (AutomationRule {
            last_triggered_at: Some(at_ms),
            updated_at: at_ms,
            version: (old(rule).version + 1) as u64,
            ..*old(rule)
        }),
{
    rule.last_triggered_at = Some(at_ms);
    rule.updated_at = at_ms;
    rule.version = rule.version + 1;
}

/// Whether `r` is the rule `id` of user `user_id`.
pub open spec fn is_rule_of(r: AutomationRule, user_id: Seq<char>, id: Seq<char>) -> bool {
    r.user_id@ == user_id && r.id@ == id
}

/// The rules left after removing user `user_id`'s rules with id `id`, in order.
pub open spec fn without_rule(rules: Seq<AutomationRule>, user_id: Seq<char>, id: Seq<char>) -> Seq<AutomationRule>
    decreases rules.len(),
{
    if rules.len() == 0 {
        rules
    } else if is_rule_of(rules[0], user_id, id) {
        without_rule(rules.drop_first(), user_id, id)
    } else {
        seq![rules[0]] + without_rule(rules.drop_first(), user_id, id)
    }
}

proof fn lemma_without_rule_len(rules: Seq<AutomationRule>, user_id: Seq<char>, id: Seq<char>)
    ensures
        without_rule(rules, user_id, id).len() <= rules.len(),
        without_rule(rules, user_id, id).len() == rules.len() <==> forall|k: int|
            0 <= k < rules.len() ==> !is_rule_of(#[trigger] rules[k], user_id, id),
    decreases rules.len(),
{
    if rules.len() > 0 {
        lemma_without_rule_len(rules.drop_first(), user_id, id);
        if !is_rule_of(rules[0], user_id, id) {
            assert forall|k: int| 0 <= k < rules.len() && (forall|j: int|
                0 <= j < rules.drop_first().len() ==> !is_rule_of(#[trigger] rules.drop_first()[j], user_id, id))
                implies !is_rule_of(#[trigger] rules[k], user_id, id) by {
                if k > 0 {
                    assert(rules[k] == rules.drop_first()[k - 1]);
                }
            }
            if forall|k: int| 0 <= k < rules.len() ==> !is_rule_of(#[trigger] rules[k], user_id, id) {
                assert forall|j: int| 0 <= j < rules.drop_first().len() implies !is_rule_of(
                #[trigger] rules.drop_first()[j], user_id, id) by {
                    assert(rules.drop_first()[j] == rules[j + 1]);
                }
            }
        }
    }
}

/// Removes user `user_id`'s rule `id`; rules of other users, and other rules,
/// stay in place and in order. Deleting an absent rule is not an error: the
/// list is left as it is and `false` comes back.
pub fn delete_rule(rules: &mut Vec<AutomationRule>, user_id: &String, id: &String) -> (removed: bool)
    ensures
        final(rules)@ == without_rule(old(rules)@, user_id@, id@),
        removed <==> exists|k: int|
            0 <= k < old(rules)@.len() && is_rule_of(#[trigger] old(rules)@[k], user_id@, id@),
{
    let ghost original = rules@;
    let mut i: usize = 0;
    let mut removed = false;
    assert(rules@.subrange(0, 0) + rules@.subrange(0, rules@.len() as int) =~= rules@);
    while i < rules.len()
        invariant
            i <= rules.len(),
            without_rule(original, user_id@, id@) == rules@.subrange(0, i as int) + without_rule(
                rules@.subrange(i as int, rules@.len() as int),
                user_id@,
                id@,
            ),
            removed <==> rules@.len() < original.len(),
            !removed ==> rules@ == original,
            rules@.len() <= original.len(),
        decreases rules.len() - i,
    {
        let ghost rest = rules@.subrange(i as int, rules@.len() as int);
        let ghost prefix = rules@.subrange(0, i as int);
        if rules[i].id == *id && rules[i].user_id == *user_id {
            rules.remove(i);
            removed = true;
            assert(rest.drop_first() =~= rules@.subrange(i as int, rules@.len() as int));
            assert(prefix =~= rules@.subrange(0, i as int));
        } else {
            assert(rest.drop_first() =~= rules@.subrange(i as int + 1, rules@.len() as int));
            assert(rules@.subrange(0, i as int + 1) =~= prefix + seq![rest[0]]);
            assert(prefix + (seq![rest[0]] + without_rule(rest.drop_first(), user_id@, id@)) =~= (
            prefix + seq![rest[0]]) + without_rule(rest.drop_first(), user_id@, id@));
            i = i + 1;
        }
    }
    proof {
        assert(rules@.subrange(i as int, rules@.len() as int) =~= Seq::<AutomationRule>::empty());
        assert(rules@.subrange(0, i as int) =~= rules@);
        assert(rules@ + Seq::<AutomationRule>::empty() =~= rules@);
        lemma_without_rule_len(original, user_id@, id@);
    }
    removed
}

/// Deleting is idempotent: deleting the same rule twice leaves what deleting
/// it once left.
pub proof fn delete_is_idempotent(rules: Seq<AutomationRule>, user_id: Seq<char>, id: Seq<char>)
    ensures
        without_rule(without_rule(rules, user_id, id), user_id, id) == without_rule(rules, user_id, id),
    decreases rules.len(),
{
    if rules.len() > 0 {
        delete_is_idempotent(rules.drop_first(), user_id, id);
        if !is_rule_of(rules[0], user_id, id) {
            let w = seq![rules[0]] + without_rule(rules.drop_first(), user_id, id);
            assert(w[0] == rules[0]);
            assert(w.drop_first() =~= without_rule(rules.drop_first(), user_id, id));
        }
    }
}

/// Position of the first rule with id `id`.
pub fn find_rule(rules: &Vec<AutomationRule>, id: &String) -> (r: Option<usize>)
    ensures
        match r {
            Some(k) => k < rules@.len() && rules@[k as int].id@ == id@ && forall|j: int|
                0 <= j < k ==> (#[trigger] rules@[j]).id@ != id@,
            None => forall|j: int| 0 <= j < rules@.len() ==> (#[trigger] rules@[j]).id@ != id@,
        },
{
    let mut i: usize = 0;
    while i < rules.len()
        invariant
            i <= rules.len(),
            forall|j: int| 0 <= j < i ==> (#[trigger] rules@[j]).id@ != id@,
        decreases rules.len() - i,
    {
        if rules[i].id == *id {
            return Some(i);
        }
        i = i + 1;
    }
    None
}

} // verus!
