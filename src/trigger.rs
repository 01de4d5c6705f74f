use vstd::prelude::*;
use crate::context::{EvaluationContext, UsageEntry, opt_text};
use crate::condition::{Condition, condition_holds, evaluate};

verus! {

/// Which apps, categories and tags a threshold is scoped to; an unset list
/// places no restriction. Usage is recorded per app and per category only, so
/// tags do not scope a threshold.
pub struct TargetCriteria {
    pub app_names: Option<Vec<String>>,
    pub categories: Option<Vec<String>>,
    pub tags: Option<Vec<String>>,
}

/// The values from `start` to `end` that lie a multiple of `step` past `start`.
#[derive(Clone, Copy, PartialEq, Eq, Structural, Debug)]
pub struct CronRange {
    pub start: u8,
    pub end: u8,
    pub step: u8,
}

/// One field of a schedule: the union of its ranges.
pub struct CronField {
    pub ranges: Vec<CronRange>,
}

/// A cron schedule on minute, hour, day of month, month and day of the week
/// (0 is Sunday), in UTC.
pub struct Schedule {
    pub minute: CronField,
    pub hour: CronField,
    pub day_of_month: CronField,
    pub month: CronField,
    pub day_of_week: CronField,
}

/// The condition-kind that makes a rule eligible to fire.
pub enum Trigger {
    /// Usage in the scope reached `threshold_seconds`.
    Threshold { threshold_seconds: u64, scope: TargetCriteria },
    /// The current minute is a tick of the schedule not yet evaluated.
    Scheduled { schedule: Schedule },
    /// The focus mode went from `from_mode` to `to_mode` since the previous pass.
    ModeTransition { from_mode: String, to_mode: String },
    /// Every condition holds.
    Composite { conditions: Vec<Condition> },
}

pub open spec fn string_views(v: Seq<String>) -> Seq<Seq<char>> {
    v.map_values(|s: String| s@)
}

/// Seconds of the entries whose name is in `names`.
pub open spec fn scoped_seconds(usage: Seq<UsageEntry>, names: Seq<Seq<char>>) -> int
    decreases usage.len(),
{
    if usage.len() == 0 {
        0
    } else {
        scoped_seconds(usage.drop_last(), names) + if names.contains(usage.last().name@) {
            usage.last().seconds as int
        } else {
            0
        }
    }
}

/// Seconds of all entries.
pub open spec fn total_seconds(usage: Seq<UsageEntry>) -> int
    decreases usage.len(),
{
    if usage.len() == 0 {
        0
    } else {
        total_seconds(usage.drop_last()) + usage.last().seconds as int
    }
}

/// The usage a threshold is measured against: that of the listed apps plus
/// that of the listed categories, or all app usage when neither is listed.
pub open spec fn relevant_seconds(scope: TargetCriteria, ctx: EvaluationContext) -> int {
    if scope.app_names is None && scope.categories is None {
        total_seconds(ctx.app_usage@)
    } else {
        (match scope.app_names {
            Some(a) => scoped_seconds(ctx.app_usage@, string_views(a@)),
            None => 0,
        }) + (match scope.categories {
            Some(c) => scoped_seconds(ctx.category_usage@, string_views(c@)),
            None => 0,
        })
    }
}

pub open spec fn range_matches(r: CronRange, v: int) -> bool {
    r.step > 0 && r.start <= v <= r.end && (v - r.start) % (r.step as int) == 0
}

pub open spec fn field_matches(f: CronField, v: int) -> bool {
    exists|i: int| 0 <= i < f.ranges@.len() && range_matches(#[trigger] f.ranges@[i], v)
}

/// Whether a field is `*`: one of its ranges is the whole span with step 1.
pub open spec fn field_is_full(f: CronField, lo: int, hi: int) -> bool {
    exists|i: int|
        0 <= i < f.ranges@.len() && #[trigger] f.ranges@[i] == (CronRange {
            start: lo as u8,
            end: hi as u8,
            step: 1,
        })
}

pub open spec fn is_leap(y: int) -> bool {
    y % 4 == 0 && (y % 100 != 0 || y % 400 == 0)
}

pub open spec fn year_len(y: int) -> int {
    if is_leap(y) {
        366
    } else {
        365
    }
}

pub open spec fn month_len(y: int, m: int) -> int {
    if m == 2 {
        if is_leap(y) {
            29
        } else {
            28
        }
    } else if m == 4 || m == 6 || m == 9 || m == 11 {
        30
    } else {
        31
    }
}

/// The year `days` days after January 1 of year `y`, and the day within it
/// (0 is January 1).
pub open spec fn year_and_day(days: int, y: int) -> (int, int)
    decreases days,
{
    if days < year_len(y) || days < 0 {
        (y, days)
    } else {
        year_and_day(days - year_len(y), y + 1)
    }
}

/// The month (from `m`) and day of month (from 1) of day `doy` counted from
/// the first day of month `m` of year `y`.
pub open spec fn month_and_day(doy: int, y: int, m: int) -> (int, int)
    decreases 12 - m,
{
    if m >= 12 || doy < month_len(y, m) {
        (m, doy + 1)
    } else {
        month_and_day(doy - month_len(y, m), y, m + 1)
    }
}

/// Month (1 to 12) and day of month (1 to 31) of a time in milliseconds since
/// the Unix epoch, in UTC.
pub open spec fn calendar_date(ms: int) -> (int, int) {
    let (y, doy) = year_and_day(ms / 86400000, 1970);
    month_and_day(doy, y, 1)
}

pub open spec fn minute_window(ms: int) -> int {
    ms / 60000
}

/// Day of month and day of week must both match, unless both are restricted
/// (neither is `*`): then either is enough.
pub open spec fn days_match(s: Schedule, day: int, dow: int) -> bool {
    if field_is_full(s.day_of_month, 1, 31) || field_is_full(s.day_of_week, 0, 6) {
        field_matches(s.day_of_month, day) && field_matches(s.day_of_week, dow)
    } else {
        field_matches(s.day_of_month, day) || field_matches(s.day_of_week, dow)
    }
}

pub open spec fn schedule_matches(s: Schedule, ms: int) -> bool {
    &&& field_matches(s.minute, minute_window(ms) % 60)
    &&& field_matches(s.hour, (ms / 3600000) % 24)
    &&& field_matches(s.month, calendar_date(ms).0)
    &&& days_match(s, calendar_date(ms).1, (ms / 86400000 + 4) % 7)
}

/// Due when the current minute is a tick of the schedule and the previous
/// evaluation fell in an earlier minute, so one tick fires at most once.
pub open spec fn schedule_due(s: Schedule, ctx: EvaluationContext) -> bool {
    &&& schedule_matches(s, ctx.now_ms as int)
    &&& match ctx.last_evaluated_ms {
        Some(t) => minute_window(t as int) < minute_window(ctx.now_ms as int),
        None => true,
    }
}

pub open spec fn all_hold(cs: Seq<Condition>, ctx: EvaluationContext) -> bool {
    forall|i: int| 0 <= i < cs.len() ==> condition_holds(#[trigger] cs[i], ctx)
}

/// Whether a trigger is satisfied by a context.
pub open spec fn trigger_holds(t: Trigger, ctx: EvaluationContext) -> bool {
    match t {
        Trigger::Threshold { threshold_seconds, scope } => relevant_seconds(scope, ctx)
            >= threshold_seconds as int,
        Trigger::Scheduled { schedule } => schedule_due(schedule, ctx),
        Trigger::ModeTransition { from_mode, to_mode } => opt_text(ctx.previous_mode) == Some(
            from_mode@,
        ) && opt_text(ctx.focus_mode) == Some(to_mode@),
        Trigger::Composite { conditions } => all_hold(conditions@, ctx),
    }
}

fn string_list_has(v: &Vec<String>, s: &String) -> (r: bool)
    ensures
        r == string_views(v@).contains(s@),
{
    let mut i: usize = 0;
    while i < v.len()
        invariant
            i <= v.len(),
            forall|j: int| 0 <= j < i ==> v@[j]@ != s@,
        decreases v.len() - i,
    {
        if v[i] == *s {
            assert(string_views(v@)[i as int] == s@);
            return true;
        }
        i = i + 1;
    }
    assert(!string_views(v@).contains(s@)) by {
        if string_views(v@).contains(s@) {
            let k = choose|k: int| 0 <= k < string_views(v@).len() && string_views(v@)[k] == s@;
            assert(v@[k]@ == s@);
        }
    }
    false
}

pub open spec fn saturated(x: int) -> int {
    if x > u64::MAX as int {
        u64::MAX as int
    } else {
        x
    }
}

proof fn lemma_scoped_nonneg(usage: Seq<UsageEntry>, names: Seq<Seq<char>>)
    ensures
        scoped_seconds(usage, names) >= 0,
    decreases usage.len(),
{
    if usage.len() > 0 {
        lemma_scoped_nonneg(usage.drop_last(), names);
    }
}

proof fn lemma_total_nonneg(usage: Seq<UsageEntry>)
    ensures
        total_seconds(usage) >= 0,
    decreases usage.len(),
{
    if usage.len() > 0 {
        lemma_total_nonneg(usage.drop_last());
    }
}

/// Usage of the entries named in `names` (all entries when `names` is `None`),
/// saturated at `u64::MAX`.
fn sum_usage(usage: &Vec<UsageEntry>, names: Option<&Vec<String>>) -> (r: u64)
    ensures
        r as int == saturated(
            match names {
                Some(n) => scoped_seconds(usage@, string_views(n@)),
                None => total_seconds(usage@),
            },
        ),
{
    let mut acc: u64 = 0;
    let mut i: usize = 0;
    while i < usage.len()
        invariant
            i <= usage.len(),
            acc as int == saturated(
                match names {
                    Some(n) => scoped_seconds(usage@.subrange(0, i as int), string_views(n@)),
                    None => total_seconds(usage@.subrange(0, i as int)),
                },
            ),
        decreases usage.len() - i,
    {
        let e = &usage[i];
        let counted = match names {
            Some(n) => string_list_has(n, &e.name),
            None => true,
        };
        let ghost prefix = usage@.subrange(0, i as int);
        let ghost next = usage@.subrange(0, i as int + 1);
        proof {
            assert(next.drop_last() =~= prefix);
            match names {
                Some(n) => lemma_scoped_nonneg(prefix, string_views(n@)),
                None => lemma_total_nonneg(prefix),
            }
        }
        if counted {
            if acc > u64::MAX - e.seconds {
                acc = u64::MAX;
            } else {
                acc = acc + e.seconds;
            }
        }
        i = i + 1;
    }
    assert(usage@.subrange(0, usage.len() as int) =~= usage@);
    acc
}

/// Usage that a threshold scope measures, saturated at `u64::MAX`.
fn relevant_usage(scope: &TargetCriteria, ctx: &EvaluationContext) -> (r: u64)
    ensures
        r as int == saturated(relevant_seconds(*scope, *ctx)),
{
    if scope.app_names.is_none() && scope.categories.is_none() {
        return sum_usage(&ctx.app_usage, None);
    }
    let a: u64 = match &scope.app_names {
        Some(n) => sum_usage(&ctx.app_usage, Some(n)),
        None => 0,
    };
    let c: u64 = match &scope.categories {
        Some(n) => sum_usage(&ctx.category_usage, Some(n)),
        None => 0,
    };
    proof {
        if scope.app_names is Some {
            lemma_scoped_nonneg(ctx.app_usage@, string_views(scope.app_names->Some_0@));
        }
        if scope.categories is Some {
            lemma_scoped_nonneg(ctx.category_usage@, string_views(scope.categories->Some_0@));
        }
    }
    if a > u64::MAX - c {
        u64::MAX
    } else {
        a + c
    }
}

fn cron_field_matches(f: &CronField, v: u64) -> (r: bool)
    ensures
        r == field_matches(*f, v as int),
{
    let mut i: usize = 0;
    while i < f.ranges.len()
        invariant
            i <= f.ranges@.len(),
            forall|j: int| 0 <= j < i ==> !range_matches(#[trigger] f.ranges@[j], v as int),
        decreases f.ranges.len() - i,
    {
        let r = f.ranges[i];
        if r.step > 0 && r.start as u64 <= v && v <= r.end as u64 && (v - r.start as u64) % (
        r.step as u64) == 0 {
            assert(range_matches(f.ranges@[i as int], v as int));
            return true;
        }
        i = i + 1;
    }
    false
}

fn cron_field_is_full(f: &CronField, lo: u8, hi: u8) -> (r: bool)
    ensures
        r == field_is_full(*f, lo as int, hi as int),
{
    let mut i: usize = 0;
    while i < f.ranges.len()
        invariant
            i <= f.ranges@.len(),
            forall|j: int|
                0 <= j < i ==> #[trigger] f.ranges@[j] != (CronRange { start: lo, end: hi, step: 1 }),
        decreases f.ranges.len() - i,
    {
        let r = f.ranges[i];
        if r.start == lo && r.end == hi && r.step == 1 {
            assert(f.ranges@[i as int] == (CronRange { start: lo, end: hi, step: 1 }));
            return true;
        }
        i = i + 1;
    }
    false
}

fn is_leap_year(y: u64) -> (r: bool)
    ensures
        r == is_leap(y as int),
{
    y % 4 == 0 && (y % 100 != 0 || y % 400 == 0)
}

fn year_length(y: u64) -> (r: u64)
    ensures
        r as int == year_len(y as int),
{
    if is_leap_year(y) {
        366
    } else {
        365
    }
}

fn days_in_month(y: u64, m: u64) -> (r: u64)
    ensures
        r as int == month_len(y as int, m as int),
{
    if m == 2 {
        if is_leap_year(y) {
            29
        } else {
            28
        }
    } else if m == 4 || m == 6 || m == 9 || m == 11 {
        30
    } else {
        31
    }
}

/// Month and day of month of a time, in UTC.
pub fn date_of(ms: u64) -> (r: (u64, u64))
    ensures
        (r.0 as int, r.1 as int) == calendar_date(ms as int),
{
    let days0: u64 = ms / 86400000;
    let mut days: u64 = days0;
    let mut y: u64 = 1970;
    while days >= year_length(y)
        invariant
            days <= days0,
            days0 == ms / 86400000,
            1970 <= y <= 1970 + (days0 - days),
            days0 < 1000000000000,
            year_and_day(days0 as int, 1970) == year_and_day(days as int, y as int),
        decreases days,
    {
        days = days - year_length(y);
        y = y + 1;
    }
    let mut doy: u64 = days;
    let mut m: u64 = 1;
    while m < 12 && doy >= days_in_month(y, m)
        invariant
            1 <= m <= 12,
            doy <= days,
            days < 1000000000000,
            year_and_day(days0 as int, 1970) == (y as int, days as int),
            month_and_day(days as int, y as int, 1) == month_and_day(doy as int, y as int, m as int),
        decreases 12 - m,
    {
        doy = doy - days_in_month(y, m);
        m = m + 1;
    }
    (m, doy + 1)
}

/// Whether the schedule is due in this context.
pub fn schedule_is_due(schedule: &Schedule, ctx: &EvaluationContext) -> (r: bool)
    ensures
        r == schedule_due(*schedule, *ctx),
{
    let now = ctx.now_ms;
    let minute = (now / 60000) % 60;
    let hour = (now / 3600000) % 24;
    let dow = (now / 86400000 + 4) % 7;
    let (month, day) = date_of(now);
    if !(cron_field_matches(&schedule.minute, minute) && cron_field_matches(&schedule.hour, hour)
        && cron_field_matches(&schedule.month, month)) {
        return false;
    }
    let days_ok = if cron_field_is_full(&schedule.day_of_month, 1, 31) || cron_field_is_full(
        &schedule.day_of_week,
        0,
        6,
    ) {
        cron_field_matches(&schedule.day_of_month, day) && cron_field_matches(
            &schedule.day_of_week,
            dow,
        )
    } else {
        cron_field_matches(&schedule.day_of_month, day) || cron_field_matches(
            &schedule.day_of_week,
            dow,
        )
    };
    if !days_ok {
        return false;
    }
    match ctx.last_evaluated_ms {
        Some(t) => t / 60000 < now / 60000,
        None => true,
    }
}

fn all_conditions_hold(conditions: &Vec<Condition>, ctx: &EvaluationContext) -> (r: bool)
    ensures
        r == all_hold(conditions@, *ctx),
{
    let mut i: usize = 0;
    while i < conditions.len()
        invariant
            i <= conditions.len(),
            forall|j: int| 0 <= j < i ==> condition_holds(#[trigger] conditions@[j], *ctx),
        decreases conditions.len() - i,
    {
        if !evaluate(&conditions[i], ctx) {
            return false;
        }
        i = i + 1;
    }
    true
}

fn same_text(a: &Option<String>, b: &String) -> (r: bool)
    ensures
        r == (opt_text(*a) == Some(b@)),
{
    match a {
        Some(s) => *s == *b,
        None => false,
    }
}

/// Decides whether a trigger is currently satisfied. An empty composite is
/// satisfied.
pub fn matches(trigger: &Trigger, context: &EvaluationContext) -> (r: bool)
    ensures
        r == trigger_holds(*trigger, *context),
{
    match trigger {
        Trigger::Threshold { threshold_seconds, scope } => {
            relevant_usage(scope, context) >= *threshold_seconds
        },
        Trigger::Scheduled { schedule } => schedule_is_due(schedule, context),
        Trigger::ModeTransition { from_mode, to_mode } => {
            same_text(&context.previous_mode, from_mode) && same_text(&context.focus_mode, to_mode)
        },
        Trigger::Composite { conditions } => all_conditions_hold(conditions, context),
    }
}

} // verus!
