use vstd::prelude::*;

verus! {

/// Seconds of recent usage attributed to one app or one category.
pub struct UsageEntry {
    pub name: String,
    pub seconds: u64,
}

/// A point-in-time snapshot that every rule of one pass is evaluated against.
pub struct EvaluationContext {
    /// Evaluation time, in milliseconds since the Unix epoch.
    pub now_ms: u64,
    pub active_app: Option<String>,
    pub active_category: Option<String>,
    /// The focus mode in effect now.
    pub focus_mode: Option<String>,
    /// The focus mode that was in effect at the previous pass.
    pub previous_mode: Option<String>,
    pub idle_seconds: Option<u64>,
    pub app_usage: Vec<UsageEntry>,
    pub category_usage: Vec<UsageEntry>,
    /// Time of the previous pass, if any, in milliseconds since the Unix epoch.
    pub last_evaluated_ms: Option<u64>,
}

/// The context attributes a condition can read.
#[derive(Clone, Copy, PartialEq, Eq, Structural, Debug)]
pub enum Field {
    ActiveApp,
    ActiveCategory,
    FocusMode,
    PreviousMode,
    IdleSeconds,
    NowMs,
    UsedApps,
    UsedCategories,
}

/// The runtime type of a context attribute.
#[derive(Clone, Copy, PartialEq, Eq, Structural, Debug)]
pub enum FieldKind {
    Number,
    Text,
    List,
}

pub open spec fn spec_field_kind(f: Field) -> FieldKind {
    match f {
        Field::ActiveApp | Field::ActiveCategory | Field::FocusMode | Field::PreviousMode => FieldKind::Text,
        Field::IdleSeconds | Field::NowMs => FieldKind::Number,
        Field::UsedApps | Field::UsedCategories => FieldKind::List,
    }
}

pub fn field_kind(f: Field) -> (r: FieldKind)
    ensures
        r == spec_field_kind(f),
{
    match f {
        Field::ActiveApp | Field::ActiveCategory | Field::FocusMode | Field::PreviousMode => FieldKind::Text,
        Field::IdleSeconds | Field::NowMs => FieldKind::Number,
        Field::UsedApps | Field::UsedCategories => FieldKind::List,
    }
}

pub open spec fn opt_text(s: Option<String>) -> Option<Seq<char>> {
    match s {
        Some(t) => Some(t@),
        None => None,
    }
}

/// The value of a text attribute; `None` is the missing sentinel.
pub open spec fn text_field(f: Field, ctx: EvaluationContext) -> Option<Seq<char>> {
    match f {
        Field::ActiveApp => opt_text(ctx.active_app),
        Field::ActiveCategory => opt_text(ctx.active_category),
        Field::FocusMode => opt_text(ctx.focus_mode),
        Field::PreviousMode => opt_text(ctx.previous_mode),
        _ => None,
    }
}

/// The value of a number attribute; `None` is the missing sentinel.
pub open spec fn number_field(f: Field, ctx: EvaluationContext) -> Option<int> {
    match f {
        Field::IdleSeconds => match ctx.idle_seconds {
            Some(n) => Some(n as int),
            None => None,
        },
        Field::NowMs => Some(ctx.now_ms as int),
        _ => None,
    }
}

/// The names of a usage list.
pub open spec fn usage_names(v: Seq<UsageEntry>) -> Seq<Seq<char>> {
    v.map_values(|e: UsageEntry| e.name@)
}

/// The value of a list attribute.
pub open spec fn list_field(f: Field, ctx: EvaluationContext) -> Seq<Seq<char>> {
    match f {
        Field::UsedApps => usage_names(ctx.app_usage@),
        Field::UsedCategories => usage_names(ctx.category_usage@),
        _ => Seq::empty(),
    }
}

/// Whether some entry of a usage list is named `name`.
pub fn usage_has_name(v: &Vec<UsageEntry>, name: &String) -> (r: bool)
    ensures
        r == usage_names(v@).contains(name@),
{
    let mut i: usize = 0;
    while i < v.len()
        invariant
            i <= v.len(),
            forall|j: int| 0 <= j < i ==> v@[j].name@ != name@,
        decreases v.len() - i,
    {
        if v[i].name == *name {
            assert(usage_names(v@)[i as int] == name@);
            return true;
        }
        i = i + 1;
    }
    assert(!usage_names(v@).contains(name@)) by {
        if usage_names(v@).contains(name@) {
            let k = choose|k: int| 0 <= k < usage_names(v@).len() && usage_names(v@)[k] == name@;
            assert(v@[k].name@ == name@);
        }
    }
    false
}

} // verus!
