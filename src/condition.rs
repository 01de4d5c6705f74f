use vstd::prelude::*;
use crate::context::{
    EvaluationContext, Field, FieldKind, field_kind, spec_field_kind, text_field, number_field,
    list_field, usage_has_name,
};

verus! {

/// Comparison operators of a condition.
#[derive(Clone, Copy, PartialEq, Eq, Structural, Debug)]
pub enum Operator {
    Eq,
    Neq,
    Gt,
    Gte,
    Lt,
    Lte,
    Contains,
}

/// A typed literal that a condition compares against.
pub enum Literal {
    Number(u64),
    Text(String),
}

/// `field operator value`, evaluated against a context snapshot.
pub struct Condition {
    pub field: Field,
    pub operator: Operator,
    pub value: Literal,
}

/// A rule definition that cannot be accepted.
#[derive(Clone, Copy, PartialEq, Eq, Structural, Debug)]
pub enum ConfigError {
    /// The operator or the literal does not suit the type of the field.
    UnsupportedCondition,
    /// The schedule cannot be read.
    InvalidSchedule,
    /// The rule has no name.
    EmptyName,
}

/// Outcome of comparing a present number with a number literal.
pub open spec fn compare_numbers(op: Operator, a: int, b: int) -> bool {
    match op {
        Operator::Eq => a == b,
        Operator::Neq => a != b,
        Operator::Gt => a > b,
        Operator::Gte => a >= b,
        Operator::Lt => a < b,
        Operator::Lte => a <= b,
        Operator::Contains => false,
    }
}

/// A missing value, or one of another type than the literal, equals nothing:
/// only `neq` holds of it.
pub open spec fn number_holds(op: Operator, actual: Option<int>, lit: Literal) -> bool {
    match (actual, lit) {
        (Some(a), Literal::Number(b)) => compare_numbers(op, a, b as int),
        _ => op == Operator::Neq,
    }
}

pub open spec fn text_holds(op: Operator, actual: Option<Seq<char>>, lit: Literal) -> bool {
    match (actual, lit) {
        (Some(a), Literal::Text(b)) => match op {
            Operator::Eq => a == b@,
            Operator::Neq => a != b@,
            _ => false,
        },
        _ => op == Operator::Neq,
    }
}

/// `contains` asks for membership; a list equals no scalar literal.
pub open spec fn list_holds(op: Operator, names: Seq<Seq<char>>, lit: Literal) -> bool {
    match op {
        Operator::Contains => match lit {
            Literal::Text(b) => names.contains(b@),
            Literal::Number(_) => false,
        },
        Operator::Neq => true,
        _ => false,
    }
}

/// What a condition evaluates to against a context.
pub open spec fn condition_holds(c: Condition, ctx: EvaluationContext) -> bool {
    match spec_field_kind(c.field) {
        FieldKind::Number => number_holds(c.operator, number_field(c.field, ctx), c.value),
        FieldKind::Text => text_holds(c.operator, text_field(c.field, ctx), c.value),
        FieldKind::List => list_holds(c.operator, list_field(c.field, ctx), c.value),
    }
}

/// Whether the operator and the literal suit the field's type.
pub open spec fn condition_supported(c: Condition) -> bool {
    match spec_field_kind(c.field) {
        FieldKind::Number => c.operator != Operator::Contains && c.value is Number,
        FieldKind::Text => (c.operator == Operator::Eq || c.operator == Operator::Neq)
            && c.value is Text,
        FieldKind::List => c.operator == Operator::Contains && c.value is Text,
    }
}

fn eval_number(op: Operator, actual: Option<u64>, lit: &Literal) -> (r: bool)
    ensures
        r == number_holds(
            op,
            match actual {
                Some(n) => Some(n as int),
                None => None,
            },
            *lit,
        ),
{
    match (actual, lit) {
        (Some(a), Literal::Number(b)) => {
            let b = *b;
            match op {
                Operator::Eq => a == b,
                Operator::Neq => a != b,
                Operator::Gt => a > b,
                Operator::Gte => a >= b,
                Operator::Lt => a < b,
                Operator::Lte => a <= b,
                Operator::Contains => false,
            }
        },
        _ => op == Operator::Neq,
    }
}

fn eval_text(op: Operator, actual: &Option<String>, lit: &Literal) -> (r: bool)
    ensures
        r == text_holds(op, crate::context::opt_text(*actual), *lit),
{
    match (actual, lit) {
        (Some(a), Literal::Text(b)) => match op {
            Operator::Eq => *a == *b,
            Operator::Neq => !(*a == *b),
            _ => false,
        },
        _ => op == Operator::Neq,
    }
}

fn eval_list(op: Operator, v: &Vec<crate::context::UsageEntry>, lit: &Literal) -> (r: bool)
    ensures
        r == list_holds(op, crate::context::usage_names(v@), *lit),
{
    match op {
        Operator::Contains => match lit {
            Literal::Text(b) => usage_has_name(v, b),
            Literal::Number(_) => false,
        },
        Operator::Neq => true,
        _ => false,
    }
}

/// Evaluates one condition against a context. Never fails: an absent
/// attribute is the missing sentinel, equal to nothing.
pub fn evaluate(condition: &Condition, context: &EvaluationContext) -> (r: bool)
    ensures
        r == condition_holds(*condition, *context),
{
    let op = condition.operator;
    match condition.field {
        Field::ActiveApp => eval_text(op, &context.active_app, &condition.value),
        Field::ActiveCategory => eval_text(op, &context.active_category, &condition.value),
        Field::FocusMode => eval_text(op, &context.focus_mode, &condition.value),
        Field::PreviousMode => eval_text(op, &context.previous_mode, &condition.value),
        Field::IdleSeconds => eval_number(op, context.idle_seconds, &condition.value),
        Field::NowMs => eval_number(op, Some(context.now_ms), &condition.value),
        Field::UsedApps => eval_list(op, &context.app_usage, &condition.value),
        Field::UsedCategories => eval_list(op, &context.category_usage, &condition.value),
    }
}

/// Evaluation reads nothing but its arguments: two evaluations of one
/// condition against one context agree.
pub proof fn evaluate_is_idempotent(condition: Condition, context: EvaluationContext, r1: bool, r2: bool)
    requires
        r1 == condition_holds(condition, context),
        r2 == condition_holds(condition, context),
    ensures
        r1 == r2,
{
}

/// Accepts a condition whose operator and literal suit its field's type.
pub fn validate_condition(condition: &Condition) -> (r: Result<(), ConfigError>)
    ensures
        r is Ok <==> condition_supported(*condition),
        r is Err ==> r == Err::<(), ConfigError>(ConfigError::UnsupportedCondition),
{
    let is_number = match condition.value {
        Literal::Number(_) => true,
        Literal::Text(_) => false,
    };
    let op = condition.operator;
    let ok = match field_kind(condition.field) {
        FieldKind::Number => op != Operator::Contains && is_number,
        FieldKind::Text => (op == Operator::Eq || op == Operator::Neq) && !is_number,
        FieldKind::List => op == Operator::Contains && !is_number,
    };
    if ok {
        Ok(())
    } else {
        Err(ConfigError::UnsupportedCondition)
    }
}

} // verus!
