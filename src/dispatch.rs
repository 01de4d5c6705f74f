use vstd::prelude::*;
use crate::context::EvaluationContext;
use crate::selection::{eligible, in_cooldown_at, in_firing_order, sort_by_firing_order};
use crate::rule::AutomationRule;
use crate::trigger::trigger_holds;

verus! {

/// Whether a rule fires in a pass over `ctx`: its trigger holds and selection
/// lets it through.
pub open spec fn should_fire(r: AutomationRule, ctx: EvaluationContext) -> bool {
    trigger_holds(r.trigger, ctx) && eligible(r, ctx.now_ms as int)
}

/// `plan` lists, in firing order, exactly the rules that fire over `ctx`.
pub open spec fn is_pass_plan(rules: Seq<AutomationRule>, ctx: EvaluationContext, plan: Seq<usize>) -> bool {
    &&& in_firing_order(rules, plan)
    &&& forall|i: int| 0 <= i < rules.len() ==> (plan.contains(i as usize) <==> should_fire(#[trigger] rules[i], ctx))
}

/// The rules of one pass that fire, in firing order, as indices into `rules`.
pub fn plan_pass(rules: &Vec<AutomationRule>, context: &EvaluationContext) -> (plan: Vec<usize>)
    ensures
        is_pass_plan(rules@, *context, plan@),
{
    let now = context.now_ms;
    let mut kept: Vec<usize> = Vec::new();
    let mut i: usize = 0;
    while i < rules.len()
        invariant
            now == context.now_ms,
            i <= rules.len(),
            forall|k: int| 0 <= k < kept.len() ==> #[trigger] kept@[k] < i,
            forall|x: usize| kept@.contains(x) <==> (x < i && should_fire(#[trigger] rules@[x as int], *context)),
        decreases rules.len() - i,
    {
        let r = &rules[i];
        if r.is_active && !in_cooldown_at(r, now) && crate::trigger::matches(&r.trigger, context) {
            let ghost before = kept@;
            kept.push(i);
            assert forall|x: usize| kept@.contains(x) <==> (x < i + 1 && should_fire(#[trigger] rules@[x as int], *context)) by {
                if kept@.contains(x) && x != i {
                    let k = choose|k: int| 0 <= k < kept@.len() && kept@[k] == x;
                    assert(before[k] == x);
                }
                if before.contains(x) {
                    let k = choose|k: int| 0 <= k < before.len() && before[k] == x;
                    assert(kept@[k] == x);
                }
                if x == i {
                    assert(kept@[before.len() as int] == x);
                }
            }
        }
        i = i + 1;
    }
    let plan = sort_by_firing_order(rules, &kept);
    assert forall|i: int| 0 <= i < rules@.len() implies (plan@.contains(i as usize) <==> should_fire(#[trigger] rules@[i], *context)) by {
        assert(kept@.contains(i as usize) <==> should_fire(rules@[(i as usize) as int], *context));
    }
    plan
}

/// A failure recorded against one rule; it never aborts the pass.
pub enum PassError {
    /// The executor ran the action and it failed.
    Execution { rule_id: String, reason: String },
    /// The action fired but its firing time could not be stored.
    WriteBack { rule_id: String, reason: String },
}

/// What a pass did: the rules whose action ran, in order, and the failures.
pub struct PassResult {
    pub fired_rule_ids: Vec<String>,
    pub errors: Vec<PassError>,
}

/// What the caller of a pass is to do next.
#[derive(Clone, Copy, PartialEq, Eq, Structural, Debug)]
pub enum Command {
    /// Run the action of this rule against the pass's context.
    Execute { rule: usize },
    /// Store `at_ms` as this rule's `last_triggered_at`.
    WriteBack { rule: usize, at_ms: u64 },
    /// The pass is over.
    Finish,
}

/// One dispatch pass, driven by its caller: the caller asks for the next
/// command, performs it against the action executor or the rule store, and
/// reports the outcome. Rules run one at a time, in firing order; a failed
/// action or write-back is recorded and the pass goes on.
pub struct Dispatcher {
    pub rules: Vec<AutomationRule>,
    pub context: EvaluationContext,
    pub plan: Vec<usize>,
    /// Position in `plan` of the rule at hand.
    pub pos: usize,
    /// The rule at hand fired and its write-back is pending.
    pub awaiting_write_back: bool,
    pub fired_rule_ids: Vec<String>,
    pub errors: Vec<PassError>,
}

impl Dispatcher {
    pub open spec fn wf(&self) -> bool {
        &&& is_pass_plan(self.rules@, self.context, self.plan@)
        &&& self.pos <= self.plan.len()
        &&& self.awaiting_write_back ==> self.pos < self.plan.len()
    }

    /// The command the pass is waiting on.
    pub open spec fn pending(&self) -> Command {
        if self.pos >= self.plan.len() {
            Command::Finish
        } else if self.awaiting_write_back {
            Command::WriteBack { rule: self.plan@[self.pos as int], at_ms: self.context.now_ms }
        } else {
            Command::Execute { rule: self.plan@[self.pos as int] }
        }
    }

    /// Starts a pass over the rules fetched for a user, against one snapshot.
    pub fn begin(rules: Vec<AutomationRule>, context: EvaluationContext) -> (d: Dispatcher)
        ensures
            d.wf(),
            d.rules == rules,
            d.context == context,
            d.pos == 0,
            !d.awaiting_write_back,
            d.fired_rule_ids@.len() == 0,
            d.errors@.len() == 0,
    {
        let plan = plan_pass(&rules, &context);
        Dispatcher {
            rules,
            context,
            plan,
            pos: 0,
            awaiting_write_back: false,
            fired_rule_ids: Vec::new(),
            errors: Vec::new(),
        }
    }

    /// The next command. Every `Execute` names a rule of the plan.
    pub fn next_command(&self) -> (c: Command)
        requires
            self.wf(),
        ensures
            c == self.pending(),
            c matches Command::Execute { rule } ==> self.plan@.contains(rule) && rule
                < self.rules.len(),
            c matches Command::WriteBack { rule, at_ms } ==> self.plan@.contains(rule) && at_ms
                == self.context.now_ms,
    {
        if self.pos >= self.plan.len() {
            Command::Finish
        } else {
            let rule = self.plan[self.pos];
            assert(self.plan@[self.pos as int] < self.rules.len());
            if self.awaiting_write_back {
                Command::WriteBack { rule, at_ms: self.context.now_ms }
            } else {
                Command::Execute { rule }
            }
        }
    }

    /// Reports the outcome of the pending `Execute`. On success the rule is
    /// recorded as fired and its write-back becomes pending; on failure the
    /// error is recorded and the pass moves on to the next rule.
    pub fn on_executed(&mut self, outcome: Result<(), String>)
        requires
            old(self).wf(),
            old(self).pending() is Execute,
        ensures
            final(self).wf(),
            final(self).rules == old(self).rules,
            final(self).context == old(self).context,
            final(self).plan == old(self).plan,
            outcome is Ok ==> {
                &&& final(self).pos == old(self).pos
                &&& final(self).awaiting_write_back
                &&& final(self).fired_rule_ids@ == old(self).fired_rule_ids@.push(
                    old(self).rules@[old(self).plan@[old(self).pos as int] as int].id,
                )
                &&& final(self).errors@ == old(self).errors@
            },
            outcome is Err ==> {
                &&& final(self).pos == old(self).pos + 1
                &&& !final(self).awaiting_write_back
                &&& final(self).fired_rule_ids@ == old(self).fired_rule_ids@
                &&& final(self).errors@ == old(self).errors@.push(
                    PassError::Execution {
                        rule_id: old(self).rules@[old(self).plan@[old(self).pos as int] as int].id,
                        reason: outcome->Err_0,
                    },
                )
            },
    {
        let idx = self.plan[self.pos];
        assert(self.plan@[self.pos as int] < self.rules.len());
        let rule_id = self.rules[idx].id.clone();
        match outcome {
            Ok(()) => {
                self.fired_rule_ids.push(rule_id);
                self.awaiting_write_back = true;
            },
            Err(reason) => {
                self.errors.push(PassError::Execution { rule_id, reason });
                self.pos = self.pos + 1;
            },
        }
    }

    /// Reports the outcome of the pending `WriteBack`. A failure is recorded
    /// and not retried; either way the pass moves on to the next rule.
    pub fn on_written_back(&mut self, outcome: Result<(), String>)
        requires
            old(self).wf(),
            old(self).pending() is WriteBack,
        ensures
            final(self).wf(),
            final(self).rules == old(self).rules,
            final(self).context == old(self).context,
            final(self).plan == old(self).plan,
            final(self).pos == old(self).pos + 1,
            !final(self).awaiting_write_back,
            final(self).fired_rule_ids@ == old(self).fired_rule_ids@,
            outcome is Ok ==> final(self).errors@ == old(self).errors@,
            outcome is Err ==> final(self).errors@ == old(self).errors@.push(
                PassError::WriteBack {
                    rule_id: old(self).rules@[old(self).plan@[old(self).pos as int] as int].id,
                    reason: outcome->Err_0,
                },
            ),
    {
        let idx = self.plan[self.pos];
        assert(self.plan@[self.pos as int] < self.rules.len());
        if let Err(reason) = outcome {
            let rule_id = self.rules[idx].id.clone();
            self.errors.push(PassError::WriteBack { rule_id, reason });
        }
        self.pos = self.pos + 1;
        self.awaiting_write_back = false;
    }

    /// Ends the pass and hands back what it did.
    pub fn finish(self) -> (r: PassResult)
        ensures
            r.fired_rule_ids == self.fired_rule_ids,
            r.errors == self.errors,
    {
        PassResult { fired_rule_ids: self.fired_rule_ids, errors: self.errors }
    }
}

/// After a firing whose write-back stored `fired_at`, a later pass that
/// starts inside the rule's cooldown window never asks to run that rule's
/// action, in any of its states.
pub proof fn no_refire_within_cooldown(d: Dispatcher, i: int, fired_at: u64)
    requires
        d.wf(),
        0 <= i < d.rules.len(),
        d.rules@[i].last_triggered_at == Some(fired_at),
        d.rules@[i].cooldown_seconds is Some,
        (d.context.now_ms as int) - (fired_at as int) < (d.rules@[i].cooldown_seconds->Some_0 as int)
            * 1000,
    ensures
        !d.plan@.contains(i as usize),
        d.pending() != (Command::Execute { rule: i as usize }),
{
    assert(!should_fire(d.rules@[i], d.context));
    if d.pending() == (Command::Execute { rule: i as usize }) {
        assert(d.plan@[d.pos as int] == i as usize);
        assert(d.plan@.contains(i as usize));
    }
}

} // verus!
