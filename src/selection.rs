use vstd::prelude::*;
use crate::rule::AutomationRule;

verus! {

/// Whether a rule is still inside its cooldown window at `now` (milliseconds).
pub open spec fn in_cooldown(r: AutomationRule, now: int) -> bool {
    match (r.last_triggered_at, r.cooldown_seconds) {
        (Some(t), Some(c)) => now - (t as int) < (c as int) * 1000,
        _ => false,
    }
}

/// Whether selection lets a rule through at `now`.
pub open spec fn eligible(r: AutomationRule, now: int) -> bool {
    r.is_active && !in_cooldown(r, now)
}

/// Firing order between two rules of one list: higher priority first, then
/// the older definition, then the earlier position.
pub open spec fn fires_before(rules: Seq<AutomationRule>, i: int, j: int) -> bool {
    let a = rules[i];
    let b = rules[j];
    a.priority > b.priority || (a.priority == b.priority && (a.created_at < b.created_at || (
    a.created_at == b.created_at && i < j)))
}

/// `s` lists indices of `rules` in strict firing order.
pub open spec fn in_firing_order(rules: Seq<AutomationRule>, s: Seq<usize>) -> bool {
    &&& forall|k: int| 0 <= k < s.len() ==> #[trigger] s[k] < rules.len()
    &&& forall|a: int, b: int|
        0 <= a < b < s.len() ==> fires_before(rules, #[trigger] s[a] as int, #[trigger] s[b] as int)
}

/// `out` is what selection gives for `rules` at `now`: exactly the eligible
/// rules, in firing order.
pub open spec fn is_selection(rules: Seq<AutomationRule>, now: int, out: Seq<usize>) -> bool {
    &&& in_firing_order(rules, out)
    &&& forall|i: int| 0 <= i < rules.len() ==> (out.contains(i as usize) <==> eligible(#[trigger] rules[i], now))
}

pub fn in_cooldown_at(rule: &AutomationRule, now: u64) -> (r: bool)
    ensures
        r == in_cooldown(*rule, now as int),
{
    match (rule.last_triggered_at, rule.cooldown_seconds) {
        (Some(t), Some(c)) => now < t || ((now - t) as u128) < (c as u128) * 1000,
        _ => false,
    }
}

fn fires_before_exec(rules: &Vec<AutomationRule>, i: usize, j: usize) -> (r: bool)
    requires
        i < rules.len(),
        j < rules.len(),
    ensures
        r == fires_before(rules@, i as int, j as int),
{
    let a = &rules[i];
    let b = &rules[j];
    a.priority > b.priority || (a.priority == b.priority && (a.created_at < b.created_at || (
    a.created_at == b.created_at && i < j)))
}

fn index_listed(v: &Vec<usize>, x: usize) -> (r: bool)
    ensures
        r == v@.contains(x),
{
    let mut i: usize = 0;
    while i < v.len()
        invariant
            i <= v.len(),
            forall|j: int| 0 <= j < i ==> v@[j] != x,
        decreases v.len() - i,
    {
        if v[i] == x {
            return true;
        }
        i = i + 1;
    }
    false
}

/// Orders the candidate indices of `rules` by firing order.
pub fn sort_by_firing_order(rules: &Vec<AutomationRule>, candidates: &Vec<usize>) -> (out: Vec<usize>)
    requires
        forall|k: int| 0 <= k < candidates.len() ==> #[trigger] candidates@[k] < rules.len(),
    ensures
        in_firing_order(rules@, out@),
        forall|x: usize| out@.contains(x) <==> candidates@.contains(x),
{
    let mut out: Vec<usize> = Vec::new();
    let mut n: usize = 0;
    while n < candidates.len()
        invariant
            n <= candidates.len(),
            forall|k: int| 0 <= k < candidates.len() ==> #[trigger] candidates@[k] < rules.len(),
            in_firing_order(rules@, out@),
            forall|x: usize| out@.contains(x) <==> candidates@.subrange(0, n as int).contains(x),
        decreases candidates.len() - n,
    {
        let c = candidates[n];
        if index_listed(&out, c) {
            assert(candidates@.subrange(0, n as int + 1) =~= candidates@.subrange(0, n as int).push(c));
            n = n + 1;
            continue;
        }
        let mut p: usize = 0;
        while p < out.len() && !fires_before_exec(rules, c, out[p])
            invariant
                c < rules.len(),
                !out@.contains(c),
                p <= out.len(),
                in_firing_order(rules@, out@),
                forall|q: int| 0 <= q < p ==> fires_before(rules@, #[trigger] out@[q] as int, c as int),
            decreases out.len() - p,
        {
            assert(out@[p as int] != c);
            p = p + 1;
        }
        let ghost before = out@;
        out.insert(p, c);
        assert(out@ == before.insert(p as int, c));
        assert forall|a: int, b: int|
            0 <= a < b < out@.len() implies fires_before(rules@, #[trigger] out@[a] as int, #[trigger] out@[b] as int) by {
            if b < p {
            } else if a < p && b == p {
            } else if a < p {
                assert(out@[b] == before[b - 1]);
            } else if a == p {
                assert(out@[b] == before[b - 1]);
                assert(fires_before(rules@, c as int, before[p as int] as int));
                if b - 1 > p {
                    assert(fires_before(rules@, before[p as int] as int, before[b - 1] as int));
                }
            } else {
                assert(out@[a] == before[a - 1]);
                assert(out@[b] == before[b - 1]);
            }
        }
        assert forall|x: usize| out@.contains(x) <==> candidates@.subrange(0, n as int + 1).contains(x) by {
            let s0 = candidates@.subrange(0, n as int);
            let s1 = candidates@.subrange(0, n as int + 1);
            assert(s1 =~= s0.push(c));
            if s1.contains(x) {
                let k = choose|k: int| 0 <= k < s1.len() && s1[k] == x;
                if k < n {
                    assert(s0[k] == x);
                }
            }
            if s0.contains(x) {
                let k = choose|k: int| 0 <= k < s0.len() && s0[k] == x;
                assert(s1[k] == x);
            }
            if x == c {
                assert(s1[n as int] == x);
            }
            if out@.contains(x) {
                let k = choose|k: int| 0 <= k < out@.len() && out@[k] == x;
                if k < p {
                    assert(before[k] == x);
                } else if k > p {
                    assert(before[k - 1] == x);
                }
            }
            if before.contains(x) {
                let k = choose|k: int| 0 <= k < before.len() && before[k] == x;
                if k < p {
                    assert(out@[k] == x);
                } else {
                    assert(out@[k + 1] == x);
                }
            }
            if x == c {
                assert(out@[p as int] == c);
            }
        }
        n = n + 1;
    }
    assert(candidates@.subrange(0, candidates.len() as int) =~= candidates@);
    out
}

/// Cooldown and priority selection: drops inactive rules and rules inside their cooldown window,
/// and orders the rest by priority (descending), then creation time
/// (ascending), then position. Returns indices into `candidate_rules`.
pub fn select(candidate_rules: &Vec<AutomationRule>, now_ms: u64) -> (out: Vec<usize>)
    ensures
        is_selection(candidate_rules@, now_ms as int, out@),
{
    let mut kept: Vec<usize> = Vec::new();
    let mut i: usize = 0;
    while i < candidate_rules.len()
        invariant
            i <= candidate_rules.len(),
            forall|k: int| 0 <= k < kept.len() ==> #[trigger] kept@[k] < i,
            forall|x: usize|
                kept@.contains(x) <==> (x < i && eligible(#[trigger] candidate_rules@[x as int], now_ms as int)),
        decreases candidate_rules.len() - i,
    {
        let r = &candidate_rules[i];
        if r.is_active && !in_cooldown_at(r, now_ms) {
            let ghost before = kept@;
            kept.push(i);
            assert forall|x: usize| kept@.contains(x) <==> (x < i + 1 && eligible(#[trigger] candidate_rules@[x as int], now_ms as int)) by {
                if kept@.contains(x) && x != i {
                    let k = choose|k: int| 0 <= k < kept@.len() && kept@[k] == x;
                    assert(before[k] == x);
                }
                if before.contains(x) {
                    let k = choose|k: int| 0 <= k < before.len() && before[k] == x;
                    assert(kept@[k] == x);
                }
                if x == i {
                    assert(kept@[before.len() as int] == x);
                }
            }
        }
        i = i + 1;
    }
    let out = sort_by_firing_order(candidate_rules, &kept);
    assert forall|i: int| 0 <= i < candidate_rules@.len() implies (out@.contains(i as usize) <==> eligible(#[trigger] candidate_rules@[i], now_ms as int)) by {
        assert(kept@.contains(i as usize) <==> eligible(candidate_rules@[(i as usize) as int], now_ms as int));
    }
    out
}

/// Two index lists in strict firing order with the same members are equal.
pub proof fn lemma_firing_order_unique(rules: Seq<AutomationRule>, s1: Seq<usize>, s2: Seq<usize>)
    requires
        in_firing_order(rules, s1),
        in_firing_order(rules, s2),
        forall|x: usize| s1.contains(x) <==> s2.contains(x),
    ensures
        s1 == s2,
    decreases s1.len(),
{
    if s1.len() == 0 {
        if s2.len() > 0 {
            assert(s2.contains(s2[0]));
        }
        assert(s1 =~= s2);
    } else {
        assert(s1.contains(s1[0]));
        assert(s2.len() > 0);
        if s1[0] != s2[0] {
            assert(s2.contains(s1[0]));
            let k = choose|k: int| 0 <= k < s2.len() && s2[k] == s1[0];
            assert(s1.contains(s2[0]));
            let m = choose|m: int| 0 <= m < s1.len() && s1[m] == s2[0];
            assert(fires_before(rules, s2[0] as int, s2[k] as int));
            assert(fires_before(rules, s1[0] as int, s1[m] as int));
        }
        let t1 = s1.drop_first();
        let t2 = s2.drop_first();
        assert forall|x: usize| t1.contains(x) <==> t2.contains(x) by {
            if t1.contains(x) {
                let k = choose|k: int| 0 <= k < t1.len() && t1[k] == x;
                assert(s1[k + 1] == x);
                assert(fires_before(rules, s1[0] as int, s1[k + 1] as int));
                assert(s2.contains(x));
                let m = choose|m: int| 0 <= m < s2.len() && s2[m] == x;
                assert(m != 0);
                assert(t2[m - 1] == x);
            }
            if t2.contains(x) {
                let k = choose|k: int| 0 <= k < t2.len() && t2[k] == x;
                assert(s2[k + 1] == x);
                assert(fires_before(rules, s2[0] as int, s2[k + 1] as int));
                assert(s1.contains(x));
                let m = choose|m: int| 0 <= m < s1.len() && s1[m] == x;
                assert(m != 0);
                assert(t1[m - 1] == x);
            }
        }
        assert(in_firing_order(rules, t1)) by {
            assert forall|a: int, b: int| 0 <= a < b < t1.len() implies fires_before(rules, #[trigger] t1[a] as int, #[trigger] t1[b] as int) by {
                assert(t1[a] == s1[a + 1] && t1[b] == s1[b + 1]);
            }
        }
        assert(in_firing_order(rules, t2)) by {
            assert forall|a: int, b: int| 0 <= a < b < t2.len() implies fires_before(rules, #[trigger] t2[a] as int, #[trigger] t2[b] as int) by {
                assert(t2[a] == s2[a + 1] && t2[b] == s2[b + 1]);
            }
        }
        lemma_firing_order_unique(rules, t1, t2);
        assert(s1 =~= s2) by {
            assert forall|i: int| 0 <= i < s1.len() implies s1[i] == s2[i] by {
                if i > 0 {
                    assert(s1[i] == t1[i - 1]);
                    assert(s2[i] == t2[i - 1]);
                }
            }
        }
    }
}

/// Selection never lets an inactive rule through.
pub proof fn inactive_rules_never_selected(rules: Seq<AutomationRule>, now: int, out: Seq<usize>)
    requires
        is_selection(rules, now, out),
    ensures
        forall|i: int| 0 <= i < rules.len() && !(#[trigger] rules[i]).is_active ==> !out.contains(i as usize),
{
}

/// Selection is deterministic: two selections over the same rules
/// at the same time are identical, element for element.
pub proof fn select_is_deterministic(rules: Seq<AutomationRule>, now: int, a: Seq<usize>, b: Seq<usize>)
    requires
        is_selection(rules, now, a),
        is_selection(rules, now, b),
    ensures
        a == b,
{
    assert forall|x: usize| a.contains(x) <==> b.contains(x) by {
        if a.contains(x) {
            let k = choose|k: int| 0 <= k < a.len() && a[k] == x;
            assert(a[k] < rules.len());
            assert(eligible(rules[x as int], now));
        }
        if b.contains(x) {
            let k = choose|k: int| 0 <= k < b.len() && b[k] == x;
            assert(b[k] < rules.len());
            assert(eligible(rules[x as int], now));
        }
    }
    lemma_firing_order_unique(rules, a, b);
}

} // verus!
