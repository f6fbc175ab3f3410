//! Summary statistics of a traced session: the events of each kind, the
//! number of events per severity and per event name, and the total latency.
use vstd::prelude::*;
use crate::text::clone_opt_string;
use crate::telemetry::{TelemetryLogEntry, EntryModel, entries_view};

verus! {

/// The entries of `s` whose event is `ev`, in order.
pub open spec fn with_event(s: Seq<EntryModel>, ev: Seq<char>) -> Seq<EntryModel>
    decreases s.len(),
{
    if s.len() == 0 {
        s
    } else {
        let rest = with_event(s.drop_last(), ev);
        if s.last().event == ev {
            rest.push(s.last())
        } else {
            rest
        }
    }
}

proof fn lemma_with_event_step(s: Seq<EntryModel>, ev: Seq<char>, i: int)
    requires
        0 <= i < s.len(),
    ensures
        with_event(s.take(i + 1), ev) == if s[i].event == ev {
            with_event(s.take(i), ev).push(s[i])
        } else {
            with_event(s.take(i), ev)
        },
{
    assert(s.take(i + 1).drop_last() =~= s.take(i));
    assert(s.take(i + 1).last() == s[i]);
}

/// A completed pipeline stage.
pub struct StageCompletion {
    pub stage: Option<String>,
    pub target: Option<String>,
    pub latency_ms: Option<u32>,
}

/// A policy decision.
pub struct PolicyEvaluation {
    pub stage: Option<String>,
    pub allowed: Option<bool>,
    pub reason: Option<String>,
}

/// A routing decision.
pub struct RoutingDecision {
    pub stage: Option<String>,
    pub target: Option<String>,
    pub reason: Option<String>,
}

/// The content of a [`StageCompletion`].
pub struct StageCompletionModel {
    pub stage: Option<Seq<char>>,
    pub target: Option<Seq<char>>,
    pub latency_ms: Option<u32>,
}

/// The content of a [`PolicyEvaluation`].
pub struct PolicyEvaluationModel {
    pub stage: Option<Seq<char>>,
    pub allowed: Option<bool>,
    pub reason: Option<Seq<char>>,
}

/// The content of a [`RoutingDecision`].
pub struct RoutingDecisionModel {
    pub stage: Option<Seq<char>>,
    pub target: Option<Seq<char>>,
    pub reason: Option<Seq<char>>,
}

impl View for StageCompletion {
    type V = StageCompletionModel;

    open spec fn view(&self) -> StageCompletionModel {
        StageCompletionModel {
            stage: self.stage.deep_view(),
            target: self.target.deep_view(),
            latency_ms: self.latency_ms,
        }
    }
}

impl View for PolicyEvaluation {
    type V = PolicyEvaluationModel;

    open spec fn view(&self) -> PolicyEvaluationModel {
        PolicyEvaluationModel {
            stage: self.stage.deep_view(),
            allowed: self.allowed,
            reason: self.reason.deep_view(),
        }
    }
}

impl View for RoutingDecision {
    type V = RoutingDecisionModel;

    open spec fn view(&self) -> RoutingDecisionModel {
        RoutingDecisionModel {
            stage: self.stage.deep_view(),
            target: self.target.deep_view(),
            reason: self.reason.deep_view(),
        }
    }
}

/// The stage-completion record of an entry.
pub open spec fn stage_completion_of(e: EntryModel) -> StageCompletionModel {
    StageCompletionModel { stage: e.stage, target: e.target, latency_ms: e.latency_ms }
}

/// The policy-evaluation record of an entry.
pub open spec fn policy_evaluation_of(e: EntryModel) -> PolicyEvaluationModel {
    PolicyEvaluationModel { stage: e.stage, allowed: e.allowed, reason: e.reason }
}

/// The routing-decision record of an entry.
pub open spec fn routing_decision_of(e: EntryModel) -> RoutingDecisionModel {
    RoutingDecisionModel { stage: e.stage, target: e.target, reason: e.reason }
}

/// The contents of stage-completion records.
pub open spec fn stage_completions_view(v: Seq<StageCompletion>) -> Seq<StageCompletionModel> {
    Seq::new(v.len(), |i: int| v[i]@)
}

/// The contents of policy-evaluation records.
pub open spec fn policy_evaluations_view(v: Seq<PolicyEvaluation>) -> Seq<PolicyEvaluationModel> {
    Seq::new(v.len(), |i: int| v[i]@)
}

/// The contents of routing-decision records.
pub open spec fn routing_decisions_view(v: Seq<RoutingDecision>) -> Seq<RoutingDecisionModel> {
    Seq::new(v.len(), |i: int| v[i]@)
}

/// The stage_complete records of `s`, in order.
pub open spec fn stage_completions_of(s: Seq<EntryModel>) -> Seq<StageCompletionModel> {
    with_event(s, "stage_complete"@).map_values(|e: EntryModel| stage_completion_of(e))
}

/// The records of the `stage_complete` events, in order.
pub fn stage_completions(entries: &Vec<TelemetryLogEntry>) -> (r: Vec<StageCompletion>)
    ensures
        stage_completions_view(r@) == stage_completions_of(entries_view(entries@)),
{
    let ev = String::from_str("stage_complete");
    let ghost es = entries_view(entries@);
    let mut out: Vec<StageCompletion> = Vec::new();
    for i in 0..entries.len()
        invariant
            es == entries_view(entries@),
            ev@ == "stage_complete"@,
            stage_completions_view(out@) == stage_completions_of(es.take(i as int)),
    {
        proof {
            lemma_with_event_step(es, ev@, i as int);
        }
        let e = &entries[i];
        if e.event == ev {
            out.push(
                StageCompletion {
                    stage: clone_opt_string(&e.stage),
                    target: clone_opt_string(&e.target),
                    latency_ms: e.latency_ms,
                },
            );
        }
        proof {
            let prev = with_event(es.take(i as int), ev@);
            let f = |e: EntryModel| stage_completion_of(e);
            assert(prev.push(es[i as int]).map_values(f) =~= prev.map_values(f).push(f(es[i as int])));
            assert(stage_completions_view(out@) =~= stage_completions_of(es.take(i + 1)));
        }
    }
    assert(es.take(entries@.len() as int) =~= es);
    out
}

/// The policy_evaluation records of `s`, in order.
pub open spec fn policy_evaluations_of(s: Seq<EntryModel>) -> Seq<PolicyEvaluationModel> {
    with_event(s, "policy_evaluation"@).map_values(|e: EntryModel| policy_evaluation_of(e))
}

/// The records of the `policy_evaluation` events, in order.
pub fn policy_evaluations(entries: &Vec<TelemetryLogEntry>) -> (r: Vec<PolicyEvaluation>)
    ensures
        policy_evaluations_view(r@) == policy_evaluations_of(entries_view(entries@)),
{
    let ev = String::from_str("policy_evaluation");
    let ghost es = entries_view(entries@);
    let mut out: Vec<PolicyEvaluation> = Vec::new();
    for i in 0..entries.len()
        invariant
            es == entries_view(entries@),
            ev@ == "policy_evaluation"@,
            policy_evaluations_view(out@) == policy_evaluations_of(es.take(i as int)),
    {
        proof {
            lemma_with_event_step(es, ev@, i as int);
        }
        let e = &entries[i];
        if e.event == ev {
            out.push(
                PolicyEvaluation {
                    stage: clone_opt_string(&e.stage),
                    allowed: e.allowed,
                    reason: clone_opt_string(&e.reason),
                },
            );
        }
        proof {
            let prev = with_event(es.take(i as int), ev@);
            let f = |e: EntryModel| policy_evaluation_of(e);
            assert(prev.push(es[i as int]).map_values(f) =~= prev.map_values(f).push(f(es[i as int])));
            assert(policy_evaluations_view(out@) =~= policy_evaluations_of(es.take(i + 1)));
        }
    }
    assert(es.take(entries@.len() as int) =~= es);
    out
}

/// The routing_decision records of `s`, in order.
pub open spec fn routing_decisions_of(s: Seq<EntryModel>) -> Seq<RoutingDecisionModel> {
    with_event(s, "routing_decision"@).map_values(|e: EntryModel| routing_decision_of(e))
}

/// The records of the `routing_decision` events, in order.
pub fn routing_decisions(entries: &Vec<TelemetryLogEntry>) -> (r: Vec<RoutingDecision>)
    ensures
        routing_decisions_view(r@) == routing_decisions_of(entries_view(entries@)),
{
    let ev = String::from_str("routing_decision");
    let ghost es = entries_view(entries@);
    let mut out: Vec<RoutingDecision> = Vec::new();
    for i in 0..entries.len()
        invariant
            es == entries_view(entries@),
            ev@ == "routing_decision"@,
            routing_decisions_view(out@) == routing_decisions_of(es.take(i as int)),
    {
        proof {
            lemma_with_event_step(es, ev@, i as int);
        }
        let e = &entries[i];
        if e.event == ev {
            out.push(
                RoutingDecision {
                    stage: clone_opt_string(&e.stage),
                    target: clone_opt_string(&e.target),
                    reason: clone_opt_string(&e.reason),
                },
            );
        }
        proof {
            let prev = with_event(es.take(i as int), ev@);
            let f = |e: EntryModel| routing_decision_of(e);
            assert(prev.push(es[i as int]).map_values(f) =~= prev.map_values(f).push(f(es[i as int])));
            assert(routing_decisions_view(out@) =~= routing_decisions_of(es.take(i + 1)));
        }
    }
    assert(es.take(entries@.len() as int) =~= es);
    out
}


/// The number of policy evaluations that allowed the request.
pub open spec fn allowed_count(s: Seq<PolicyEvaluationModel>) -> nat
    decreases s.len(),
{
    if s.len() == 0 {
        0
    } else {
        allowed_count(s.drop_last()) + if s.last().allowed == Some(true) {
            1nat
        } else {
            0nat
        }
    }
}

/// How many policy evaluations allowed the request and how many did not.
#[derive(Debug, Clone, Copy, PartialEq, Eq, Structural)]
pub struct PolicyCounts {
    pub allowed: usize,
    pub denied: usize,
}

proof fn lemma_allowed_count_bounded(s: Seq<PolicyEvaluationModel>)
    ensures
        allowed_count(s) <= s.len(),
    decreases s.len(),
{
    if s.len() > 0 {
        lemma_allowed_count_bounded(s.drop_last());
    }
}

/// Counts the evaluations that allowed (`allowed` is `Some(true)`) and the
/// rest, which are counted as denied.
pub fn policy_counts(evals: &Vec<PolicyEvaluation>) -> (r: PolicyCounts)
    ensures
        r.allowed == allowed_count(policy_evaluations_view(evals@)),
        r.denied == evals@.len() - allowed_count(policy_evaluations_view(evals@)),
{
    let ghost vs = policy_evaluations_view(evals@);
    let mut allowed: usize = 0;
    for i in 0..evals.len()
        invariant
            vs == policy_evaluations_view(evals@),
            allowed == allowed_count(vs.take(i as int)),
            allowed <= i,
    {
        assert(vs.take(i + 1).drop_last() =~= vs.take(i as int));
        assert(vs.take(i + 1).last() == evals@[i as int]@);
        if evals[i].allowed == Some(true) {
            allowed = allowed + 1;
        }
    }
    assert(vs.take(evals@.len() as int) =~= vs);
    PolicyCounts { allowed, denied: evals.len() - allowed }
}

/// Law: every policy evaluation is counted once, as allowed or as denied.
pub proof fn lemma_policy_counts_partition(s: Seq<PolicyEvaluationModel>)
    ensures
        allowed_count(s) + (s.len() - allowed_count(s)) == s.len(),
        allowed_count(s) <= s.len(),
{
    lemma_allowed_count_bounded(s);
}

/// The sum of the latencies that the entries carry.
pub open spec fn latency_total(s: Seq<EntryModel>) -> nat
    decreases s.len(),
{
    if s.len() == 0 {
        0
    } else {
        latency_total(s.drop_last()) + match s.last().latency_ms {
            Some(l) => l as nat,
            None => 0nat,
        }
    }
}

proof fn lemma_latency_total_monotone(s: Seq<EntryModel>, i: int, j: int)
    requires
        0 <= i <= j <= s.len(),
    ensures
        latency_total(s.take(i)) <= latency_total(s.take(j)),
    decreases j - i,
{
    if i < j {
        lemma_latency_total_monotone(s, i, j - 1);
        assert(s.take(j).drop_last() =~= s.take(j - 1));
    }
}

/// The total latency in milliseconds, or `None` where it does not fit in `u32`
/// (where summing the `u32` latencies overflows).
pub fn total_latency_ms(entries: &Vec<TelemetryLogEntry>) -> (r: Option<u32>)
    ensures
        match r {
            Some(t) => t == latency_total(entries_view(entries@)),
            None => latency_total(entries_view(entries@)) > u32::MAX,
        },
{
    let ghost es = entries_view(entries@);
    let n = entries.len();
    let mut total: u32 = 0;
    for i in 0..n
        invariant
            n == entries@.len(),
            es == entries_view(entries@),
            total == latency_total(es.take(i as int)),
    {
        assert(es.take(i + 1).drop_last() =~= es.take(i as int));
        assert(es.take(i + 1).last() == entries@[i as int]@);
        match entries[i].latency_ms {
            Some(l) => {
                match total.checked_add(l) {
                    Some(t) => {
                        total = t;
                    },
                    None => {
                        proof {
                            lemma_latency_total_monotone(es, i + 1, n as int);
                            assert(es.take(n as int) =~= es);
                        }
                        return None;
                    },
                }
            },
            None => {},
        }
    }
    assert(es.take(n as int) =~= es);
    Some(total)
}

/// How often `k` occurs in `s`.
pub open spec fn occurrences(s: Seq<Seq<char>>, k: Seq<char>) -> nat
    decreases s.len(),
{
    if s.len() == 0 {
        0
    } else {
        occurrences(s.drop_last(), k) + if s.last() == k {
            1nat
        } else {
            0nat
        }
    }
}

/// Whether `t` has an entry for `k`.
pub open spec fn has_key(t: Seq<(Seq<char>, nat)>, k: Seq<char>) -> bool {
    exists|j: int| 0 <= j < t.len() && #[trigger] t[j].0 == k
}

/// The count of `k` in `t`.
pub open spec fn count_for(t: Seq<(Seq<char>, nat)>, k: Seq<char>) -> nat {
    if has_key(t, k) {
        t[choose|j: int| 0 <= j < t.len() && #[trigger] t[j].0 == k].1
    } else {
        0
    }
}

/// No key appears twice in `t`.
pub open spec fn distinct_keys(t: Seq<(Seq<char>, nat)>) -> bool {
    forall|i: int, j: int| 0 <= i < j < t.len() ==> #[trigger] t[i].0 != #[trigger] t[j].0
}

/// `t` with one more occurrence of `k`: its count raised, or `k` added at the end with count 1.
pub open spec fn tally_step(t: Seq<(Seq<char>, nat)>, k: Seq<char>) -> Seq<(Seq<char>, nat)> {
    if has_key(t, k) {
        let j = choose|j: int| 0 <= j < t.len() && #[trigger] t[j].0 == k;
        t.update(j, (k, t[j].1 + 1))
    } else {
        t.push((k, 1nat))
    }
}

/// The distinct values of `s` in order of first occurrence, each with how often it occurs.
pub open spec fn tally(s: Seq<Seq<char>>) -> Seq<(Seq<char>, nat)>
    decreases s.len(),
{
    if s.len() == 0 {
        Seq::empty()
    } else {
        tally_step(tally(s.drop_last()), s.last())
    }
}

proof fn lemma_count_for_at(t: Seq<(Seq<char>, nat)>, j: int)
    requires
        distinct_keys(t),
        0 <= j < t.len(),
    ensures
        has_key(t, t[j].0),
        count_for(t, t[j].0) == t[j].1,
{
    let k = t[j].0;
    assert(has_key(t, k));
    let c = choose|c: int| 0 <= c < t.len() && #[trigger] t[c].0 == k;
    if c != j {
        if c < j {
            assert(t[c].0 != t[j].0);
        } else {
            assert(t[j].0 != t[c].0);
        }
    }
}

/// Law: the tally holds each value of `s` once, with the number of its
/// occurrences, and nothing else; its counts add up to at most the length of `s`.
pub proof fn lemma_tally_counts(s: Seq<Seq<char>>)
    ensures
        distinct_keys(tally(s)),
        forall|k: Seq<char>| #[trigger] has_key(tally(s), k) <==> occurrences(s, k) > 0,
        forall|k: Seq<char>| #[trigger] count_for(tally(s), k) == occurrences(s, k),
        forall|j: int| 0 <= j < tally(s).len() ==> #[trigger] tally(s)[j].1 <= s.len(),
    decreases s.len(),
{
    if s.len() > 0 {
        let d = s.drop_last();
        let k = s.last();
        lemma_tally_counts(d);
        let t = tally(d);
        let t2 = tally(s);
        if has_key(t, k) {
            let j = choose|j: int| 0 <= j < t.len() && #[trigger] t[j].0 == k;
            assert(t2 == t.update(j, (k, t[j].1 + 1)));
            lemma_count_for_at(t, j);
            assert(distinct_keys(t2)) by {
                assert forall|a: int, b: int| 0 <= a < b < t2.len() implies #[trigger] t2[a].0
                    != #[trigger] t2[b].0 by {
                    assert(t2[a].0 == t[a].0);
                    assert(t2[b].0 == t[b].0);
                }
            }
            assert forall|q: Seq<char>| #[trigger] has_key(t2, q) <==> has_key(t, q) by {
                if has_key(t, q) {
                    let a = choose|a: int| 0 <= a < t.len() && #[trigger] t[a].0 == q;
                    assert(t2[a].0 == q);
                }
                if has_key(t2, q) {
                    let a = choose|a: int| 0 <= a < t2.len() && #[trigger] t2[a].0 == q;
                    assert(t[a].0 == q);
                }
            }
            assert forall|q: Seq<char>| #[trigger] count_for(t2, q) == occurrences(s, q) by {
                if has_key(t2, q) {
                    let a = choose|a: int| 0 <= a < t2.len() && #[trigger] t2[a].0 == q;
                    lemma_count_for_at(t2, a);
                    lemma_count_for_at(t, a);
                    if a != j {
                        assert(t[a].0 != t[j].0 || a == j) by {
                            if a < j {
                                assert(t[a].0 != t[j].0);
                            } else {
                                assert(t[j].0 != t[a].0);
                            }
                        }
                    }
                } else {
                    assert(!has_key(t, q));
                    assert(q != k);
                }
            }
            assert forall|q: Seq<char>| #[trigger] has_key(t2, q) <==> occurrences(s, q) > 0 by {
                if q == k {
                    assert(has_key(t2, q));
                }
            }
        } else {
            assert(t2 == t.push((k, 1nat)));
            assert(occurrences(d, k) == 0);
            assert(distinct_keys(t2)) by {
                assert forall|a: int, b: int| 0 <= a < b < t2.len() implies #[trigger] t2[a].0
                    != #[trigger] t2[b].0 by {
                    if b == t.len() {
                        if t2[a].0 == k {
                            assert(t[a].0 == k);
                            assert(has_key(t, k));
                        }
                    } else {
                        assert(t2[a].0 == t[a].0);
                        assert(t2[b].0 == t[b].0);
                    }
                }
            }
            assert forall|q: Seq<char>| #[trigger] has_key(t2, q) <==> (has_key(t, q) || q == k) by {
                if has_key(t, q) {
                    let a = choose|a: int| 0 <= a < t.len() && #[trigger] t[a].0 == q;
                    assert(t2[a].0 == q);
                }
                if q == k {
                    assert(t2[t.len() as int].0 == q);
                }
                if has_key(t2, q) && q != k {
                    let a = choose|a: int| 0 <= a < t2.len() && #[trigger] t2[a].0 == q;
                    assert(t[a].0 == q);
                }
            }
            assert forall|q: Seq<char>| #[trigger] count_for(t2, q) == occurrences(s, q) by {
                if has_key(t2, q) {
                    let a = choose|a: int| 0 <= a < t2.len() && #[trigger] t2[a].0 == q;
                    lemma_count_for_at(t2, a);
                    if a < t.len() {
                        lemma_count_for_at(t, a);
                        assert(q != k);
                    }
                }
            }
            assert forall|q: Seq<char>| #[trigger] has_key(t2, q) <==> occurrences(s, q) > 0 by {
                assert(has_key(t2, q) <==> (has_key(t, q) || q == k));
            }
        }
        assert forall|j: int| 0 <= j < t2.len() implies #[trigger] t2[j].1 <= s.len() by {
            if j < t.len() {
                assert(t[j].1 <= d.len());
            }
        }
    }
}

/// The counts of a tally added up.
pub open spec fn counts_total(t: Seq<(Seq<char>, nat)>) -> nat
    decreases t.len(),
{
    if t.len() == 0 {
        0
    } else {
        counts_total(t.drop_last()) + t.last().1
    }
}

proof fn lemma_counts_total_bump(t: Seq<(Seq<char>, nat)>, j: int, k: Seq<char>)
    requires
        0 <= j < t.len(),
    ensures
        counts_total(t.update(j, (k, t[j].1 + 1))) == counts_total(t) + 1,
    decreases t.len(),
{
    let u = t.update(j, (k, t[j].1 + 1));
    if j < t.len() - 1 {
        lemma_counts_total_bump(t.drop_last(), j, k);
        assert(u.drop_last() =~= t.drop_last().update(j, (k, t[j].1 + 1)));
    } else {
        assert(u.drop_last() =~= t.drop_last());
    }
}

/// Law: every value of `s` is counted once: the counts of its tally add up
/// to the length of `s`.
pub proof fn lemma_tally_total(s: Seq<Seq<char>>)
    ensures
        counts_total(tally(s)) == s.len(),
    decreases s.len(),
{
    if s.len() > 0 {
        let d = s.drop_last();
        let k = s.last();
        lemma_tally_total(d);
        lemma_tally_counts(d);
        let t = tally(d);
        assert(tally(s) == tally_step(t, k));
        if has_key(t, k) {
            let j = choose|j: int| 0 <= j < t.len() && #[trigger] t[j].0 == k;
            assert(tally(s) == t.update(j, (k, t[j].1 + 1)));
            lemma_counts_total_bump(t, j, k);
        } else {
            assert(tally(s) == t.push((k, 1nat)));
            assert(t.push((k, 1nat)).drop_last() =~= t);
        }
    }
}

/// A value and how often it occurs.
pub struct KeyCount {
    pub key: String,
    pub count: usize,
}

/// The contents of a tally.
pub open spec fn key_counts_view(v: Seq<KeyCount>) -> Seq<(Seq<char>, nat)> {
    Seq::new(v.len(), |i: int| (v[i].key@, v[i].count as nat))
}

fn tally_add(out: &mut Vec<KeyCount>, key: &String)
    requires
        distinct_keys(key_counts_view(old(out)@)),
        forall|j: int| 0 <= j < old(out)@.len() ==> #[trigger] old(out)@[j].count < usize::MAX,
    ensures
        key_counts_view(final(out)@) == tally_step(key_counts_view(old(out)@), key@),
{
    let ghost t = key_counts_view(out@);
    let mut j: usize = 0;
    while j < out.len()
        invariant
            t == key_counts_view(out@),
            t == key_counts_view(old(out)@),
            distinct_keys(t),
            forall|q: int| 0 <= q < out@.len() ==> #[trigger] out@[q].count < usize::MAX,
            j <= out@.len(),
            forall|q: int| 0 <= q < j ==> out@[q].key@ != key@,
        decreases out@.len() - j,
    {
        if out[j].key == *key {
            assert(t[j as int].0 == key@);
            assert(has_key(t, key@));
            let ghost c = choose|q: int| 0 <= q < t.len() && #[trigger] t[q].0 == key@;
            assert(tally_step(t, key@) == t.update(c, (key@, t[c].1 + 1)));
            proof {
                if c != j as int {
                    if c < j as int {
                        assert(t[c].0 != t[j as int].0);
                    } else {
                        assert(t[j as int].0 != t[c].0);
                    }
                }
            }
            let kc = KeyCount { key: key.clone(), count: out[j].count + 1 };
            out.set(j, kc);
            assert(key_counts_view(out@) =~= t.update(j as int, (key@, t[j as int].1 + 1)));
            return;
        }
        j = j + 1;
    }
    assert(!has_key(t, key@));
    out.push(KeyCount { key: key.clone(), count: 1 });
    assert(key_counts_view(out@) =~= t.push((key@, 1nat)));
}

/// The severities of the entries, in order.
pub open spec fn severities(s: Seq<EntryModel>) -> Seq<Seq<char>> {
    Seq::new(s.len(), |i: int| s[i].severity)
}

/// The event names of the entries, in order.
pub open spec fn event_names(s: Seq<EntryModel>) -> Seq<Seq<char>> {
    Seq::new(s.len(), |i: int| s[i].event)
}

/// The number of entries per severity.
pub fn severity_counts(entries: &Vec<TelemetryLogEntry>) -> (r: Vec<KeyCount>)
    ensures
        key_counts_view(r@) == tally(severities(entries_view(entries@))),
{
    let ghost ks = severities(entries_view(entries@));
    let mut out: Vec<KeyCount> = Vec::new();
    let n = entries.len();
    for i in 0..n
        invariant
            n == entries@.len(),
            ks == severities(entries_view(entries@)),
            key_counts_view(out@) == tally(ks.take(i as int)),
    {
        proof {
            lemma_tally_counts(ks.take(i as int));
            assert forall|j: int| 0 <= j < out@.len() implies #[trigger] out@[j].count < usize::MAX by {
                assert(key_counts_view(out@)[j].1 == out@[j].count);
            }
        }
        assert(ks.take(i + 1).drop_last() =~= ks.take(i as int));
        tally_add(&mut out, &entries[i].severity);
    }
    assert(ks.take(n as int) =~= ks);
    out
}

/// The number of entries per event name.
pub fn event_counts(entries: &Vec<TelemetryLogEntry>) -> (r: Vec<KeyCount>)
    ensures
        key_counts_view(r@) == tally(event_names(entries_view(entries@))),
{
    let ghost ks = event_names(entries_view(entries@));
    let mut out: Vec<KeyCount> = Vec::new();
    let n = entries.len();
    for i in 0..n
        invariant
            n == entries@.len(),
            ks == event_names(entries_view(entries@)),
            key_counts_view(out@) == tally(ks.take(i as int)),
    {
        proof {
            lemma_tally_counts(ks.take(i as int));
            assert forall|j: int| 0 <= j < out@.len() implies #[trigger] out@[j].count < usize::MAX by {
                assert(key_counts_view(out@)[j].1 == out@[j].count);
            }
        }
        assert(ks.take(i + 1).drop_last() =~= ks.take(i as int));
        tally_add(&mut out, &entries[i].event);
    }
    assert(ks.take(n as int) =~= ks);
    out
}


/// What is exported of a traced session: its statistics, the records of each
/// kind of event, and (by the caller, from the entries) the events themselves.
pub struct TraceSummary {
    pub total_events: usize,
    pub total_latency_ms: u32,
    pub first_timestamp: Option<u64>,
    pub last_timestamp: Option<u64>,
    pub severity_counts: Vec<KeyCount>,
    pub event_counts: Vec<KeyCount>,
    pub stage_completions: Vec<StageCompletion>,
    pub policy_evaluations: Vec<PolicyEvaluation>,
    pub routing_decisions: Vec<RoutingDecision>,
}

/// The timestamp of the first entry, if there is one.
pub open spec fn first_timestamp_of(s: Seq<EntryModel>) -> Option<u64> {
    if s.len() == 0 {
        None
    } else {
        Some(s[0].timestamp)
    }
}

/// The timestamp of the last entry, if there is one.
pub open spec fn last_timestamp_of(s: Seq<EntryModel>) -> Option<u64> {
    if s.len() == 0 {
        None
    } else {
        Some(s.last().timestamp)
    }
}

/// Summarizes a session; the latencies must add up to a `u32`, as summing
/// them in `u32` requires.
pub fn trace_summary(entries: &Vec<TelemetryLogEntry>) -> (r: TraceSummary)
    requires
        latency_total(entries_view(entries@)) <= u32::MAX,
    ensures
        r.total_events == entries@.len(),
        r.total_latency_ms == latency_total(entries_view(entries@)),
        r.first_timestamp == first_timestamp_of(entries_view(entries@)),
        r.last_timestamp == last_timestamp_of(entries_view(entries@)),
        key_counts_view(r.severity_counts@) == tally(severities(entries_view(entries@))),
        key_counts_view(r.event_counts@) == tally(event_names(entries_view(entries@))),
        stage_completions_view(r.stage_completions@) == stage_completions_of(
            entries_view(entries@),
        ),
        policy_evaluations_view(r.policy_evaluations@) == policy_evaluations_of(
            entries_view(entries@),
        ),
        routing_decisions_view(r.routing_decisions@) == routing_decisions_of(
            entries_view(entries@),
        ),
{
    let total = match total_latency_ms(entries) {
        Some(t) => t,
        None => 0,
    };
    let n = entries.len();
    let first_timestamp = if n == 0 {
        None
    } else {
        Some(entries[0].timestamp)
    };
    let last_timestamp = if n == 0 {
        None
    } else {
        Some(entries[n - 1].timestamp)
    };
    TraceSummary {
        total_events: n,
        total_latency_ms: total,
        first_timestamp,
        last_timestamp,
        severity_counts: severity_counts(entries),
        event_counts: event_counts(entries),
        stage_completions: stage_completions(entries),
        policy_evaluations: policy_evaluations(entries),
        routing_decisions: routing_decisions(entries),
    }
}

proof fn lemma_with_event_is_filter(s: Seq<EntryModel>, ev: Seq<char>)
    ensures
        with_event(s, ev) == s.filter(|e: EntryModel| e.event == ev),
    decreases s.len(),
{
    reveal(Seq::filter);
    if s.len() > 0 {
        lemma_with_event_is_filter(s.drop_last(), ev);
    }
}

/// Law: the policy-evaluation records are, in order, the stage, verdict and
/// reason of each `policy_evaluation` entry, one record per such entry.
pub proof fn lemma_policy_evaluations_fields(s: Seq<EntryModel>)
    ensures
        policy_evaluations_of(s).len() == s.filter(
            |e: EntryModel| e.event == "policy_evaluation"@,
        ).len(),
        forall|k: int|
            0 <= k < policy_evaluations_of(s).len() ==> {
                let e = s.filter(|e: EntryModel| e.event == "policy_evaluation"@)[k];
                &&& e.event == "policy_evaluation"@
                &&& (#[trigger] policy_evaluations_of(s)[k]).stage == e.stage
                &&& policy_evaluations_of(s)[k].allowed == e.allowed
                &&& policy_evaluations_of(s)[k].reason == e.reason
            },
{
    broadcast use Seq::lemma_filter_pred;
    lemma_with_event_is_filter(s, "policy_evaluation"@);
}

/// Law: the stage-completion records are, in order, the stage, target and
/// latency of each `stage_complete` entry, one record per such entry.
pub proof fn lemma_stage_completions_fields(s: Seq<EntryModel>)
    ensures
        stage_completions_of(s).len() == s.filter(|e: EntryModel| e.event == "stage_complete"@).len(),
        forall|k: int|
            0 <= k < stage_completions_of(s).len() ==> {
                let e = s.filter(|e: EntryModel| e.event == "stage_complete"@)[k];
                &&& e.event == "stage_complete"@
                &&& (#[trigger] stage_completions_of(s)[k]).stage == e.stage
                &&& stage_completions_of(s)[k].target == e.target
                &&& stage_completions_of(s)[k].latency_ms == e.latency_ms
            },
{
    broadcast use Seq::lemma_filter_pred;
    lemma_with_event_is_filter(s, "stage_complete"@);
}

/// Law: the routing-decision records are, in order, the stage, target and
/// reason of each `routing_decision` entry, one record per such entry.
pub proof fn lemma_routing_decisions_fields(s: Seq<EntryModel>)
    ensures
        routing_decisions_of(s).len() == s.filter(
            |e: EntryModel| e.event == "routing_decision"@,
        ).len(),
        forall|k: int|
            0 <= k < routing_decisions_of(s).len() ==> {
                let e = s.filter(|e: EntryModel| e.event == "routing_decision"@)[k];
                &&& e.event == "routing_decision"@
                &&& (#[trigger] routing_decisions_of(s)[k]).stage == e.stage
                &&& routing_decisions_of(s)[k].target == e.target
                &&& routing_decisions_of(s)[k].reason == e.reason
            },
{
    broadcast use Seq::lemma_filter_pred;
    lemma_with_event_is_filter(s, "routing_decision"@);
}

/// Law: the allowed evaluations are those whose verdict is `Some(true)`,
/// counted one each; the others are the denied ones.
pub proof fn lemma_allowed_count_counts(s: Seq<PolicyEvaluationModel>)
    ensures
        allowed_count(s) == s.filter(|p: PolicyEvaluationModel| p.allowed == Some(true)).len(),
        s.len() - allowed_count(s) == s.filter(
            |p: PolicyEvaluationModel| p.allowed != Some(true),
        ).len(),
    decreases s.len(),
{
    reveal(Seq::filter);
    if s.len() > 0 {
        lemma_allowed_count_counts(s.drop_last());
    }
}

/// Law: how often `k` occurs is the number of items equal to `k`.
pub proof fn lemma_occurrences_counts(s: Seq<Seq<char>>, k: Seq<char>)
    ensures
        occurrences(s, k) == s.filter(|x: Seq<char>| x == k).len(),
    decreases s.len(),
{
    reveal(Seq::filter);
    if s.len() > 0 {
        lemma_occurrences_counts(s.drop_last(), k);
    }
}

/// Law: the total latency adds up: that of two runs of entries one after the
/// other is the sum of theirs, and one entry contributes its latency, or
/// nothing without one.
pub proof fn lemma_latency_total_adds(a: Seq<EntryModel>, b: Seq<EntryModel>, e: EntryModel)
    ensures
        latency_total(a + b) == latency_total(a) + latency_total(b),
        latency_total(seq![e]) == match e.latency_ms {
            Some(l) => l as nat,
            None => 0nat,
        },
        latency_total(Seq::<EntryModel>::empty()) == 0,
    decreases b.len(),
{
    assert(seq![e].drop_last() =~= Seq::<EntryModel>::empty());
    assert(latency_total(Seq::<EntryModel>::empty()) == 0);
    assert(seq![e].last() == e);
    if b.len() == 0 {
        assert(a + b =~= a);
    } else {
        lemma_latency_total_adds(a, b.drop_last(), e);
        assert((a + b).drop_last() =~= a + b.drop_last());
    }
}

} // verus!
