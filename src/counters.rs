use vstd::prelude::*;
use crate::decision::{BlockReason, Location};
use crate::policy::{LimitRule, RequestInfo, SimpleDecision};
use crate::stats::Stats;
use crate::tags::Tags;

verus! {

/// A command for the shared counter store.
#[derive(Debug, PartialEq, Eq)]
pub enum CounterQuery {
    /// Increment the counter, set its expiry in seconds, read the new value.
    IncrExpire { key: String, ttl: u64 },
    /// Read the counter.
    Get { key: String },
}

/// One step of a named request sequence, as recognised for this request.
#[derive(Debug)]
pub struct FlowCheck {
    pub id: String,
    pub name: String,
    /// Counter key of the sequence for this client.
    pub key: String,
    /// Position of this request in the sequence, from 0.
    pub step: u64,
    /// Whether this is the sequence's last step.
    pub last: bool,
    pub ttl: u64,
    /// Label given to a request that completes the sequence.
    pub tag: String,
}

/// Outcome of a flow check.
#[derive(Debug)]
pub enum FlowResult {
    LastStep(String),
    NonLastStep,
    NotInSequence,
}

/// A limit rule with the counter key of this request.
#[derive(Debug)]
pub struct LimitCheck {
    pub rule: LimitRule,
    pub key: String,
}

/// A limit rule with the counter value read for it (none when the store
/// gave no usable answer).
#[derive(Debug)]
pub struct LimitResult {
    pub check: LimitCheck,
    pub count: Option<i64>,
}

/// The store command of a flow step: the last step reads how many steps
/// were seen, the others count themselves.
pub open spec fn flow_query(c: FlowCheck) -> CounterQuery {
    if c.last {
        CounterQuery::Get { key: c.key }
    } else {
        CounterQuery::IncrExpire { key: c.key, ttl: c.ttl }
    }
}

/// The store command of a limit: count the hit within the rule's time frame.
pub open spec fn limit_query(c: LimitCheck) -> CounterQuery {
    CounterQuery::IncrExpire { key: c.key, ttl: c.rule.timeframe }
}

/// The counter key of a limit rule for a client address.
pub open spec fn limit_key(rule_id: Seq<char>, ip: Seq<char>) -> Seq<char> {
    rule_id + seq![':'] + ip
}

/// The value at a position of the store's answers, if there is one.
pub open spec fn result_at(results: Seq<Option<i64>>, i: int) -> Option<i64> {
    if 0 <= i < results.len() {
        results[i]
    } else {
        None
    }
}

/// The flow outcome for a counter value: a step is in sequence when all the
/// steps before it were seen.
pub open spec fn flow_outcome(c: FlowCheck, v: Option<i64>) -> FlowResult {
    match v {
        Some(n) => if c.last {
            if n == c.step as int {
                FlowResult::LastStep(c.tag)
            } else {
                FlowResult::NotInSequence
            }
        } else if n == c.step as int + 1 {
            FlowResult::NonLastStep
        } else {
            FlowResult::NotInSequence
        },
        None => FlowResult::NotInSequence,
    }
}

/// Whether a limit result exceeds its threshold.
pub open spec fn exceeded(r: LimitResult) -> bool {
    match r.count {
        Some(n) => n > r.check.rule.threshold as int,
        None => false,
    }
}

/// The number of completed sequences among flow results.
pub open spec fn count_last_steps(s: Seq<FlowResult>) -> nat
    decreases s.len(),
{
    if s.len() == 0 {
        0
    } else {
        count_last_steps(s.drop_last()) + if s.last() is LastStep { 1nat } else { 0nat }
    }
}

/// The labels that flow results add.
pub open spec fn flow_tags(s: Seq<FlowResult>) -> Set<(Seq<char>, Location)> {
    Set::new(|p: (Seq<char>, Location)| p.1 == Location::Request
        && exists|i: int| 0 <= i < s.len() && #[trigger] s[i] is LastStep && s[i]->LastStep_0@ == p.0)
}

/// The limit checks of a request, one per rule of its policy, in order.
pub fn limit_info(rinfo: &RequestInfo) -> (r: Vec<LimitCheck>)
    ensures
        r@.len() == rinfo.secpolicy.limits@.len(),
        forall|i: int| 0 <= i < r@.len() ==> (#[trigger] r@[i]).rule == rinfo.secpolicy.limits@[i]
            && r@[i].key@ == limit_key(rinfo.secpolicy.limits@[i].id@, rinfo.ip@),
{
    let limits = &rinfo.secpolicy.limits;
    let mut r: Vec<LimitCheck> = Vec::new();
    let mut i: usize = 0;
    while i < limits.len()
        invariant
            0 <= i <= limits@.len(),
            r@.len() == i,
            forall|j: int| 0 <= j < i ==> (#[trigger] r@[j]).rule == limits@[j]
                && r@[j].key@ == limit_key(limits@[j].id@, rinfo.ip@),
        decreases limits@.len() - i,
    {
        let key = limits[i].id.clone().concat(":").concat(rinfo.ip.as_str());
        proof {
            reveal_strlit(":");
            assert(key@ =~= limit_key(limits@[i as int].id@, rinfo.ip@));
        }
        r.push(LimitCheck { rule: limits[i].duplicate(), key });
        i = i + 1;
    }
    r
}

/// The store commands for flows then limits, in submission order.
pub fn build_queries(flows: &Vec<FlowCheck>, limits: &Vec<LimitCheck>) -> (r: Vec<CounterQuery>)
    ensures
        r@.len() == flows@.len() + limits@.len(),
        forall|i: int| 0 <= i < flows@.len() ==> r@[i] == flow_query(#[trigger] flows@[i]),
        forall|j: int| 0 <= j < limits@.len() ==> r@[flows@.len() + j] == limit_query(#[trigger] limits@[j]),
{
    let mut r: Vec<CounterQuery> = Vec::new();
    let mut i: usize = 0;
    while i < flows.len()
        invariant
            0 <= i <= flows@.len(),
            r@.len() == i,
            forall|k: int| 0 <= k < i ==> r@[k] == flow_query(#[trigger] flows@[k]),
        decreases flows@.len() - i,
    {
        let c = &flows[i];
        if c.last {
            r.push(CounterQuery::Get { key: c.key.clone() });
        } else {
            r.push(CounterQuery::IncrExpire { key: c.key.clone(), ttl: c.ttl });
        }
        i = i + 1;
    }
    let mut j: usize = 0;
    while j < limits.len()
        invariant
            0 <= j <= limits@.len(),
            r@.len() == flows@.len() + j,
            forall|k: int| 0 <= k < flows@.len() ==> r@[k] == flow_query(#[trigger] flows@[k]),
            forall|k: int| 0 <= k < j ==> r@[flows@.len() + k] == limit_query(#[trigger] limits@[k]),
        decreases limits@.len() - j,
    {
        r.push(CounterQuery::IncrExpire { key: limits[j].key.clone(), ttl: limits[j].rule.timeframe });
        j = j + 1;
    }
    r
}

fn result_value(results: &Vec<Option<i64>>, i: usize) -> (r: Option<i64>)
    ensures
        r == result_at(results@, i as int),
{
    if i < results.len() {
        results[i]
    } else {
        None
    }
}

/// Reads the flow outcomes from the head of the store's answers.
pub fn flow_resolve(checks: &Vec<FlowCheck>, results: &Vec<Option<i64>>) -> (r: Vec<FlowResult>)
    ensures
        r@.len() == checks@.len(),
        forall|i: int| 0 <= i < checks@.len() ==> r@[i] == flow_outcome(#[trigger] checks@[i], result_at(results@, i)),
{
    let mut r: Vec<FlowResult> = Vec::new();
    let mut i: usize = 0;
    while i < checks.len()
        invariant
            0 <= i <= checks@.len(),
            r@.len() == i,
            forall|k: int| 0 <= k < i ==> r@[k] == flow_outcome(#[trigger] checks@[k], result_at(results@, k)),
        decreases checks@.len() - i,
    {
        let c = &checks[i];
        let v = result_value(results, i);
        let o = match v {
            Some(n) => if c.last {
                if n as i128 == c.step as i128 {
                    FlowResult::LastStep(c.tag.clone())
                } else {
                    FlowResult::NotInSequence
                }
            } else if n as i128 == c.step as i128 + 1 {
                FlowResult::NonLastStep
            } else {
                FlowResult::NotInSequence
            },
            None => FlowResult::NotInSequence,
        };
        r.push(o);
        i = i + 1;
    }
    r
}

/// Reads the limit counters from the store's answers, after the first
/// `offset` of them.
pub fn limit_resolve(checks: &Vec<LimitCheck>, results: &Vec<Option<i64>>, offset: usize) -> (r: Vec<LimitResult>)
    requires
        offset + checks@.len() <= usize::MAX,
    ensures
        r@.len() == checks@.len(),
        forall|j: int| 0 <= j < checks@.len() ==> r@[j] == (LimitResult {
            check: #[trigger] checks@[j],
            count: result_at(results@, offset + j),
        }),
{
    let mut r: Vec<LimitResult> = Vec::new();
    let mut j: usize = 0;
    while j < checks.len()
        invariant
            0 <= j <= checks@.len(),
            offset + checks@.len() <= usize::MAX,
            r@.len() == j,
            forall|k: int| 0 <= k < j ==> r@[k] == (LimitResult {
                check: #[trigger] checks@[k],
                count: result_at(results@, offset + k),
            }),
        decreases checks@.len() - j,
    {
        let check = LimitCheck { rule: checks[j].rule.duplicate(), key: checks[j].key.clone() };
        r.push(LimitResult { check, count: result_value(results, offset + j) });
        j = j + 1;
    }
    r
}

/// Labels the completed sequences and records the flow checks.
pub fn flow_process(stats: Stats, results: &Vec<FlowResult>, tags: &mut Tags) -> (r: Stats)
    requires
        stats.stage == crate::stats::StatsStage::Mapped,
    ensures
        r == (Stats { flow_considered: results@.len() as usize, flow_matched: count_last_steps(results@) as usize, ..stats }),
        final(tags)@ == old(tags)@.union(flow_tags(results@)),
{
    let mut matched: usize = 0;
    let mut i: usize = 0;
    while i < results.len()
        invariant
            0 <= i <= results@.len(),
            matched == count_last_steps(results@.take(i as int)),
            matched <= i,
            tags@ == old(tags)@.union(flow_tags(results@.take(i as int))),
        decreases results@.len() - i,
    {
        assert(results@.take(i + 1).drop_last() =~= results@.take(i as int));
        let ghost before = tags@;
        match &results[i] {
            FlowResult::LastStep(t) => {
                tags.insert(t.as_str(), Location::Request);
                matched = matched + 1;
            },
            _ => {},
        }
        proof {
            let s0 = results@.take(i as int);
            let s1 = results@.take(i + 1);
            assert forall|p: (Seq<char>, Location)| flow_tags(s1).contains(p) <==> flow_tags(s0).contains(p)
                || (p.1 == Location::Request && results@[i as int] is LastStep && results@[i as int]->LastStep_0@ == p.0) by {
                if flow_tags(s0).contains(p) {
                    let k = choose|k: int| 0 <= k < s0.len() && #[trigger] s0[k] is LastStep && s0[k]->LastStep_0@ == p.0;
                    assert(s1[k] == s0[k]);
                }
                if p.1 == Location::Request && results@[i as int] is LastStep && results@[i as int]->LastStep_0@ == p.0 {
                    assert(s1[i as int] == results@[i as int]);
                }
                if flow_tags(s1).contains(p) {
                    let k = choose|k: int| 0 <= k < s1.len() && #[trigger] s1[k] is LastStep && s1[k]->LastStep_0@ == p.0;
                    if k < i {
                        assert(s0[k] == s1[k]);
                    }
                }
            }
            assert(tags@ =~= old(tags)@.union(flow_tags(s1)));
        }
        i = i + 1;
    }
    assert(results@.take(results@.len() as int) =~= results@);
    stats.flow(results.len(), matched)
}

/// The reason given by an exceeded limit rule.
pub open spec fn is_limit_reason(r: BlockReason, rule: LimitRule) -> bool {
    &&& r.initiator == (crate::decision::Initiator::Limit { id: rule.id, name: rule.name, threshold: rule.threshold })
    &&& r.location@ == seq![Location::Request]
    &&& r.decision == crate::decision::BDecision::Blocking
}

/// The decision of the first limit that is exceeded, in policy order.
pub open spec fn first_exceeded(results: Seq<LimitResult>, j: int) -> bool {
    &&& 0 <= j < results.len()
    &&& exceeded(results[j])
    &&& forall|k: int| 0 <= k < j ==> !exceeded(#[trigger] results[k])
}

/// Finds the first exceeded limit and records the limit checks.
pub fn limit_process(stats: Stats, results: &Vec<LimitResult>) -> (r: (SimpleDecision, Stats))
    requires
        stats.stage == crate::stats::StatsStage::Mapped,
    ensures
        match r.0 {
            SimpleDecision::Pass => forall|k: int| 0 <= k < results@.len() ==> !exceeded(#[trigger] results@[k]),
            SimpleDecision::Action(a, reasons) => exists|j: int| #[trigger] first_exceeded(results@, j)
                && a == results@[j].check.rule.action
                && reasons@.len() == 1
                && is_limit_reason(reasons@[0], results@[j].check.rule),
        },
        r.1 == (Stats {
            stage: crate::stats::StatsStage::Limit,
            limit_considered: results@.len() as usize,
            limit_matched: if r.0 is Pass { 0usize } else { 1usize },
            ..stats
        }),
{
    let mut j: usize = 0;
    while j < results.len()
        invariant
            0 <= j <= results@.len(),
            stats.stage == crate::stats::StatsStage::Mapped,
            forall|k: int| 0 <= k < j ==> !exceeded(#[trigger] results@[k]),
        decreases results@.len() - j,
    {
        let res = &results[j];
        let hit = match res.count {
            Some(n) => n as i128 > res.check.rule.threshold as i128,
            None => false,
        };
        if hit {
            let rule = &res.check.rule;
            let reason = BlockReason::limit(&rule.id, &rule.name, rule.threshold);
            let d = SimpleDecision::Action(rule.action.duplicate(), vec![reason]);
            assert(first_exceeded(results@, j as int));
            return (d, stats.limit(results.len(), 1));
        }
        j = j + 1;
    }
    (SimpleDecision::Pass, stats.limit(results.len(), 0))
}

} // verus!
