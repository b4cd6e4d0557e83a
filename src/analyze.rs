use vstd::prelude::*;
use crate::acl::{check_acl, spec_check_acl, AclDecision};
use crate::counters::{
    first_exceeded, flow_outcome, is_limit_reason, flow_process, flow_query, flow_resolve, flow_tags, limit_info, limit_key, limit_process,
    limit_query, limit_resolve, result_at, CounterQuery, FlowCheck, FlowResult, LimitCheck, LimitResult,
};
use crate::decision::{
    acl_severity, action_stops, merge_decisions, merge_opt_actions, no_enforced_acl,
    AclStage, Action, BDecision, BlockReason, Decision, Location,
};
use crate::grasshopper::{
    challenge_phase01, challenge_phase02, check_app_sig, handle_bio_reports, is_phase01_result, is_phase02_answer,
    is_relayed_answer, starts_with, GHMode, Grasshopper, PrecisionLevel, APP_SIG_PREFIX, BIO_REPORT_PREFIX,
    CHALLENGE_VERIFY_PREFIX, PASSIVE_CHALLENGE_PREFIX,
};
use crate::policy::{BodyDecoding, ContentFilterProfile, RequestInfo, SecurityPolicy, SimpleDecision};
use crate::stats::{Stats, StatsStage};
use crate::tags::{qualified, Tags};

verus! {

/// Where the content-filter rules come from: the process-wide database, or
/// rules given by the caller (none when the profile has no rules).
pub enum CfRulesArg<R> {
    Global,
    Get(Option<R>),
}

/// A content-filter match: its reasons, and whether it asks to block.
#[derive(Debug)]
pub struct CfBlock {
    pub blocking: bool,
    pub reasons: Vec<BlockReason>,
}

/// What the content-filter matcher reported for a request.
#[derive(Debug)]
pub enum CfOutcome {
    /// The rule database could not be read; the content filter is skipped.
    Unavailable,
    Checked(Result<(), CfBlock>),
}

/// Input of the pipeline.
pub struct APhase0 {
    pub flows: Vec<FlowCheck>,
    pub globalfilter_dec: SimpleDecision,
    pub precision_level: PrecisionLevel,
    pub itags: Tags,
    pub reqinfo: RequestInfo,
    pub stats: Stats,
}

/// What the pipeline carries from one phase to the next.
pub struct AnalysisInfo {
    pub precision_level: PrecisionLevel,
    pub p0_decision: Decision,
    pub reqinfo: RequestInfo,
    pub stats: Stats,
    pub tags: Tags,
}

/// A phase of the pipeline: its flow and limit items and the carried state.
pub struct AnalysisPhase<FLOW, LIMIT> {
    pub flows: Vec<FLOW>,
    pub limits: Vec<LIMIT>,
    pub info: AnalysisInfo,
}

impl<FLOW, LIMIT> AnalysisPhase<FLOW, LIMIT> {
    /// The next phase, with new items and the same carried state.
    pub fn next<NFLOW, NLIMIT>(self, flows: Vec<NFLOW>, limits: Vec<NLIMIT>) -> (r: AnalysisPhase<NFLOW, NLIMIT>)
        ensures
            r.flows == flows,
            r.limits == limits,
            r.info == self.info,
    {
        AnalysisPhase { flows, info: self.info, limits }
    }

    pub fn new(flows: Vec<FLOW>, limits: Vec<LIMIT>, info: AnalysisInfo) -> (r: Self)
        ensures
            r.flows == flows,
            r.limits == limits,
            r.info == info,
    {
        Self { flows, info, limits }
    }
}

/// The phase whose counter queries are still to be run.
pub type APhase1 = AnalysisPhase<FlowCheck, LimitCheck>;

/// The phase whose counter values were read.
pub type APhase2 = AnalysisPhase<FlowResult, LimitResult>;

impl AnalysisPhase<FlowResult, LimitResult> {
    pub fn from_phase1(p1: APhase1, flow_results: Vec<FlowResult>, limit_results: Vec<LimitResult>) -> (r: Self)
        ensures
            r.flows == flow_results,
            r.limits == limit_results,
            r.info == p1.info,
    {
        p1.next(flow_results, limit_results)
    }
}

/// Outcome of the pipeline.
pub struct AnalyzeResult {
    pub decision: Decision,
    pub tags: Tags,
    pub rinfo: RequestInfo,
    pub stats: Stats,
}

/// Outcome of the first phase: a result, or the counter queries to run.
pub enum InitResult {
    Res(AnalyzeResult),
    Phase1(APhase1),
}

/// The labels of a request after its policy identity is stamped.
pub open spec fn policy_tags(t: Set<(Seq<char>, Location)>, sp: SecurityPolicy) -> Set<(Seq<char>, Location)> {
    t.insert((qualified("securitypolicy"@, sp.policy_name@), Location::Request))
        .insert((qualified("securitypolicy-entry"@, sp.entry_name@), Location::Request))
        .insert((qualified("aclid"@, sp.acl_profile.id@), Location::Request))
        .insert((qualified("aclname"@, sp.acl_profile.name@), Location::Request))
        .insert((qualified("contentfilterid"@, sp.content_filter_profile.id@), Location::Request))
        .insert((qualified("contentfiltername"@, sp.content_filter_profile.name@), Location::Request))
}

/// Each label of the list at each of the locations.
pub open spec fn labelled(names: Seq<String>, locs: Set<Location>) -> Set<(Seq<char>, Location)> {
    Set::new(|p: (Seq<char>, Location)| (exists|i: int| 0 <= i < names.len() && #[trigger] names[i]@ == p.0) && locs.contains(p.1))
}

/// Whether the path asks for a passive challenge and a detector can issue it.
pub open spec fn passive_case<GH>(mgh: Option<&GH>, rinfo: RequestInfo) -> bool {
    PASSIVE_CHALLENGE_PREFIX@.is_prefix_of(rinfo.path@) && mgh is Some
}

/// Whether the body could not be decoded though the policy expects one.
pub open spec fn malformed_case(rinfo: RequestInfo) -> bool {
    rinfo.secpolicy.content_filter_profile.content_type@.len() > 0 && rinfo.body_decoding is DecodingFailed
}

/// Whether the global filter asks to stop the request.
pub open spec fn global_final(d: SimpleDecision) -> bool {
    match d {
        SimpleDecision::Action(a, _) => action_stops(a.spec_action()),
        SimpleDecision::Pass => false,
    }
}

/// The running decision that the global filter hands on.
pub open spec fn global_decision(d: SimpleDecision, r: Decision) -> bool {
    match d {
        SimpleDecision::Action(a, rs) => r.maction == Some(a.spec_action()) && r.reasons == rs,
        SimpleDecision::Pass => r.maction is None && r.reasons@.len() == 0,
    }
}

/// The limit checks built for a request.
pub open spec fn limit_checks_of(checks: Seq<LimitCheck>, rinfo: RequestInfo) -> bool {
    &&& checks.len() == rinfo.secpolicy.limits@.len()
    &&& forall|i: int| 0 <= i < checks.len() ==> (#[trigger] checks[i]).rule == rinfo.secpolicy.limits@[i]
        && checks[i].key@ == limit_key(rinfo.secpolicy.limits@[i].id@, rinfo.ip@)
}

/// Adds each label of the list at each of the locations.
pub fn insert_labels(tags: &mut Tags, names: &Vec<String>, locs: &Vec<Location>)
    ensures
        final(tags)@ == old(tags)@.union(labelled(names@, locs@.to_set())),
{
    let mut i: usize = 0;
    while i < names.len()
        invariant
            0 <= i <= names@.len(),
            tags@ == old(tags)@.union(labelled(names@.take(i as int), locs@.to_set())),
        decreases names@.len() - i,
    {
        let ghost before = tags@;
        tags.insert_locs(names[i].as_str(), locs);
        proof {
            let n0 = names@.take(i as int);
            let n1 = names@.take(i + 1);
            assert forall|p: (Seq<char>, Location)| labelled(n1, locs@.to_set()).contains(p) <==> labelled(n0, locs@.to_set()).contains(p)
                || (p.0 == names@[i as int]@ && locs@.contains(p.1)) by {
                if exists|k: int| 0 <= k < n0.len() && #[trigger] n0[k]@ == p.0 {
                    let k = choose|k: int| 0 <= k < n0.len() && #[trigger] n0[k]@ == p.0;
                    assert(n1[k] == n0[k]);
                }
                if p.0 == names@[i as int]@ {
                    assert(n1[i as int] == names@[i as int]);
                }
                if exists|k: int| 0 <= k < n1.len() && #[trigger] n1[k]@ == p.0 {
                    let k = choose|k: int| 0 <= k < n1.len() && #[trigger] n1[k]@ == p.0;
                    if k < i {
                        assert(n0[k] == n1[k]);
                    }
                }
            }
            assert(tags@ =~= old(tags)@.union(labelled(n1, locs@.to_set())));
        }
        i = i + 1;
    }
    assert(names@.take(names@.len() as int) =~= names@);
}

fn stamp_policy(tags: &mut Tags, sp: &SecurityPolicy)
    ensures
        final(tags)@ == policy_tags(old(tags)@, *sp),
{
    tags.insert_qualified("securitypolicy", sp.policy_name.as_str(), Location::Request);
    tags.insert_qualified("securitypolicy-entry", sp.entry_name.as_str(), Location::Request);
    tags.insert_qualified("aclid", sp.acl_profile.id.as_str(), Location::Request);
    tags.insert_qualified("aclname", sp.acl_profile.name.as_str(), Location::Request);
    tags.insert_qualified("contentfilterid", sp.content_filter_profile.id.as_str(), Location::Request);
    tags.insert_qualified("contentfiltername", sp.content_filter_profile.name.as_str(), Location::Request);
}

/// Whether `m` is what the magic paths of the detector gave: nothing without
/// a detector or a matching path, else the answer of a path that matches.
pub open spec fn magic_outcome<GH>(mgh: Option<&GH>, rinfo: RequestInfo, m: Option<Decision>) -> bool {
    let verify = CHALLENGE_VERIFY_PREFIX@.is_prefix_of(rinfo.path@);
    let app_sig = APP_SIG_PREFIX@.is_prefix_of(rinfo.path@);
    let bio = BIO_REPORT_PREFIX@.is_prefix_of(rinfo.path@);
    &&& (mgh is None || !(verify || app_sig || bio)) ==> m is None
    &&& m is Some ==> {
        ||| (verify && is_phase02_answer(m->Some_0))
        ||| (app_sig && is_relayed_answer(m->Some_0, "check_app_sig"@))
        ||| (bio && is_relayed_answer(m->Some_0, "handle_bio_reports"@))
    }
}

/// What follows the magic paths: their answer ends the request; without one
/// the global filter decides whether the request goes on to the counters.
pub open spec fn after_magic(
    m: Option<Decision>,
    gf: SimpleDecision,
    flows: Vec<FlowCheck>,
    level: PrecisionLevel,
    rinfo: RequestInfo,
    stats: Stats,
    t: Set<(Seq<char>, Location)>,
    r: InitResult,
) -> bool {
    match m {
        Some(d) => r is Res && r->Res_0.decision == d && r->Res_0.tags@ == t && r->Res_0.rinfo == rinfo
            && r->Res_0.stats == stats,
        None => match r {
            InitResult::Res(res) => {
                &&& global_final(gf)
                &&& global_decision(gf, res.decision)
                &&& res.tags@ == t
                &&& res.rinfo == rinfo
                &&& res.stats == stats
            },
            InitResult::Phase1(p1) => {
                &&& !global_final(gf)
                &&& global_decision(gf, p1.info.p0_decision)
                &&& p1.info.tags@ == t
                &&& p1.info.reqinfo == rinfo
                &&& p1.info.stats == stats
                &&& p1.info.precision_level == level
                &&& p1.flows == flows
                &&& limit_checks_of(p1.limits@, rinfo)
            },
        },
    }
}

/// Asks the detector's magic paths in order; the first answer wins.
fn magic_decision<GH: Grasshopper>(mgh: Option<&GH>, rinfo: &RequestInfo, level: PrecisionLevel) -> (m: Option<Decision>)
    ensures
        magic_outcome(mgh, *rinfo, m),
{
    if let Some(gh) = mgh {
        if let Some(d) = challenge_phase02(gh, rinfo) {
            return Some(d);
        }
        if let Some(d) = check_app_sig(gh, rinfo) {
            return Some(d);
        }
        if let Some(d) = handle_bio_reports(gh, rinfo, level) {
            return Some(d);
        }
    }
    None
}

/// Ends the request with the magic-path answer, if there is one; otherwise
/// applies the global filter and, unless it is final, builds the counter checks.
pub fn init_after_magic(
    magic: Option<Decision>,
    globalfilter_dec: SimpleDecision,
    flows: Vec<FlowCheck>,
    precision_level: PrecisionLevel,
    reqinfo: RequestInfo,
    stats: Stats,
    tags: Tags,
) -> (r: InitResult)
    ensures
        after_magic(magic, globalfilter_dec, flows, precision_level, reqinfo, stats, tags@, r),
{
    if let Some(decision) = magic {
        return InitResult::Res(AnalyzeResult { decision, tags, rinfo: reqinfo, stats });
    }
    let decision = match globalfilter_dec {
        SimpleDecision::Action(action, reasons) => {
            let decision = action.to_decision(reasons);
            if decision.is_final() {
                return InitResult::Res(AnalyzeResult { decision, tags, rinfo: reqinfo, stats });
            }
            decision
        },
        SimpleDecision::Pass => Decision::pass(Vec::new()),
    };
    let limit_checks = limit_info(&reqinfo);
    let info = AnalysisInfo { precision_level, p0_decision: decision, reqinfo, stats, tags };
    InitResult::Phase1(AnalysisPhase::new(flows, limit_checks, info))
}

/// First phase: stamps the policy labels, answers the magic paths and a
/// malformed body, applies the global filter, and builds the counter checks.
pub fn analyze_init<GH: Grasshopper>(mgh: Option<&GH>, p0: APhase0) -> (r: InitResult)
    ensures
        ({
            let t0 = policy_tags(p0.itags@, p0.reqinfo.secpolicy);
            if passive_case(mgh, p0.reqinfo) {
                &&& r is Res
                &&& is_phase01_result(r->Res_0.decision, Seq::empty())
                &&& r->Res_0.tags@ == t0
                &&& r->Res_0.rinfo == p0.reqinfo
                &&& r->Res_0.stats == p0.stats
            } else if malformed_case(p0.reqinfo) {
                &&& r is Res
                &&& r->Res_0.decision.maction == Some(p0.reqinfo.secpolicy.content_filter_profile.action.spec_action())
                &&& r->Res_0.decision.reasons@.len() == 1
                &&& r->Res_0.decision.reasons@[0].initiator is BodyMalformed
                &&& r->Res_0.decision.reasons@[0].initiator->BodyMalformed_cause@
                    == p0.reqinfo.body_decoding->DecodingFailed_0@
                &&& r->Res_0.decision.reasons@[0].location@ == seq![Location::Body]
                &&& r->Res_0.decision.reasons@[0].decision == BDecision::Blocking
                &&& r->Res_0.tags@ == t0.union(labelled(p0.reqinfo.secpolicy.content_filter_profile.tags@, set![Location::Body]))
                &&& r->Res_0.rinfo == p0.reqinfo
                &&& r->Res_0.stats == p0.stats
            } else {
                exists|m: Option<Decision>| #[trigger] magic_outcome(mgh, p0.reqinfo, m)
                    && after_magic(m, p0.globalfilter_dec, p0.flows, p0.precision_level, p0.reqinfo, p0.stats, t0, r)
            }
        }),
        match r {
            InitResult::Res(res) => p0.itags@.subset_of(res.tags@),
            InitResult::Phase1(p1) => p0.itags@.subset_of(p1.info.tags@),
        },
{
    let APhase0 { flows, globalfilter_dec, precision_level, itags, reqinfo, stats } = p0;
    let mut tags = itags;
    stamp_policy(&mut tags, &reqinfo.secpolicy);
    let ghost t0 = tags@;
    assert(p0.itags@.subset_of(t0));

    if starts_with(reqinfo.path.as_str(), PASSIVE_CHALLENGE_PREFIX) {
        if let Some(gh) = mgh {
            let decision = challenge_phase01(gh, &reqinfo, Vec::new(), GHMode::Passive);
            return InitResult::Res(AnalyzeResult { decision, tags, rinfo: reqinfo, stats });
        }
    }

    let cfp = &reqinfo.secpolicy.content_filter_profile;
    if cfp.content_type.len() > 0 {
        if let BodyDecoding::DecodingFailed(rr) = &reqinfo.body_decoding {
            let reason = BlockReason::body_malformed(rr);
            let decision = cfp.action.to_decision(vec![reason]);
            let body = vec![Location::Body];
            insert_labels(&mut tags, &cfp.tags, &body);
            proof {
                assert(body@[0] == Location::Body);
                assert(body@.to_set() =~= set![Location::Body]);
            }
            return InitResult::Res(AnalyzeResult { decision, tags, rinfo: reqinfo, stats });
        }
    }

    let magic = magic_decision(mgh, &reqinfo, precision_level);
    let ghost m = magic;
    let r = init_after_magic(magic, globalfilter_dec, flows, precision_level, reqinfo, stats, tags);
    assert(magic_outcome(mgh, p0.reqinfo, m));
    r
}

} // verus!

verus! {

/// The locations that a list of reasons points to.
pub open spec fn reason_locs(s: Seq<BlockReason>) -> Set<Location> {
    Set::new(|l: Location| exists|i: int| 0 <= i < s.len() && (#[trigger] s[i]).location@.contains(l))
}

fn any_reason_at(reasons: &Vec<BlockReason>, l: Location) -> (r: bool)
    ensures
        r == reason_locs(reasons@).contains(l),
{
    let mut i: usize = 0;
    while i < reasons.len()
        invariant
            0 <= i <= reasons@.len(),
            forall|j: int| 0 <= j < i ==> !(#[trigger] reasons@[j]).location@.contains(l),
        decreases reasons@.len() - i,
    {
        if crate::tags::contains_location(&reasons[i].location, l) {
            return true;
        }
        i = i + 1;
    }
    false
}

fn push_if(r: &mut Vec<Location>, b: bool, l: Location)
    ensures
        forall|x: Location| final(r)@.contains(x) <==> old(r)@.contains(x) || (b && x == l),
{
    if b {
        r.push(l);
        assert forall|x: Location| r@.contains(x) <==> old(r)@.contains(x) || x == l by {
            if old(r)@.contains(x) {
                let k = choose|k: int| 0 <= k < old(r)@.len() && old(r)@[k] == x;
                assert(r@[k] == x);
            }
            if x == l {
                assert(r@[r@.len() - 1] == x);
            }
            if r@.contains(x) && x != l {
                let k = choose|k: int| 0 <= k < r@.len() && r@[k] == x;
                assert(old(r)@[k] == x);
            }
        }
    }
}

/// The locations that a list of reasons points to, each once.
pub fn reason_locations(reasons: &Vec<BlockReason>) -> (r: Vec<Location>)
    ensures
        r@.to_set() == reason_locs(reasons@),
{
    let mut r: Vec<Location> = Vec::new();
    push_if(&mut r, any_reason_at(reasons, Location::Request), Location::Request);
    push_if(&mut r, any_reason_at(reasons, Location::Headers), Location::Headers);
    push_if(&mut r, any_reason_at(reasons, Location::Cookies), Location::Cookies);
    push_if(&mut r, any_reason_at(reasons, Location::Body), Location::Body);
    push_if(&mut r, any_reason_at(reasons, Location::Path), Location::Path);
    push_if(&mut r, any_reason_at(reasons, Location::Attrs), Location::Attrs);
    assert(r@.to_set() =~= reason_locs(reasons@));
    r
}

/// A reason after the activity of its profile is applied.
pub open spec fn applied(r: BlockReason, active: bool) -> BlockReason {
    if active {
        r
    } else {
        BlockReason { decision: r.decision.spec_inactive(), ..r }
    }
}

/// Demotes every reason when the profile is not active.
pub fn demote_all(reasons: Vec<BlockReason>, active: bool) -> (r: Vec<BlockReason>)
    ensures
        r@.len() == reasons@.len(),
        forall|i: int| 0 <= i < reasons@.len() ==> r@[i] == applied(#[trigger] reasons@[i], active),
{
    let mut v = reasons;
    if active {
        return v;
    }
    let mut i: usize = 0;
    while i < v.len()
        invariant
            0 <= i <= v@.len(),
            v@.len() == reasons@.len(),
            !active,
            forall|j: int| 0 <= j < i ==> v@[j] == applied(#[trigger] reasons@[j], active),
            forall|j: int| i <= j < v@.len() ==> v@[j] == #[trigger] reasons@[j],
        decreases v@.len() - i,
    {
        v[i].inactive();
        i = i + 1;
    }
    v
}

/// The action that the content-filter stage adds.
pub open spec fn cf_action(cf: Result<(), CfBlock>, p: ContentFilterProfile, active: bool) -> Option<Action> {
    match cf {
        Ok(()) => None,
        Err(b) => if b.blocking {
            Some(Action { block_mode: p.action.block_mode && active, ..p.action.spec_action() })
        } else {
            None
        },
    }
}

/// Content-filter stage: labels the profile's tags where the reasons point,
/// demotes the reasons of an inactive profile, and applies the profile's
/// action, enforced only when the profile is active.
pub fn content_filter_stage(cf: Result<(), CfBlock>, profile: &ContentFilterProfile, active: bool, tags: &mut Tags) -> (d: Decision)
    ensures
        d.maction == cf_action(cf, *profile, active),
        !active ==> (d.maction is Some ==> !d.maction->Some_0.block_mode),
        match cf {
            Ok(()) => d.reasons@.len() == 0 && final(tags)@ == old(tags)@,
            Err(b) => {
                &&& d.reasons@.len() == b.reasons@.len()
                &&& forall|i: int| 0 <= i < b.reasons@.len() ==> d.reasons@[i] == applied(#[trigger] b.reasons@[i], active)
                &&& final(tags)@ == old(tags)@.union(labelled(profile.tags@, reason_locs(b.reasons@)))
            },
        },
{
    match cf {
        Ok(()) => Decision::pass(Vec::new()),
        Err(cfblock) => {
            let CfBlock { blocking, reasons } = cfblock;
            let locs = reason_locations(&reasons);
            insert_labels(tags, &profile.tags, &locs);
            let br = demote_all(reasons, active);
            if blocking {
                let mut action = profile.action.to_action();
                action.block_mode = action.block_mode && active;
                Decision::action(action, br)
            } else {
                Decision::pass(br)
            }
        },
    }
}

/// The action of the first exceeded limit, if any.
pub open spec fn limit_action(s: Seq<LimitResult>) -> Option<Action> {
    if exists|j: int| first_exceeded(s, j) {
        Some(s[choose|j: int| first_exceeded(s, j)].check.rule.action.spec_action())
    } else {
        None
    }
}

proof fn lemma_first_exceeded_unique(s: Seq<LimitResult>, j: int, k: int)
    requires
        first_exceeded(s, j),
        first_exceeded(s, k),
    ensures
        j == k,
{
    if j < k {
        assert(!crate::counters::exceeded(s[j]));
    } else if k < j {
        assert(!crate::counters::exceeded(s[k]));
    }
}

/// Whether an optional action must stop the request.
pub open spec fn opt_stops(a: Option<Action>) -> bool {
    match a {
        Some(x) => action_stops(x),
        None => false,
    }
}

/// Whether an exceeded limit stops the request.
pub open spec fn limit_stops(p2: APhase2) -> bool {
    limit_action(p2.limits@) is Some && opt_stops(after_limits(p2))
}

/// The labels after the flow stage.
pub open spec fn after_flows(p2: APhase2) -> Set<(Seq<char>, Location)> {
    p2.info.tags@.union(flow_tags(p2.flows@))
}

/// The running action after the limit stage.
pub open spec fn after_limits(p2: APhase2) -> Option<Action> {
    merge_opt_actions(p2.info.p0_decision.maction, limit_action(p2.limits@))
}

/// The access-control outcome for the labels after the flow stage.
pub open spec fn acl_outcome(p2: APhase2) -> Option<(AclStage, bool, Seq<String>)> {
    spec_check_acl(after_flows(p2), &p2.info.reqinfo.secpolicy.acl_profile, p2.info.precision_level.spec_is_human())
}

/// Severity of the access-control reason once the profile's activity is applied.
pub open spec fn acl_applied_severity(stage: AclStage, active: bool) -> BDecision {
    if active {
        acl_severity(stage)
    } else {
        acl_severity(stage).spec_inactive()
    }
}

/// The content-filter reasons hold no enforcing access-control reason.
pub open spec fn cf_no_enforced_acl(cf: CfOutcome) -> bool {
    no_enforced_acl(cf_reasons(cf))
}

/// Position of the first exceeded limit.
pub open spec fn limit_index(s: Seq<LimitResult>) -> int {
    choose|j: int| first_exceeded(s, j)
}

/// Number of reasons the limit stage adds: one for an exceeded limit.
pub open spec fn limit_count(p2: APhase2) -> int {
    if limit_action(p2.limits@) is Some { 1 } else { 0 }
}

/// Number of reasons the access-control stage adds.
pub open spec fn acl_count(p2: APhase2) -> int {
    if acl_outcome(p2) is Some { 1 } else { 0 }
}

/// Number of reasons carried in from the first phase.
pub open spec fn p0_len(p2: APhase2) -> int {
    p2.info.p0_decision.reasons@.len() as int
}

/// The access-control reason for a stage and its matched labels.
pub open spec fn is_acl_reason_for(r: BlockReason, stage: AclStage, names: Seq<String>, active: bool) -> bool {
    &&& r.initiator is Acl
    &&& r.initiator->Acl_stage == stage
    &&& r.initiator->Acl_tags@ == names
    &&& r.location@ == seq![Location::Attrs]
    &&& r.decision == acl_applied_severity(stage, active)
}

/// The reasons start with those of the first phase, then the reason of the
/// exceeded limit, then (once the access control ran and decided) its reason.
pub open spec fn head_ok(p2: APhase2, s: Seq<BlockReason>, with_acl: bool) -> bool {
    let n0 = p0_len(p2);
    let nl = limit_count(p2);
    &&& s.len() >= n0 + nl
    &&& s.subrange(0, n0) == p2.info.p0_decision.reasons@
    &&& nl == 1 ==> is_limit_reason(s[n0], p2.limits@[limit_index(p2.limits@)].check.rule)
    &&& (with_acl && acl_outcome(p2) is Some) ==> {
        &&& s.len() >= n0 + nl + 1
        &&& is_acl_reason_for(
            s[n0 + nl],
            acl_outcome(p2)->Some_0.0,
            acl_outcome(p2)->Some_0.2,
            p2.info.reqinfo.secpolicy.acl_active,
        )
    }
}

/// The labels after the access-control stage: its profile's labels at every
/// location the reasons so far point to.
pub open spec fn acl_tags(p2: APhase2, s: Seq<BlockReason>) -> Set<(Seq<char>, Location)> {
    if acl_outcome(p2) is Some {
        after_flows(p2).union(
            labelled(p2.info.reqinfo.secpolicy.acl_profile.tags@, reason_locs(s.subrange(0, p0_len(p2) + limit_count(p2) + 1))),
        )
    } else {
        after_flows(p2)
    }
}

/// The counters after the limit stage.
pub open spec fn stats_after_limits(p2: APhase2) -> Stats {
    Stats {
        stage: StatsStage::Limit,
        flow_considered: p2.flows@.len() as usize,
        flow_matched: crate::counters::count_last_steps(p2.flows@) as usize,
        limit_considered: p2.limits@.len() as usize,
        limit_matched: limit_count(p2) as usize,
        ..p2.info.stats
    }
}

/// The counters after the access-control stage.
pub open spec fn stats_after_acl(p2: APhase2) -> Stats {
    Stats { stage: StatsStage::Acl, acl_matched: acl_count(p2) as usize, ..stats_after_limits(p2) }
}

/// Whether the request reaches the content filter.
pub open spec fn reaches_cf(p2: APhase2) -> bool {
    let active = p2.info.reqinfo.secpolicy.acl_active;
    &&& !limit_stops(p2)
    &&& match acl_outcome(p2) {
        None => true,
        Some((stage, challenge, _)) => !(active && stage == AclStage::Bypass) && !challenge
            && acl_applied_severity(stage, active) != BDecision::Blocking,
    }
}

/// The result of a request that a limit or the access control ended.
pub open spec fn done_ok<GH>(mgh: Option<&GH>, p2: APhase2, r: AnalyzeResult) -> bool {
    let a1 = after_limits(p2);
    let sp = p2.info.reqinfo.secpolicy;
    let acl_act = Some(sp.acl_profile.action.spec_action());
    let s = r.decision.reasons@;
    let n = p0_len(p2) + limit_count(p2);
    &&& r.rinfo == p2.info.reqinfo
    &&& if limit_stops(p2) {
        &&& r.decision.maction == a1
        &&& s.len() == n
        &&& head_ok(p2, s, false)
        &&& r.tags@ == after_flows(p2)
        &&& r.stats == stats_after_limits(p2)
    } else {
        &&& acl_outcome(p2) is Some
        &&& head_ok(p2, s, true)
        &&& r.tags@ == acl_tags(p2, s)
        &&& r.stats == stats_after_acl(p2)
        &&& {
            let stage = acl_outcome(p2)->Some_0.0;
            if sp.acl_active && stage == AclStage::Bypass {
                r.decision.maction == a1 && s.len() == n + 1
            } else if acl_outcome(p2)->Some_0.1 {
                &&& mgh is None ==> r.decision.maction == merge_opt_actions(a1, acl_act) && s.len() == n + 1
                &&& mgh is Some ==> exists|d: Decision| #[trigger] is_phase01_result(d, Seq::empty())
                    && r.decision.maction == merge_opt_actions(a1, d.maction) && s == s.subrange(0, n + 1) + d.reasons@
            } else {
                r.decision.maction == merge_opt_actions(a1, acl_act) && s.len() == n + 1
            }
        }
    }
}

/// The state of a request that reaches the content filter.
pub open spec fn pending_ok(p2: APhase2, r: AnalyzeResult) -> bool {
    &&& r.rinfo == p2.info.reqinfo
    &&& r.decision.maction == after_limits(p2)
    &&& r.decision.reasons@.len() == p0_len(p2) + limit_count(p2) + acl_count(p2)
    &&& head_ok(p2, r.decision.reasons@, true)
    &&& r.tags@ == acl_tags(p2, r.decision.reasons@)
    &&& r.stats == stats_after_acl(p2)
}

/// The reasons the content filter reported.
pub open spec fn cf_reasons(cf: CfOutcome) -> Seq<BlockReason> {
    match cf {
        CfOutcome::Checked(Err(b)) => b.reasons@,
        _ => Seq::empty(),
    }
}

/// The action the content-filter stage adds.
pub open spec fn cf_outcome_action(cf: CfOutcome, sp: SecurityPolicy) -> Option<Action> {
    match cf {
        CfOutcome::Unavailable => None,
        CfOutcome::Checked(res) => cf_action(res, sp.content_filter_profile, sp.content_filter_active),
    }
}

/// The counters after the content-filter stage.
pub open spec fn cf_stats(st: Stats, cf: CfOutcome) -> Stats {
    match cf {
        CfOutcome::Unavailable => Stats { stage: StatsStage::ContentFilter, cf_skipped: true, ..st },
        CfOutcome::Checked(_) => Stats {
            stage: StatsStage::ContentFilter,
            cf_matched: cf_reasons(cf).len() as usize,
            cf_skipped: false,
            ..st
        },
    }
}

/// Content-filter step from a pending state.
pub open spec fn cf_step_ok(pending: AnalyzeResult, cf: CfOutcome, r: AnalyzeResult) -> bool {
    let sp = pending.rinfo.secpolicy;
    let m = pending.decision.reasons@.len();
    let k = cf_reasons(cf).len();
    &&& r.rinfo == pending.rinfo
    &&& r.decision.maction == merge_opt_actions(pending.decision.maction, cf_outcome_action(cf, sp))
    &&& r.decision.reasons@.len() == m + k
    &&& r.decision.reasons@.subrange(0, m as int) == pending.decision.reasons@
    &&& forall|i: int| 0 <= i < k ==> r.decision.reasons@[m + i] == applied(#[trigger] cf_reasons(cf)[i], sp.content_filter_active)
    &&& r.tags@ == pending.tags@.union(labelled(sp.content_filter_profile.tags@, reason_locs(cf_reasons(cf))))
    &&& r.stats == cf_stats(pending.stats, cf)
}

/// The result of a request that the content filter ends.
pub open spec fn cf_ok(p2: APhase2, cf: CfOutcome, r: AnalyzeResult) -> bool {
    let sp = p2.info.reqinfo.secpolicy;
    let m = p0_len(p2) + limit_count(p2) + acl_count(p2);
    let k = cf_reasons(cf).len();
    &&& r.rinfo == p2.info.reqinfo
    &&& r.decision.maction == merge_opt_actions(after_limits(p2), cf_outcome_action(cf, sp))
    &&& r.decision.reasons@.len() == m + k
    &&& head_ok(p2, r.decision.reasons@, true)
    &&& forall|i: int| 0 <= i < k ==> r.decision.reasons@[m + i] == applied(#[trigger] cf_reasons(cf)[i], sp.content_filter_active)
    &&& r.tags@ == acl_tags(p2, r.decision.reasons@).union(labelled(sp.content_filter_profile.tags@, reason_locs(cf_reasons(cf))))
    &&& r.stats == cf_stats(stats_after_acl(p2), cf)
}

/// Where the last phase stands after the access control.
pub enum FinishStep {
    /// A limit or the access control ended the request.
    Done(AnalyzeResult),
    /// The request goes on to the content filter, from this state.
    ContentFilter(AnalyzeResult),
}

proof fn lemma_head_extends(p2: APhase2, s: Seq<BlockReason>, t: Seq<BlockReason>, with_acl: bool)
    requires
        head_ok(p2, s, with_acl),
        t.len() >= s.len(),
        t.subrange(0, s.len() as int) == s,
        with_acl && acl_outcome(p2) is Some ==> s.len() >= p0_len(p2) + limit_count(p2) + 1,
    ensures
        head_ok(p2, t, with_acl),
        with_acl && acl_outcome(p2) is Some ==> t.subrange(0, p0_len(p2) + limit_count(p2) + 1)
            == s.subrange(0, p0_len(p2) + limit_count(p2) + 1),
{
    let n0 = p0_len(p2);
    let nl = limit_count(p2);
    assert(t.subrange(0, n0) =~= s.subrange(0, n0)) by {
        assert forall|i: int| 0 <= i < n0 implies #[trigger] t.subrange(0, n0)[i] == s.subrange(0, n0)[i] by {
            assert(t[i] == t.subrange(0, s.len() as int)[i]);
        }
    }
    if nl == 1 {
        assert(t[n0] == t.subrange(0, s.len() as int)[n0]);
    }
    if with_acl && acl_outcome(p2) is Some {
        assert(t[n0 + nl] == t.subrange(0, s.len() as int)[n0 + nl]);
        assert forall|i: int| 0 <= i < n0 + nl + 1 implies #[trigger] t.subrange(0, n0 + nl + 1)[i] == s.subrange(0, n0 + nl + 1)[i] by {
            assert(t[i] == t.subrange(0, s.len() as int)[i]);
        }
        assert(t.subrange(0, n0 + nl + 1) =~= s.subrange(0, n0 + nl + 1));
    }
}

/// The last phase up to the content filter: flows, limits and access
/// control; a stage whose decision is final ends the request.
#[verifier::rlimit(100)]
pub fn analyze_acl<GH: Grasshopper>(mgh: Option<&GH>, p2: APhase2) -> (r: FinishStep)
    requires
        p2.info.stats.stage == StatsStage::Mapped,
    ensures
        reaches_cf(p2) ==> r is ContentFilter && pending_ok(p2, r->ContentFilter_0),
        !reaches_cf(p2) ==> r is Done && done_ok(mgh, p2, r->Done_0),
{
    let ghost g2 = p2;
    let AnalysisPhase { flows, limits, info } = p2;
    let AnalysisInfo { precision_level, p0_decision, reqinfo, stats, tags } = info;
    let mut tags = tags;
    let mut cumulated = p0_decision;
    let ghost n0 = p0_len(g2);

    let stats = flow_process(stats, &flows, &mut tags);
    let (limit_check, stats) = limit_process(stats, &limits);
    proof {
        if limit_check is Action {
            let j = choose|j: int| first_exceeded(limits@, j) && limit_check->Action_0 == limits@[j].check.rule.action
                && is_limit_reason(limit_check->Action_1@[0], limits@[j].check.rule);
            let k = choose|k: int| first_exceeded(limits@, k);
            lemma_first_exceeded_unique(limits@, j, k);
            assert(limit_index(limits@) == k);
        }
    }
    if let SimpleDecision::Action(action, reasons) = limit_check {
        let d = action.to_decision(reasons);
        cumulated = merge_decisions(cumulated, d);
        proof {
            assert(cumulated.reasons@.subrange(0, n0) =~= g2.info.p0_decision.reasons@);
            assert(cumulated.reasons@[n0] == d.reasons@[0]);
        }
        if cumulated.is_final() {
            return FinishStep::Done(AnalyzeResult { decision: cumulated, tags, rinfo: reqinfo, stats });
        }
    } else {
        proof {
            assert(cumulated.reasons@.subrange(0, n0) =~= g2.info.p0_decision.reasons@);
        }
    }
    assert(cumulated.maction == after_limits(g2));
    assert(!limit_stops(g2));
    assert(tags@ == after_flows(g2));
    assert(head_ok(g2, cumulated.reasons@, false));
    let ghost n = n0 + limit_count(g2);
    assert(cumulated.reasons@.len() == n);

    let secpol = &reqinfo.secpolicy;
    let acl_decision = check_acl(&tags, &secpol.acl_profile, precision_level.is_human());
    let stats = stats.acl(if acl_decision.is_some() { 1 } else { 0 });
    if let Some(decision) = acl_decision {
        let AclDecision { stage, tags: names, challenge } = decision;
        let bypass = stage == AclStage::Bypass;
        let mut br = BlockReason::acl(names, stage);
        if !secpol.acl_active {
            br.inactive();
        }
        let blocking = br.decision == BDecision::Blocking;
        let d = Decision::pass(vec![br]);
        let ghost before = cumulated.reasons@;
        cumulated = merge_decisions(cumulated, d);
        proof {
            assert(cumulated.reasons@[n] == br);
            assert(cumulated.reasons@.subrange(0, before.len() as int) =~= before);
            lemma_head_extends(g2, before, cumulated.reasons@, false);
            assert(cumulated.reasons@.subrange(0, n + 1) =~= cumulated.reasons@);
        }
        let locs = reason_locations(&cumulated.reasons);
        insert_labels(&mut tags, &secpol.acl_profile.tags, &locs);
        assert(head_ok(g2, cumulated.reasons@, true));
        assert(tags@ == acl_tags(g2, cumulated.reasons@));

        if secpol.acl_active && bypass {
            return FinishStep::Done(AnalyzeResult { decision: cumulated, tags, rinfo: reqinfo, stats });
        }
        if challenge || blocking {
            let d = if challenge {
                match mgh {
                    Some(gh) => challenge_phase01(gh, &reqinfo, Vec::new(), GHMode::Active),
                    None => secpol.acl_profile.action.to_decision(Vec::new()),
                }
            } else {
                secpol.acl_profile.action.to_decision(Vec::new())
            };
            let ghost dg = d;
            let ghost before = cumulated.reasons@;
            cumulated = merge_decisions(cumulated, d);
            proof {
                assert(cumulated.reasons@.subrange(0, before.len() as int) =~= before);
                lemma_head_extends(g2, before, cumulated.reasons@, true);
                assert(cumulated.reasons@.subrange(0, n + 1) =~= before);
                assert(cumulated.reasons@ =~= cumulated.reasons@.subrange(0, n + 1) + dg.reasons@);
                if challenge && mgh is Some {
                    assert(is_phase01_result(dg, Seq::empty()));
                }
            }
            return FinishStep::Done(AnalyzeResult { decision: cumulated, tags, rinfo: reqinfo, stats });
        }
    }
    FinishStep::ContentFilter(AnalyzeResult { decision: cumulated, tags, rinfo: reqinfo, stats })
}

/// The content-filter stage from a pending state and the matcher's report.
pub fn analyze_content_filter(pending: AnalyzeResult, cf: CfOutcome) -> (r: AnalyzeResult)
    requires
        pending.stats.stage == StatsStage::Acl,
    ensures
        cf_step_ok(pending, cf, r),
{
    let AnalyzeResult { decision, tags, rinfo, stats } = pending;
    let mut tags = tags;
    let ghost cfg = cf;
    let (cfres, stats) = match cf {
        CfOutcome::Unavailable => (Ok(()), stats.no_content_filter()),
        CfOutcome::Checked(res) => {
            let n: usize = match &res {
                Ok(()) => 0,
                Err(b) => b.reasons.len(),
            };
            (res, stats.content_filter(n))
        },
    };
    let secpol = &rinfo.secpolicy;
    let d = content_filter_stage(cfres, &secpol.content_filter_profile, secpol.content_filter_active, &mut tags);
    let ghost before = decision.reasons@;
    let cumulated = merge_decisions(decision, d);
    proof {
        assert(cumulated.reasons@.subrange(0, before.len() as int) =~= before);
        if !(cfres is Err) {
            assert(labelled(secpol.content_filter_profile.tags@, reason_locs(cf_reasons(cfg))) =~= Set::empty());
            assert(tags@ =~= pending.tags@.union(labelled(secpol.content_filter_profile.tags@, reason_locs(cf_reasons(cfg)))));
        }
        assert forall|i: int| 0 <= i < cf_reasons(cfg).len() implies cumulated.reasons@[before.len() + i] == applied(
            #[trigger] cf_reasons(cfg)[i],
            secpol.content_filter_active,
        ) by {
            assert(cumulated.reasons@[before.len() + i] == d.reasons@[i]);
        }
    }
    AnalyzeResult { decision: cumulated, tags, rinfo, stats }
}

/// Last phase: flows, limits, access control and content filter, in that
/// order; a stage whose decision is final ends the request. `cf` is what the
/// content-filter matcher reports, used only if that stage is reached.
pub fn analyze_finish<GH: Grasshopper>(mgh: Option<&GH>, cf: CfOutcome, p2: APhase2) -> (r: AnalyzeResult)
    requires
        p2.info.stats.stage == StatsStage::Mapped,
    ensures
        reaches_cf(p2) ==> cf_ok(p2, cf, r),
        !reaches_cf(p2) ==> done_ok(mgh, p2, r),
        r.rinfo == p2.info.reqinfo,
        p2.info.tags@.subset_of(r.tags@),
        p2.info.p0_decision.reasons@.is_prefix_of(r.decision.reasons@),
        (r.stats.stage == StatsStage::Limit) == limit_stops(p2),
        !p2.info.reqinfo.secpolicy.acl_active && no_enforced_acl(p2.info.p0_decision.reasons@) && cf_no_enforced_acl(cf)
            ==> no_enforced_acl(r.decision.reasons@),
{
    let ghost g2 = p2;
    let r = match analyze_acl(mgh, p2) {
        FinishStep::Done(r) => r,
        FinishStep::ContentFilter(pending) => {
            let ghost pg = pending;
            let r = analyze_content_filter(pending, cf);
            proof {
                let m = pg.decision.reasons@.len();
                lemma_head_extends(g2, pg.decision.reasons@, r.decision.reasons@, true);
            }
            r
        },
    };
    proof {
        let s = r.decision.reasons@;
        let n0 = p0_len(g2);
        assert(s.subrange(0, n0) == g2.info.p0_decision.reasons@);
        assert forall|i: int| 0 <= i < n0 implies #[trigger] s[i] == g2.info.p0_decision.reasons@[i] by {
            assert(s.subrange(0, n0)[i] == s[i]);
        }
        if !g2.info.reqinfo.secpolicy.acl_active && no_enforced_acl(g2.info.p0_decision.reasons@) && cf_no_enforced_acl(cf) {
            let nl = limit_count(g2);
            let n = n0 + nl;
            assert forall|i: int| 0 <= i < s.len() && (#[trigger] s[i]).initiator is Acl implies s[i].decision
                != BDecision::Blocking by {
                if i < n0 {
                    assert(s[i] == g2.info.p0_decision.reasons@[i]);
                } else if i < n {
                    assert(i == n0);
                    assert(is_limit_reason(s[n0], g2.limits@[limit_index(g2.limits@)].check.rule));
                } else if !limit_stops(g2) && acl_outcome(g2) is Some && i == n {
                    assert(head_ok(g2, s, true));
                    assert(s[i].decision == acl_applied_severity(acl_outcome(g2)->Some_0.0, false));
                } else if reaches_cf(g2) {
                    let m = n0 + nl + acl_count(g2);
                    assert(s[m + (i - m)] == applied(cf_reasons(cf)[i - m], g2.info.reqinfo.secpolicy.content_filter_active));
                } else if mgh is Some && !limit_stops(g2) && acl_outcome(g2)->Some_0.1 && !(g2.info.reqinfo.secpolicy.acl_active && acl_outcome(g2)->Some_0.0 == AclStage::Bypass) {
                    let d = choose|d: Decision| #[trigger] is_phase01_result(d, Seq::empty())
                        && r.decision.maction == merge_opt_actions(after_limits(g2), d.maction) && s == s.subrange(0, n + 1) + d.reasons@;
                    assert(s[i] == d.reasons@[i - n - 1]);
                }
            }
        }
    }
    r
}

/// Whether `queries` are the store commands of a first phase, flows first.
pub open spec fn queries_of(p1: APhase1, queries: Seq<CounterQuery>) -> bool {
    &&& queries.len() == p1.flows@.len() + p1.limits@.len()
    &&& forall|i: int| 0 <= i < p1.flows@.len() ==> queries[i] == flow_query(#[trigger] p1.flows@[i])
    &&& forall|j: int| 0 <= j < p1.limits@.len() ==> queries[p1.flows@.len() + j] == limit_query(#[trigger] p1.limits@[j])
}

/// Whether `p2` holds what the store's answers say of the checks of `p1`,
/// read in submission order.
pub open spec fn resolved_from(p1: APhase1, results: Seq<Option<i64>>, p2: APhase2) -> bool {
    &&& p2.info == p1.info
    &&& p2.flows@.len() == p1.flows@.len()
    &&& p2.limits@.len() == p1.limits@.len()
    &&& forall|i: int| 0 <= i < p1.flows@.len() ==> p2.flows@[i] == flow_outcome(#[trigger] p1.flows@[i], result_at(results, i))
    &&& forall|j: int| 0 <= j < p1.limits@.len() ==> p2.limits@[j] == (LimitResult {
        check: #[trigger] p1.limits@[j],
        count: result_at(results, p1.flows@.len() + j),
    })
}

/// The store commands of a first phase: flows, then limits.
pub fn phase1_queries(p1: &APhase1) -> (r: Vec<CounterQuery>)
    ensures
        queries_of(*p1, r@),
{
    crate::counters::build_queries(&p1.flows, &p1.limits)
}

/// The second phase from the store's answers: the flows read the head of
/// the answers, the limits what follows.
pub fn resolve_phase1(p1: APhase1, results: &Vec<Option<i64>>) -> (r: APhase2)
    requires
        p1.flows@.len() + p1.limits@.len() <= usize::MAX,
    ensures
        resolved_from(p1, results@, r),
{
    let flows = flow_resolve(&p1.flows, results);
    let limits = limit_resolve(&p1.limits, results, p1.flows.len());
    AnalysisPhase::from_phase1(p1, flows, limits)
}

/// The second phase without counter values: no flow or limit applies.
pub fn skip_counters(p1: APhase1) -> (r: APhase2)
    ensures
        r.info == p1.info,
        r.flows@.len() == 0,
        r.limits@.len() == 0,
{
    AnalysisPhase::from_phase1(p1, Vec::new(), Vec::new())
}

/// Answers are consumed in submission order: the answer read for each check
/// is the one at the position of that check's command.
pub proof fn lemma_answers_follow_submission(p1: APhase1, queries: Seq<CounterQuery>, results: Seq<Option<i64>>, p2: APhase2)
    requires
        queries_of(p1, queries),
        resolved_from(p1, results, p2),
    ensures
        forall|i: int| 0 <= i < p1.flows@.len() ==> queries[i] == flow_query(p1.flows@[i])
            && #[trigger] p2.flows@[i] == flow_outcome(p1.flows@[i], result_at(results, i)),
        forall|j: int| 0 <= j < p1.limits@.len() ==> queries[p1.flows@.len() + j] == limit_query(p1.limits@[j])
            && (#[trigger] p2.limits@[j]).check == p1.limits@[j]
            && p2.limits@[j].count == result_at(results, p1.flows@.len() + j),
{
    assert forall|i: int| 0 <= i < p1.flows@.len() implies queries[i] == flow_query(p1.flows@[i])
        && #[trigger] p2.flows@[i] == flow_outcome(p1.flows@[i], result_at(results, i)) by {
        assert(queries[i] == flow_query(p1.flows@[i]));
    }
    assert forall|j: int| 0 <= j < p1.limits@.len() implies queries[p1.flows@.len() + j] == limit_query(p1.limits@[j])
        && (#[trigger] p2.limits@[j]).check == p1.limits@[j]
        && p2.limits@[j].count == result_at(results, p1.flows@.len() + j) by {
        assert(queries[p1.flows@.len() + j] == limit_query(p1.limits@[j]));
        assert(p2.limits@[j] == (LimitResult { check: p1.limits@[j], count: result_at(results, p1.flows@.len() + j) }));
    }
}

/// Demoting a reason keeps its initiator and its locations.
pub proof fn lemma_demotion_keeps_content(r: BlockReason, active: bool)
    ensures
        applied(r, active).initiator == r.initiator,
        applied(r, active).location == r.location,
        applied(r, active).decision != BDecision::Blocking || active,
{
}

} // verus!
