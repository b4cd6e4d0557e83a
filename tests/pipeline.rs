use curiefense::acl::check_acl;
use curiefense::analyze::{
    analyze_acl, analyze_content_filter, analyze_finish, analyze_init, init_after_magic, FinishStep, phase1_queries, resolve_phase1, skip_counters, APhase0, AnalysisPhase, APhase2,
    CfBlock, CfOutcome, InitResult,
};
use curiefense::counters::{CounterQuery, FlowCheck, FlowResult};
use curiefense::decision::{
    merge_decisions, AclStage, Action, ActionType, BDecision, BlockReason, Decision, Initiator, Location,
};
use curiefense::grasshopper::{
    challenge_phase02, gh_fail_decision, phase02_decision, starts_with, DummyGrasshopper, GHMode, GHQuery,
    GHResponse, Grasshopper, PrecisionLevel,
};
use curiefense::policy::{
    AclProfile, BodyDecoding, ContentFilterProfile, LimitRule, RequestInfo, SecurityPolicy, SimpleAction,
    SimpleDecision,
};
use curiefense::stats::{Stats, StatsStage};
use curiefense::tags::Tags;

struct FixedDetector {
    status: u32,
    body: String,
}

impl Grasshopper for FixedDetector {
    fn is_human(&self, _input: GHQuery) -> Result<PrecisionLevel, String> {
        Ok(PrecisionLevel::Active)
    }
    fn init_challenge(&self, _input: GHQuery, _mode: GHMode) -> Result<GHResponse, String> {
        Ok(GHResponse {
            precision_level: PrecisionLevel::Active,
            str_response: self.body.clone(),
            headers: vec![("X".to_string(), "Y".to_string())],
            status_code: self.status,
        })
    }
    fn verify_challenge(&self, _headers: Vec<(String, String)>) -> Result<String, String> {
        Ok("a=b=".to_string())
    }
    fn should_provide_app_sig(&self, _headers: Vec<(String, String)>) -> Result<GHResponse, String> {
        Ok(GHResponse {
            precision_level: PrecisionLevel::Active,
            str_response: String::new(),
            headers: vec![],
            status_code: 249,
        })
    }
    fn handle_bio_report(&self, _input: GHQuery, _p: PrecisionLevel) -> Result<GHResponse, String> {
        Ok(GHResponse {
            precision_level: PrecisionLevel::Active,
            str_response: "bio".to_string(),
            headers: vec![],
            status_code: 250,
        })
    }
}

fn block_action(status: u32) -> SimpleAction {
    SimpleAction { atype: ActionType::Block, block_mode: true, status, content: "blocked".to_string() }
}

fn strings(v: &[&str]) -> Vec<String> {
    v.iter().map(|s| s.to_string()).collect()
}

fn policy() -> SecurityPolicy {
    SecurityPolicy {
        policy_name: "pol".to_string(),
        entry_name: "entry".to_string(),
        acl_profile: AclProfile {
            id: "acl1".to_string(),
            name: "aclname".to_string(),
            force_deny: vec![],
            bypass: vec![],
            allow_bot: vec![],
            deny_bot: vec![],
            allow: vec![],
            deny: vec![],
            tags: vec![],
            action: block_action(403),
        },
        content_filter_profile: ContentFilterProfile {
            id: "cf1".to_string(),
            name: "cfname".to_string(),
            content_type: vec![],
            tags: vec![],
            action: block_action(403),
        },
        limits: vec![],
        acl_active: true,
        content_filter_active: true,
    }
}

fn request(path: &str, sp: SecurityPolicy) -> RequestInfo {
    RequestInfo {
        path: path.to_string(),
        headers: vec![("host".to_string(), "example.com".to_string())],
        cookies: vec![],
        ip: "1.2.3.4".to_string(),
        protocol: None,
        body_decoding: BodyDecoding::NoBody,
        secpolicy: sp,
    }
}

fn phase0(rinfo: RequestInfo, itags: Tags) -> APhase0 {
    APhase0 {
        flows: vec![],
        globalfilter_dec: SimpleDecision::Pass,
        precision_level: PrecisionLevel::Active,
        itags,
        reqinfo: rinfo,
        stats: Stats::new(),
    }
}

fn user_tags() -> Tags {
    let mut t = Tags::new();
    t.insert("user", Location::Headers);
    t
}

fn expect_phase1(r: InitResult) -> curiefense::analyze::APhase1 {
    match r {
        InitResult::Phase1(p) => p,
        InitResult::Res(_) => panic!("expected the pipeline to go on"),
    }
}

fn expect_res(r: InitResult) -> curiefense::analyze::AnalyzeResult {
    match r {
        InitResult::Res(r) => r,
        InitResult::Phase1(_) => panic!("expected a result"),
    }
}

fn run_to_finish(p0: APhase0, counts: Vec<Option<i64>>, cf: CfOutcome, mgh: Option<&FixedDetector>) -> curiefense::analyze::AnalyzeResult {
    let p1 = expect_phase1(analyze_init(mgh, p0));
    let p2: APhase2 = resolve_phase1(p1, &counts);
    analyze_finish(mgh, cf, p2)
}

fn has_acl_reason(d: &Decision, stage: AclStage) -> bool {
    d.reasons.iter().any(|r| matches!(&r.initiator, Initiator::Acl { stage: s, .. } if *s == stage))
}

#[test]
fn passive_magic_uri() {
    let gh = FixedDetector { status: 247, body: "chal".to_string() };
    let mut sp = policy();
    sp.acl_profile.deny = strings(&["user"]);
    let p0 = phase0(request("/c3650cdf/anything", sp), user_tags());
    let res = expect_res(analyze_init(Some(&gh), p0));
    let a = res.decision.maction.as_ref().unwrap();
    assert_eq!(a.atype, ActionType::Block);
    assert!(a.block_mode);
    assert_eq!(a.status, 247);
    assert_eq!(a.content, "chal");
    assert_eq!(a.headers, Some(vec![("X".to_string(), "Y".to_string())]));
    assert_eq!(a.extra_tags, Some(vec!["challenge_phase01".to_string()]));
    assert!(res.decision.reasons.is_empty());
    assert_eq!(res.stats.stage, StatsStage::Mapped);
    assert!(res.tags.contains("user", Location::Headers));
}

#[test]
fn passive_magic_uri_without_detector_goes_on() {
    let p0 = phase0(request("/c3650cdf/anything", policy()), Tags::new());
    let r = analyze_init::<FixedDetector>(None, p0);
    assert!(matches!(r, InitResult::Phase1(_)));
}

#[test]
fn body_malformed() {
    let mut sp = policy();
    sp.content_filter_profile.content_type = strings(&["application/json"]);
    sp.content_filter_profile.tags = strings(&["cf-extra"]);
    let mut rinfo = request("/api", sp);
    rinfo.body_decoding = BodyDecoding::DecodingFailed("bad utf-8".to_string());
    let res = expect_res(analyze_init::<FixedDetector>(None, phase0(rinfo, user_tags())));
    assert_eq!(res.decision.reasons.len(), 1);
    match &res.decision.reasons[0].initiator {
        Initiator::BodyMalformed { cause } => assert_eq!(cause, "bad utf-8"),
        _ => panic!("expected a malformed-body reason"),
    }
    let a = res.decision.maction.as_ref().unwrap();
    assert_eq!(a.status, 403);
    assert_eq!(a.content, "blocked");
    assert!(res.tags.contains("cf-extra", Location::Body));
    assert!(res.tags.contains("user", Location::Headers));
    assert!(res.tags.contains("securitypolicy:pol", Location::Request));
}

#[test]
fn limit_exceeded_final() {
    let mut sp = policy();
    sp.acl_profile.deny = strings(&["user"]);
    sp.limits = vec![LimitRule {
        id: "l1".to_string(),
        name: "limit one".to_string(),
        threshold: 10,
        timeframe: 60,
        action: block_action(503),
    }];
    let p0 = phase0(request("/", sp), user_tags());
    let p1 = expect_phase1(analyze_init::<FixedDetector>(None, p0));
    let queries = phase1_queries(&p1);
    assert_eq!(queries, vec![CounterQuery::IncrExpire { key: "l1:1.2.3.4".to_string(), ttl: 60 }]);
    let p2 = resolve_phase1(p1, &vec![Some(11)]);
    let cfblock = CfBlock { blocking: true, reasons: vec![] };
    let res = analyze_finish::<FixedDetector>(None, CfOutcome::Checked(Err(cfblock)), p2);
    assert!(res.decision.is_final());
    let a = res.decision.maction.as_ref().unwrap();
    assert_eq!(a.status, 503);
    assert_eq!(res.stats.stage, StatsStage::Limit);
    assert_eq!(res.stats.limit_matched, 1);
    assert_eq!(res.decision.reasons.len(), 1);
    assert!(matches!(&res.decision.reasons[0].initiator, Initiator::Limit { threshold: 10, .. }));
    assert!(!has_acl_reason(&res.decision, AclStage::Deny));
}

#[test]
fn limit_not_exceeded_at_threshold() {
    let mut sp = policy();
    sp.limits = vec![LimitRule {
        id: "l1".to_string(),
        name: "limit one".to_string(),
        threshold: 10,
        timeframe: 60,
        action: block_action(503),
    }];
    let res = run_to_finish(phase0(request("/", sp), Tags::new()), vec![Some(10)], CfOutcome::Checked(Ok(())), None);
    assert!(res.decision.maction.is_none());
    assert_eq!(res.stats.stage, StatsStage::ContentFilter);
}

#[test]
fn acl_bypass() {
    let mut sp = policy();
    sp.acl_profile.bypass = strings(&["user"]);
    sp.acl_profile.deny = strings(&["user"]);
    let cfblock = CfBlock { blocking: true, reasons: vec![] };
    let res = run_to_finish(phase0(request("/", sp), user_tags()), vec![], CfOutcome::Checked(Err(cfblock)), None);
    assert!(res.decision.maction.is_none());
    assert_eq!(res.decision.reasons.len(), 1);
    assert!(has_acl_reason(&res.decision, AclStage::Bypass));
    assert_eq!(res.stats.stage, StatsStage::Acl);
    assert_eq!(res.stats.acl_matched, 1);
}

#[test]
fn acl_challenge_without_detector() {
    let mut sp = policy();
    sp.acl_profile.deny_bot = strings(&["user"]);
    let mut p0 = phase0(request("/", sp), user_tags());
    p0.precision_level = PrecisionLevel::Invalid;
    let res = run_to_finish(p0, vec![], CfOutcome::Checked(Ok(())), None);
    let a = res.decision.maction.as_ref().unwrap();
    assert_eq!(a.atype, ActionType::Block);
    assert_eq!(a.status, 403);
    assert_eq!(a.extra_tags, None);
    assert!(has_acl_reason(&res.decision, AclStage::HumanOnly));
    assert_eq!(res.decision.reasons[0].decision, BDecision::Blocking);
    assert!(!res.tags.contains("challenge_phase01", Location::Request));
    assert_eq!(res.stats.stage, StatsStage::Acl);
}

#[test]
fn acl_challenge_with_detector() {
    let gh = FixedDetector { status: 247, body: "chal".to_string() };
    let mut sp = policy();
    sp.acl_profile.deny_bot = strings(&["user"]);
    let mut p0 = phase0(request("/", sp), user_tags());
    p0.precision_level = PrecisionLevel::Emulator;
    let res = run_to_finish(p0, vec![], CfOutcome::Checked(Ok(())), Some(&gh));
    let a = res.decision.maction.as_ref().unwrap();
    assert_eq!(a.status, 247);
    assert_eq!(a.extra_tags, Some(vec!["challenge_phase01".to_string()]));
}

#[test]
fn acl_inactive_demotes_deny() {
    let mut sp = policy();
    sp.acl_profile.deny = strings(&["user"]);
    sp.acl_active = false;
    let res = run_to_finish(phase0(request("/", sp), user_tags()), vec![], CfOutcome::Checked(Ok(())), None);
    assert!(res.decision.maction.is_none());
    assert_eq!(res.decision.reasons.len(), 1);
    assert_eq!(res.decision.reasons[0].decision, BDecision::InitiatorInactive);
    assert_eq!(res.stats.stage, StatsStage::ContentFilter);
}

#[test]
fn acl_extra_tags_at_reason_locations() {
    let mut sp = policy();
    sp.acl_profile.allow = strings(&["user"]);
    sp.acl_profile.tags = strings(&["acl-extra"]);
    let res = run_to_finish(phase0(request("/", sp), user_tags()), vec![], CfOutcome::Checked(Ok(())), None);
    assert!(res.tags.contains("acl-extra", Location::Attrs));
    assert!(has_acl_reason(&res.decision, AclStage::Allow));
}

fn cf_reason() -> BlockReason {
    BlockReason {
        initiator: Initiator::ContentFilter { ruleid: "r1".to_string(), risk_level: 5 },
        location: vec![Location::Body],
        decision: BDecision::Blocking,
    }
}

#[test]
fn content_filter_monitor_mode() {
    let mut sp = policy();
    sp.content_filter_active = false;
    sp.content_filter_profile.tags = strings(&["cf-extra"]);
    let cfblock = CfBlock { blocking: true, reasons: vec![cf_reason(), cf_reason()] };
    let res = run_to_finish(phase0(request("/", sp), user_tags()), vec![], CfOutcome::Checked(Err(cfblock)), None);
    assert_eq!(res.decision.reasons.len(), 2);
    for r in &res.decision.reasons {
        assert_eq!(r.decision, BDecision::InitiatorInactive);
        assert_eq!(r.location, vec![Location::Body]);
    }
    let a = res.decision.maction.as_ref().unwrap();
    assert!(!a.block_mode);
    assert!(!res.decision.is_final());
    assert!(res.tags.contains("cf-extra", Location::Body));
    assert_eq!(res.stats.stage, StatsStage::ContentFilter);
    assert_eq!(res.stats.cf_matched, 2);
}

#[test]
fn content_filter_active_blocks() {
    let sp = policy();
    let cfblock = CfBlock { blocking: true, reasons: vec![cf_reason()] };
    let res = run_to_finish(phase0(request("/", sp), Tags::new()), vec![], CfOutcome::Checked(Err(cfblock)), None);
    assert!(res.decision.is_final());
    assert_eq!(res.decision.reasons[0].decision, BDecision::Blocking);
}

#[test]
fn content_filter_unavailable_is_skipped() {
    let res = run_to_finish(phase0(request("/", policy()), Tags::new()), vec![], CfOutcome::Unavailable, None);
    assert!(res.stats.cf_skipped);
    assert!(res.decision.maction.is_none());
}

#[test]
fn global_filter_final_short_circuits() {
    let mut p0 = phase0(request("/", policy()), Tags::new());
    let reason = BlockReason {
        initiator: Initiator::GlobalFilter { id: "g".to_string(), name: "gf".to_string() },
        location: vec![Location::Request],
        decision: BDecision::Blocking,
    };
    p0.globalfilter_dec = SimpleDecision::Action(block_action(451), vec![reason]);
    let res = expect_res(analyze_init::<FixedDetector>(None, p0));
    assert_eq!(res.decision.maction.as_ref().unwrap().status, 451);
    assert_eq!(res.decision.reasons.len(), 1);
}

#[test]
fn global_filter_monitor_is_kept() {
    let mut p0 = phase0(request("/", policy()), Tags::new());
    let monitor = SimpleAction { atype: ActionType::Monitor, block_mode: false, status: 200, content: String::new() };
    p0.globalfilter_dec = SimpleDecision::Action(monitor, vec![]);
    let res = run_to_finish(p0, vec![], CfOutcome::Checked(Ok(())), None);
    assert_eq!(res.decision.maction.as_ref().unwrap().atype, ActionType::Monitor);
}

#[test]
fn policy_tags_are_stamped() {
    let p1 = expect_phase1(analyze_init::<FixedDetector>(None, phase0(request("/", policy()), user_tags())));
    let t = &p1.info.tags;
    for name in ["securitypolicy:pol", "securitypolicy-entry:entry", "aclid:acl1", "aclname:aclname", "contentfilterid:cf1", "contentfiltername:cfname"] {
        assert!(t.contains(name, Location::Request));
    }
    assert!(t.contains("user", Location::Headers));
    assert_eq!(t.len(), 7);
}

#[test]
fn phase02_sets_cookie() {
    let gh = FixedDetector { status: 247, body: String::new() };
    let path = "/7060ac19f50208cbb6b45328ef94140a612ee92387e015594234077b4d1e64f1/x";
    let res = expect_res(analyze_init(Some(&gh), phase0(request(path, policy()), Tags::new())));
    let a = res.decision.maction.as_ref().unwrap();
    assert_eq!(a.status, 248);
    assert_eq!(a.content, "{}");
    assert_eq!(
        a.headers,
        Some(vec![("Set-Cookie".to_string(), "rbzid=a-b-; Path=/; HttpOnly".to_string())])
    );
    assert_eq!(a.extra_tags, Some(vec!["challenge_phase02".to_string()]));
    assert!(res.decision.reasons.is_empty());
}

#[test]
fn phase02_error_gives_no_decision() {
    assert!(phase02_decision(Err("nope".to_string())).is_none());
    let rinfo = request("/7060ac19f50208cbb6b45328ef94140a612ee92387e015594234077b4d1e64f1", policy());
    assert!(challenge_phase02(&DummyGrasshopper {}, &rinfo).is_none());
}

#[test]
fn app_sig_and_bio_report() {
    let gh = FixedDetector { status: 247, body: String::new() };
    let res = expect_res(analyze_init(Some(&gh), phase0(request("/74d8-ffc3-0f63-4b3c-c5c9-5699-6d5b-3a1", policy()), Tags::new())));
    let a = res.decision.maction.as_ref().unwrap();
    assert_eq!(a.status, 249);
    assert_eq!(a.extra_tags, Some(vec!["check_app_sig".to_string()]));
    let res = expect_res(analyze_init(Some(&gh), phase0(request("/8d47-ffc3-0f63-4b3c-c5c9-5699-6d5b-3a1/r", policy()), Tags::new())));
    let a = res.decision.maction.as_ref().unwrap();
    assert_eq!(a.status, 250);
    assert_eq!(a.content, "bio");
    assert_eq!(a.extra_tags, Some(vec!["handle_bio_reports".to_string()]));
}

#[test]
fn dummy_detector_fails_safe() {
    let res = expect_res(analyze_init(Some(&DummyGrasshopper {}), phase0(request("/c3650cdf", policy()), Tags::new())));
    let a = res.decision.maction.as_ref().unwrap();
    assert_eq!(a.status, 500);
    assert_eq!(a.content, "internal_error");
    match &res.decision.reasons[0].initiator {
        Initiator::Phase01Unknown { reason } => assert_eq!(reason, "not implemented"),
        _ => panic!("expected a detector failure reason"),
    }
}

#[test]
fn fail_decision_shape() {
    let d = gh_fail_decision("boom");
    let a = d.maction.as_ref().unwrap();
    assert_eq!(a.atype, ActionType::Block);
    assert!(a.block_mode);
    assert_eq!(a.status, 500);
    assert_eq!(a.content, "internal_error");
    assert!(d.is_final());
}

#[test]
fn precision_levels() {
    assert!(PrecisionLevel::Active.is_human());
    assert!(PrecisionLevel::MobileSdk.is_human());
    assert!(!PrecisionLevel::Invalid.is_human());
    assert!(!PrecisionLevel::Emulator.is_human());
    let r = GHResponse::invalid();
    assert_eq!(r.precision_level, PrecisionLevel::Invalid);
    assert_eq!(r.str_response, "invalid");
    assert_eq!(r.status_code, 200);
}

#[test]
fn prefix_is_exact() {
    assert!(starts_with("/c3650cdf/x", "/c3650cdf"));
    assert!(!starts_with("/C3650cdf/x", "/c3650cdf"));
    assert!(!starts_with("/c365", "/c3650cdf"));
    assert!(starts_with("", ""));
}

fn action(atype: ActionType, block_mode: bool, status: u32) -> Action {
    Action { atype, block_mode, headers: None, status, content: String::new(), extra_tags: None }
}

#[test]
fn merge_stronger_wins_and_ties_take_later() {
    let d = merge_decisions(
        Decision::action(action(ActionType::Block, true, 1), vec![cf_reason()]),
        Decision::action(action(ActionType::Monitor, false, 2), vec![cf_reason()]),
    );
    assert_eq!(d.maction.as_ref().unwrap().status, 1);
    assert_eq!(d.reasons.len(), 2);
    let d = merge_decisions(
        Decision::action(action(ActionType::Challenge, true, 1), vec![]),
        Decision::action(action(ActionType::Challenge, false, 2), vec![]),
    );
    assert_eq!(d.maction.as_ref().unwrap().status, 2);
    assert!(!d.maction.as_ref().unwrap().block_mode);
    let d = merge_decisions(
        Decision::action(action(ActionType::Block, true, 1), vec![]),
        Decision::action(action(ActionType::Block, false, 2), vec![]),
    );
    assert_eq!(d.maction.as_ref().unwrap().status, 2);
    assert!(d.maction.as_ref().unwrap().block_mode);
}

#[test]
fn merge_with_empty_pass_and_associativity() {
    let d = merge_decisions(Decision::pass(vec![]), Decision::action(action(ActionType::RequestHeader, false, 7), vec![]));
    assert_eq!(d.maction.as_ref().unwrap().status, 7);
    let e = merge_decisions(Decision::pass(vec![]), Decision::pass(vec![]));
    assert!(e.maction.is_none() && e.reasons.is_empty());
    let mk = || {
        (
            Decision::action(action(ActionType::Block, false, 1), vec![cf_reason()]),
            Decision::action(action(ActionType::Monitor, false, 2), vec![]),
            Decision::action(action(ActionType::Block, true, 3), vec![cf_reason()]),
        )
    };
    let (a, b, c) = mk();
    let left = merge_decisions(merge_decisions(a, b), c);
    let (a, b, c) = mk();
    let right = merge_decisions(a, merge_decisions(b, c));
    assert_eq!(left.maction.as_ref().unwrap().status, right.maction.as_ref().unwrap().status);
    assert_eq!(left.maction.as_ref().unwrap().block_mode, right.maction.as_ref().unwrap().block_mode);
    assert!(left.maction.as_ref().unwrap().block_mode);
    assert_eq!(left.reasons.len(), right.reasons.len());
}

#[test]
fn demotion_keeps_content() {
    let mut r = cf_reason();
    r.inactive();
    assert_eq!(r.decision, BDecision::InitiatorInactive);
    assert_eq!(r.location, vec![Location::Body]);
    assert!(matches!(r.initiator, Initiator::ContentFilter { risk_level: 5, .. }));
    let mut m = cf_reason();
    m.decision = BDecision::Monitor;
    m.inactive();
    assert_eq!(m.decision, BDecision::Monitor);
}

#[test]
fn tags_insert_is_idempotent() {
    let mut t = Tags::new();
    t.insert("a", Location::Body);
    t.insert("a", Location::Body);
    assert_eq!(t.len(), 1);
    t.insert("a", Location::Path);
    assert_eq!(t.locations("a"), vec![Location::Body, Location::Path]);
    t.insert_qualified("k", "v", Location::Request);
    assert!(t.contains_tag("k:v"));
    t.insert_locs("b", &vec![Location::Cookies, Location::Headers]);
    assert!(t.contains("b", Location::Cookies) && t.contains("b", Location::Headers));
    assert!(!t.contains_tag("c"));
}

#[test]
fn acl_rule_order() {
    let mut p = policy().acl_profile;
    p.force_deny = strings(&["x"]);
    p.bypass = strings(&["x"]);
    let mut t = Tags::new();
    t.insert("x", Location::Request);
    let d = check_acl(&t, &p, true).unwrap();
    assert_eq!(d.stage, AclStage::ForceDeny);
    assert_eq!(d.tags, strings(&["x"]));
    p.force_deny = vec![];
    assert_eq!(check_acl(&t, &p, true).unwrap().stage, AclStage::Bypass);
    p.bypass = vec![];
    p.deny_bot = strings(&["x", "y"]);
    assert!(check_acl(&t, &p, true).is_none());
    let d = check_acl(&t, &p, false).unwrap();
    assert!(d.challenge);
    assert_eq!(d.tags, strings(&["x"]));
}

#[test]
fn flows_tag_completed_sequences() {
    let mut p0 = phase0(request("/", policy()), Tags::new());
    p0.flows = vec![
        FlowCheck { id: "f".to_string(), name: "f".to_string(), key: "k1".to_string(), step: 2, last: true, ttl: 30, tag: "flow-done".to_string() },
        FlowCheck { id: "g".to_string(), name: "g".to_string(), key: "k2".to_string(), step: 0, last: false, ttl: 30, tag: "other".to_string() },
    ];
    let p1 = expect_phase1(analyze_init::<FixedDetector>(None, p0));
    let q = phase1_queries(&p1);
    assert_eq!(q, vec![CounterQuery::Get { key: "k1".to_string() }, CounterQuery::IncrExpire { key: "k2".to_string(), ttl: 30 }]);
    let p2 = resolve_phase1(p1, &vec![Some(2), Some(1)]);
    assert!(matches!(&p2.flows[0], FlowResult::LastStep(t) if t == "flow-done"));
    assert!(matches!(p2.flows[1], FlowResult::NonLastStep));
    let res = analyze_finish::<FixedDetector>(None, CfOutcome::Checked(Ok(())), p2);
    assert!(res.tags.contains("flow-done", Location::Request));
    assert_eq!(res.stats.flow_matched, 1);
    assert_eq!(res.stats.flow_considered, 2);
}

#[test]
fn counter_store_down_fails_open() {
    let mut sp = policy();
    sp.limits = vec![LimitRule { id: "l".to_string(), name: "l".to_string(), threshold: 0, timeframe: 1, action: block_action(503) }];
    let p1 = expect_phase1(analyze_init::<FixedDetector>(None, phase0(request("/", sp), Tags::new())));
    let p2 = skip_counters(p1);
    assert!(p2.limits.is_empty());
    let res = analyze_finish::<FixedDetector>(None, CfOutcome::Checked(Ok(())), p2);
    assert!(res.decision.maction.is_none());
    let p2b: AnalysisPhase<FlowResult, _> = AnalysisPhase::new(vec![], Vec::<u8>::new(), res_info_dummy());
    assert!(p2b.limits.is_empty());
}

fn res_info_dummy() -> curiefense::analyze::AnalysisInfo {
    curiefense::analyze::AnalysisInfo {
        precision_level: PrecisionLevel::Active,
        p0_decision: Decision::pass(vec![]),
        reqinfo: request("/", policy()),
        stats: Stats::new(),
        tags: Tags::new(),
    }
}

#[test]
fn detector_error_on_magic_paths_goes_on() {
    for path in [
        "/7060ac19f50208cbb6b45328ef94140a612ee92387e015594234077b4d1e64f1",
        "/74d8-ffc3-0f63-4b3c-c5c9-5699-6d5b-3a1",
        "/8d47-ffc3-0f63-4b3c-c5c9-5699-6d5b-3a1",
    ] {
        let p1 = expect_phase1(analyze_init(Some(&DummyGrasshopper {}), phase0(request(path, policy()), Tags::new())));
        assert!(p1.info.p0_decision.maction.is_none());
        assert!(p1.info.p0_decision.reasons.is_empty());
    }
}

#[test]
fn magic_answer_ends_the_request() {
    let d = gh_fail_decision("x");
    let r = init_after_magic(Some(d), SimpleDecision::Pass, vec![], PrecisionLevel::Active, request("/", policy()), Stats::new(), Tags::new());
    let res = expect_res(r);
    assert_eq!(res.decision.maction.as_ref().unwrap().status, 500);
    assert_eq!(res.stats.stage, StatsStage::Mapped);
    let r = init_after_magic(None, SimpleDecision::Pass, vec![], PrecisionLevel::Active, request("/", policy()), Stats::new(), Tags::new());
    assert!(matches!(r, InitResult::Phase1(_)));
}

#[test]
fn dummy_detector_fails_every_call() {
    let gh = DummyGrasshopper {};
    let q = || GHQuery { headers: vec![], cookies: vec![], ip: String::new(), protocol: "https".to_string() };
    assert!(gh.is_human(q()).is_err());
    assert!(gh.init_challenge(q(), GHMode::Active).is_err());
    assert!(gh.verify_challenge(vec![]).is_err());
    assert!(gh.should_provide_app_sig(vec![]).is_err());
    assert!(gh.handle_bio_report(q(), PrecisionLevel::Active).is_err());
}

#[test]
fn content_filter_runs_only_when_reached() {
    let mut sp = policy();
    sp.acl_profile.deny = strings(&["user"]);
    let p1 = expect_phase1(analyze_init::<FixedDetector>(None, phase0(request("/", sp), user_tags())));
    let p2 = resolve_phase1(p1, &vec![]);
    assert!(matches!(analyze_acl::<FixedDetector>(None, p2), FinishStep::Done(_)));

    let p1 = expect_phase1(analyze_init::<FixedDetector>(None, phase0(request("/", policy()), user_tags())));
    let p2 = resolve_phase1(p1, &vec![]);
    let pending = match analyze_acl::<FixedDetector>(None, p2) {
        FinishStep::ContentFilter(p) => p,
        FinishStep::Done(_) => panic!("expected the content filter to be reached"),
    };
    assert_eq!(pending.stats.stage, StatsStage::Acl);
    let res = analyze_content_filter(pending, CfOutcome::Checked(Err(CfBlock { blocking: false, reasons: vec![cf_reason()] })));
    assert!(res.decision.maction.is_none());
    assert_eq!(res.decision.reasons.len(), 1);
    assert_eq!(res.stats.cf_matched, 1);
}
