use vstd::prelude::*;
use crate::decision::{Action, ActionType, BDecision, BlockReason, Decision};
use crate::policy::{copy_pairs, RequestInfo};

verus! {

/// Path prefix that asks for a passive challenge.
pub const PASSIVE_CHALLENGE_PREFIX: &'static str = "/c3650cdf";

/// Path prefix that carries a challenge answer to verify.
pub const CHALLENGE_VERIFY_PREFIX: &'static str = "/7060ac19f50208cbb6b45328ef94140a612ee92387e015594234077b4d1e64f1";

/// Path prefix that asks whether an application signature is needed.
pub const APP_SIG_PREFIX: &'static str = "/74d8-ffc3-0f63-4b3c-c5c9-5699-6d5b-3a1";

/// Path prefix that carries a biometric report.
pub const BIO_REPORT_PREFIX: &'static str = "/8d47-ffc3-0f63-4b3c-c5c9-5699-6d5b-3a1";

/// Bit-exact prefix test on the characters of a path.
pub fn starts_with(s: &str, prefix: &str) -> (r: bool)
    ensures
        r == prefix@.is_prefix_of(s@),
{
    let n = s.unicode_len();
    let m = prefix.unicode_len();
    if m > n {
        return false;
    }
    let mut i: usize = 0;
    while i < m
        invariant
            n == s@.len(),
            m == prefix@.len(),
            m <= n,
            0 <= i <= m,
            forall|j: int| 0 <= j < i ==> s@[j] == prefix@[j],
        decreases m - i,
    {
        if s.get_char(i) != prefix.get_char(i) {
            return false;
        }
        i = i + 1;
    }
    assert(prefix@ =~= s@.subrange(0, m as int));
    true
}

/// Classification of a client by the bot detector.
#[derive(Debug, Clone, Copy, PartialEq, Eq, Structural)]
pub enum PrecisionLevel {
    Active,
    Passive,
    Interactive,
    MobileSdk,
    Emulator,
    Invalid,
}

impl PrecisionLevel {
    pub open spec fn spec_is_human(self) -> bool {
        self != PrecisionLevel::Invalid && self != PrecisionLevel::Emulator
    }

    pub fn is_human(&self) -> (r: bool)
        ensures
            r == self.spec_is_human(),
    {
        (*self != PrecisionLevel::Invalid) && (*self != PrecisionLevel::Emulator)
    }
}

/// Kind of challenge to issue.
#[derive(Debug, Clone, Copy, PartialEq, Eq, Structural)]
pub enum GHMode {
    Passive,
    Active,
    Interactive,
}

/// What the bot detector is told of a request.
#[derive(Debug)]
pub struct GHQuery {
    pub headers: Vec<(String, String)>,
    pub cookies: Vec<(String, String)>,
    pub ip: String,
    pub protocol: String,
}

/// Headers and cookies of a request, for the biometric report.
#[derive(Debug)]
pub struct GHBioQuery {
    pub headers: Vec<(String, String)>,
    pub cookies: Vec<(String, String)>,
}

impl GHQuery {
    /// The query for a request; the protocol defaults to `https`.
    pub fn from_request(rinfo: &RequestInfo) -> (r: GHQuery)
        ensures
            r.headers@ == rinfo.headers@,
            r.cookies@ == rinfo.cookies@,
            r.ip == rinfo.ip,
            r.protocol@ == (match rinfo.protocol {
                Some(p) => p@,
                None => "https"@,
            }),
    {
        let protocol = match &rinfo.protocol {
            Some(p) => p.clone(),
            None => "https".to_owned(),
        };
        GHQuery {
            headers: copy_pairs(&rinfo.headers),
            cookies: copy_pairs(&rinfo.cookies),
            ip: rinfo.ip.clone(),
            protocol,
        }
    }
}

/// A response of the bot detector.
#[derive(Debug)]
pub struct GHResponse {
    pub precision_level: PrecisionLevel,
    pub str_response: String,
    pub headers: Vec<(String, String)>,
    pub status_code: u32,
}

impl GHResponse {
    pub fn invalid() -> (r: GHResponse)
        ensures
            r.precision_level == PrecisionLevel::Invalid,
            r.str_response@ == "invalid"@,
            r.headers@.len() == 0,
            r.status_code == 200,
    {
        GHResponse {
            precision_level: PrecisionLevel::Invalid,
            str_response: "invalid".to_owned(),
            headers: Vec::new(),
            status_code: 200,
        }
    }
}

/// The operations of a bot-detection engine.
pub trait Grasshopper {
    fn is_human(&self, input: GHQuery) -> Result<PrecisionLevel, String>;

    fn init_challenge(&self, input: GHQuery, mode: GHMode) -> Result<GHResponse, String>;

    fn verify_challenge(&self, headers: Vec<(String, String)>) -> Result<String, String>;

    fn should_provide_app_sig(&self, headers: Vec<(String, String)>) -> Result<GHResponse, String>;

    fn handle_bio_report(&self, input: GHQuery, precision_level: PrecisionLevel) -> Result<GHResponse, String>;
}

/// A detector for deployments without the engine: every call fails.
pub struct DummyGrasshopper {}

impl Grasshopper for DummyGrasshopper {
    fn is_human(&self, _input: GHQuery) -> (r: Result<PrecisionLevel, String>)
        ensures
            r is Err,
    {
        Err("not implemented".to_owned())
    }

    fn init_challenge(&self, _input: GHQuery, _mode: GHMode) -> (r: Result<GHResponse, String>)
        ensures
            r is Err,
    {
        Err("not implemented".to_owned())
    }

    fn verify_challenge(&self, _headers: Vec<(String, String)>) -> (r: Result<String, String>)
        ensures
            r is Err,
    {
        Err("not implemented".to_owned())
    }

    fn should_provide_app_sig(&self, _headers: Vec<(String, String)>) -> (r: Result<GHResponse, String>)
        ensures
            r is Err,
    {
        Err("not implemented".to_owned())
    }

    fn handle_bio_report(&self, _input: GHQuery, _precision_level: PrecisionLevel) -> (r: Result<GHResponse, String>)
        ensures
            r is Err,
    {
        Err("not implemented".to_owned())
    }
}

/// Whether the action carries exactly one extra tag, `t`.
pub open spec fn has_single_extra_tag(a: Action, t: Seq<char>) -> bool {
    &&& a.extra_tags is Some
    &&& a.extra_tags->Some_0@.len() == 1
    &&& a.extra_tags->Some_0@[0]@ == t
}

/// The fail-safe decision for a detector error with message `msg`.
pub open spec fn is_fail_decision(d: Decision, msg: Seq<char>) -> bool {
    &&& d.maction is Some
    &&& d.maction->Some_0.atype == ActionType::Block
    &&& d.maction->Some_0.block_mode
    &&& d.maction->Some_0.status == 500
    &&& d.maction->Some_0.headers is None
    &&& d.maction->Some_0.content@ == "internal_error"@
    &&& d.maction->Some_0.extra_tags is None
    &&& d.reasons@.len() == 1
    &&& d.reasons@[0].initiator is Phase01Unknown
    &&& d.reasons@[0].initiator->Phase01Unknown_reason@ == msg
    &&& d.reasons@[0].decision == BDecision::Blocking
    &&& d.reasons@[0].location@.len() == 0
}

/// Shape of an issued challenge, whatever the detector answered.
pub open spec fn is_phase01_challenge(d: Decision, reasons: Seq<BlockReason>) -> bool {
    &&& d.maction is Some
    &&& d.maction->Some_0.atype == ActionType::Block
    &&& d.maction->Some_0.block_mode
    &&& d.maction->Some_0.status == 247
    &&& has_single_extra_tag(d.maction->Some_0, "challenge_phase01"@)
    &&& d.reasons@ == reasons
}

/// The decision for the detector's answer to a challenge request.
pub open spec fn phase01_outcome(d: Decision, res: Result<GHResponse, String>, reasons: Seq<BlockReason>) -> bool {
    match res {
        Ok(resp) => {
            &&& is_phase01_challenge(d, reasons)
            &&& d.maction->Some_0.headers == Some(resp.headers)
            &&& d.maction->Some_0.content == resp.str_response
        },
        Err(e) => is_fail_decision(d, e@),
    }
}

/// Either outcome of a challenge request.
pub open spec fn is_phase01_result(d: Decision, reasons: Seq<BlockReason>) -> bool {
    is_phase01_challenge(d, reasons) || exists|e: Seq<char>| is_fail_decision(d, e)
}

/// Block with status 500 for a failed detector call.
pub fn gh_fail_decision(reason: &str) -> (d: Decision)
    ensures
        is_fail_decision(d, reason@),
{
    let r = BlockReason::phase01_unknown(reason);
    let d = Decision::action(
        Action {
            atype: ActionType::Block,
            block_mode: true,
            headers: None,
            status: 500,
            content: "internal_error".to_owned(),
            extra_tags: None,
        },
        vec![r],
    );
    d
}

fn single_tag(t: &str) -> (r: Option<Vec<String>>)
    ensures
        r is Some,
        r->Some_0@.len() == 1,
        r->Some_0@[0]@ == t@,
{
    Some(vec![t.to_owned()])
}

/// The decision for the detector's answer to a challenge request.
pub fn phase01_decision(res: Result<GHResponse, String>, reasons: Vec<BlockReason>) -> (d: Decision)
    ensures
        phase01_outcome(d, res, reasons@),
{
    match res {
        Ok(resp) => Decision::action(
            Action {
                atype: ActionType::Block,
                block_mode: true,
                headers: Some(resp.headers),
                status: 247,
                content: resp.str_response,
                extra_tags: single_tag("challenge_phase01"),
            },
            reasons,
        ),
        Err(e) => gh_fail_decision(e.as_str()),
    }
}

/// Asks the detector for a challenge of the given mode.
pub fn challenge_phase01<GH: Grasshopper>(gh: &GH, rinfo: &RequestInfo, reasons: Vec<BlockReason>, mode: GHMode) -> (d: Decision)
    ensures
        is_phase01_result(d, reasons@),
{
    let query = GHQuery::from_request(rinfo);
    let res = gh.init_challenge(query, mode);
    let ghost r = res;
    let d = phase01_decision(res, reasons);
    proof {
        if let Err(e) = r {
            assert(is_fail_decision(d, e@));
        }
    }
    d
}

/// Replaces every `=` by `-`.
pub open spec fn dash_for_equals(s: Seq<char>) -> Seq<char> {
    s.map_values(|c: char| if c == '=' { '-' } else { c })
}

/// The text with every `=` replaced by `-`.
fn replace_equals(s: &str) -> (r: String)
    ensures
        r@ == dash_for_equals(s@),
{
    let n = s.unicode_len();
    let mut r = String::new();
    let mut i: usize = 0;
    while i < n
        invariant
            n == s@.len(),
            0 <= i <= n,
            r@ == dash_for_equals(s@.subrange(0, i as int)),
        decreases n - i,
    {
        let c = s.get_char(i);
        let piece = if c == '=' {
            "-"
        } else {
            s.substring_char(i, i + 1)
        };
        proof {
            reveal_strlit("-");
        }
        assert(piece@ =~= seq![if c == '=' { '-' } else { c }]);
        r = r.concat(piece);
        assert(dash_for_equals(s@.subrange(0, i + 1)) =~= dash_for_equals(s@.subrange(0, i as int)).push(
            if c == '=' { '-' } else { c },
        ));
        i = i + 1;
    }
    assert(s@.subrange(0, n as int) =~= s@);
    r
}

/// The cookie that records a verified challenge token.
pub open spec fn verified_cookie(token: Seq<char>) -> Seq<char> {
    "rbzid="@ + dash_for_equals(token) + "; Path=/; HttpOnly"@
}

/// Shape of the answer to a verified challenge, whatever the token.
pub open spec fn is_phase02_answer(d: Decision) -> bool {
    &&& d.maction is Some
    &&& d.maction->Some_0.atype == ActionType::Block
    &&& d.maction->Some_0.block_mode
    &&& d.maction->Some_0.status == 248
    &&& d.maction->Some_0.content@ == "{}"@
    &&& has_single_extra_tag(d.maction->Some_0, "challenge_phase02"@)
    &&& d.maction->Some_0.headers is Some
    &&& d.maction->Some_0.headers->Some_0@.len() == 1
    &&& d.maction->Some_0.headers->Some_0@[0].0@ == "Set-Cookie"@
    &&& d.reasons@.len() == 0
}

/// The decision for the detector's verdict on a challenge answer.
pub fn phase02_decision(res: Result<String, String>) -> (r: Option<Decision>)
    ensures
        match res {
            Ok(token) => r is Some && is_phase02_answer(r->Some_0)
                && r->Some_0.maction->Some_0.headers->Some_0@[0].1@ == verified_cookie(token@),
            Err(_) => r is None,
        },
{
    match res {
        Ok(token) => {
            let cookie = "rbzid=".to_owned().concat(replace_equals(token.as_str()).as_str()).concat("; Path=/; HttpOnly");
            let headers = vec![("Set-Cookie".to_owned(), cookie)];
            Some(Decision::action(
                Action {
                    atype: ActionType::Block,
                    block_mode: true,
                    headers: Some(headers),
                    status: 248,
                    content: "{}".to_owned(),
                    extra_tags: single_tag("challenge_phase02"),
                },
                Vec::new(),
            ))
        },
        Err(_) => None,
    }
}

/// Verifies a challenge answer when the path asks for it.
pub fn challenge_phase02<GH: Grasshopper>(gh: &GH, rinfo: &RequestInfo) -> (r: Option<Decision>)
    ensures
        !CHALLENGE_VERIFY_PREFIX@.is_prefix_of(rinfo.path@) ==> r is None,
        r is Some ==> is_phase02_answer(r->Some_0),
{
    if !starts_with(rinfo.path.as_str(), CHALLENGE_VERIFY_PREFIX) {
        return None;
    }
    let res = gh.verify_challenge(copy_pairs(&rinfo.headers));
    phase02_decision(res)
}

/// Shape of a detector answer relayed with status and headers of the engine.
pub open spec fn is_relayed_answer(d: Decision, tag: Seq<char>) -> bool {
    &&& d.maction is Some
    &&& d.maction->Some_0.atype == ActionType::Block
    &&& d.maction->Some_0.block_mode
    &&& has_single_extra_tag(d.maction->Some_0, tag)
    &&& d.maction->Some_0.headers is Some
    &&& d.reasons@.len() == 0
}

/// The decision for the detector's answer on the application signature.
pub fn app_sig_decision(res: Result<GHResponse, String>) -> (r: Option<Decision>)
    ensures
        match res {
            Ok(resp) => r is Some && is_relayed_answer(r->Some_0, "check_app_sig"@)
                && r->Some_0.maction->Some_0.headers == Some(resp.headers)
                && r->Some_0.maction->Some_0.status == resp.status_code
                && r->Some_0.maction->Some_0.content@ == "{}"@,
            Err(_) => r is None,
        },
{
    match res {
        Ok(resp) => Some(Decision::action(
            Action {
                atype: ActionType::Block,
                block_mode: true,
                headers: Some(resp.headers),
                status: resp.status_code,
                content: "{}".to_owned(),
                extra_tags: single_tag("check_app_sig"),
            },
            Vec::new(),
        )),
        Err(_) => None,
    }
}

/// Asks the detector whether an application signature is needed, when the
/// path asks for it.
pub fn check_app_sig<GH: Grasshopper>(gh: &GH, rinfo: &RequestInfo) -> (r: Option<Decision>)
    ensures
        !APP_SIG_PREFIX@.is_prefix_of(rinfo.path@) ==> r is None,
        r is Some ==> is_relayed_answer(r->Some_0, "check_app_sig"@),
{
    if !starts_with(rinfo.path.as_str(), APP_SIG_PREFIX) {
        return None;
    }
    let res = gh.should_provide_app_sig(copy_pairs(&rinfo.headers));
    app_sig_decision(res)
}

/// The decision for the detector's answer to a biometric report.
pub fn bio_report_decision(res: Result<GHResponse, String>) -> (r: Option<Decision>)
    ensures
        match res {
            Ok(resp) => r is Some && is_relayed_answer(r->Some_0, "handle_bio_reports"@)
                && r->Some_0.maction->Some_0.headers == Some(resp.headers)
                && r->Some_0.maction->Some_0.status == resp.status_code
                && r->Some_0.maction->Some_0.content == resp.str_response,
            Err(_) => r is None,
        },
{
    match res {
        Ok(resp) => Some(Decision::action(
            Action {
                atype: ActionType::Block,
                block_mode: true,
                headers: Some(resp.headers),
                status: resp.status_code,
                content: resp.str_response,
                extra_tags: single_tag("handle_bio_reports"),
            },
            Vec::new(),
        )),
        Err(_) => None,
    }
}

/// Hands a biometric report to the detector, when the path carries one.
pub fn handle_bio_reports<GH: Grasshopper>(gh: &GH, rinfo: &RequestInfo, precision_level: PrecisionLevel) -> (r: Option<Decision>)
    ensures
        !BIO_REPORT_PREFIX@.is_prefix_of(rinfo.path@) ==> r is None,
        r is Some ==> is_relayed_answer(r->Some_0, "handle_bio_reports"@),
{
    if !starts_with(rinfo.path.as_str(), BIO_REPORT_PREFIX) {
        return None;
    }
    let query = GHQuery::from_request(rinfo);
    let res = gh.handle_bio_report(query, precision_level);
    bio_report_decision(res)
}

} // verus!
