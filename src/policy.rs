use vstd::prelude::*;
use crate::decision::{Action, ActionType, BlockReason, Decision};

verus! {

/// Exact copy of a string list.
pub fn copy_strings(v: &Vec<String>) -> (r: Vec<String>)
    ensures
        r@ == v@,
{
    let mut r: Vec<String> = Vec::new();
    let mut i: usize = 0;
    while i < v.len()
        invariant
            0 <= i <= v@.len(),
            r@ == v@.subrange(0, i as int),
        decreases v@.len() - i,
    {
        r.push(v[i].clone());
        assert(r@ =~= v@.subrange(0, i + 1));
        i = i + 1;
    }
    assert(v@.subrange(0, v@.len() as int) =~= v@);
    r
}

/// Exact copy of a list of name/value pairs.
pub fn copy_pairs(v: &Vec<(String, String)>) -> (r: Vec<(String, String)>)
    ensures
        r@ == v@,
{
    let mut r: Vec<(String, String)> = Vec::new();
    let mut i: usize = 0;
    while i < v.len()
        invariant
            0 <= i <= v@.len(),
            r@ == v@.subrange(0, i as int),
        decreases v@.len() - i,
    {
        r.push((v[i].0.clone(), v[i].1.clone()));
        assert(r@ =~= v@.subrange(0, i + 1));
        i = i + 1;
    }
    assert(v@.subrange(0, v@.len() as int) =~= v@);
    r
}

/// A configured response action.
#[derive(Debug)]
pub struct SimpleAction {
    pub atype: ActionType,
    pub block_mode: bool,
    pub status: u32,
    pub content: String,
}

impl SimpleAction {
    /// The action applied to a request.
    pub open spec fn spec_action(&self) -> Action {
        Action {
            atype: self.atype,
            block_mode: self.block_mode,
            headers: None,
            status: self.status,
            content: self.content,
            extra_tags: None,
        }
    }

    pub fn duplicate(&self) -> (r: SimpleAction)
        ensures
            r == *self,
    {
        SimpleAction { atype: self.atype, block_mode: self.block_mode, status: self.status, content: self.content.clone() }
    }

    pub fn to_action(&self) -> (r: Action)
        ensures
            r == self.spec_action(),
    {
        Action {
            atype: self.atype,
            block_mode: self.block_mode,
            headers: None,
            status: self.status,
            content: self.content.clone(),
            extra_tags: None,
        }
    }

    /// The decision that applies this action for the given reasons.
    pub fn to_decision(&self, reasons: Vec<BlockReason>) -> (r: Decision)
        ensures
            r.maction == Some(self.spec_action()),
            r.reasons == reasons,
    {
        Decision::action(self.to_action(), reasons)
    }
}

/// Outcome computed before the pipeline by the global filter.
#[derive(Debug)]
pub enum SimpleDecision {
    Pass,
    Action(SimpleAction, Vec<BlockReason>),
}

/// Result of decoding the request body.
#[derive(Debug)]
pub enum BodyDecoding {
    NoBody,
    Decoded,
    DecodingFailed(String),
}

/// Access-control profile: label lists per category, the labels it adds and
/// the action it applies.
#[derive(Debug)]
pub struct AclProfile {
    pub id: String,
    pub name: String,
    pub force_deny: Vec<String>,
    pub bypass: Vec<String>,
    pub allow_bot: Vec<String>,
    pub deny_bot: Vec<String>,
    pub allow: Vec<String>,
    pub deny: Vec<String>,
    pub tags: Vec<String>,
    pub action: SimpleAction,
}

/// Content-filter profile: the accepted content types, the labels it adds
/// and the action it applies.
#[derive(Debug)]
pub struct ContentFilterProfile {
    pub id: String,
    pub name: String,
    pub content_type: Vec<String>,
    pub tags: Vec<String>,
    pub action: SimpleAction,
}

/// A rate rule: more than `threshold` hits per `timeframe` seconds for one
/// client triggers `action`.
#[derive(Debug)]
pub struct LimitRule {
    pub id: String,
    pub name: String,
    pub threshold: u64,
    pub timeframe: u64,
    pub action: SimpleAction,
}

impl LimitRule {
    pub fn duplicate(&self) -> (r: LimitRule)
        ensures
            r == *self,
    {
        LimitRule {
            id: self.id.clone(),
            name: self.name.clone(),
            threshold: self.threshold,
            timeframe: self.timeframe,
            action: self.action.duplicate(),
        }
    }
}

/// The policy bound to a request.
#[derive(Debug)]
pub struct SecurityPolicy {
    pub policy_name: String,
    pub entry_name: String,
    pub acl_profile: AclProfile,
    pub content_filter_profile: ContentFilterProfile,
    pub limits: Vec<LimitRule>,
    pub acl_active: bool,
    pub content_filter_active: bool,
}

/// A parsed request with its policy.
#[derive(Debug)]
pub struct RequestInfo {
    pub path: String,
    pub headers: Vec<(String, String)>,
    pub cookies: Vec<(String, String)>,
    pub ip: String,
    pub protocol: Option<String>,
    pub body_decoding: BodyDecoding,
    pub secpolicy: SecurityPolicy,
}

} // verus!
