use vstd::prelude::*;

verus! {

/// Where in the request an observation was made.
#[derive(Debug, Clone, Copy, PartialEq, Eq, Structural)]
pub enum Location {
    Request,
    Headers,
    Cookies,
    Body,
    Path,
    Attrs,
}

/// Kind of a response action, ordered by strength.
#[derive(Debug, Clone, Copy, PartialEq, Eq, Structural)]
pub enum ActionType {
    Monitor,
    RequestHeader,
    Challenge,
    Block,
}

impl ActionType {
    /// Strength of an action kind; a plain pass has strength 0.
    pub open spec fn spec_rank(self) -> nat {
        match self {
            ActionType::Monitor => 1,
            ActionType::RequestHeader => 2,
            ActionType::Challenge => 3,
            ActionType::Block => 4,
        }
    }

    pub fn rank(&self) -> (r: u8)
        ensures
            r as nat == self.spec_rank(),
    {
        match self {
            ActionType::Monitor => 1,
            ActionType::RequestHeader => 2,
            ActionType::Challenge => 3,
            ActionType::Block => 4,
        }
    }

    /// Kinds that stop the request when enforced.
    pub open spec fn spec_stops(self) -> bool {
        self == ActionType::Block || self == ActionType::Challenge
    }
}

/// Severity of a block reason.
#[derive(Debug, Clone, Copy, PartialEq, Eq, Structural)]
pub enum BDecision {
    Skip,
    Monitor,
    InitiatorInactive,
    Blocking,
}

impl BDecision {
    /// Demotes an enforcing severity to an observation.
    pub open spec fn spec_inactive(self) -> BDecision {
        if self == BDecision::Blocking {
            BDecision::InitiatorInactive
        } else {
            self
        }
    }

    pub fn inactive(&mut self)
        ensures
            *final(self) == old(self).spec_inactive(),
    {
        if *self == BDecision::Blocking {
            *self = BDecision::InitiatorInactive;
        }
    }
}

/// Outcome category of the access-control evaluation.
#[derive(Debug, Clone, Copy, PartialEq, Eq, Structural)]
pub enum AclStage {
    Allow,
    Deny,
    Bypass,
    ForceDeny,
    HumanOnly,
    BotOnly,
}

/// The check that produced a block reason, with its details.
#[derive(Debug)]
pub enum Initiator {
    GlobalFilter { id: String, name: String },
    Acl { tags: Vec<String>, stage: AclStage },
    Limit { id: String, name: String, threshold: u64 },
    Flow { id: String, name: String },
    ContentFilter { ruleid: String, risk_level: u8 },
    BodyMalformed { cause: String },
    Phase01Unknown { reason: String },
    Phase02,
}

/// A structured cause of a decision.
#[derive(Debug)]
pub struct BlockReason {
    pub initiator: Initiator,
    pub location: Vec<Location>,
    pub decision: BDecision,
}

impl BlockReason {
    /// Demotes the reason to an observation; everything else is kept.
    pub fn inactive(&mut self)
        ensures
            final(self).initiator == old(self).initiator,
            final(self).location == old(self).location,
            final(self).decision == old(self).decision.spec_inactive(),
    {
        self.decision.inactive();
    }

    pub fn body_malformed(cause: &String) -> (r: BlockReason)
        ensures
            r.initiator is BodyMalformed,
            r.initiator->BodyMalformed_cause@ == cause@,
            r.location@ == seq![Location::Body],
            r.decision == BDecision::Blocking,
    {
        BlockReason {
            initiator: Initiator::BodyMalformed { cause: cause.clone() },
            location: vec![Location::Body],
            decision: BDecision::Blocking,
        }
    }

    pub fn phase01_unknown(reason: &str) -> (r: BlockReason)
        ensures
            r.initiator is Phase01Unknown,
            r.initiator->Phase01Unknown_reason@ == reason@,
            r.location@.len() == 0,
            r.decision == BDecision::Blocking,
    {
        BlockReason {
            initiator: Initiator::Phase01Unknown { reason: reason.to_owned() },
            location: Vec::new(),
            decision: BDecision::Blocking,
        }
    }

    pub fn acl(tags: Vec<String>, stage: AclStage) -> (r: BlockReason)
        ensures
            r.initiator == (Initiator::Acl { tags, stage }),
            r.location@ == seq![Location::Attrs],
            r.decision == acl_severity(stage),
    {
        let decision = match stage {
            AclStage::Deny | AclStage::ForceDeny | AclStage::HumanOnly => BDecision::Blocking,
            _ => BDecision::Monitor,
        };
        BlockReason { initiator: Initiator::Acl { tags, stage }, location: vec![Location::Attrs], decision }
    }

    pub fn limit(id: &String, name: &String, threshold: u64) -> (r: BlockReason)
        ensures
            r.initiator == (Initiator::Limit { id: *id, name: *name, threshold }),
            r.location@ == seq![Location::Request],
            r.decision == BDecision::Blocking,
    {
        BlockReason {
            initiator: Initiator::Limit { id: id.clone(), name: name.clone(), threshold },
            location: vec![Location::Request],
            decision: BDecision::Blocking,
        }
    }
}

/// Severity of an access-control reason by stage.
pub open spec fn acl_severity(stage: AclStage) -> BDecision {
    match stage {
        AclStage::Deny | AclStage::ForceDeny | AclStage::HumanOnly => BDecision::Blocking,
        _ => BDecision::Monitor,
    }
}

/// Whether no access-control reason of the list is enforcing.
pub open spec fn no_enforced_acl(s: Seq<BlockReason>) -> bool {
    forall|i: int| 0 <= i < s.len() && (#[trigger] s[i]).initiator is Acl ==> s[i].decision != BDecision::Blocking
}

/// A response action attached to a decision.
#[derive(Debug)]
pub struct Action {
    pub atype: ActionType,
    pub block_mode: bool,
    pub headers: Option<Vec<(String, String)>>,
    pub status: u32,
    pub content: String,
    pub extra_tags: Option<Vec<String>>,
}

/// An outcome with its reasons and, unless it is a plain pass, an action.
#[derive(Debug)]
pub struct Decision {
    pub maction: Option<Action>,
    pub reasons: Vec<BlockReason>,
}

/// Mathematical model of a decision.
pub struct DecisionView {
    pub maction: Option<Action>,
    pub reasons: Seq<BlockReason>,
}

impl View for Decision {
    type V = DecisionView;

    open spec fn view(&self) -> DecisionView {
        DecisionView { maction: self.maction, reasons: self.reasons@ }
    }
}

/// Whether an action must stop the request.
pub open spec fn action_stops(a: Action) -> bool {
    a.block_mode && a.atype.spec_stops()
}

/// Whether a decision must stop the request.
pub open spec fn spec_is_final(d: DecisionView) -> bool {
    match d.maction {
        Some(a) => action_stops(a),
        None => false,
    }
}

/// The stronger of two actions, the later one on a tie; two blocks keep
/// enforcement if either enforced.
pub open spec fn merge_actions(a: Action, b: Action) -> Action {
    if b.atype.spec_rank() >= a.atype.spec_rank() {
        if a.atype == ActionType::Block && b.atype == ActionType::Block {
            Action { block_mode: a.block_mode || b.block_mode, ..b }
        } else {
            b
        }
    } else {
        a
    }
}

pub open spec fn merge_opt_actions(a: Option<Action>, b: Option<Action>) -> Option<Action> {
    match (a, b) {
        (None, _) => b,
        (Some(x), None) => Some(x),
        (Some(x), Some(y)) => Some(merge_actions(x, y)),
    }
}

/// Merge of two decisions: reasons concatenate, the stronger action wins.
pub open spec fn spec_merge(a: DecisionView, b: DecisionView) -> DecisionView {
    DecisionView { maction: merge_opt_actions(a.maction, b.maction), reasons: a.reasons + b.reasons }
}

/// The empty pass.
pub open spec fn empty_pass() -> DecisionView {
    DecisionView { maction: None, reasons: Seq::empty() }
}

impl Decision {
    pub fn pass(reasons: Vec<BlockReason>) -> (r: Decision)
        ensures
            r.maction is None,
            r.reasons == reasons,
    {
        Decision { maction: None, reasons }
    }

    pub fn action(action: Action, reasons: Vec<BlockReason>) -> (r: Decision)
        ensures
            r.maction == Some(action),
            r.reasons == reasons,
    {
        Decision { maction: Some(action), reasons }
    }

    pub fn is_final(&self) -> (r: bool)
        ensures
            r == spec_is_final(self@),
    {
        match &self.maction {
            Some(a) => a.block_mode && (a.atype == ActionType::Block || a.atype == ActionType::Challenge),
            None => false,
        }
    }
}

fn merge_action_values(a: Action, b: Action) -> (r: Action)
    ensures
        r == merge_actions(a, b),
{
    if b.atype.rank() >= a.atype.rank() {
        if a.atype == ActionType::Block && b.atype == ActionType::Block {
            let mut w = b;
            w.block_mode = a.block_mode || w.block_mode;
            w
        } else {
            b
        }
    } else {
        a
    }
}

/// Combines two decisions: reasons concatenate and the stronger action wins.
pub fn merge_decisions(d1: Decision, d2: Decision) -> (r: Decision)
    ensures
        r@ == spec_merge(d1@, d2@),
{
    let Decision { maction: a1, reasons: mut reasons } = d1;
    let Decision { maction: a2, reasons: mut other } = d2;
    reasons.append(&mut other);
    let maction = match a1 {
        None => a2,
        Some(x) => match a2 {
            None => Some(x),
            Some(y) => Some(merge_action_values(x, y)),
        },
    };
    Decision { maction, reasons }
}

/// Merging is associative.
pub proof fn lemma_merge_associative(a: DecisionView, b: DecisionView, c: DecisionView)
    ensures
        spec_merge(spec_merge(a, b), c) == spec_merge(a, spec_merge(b, c)),
{
    assert(a.reasons + b.reasons + c.reasons =~= a.reasons + (b.reasons + c.reasons));
}

/// The empty pass is neutral on both sides of a merge, and merging it with
/// itself gives it back.
pub proof fn lemma_merge_empty_pass(d: DecisionView)
    ensures
        spec_merge(d, empty_pass()) == d,
        spec_merge(empty_pass(), d) == d,
        spec_merge(empty_pass(), empty_pass()) == empty_pass(),
{
    assert(d.reasons + Seq::empty() =~= d.reasons);
    assert(Seq::<BlockReason>::empty() + d.reasons =~= d.reasons);
    assert(Seq::<BlockReason>::empty() + Seq::<BlockReason>::empty() =~= Seq::<BlockReason>::empty());
}

} // verus!
