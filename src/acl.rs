use vstd::prelude::*;
use crate::decision::{AclStage, Location};
use crate::policy::AclProfile;
use crate::tags::Tags;

verus! {

/// Outcome of the access-control evaluation.
#[derive(Debug)]
pub struct AclDecision {
    pub stage: AclStage,
    pub tags: Vec<String>,
    pub challenge: bool,
}

/// The labels of a list that the request carries, in list order.
pub open spec fn present(tags: Set<(Seq<char>, Location)>, names: Seq<String>) -> Seq<String> {
    names.filter(|n: String| has_label(tags, n@))
}

/// Whether a label is held at some location.
pub open spec fn has_label(tags: Set<(Seq<char>, Location)>, t: Seq<char>) -> bool {
    exists|l: Location| tags.contains((t, l))
}

/// Access-control rule: the first category with a label present decides;
/// forced denial, then bypass, then bots allowed, then bots challenged
/// (only for a client not known to be human), then allow, then deny.
pub open spec fn spec_check_acl(tags: Set<(Seq<char>, Location)>, p: &AclProfile, is_human: bool) -> Option<(AclStage, bool, Seq<String>)> {
    if present(tags, p.force_deny@).len() > 0 {
        Some((AclStage::ForceDeny, false, present(tags, p.force_deny@)))
    } else if present(tags, p.bypass@).len() > 0 {
        Some((AclStage::Bypass, false, present(tags, p.bypass@)))
    } else if present(tags, p.allow_bot@).len() > 0 {
        Some((AclStage::BotOnly, false, present(tags, p.allow_bot@)))
    } else if !is_human && present(tags, p.deny_bot@).len() > 0 {
        Some((AclStage::HumanOnly, true, present(tags, p.deny_bot@)))
    } else if present(tags, p.allow@).len() > 0 {
        Some((AclStage::Allow, false, present(tags, p.allow@)))
    } else if present(tags, p.deny@).len() > 0 {
        Some((AclStage::Deny, false, present(tags, p.deny@)))
    } else {
        None
    }
}

/// The labels of `names` that `tags` holds, in order.
pub fn matching(tags: &Tags, names: &Vec<String>) -> (r: Vec<String>)
    ensures
        r@ == present(tags@, names@),
{
    let mut r: Vec<String> = Vec::new();
    let mut i: usize = 0;
    while i < names.len()
        invariant
            0 <= i <= names@.len(),
            r@ == present(tags@, names@.take(i as int)),
        decreases names@.len() - i,
    {
        assert(names@.take(i + 1).drop_last() =~= names@.take(i as int));
        reveal(Seq::filter);
        if tags.contains_tag(names[i].as_str()) {
            r.push(names[i].clone());
        }
        i = i + 1;
    }
    assert(names@.take(names@.len() as int) =~= names@);
    r
}

fn decided(stage: AclStage, challenge: bool, tags: Vec<String>) -> (r: Option<AclDecision>)
    ensures
        r == Some(AclDecision { stage, tags, challenge }),
{
    Some(AclDecision { stage, tags, challenge })
}

/// Evaluates the access-control profile against the labels of a request.
pub fn check_acl(tags: &Tags, profile: &AclProfile, is_human: bool) -> (r: Option<AclDecision>)
    ensures
        match spec_check_acl(tags@, profile, is_human) {
            None => r is None,
            Some((stage, challenge, names)) => r is Some && r->Some_0.stage == stage
                && r->Some_0.challenge == challenge && r->Some_0.tags@ == names,
        },
{
    let m = matching(tags, &profile.force_deny);
    if m.len() > 0 {
        return decided(AclStage::ForceDeny, false, m);
    }
    let m = matching(tags, &profile.bypass);
    if m.len() > 0 {
        return decided(AclStage::Bypass, false, m);
    }
    let m = matching(tags, &profile.allow_bot);
    if m.len() > 0 {
        return decided(AclStage::BotOnly, false, m);
    }
    if !is_human {
        let m = matching(tags, &profile.deny_bot);
        if m.len() > 0 {
            return decided(AclStage::HumanOnly, true, m);
        }
    }
    let m = matching(tags, &profile.allow);
    if m.len() > 0 {
        return decided(AclStage::Allow, false, m);
    }
    let m = matching(tags, &profile.deny);
    if m.len() > 0 {
        return decided(AclStage::Deny, false, m);
    }
    None
}

} // verus!
