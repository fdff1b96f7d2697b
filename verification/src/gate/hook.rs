//! The hook: the membrane's listener and the access rule it judges each dialing
//! peer by. Binding, accepting and reading a peer's credentials stand at the
//! composition root; the rule the raise holds and the judgement are here.

use vstd::prelude::*;
use crate::text::cat3;
use crate::wire::AccessRule;

verus! {

broadcast use vstd::std_specs::btree::group_btree_axioms, vstd::laws_cmp::group_laws_cmp;

/// A dialing peer's credentials, as the kernel reports them.
#[derive(Debug, Clone, Copy, PartialEq, Eq, Structural)]
pub struct PeerIdentity {
    pub uid: u32,
    pub gid: u32,
    pub pid: i32,
}

/// The rule admits the peer: denial wins over permission, and a peer is
/// permitted by its uid or by its gid.
pub open spec fn admits(rule: AccessRule, peer: PeerIdentity) -> bool {
    &&& !rule.denied_uids@.contains(peer.uid)
    &&& (rule.allowed_uids@.contains(peer.uid) || rule.allowed_gids@.contains(peer.gid))
}

/// Whether `rule` admits `peer`.
pub fn authorized(peer: &PeerIdentity, rule: &AccessRule) -> (admitted: bool)
    ensures
        admitted == admits(*rule, *peer),
{
    if rule.denied_uids.contains(&peer.uid) {
        return false;
    }
    rule.allowed_uids.contains(&peer.uid) || rule.allowed_gids.contains(&peer.gid)
}

/// The rule a raised hook holds: the instruction's, with the membrane's own uid
/// denied whatever the instruction permits.
pub fn held_rule(instruction_rule: &AccessRule, own_uid: u32) -> (rule: AccessRule)
    ensures
        rule.allowed_uids@ == instruction_rule.allowed_uids@,
        rule.allowed_gids@ == instruction_rule.allowed_gids@,
        rule.denied_uids@ == instruction_rule.denied_uids@.insert(own_uid),
{
    let mut denied = instruction_rule.denied_uids.clone();
    denied.insert(own_uid);
    AccessRule {
        allowed_uids: instruction_rule.allowed_uids.clone(),
        allowed_gids: instruction_rule.allowed_gids.clone(),
        denied_uids: denied,
    }
}

/// Why a raise refused.
#[derive(Debug, Clone, PartialEq, Eq)]
pub enum RaiseRefusal {
    BindFailed { detail: String },
}

/// The refusal of a bind at `socket` that failed with `error`, naming both.
pub fn bind_refusal(socket: &str, error: &str) -> (refusal: RaiseRefusal)
    ensures
        refusal matches RaiseRefusal::BindFailed { detail } && detail@ == socket@ + ": "@ + error@,
{
    RaiseRefusal::BindFailed { detail: cat3(socket, ": ", error) }
}

/// Why an accept admitted nobody.
#[derive(Debug, Clone, PartialEq, Eq)]
pub enum AcceptOutcome {
    Denied,
    Unusable { detail: String },
}

/// The judgement of an accepted connection: a peer whose credentials could
/// not be read, or whom the rule does not admit, is denied.
pub fn judge_peer(peer: Option<PeerIdentity>, rule: &AccessRule) -> (judged: Result<
    PeerIdentity,
    AcceptOutcome,
>)
    ensures
        match peer {
            Some(p) => if admits(*rule, p) {
                judged == Ok::<PeerIdentity, AcceptOutcome>(p)
            } else {
                judged == Err::<PeerIdentity, AcceptOutcome>(AcceptOutcome::Denied)
            },
            None => judged == Err::<PeerIdentity, AcceptOutcome>(AcceptOutcome::Denied),
        },
{
    match peer {
        Some(p) => if authorized(&p, rule) {
            Ok(p)
        } else {
            Err(AcceptOutcome::Denied)
        },
        None => Err(AcceptOutcome::Denied),
    }
}

/// **A peer is admitted by its uid or its gid, and a denied uid is never
/// admitted.** A uid the rule denies is refused whatever else the rule
/// permits; a uid that is not denied is admitted where the rule permits that
/// uid, or permits the peer's gid; and a peer permitted by neither is
/// refused.
pub proof fn lemma_the_access_rule(rule: AccessRule, peer: PeerIdentity)
    ensures
        rule.denied_uids@.contains(peer.uid) ==> !admits(rule, peer),
        !rule.denied_uids@.contains(peer.uid) && rule.allowed_uids@.contains(peer.uid) ==> admits(
            rule,
            peer,
        ),
        !rule.denied_uids@.contains(peer.uid) && rule.allowed_gids@.contains(peer.gid) ==> admits(
            rule,
            peer,
        ),
        !rule.allowed_uids@.contains(peer.uid) && !rule.allowed_gids@.contains(peer.gid) ==> !admits(
            rule,
            peer,
        ),
{
}

/// **The membrane's own uid is denied by construction, not by
/// configuration.** Whatever the instruction permits, a raised hook admits no
/// peer dialing as the uid the membrane runs as; and a peer the instruction
/// denied stays denied.
pub proof fn lemma_the_own_uid_is_never_admitted(
    instruction_rule: AccessRule,
    held: AccessRule,
    own_uid: u32,
    peer: PeerIdentity,
)
    requires
        held.allowed_uids@ == instruction_rule.allowed_uids@,
        held.allowed_gids@ == instruction_rule.allowed_gids@,
        held.denied_uids@ == instruction_rule.denied_uids@.insert(own_uid),
    ensures
        peer.uid == own_uid ==> !admits(held, peer),
        instruction_rule.denied_uids@.contains(peer.uid) ==> !admits(held, peer),
        admits(held, peer) ==> admits(instruction_rule, peer),
{
}

} // verus!

