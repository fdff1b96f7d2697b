//! Trace authorship's rules: which blocks a role may carry, the door each
//! message enters the record by, the harness's fault reports, and the wall
//! clock the envelopes carry. Building and submitting the events stands with
//! the recorder.

use vstd::prelude::*;
use vstd::string::*;
use crate::harness::failure::UnlicensedMessage;
use crate::harness::record::TraceKind;
use crate::json::{json_canonical, json_canonical_of};
use crate::wire::{ContentBlock, Message, Role, ToolCall, ToolResultBlock};

verus! {

/// A role's name in the record.
pub open spec fn role_word(role: Role) -> Seq<char> {
    match role {
        Role::System => "system"@,
        Role::User => "user"@,
        Role::Assistant => "assistant"@,
        Role::ToolResult => "tool_result"@,
    }
}

/// A block's name in the record.
pub open spec fn block_word(block: ContentBlock) -> Seq<char> {
    match block {
        ContentBlock::Text { .. } => "text"@,
        ContentBlock::ToolCall(_) => "tool_call"@,
        ContentBlock::ToolResult(_) => "tool_result"@,
    }
}

/// A role's name.
pub fn role_name(role: &Role) -> (name: &'static str)
    ensures
        name@ == role_word(*role),
{
    match role {
        Role::System => "system",
        Role::User => "user",
        Role::Assistant => "assistant",
        Role::ToolResult => "tool_result",
    }
}

/// A block's name.
pub fn block_name(block: &ContentBlock) -> (name: &'static str)
    ensures
        name@ == block_word(*block),
{
    match block {
        ContentBlock::Text { .. } => "text",
        ContentBlock::ToolCall(_) => "tool_call",
        ContentBlock::ToolResult(_) => "tool_result",
    }
}

/// The license: every role carries text, except a tool result, which
/// carries its result; the assistant also carries tool calls.
pub open spec fn carries(role: Role, block: ContentBlock) -> bool {
    match (role, block) {
        (Role::System, ContentBlock::Text { .. }) => true,
        (Role::User, ContentBlock::Text { .. }) => true,
        (Role::Assistant, ContentBlock::Text { .. }) => true,
        (Role::Assistant, ContentBlock::ToolCall(_)) => true,
        (Role::ToolResult, ContentBlock::ToolResult(_)) => true,
        _ => false,
    }
}

/// **Each role carries its own blocks and no other.** Every role but the
/// tool result carries text; the assistant alone carries tool calls; the tool
/// result alone carries tool results, and carries nothing else. A message is
/// licensed exactly where each of its blocks is one its role carries.
pub proof fn lemma_the_license(role: Role, text: String, call: ToolCall, result: ToolResultBlock)
    ensures
        carries(role, ContentBlock::Text { text }) <==> role != Role::ToolResult,
        carries(role, ContentBlock::ToolCall(call)) <==> role == Role::Assistant,
        carries(role, ContentBlock::ToolResult(result)) <==> role == Role::ToolResult,
{
}

/// `i` is the first block the role may not carry.
pub open spec fn first_unlicensed_at(role: Role, blocks: Seq<ContentBlock>, i: int) -> bool {
    &&& 0 <= i < blocks.len()
    &&& !carries(role, blocks[i])
    &&& forall|j: int| 0 <= j < i ==> carries(role, blocks[j])
}

/// Whether the message's role may carry each of its blocks; the refusal
/// names the role and the first block that broke the license.
pub fn licensed(message: &Message) -> (verdict: Result<(), UnlicensedMessage>)
    ensures
        match verdict {
            Ok(()) => forall|j: int|
                0 <= j < message.content@.len() ==> carries(message.role, message.content@[j]),
            Err(refusal) => exists|i: int|
                first_unlicensed_at(message.role, message.content@, i) && refusal.role@ == role_word(
                    message.role,
                ) && refusal.block@ == block_word(message.content@[i]),
        },
{
    let mut i: usize = 0;
    while i < message.content.len()
        invariant
            i <= message.content@.len(),
            forall|j: int| 0 <= j < i ==> carries(message.role, message.content@[j]),
        decreases message.content@.len() - i,
    {
        let block = &message.content[i];
        let ok = match (&message.role, block) {
            (Role::System, ContentBlock::Text { .. }) => true,
            (Role::User, ContentBlock::Text { .. }) => true,
            (Role::Assistant, ContentBlock::Text { .. }) => true,
            (Role::Assistant, ContentBlock::ToolCall(_)) => true,
            (Role::ToolResult, ContentBlock::ToolResult(_)) => true,
            _ => false,
        };
        if !ok {
            proof {
                assert(first_unlicensed_at(message.role, message.content@, i as int));
            }
            return Err(UnlicensedMessage { role: role_name(&message.role), block: block_name(block) });
        }
        i = i + 1;
    }
    Ok(())
}

/// The kind a message enters the record as through the message door: a tool
/// result enters only through the granted door, so the message door refuses
/// it.
pub fn message_kind(role: &Role) -> (kind: Result<TraceKind, UnlicensedMessage>)
    ensures
        match *role {
            Role::System => kind == Ok::<TraceKind, UnlicensedMessage>(TraceKind::MessageSystem),
            Role::User => kind == Ok::<TraceKind, UnlicensedMessage>(TraceKind::MessageUser),
            Role::Assistant => kind == Ok::<TraceKind, UnlicensedMessage>(
                TraceKind::MessageAssistant,
            ),
            Role::ToolResult => kind matches Err(r) && r.role@ == "tool_result"@ && r.block@
                == "granted-door-only"@,
        },
{
    match role {
        Role::System => Ok(TraceKind::MessageSystem),
        Role::User => Ok(TraceKind::MessageUser),
        Role::Assistant => Ok(TraceKind::MessageAssistant),
        Role::ToolResult => Err(UnlicensedMessage { role: "tool_result", block: "granted-door-only" }),
    }
}

/// The identity door admits a system message only, and one the license
/// admits.
pub fn identity_admits(message: &Message) -> (verdict: Result<(), UnlicensedMessage>)
    ensures
        message.role != Role::System ==> (verdict matches Err(r) && r.role@ == role_word(
            message.role,
        ) && r.block@ == "identity-door-system-only"@),
        message.role == Role::System ==> match verdict {
            Ok(()) => forall|j: int|
                0 <= j < message.content@.len() ==> carries(message.role, message.content@[j]),
            Err(refusal) => exists|i: int|
                first_unlicensed_at(message.role, message.content@, i) && refusal.block@
                    == block_word(message.content@[i]),
        },
{
    match message.role {
        Role::System => licensed(message),
        _ => Err(
            UnlicensedMessage { role: role_name(&message.role), block: "identity-door-system-only" },
        ),
    }
}

/// The cases a fault report names.
#[derive(Debug, Clone, Copy, PartialEq, Eq, Structural)]
pub enum FaultCase {
    ClientConnectionFailedMidTurn,
    DeviceFaultDuringGeneration,
    ListenerLost,
    MessageRecordUndecodable,
    OrganDeathObserved,
    RecorderCommitPressure,
}

/// A fault report: its case and its account, a JSON document.
#[derive(Debug, Clone, PartialEq, Eq)]
pub struct FaultReport {
    pub case: FaultCase,
    pub account: String,
}

/// The account a report carries: the one given where it is JSON, else a
/// note that it could not be rendered.
pub open spec fn account_carried(account: Seq<char>) -> Seq<char> {
    if json_canonical_of(account) is Some {
        account
    } else {
        "{\"account\":\"unrenderable\"}"@
    }
}

/// The harness's own fault report.
pub fn harness_report(case: FaultCase, account: &str) -> (report: FaultReport)
    ensures
        report.case == case,
        report.account@ == account_carried(account@),
{
    let carried = if json_canonical(account).is_some() {
        String::from_str(account)
    } else {
        String::from_str("{\"account\":\"unrenderable\"}")
    };
    FaultReport { case, account: carried }
}

/// Milliseconds since the Unix epoch on the system clock, none where the
/// clock stands before the epoch.
#[verifier::external_body]
fn since_epoch_millis() -> (millis: Option<u128>) {
    std::time::SystemTime::now().duration_since(std::time::UNIX_EPOCH).ok().map(|d| d.as_millis())
}

/// The milliseconds an envelope carries for a reading of the clock since the
/// epoch: the reading's low 64 bits, and zero where the clock stood before
/// the epoch.
pub fn clock_millis(reading: Option<u128>) -> (millis: u64)
    ensures
        millis == match reading {
            Some(m) => m as u64,
            None => 0u64,
        },
{
    match reading {
        Some(m) => m as u64,
        None => 0,
    }
}

/// The wall clock an envelope carries, in milliseconds since the epoch;
/// zero where the clock stands before it. The clock is read afresh, so
/// nothing is promised of the value.
pub fn wall_clock_millis() -> (millis: u64) {
    clock_millis(since_epoch_millis())
}

} // verus!
