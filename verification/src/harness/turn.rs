//! The turn's decisions: its key, what a delta may carry, the tool rounds,
//! what each reply on the decode stream and each directive arriving
//! meanwhile asks for, how the turn closes and what it answers a stop, the
//! tool exchange's replies, and the commit-pressure report. The ports that
//! move the bytes and author the events stand at the composition root and
//! follow these decisions.

use vstd::prelude::*;
use vstd::string::*;
use crate::harness::authorship::FaultReport;
use crate::harness::tools::MAX_TOOL_ROUNDS;
use crate::json::{json_object_text, json_object_text_of};
use crate::text::{cat2, decimal, decimal_string};
use crate::wire::{
    ContentBlock, ExchangeId, Finish, Generation, LifecycleAnswer, LifecycleDirective,
    LifecycleRefusal, Message, Opener, OrganEnvelope, Payload, Position, Role, TokenRefusal,
    ToolCall, ToolExecution, ToolOutcome,
};

verus! {

/// The clock every tool call is given, in milliseconds.
pub const TOOL_CALL_CLOCK_MS: u64 = 30000;

/// How long a classify ask waits on its answer, in milliseconds.
pub const CLASSIFY_ANSWER_BOUND_MS: u64 = 30000;

/// The most frames a client's connection may have held for the serve loop
/// while a tool call runs.
pub const MAX_HELD_FRAMES: usize = 64;

/// Why a turn did not answer.
#[derive(Debug)]
pub enum TurnError {
    Refused { turn: String, refusal: TokenRefusal },
    ChannelLost,
    Faulted { turn: String, report: FaultReport },
    Unlicensed { turn: String },
}

/// A turn that answered.
#[derive(Debug, Clone)]
pub struct TurnOutcome {
    pub turn: String,
    pub emission: String,
    pub stopped: bool,
    pub aborted: bool,
    pub truncated: bool,
}

/// The key of the turn numbered `ordinal`.
pub open spec fn turn_key_of(ordinal: u64) -> Seq<char> {
    "t-"@ + decimal(ordinal as nat)
}

/// The key of the turn numbered `ordinal`.
pub fn turn_key(ordinal: u64) -> (key: String)
    ensures
        key@ == turn_key_of(ordinal),
{
    cat2("t-", decimal_string(ordinal).as_str())
}

/// A caller's delta carries no tool result: those enter only through the
/// granted door.
pub fn delta_admits(delta: &Vec<Message>) -> (admitted: bool)
    ensures
        admitted == forall|i: int| 0 <= i < delta@.len() ==> delta@[i].role != Role::ToolResult,
{
    let mut i: usize = 0;
    while i < delta.len()
        invariant
            i <= delta@.len(),
            forall|j: int| 0 <= j < i ==> delta@[j].role != Role::ToolResult,
        decreases delta@.len() - i,
    {
        match delta[i].role {
            Role::ToolResult => return false,
            _ => {},
        }
        i = i + 1;
    }
    true
}

/// The tool calls a generation's blocks carry, in order.
pub open spec fn calls_of(content: Seq<ContentBlock>) -> Seq<(Seq<char>, Seq<char>)>
    decreases content.len(),
{
    if content.len() == 0 {
        Seq::empty()
    } else {
        let rest = calls_of(content.drop_last());
        match content.last() {
            ContentBlock::ToolCall(call) => rest.push((call.name@, call.arguments@)),
            _ => rest,
        }
    }
}

/// **Every tool call the generation carried is executed, once each, in
/// order.** A tool-call block adds its call, name and arguments, at the end;
/// any other block adds none; and the calls of two runs of blocks are the
/// first's then the second's, so there are exactly as many calls as
/// tool-call blocks.
pub proof fn lemma_every_call_is_taken(
    content: Seq<ContentBlock>,
    more: Seq<ContentBlock>,
    call: ToolCall,
    other: ContentBlock,
)
    ensures
        calls_of(content.push(ContentBlock::ToolCall(call))) == calls_of(content).push(
            (call.name@, call.arguments@),
        ),
        !(other is ToolCall) ==> calls_of(content.push(other)) == calls_of(content),
        calls_of(Seq::empty()) == Seq::<(Seq<char>, Seq<char>)>::empty(),
        calls_of(content + more) == calls_of(content) + calls_of(more),
    decreases more.len(),
{
    assert(content.push(ContentBlock::ToolCall(call)).drop_last() =~= content);
    assert(content.push(other).drop_last() =~= content);
    if more.len() == 0 {
        assert(content + more =~= content);
        assert(calls_of(more) =~= Seq::<(Seq<char>, Seq<char>)>::empty());
    } else {
        lemma_every_call_is_taken(content, more.drop_last(), call, other);
        assert((content + more).drop_last() =~= content + more.drop_last());
        assert((content + more).last() == more.last());
    }
}

/// The tool calls the blocks carry, in order.
pub fn tool_calls(content: &Vec<ContentBlock>) -> (calls: Vec<ToolCall>)
    ensures
        calls@.map_values(|c: ToolCall| (c.name@, c.arguments@)) == calls_of(content@),
{
    let mut calls: Vec<ToolCall> = Vec::new();
    let mut i: usize = 0;
    proof {
        assert(content@.take(0) =~= Seq::<ContentBlock>::empty());
        assert(calls@.map_values(|c: ToolCall| (c.name@, c.arguments@)) =~= Seq::<
            (Seq<char>, Seq<char>),
        >::empty());
    }
    while i < content.len()
        invariant
            i <= content@.len(),
            calls@.map_values(|c: ToolCall| (c.name@, c.arguments@)) == calls_of(
                content@.take(i as int),
            ),
        decreases content@.len() - i,
    {
        proof {
            assert(content@.take(i + 1).drop_last() =~= content@.take(i as int));
            assert(content@.take(i + 1).last() == content@[i as int]);
        }
        let ghost before = calls@;
        match &content[i] {
            ContentBlock::ToolCall(call) => {
                calls.push(ToolCall { name: call.name.clone(), arguments: call.arguments.clone() });
                proof {
                    assert(calls@.map_values(|c: ToolCall| (c.name@, c.arguments@)) =~= before.map_values(
                        |c: ToolCall| (c.name@, c.arguments@),
                    ).push((call.name@, call.arguments@)));
                }
            },
            _ => {},
        }
        i = i + 1;
    }
    proof {
        assert(content@.take(i as int) =~= content@);
    }
    calls
}

/// Whether the turn runs another tool round: only while the generation
/// called tools, a membrane holds them, and the rounds are within the bound.
pub fn another_round(calls: usize, gate: bool, rounds: usize) -> (more: bool)
    ensures
        more == (calls > 0 && gate && rounds < MAX_TOOL_ROUNDS),
{
    !(calls == 0 || !gate || rounds >= MAX_TOOL_ROUNDS)
}

/// The tool execution a call opens, on the harness's `ordinal`.
pub fn tool_execution(call: &ToolCall, ordinal: u64) -> (envelope: OrganEnvelope)
    ensures
        envelope.exchange == (ExchangeId { opener: Opener::Harness, ordinal }),
        envelope.position == Position::Open,
        envelope.payload matches Payload::Tool(t) && t.name@ == call.name@ && t.arguments@
            == call.arguments@ && t.clock_ms == TOOL_CALL_CLOCK_MS,
{
    OrganEnvelope {
        exchange: ExchangeId { opener: Opener::Harness, ordinal },
        position: Position::Open,
        payload: Payload::Tool(
            ToolExecution {
                name: call.name.clone(),
                arguments: call.arguments.clone(),
                clock_ms: TOOL_CALL_CLOCK_MS,
            },
        ),
    }
}

/// The record a started call carries: its name and arguments.
pub fn tool_started(call: &ToolCall) -> (payload: String)
    ensures
        payload@ == json_object_text_of(seq![("name"@, call.name@), ("arguments"@, call.arguments@)]),
{
    let mut members: Vec<(String, String)> = Vec::new();
    members.push((String::from_str("name"), call.name.clone()));
    members.push((String::from_str("arguments"), call.arguments.clone()));
    proof {
        assert(members.deep_view() =~= seq![("name"@, call.name@), ("arguments"@, call.arguments@)]);
    }
    json_object_text(&members)
}

/// What the tool exchange does with an envelope read off the membrane's
/// channel while a call runs.
#[derive(Debug)]
pub enum ToolReply {
    /// The call's own close, carrying its outcome.
    Answered(ToolOutcome),
    /// The call's own close carried something else: the channel is lost.
    Lost,
    /// Another exchange's envelope: hold it for the serve loop.
    Hold(OrganEnvelope),
    /// Another exchange's envelope past the held bound: drop it, reporting
    /// the bound.
    Dropped,
}

/// The reading of `envelope` while the call on `exchange` runs, `held`
/// envelopes already held.
pub fn tool_reply(envelope: OrganEnvelope, exchange: ExchangeId, held: usize) -> (reply: ToolReply)
    ensures
        (envelope.exchange == exchange && envelope.position == Position::Close) ==> match envelope.payload {
            Payload::ToolAnswer(outcome) => reply == ToolReply::Answered(outcome),
            _ => reply is Lost,
        },
        !(envelope.exchange == exchange && envelope.position == Position::Close) ==> (if held
            >= MAX_HELD_FRAMES {
            reply is Dropped
        } else {
            reply == ToolReply::Hold(envelope)
        }),
{
    let ours = envelope.exchange.opener == exchange.opener && envelope.exchange.ordinal
        == exchange.ordinal && envelope.position == Position::Close;
    if ours {
        match envelope.payload {
            Payload::ToolAnswer(outcome) => ToolReply::Answered(outcome),
            _ => ToolReply::Lost,
        }
    } else if held >= MAX_HELD_FRAMES {
        ToolReply::Dropped
    } else {
        ToolReply::Hold(envelope)
    }
}

/// The account a dropped frame is reported with.
pub fn held_frames_account() -> (account: String)
    ensures
        account@ == "{\"organ\":\"harness\",\"held-frames-bound\":64}"@,
{
    String::from_str("{\"organ\":\"harness\",\"held-frames-bound\":64}")
}

/// A reply on the decode stream, by its shape.
#[derive(Debug, Clone, Copy, PartialEq, Eq, Structural)]
pub enum DecodeReply {
    Token,
    Field,
    Generated,
    AtRest,
    Fault,
    Refusal(TokenRefusal),
    OtherAnswer,
}

/// What the turn does with a decode reply while it waits for its generation.
#[derive(Debug, Clone, Copy, PartialEq, Eq, Structural)]
pub enum StreamStep {
    /// Keep waiting.
    Continue,
    /// Record the field, then keep waiting.
    RecordField,
    /// The generation stands.
    Generated,
    /// The model organ faulted: the turn fails with its report.
    Faulted,
    /// The decode seam refused: record the refusal and fail the turn.
    Refused(TokenRefusal),
    /// An answer out of place: the channel is lost.
    Lost,
}

/// The turn's reading of a decode reply.
pub fn on_decode(reply: DecodeReply) -> (step: StreamStep)
    ensures
        step == match reply {
            DecodeReply::Token => StreamStep::Continue,
            DecodeReply::Field => StreamStep::RecordField,
            DecodeReply::Generated => StreamStep::Generated,
            DecodeReply::AtRest => StreamStep::Continue,
            DecodeReply::Fault => StreamStep::Faulted,
            DecodeReply::Refusal(r) => StreamStep::Refused(r),
            DecodeReply::OtherAnswer => StreamStep::Lost,
        },
{
    match reply {
        DecodeReply::Token => StreamStep::Continue,
        DecodeReply::Field => StreamStep::RecordField,
        DecodeReply::Generated => StreamStep::Generated,
        DecodeReply::AtRest => StreamStep::Continue,
        DecodeReply::Fault => StreamStep::Faulted,
        DecodeReply::Refusal(r) => StreamStep::Refused(r),
        DecodeReply::OtherAnswer => StreamStep::Lost,
    }
}

/// What the turn does with an envelope the client's connection sent while
/// the generation runs.
#[derive(Debug, Clone, Copy, PartialEq, Eq, Structural)]
pub enum DirectiveStep {
    /// The first stop: cancel the generation and answer the stop at the
    /// turn's close.
    Cancel,
    /// Answer the exchange with this refusal now.
    Refuse(DirectiveRefusal),
    /// Not a directive: the channel is lost.
    Lost,
}

/// The refusals a turn answers directives with.
#[derive(Debug, Clone, Copy, PartialEq, Eq, Structural)]
pub enum DirectiveRefusal {
    ActivityNotAtRest,
    OutOfOrder,
}

/// The turn's reading of a directive, a stop already held or not: the first
/// stop cancels, a leave waits on rest, and every other directive, a second
/// stop among them, is out of order.
pub fn on_directive(payload: &Payload, stop_held: bool) -> (step: DirectiveStep)
    ensures
        step == match *payload {
            Payload::Directive(LifecycleDirective::Stop) => if stop_held {
                DirectiveStep::Refuse(DirectiveRefusal::OutOfOrder)
            } else {
                DirectiveStep::Cancel
            },
            Payload::Directive(LifecycleDirective::Leave) => DirectiveStep::Refuse(
                DirectiveRefusal::ActivityNotAtRest,
            ),
            Payload::Directive(_) => DirectiveStep::Refuse(DirectiveRefusal::OutOfOrder),
            _ => DirectiveStep::Lost,
        },
{
    match payload {
        Payload::Directive(LifecycleDirective::Stop) => if stop_held {
            DirectiveStep::Refuse(DirectiveRefusal::OutOfOrder)
        } else {
            DirectiveStep::Cancel
        },
        Payload::Directive(LifecycleDirective::Leave) => DirectiveStep::Refuse(
            DirectiveRefusal::ActivityNotAtRest,
        ),
        Payload::Directive(_) => DirectiveStep::Refuse(DirectiveRefusal::OutOfOrder),
        _ => DirectiveStep::Lost,
    }
}

/// Opens the next turn: the ordinal moves on by one and the turn is keyed by
/// it.
pub fn open_turn(ordinal: &mut u64) -> (key: String)
    requires
        *old(ordinal) < u64::MAX,
    ensures
        *final(ordinal) == *old(ordinal) + 1,
        key@ == turn_key_of((*old(ordinal) + 1) as u64),
{
    *ordinal = *ordinal + 1;
    turn_key(*ordinal)
}

/// The reason a turn's close records.
#[derive(Debug, Clone, Copy, PartialEq, Eq, Structural)]
pub enum CloseReason {
    /// The turn completed.
    Clean,
    /// An operator's stop cancelled it.
    Directive,
    /// A seam turned an ask away.
    Refused,
    /// Anything else ended it.
    Fault,
}

/// How a turn's body failed, by the error it returned.
#[derive(Debug, Clone, Copy, PartialEq, Eq, Structural)]
pub enum Failure {
    Refused,
    Faulted,
    Lost,
    Unlicensed,
}

/// How a turn's body ended: its generation answered (and whether a stop
/// aborted it), or it failed.
#[derive(Debug, Clone, Copy, PartialEq, Eq, Structural)]
pub enum BodyEnd {
    Answered { aborted: bool },
    Failed(Failure),
}

/// What a turn reports once its bracket is done.
#[derive(Debug, Clone, Copy, PartialEq, Eq, Structural)]
pub enum Reported {
    Answered { aborted: bool },
    Failed(Failure),
}

/// Where the end of a turn stands: its close asked for an answered body,
/// its fault report asked, its close asked for a failed body (the fault
/// having landed or not), or done.
#[derive(Debug, Clone, Copy, PartialEq, Eq, Structural)]
pub enum Closing {
    Answering { aborted: bool },
    Reporting,
    Failing { failure: Failure, fault_landed: bool },
    Done,
}

/// What the turn does next: author the organ's fault report inside the
/// bracket, author the close, or report, the bracket being done.
#[derive(Debug, Clone, Copy, PartialEq, Eq, Structural)]
pub enum ClosingStep {
    AuthorFault,
    AuthorClose(CloseReason),
    Report(Reported),
}

/// The reason a failed body's close records.
pub open spec fn failure_reason(failure: Failure) -> CloseReason {
    if failure == Failure::Refused {
        CloseReason::Refused
    } else {
        CloseReason::Fault
    }
}

/// The first step once the body ended: an answered body closes clean or by
/// the directive; a faulted one files the organ's report first; any other
/// failure closes with its reason.
pub open spec fn closing_begin_spec(end: BodyEnd) -> (Closing, ClosingStep) {
    match end {
        BodyEnd::Answered { aborted } => (
            Closing::Answering { aborted },
            ClosingStep::AuthorClose(if aborted { CloseReason::Directive } else { CloseReason::Clean }),
        ),
        BodyEnd::Failed(Failure::Faulted) => (Closing::Reporting, ClosingStep::AuthorFault),
        BodyEnd::Failed(failure) => (
            Closing::Failing { failure, fault_landed: true },
            ClosingStep::AuthorClose(failure_reason(failure)),
        ),
    }
}

/// The step after an authoring landed or not. A close that landed for an
/// answered body reports the answer; one that did not leaves the body lost,
/// closed again by the fault. After the report the close follows. A failed
/// body's close reports its failure where the close and the report landed,
/// else the channel's loss.
pub open spec fn closing_after_spec(stage: Closing, landed: bool) -> (Closing, ClosingStep) {
    match stage {
        Closing::Answering { aborted } => if landed {
            (Closing::Done, ClosingStep::Report(Reported::Answered { aborted }))
        } else {
            (
                Closing::Failing { failure: Failure::Lost, fault_landed: true },
                ClosingStep::AuthorClose(CloseReason::Fault),
            )
        },
        Closing::Reporting => (
            Closing::Failing { failure: Failure::Faulted, fault_landed: landed },
            ClosingStep::AuthorClose(CloseReason::Fault),
        ),
        Closing::Failing { failure, fault_landed } => (
            Closing::Done,
            ClosingStep::Report(
                if landed && fault_landed {
                    Reported::Failed(failure)
                } else {
                    Reported::Failed(Failure::Lost)
                },
            ),
        ),
        Closing::Done => (Closing::Done, ClosingStep::Report(Reported::Failed(Failure::Lost))),
    }
}

/// The first step once the body ended.
pub fn closing_begin(end: BodyEnd) -> (r: (Closing, ClosingStep))
    ensures
        r == closing_begin_spec(end),
{
    match end {
        BodyEnd::Answered { aborted } => (
            Closing::Answering { aborted },
            ClosingStep::AuthorClose(if aborted { CloseReason::Directive } else { CloseReason::Clean }),
        ),
        BodyEnd::Failed(Failure::Faulted) => (Closing::Reporting, ClosingStep::AuthorFault),
        BodyEnd::Failed(failure) => (
            Closing::Failing { failure, fault_landed: true },
            ClosingStep::AuthorClose(
                match failure {
                    Failure::Refused => CloseReason::Refused,
                    _ => CloseReason::Fault,
                },
            ),
        ),
    }
}

/// The step after an authoring landed or not.
pub fn closing_after(stage: Closing, landed: bool) -> (r: (Closing, ClosingStep))
    ensures
        r == closing_after_spec(stage, landed),
{
    match stage {
        Closing::Answering { aborted } => if landed {
            (Closing::Done, ClosingStep::Report(Reported::Answered { aborted }))
        } else {
            (
                Closing::Failing { failure: Failure::Lost, fault_landed: true },
                ClosingStep::AuthorClose(CloseReason::Fault),
            )
        },
        Closing::Reporting => (
            Closing::Failing { failure: Failure::Faulted, fault_landed: landed },
            ClosingStep::AuthorClose(CloseReason::Fault),
        ),
        Closing::Failing { failure, fault_landed } => (
            Closing::Done,
            ClosingStep::Report(
                if landed && fault_landed {
                    Reported::Failed(failure)
                } else {
                    Reported::Failed(Failure::Lost)
                },
            ),
        ),
        Closing::Done => (Closing::Done, ClosingStep::Report(Reported::Failed(Failure::Lost))),
    }
}

/// An event the record holds for a turn.
#[derive(Debug, Clone, Copy, PartialEq, Eq, Structural)]
pub enum TurnEvent {
    Started,
    /// One of the body's events: a message, a model event, a tool bracket.
    Body,
    FaultReport,
    Closed(CloseReason),
}

/// The events that land as the turn's end runs from `stage` with `step`
/// next, each authoring landing as `lands` says in turn, and what is
/// reported (none where the landings ran out first).
pub open spec fn closing_run(stage: Closing, step: ClosingStep, lands: Seq<bool>) -> (
    Seq<TurnEvent>,
    Option<Reported>,
)
    decreases lands.len(),
{
    match step {
        ClosingStep::Report(r) => (Seq::empty(), Some(r)),
        _ => if lands.len() == 0 {
            (Seq::empty(), None)
        } else {
            let event = match step {
                ClosingStep::AuthorClose(reason) => TurnEvent::Closed(reason),
                _ => TurnEvent::FaultReport,
            };
            let (next_stage, next_step) = closing_after_spec(stage, lands[0]);
            let (rest, reported) = closing_run(next_stage, next_step, lands.drop_first());
            (if lands[0] { seq![event] + rest } else { rest }, reported)
        },
    }
}

/// The record of one turn: its start, the body's events (none a close), and
/// what its end authored.
pub open spec fn turn_record(body: nat, end: BodyEnd, lands: Seq<bool>) -> Seq<TurnEvent> {
    let (stage, step) = closing_begin_spec(end);
    seq![TurnEvent::Started] + Seq::new(body, |i: int| TurnEvent::Body) + closing_run(
        stage,
        step,
        lands,
    ).0
}

/// How many of the events are closes.
pub open spec fn closes(events: Seq<TurnEvent>) -> nat
    decreases events.len(),
{
    if events.len() == 0 {
        0
    } else {
        closes(events.drop_last()) + if events.last() is Closed { 1nat } else { 0nat }
    }
}

/// The close reason the report names.
pub open spec fn reported_reason(reported: Reported) -> CloseReason {
    match reported {
        Reported::Answered { aborted } => if aborted {
            CloseReason::Directive
        } else {
            CloseReason::Clean
        },
        Reported::Failed(failure) => failure_reason(failure),
    }
}

proof fn lemma_closes_concat(a: Seq<TurnEvent>, b: Seq<TurnEvent>)
    ensures
        closes(a + b) == closes(a) + closes(b),
    decreases b.len(),
{
    if b.len() == 0 {
        assert(a + b =~= a);
    } else {
        lemma_closes_concat(a, b.drop_last());
        assert((a + b).drop_last() =~= a + b.drop_last());
    }
}

/// The events a step authors where it lands.
pub open spec fn step_event(step: ClosingStep) -> TurnEvent {
    match step {
        ClosingStep::AuthorClose(reason) => TurnEvent::Closed(reason),
        _ => TurnEvent::FaultReport,
    }
}

/// The shape of what a turn's end authors: at most a fault report and then a
/// close.
pub open spec fn tail_shaped(tail: Seq<TurnEvent>) -> bool {
    &&& tail.len() <= 2
    &&& tail.len() == 2 ==> tail[0] == TurnEvent::FaultReport && tail[1] is Closed
    &&& tail.len() == 1 ==> (tail[0] is Closed || tail[0] == TurnEvent::FaultReport)
}

proof fn lemma_run_unfolds(stage: Closing, step: ClosingStep, lands: Seq<bool>)
    requires
        lands.len() > 0,
        !(step is Report),
    ensures
        closing_run(stage, step, lands) == ({
            let (next_stage, next_step) = closing_after_spec(stage, lands[0]);
            let (rest, reported) = closing_run(next_stage, next_step, lands.drop_first());
            (if lands[0] { seq![step_event(step)] + rest } else { rest }, reported)
        }),
{
}

/// What a turn's end authors, whichever authorings land: at most a fault
/// report and then a close; the end is done once three authorings were
/// answered; and where it reports anything but the channel's loss, the
/// close of the reported reason is last.
proof fn lemma_closing_tail(end: BodyEnd, lands: Seq<bool>)
    ensures
        ({
            let (stage, step) = closing_begin_spec(end);
            let (tail, reported) = closing_run(stage, step, lands);
            &&& lands.len() >= 3 ==> reported is Some
            &&& tail_shaped(tail)
            &&& (reported is Some && reported != Some(Reported::Failed(Failure::Lost))) ==> tail.len()
                >= 1 && tail.last() == TurnEvent::Closed(reported_reason(reported->0))
        }),
{
    let (stage, step) = closing_begin_spec(end);
    if lands.len() == 0 {
        return;
    }
    lemma_run_unfolds(stage, step, lands);
    let l1 = lands.drop_first();
    let (s1, p1) = closing_after_spec(stage, lands[0]);
    if p1 is Report || l1.len() == 0 {
        return;
    }
    lemma_run_unfolds(s1, p1, l1);
    let l2 = l1.drop_first();
    let (s2, p2) = closing_after_spec(s1, l1[0]);
    if p2 is Report || l2.len() == 0 {
        return;
    }
    lemma_run_unfolds(s2, p2, l2);
    let (s3, p3) = closing_after_spec(s2, l2[0]);
    assert(p3 is Report);
}

/// **Each turn closes once, last.** However the body ended and whichever
/// authorings land, the record holds at most one close, and nothing of the
/// turn follows it (the organ's fault report comes before); once the turn's
/// end has had its authorings answered (three at most) it reports, and unless
/// it reports the channel's loss the record holds exactly one close, last,
/// naming what ended the turn: the directive or clean for an answer, refused
/// for a refusal, the fault for anything else.
pub proof fn lemma_each_turn_closes_once_last(body: nat, end: BodyEnd, lands: Seq<bool>)
    ensures
        ({
            let (stage, step) = closing_begin_spec(end);
            let (tail, reported) = closing_run(stage, step, lands);
            let record = turn_record(body, end, lands);
            &&& lands.len() >= 3 ==> reported is Some
            &&& closes(record) <= 1
            &&& forall|i: int| 0 <= i < record.len() - 1 ==> !(#[trigger] record[i] is Closed)
            &&& record[0] == TurnEvent::Started
            &&& (reported is Some && reported != Some(Reported::Failed(Failure::Lost))) ==> closes(
                record,
            ) == 1 && record.last() == TurnEvent::Closed(reported_reason(reported->0))
        }),
{
    let (stage, step) = closing_begin_spec(end);
    let (tail, reported) = closing_run(stage, step, lands);
    let head = seq![TurnEvent::Started] + Seq::new(body, |i: int| TurnEvent::Body);
    let record = turn_record(body, end, lands);
    assert(record == head + tail);
    lemma_closing_tail(end, lands);
    lemma_head_no_close(head, head.len() as int);
    assert(head.take(head.len() as int) =~= head);
    if tail.len() == 2 {
        assert(tail.drop_last() =~= seq![tail[0]]);
        assert(seq![tail[0]].drop_last() =~= Seq::<TurnEvent>::empty());
        assert(closes(Seq::<TurnEvent>::empty()) == 0);
        assert(seq![tail[0]].last() == tail[0]);
        assert(closes(seq![tail[0]]) == 0);
        assert(closes(tail) == 1);
    } else if tail.len() == 1 {
        assert(tail.drop_last() =~= Seq::<TurnEvent>::empty());
        assert(closes(Seq::<TurnEvent>::empty()) == 0);
        assert(closes(tail) == if tail[0] is Closed { 1nat } else { 0nat });
    } else {
        assert(closes(tail) == 0);
    }
    lemma_closes_concat(head, tail);
    assert(closes(record) == closes(tail));
    assert forall|i: int| 0 <= i < record.len() - 1 implies !(#[trigger] record[i] is Closed) by {
        if i < head.len() {
            assert(record[i] == head[i]);
        } else {
            assert(record[i] == tail[i - head.len()]);
        }
    }
    if tail.len() > 0 {
        assert(record.last() == tail.last());
    }
    assert(record[0] == head[0]);
}

proof fn lemma_head_no_close(head: Seq<TurnEvent>, k: int)
    requires
        0 <= k <= head.len(),
        forall|i: int| 0 <= i < head.len() ==> !(#[trigger] head[i] is Closed),
    ensures
        closes(head.take(k)) == 0,
    decreases k,
{
    if k > 0 {
        lemma_head_no_close(head, k - 1);
        assert(head.take(k).drop_last() =~= head.take(k - 1));
    }
}

/// The refusal a directive is answered with.
pub fn directive_refusal(refusal: DirectiveRefusal) -> (r: LifecycleRefusal)
    ensures
        r == match refusal {
            DirectiveRefusal::ActivityNotAtRest => LifecycleRefusal::ActivityNotAtRest,
            DirectiveRefusal::OutOfOrder => LifecycleRefusal::OutOfOrder,
        },
{
    match refusal {
        DirectiveRefusal::ActivityNotAtRest => LifecycleRefusal::ActivityNotAtRest,
        DirectiveRefusal::OutOfOrder => LifecycleRefusal::OutOfOrder,
    }
}

/// The turn was aborted: a stop was asked and the generation ended
/// stopped.
pub open spec fn aborted_by(stop_asked: bool, finish: Finish) -> bool {
    stop_asked && finish == Finish::Stopped
}

/// Whether the turn closes aborted.
pub fn aborted(stop_asked: bool, finish: Finish) -> (a: bool)
    ensures
        a == aborted_by(stop_asked, finish),
{
    stop_asked && match finish {
        Finish::Stopped => true,
        _ => false,
    }
}

/// What a stop asked during the turn is answered at its close: the aborted
/// turn, or rest where the generation finished anyway.
pub fn stop_answer(aborted: bool, turn: &str) -> (answer: LifecycleAnswer)
    ensures
        aborted ==> (answer matches LifecycleAnswer::TurnAborted { turn: t } && t@ == turn@),
        !aborted ==> answer == LifecycleAnswer::AtRest,
{
    if aborted {
        LifecycleAnswer::TurnAborted { turn: String::from_str(turn) }
    } else {
        LifecycleAnswer::AtRest
    }
}

/// The turn's answer from its closing generation.
pub fn turn_outcome(turn: String, generation: Generation, aborted: bool) -> (outcome: TurnOutcome)
    ensures
        outcome.turn@ == turn@,
        outcome.emission@ == generation.emission@,
        outcome.stopped == (generation.finish == Finish::Stopped),
        outcome.aborted == aborted,
        outcome.truncated == (generation.finish == Finish::Length),
{
    let stopped = match generation.finish {
        Finish::Stopped => true,
        _ => false,
    };
    let truncated = match generation.finish {
        Finish::Length => true,
        _ => false,
    };
    TurnOutcome { turn, emission: generation.emission, stopped, aborted, truncated }
}

/// Why a stopped turn stopped, as its close records it.
#[derive(Debug, Clone, Copy, PartialEq, Eq, Structural)]
pub enum StopReason {
    Refused,
    Fault,
    Directive,
}

/// The reason a failed turn closes with: a refusal is a refusal, anything
/// else a fault.
pub fn stop_reason(error: &TurnError) -> (reason: StopReason)
    ensures
        reason == (if error is Refused { StopReason::Refused } else { StopReason::Fault }),
{
    match error {
        TurnError::Refused { .. } => StopReason::Refused,
        _ => StopReason::Fault,
    }
}

/// What a failed turn reports once its close was attempted: the error itself
/// where the close landed and so did the fault it carried, else the
/// channel's loss, the record being untrustworthy whatever the first cause.
pub fn turn_failure(error: TurnError, fault_landed: bool, close_landed: bool) -> (reported: TurnError)
    ensures
        (fault_landed && close_landed) ==> reported == error,
        !(fault_landed && close_landed) ==> reported is ChannelLost,
{
    if fault_landed && close_landed {
        error
    } else {
        TurnError::ChannelLost
    }
}

/// The resident and capacity after an edit left `after` resident, where
/// both were known.
pub fn fullness_after(fullness: Option<(u64, u64)>, after: u64) -> (next: Option<(u64, u64)>)
    ensures
        next == match fullness {
            Some((_, capacity)) => Some((after, capacity)),
            None => None::<(u64, u64)>,
        },
{
    match fullness {
        Some((_, capacity)) => Some((after, capacity)),
        None => None,
    }
}

/// A reply on the decode seam to a flush or an elision, by its shape.
#[derive(Debug, Clone, Copy, PartialEq, Eq, Structural)]
pub enum CutReply {
    /// The seam confirmed the cut with the resident lengths either side.
    Counts { before: u64, after: u64 },
    AtRest,
    Refusal(TokenRefusal),
    /// Any other reply, or the seam broke.
    Other,
}

/// What a flush or an elision does with a reply.
#[derive(Debug, Clone, Copy, PartialEq, Eq, Structural)]
pub enum CutStep {
    /// The cut is confirmed.
    Done { before: u64, after: u64 },
    /// Keep waiting.
    Wait,
    /// Record the refusal, with the ask, and answer nothing.
    Refused(TokenRefusal),
    /// Answer nothing.
    Lost,
}

/// The reading of a reply to a cut: confirmed counts end the wait, rest is
/// waited past, a refusal is recorded, and anything else answers nothing.
pub fn on_cut(reply: CutReply) -> (step: CutStep)
    ensures
        step == match reply {
            CutReply::Counts { before, after } => CutStep::Done { before, after },
            CutReply::AtRest => CutStep::Wait,
            CutReply::Refusal(r) => CutStep::Refused(r),
            CutReply::Other => CutStep::Lost,
        },
{
    match reply {
        CutReply::Counts { before, after } => CutStep::Done { before, after },
        CutReply::AtRest => CutStep::Wait,
        CutReply::Refusal(r) => CutStep::Refused(r),
        CutReply::Other => CutStep::Lost,
    }
}

/// The two cuts a loop may ask of the session.
#[derive(Debug, Clone, Copy, PartialEq, Eq, Structural)]
pub enum Cut {
    /// Return the session to a kept resident length: asking again with the
    /// same length reaches the same state.
    Flush,
    /// Remove a span: the positions after a removal are not those before it,
    /// so the same span asked twice removes a different region.
    Elide,
}

/// The fullness once a cut left `after` resident.
pub open spec fn moved_fullness(fullness: Option<(u64, u64)>, after: u64) -> Option<(u64, u64)> {
    match fullness {
        Some((_, capacity)) => Some((after, capacity)),
        None => None,
    }
}

/// What a confirmed cut answers the loop and leaves as the fullness, its
/// event recorded or not. An elision has happened whatever the record holds,
/// so it answers its counts and moves the fullness either way; a flush whose
/// event did not land answers nothing and leaves the fullness, since asking
/// it again is safe.
pub fn cut_answer(
    cut: Cut,
    before: u64,
    after: u64,
    recorded: bool,
    fullness: Option<(u64, u64)>,
) -> (answer: (Option<(u64, u64)>, Option<(u64, u64)>))
    ensures
        (cut == Cut::Elide || recorded) ==> answer == (
            Some((before, after)),
            moved_fullness(fullness, after),
        ),
        (cut == Cut::Flush && !recorded) ==> answer == (None::<(u64, u64)>, fullness),
{
    match cut {
        Cut::Flush => if recorded {
            (Some((before, after)), fullness_after(fullness, after))
        } else {
            (None, fullness)
        },
        Cut::Elide => (Some((before, after)), fullness_after(fullness, after)),
    }
}

/// Clears the pressure report where the record fell under its mark.
pub fn clear_pressure_if_under(over_mark: bool, reported: &mut bool)
    ensures
        *final(reported) == (*old(reported) && over_mark),
{
    if !over_mark {
        *reported = false;
    }
}

/// Whether this observation of the record's pressure authors a report: one
/// per crossing of the mark, the flag held until the record falls under.
pub fn report_pressure(over_mark: bool, reported: &mut bool) -> (author: bool)
    ensures
        author == (over_mark && !*old(reported)),
        *final(reported) == over_mark,
{
    if !over_mark {
        *reported = false;
        return false;
    }
    if *reported {
        return false;
    }
    *reported = true;
    true
}

/// The reports authored over a run of observations of the pressure, from a
/// flag `reported`: the flag after, and the count.
pub open spec fn reports_over(reported: bool, over: Seq<bool>) -> (bool, nat)
    decreases over.len(),
{
    if over.len() == 0 {
        (reported, 0)
    } else {
        let (flag, count) = reports_over(reported, over.drop_last());
        if over.last() && !flag {
            (true, count + 1)
        } else {
            (over.last(), count)
        }
    }
}

/// The observations at which the record crossed its mark: over the mark,
/// and under it (or not yet reported) just before.
pub open spec fn crossings(reported: bool, over: Seq<bool>) -> nat
    decreases over.len(),
{
    if over.len() == 0 {
        0
    } else {
        let before = if over.len() == 1 { reported } else { over[over.len() - 2] };
        crossings(reported, over.drop_last()) + if over.last() && !before { 1nat } else { 0nat }
    }
}

/// **A condition is reported once per crossing.** Over any run of
/// observations, the reports authored are exactly the crossings of the mark:
/// a condition that persists is one condition, and falling under the mark
/// and crossing again is a second.
pub proof fn lemma_one_report_per_crossing(reported: bool, over: Seq<bool>)
    ensures
        reports_over(reported, over).1 == crossings(reported, over),
        over.len() > 0 ==> reports_over(reported, over).0 == over.last(),
        over.len() == 0 ==> reports_over(reported, over).0 == reported,
    decreases over.len(),
{
    if over.len() > 0 {
        lemma_one_report_per_crossing(reported, over.drop_last());
        if over.len() > 1 {
            assert(over.drop_last().last() == over[over.len() - 2]);
        }
    }
}

/// The account a pressure report carries.
pub open spec fn pressure_account_of(queued: u64, mark: u64) -> Seq<char> {
    "{\"organ\":\"harness\",\"queued\":"@ + decimal(queued as nat) + ",\"mark\":"@ + decimal(
        mark as nat,
    ) + "}"@
}

/// The account a pressure report carries.
pub fn pressure_account(queued: u64, mark: u64) -> (account: String)
    ensures
        account@ == pressure_account_of(queued, mark),
{
    let mut account = String::from_str("{\"organ\":\"harness\",\"queued\":");
    account.append(decimal_string(queued).as_str());
    account.append(",\"mark\":");
    account.append(decimal_string(mark).as_str());
    account.append("}");
    account
}

/// A reply on the classify seam, by its shape.
#[derive(Debug, Clone, Copy, PartialEq, Eq, Structural)]
pub enum ClassifyReply {
    Scored,
    Ready,
    Fault,
    Refusal,
    Lost,
}

/// What the classify ask does with a reply.
#[derive(Debug, Clone, Copy, PartialEq, Eq, Structural)]
pub enum ClassifyStep {
    /// Record the scores and answer them.
    Answer,
    /// Keep waiting.
    Wait,
    /// Record the organ's fault and answer nothing.
    RecordFault,
    /// Record the refusal and answer nothing.
    RecordRefusal,
    /// Retire the seam, record its loss, and answer nothing.
    Retire,
}

/// The classify ask's reading of a reply.
pub fn on_classify(reply: ClassifyReply) -> (step: ClassifyStep)
    ensures
        step == match reply {
            ClassifyReply::Scored => ClassifyStep::Answer,
            ClassifyReply::Ready => ClassifyStep::Wait,
            ClassifyReply::Fault => ClassifyStep::RecordFault,
            ClassifyReply::Refusal => ClassifyStep::RecordRefusal,
            ClassifyReply::Lost => ClassifyStep::Retire,
        },
{
    match reply {
        ClassifyReply::Scored => ClassifyStep::Answer,
        ClassifyReply::Ready => ClassifyStep::Wait,
        ClassifyReply::Fault => ClassifyStep::RecordFault,
        ClassifyReply::Refusal => ClassifyStep::RecordRefusal,
        ClassifyReply::Lost => ClassifyStep::Retire,
    }
}

/// The account a lost classify seam is reported with.
pub fn classify_lost_account() -> (account: String)
    ensures
        account@ == "{\"organ\":\"harness\",\"leg\":\"classify\"}"@,
{
    String::from_str("{\"organ\":\"harness\",\"leg\":\"classify\"}")
}

} // verus!

