//! The lifecycle's decisions: the organs the harness forks and what it
//! hands them, how an organ's death and an exchange's reply are read, the
//! order a leave reports its refusals in, the client's request line and the
//! close it is answered with, and what each directive asks of the channel's
//! position. Forking, moving envelopes and recording stand at the
//! composition root.

use vstd::prelude::*;
use vstd::string::*;
use std::path::PathBuf;
use crate::harness::authorship::FaultCase;
use crate::harness::turn::{TurnError, TurnOutcome};
use crate::json::{
    json_bytes_canonical, json_bytes_canonical_of, json_entries, json_entries_of, json_object_text,
    json_object_text_of, json_text, json_text_of,
};
use crate::text::{decimal, decimal_string, same_text};
use crate::wire::{
    LifecycleAnswer, LifecycleDirective, LifecycleRefusal, Payload, RefusingOrgan, TokenRefusal,
    TurnFrame,
};

verus! {

/// A filesystem path, as std holds it.
#[verifier::external_type_specification]
#[verifier::external_body]
pub struct ExPathBuf(PathBuf);

/// `PathBuf`'s `clone`; nothing is claimed of the copy.
pub assume_specification[ <PathBuf as Clone>::clone ](path: &PathBuf) -> (copy: PathBuf);

/// The organ binaries the harness forks.
#[derive(Debug, Clone)]
pub struct OrganBinaries {
    pub spu: PathBuf,
    pub gate: PathBuf,
    pub classify: Option<PathBuf>,
}

/// The operator's parameters for the organs.
#[derive(Debug, Clone)]
pub struct OrganParameters {
    pub headroom_bytes: Option<String>,
}

impl Default for OrganParameters {
    fn default() -> (parameters: Self)
        ensures
            parameters.headroom_bytes is None,
    {
        OrganParameters { headroom_bytes: None }
    }
}

impl OrganParameters {
    /// The arguments the model organ is forked with: each stated parameter
    /// travels named, and an unstated one not at all.
    pub fn spu_arguments(&self) -> (arguments: Vec<String>)
        ensures
            match self.headroom_bytes {
                Some(headroom) => arguments@.map_values(|a: String| a@) == seq![
                    "--headroom-bytes"@,
                    headroom@,
                ],
                None => arguments@.len() == 0,
            },
    {
        let mut arguments: Vec<String> = Vec::new();
        match &self.headroom_bytes {
            Some(headroom) => {
                arguments.push(String::from_str("--headroom-bytes"));
                arguments.push(headroom.clone());
                proof {
                    assert(arguments@.map_values(|a: String| a@) =~= seq![
                        "--headroom-bytes"@,
                        headroom@,
                    ]);
                }
            },
            None => {},
        }
        arguments
    }
}

/// The exit status a forked organ leaves when its descriptors could not be
/// placed.
pub const PLACEMENT_FAILED: i32 = 126;

/// The exit status a forked organ leaves when its binary could not run.
pub const EXEC_FAILED: i32 = 127;

/// The refusal an organ's early death names, from the status it exited
/// with: descriptors that could not be placed, or a binary that could not
/// run; any other end names nothing.
pub fn death_refusal(exited: Option<i32>) -> (refusal: Option<LifecycleRefusal>)
    ensures
        exited == Some(PLACEMENT_FAILED) ==> refusal == Some(LifecycleRefusal::DescriptorsUnusable),
        exited == Some(EXEC_FAILED) ==> refusal == Some(LifecycleRefusal::BindFailed),
        exited != Some(PLACEMENT_FAILED) && exited != Some(EXEC_FAILED) ==> refusal is None,
{
    match exited {
        Some(code) => if code == PLACEMENT_FAILED {
            Some(LifecycleRefusal::DescriptorsUnusable)
        } else if code == EXEC_FAILED {
            Some(LifecycleRefusal::BindFailed)
        } else {
            None
        },
        None => None,
    }
}

/// An organ that stopped answering is read by its death where the death
/// names a cause; any other refusal stands.
pub fn read_by_death(refusal: LifecycleRefusal, death: Option<LifecycleRefusal>) -> (read: LifecycleRefusal)
    ensures
        refusal == LifecycleRefusal::NoResidency ==> read == match death {
            Some(d) => d,
            None => LifecycleRefusal::NoResidency,
        },
        refusal != LifecycleRefusal::NoResidency ==> read == refusal,
{
    match refusal {
        LifecycleRefusal::NoResidency => match death {
            Some(d) => d,
            None => LifecycleRefusal::NoResidency,
        },
        other => other,
    }
}

/// A lifecycle exchange's reading: an organ that took nothing or answered
/// nothing holds no residency, an answer stands, the organ's refusal is
/// carried under its name, and anything else is malformed.
pub fn exchange_reply(reply: Option<Payload>, organ: RefusingOrgan) -> (read: Result<
    LifecycleAnswer,
    LifecycleRefusal,
>)
    ensures
        match reply {
            None => read == Err::<LifecycleAnswer, LifecycleRefusal>(LifecycleRefusal::NoResidency),
            Some(Payload::Answer(answer)) => read == Ok::<LifecycleAnswer, LifecycleRefusal>(answer),
            Some(Payload::Refusal(reason)) => read == Err::<LifecycleAnswer, LifecycleRefusal>(
                LifecycleRefusal::OrganRefused { organ, reason: Box::new(reason) },
            ),
            Some(_) => read == Err::<LifecycleAnswer, LifecycleRefusal>(LifecycleRefusal::Malformed),
        },
{
    match reply {
        None => Err(LifecycleRefusal::NoResidency),
        Some(Payload::Answer(answer)) => Ok(answer),
        Some(Payload::Refusal(reason)) => Err(
            LifecycleRefusal::OrganRefused { organ, reason: Box::new(reason) },
        ),
        Some(_) => Err(LifecycleRefusal::Malformed),
    }
}

/// A session open's reply on the decode seam, by its shape.
#[derive(Debug, Clone, Copy, PartialEq, Eq, Structural)]
pub enum OpenReply {
    Opened,
    Fault,
    Other,
    Lost,
}

/// A session open's reading: an opened session stands, a fault or a lost
/// seam holds no residency, anything else is a device that cannot admit.
pub fn session_opened(reply: OpenReply) -> (read: Result<(), LifecycleRefusal>)
    ensures
        read == match reply {
            OpenReply::Opened => Ok::<(), LifecycleRefusal>(()),
            OpenReply::Fault => Err(LifecycleRefusal::NoResidency),
            OpenReply::Lost => Err(LifecycleRefusal::NoResidency),
            OpenReply::Other => Err(LifecycleRefusal::DeviceCannotAdmit),
        },
{
    match reply {
        OpenReply::Opened => Ok(()),
        OpenReply::Fault => Err(LifecycleRefusal::NoResidency),
        OpenReply::Lost => Err(LifecycleRefusal::NoResidency),
        OpenReply::Other => Err(LifecycleRefusal::DeviceCannotAdmit),
    }
}

/// The refusal naming the classify instruction as invalid.
pub fn classify_invalid() -> (refusal: LifecycleRefusal)
    ensures
        refusal matches LifecycleRefusal::ConfigInvalid { field: Some(f) } && f@ == "classify"@,
{
    LifecycleRefusal::ConfigInvalid { field: Some(String::from_str("classify")) }
}

/// The arguments the classify organ is forked with: the artifact and the
/// first device of its binding; a binding with no device is invalid.
pub fn classify_arguments(artifact: &str, first_device: Option<u32>) -> (arguments: Result<
    Vec<String>,
    LifecycleRefusal,
>)
    ensures
        match first_device {
            Some(device) => arguments matches Ok(v) && v@.map_values(|a: String| a@) == seq![
                artifact@,
                decimal(device as nat),
            ],
            None => arguments matches Err(LifecycleRefusal::ConfigInvalid { field: Some(f) }) && f@
                == "classify"@,
        },
{
    match first_device {
        Some(device) => {
            let mut v: Vec<String> = Vec::new();
            v.push(String::from_str(artifact));
            v.push(decimal_string(device as u64));
            proof {
                assert(v@.map_values(|a: String| a@) =~= seq![artifact@, decimal(device as nat)]);
            }
            Ok(v)
        },
        None => Err(classify_invalid()),
    }
}

/// The classify organ's readiness: ready, or no residency.
pub fn classify_ready(ready: bool) -> (read: Result<(), LifecycleRefusal>)
    ensures
        ready ==> read is Ok,
        !ready ==> read == Err::<(), LifecycleRefusal>(LifecycleRefusal::NoResidency),
{
    if ready {
        Ok(())
    } else {
        Err(LifecycleRefusal::NoResidency)
    }
}

/// A leave's verdict from the membrane's lower (where a membrane stood), whether the
/// record drained, and the model organ's release (where it stood): the
/// first refusal in that order stands, a release refused after a failed
/// drain reads as unusable descriptors, and with no refusal a failed drain
/// is one.
pub open spec fn leave_verdict_spec(
    lowered: Option<Result<(), LifecycleRefusal>>,
    drained: bool,
    released: Option<Result<(), LifecycleRefusal>>,
) -> Result<(), LifecycleRefusal> {
    match lowered {
        Some(Err(refusal)) => Err(refusal),
        _ => match released {
            Some(Err(refusal)) => Err(
                if drained {
                    refusal
                } else {
                    LifecycleRefusal::DescriptorsUnusable
                },
            ),
            _ => if drained {
                Ok(())
            } else {
                Err(LifecycleRefusal::DescriptorsUnusable)
            },
        },
    }
}

/// A leave's verdict.
pub fn leave_verdict(
    lowered: Option<Result<(), LifecycleRefusal>>,
    drained: bool,
    released: Option<Result<(), LifecycleRefusal>>,
) -> (verdict: Result<(), LifecycleRefusal>)
    ensures
        verdict == leave_verdict_spec(lowered, drained, released),
{
    match lowered {
        Some(Err(refusal)) => return Err(refusal),
        _ => {},
    }
    match released {
        Some(Err(refusal)) => Err(
            if drained {
                refusal
            } else {
                LifecycleRefusal::DescriptorsUnusable
            },
        ),
        _ => if drained {
            Ok(())
        } else {
            Err(LifecycleRefusal::DescriptorsUnusable)
        },
    }
}

/// **A leave reports the membrane's refusal first.** Whatever the record and
/// the model organ did, a refused lower is the leave's answer.
pub proof fn lemma_the_gate_refusal_leads(
    refusal: LifecycleRefusal,
    drained: bool,
    released: Option<Result<(), LifecycleRefusal>>,
)
    ensures
        leave_verdict_spec(Some(Err(refusal)), drained, released) == Err::<(), LifecycleRefusal>(
            refusal,
        ),
{
}

/// **A clean leave is one where nothing refused and the record drained.**
pub proof fn lemma_a_leave_is_clean_only_when_all_is(
    lowered: Option<Result<(), LifecycleRefusal>>,
    drained: bool,
    released: Option<Result<(), LifecycleRefusal>>,
)
    ensures
        leave_verdict_spec(lowered, drained, released) is Ok <==> (!(lowered matches Some(Err(_)))
            && !(released matches Some(Err(_))) && drained),
{
}

/// The client's request line read: the carriage must be canonical, the
/// line one JSON object holding the text member, a string, and nothing else.
pub open spec fn request_spec(frame: TurnFrame) -> Result<Seq<char>, Seq<char>> {
    match frame {
        TurnFrame::NonCanonical => Err("the frame's carriage is not the canonical encoding"@),
        TurnFrame::Carried(octets) => match json_bytes_canonical_of(octets@) {
            None => Err("the line does not parse as one JSON value"@),
            Some(doc) => match json_entries_of(doc) {
                None => Err("a request is one JSON object"@),
                Some(entries) => if entries.len() != 1 {
                    Err("a request carries the text member and nothing else"@)
                } else if entries[0].0 != "text"@ {
                    Err("a request carries the text member, a string"@)
                } else {
                    match json_text_of(entries[0].1) {
                        Some(text) => Ok(text),
                        None => Err("a request carries the text member, a string"@),
                    }
                },
            },
        },
    }
}

/// The client's request: its text, or why the line is refused.
pub fn parse_request(frame: &TurnFrame) -> (request: Result<String, &'static str>)
    ensures
        match request_spec(*frame) {
            Ok(text) => request matches Ok(t) && t@ == text,
            Err(reason) => request matches Err(r) && r@ == reason,
        },
{
    let octets = match frame.octets() {
        Some(octets) => octets,
        None => return Err("the frame's carriage is not the canonical encoding"),
    };
    let doc = match json_bytes_canonical(octets.as_slice()) {
        Some(doc) => doc,
        None => return Err("the line does not parse as one JSON value"),
    };
    let entries = match json_entries(doc.as_str()) {
        Some(entries) => entries,
        None => return Err("a request is one JSON object"),
    };
    if entries.len() != 1 {
        return Err("a request carries the text member and nothing else");
    }
    if !same_text(entries[0].0.as_str(), "text") {
        return Err("a request carries the text member, a string");
    }
    match json_text(entries[0].1.as_str()) {
        Some(text) => Ok(text),
        None => Err("a request carries the text member, a string"),
    }
}

/// The members a close is rendered from, in the order they are placed: the
/// kind, the member that carries the close's word, the finish where the
/// answer was cut at its length, and the turn and run where one opened.
pub open spec fn close_members(
    kind: Seq<char>,
    member: Seq<char>,
    value: Seq<char>,
    named: Option<(Seq<char>, Seq<char>)>,
    truncated: bool,
) -> Seq<(Seq<char>, Seq<char>)> {
    let base = seq![("kind"@, kind), (member, value)];
    let with_finish = if truncated {
        base.push(("finish"@, "length"@))
    } else {
        base
    };
    match named {
        Some((turn, run)) => with_finish.push(("turn"@, turn)).push(("run"@, run)),
        None => with_finish,
    }
}

/// The close the client's line is answered with.
pub fn render_close_with_finish(
    kind: &str,
    member: &str,
    value: &str,
    named: Option<(&str, &str)>,
    truncated: bool,
) -> (close: String)
    ensures
        close@ == json_object_text_of(
            close_members(
                kind@,
                member@,
                value@,
                match named {
                    Some((t, r)) => Some((t@, r@)),
                    None => None,
                },
                truncated,
            ),
        ),
{
    let mut members: Vec<(String, String)> = Vec::new();
    members.push((String::from_str("kind"), String::from_str(kind)));
    members.push((String::from_str(member), String::from_str(value)));
    if truncated {
        members.push((String::from_str("finish"), String::from_str("length")));
    }
    match named {
        Some((turn, run)) => {
            members.push((String::from_str("turn"), String::from_str(turn)));
            members.push((String::from_str("run"), String::from_str(run)));
        },
        None => {},
    }
    proof {
        assert(members.deep_view() =~= close_members(
            kind@,
            member@,
            value@,
            match named {
                Some((t, r)) => Some((t@, r@)),
                None => None,
            },
            truncated,
        ));
    }
    json_object_text(&members)
}

/// The close, with no finish.
pub fn render_close(kind: &str, member: &str, value: &str, named: Option<(&str, &str)>) -> (close: String)
    ensures
        close@ == json_object_text_of(
            close_members(
                kind@,
                member@,
                value@,
                match named {
                    Some((t, r)) => Some((t@, r@)),
                    None => None,
                },
                false,
            ),
        ),
{
    render_close_with_finish(kind, member, value, named, false)
}

/// The words a decode refusal is told to the client in.
pub fn refusal_reason(refusal: &TokenRefusal) -> (reason: &'static str)
    ensures
        reason@ == match *refusal {
            TokenRefusal::NotOpen => "the session is not open"@,
            TokenRefusal::OutOfOrder => "the ask was out of order for the seam"@,
            TokenRefusal::Overflow { .. } => "the session cannot take the delta"@,
            TokenRefusal::MalformedDelta => "the delta was malformed for the family"@,
        },
{
    match refusal {
        TokenRefusal::NotOpen => "the session is not open",
        TokenRefusal::OutOfOrder => "the ask was out of order for the seam",
        TokenRefusal::Overflow { .. } => "the session cannot take the delta",
        TokenRefusal::MalformedDelta => "the delta was malformed for the family",
    }
}

/// The close a turn's result is answered with, none where the channel was
/// lost: an aborted turn stopped by the operator, an answered one with its
/// text (and its finish where its length cut it), and each failure stopped
/// with its reason, each naming the turn and the run.
pub fn turn_close(result: &Result<TurnOutcome, TurnError>, run: &str) -> (close: Option<String>)
    ensures
        match *result {
            Ok(outcome) => close matches Some(c) && c@ == json_object_text_of(
                if outcome.aborted {
                    close_members(
                        "stopped"@,
                        "reason"@,
                        "the operator stopped the turn"@,
                        Some((outcome.turn@, run@)),
                        false,
                    )
                } else {
                    close_members(
                        "answered"@,
                        "text"@,
                        outcome.emission@,
                        Some((outcome.turn@, run@)),
                        outcome.truncated,
                    )
                },
            ),
            Err(TurnError::Refused { turn, refusal }) => close matches Some(c) && c@
                == json_object_text_of(
                close_members(
                    "stopped"@,
                    "reason"@,
                    match refusal {
                        TokenRefusal::NotOpen => "the session is not open"@,
                        TokenRefusal::OutOfOrder => "the ask was out of order for the seam"@,
                        TokenRefusal::Overflow { .. } => "the session cannot take the delta"@,
                        TokenRefusal::MalformedDelta => "the delta was malformed for the family"@,
                    },
                    Some((turn@, run@)),
                    false,
                ),
            ),
            Err(TurnError::Faulted { turn, .. }) => close matches Some(c) && c@ == json_object_text_of(
                close_members(
                    "stopped"@,
                    "reason"@,
                    "the model organ reported a fault"@,
                    Some((turn@, run@)),
                    false,
                ),
            ),
            Err(TurnError::Unlicensed { turn }) => close matches Some(c) && c@ == json_object_text_of(
                close_members(
                    "stopped"@,
                    "reason"@,
                    "a message was not licensed for its role"@,
                    Some((turn@, run@)),
                    false,
                ),
            ),
            Err(TurnError::ChannelLost) => close is None,
        },
{
    match result {
        Ok(outcome) => if outcome.aborted {
            Some(
                render_close(
                    "stopped",
                    "reason",
                    "the operator stopped the turn",
                    Some((outcome.turn.as_str(), run)),
                ),
            )
        } else {
            Some(
                render_close_with_finish(
                    "answered",
                    "text",
                    outcome.emission.as_str(),
                    Some((outcome.turn.as_str(), run)),
                    outcome.truncated,
                ),
            )
        },
        Err(TurnError::Refused { turn, refusal }) => Some(
            render_close("stopped", "reason", refusal_reason(refusal), Some((turn.as_str(), run))),
        ),
        Err(TurnError::Faulted { turn, .. }) => Some(
            render_close(
                "stopped",
                "reason",
                "the model organ reported a fault",
                Some((turn.as_str(), run)),
            ),
        ),
        Err(TurnError::Unlicensed { turn }) => Some(
            render_close(
                "stopped",
                "reason",
                "a message was not licensed for its role",
                Some((turn.as_str(), run)),
            ),
        ),
        Err(TurnError::ChannelLost) => None,
    }
}

/// The account a structure with undecodable message records is reported
/// with.
pub fn undecodable_account(count: usize) -> (account: String)
    ensures
        account@ == "{\"organ\":\"harness\",\"undecodable-message-records\":"@ + decimal(
            count as nat,
        ) + "}"@,
{
    let mut account = String::from_str("{\"organ\":\"harness\",\"undecodable-message-records\":");
    account.append(decimal_string(count as u64).as_str());
    account.append("}");
    account
}

/// Where the coordination channel stands: before any enter, with a run
/// entered (and a turn in flight or not), or after the leave.
#[derive(Debug, Clone, PartialEq, Eq)]
pub enum ChannelPosition {
    BeforeEnter,
    Entered { turn_in_flight: Option<String> },
    Left,
}

/// What a directive on the coordination channel asks.
#[derive(Debug, Clone, PartialEq, Eq)]
pub enum LifecycleStep {
    /// Enter the run.
    Enter,
    /// Leave the run; the service ends.
    Leave,
    /// Stop the turn in flight, closing it stopped, and answer it aborted.
    Abort { turn: String },
    /// Answer at rest: nothing was in flight.
    AtRest,
    /// Refuse with this refusal and move nowhere.
    Refuse(LifecycleRefusal),
}

/// The channel's reading of a directive: an enter is served before any
/// enter, a leave and a stop while entered (a leave only at rest), and
/// everything else is out of order.
pub open spec fn lifecycle_step_spec(position: ChannelPosition, directive: LifecycleDirective) -> LifecycleStep {
    match (position, directive) {
        (ChannelPosition::BeforeEnter, LifecycleDirective::Enter) => LifecycleStep::Enter,
        (ChannelPosition::Entered { turn_in_flight }, LifecycleDirective::Leave) => if turn_in_flight is Some {
            LifecycleStep::Refuse(LifecycleRefusal::ActivityNotAtRest)
        } else {
            LifecycleStep::Leave
        },
        (ChannelPosition::Entered { turn_in_flight }, LifecycleDirective::Stop) => match turn_in_flight {
            Some(t) => LifecycleStep::Abort { turn: t },
            None => LifecycleStep::AtRest,
        },
        _ => LifecycleStep::Refuse(LifecycleRefusal::OutOfOrder),
    }
}

/// What a directive asks of the channel in `position`.
pub fn lifecycle_step(position: &ChannelPosition, directive: &LifecycleDirective) -> (step: LifecycleStep)
    ensures
        step == lifecycle_step_spec(*position, *directive),
{
    match (position, directive) {
        (ChannelPosition::BeforeEnter, LifecycleDirective::Enter) => LifecycleStep::Enter,
        (ChannelPosition::Entered { turn_in_flight }, LifecycleDirective::Leave) => match turn_in_flight {
            Some(_) => LifecycleStep::Refuse(LifecycleRefusal::ActivityNotAtRest),
            None => LifecycleStep::Leave,
        },
        (ChannelPosition::Entered { turn_in_flight }, LifecycleDirective::Stop) => match turn_in_flight {
            Some(t) => LifecycleStep::Abort { turn: t.clone() },
            None => LifecycleStep::AtRest,
        },
        _ => LifecycleStep::Refuse(LifecycleRefusal::OutOfOrder),
    }
}

/// Whether a seat may be granted: only to an entered run with no turn in
/// flight.
pub open spec fn seat_open(position: ChannelPosition) -> bool {
    position matches ChannelPosition::Entered { turn_in_flight: None }
}

/// Whether a seat may be granted.
pub fn seat_granted(position: &ChannelPosition) -> (granted: bool)
    ensures
        granted == seat_open(*position),
{
    match position {
        ChannelPosition::Entered { turn_in_flight: None } => true,
        _ => false,
    }
}

/// What a request for the seat comes to.
#[derive(Debug, Clone, Copy, PartialEq, Eq, Structural)]
pub enum SeatDecision {
    /// Hand the loop the standing interior with the assembled prompt.
    Grant,
    /// Refuse: there is no standing interior to hand across.
    Refuse,
    /// Refuse, and record the undecodable message records as a fault: a
    /// prompt with a hole does not cross the seam.
    RefuseHole { undecodable: usize },
}

/// The seat's decision: only a loaded and idle run is seated; its prompt
/// must have assembled whole (a hole refuses and is recorded); and the model
/// organ must stand.
pub open spec fn seat_decision_spec(
    position: ChannelPosition,
    undecodable: usize,
    model_stands: bool,
) -> SeatDecision {
    if !seat_open(position) {
        SeatDecision::Refuse
    } else if undecodable > 0 {
        SeatDecision::RefuseHole { undecodable }
    } else if !model_stands {
        SeatDecision::Refuse
    } else {
        SeatDecision::Grant
    }
}

/// The seat's decision for a run in `position` whose assembled prompt left
/// `undecodable` message records undecoded, the model organ standing or not.
pub fn seat_decision(position: &ChannelPosition, undecodable: usize, model_stands: bool) -> (decision:
    SeatDecision)
    ensures
        decision == seat_decision_spec(*position, undecodable, model_stands),
        decision == SeatDecision::Grant <==> (seat_open(*position) && undecodable == 0
            && model_stands),
{
    if !seat_granted(position) {
        SeatDecision::Refuse
    } else if undecodable > 0 {
        SeatDecision::RefuseHole { undecodable }
    } else if !model_stands {
        SeatDecision::Refuse
    } else {
        SeatDecision::Grant
    }
}

/// **Nothing leaves and nothing is seated while a turn is in flight.** A
/// leave asked while a turn runs is refused as not at rest, a stop aborts
/// that very turn, and no seat is granted; the run leaves only from rest.
pub proof fn lemma_a_turn_in_flight_holds_the_run(turn: String, directive: LifecycleDirective)
    ensures
        ({
            let busy = ChannelPosition::Entered { turn_in_flight: Some(turn) };
            &&& !seat_open(busy)
            &&& lifecycle_step_spec(busy, LifecycleDirective::Leave) == LifecycleStep::Refuse(
                LifecycleRefusal::ActivityNotAtRest,
            )
            &&& lifecycle_step_spec(busy, LifecycleDirective::Stop) == LifecycleStep::Abort { turn }
            &&& lifecycle_step_spec(busy, directive) != LifecycleStep::Leave
        }),
{
}

/// **Every directive outside the channel's vocabulary, or out of its
/// order, is refused out of order; only an entered run leaves.**
pub proof fn lemma_only_an_entered_run_leaves(position: ChannelPosition, directive: LifecycleDirective)
    ensures
        lifecycle_step_spec(position, directive) == LifecycleStep::Leave ==> (position
            == ChannelPosition::Entered { turn_in_flight: None } && directive == LifecycleDirective::Leave),
        lifecycle_step_spec(position, directive) == LifecycleStep::Enter ==> position
            == ChannelPosition::BeforeEnter,
{
}

/// What a listener's accept gave.
#[derive(Debug, Clone, Copy, PartialEq, Eq, Structural)]
pub enum AcceptResult {
    Accepted,
    WrongPeer,
    Failed,
}

/// What one read on a channel gave, by its shape.
#[derive(Debug, Clone, Copy, PartialEq, Eq, Structural)]
pub enum ChannelRead {
    /// A lifecycle directive.
    Directive,
    /// A client's frame.
    Frame,
    /// An organ's fault report.
    Fault,
    /// The decode seam at rest.
    AtRest,
    /// Any other payload.
    Other,
    /// The peer closed the channel.
    Closed,
    /// The channel failed.
    Failed,
}

/// What the serve loop does after a wake.
#[derive(Debug, Clone, Copy, PartialEq, Eq, Structural)]
pub enum ServeStep {
    /// Nothing to do: wait again.
    Continue,
    /// Hold the accepted connection and read it next.
    Adopt,
    /// Dispatch the directive read.
    Dispatch,
    /// Serve the client's frame.
    Serve,
    /// Record the organ's fault report and wait again.
    RecordFault,
    /// The membrane organ died with its hook raised: reap it and record it.
    MembraneDied,
    /// Unwind the run with this case and end the service.
    Unwind(FaultCase),
}

/// The coordination listener's wake: a root peer is held, another peer is
/// passed over, and a listener that fails ends the service.
pub fn on_listener(accepted: AcceptResult) -> (step: ServeStep)
    ensures
        step == match accepted {
            AcceptResult::Accepted => ServeStep::Adopt,
            AcceptResult::WrongPeer => ServeStep::Continue,
            AcceptResult::Failed => ServeStep::Unwind(FaultCase::ListenerLost),
        },
{
    match accepted {
        AcceptResult::Accepted => ServeStep::Adopt,
        AcceptResult::WrongPeer => ServeStep::Continue,
        AcceptResult::Failed => ServeStep::Unwind(FaultCase::ListenerLost),
    }
}

/// The held connection's wake: a directive is dispatched, a closed
/// connection is let go, and anything else ends the service.
pub fn on_connection(read: ChannelRead) -> (step: ServeStep)
    ensures
        step == match read {
            ChannelRead::Directive => ServeStep::Dispatch,
            ChannelRead::Closed => ServeStep::Continue,
            _ => ServeStep::Unwind(FaultCase::OrganDeathObserved),
        },
{
    match read {
        ChannelRead::Directive => ServeStep::Dispatch,
        ChannelRead::Closed => ServeStep::Continue,
        _ => ServeStep::Unwind(FaultCase::OrganDeathObserved),
    }
}

/// The membrane organ's channel's wake: a client's frame is served, a fault
/// report recorded, a closed channel is the organ's death, and anything else
/// ends the service.
pub fn on_membrane(read: ChannelRead) -> (step: ServeStep)
    ensures
        step == match read {
            ChannelRead::Frame => ServeStep::Serve,
            ChannelRead::Fault => ServeStep::RecordFault,
            ChannelRead::Closed => ServeStep::MembraneDied,
            _ => ServeStep::Unwind(FaultCase::OrganDeathObserved),
        },
{
    match read {
        ChannelRead::Frame => ServeStep::Serve,
        ChannelRead::Fault => ServeStep::RecordFault,
        ChannelRead::Closed => ServeStep::MembraneDied,
        _ => ServeStep::Unwind(FaultCase::OrganDeathObserved),
    }
}

/// The decode seam's wake between turns: only its rest is expected.
pub fn on_decode_wake(read: ChannelRead) -> (step: ServeStep)
    ensures
        step == if read == ChannelRead::AtRest {
            ServeStep::Continue
        } else {
            ServeStep::Unwind(FaultCase::OrganDeathObserved)
        },
{
    match read {
        ChannelRead::AtRest => ServeStep::Continue,
        _ => ServeStep::Unwind(FaultCase::OrganDeathObserved),
    }
}

/// The account a membrane organ's death is recorded with.
pub fn membrane_death_account() -> (account: String)
    ensures
        account@ == "{\"organ\":\"gate\",\"death\":\"channel closed with the hook raised\"}"@,
{
    String::from_str("{\"organ\":\"gate\",\"death\":\"channel closed with the hook raised\"}")
}

/// The close a line is answered with when the working structure holds a
/// record that did not decode.
pub fn hole_close() -> (close: String)
    ensures
        close@ == json_object_text_of(
            close_members("stopped"@, "reason"@, "the working structure holds a hole"@, None, false),
        ),
{
    render_close("stopped", "reason", "the working structure holds a hole", None)
}

/// What a dial on the coordination listener does while a turn streams.
#[derive(Debug, Clone, Copy, PartialEq, Eq, Structural)]
pub enum DialStep {
    /// No slot is lent to the turn: ignore the dial.
    Ignore,
    /// Hold the new connection in the slot.
    Adopt,
    /// The listener failed: the turn's channel is lost.
    Lost,
}

/// A dial during a turn: with a slot lent, a root peer is held and another
/// passed over; a failed listener loses the turn.
pub fn on_dial(slot_lent: bool, accepted: AcceptResult) -> (step: DialStep)
    ensures
        step == if !slot_lent {
            DialStep::Ignore
        } else {
            match accepted {
                AcceptResult::Accepted => DialStep::Adopt,
                AcceptResult::WrongPeer => DialStep::Ignore,
                AcceptResult::Failed => DialStep::Lost,
            }
        },
{
    if !slot_lent {
        return DialStep::Ignore;
    }
    match accepted {
        AcceptResult::Accepted => DialStep::Adopt,
        AcceptResult::WrongPeer => DialStep::Ignore,
        AcceptResult::Failed => DialStep::Lost,
    }
}


/// The stages an enter stands up, in the order it stands them: the record's
/// sink and recorder, the load event, the model organ's two seams, its fork,
/// admission and decode session, the classify arm where the instruction binds
/// one, then the membrane's channel, fork and raise.
#[derive(Debug, Clone, Copy, PartialEq, Eq, Structural)]
pub enum EnterStage {
    Sink,
    Recorder,
    Load,
    ResidencyPair,
    DecodePair,
    SpuFork,
    Admit,
    OpenSession,
    ClassifyBinary,
    ClassifyPair,
    ClassifyDevice,
    ClassifyFork,
    ClassifyReady,
    GateChannel,
    GateFork,
    Raise,
    Entered,
}

/// How a stage came out: it held, or it failed, with the refusal its own
/// exchange read where one was read.
#[derive(Debug, PartialEq, Eq)]
pub enum StageOutcome {
    Held,
    Failed(Option<LifecycleRefusal>),
}

/// A refused enter: before the load event nothing is authored and the stream
/// stays clean; after it the bracket stands and the partial run is handed back
/// to be unwound by the leave.
#[derive(Debug, PartialEq, Eq)]
pub enum EnterFailure {
    BeforeLoad(LifecycleRefusal),
    AfterLoad(LifecycleRefusal),
}

/// The stage's position in the order an enter walks.
pub open spec fn stage_rank(stage: EnterStage) -> nat {
    match stage {
        EnterStage::Sink => 0,
        EnterStage::Recorder => 1,
        EnterStage::Load => 2,
        EnterStage::ResidencyPair => 3,
        EnterStage::DecodePair => 4,
        EnterStage::SpuFork => 5,
        EnterStage::Admit => 6,
        EnterStage::OpenSession => 7,
        EnterStage::ClassifyBinary => 8,
        EnterStage::ClassifyPair => 9,
        EnterStage::ClassifyDevice => 10,
        EnterStage::ClassifyFork => 11,
        EnterStage::ClassifyReady => 12,
        EnterStage::GateChannel => 13,
        EnterStage::GateFork => 14,
        EnterStage::Raise => 15,
        EnterStage::Entered => 16,
    }
}

/// The stage that follows a held one; the classify arm stands only where the
/// instruction binds it.
pub open spec fn stage_after(stage: EnterStage, classify: bool) -> EnterStage {
    match stage {
        EnterStage::Sink => EnterStage::Recorder,
        EnterStage::Recorder => EnterStage::Load,
        EnterStage::Load => EnterStage::ResidencyPair,
        EnterStage::ResidencyPair => EnterStage::DecodePair,
        EnterStage::DecodePair => EnterStage::SpuFork,
        EnterStage::SpuFork => EnterStage::Admit,
        EnterStage::Admit => EnterStage::OpenSession,
        EnterStage::OpenSession => if classify {
            EnterStage::ClassifyBinary
        } else {
            EnterStage::GateChannel
        },
        EnterStage::ClassifyBinary => EnterStage::ClassifyPair,
        EnterStage::ClassifyPair => EnterStage::ClassifyDevice,
        EnterStage::ClassifyDevice => EnterStage::ClassifyFork,
        EnterStage::ClassifyFork => EnterStage::ClassifyReady,
        EnterStage::ClassifyReady => EnterStage::GateChannel,
        EnterStage::GateChannel => EnterStage::GateFork,
        EnterStage::GateFork => EnterStage::Raise,
        EnterStage::Raise => EnterStage::Entered,
        EnterStage::Entered => EnterStage::Entered,
    }
}

/// Whether a stage stands before the load event is authored.
pub open spec fn before_load(stage: EnterStage) -> bool {
    stage_rank(stage) <= 2
}

/// Whether a stage's refusal names the classify instruction as invalid.
pub open spec fn names_classify(stage: EnterStage) -> bool {
    stage == EnterStage::ClassifyBinary || stage == EnterStage::ClassifyDevice
}

/// The refusal a stage fails with when its own exchange read none: unusable
/// descriptors for a sink, recorder or seam pair, a malformed load, a failed
/// bind for a fork, an invalid classify instruction for a missing binary or
/// device, and no residency for an organ that did not answer.
pub open spec fn stage_refusal(stage: EnterStage) -> LifecycleRefusal {
    match stage {
        EnterStage::Load => LifecycleRefusal::Malformed,
        EnterStage::SpuFork => LifecycleRefusal::BindFailed,
        EnterStage::ClassifyFork => LifecycleRefusal::BindFailed,
        EnterStage::GateFork => LifecycleRefusal::BindFailed,
        EnterStage::Admit => LifecycleRefusal::NoResidency,
        EnterStage::OpenSession => LifecycleRefusal::NoResidency,
        EnterStage::ClassifyReady => LifecycleRefusal::NoResidency,
        EnterStage::Raise => LifecycleRefusal::NoResidency,
        EnterStage::Entered => LifecycleRefusal::NoResidency,
        _ => LifecycleRefusal::DescriptorsUnusable,
    }
}

/// Whether a refusal is the one naming the classify instruction as invalid.
pub open spec fn refusal_is_classify_invalid(refusal: LifecycleRefusal) -> bool {
    refusal matches LifecycleRefusal::ConfigInvalid { field: Some(f) } && f@ == "classify"@
}

/// One step of an enter, as a relation: a held stage moves to the next; a
/// failed one refuses with the refusal its exchange read, or else its own,
/// before or after the load as the stage stands; the entered run stays.
pub open spec fn enter_step_spec(
    stage: EnterStage,
    classify: bool,
    outcome: StageOutcome,
    step: Result<EnterStage, EnterFailure>,
) -> bool {
    if stage == EnterStage::Entered {
        step == Ok::<EnterStage, EnterFailure>(EnterStage::Entered)
    } else {
        match outcome {
            StageOutcome::Held => step == Ok::<EnterStage, EnterFailure>(stage_after(stage, classify)),
            StageOutcome::Failed(read) => {
                let refused = match step {
                    Err(EnterFailure::BeforeLoad(_)) => before_load(stage),
                    Err(EnterFailure::AfterLoad(_)) => !before_load(stage),
                    Ok(_) => false,
                };
                let refusal = match step {
                    Err(EnterFailure::BeforeLoad(r)) => r,
                    Err(EnterFailure::AfterLoad(r)) => r,
                    Ok(_) => LifecycleRefusal::NoResidency,
                };
                &&& refused
                &&& match read {
                    Some(r) => refusal == r,
                    None => if names_classify(stage) {
                        refusal_is_classify_invalid(refusal)
                    } else {
                        refusal == stage_refusal(stage)
                    },
                }
            },
        }
    }
}

/// The refusal a stage fails with when its own exchange read none.
fn own_refusal(stage: EnterStage) -> (refusal: LifecycleRefusal)
    ensures
        names_classify(stage) ==> refusal_is_classify_invalid(refusal),
        !names_classify(stage) ==> refusal == stage_refusal(stage),
{
    match stage {
        EnterStage::ClassifyBinary => classify_invalid(),
        EnterStage::ClassifyDevice => classify_invalid(),
        EnterStage::Load => LifecycleRefusal::Malformed,
        EnterStage::SpuFork => LifecycleRefusal::BindFailed,
        EnterStage::ClassifyFork => LifecycleRefusal::BindFailed,
        EnterStage::GateFork => LifecycleRefusal::BindFailed,
        EnterStage::Admit => LifecycleRefusal::NoResidency,
        EnterStage::OpenSession => LifecycleRefusal::NoResidency,
        EnterStage::ClassifyReady => LifecycleRefusal::NoResidency,
        EnterStage::Raise => LifecycleRefusal::NoResidency,
        EnterStage::Entered => LifecycleRefusal::NoResidency,
        _ => LifecycleRefusal::DescriptorsUnusable,
    }
}

/// One step of an enter: where a stage holds the walk moves on, and where it
/// fails the enter is refused, before or after the load as the stage stands.
pub fn enter_step(stage: EnterStage, classify: bool, outcome: StageOutcome) -> (step: Result<
    EnterStage,
    EnterFailure,
>)
    ensures
        enter_step_spec(stage, classify, outcome, step),
{
    if stage == EnterStage::Entered {
        return Ok(EnterStage::Entered);
    }
    let next = match stage {
        EnterStage::Sink => EnterStage::Recorder,
        EnterStage::Recorder => EnterStage::Load,
        EnterStage::Load => EnterStage::ResidencyPair,
        EnterStage::ResidencyPair => EnterStage::DecodePair,
        EnterStage::DecodePair => EnterStage::SpuFork,
        EnterStage::SpuFork => EnterStage::Admit,
        EnterStage::Admit => EnterStage::OpenSession,
        EnterStage::OpenSession => if classify {
            EnterStage::ClassifyBinary
        } else {
            EnterStage::GateChannel
        },
        EnterStage::ClassifyBinary => EnterStage::ClassifyPair,
        EnterStage::ClassifyPair => EnterStage::ClassifyDevice,
        EnterStage::ClassifyDevice => EnterStage::ClassifyFork,
        EnterStage::ClassifyFork => EnterStage::ClassifyReady,
        EnterStage::ClassifyReady => EnterStage::GateChannel,
        EnterStage::GateChannel => EnterStage::GateFork,
        EnterStage::GateFork => EnterStage::Raise,
        _ => EnterStage::Entered,
    };
    match outcome {
        StageOutcome::Held => Ok(next),
        StageOutcome::Failed(read) => {
            let refusal = match read {
                Some(r) => r,
                None => own_refusal(stage),
            };
            let early = match stage {
                EnterStage::Sink => true,
                EnterStage::Recorder => true,
                EnterStage::Load => true,
                _ => false,
            };
            if early {
                Err(EnterFailure::BeforeLoad(refusal))
            } else {
                Err(EnterFailure::AfterLoad(refusal))
            }
        },
    }
}

/// The stages a clean enter walks from `stage` to the entered run.
pub open spec fn held_path(stage: EnterStage, classify: bool) -> Seq<EnterStage>
    decreases 16 - stage_rank(stage),
{
    if stage == EnterStage::Entered {
        seq![EnterStage::Entered]
    } else if stage_rank(stage_after(stage, classify)) > stage_rank(stage) {
        seq![stage] + held_path(stage_after(stage, classify), classify)
    } else {
        seq![stage]
    }
}

/// Every stage a clean walk takes from `stage` on comes after it, and the
/// walk ends at the entered run.
proof fn lemma_held_path_ends_entered(stage: EnterStage, classify: bool)
    ensures
        held_path(stage, classify).len() >= 1,
        held_path(stage, classify).last() == EnterStage::Entered,
        held_path(stage, classify)[0] == stage,
        forall|i: int|
            0 <= i < held_path(stage, classify).len() ==> stage_rank(stage) <= stage_rank(
                #[trigger] held_path(stage, classify)[i],
            ),
        forall|i: int|
            0 <= i < held_path(stage, classify).len() ==> (classify || !(
            #[trigger] held_path(stage, classify)[i] == EnterStage::ClassifyReady) || stage
                == EnterStage::ClassifyReady || (8 <= stage_rank(stage) <= 12)),
    decreases 16 - stage_rank(stage),
{
    if stage != EnterStage::Entered {
        let next = stage_after(stage, classify);
        lemma_held_path_ends_entered(next, classify);
        let tail = held_path(next, classify);
        assert(held_path(stage, classify) == seq![stage] + tail);
        assert forall|i: int| 0 <= i < held_path(stage, classify).len() implies stage_rank(stage)
            <= stage_rank(#[trigger] held_path(stage, classify)[i]) by {
            if i > 0 {
                assert(held_path(stage, classify)[i] == tail[i - 1]);
            }
        }
        assert forall|i: int| 0 <= i < held_path(stage, classify).len() implies (classify || !(
        #[trigger] held_path(stage, classify)[i] == EnterStage::ClassifyReady) || stage
            == EnterStage::ClassifyReady || (8 <= stage_rank(stage) <= 12)) by {
            if i > 0 {
                assert(held_path(stage, classify)[i] == tail[i - 1]);
            }
        }
    }
}

/// **An enter whose every stage holds is entered.** Starting at the sink, the
/// walk reaches the entered run, and it passes the classify arm's readiness
/// exactly where the instruction binds the arm.
pub proof fn lemma_a_clean_enter_is_entered(classify: bool)
    ensures
        held_path(EnterStage::Sink, classify)[0] == EnterStage::Sink,
        held_path(EnterStage::Sink, classify).last() == EnterStage::Entered,
        held_path(EnterStage::Sink, classify).contains(EnterStage::ClassifyReady) <==> classify,
{
    lemma_held_path_ends_entered(EnterStage::Sink, classify);
    let path = held_path(EnterStage::Sink, classify);
    if classify {
        reveal_with_fuel(held_path, 14);
        assert(path[12] == EnterStage::ClassifyReady);
    }
}

/// **A refusal before the load leaves the stream clean, and every later one
/// carries the run back.** A failed stage refuses the enter before the load
/// exactly where it stands at or before the load event; from the model organ's
/// seams on, every refusal is after the load.
pub proof fn lemma_failures_split_at_the_load(
    stage: EnterStage,
    classify: bool,
    read: Option<LifecycleRefusal>,
    step: Result<EnterStage, EnterFailure>,
)
    requires
        stage != EnterStage::Entered,
        enter_step_spec(stage, classify, StageOutcome::Failed(read), step),
    ensures
        step is Err,
        step matches Err(EnterFailure::BeforeLoad(_)) <==> (stage == EnterStage::Sink || stage
            == EnterStage::Recorder || stage == EnterStage::Load),
{
}

} // verus!

