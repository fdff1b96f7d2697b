//! The floor's wire vocabulary as this library reads it: exchanges, the
//! lifecycle's directives, answers and refusals, the tool exchange and the
//! canonical messages. Encoding these values on a socket is the composition
//! root's business; the logic here reads and builds them.

use vstd::prelude::*;
use std::collections::BTreeSet;

verus! {

/// Who opened an exchange. Each initiator numbers its own exchanges.
#[derive(Debug, Clone, Copy, PartialEq, Eq, Structural)]
pub enum Opener {
    Harness,
    Gate,
    Admin,
}

/// An exchange's identity: its opener and the opener's ordinal.
#[derive(Debug, Clone, Copy, PartialEq, Eq, Structural)]
pub struct ExchangeId {
    pub opener: Opener,
    pub ordinal: u64,
}

/// An envelope's place in its exchange.
#[derive(Debug, Clone, Copy, PartialEq, Eq, Structural)]
pub enum Position {
    Open,
    Continue,
    Close,
}

/// Which organ refused inside an aggregate.
#[derive(Debug, Clone, Copy, PartialEq, Eq, Structural)]
pub enum RefusingOrgan {
    Spu,
    Gate,
}

/// The lifecycle's closed refusal set.
#[derive(Debug, PartialEq, Eq)]
pub enum LifecycleRefusal {
    OutOfOrder,
    BindFailed,
    BoundaryUnverified,
    DescriptorsUnusable,
    ActivityNotAtRest,
    NoResidency,
    Malformed,
    DeviceCannotAdmit,
    ConfigInvalid { field: Option<String> },
    OrganRefused { organ: RefusingOrgan, reason: Box<LifecycleRefusal> },
}

impl Clone for LifecycleRefusal {
    fn clone(&self) -> (copy: Self)
        ensures
            copy == *self,
        decreases self,
    {
        match self {
            LifecycleRefusal::OutOfOrder => LifecycleRefusal::OutOfOrder,
            LifecycleRefusal::BindFailed => LifecycleRefusal::BindFailed,
            LifecycleRefusal::BoundaryUnverified => LifecycleRefusal::BoundaryUnverified,
            LifecycleRefusal::DescriptorsUnusable => LifecycleRefusal::DescriptorsUnusable,
            LifecycleRefusal::ActivityNotAtRest => LifecycleRefusal::ActivityNotAtRest,
            LifecycleRefusal::NoResidency => LifecycleRefusal::NoResidency,
            LifecycleRefusal::Malformed => LifecycleRefusal::Malformed,
            LifecycleRefusal::DeviceCannotAdmit => LifecycleRefusal::DeviceCannotAdmit,
            LifecycleRefusal::ConfigInvalid { field } => LifecycleRefusal::ConfigInvalid {
                field: match field {
                    Some(name) => Some(name.clone()),
                    None => None,
                },
            },
            LifecycleRefusal::OrganRefused { organ, reason } => {
                let inner: &LifecycleRefusal = reason;
                LifecycleRefusal::OrganRefused { organ: *organ, reason: Box::new(inner.clone()) }
            },
        }
    }
}

/// The lifecycle's answers.
#[derive(Debug, Clone, PartialEq, Eq)]
pub enum LifecycleAnswer {
    GateReady,
    GateStopped,
    Ready,
    Left,
    AtRest,
    TurnAborted { turn: String },
}

/// The access rule an operator elects for the membrane's listener: the uids and
/// gids permitted and the uids denied, denial winning over permission.
#[derive(Debug, Clone, PartialEq, Eq)]
pub struct AccessRule {
    pub allowed_uids: BTreeSet<u32>,
    pub allowed_gids: BTreeSet<u32>,
    pub denied_uids: BTreeSet<u32>,
}

/// What the raise directive carries for the membrane: the access rule.
#[derive(Debug, Clone, PartialEq, Eq)]
pub struct GateInstruction {
    pub access_rule: AccessRule,
}

/// The lifecycle's directives. The membrane draws `Raise` and `Lower`; the
/// harness draws `Enter`, `Leave` and `Stop`; every other directive belongs
/// to another seam.
#[derive(Debug, Clone, PartialEq, Eq)]
pub enum LifecycleDirective {
    Raise { instruction: GateInstruction, socket: String },
    Lower,
    Enter,
    Leave,
    Stop,
    Admit,
    Release,
    Load,
    Unload,
    Validate,
    List,
    Show { agent: String },
}

/// Who ended a killed tool run.
#[derive(Debug, Clone, Copy, PartialEq, Eq, Structural)]
pub enum KillCause {
    Clock,
    Cancel,
}

/// The four contents an execution exchange completes with, told apart by
/// who speaks: the shell, the membrane, the machinery, or the kill.
#[derive(Debug, Clone, PartialEq, Eq)]
pub enum ToolOutcome {
    Result { content: String },
    Refused { reason: String },
    Errored { detail: String },
    Killed { partial: Option<String>, by: KillCause },
}

/// One tool invocation: the name called, its raw arguments, and the caller's
/// clock in milliseconds.
#[derive(Debug, Clone, PartialEq, Eq)]
pub struct ToolExecution {
    pub name: String,
    pub arguments: String,
    pub clock_ms: u64,
}

/// A client line carried across the membrane seam. A frame whose carriage was
/// not the canonical encoding holds no octets.
#[derive(Debug, Clone, PartialEq, Eq)]
pub enum TurnFrame {
    Carried(Vec<u8>),
    NonCanonical,
}

impl TurnFrame {
    /// The frame carrying exactly these octets.
    pub fn carry(line: &[u8]) -> (frame: TurnFrame)
        ensures
            frame matches TurnFrame::Carried(o) && o@ == line@,
    {
        TurnFrame::Carried(vstd::slice::slice_to_vec(line))
    }

    /// The octets the frame carries, where its carriage was canonical.
    pub fn octets(&self) -> (octets: Option<Vec<u8>>)
        ensures
            match self {
                TurnFrame::Carried(line) => octets matches Some(o) && o@ == line@,
                TurnFrame::NonCanonical => octets is None,
            },
    {
        match self {
            TurnFrame::Carried(line) => Some(line.clone()),
            TurnFrame::NonCanonical => None,
        }
    }
}

/// What an envelope carries.
#[derive(Debug, Clone, PartialEq, Eq)]
pub enum Payload {
    Directive(LifecycleDirective),
    Answer(LifecycleAnswer),
    Refusal(LifecycleRefusal),
    Frame(TurnFrame),
    Tool(ToolExecution),
    ToolCancel,
    ToolAnswer(ToolOutcome),
}

/// One message on an organ channel.
#[derive(Debug, Clone, PartialEq, Eq)]
pub struct OrganEnvelope {
    pub exchange: ExchangeId,
    pub position: Position,
    pub payload: Payload,
}

/// A conversation role.
#[derive(Debug, Clone, Copy, PartialEq, Eq, Structural)]
pub enum Role {
    System,
    User,
    Assistant,
    ToolResult,
}

/// A tool call the model's emission carried.
#[derive(Debug, Clone, PartialEq, Eq)]
pub struct ToolCall {
    pub name: String,
    pub arguments: String,
}

/// The conversation's record of a granted tool result.
#[derive(Debug, Clone, PartialEq, Eq)]
pub struct ToolResultBlock {
    pub content: String,
}

/// One block of a message.
#[derive(Debug, Clone, PartialEq, Eq)]
pub enum ContentBlock {
    Text { text: String },
    ToolCall(ToolCall),
    ToolResult(ToolResultBlock),
}

/// A canonical message: a role and its blocks.
#[derive(Debug, Clone, PartialEq, Eq)]
pub struct Message {
    pub role: Role,
    pub content: Vec<ContentBlock>,
}

/// How a generation ended.
#[derive(Debug, Clone, Copy, PartialEq, Eq, Structural)]
pub enum Finish {
    Completed,
    Stopped,
    Length,
}

/// The decode seam's typed refusals.
#[derive(Debug, Clone, Copy, PartialEq, Eq, Structural)]
pub enum TokenRefusal {
    NotOpen,
    OutOfOrder,
    /// The delta does not fit: the resident length, the tokens asked for and
    /// the session's capacity.
    Overflow { resident: u64, requested: u64, capacity: u64 },
    MalformedDelta,
}

/// One generation the decode seam answered: its blocks and emission, how it
/// ended, the resident length after it and the context's capacity, and the
/// request and the measurement as the JSON text the seam carried.
#[derive(Debug, Clone, PartialEq, Eq)]
pub struct Generation {
    pub content: Vec<ContentBlock>,
    pub emission: String,
    pub finish: Finish,
    pub resident: u64,
    pub capacity: u64,
    pub request: String,
    pub measurement: String,
}

} // verus!
