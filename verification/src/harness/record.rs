//! The record's vocabulary: the serving trace's kinds and subsystems, the
//! diagnostic trace's, which of the former the latter carries, and the
//! pressure a record reports. The recorders themselves stand outside this
//! library.

use vstd::prelude::*;

verus! {

/// The serving trace's event kinds.
#[derive(Debug, Clone, Copy, PartialEq, Eq, Structural)]
pub enum TraceKind {
    TurnStarted,
    TurnClosed,
    MessageSystem,
    MessageUser,
    MessageAssistant,
    MessageToolResult,
    ModelRequest,
    ModelOutput,
    ModelMeasurement,
    ModelField,
    Flush,
    Refusal,
    Fault,
    Load,
    Unload,
    SessionClosed,
    ToolCallStarted,
    ToolCallCompleted,
    Elision,
    ClassifyRequest,
    ClassifyOutput,
}

/// The diagnostic trace's event kinds.
#[derive(Debug, Clone, Copy, PartialEq, Eq, Structural)]
pub enum DiagnosticKind {
    TurnStarted,
    TurnClosed,
    MessageSystem,
    MessageUser,
    MessageAssistant,
    MessageToolResult,
    ModelRequest,
    ModelOutput,
    ModelMeasurement,
    ModelField,
    Flush,
    Refusal,
    Fault,
    ReplayOpened,
    ReplayIdentity,
    ReplayClosed,
}

/// Who authored a serving event.
#[derive(Debug, Clone, Copy, PartialEq, Eq, Structural)]
pub enum Subsystem {
    Harness,
    Spu,
    SpuDecoder,
    Gate,
}

/// Who authored a diagnostic event.
#[derive(Debug, Clone, Copy, PartialEq, Eq, Structural)]
pub enum DiagnosticSubsystem {
    Harness,
    Spu,
    SpuDecoder,
}

/// The diagnostic kind a serving kind lands as, where the diagnostic
/// vocabulary holds it: the turn brackets, the messages, the model's
/// request, output, measurement and field, the flush, refusals and faults.
pub open spec fn diagnostic_kind_of(kind: TraceKind) -> Option<DiagnosticKind> {
    match kind {
        TraceKind::TurnStarted => Some(DiagnosticKind::TurnStarted),
        TraceKind::TurnClosed => Some(DiagnosticKind::TurnClosed),
        TraceKind::MessageSystem => Some(DiagnosticKind::MessageSystem),
        TraceKind::MessageUser => Some(DiagnosticKind::MessageUser),
        TraceKind::MessageAssistant => Some(DiagnosticKind::MessageAssistant),
        TraceKind::MessageToolResult => Some(DiagnosticKind::MessageToolResult),
        TraceKind::ModelRequest => Some(DiagnosticKind::ModelRequest),
        TraceKind::ModelOutput => Some(DiagnosticKind::ModelOutput),
        TraceKind::ModelMeasurement => Some(DiagnosticKind::ModelMeasurement),
        TraceKind::ModelField => Some(DiagnosticKind::ModelField),
        TraceKind::Flush => Some(DiagnosticKind::Flush),
        TraceKind::Refusal => Some(DiagnosticKind::Refusal),
        TraceKind::Fault => Some(DiagnosticKind::Fault),
        _ => None,
    }
}

/// The diagnostic kind a serving kind lands as, if any.
pub fn diagnostic_kind(kind: TraceKind) -> (landed: Option<DiagnosticKind>)
    ensures
        landed == diagnostic_kind_of(kind),
{
    match kind {
        TraceKind::TurnStarted => Some(DiagnosticKind::TurnStarted),
        TraceKind::TurnClosed => Some(DiagnosticKind::TurnClosed),
        TraceKind::MessageSystem => Some(DiagnosticKind::MessageSystem),
        TraceKind::MessageUser => Some(DiagnosticKind::MessageUser),
        TraceKind::MessageAssistant => Some(DiagnosticKind::MessageAssistant),
        TraceKind::MessageToolResult => Some(DiagnosticKind::MessageToolResult),
        TraceKind::ModelRequest => Some(DiagnosticKind::ModelRequest),
        TraceKind::ModelOutput => Some(DiagnosticKind::ModelOutput),
        TraceKind::ModelMeasurement => Some(DiagnosticKind::ModelMeasurement),
        TraceKind::ModelField => Some(DiagnosticKind::ModelField),
        TraceKind::Flush => Some(DiagnosticKind::Flush),
        TraceKind::Refusal => Some(DiagnosticKind::Refusal),
        TraceKind::Fault => Some(DiagnosticKind::Fault),
        TraceKind::Load | TraceKind::Unload | TraceKind::SessionClosed | TraceKind::ToolCallStarted
        | TraceKind::ToolCallCompleted | TraceKind::Elision | TraceKind::ClassifyRequest
        | TraceKind::ClassifyOutput => None,
    }
}

/// The diagnostic subsystem a serving subsystem lands as: the membrane has none.
pub fn diagnostic_subsystem(subsystem: Subsystem) -> (landed: Option<DiagnosticSubsystem>)
    ensures
        landed == match subsystem {
            Subsystem::Harness => Some(DiagnosticSubsystem::Harness),
            Subsystem::Spu => Some(DiagnosticSubsystem::Spu),
            Subsystem::SpuDecoder => Some(DiagnosticSubsystem::SpuDecoder),
            Subsystem::Gate => None::<DiagnosticSubsystem>,
        },
{
    match subsystem {
        Subsystem::Harness => Some(DiagnosticSubsystem::Harness),
        Subsystem::Spu => Some(DiagnosticSubsystem::Spu),
        Subsystem::SpuDecoder => Some(DiagnosticSubsystem::SpuDecoder),
        Subsystem::Gate => None,
    }
}

/// The commit pressure a record reports: how much is queued and whether the
/// queue stands over its high-water mark.
#[derive(Debug, Clone, Copy, PartialEq, Eq, Structural)]
pub struct Pressure {
    pub queued: u64,
    pub over_mark: bool,
}

/// The pressure a diagnostic record reports: it commits as it is handed
/// events, so nothing is queued.
pub fn diagnostic_pressure() -> (p: Pressure)
    ensures
        p == (Pressure { queued: 0, over_mark: false }),
{
    Pressure { queued: 0, over_mark: false }
}

/// **The diagnostic record carries the replay's own vocabulary and no
/// other.** No serving kind lands as one of the replay's bracket kinds, and a
/// kind that lands keeps its name.
pub proof fn lemma_no_serving_kind_lands_as_a_replay_kind(kind: TraceKind)
    ensures
        diagnostic_kind_of(kind) != Some(DiagnosticKind::ReplayOpened),
        diagnostic_kind_of(kind) != Some(DiagnosticKind::ReplayIdentity),
        diagnostic_kind_of(kind) != Some(DiagnosticKind::ReplayClosed),
{
}

} // verus!
