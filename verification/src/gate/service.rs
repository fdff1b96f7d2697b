//! The membrane's lifecycle service: where the hook stands, what a lifecycle
//! envelope asks of it, and which readiness the loop serves next. The loop
//! itself, polling descriptors and moving bytes, stands at the composition
//! root and follows these decisions.

use vstd::prelude::*;
use crate::gate::relay::Relay;
use crate::gate::channel::{ChannelFault, EntryFault};
use crate::wire::{
    ExchangeId, LifecycleAnswer, LifecycleDirective, LifecycleRefusal, Opener, OrganEnvelope,
    Payload, Position,
};

verus! {

/// The hook's three positions: no hook before the raise, a raised hook, and
/// the terminal position after the lower.
#[derive(Debug, Clone, Copy, PartialEq, Eq, Structural)]
pub enum HookPosition {
    BeforeRaise,
    Raised,
    Lowered,
}

/// What a lifecycle envelope asks of the service.
#[derive(Debug, Clone, Copy, PartialEq, Eq, Structural)]
pub enum Dispatch {
    /// Answer with this refusal and move nowhere.
    Refuse(RefusalKind),
    /// Bind the hook the directive names.
    Raise,
    /// Lower the raised hook.
    Lower,
}

/// The refusals the service answers by itself.
#[derive(Debug, Clone, Copy, PartialEq, Eq, Structural)]
pub enum RefusalKind {
    OutOfOrder,
}

/// The directive the envelope opens, where the harness opened it.
pub open spec fn opened_directive(envelope: OrganEnvelope) -> Option<LifecycleDirective> {
    if envelope.position != Position::Open || envelope.exchange.opener != Opener::Harness {
        None
    } else {
        match envelope.payload {
            Payload::Directive(d) => Some(d),
            _ => None,
        }
    }
}

/// The service's reading of a lifecycle envelope: only an envelope the
/// harness opened with a directive is read; a raise is served before any
/// raise and a lower while raised; everything else is out of order.
pub open spec fn dispatch_spec(position: HookPosition, envelope: OrganEnvelope) -> Dispatch {
    match opened_directive(envelope) {
        Some(LifecycleDirective::Raise { .. }) => if position == HookPosition::BeforeRaise {
            Dispatch::Raise
        } else {
            Dispatch::Refuse(RefusalKind::OutOfOrder)
        },
        Some(LifecycleDirective::Lower) => if position == HookPosition::Raised {
            Dispatch::Lower
        } else {
            Dispatch::Refuse(RefusalKind::OutOfOrder)
        },
        _ => Dispatch::Refuse(RefusalKind::OutOfOrder),
    }
}

/// What the service does with a lifecycle envelope in `position`.
pub fn dispatch(position: HookPosition, envelope: &OrganEnvelope) -> (d: Dispatch)
    ensures
        d == dispatch_spec(position, *envelope),
{
    if envelope.position != Position::Open || envelope.exchange.opener != Opener::Harness {
        return Dispatch::Refuse(RefusalKind::OutOfOrder);
    }
    match &envelope.payload {
        Payload::Directive(LifecycleDirective::Raise { .. }) => match position {
            HookPosition::BeforeRaise => Dispatch::Raise,
            _ => Dispatch::Refuse(RefusalKind::OutOfOrder),
        },
        Payload::Directive(LifecycleDirective::Lower) => match position {
            HookPosition::Raised => Dispatch::Lower,
            _ => Dispatch::Refuse(RefusalKind::OutOfOrder),
        },
        _ => Dispatch::Refuse(RefusalKind::OutOfOrder),
    }
}

/// The payload a self-answered refusal carries.
pub fn refusal_payload(kind: RefusalKind) -> (p: Payload)
    ensures
        p == Payload::Refusal(LifecycleRefusal::OutOfOrder),
{
    match kind {
        RefusalKind::OutOfOrder => Payload::Refusal(LifecycleRefusal::OutOfOrder),
    }
}

/// Where a raise leaves the hook and what it answers: a bound listener is
/// ready, and a bind that failed refuses and leaves the hook unraised.
pub fn after_raise(bound: bool) -> (r: (HookPosition, Payload))
    ensures
        bound ==> r == (HookPosition::Raised, Payload::Answer(LifecycleAnswer::GateReady)),
        !bound ==> r == (HookPosition::BeforeRaise, Payload::Refusal(LifecycleRefusal::BindFailed)),
{
    if bound {
        (HookPosition::Raised, Payload::Answer(LifecycleAnswer::GateReady))
    } else {
        (HookPosition::BeforeRaise, Payload::Refusal(LifecycleRefusal::BindFailed))
    }
}

/// Where a lower leaves the hook and what it answers.
pub fn after_lower() -> (r: (HookPosition, Payload))
    ensures
        r == (HookPosition::Lowered, Payload::Answer(LifecycleAnswer::GateStopped)),
{
    (HookPosition::Lowered, Payload::Answer(LifecycleAnswer::GateStopped))
}

/// The answer to an exchange: its close, carrying `payload`.
pub fn close_of(exchange: ExchangeId, payload: Payload) -> (envelope: OrganEnvelope)
    ensures
        envelope == (OrganEnvelope { exchange, position: Position::Close, payload }),
{
    OrganEnvelope { exchange, position: Position::Close, payload }
}

/// A membrane whose boundary could not be verified answers every exchange with
/// that refusal, closing it.
pub fn boundary_refusal(received: &OrganEnvelope) -> (answer: OrganEnvelope)
    ensures
        answer == (OrganEnvelope {
            exchange: received.exchange,
            position: Position::Close,
            payload: Payload::Refusal(LifecycleRefusal::BoundaryUnverified),
        }),
{
    OrganEnvelope {
        exchange: received.exchange,
        position: Position::Close,
        payload: Payload::Refusal(LifecycleRefusal::BoundaryUnverified),
    }
}

/// Where a lifecycle envelope leaves the hook and what it is answered,
/// `bound` telling whether the raise's bind took where a raise is served.
pub open spec fn answer_spec(position: HookPosition, envelope: OrganEnvelope, bound: bool) -> (
    HookPosition,
    Payload,
) {
    match dispatch_spec(position, envelope) {
        Dispatch::Refuse(_) => (position, Payload::Refusal(LifecycleRefusal::OutOfOrder)),
        Dispatch::Raise => if bound {
            (HookPosition::Raised, Payload::Answer(LifecycleAnswer::GateReady))
        } else {
            (HookPosition::BeforeRaise, Payload::Refusal(LifecycleRefusal::BindFailed))
        },
        Dispatch::Lower => (HookPosition::Lowered, Payload::Answer(LifecycleAnswer::GateStopped)),
    }
}

/// Where a lifecycle envelope leaves the hook and what it is answered, the
/// raise's bind having taken or not.
pub fn answer_directive(position: HookPosition, envelope: &OrganEnvelope, bound: bool) -> (r: (
    HookPosition,
    Payload,
))
    ensures
        r == answer_spec(position, *envelope, bound),
{
    match dispatch(position, envelope) {
        Dispatch::Refuse(kind) => (position, refusal_payload(kind)),
        Dispatch::Raise => after_raise(bound),
        Dispatch::Lower => after_lower(),
    }
}

/// **Lowered is terminal.** Once the hook is lowered, every envelope is
/// answered out of order and the hook moves nowhere.
pub proof fn lemma_lowered_is_terminal(envelope: OrganEnvelope, bound: bool)
    ensures
        dispatch_spec(HookPosition::Lowered, envelope) == Dispatch::Refuse(RefusalKind::OutOfOrder),
        answer_spec(HookPosition::Lowered, envelope, bound) == (
            HookPosition::Lowered,
            Payload::Refusal(LifecycleRefusal::OutOfOrder),
        ),
{
}

/// **A refused envelope moves the hook nowhere, and a refused raise holds
/// nothing.** Whatever the envelope, the hook is where it was unless a raise
/// bound or a lower was served.
pub proof fn lemma_refusals_hold_position(position: HookPosition, envelope: OrganEnvelope, bound: bool)
    ensures
        answer_spec(position, envelope, bound).1 is Refusal ==> answer_spec(position, envelope, bound).0
            == position,
{
}

/// **The hook walks its positions in one order.** A raise is served only
/// before any raise, a lower only while raised; nothing else moves the hook.
pub proof fn lemma_positions_walk_forward(position: HookPosition, envelope: OrganEnvelope)
    ensures
        dispatch_spec(position, envelope) == Dispatch::Raise ==> position == HookPosition::BeforeRaise,
        dispatch_spec(position, envelope) == Dispatch::Lower ==> position == HookPosition::Raised,
{
}

/// The connections the membrane keeps at once; a peer admitted past this is
/// closed unserved.
pub const RETAINED_LIMIT: usize = 64;

/// Whether a newly admitted peer is kept, `served` connections standing.
pub fn retains_another(served: usize) -> (kept: bool)
    ensures
        kept == (served < RETAINED_LIMIT),
{
    served < RETAINED_LIMIT
}

/// One descriptor's readiness after a poll.
#[derive(Debug, Clone, Copy, PartialEq, Eq, Structural)]
pub struct Readiness {
    pub readable: bool,
    pub writable: bool,
    pub hangup: bool,
    pub error: bool,
    pub invalid: bool,
}

pub open spec fn stirred(r: Readiness) -> bool {
    r.readable || r.writable || r.hangup || r.error || r.invalid
}

/// What stirred a descriptor to be read: input, the peer's hangup, or an
/// error.
pub open spec fn read_wake(r: Readiness) -> bool {
    r.readable || r.hangup || r.error
}

/// The descriptors the service waits on, in poll order.
#[derive(Debug, Clone, Copy, PartialEq, Eq, Structural)]
pub enum Tag {
    Channel,
    Listener,
    Connection(usize),
}

/// What the service serves after a poll.
#[derive(Debug, Clone, Copy, PartialEq, Eq, Structural)]
pub enum Wake {
    /// Nothing stirred; poll again.
    Idle,
    /// A descriptor was invalid, or the listener errored: the service ends.
    Fail,
    /// A lifecycle envelope, or the channel's closure, waits to be read.
    ChannelEvent,
    /// The channel can take the envelopes held for it.
    FlushPending,
    /// A peer dialed the listener.
    JudgeOne,
    /// A served connection has input, a hangup or an error.
    ReadConnection(usize),
    /// A served connection can take its owed response.
    WriteConnection(usize),
}

/// `i` is the first descriptor that stirred.
pub open spec fn first_stirred_at(readiness: Seq<Readiness>, i: int) -> bool {
    &&& 0 <= i < readiness.len()
    &&& stirred(readiness[i])
    &&& forall|j: int| 0 <= j < i ==> !stirred(readiness[j])
}

/// What a tagged descriptor's readiness asks for.
pub open spec fn wake_for(tag: Tag, r: Readiness) -> Wake {
    if r.invalid {
        Wake::Fail
    } else {
        match tag {
            Tag::Channel => if read_wake(r) {
                Wake::ChannelEvent
            } else {
                Wake::FlushPending
            },
            Tag::Listener => if r.error {
                Wake::Fail
            } else {
                Wake::JudgeOne
            },
            Tag::Connection(at) => if read_wake(r) {
                Wake::ReadConnection(at)
            } else if r.writable {
                Wake::WriteConnection(at)
            } else {
                Wake::Idle
            },
        }
    }
}

/// The service serves the first descriptor that stirred, one per wake.
pub open spec fn next_wake_spec(tags: Seq<Tag>, readiness: Seq<Readiness>) -> Wake {
    if exists|i: int| first_stirred_at(readiness, i) {
        let i = choose|i: int| first_stirred_at(readiness, i);
        wake_for(tags[i], readiness[i])
    } else {
        Wake::Idle
    }
}

fn wake_for_exec(tag: Tag, r: Readiness) -> (w: Wake)
    ensures
        w == wake_for(tag, r),
{
    if r.invalid {
        return Wake::Fail;
    }
    match tag {
        Tag::Channel => if r.readable || r.hangup || r.error {
            Wake::ChannelEvent
        } else {
            Wake::FlushPending
        },
        Tag::Listener => if r.error {
            Wake::Fail
        } else {
            Wake::JudgeOne
        },
        Tag::Connection(at) => if r.readable || r.hangup || r.error {
            Wake::ReadConnection(at)
        } else if r.writable {
            Wake::WriteConnection(at)
        } else {
            Wake::Idle
        },
    }
}

/// What the service serves after a poll that reported `readiness` for the
/// descriptors `tags` names.
pub fn next_wake(tags: &Vec<Tag>, readiness: &Vec<Readiness>) -> (w: Wake)
    requires
        tags@.len() == readiness@.len(),
    ensures
        w == next_wake_spec(tags@, readiness@),
{
    let mut i: usize = 0;
    while i < readiness.len()
        invariant
            tags@.len() == readiness@.len(),
            i <= readiness@.len(),
            forall|j: int| 0 <= j < i ==> !stirred(readiness@[j]),
        decreases readiness@.len() - i,
    {
        let r = readiness[i];
        if r.readable || r.writable || r.hangup || r.error || r.invalid {
            proof {
                assert(first_stirred_at(readiness@, i as int));
                assert forall|k: int| first_stirred_at(readiness@, k) implies k == i by {
                    if k < i {
                        assert(!stirred(readiness@[k]));
                    } else if k > i {
                        assert(stirred(readiness@[i as int]));
                    }
                }
            }
            return wake_for_exec(tags[i], r);
        }
        i = i + 1;
    }
    Wake::Idle
}

/// Whether the channel is waited on for room as well as for input: only
/// while envelopes wait for it.
pub fn channel_wants_write(position: HookPosition, pending: usize) -> (wants: bool)
    ensures
        wants == (position == HookPosition::Raised && pending > 0),
{
    match position {
        HookPosition::Raised => pending > 0,
        _ => false,
    }
}

/// Where a response frame the harness closed goes.
#[derive(Debug, Clone, Copy, PartialEq, Eq, Structural)]
pub enum Route {
    /// No hook is raised to route it.
    NoHook,
    /// The frame closes no exchange this membrane opened.
    Foreign,
    /// The connection owed it already left.
    Lost(u64),
    /// The connection at this index is owed it.
    Deliver(usize),
}

/// Where a response frame goes: only the close of an exchange the membrane
/// opened is routed, to the connection whose exchange it closes.
pub fn route_response(relay: Option<&Relay>, envelope: &OrganEnvelope) -> (route: Route)
    ensures
        match relay {
            None => route == Route::NoHook,
            Some(r) => if envelope.exchange.opener != Opener::Gate || envelope.position
                != Position::Close {
                route == Route::Foreign
            } else {
                match route {
                    Route::Deliver(at) => at < r.connections().len()
                        && r.connections()[at as int]@.exchange == Some(envelope.exchange.ordinal),
                    Route::Lost(o) => o == envelope.exchange.ordinal && forall|j: int|
                        0 <= j < r.connections().len() ==> r.connections()[j]@.exchange != Some(
                            envelope.exchange.ordinal,
                        ),
                    _ => false,
                }
            },
        },
{
    let relay = match relay {
        None => return Route::NoHook,
        Some(r) => r,
    };
    if envelope.exchange.opener != Opener::Gate || envelope.position != Position::Close {
        return Route::Foreign;
    }
    let ordinal = envelope.exchange.ordinal;
    match relay.owed(ordinal) {
        Some(at) => Route::Deliver(at),
        None => Route::Lost(ordinal),
    }
}

} // verus!

verus! {

/// How the membrane's process ends.
#[derive(Debug, Clone, Copy, PartialEq, Eq, Structural)]
pub enum Exit {
    Success,
    Failure,
}

/// What entry does with its outcome: serve the adopted channel; where only
/// the hygiene failed and the channel is held, answer every directive with
/// the unverified boundary rather than die as a closed channel would read;
/// otherwise fail mute.
#[derive(Debug, Clone, Copy, PartialEq, Eq, Structural)]
pub enum EntryStep {
    Serve,
    RefuseEverything,
    Fail,
}

/// Entry's step from its fault (none where the channel was adopted) and
/// whether the channel is held.
pub fn on_entry(fault: Option<EntryFault>, channel_held: bool) -> (step: EntryStep)
    ensures
        step == match fault {
            None => EntryStep::Serve,
            Some(EntryFault::HygieneFailed) => if channel_held {
                EntryStep::RefuseEverything
            } else {
                EntryStep::Fail
            },
            Some(EntryFault::ChannelUnusable) => EntryStep::Fail,
        },
{
    match fault {
        None => EntryStep::Serve,
        Some(EntryFault::HygieneFailed) => if channel_held {
            EntryStep::RefuseEverything
        } else {
            EntryStep::Fail
        },
        Some(EntryFault::ChannelUnusable) => EntryStep::Fail,
    }
}

/// What the channel was doing when it faulted: answering everything while
/// the boundary is unverified, carrying a lifecycle exchange (reading a
/// directive or writing its answer), or carrying relayed client frames.
#[derive(Debug, Clone, Copy, PartialEq, Eq, Structural)]
pub enum ChannelUse {
    Refusing,
    Lifecycle,
    Relay,
}

/// How the process ends when its channel faults: closure met on a lifecycle
/// exchange is the interior gone and ends the membrane cleanly; any other
/// fault, closure while relaying a frame, and any fault while the membrane
/// refuses everything end it in failure.
pub fn exit_on_fault(during: ChannelUse, fault: ChannelFault) -> (exit: Exit)
    ensures
        exit == if during == ChannelUse::Lifecycle && fault == ChannelFault::Closed {
            Exit::Success
        } else {
            Exit::Failure
        },
{
    match (during, fault) {
        (ChannelUse::Lifecycle, ChannelFault::Closed) => Exit::Success,
        _ => Exit::Failure,
    }
}

} // verus!
