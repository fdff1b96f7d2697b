use std::collections::BTreeSet;

use weaver::gate::channel::{read_verdict, send_verdict, ChannelFault, EntryFault, MAX_ENVELOPE_BYTES};
use weaver::gate::hook::{authorized, bind_refusal, held_rule, judge_peer, AcceptOutcome, PeerIdentity, RaiseRefusal};
use weaver::gate::relay::{Framed, Gone, ReadOutcome, Relay, Served, WriteOutcome, LINE_BOUND};
use weaver::gate::service::{
    answer_directive, boundary_refusal, channel_wants_write, dispatch, next_wake, retains_another,
    route_response, Dispatch, HookPosition, Readiness, RefusalKind, Route, Tag, Wake,
};
use weaver::gate::service::{exit_on_fault, on_entry, ChannelUse, EntryStep, Exit};
use weaver::gate::shell::{
    cancels, final_reads, finished, joined, settle, supervision_slice, validate, Drained, ShellEnd,
};
use weaver::wire::{
    AccessRule, ExchangeId, GateInstruction, KillCause, LifecycleAnswer, LifecycleDirective,
    LifecycleRefusal, Opener, OrganEnvelope, Payload, Position, ToolExecution, ToolOutcome, TurnFrame,
};

fn opened(directive: LifecycleDirective) -> OrganEnvelope {
    OrganEnvelope {
        exchange: ExchangeId { opener: Opener::Harness, ordinal: 1 },
        position: Position::Open,
        payload: Payload::Directive(directive),
    }
}

fn instruction() -> GateInstruction {
    GateInstruction {
        access_rule: AccessRule {
            allowed_uids: BTreeSet::new(),
            allowed_gids: BTreeSet::new(),
            denied_uids: BTreeSet::new(),
        },
    }
}

fn raise(socket: &str) -> LifecycleDirective {
    LifecycleDirective::Raise { instruction: instruction(), socket: socket.to_string() }
}

#[test]
fn an_oversized_message_is_a_fault_rather_than_a_short_body() {
    assert_eq!(
        read_verdict(MAX_ENVELOPE_BYTES + 1, MAX_ENVELOPE_BYTES),
        Err(ChannelFault::Truncated { bound: MAX_ENVELOPE_BYTES })
    );
}

#[test]
fn a_closed_peer_reads_as_closure() {
    assert_eq!(read_verdict(0, MAX_ENVELOPE_BYTES), Err(ChannelFault::Closed));
}

#[test]
fn a_write_past_the_bound_refuses_before_it_reaches_the_socket() {
    assert_eq!(send_verdict(120, MAX_ENVELOPE_BYTES), Ok(()));
    assert_eq!(
        send_verdict(MAX_ENVELOPE_BYTES + 1, MAX_ENVELOPE_BYTES),
        Err(ChannelFault::Truncated { bound: MAX_ENVELOPE_BYTES })
    );
}

#[test]
fn a_datagram_exactly_at_the_bound_is_a_body() {
    assert_eq!(read_verdict(MAX_ENVELOPE_BYTES, MAX_ENVELOPE_BYTES), Ok(MAX_ENVELOPE_BYTES));
    assert_eq!(send_verdict(MAX_ENVELOPE_BYTES, MAX_ENVELOPE_BYTES), Ok(()));
}

#[test]
fn a_lower_before_any_raise_answers_out_of_order() {
    let (position, payload) =
        answer_directive(HookPosition::BeforeRaise, &opened(LifecycleDirective::Lower), true);
    assert_eq!(payload, Payload::Refusal(LifecycleRefusal::OutOfOrder));
    assert_eq!(position, HookPosition::BeforeRaise, "and is not queued");
}

#[test]
fn any_directive_after_a_lower_answers_out_of_order() {
    for case in [raise("/tmp/terminal.sock"), LifecycleDirective::Lower, LifecycleDirective::List] {
        let (position, payload) = answer_directive(HookPosition::Lowered, &opened(case), true);
        assert_eq!(payload, Payload::Refusal(LifecycleRefusal::OutOfOrder));
        assert_eq!(position, HookPosition::Lowered, "terminal stays terminal");
    }
}

#[test]
fn raise_then_lower_walks_the_three_positions() {
    let (position, ready) = answer_directive(HookPosition::BeforeRaise, &opened(raise("/tmp/walk.sock")), true);
    assert_eq!(ready, Payload::Answer(LifecycleAnswer::GateReady));
    assert_eq!(position, HookPosition::Raised);
    let (position, again) = answer_directive(position, &opened(raise("/tmp/walk.sock")), true);
    assert_eq!(again, Payload::Refusal(LifecycleRefusal::OutOfOrder), "a second raise refuses");
    assert_eq!(position, HookPosition::Raised);
    let (position, stopped) = answer_directive(position, &opened(LifecycleDirective::Lower), true);
    assert_eq!(stopped, Payload::Answer(LifecycleAnswer::GateStopped));
    assert_eq!(position, HookPosition::Lowered);
}

#[test]
fn a_refused_raise_holds_nothing_and_is_answered() {
    let (position, payload) = answer_directive(
        HookPosition::BeforeRaise,
        &opened(raise("/tmp/no-such-directory/gate.sock")),
        false,
    );
    assert_eq!(payload, Payload::Refusal(LifecycleRefusal::BindFailed), "the refusal is answered");
    assert_eq!(position, HookPosition::BeforeRaise, "and nothing is held");
}

#[test]
fn a_directive_outside_the_drawn_vocabulary_refuses() {
    for case in [
        LifecycleDirective::Leave,
        LifecycleDirective::Stop,
        LifecycleDirective::Release,
        LifecycleDirective::List,
        LifecycleDirective::Show { agent: "alpha".to_string() },
    ] {
        let (position, payload) = answer_directive(HookPosition::BeforeRaise, &opened(case), true);
        assert_eq!(payload, Payload::Refusal(LifecycleRefusal::OutOfOrder));
        assert_eq!(position, HookPosition::BeforeRaise);
    }
}

#[test]
fn a_mis_shapen_exchange_refuses_before_the_directive_runs() {
    let mut closing = opened(raise("/tmp/misshapen.sock"));
    closing.position = Position::Close;
    assert_eq!(dispatch(HookPosition::BeforeRaise, &closing), Dispatch::Refuse(RefusalKind::OutOfOrder));
    let (position, payload) = answer_directive(HookPosition::BeforeRaise, &closing, true);
    assert_eq!(payload, Payload::Refusal(LifecycleRefusal::OutOfOrder));
    assert_eq!(position, HookPosition::BeforeRaise, "nothing was bound");
    let mut foreign = opened(raise("/tmp/misshapen.sock"));
    foreign.exchange.opener = Opener::Gate;
    assert_eq!(dispatch(HookPosition::BeforeRaise, &foreign), Dispatch::Refuse(RefusalKind::OutOfOrder));
}

#[test]
fn a_boundary_that_could_not_be_verified_refuses_everything() {
    let received = opened(LifecycleDirective::List);
    let answer = boundary_refusal(&received);
    assert_eq!(answer.exchange, received.exchange);
    assert_eq!(answer.position, Position::Close);
    assert_eq!(answer.payload, Payload::Refusal(LifecycleRefusal::BoundaryUnverified));
}

fn octets(read: &[u8]) -> ReadOutcome {
    ReadOutcome::Octets(read.to_vec())
}

fn frame_octets(framed: Framed) -> (u64, Vec<u8>) {
    let Framed::Opened(envelope) = framed else { panic!("a frame opened") };
    assert_eq!(envelope.exchange.opener, Opener::Gate);
    assert_eq!(envelope.position, Position::Open);
    let Payload::Frame(frame) = envelope.payload else { panic!("a frame") };
    (envelope.exchange.ordinal, frame.octets().expect("canonical"))
}

#[test]
fn two_lines_frame_in_order_one_exchange_at_a_time() {
    let mut served = Served::fresh();
    let mut ordinal = 0u64;
    let first = served
        .on_readable(octets(b"first line, plain text\nsecond line, also plain\n"), &mut ordinal)
        .expect("reads");
    let (at, line) = frame_octets(first);
    assert_eq!(at, 1);
    assert_eq!(line, b"first line, plain text", "the frame carries the line's octets, unread");
    assert!(!served.wants_read(), "an open exchange leaves the read set");
    assert!(matches!(served.frame_one(&mut ordinal).expect("scans"), Framed::Waiting));
    served.on_response(&TurnFrame::carry(b"the first answer")).expect("routes");
    assert!(matches!(served.frame_one(&mut ordinal).expect("scans"), Framed::Waiting));
    assert_eq!(served.outbound(), b"the first answer\n");
    let owed = served.outbound().len();
    served.on_writable(WriteOutcome::Wrote(owed)).expect("drains");
    let (at, line) = frame_octets(served.frame_one(&mut ordinal).expect("scans"));
    assert_eq!(at, 2);
    assert_eq!(line, b"second line, also plain");
}

#[test]
fn responses_route_by_the_exchange_identity() {
    let mut relay = Relay::new();
    relay.keep(Served::fresh());
    relay.keep(Served::fresh());
    let (a, _) = frame_octets(relay.read_one(0, octets(b"from a\n")).expect("a"));
    let (b, _) = frame_octets(relay.read_one(1, octets(b"from b\n")).expect("b"));
    let answer = |ordinal: u64| OrganEnvelope {
        exchange: ExchangeId { opener: Opener::Gate, ordinal },
        position: Position::Close,
        payload: Payload::Frame(TurnFrame::carry(b"x")),
    };
    assert_eq!(route_response(Some(&relay), &answer(b)), Route::Deliver(1));
    assert_eq!(route_response(Some(&relay), &answer(a)), Route::Deliver(0));
    assert_eq!(relay.owed(b), Some(1));
    relay.connection_mut(1).on_response(&TurnFrame::carry(b"answer b")).expect("routes");
    relay.connection_mut(0).on_response(&TurnFrame::carry(b"answer a")).expect("routes");
    assert_eq!(relay.connection(0).expect("a").outbound(), b"answer a\n", "a receives a's answer");
    assert_eq!(relay.connection(1).expect("b").outbound(), b"answer b\n", "b receives b's answer");
    assert_eq!(route_response(Some(&relay), &answer(a + b + 7)), Route::Lost(a + b + 7));
    assert_eq!(route_response(None, &answer(a)), Route::NoHook);
    let mut foreign = answer(a);
    foreign.exchange.opener = Opener::Harness;
    assert_eq!(route_response(Some(&relay), &foreign), Route::Foreign);
}

#[test]
fn a_half_closed_peer_still_receives_its_answer() {
    let mut served = Served::fresh();
    let mut ordinal = 0u64;
    let _ = frame_octets(served.on_readable(octets(b"ask\n"), &mut ordinal).expect("frames"));
    assert!(matches!(served.on_readable(ReadOutcome::Closed, &mut ordinal), Ok(Framed::Waiting)));
    assert!(!served.spent(), "an exchange still stands");
    served.on_response(&TurnFrame::carry(b"answer")).expect("routes");
    assert_eq!(served.outbound(), b"answer\n");
    served.on_writable(WriteOutcome::Wrote(7)).expect("drains");
    assert!(served.spent(), "answered and closed, the connection is spent");
}

#[test]
fn the_bound_is_inclusive_and_one_more_closes() {
    let mut served = Served::fresh();
    let mut ordinal = 0u64;
    let mut exact = vec![b'x'; LINE_BOUND];
    exact.push(b'\n');
    let (_, line) = frame_octets(served.on_readable(ReadOutcome::Octets(exact), &mut ordinal).expect("reads"));
    assert_eq!(line.len(), LINE_BOUND);

    let mut served = Served::fresh();
    let over = vec![b'x'; LINE_BOUND + 1];
    let outcome = served.on_readable(ReadOutcome::Octets(over), &mut ordinal);
    assert_eq!(outcome.err(), Some(Gone::PastTheBound), "past the bound is below any turn");
}

#[test]
fn a_non_canonical_response_leaves_the_connection() {
    let mut served = Served::fresh();
    let mut ordinal = 0u64;
    let _ = frame_octets(served.on_readable(octets(b"ask\n"), &mut ordinal).expect("frames"));
    assert_eq!(served.on_response(&TurnFrame::NonCanonical), Err(Gone::Unanswerable));
}

#[test]
fn the_agent_uid_is_refused_even_when_the_rule_permits_it() {
    let mut permissive = instruction().access_rule;
    permissive.allowed_uids.insert(1000);
    let rule = held_rule(&permissive, 1000);
    assert!(rule.denied_uids.contains(&1000), "the raise added its own uid to the deny set");
    let peer = PeerIdentity { uid: 1000, gid: 1000, pid: 7 };
    assert!(!authorized(&peer, &rule));
    assert_eq!(judge_peer(Some(peer), &rule), Err(AcceptOutcome::Denied));
}

#[test]
fn the_socket_denies_every_uid_outside_the_group() {
    let mut rule = instruction().access_rule;
    rule.allowed_gids.insert(500);
    let member = PeerIdentity { uid: 1001, gid: 500, pid: 8 };
    let stranger = PeerIdentity { uid: 1002, gid: 600, pid: 9 };
    assert_eq!(judge_peer(Some(member), &rule), Ok(member));
    assert_eq!(judge_peer(Some(stranger), &rule), Err(AcceptOutcome::Denied));
    assert_eq!(judge_peer(None, &rule), Err(AcceptOutcome::Denied), "unread credentials are denied");
}

#[test]
fn a_bind_refusal_names_the_path_and_the_error() {
    assert_eq!(
        bind_refusal("/tmp/x.sock", "Address already in use"),
        RaiseRefusal::BindFailed { detail: "/tmp/x.sock: Address already in use".to_string() }
    );
}

fn execution(name: &str, arguments: &str, clock_ms: u64) -> ToolExecution {
    ToolExecution { name: name.to_string(), arguments: arguments.to_string(), clock_ms }
}

#[test]
fn a_name_that_is_not_the_shells_refuses_by_name() {
    let refused = validate(&execution("python", r#"{"command":"true"}"#, 1000)).unwrap_err();
    assert_eq!(
        refused,
        ToolOutcome::Refused {
            reason: "no tool named python is held - the shell, bash, is the one tool".to_string()
        }
    );
}

#[test]
fn a_clock_outside_the_maximum_refuses_rather_than_clamps() {
    for clock in [0, 60_001] {
        let refused = validate(&execution("bash", r#"{"command":"true"}"#, clock)).unwrap_err();
        assert_eq!(
            refused,
            ToolOutcome::Refused {
                reason: format!(
                    "the caller's clock of {clock}ms is outside the shell's declared maximum of 60000ms"
                )
            }
        );
    }
    assert_eq!(validate(&execution("bash", r#"{"command":"true"}"#, 60_000)), Ok("true".to_string()));
}

#[test]
fn malformed_arguments_refuse_in_the_gates_voice() {
    assert_eq!(
        validate(&execution("bash", "not json", 1000)),
        Err(ToolOutcome::Refused { reason: "the arguments are not one JSON object".to_string() })
    );
    for carries_none in [r#"{"cmd":"true"}"#, r#"{"command":7}"#, "[1,2]"] {
        assert_eq!(
            validate(&execution("bash", carries_none, 1000)),
            Err(ToolOutcome::Refused { reason: "the arguments carry no command string".to_string() })
        );
    }
}

fn drained(bytes: &[u8], truncated: bool) -> Drained {
    Drained { bytes: bytes.to_vec(), truncated }
}

#[test]
fn the_streams_join_under_their_labels() {
    assert_eq!(joined(&drained(b"out", false), &drained(b"", false)), "out");
    assert_eq!(joined(&drained(b"out", false), &drained(b"err", false)), "out\nstderr: err");
    assert_eq!(joined(&drained(b"", false), &drained(b"err", false)), "stderr: err");
    assert_eq!(joined(&drained(b"", false), &drained(b"", false)), "");
}

#[test]
fn a_cut_capture_is_marked_and_cut_at_a_character_boundary() {
    assert_eq!(joined(&drained(b"kept", true), &drained(b"", false)), "kept\n[output truncated at 32 KiB]");
    let mut long = vec![b'a'; 32767];
    long.extend_from_slice("é".as_bytes());
    let out = joined(&drained(&long, false), &drained(b"", false));
    assert!(out.ends_with("\n[output truncated at 32 KiB]"));
    assert_eq!(out.len(), 32767 + "\n[output truncated at 32 KiB]".len(), "the split character is dropped whole");
}

#[test]
fn a_drain_keeps_the_bound_and_marks_the_rest() {
    let mut d = Drained::empty();
    d.take_chunk(b"abcdef", 4);
    assert_eq!(d.bytes, b"abcd");
    assert!(d.truncated);
    let mut d = Drained::empty();
    d.take_chunk(b"ab", 4);
    d.take_chunk(b"cd", 4);
    assert_eq!(d.bytes, b"abcd");
    assert!(!d.truncated);
    assert_eq!(final_reads(32768, 8192), 5);
    assert_eq!(final_reads(32769, 8192), 6);
}

#[test]
fn a_completed_nonzero_exit_keeps_its_account() {
    assert_eq!(finished("partial".to_string(), None, Some(3)).ok(), Some("partial\nexit status: 3".to_string()));
    assert_eq!(finished(String::new(), None, Some(1)).ok(), Some("exit status: 1".to_string()));
    assert_eq!(finished(String::new(), None, None).ok(), Some("exit status: killed by signal".to_string()));
    assert_eq!(finished(String::new(), None, Some(0)).ok(), Some("(no output)".to_string()));
    assert_eq!(finished("fine".to_string(), None, Some(0)).ok(), Some("fine".to_string()));
}

#[test]
fn a_command_past_the_clock_is_killed_with_its_partial_attached() {
    match finished("so far".to_string(), Some(KillCause::Clock), Some(0)) {
        Err(ShellEnd::Killed { partial, by }) => {
            assert_eq!(partial, Some("so far".to_string()));
            assert_eq!(by, KillCause::Clock);
        }
        other => panic!("killed: {other:?}"),
    }
    match finished(String::new(), Some(KillCause::Cancel), None) {
        Err(ShellEnd::Killed { partial, by }) => {
            assert_eq!(partial, None);
            assert_eq!(by, KillCause::Cancel);
        }
        other => panic!("killed: {other:?}"),
    }
    assert_eq!(
        settle(ShellEnd::Killed { partial: None, by: KillCause::Clock }),
        Ok(ToolOutcome::Killed { partial: None, by: KillCause::Clock })
    );
    assert_eq!(settle(ShellEnd::Channel(ChannelFault::Closed)), Err(ChannelFault::Closed));
}

#[test]
fn a_cancel_brings_the_clock_forward() {
    let exchange = ExchangeId { opener: Opener::Harness, ordinal: 4 };
    let cancel = OrganEnvelope { exchange, position: Position::Continue, payload: Payload::ToolCancel };
    assert!(cancels(&cancel, &exchange));
    let other = ExchangeId { opener: Opener::Harness, ordinal: 5 };
    assert!(!cancels(&cancel, &other), "another exchange's cancel is not this run's");
    let closing = OrganEnvelope { exchange, position: Position::Close, payload: Payload::ToolCancel };
    assert!(!cancels(&closing, &exchange));
}

#[test]
fn an_exit_is_heard_within_a_slice() {
    assert_eq!(supervision_slice(0), None, "a spent clock kills");
    assert_eq!(supervision_slice(10), Some(10));
    assert_eq!(supervision_slice(1_000_000_000), Some(25_000_000));
}

#[test]
fn the_first_stirred_descriptor_is_served() {
    let quiet = Readiness { readable: false, writable: false, hangup: false, error: false, invalid: false };
    let readable = Readiness { readable: true, ..quiet };
    let writable = Readiness { writable: true, ..quiet };
    let invalid = Readiness { invalid: true, ..quiet };
    let tags = vec![Tag::Channel, Tag::Listener, Tag::Connection(0)];
    assert_eq!(next_wake(&tags, &vec![quiet, quiet, quiet]), Wake::Idle);
    assert_eq!(next_wake(&tags, &vec![quiet, readable, writable]), Wake::JudgeOne);
    assert_eq!(next_wake(&tags, &vec![quiet, quiet, writable]), Wake::WriteConnection(0));
    assert_eq!(next_wake(&tags, &vec![writable, quiet, quiet]), Wake::FlushPending);
    assert_eq!(next_wake(&tags, &vec![invalid, readable, quiet]), Wake::Fail);
    assert!(channel_wants_write(HookPosition::Raised, 2));
    assert!(!channel_wants_write(HookPosition::Raised, 0));
    assert!(!channel_wants_write(HookPosition::Lowered, 2));
}

#[test]
fn a_dial_storm_leaves_the_channel_answering() {
    assert!(retains_another(63));
    assert!(!retains_another(64), "past the retained limit a peer is closed unserved");
}

#[test]
fn the_relay_keeps_releases_and_queues_in_order() {
    let mut relay = Relay::new();
    assert!(relay.can_mint());
    assert_eq!(relay.connection_count(), 0);
    relay.keep(Served::fresh());
    relay.keep(Served::fresh());
    relay.keep(Served::fresh());
    let (opened, _) = frame_octets(relay.read_one(2, octets(b"from c\n")).expect("c"));
    relay.release(0);
    assert_eq!(relay.connection_count(), 2);
    assert_eq!(relay.owed(opened), Some(0), "the last connection takes the released place");
    assert!(relay.connection(2).is_none());
    assert_eq!(relay.queued_count(), 0);
    assert!(relay.front().is_none());
}

#[test]
fn closure_on_a_lifecycle_exchange_ends_the_membrane_cleanly() {
    assert_eq!(exit_on_fault(ChannelUse::Lifecycle, ChannelFault::Closed), Exit::Success);
    assert_eq!(exit_on_fault(ChannelUse::Lifecycle, ChannelFault::Undecodable), Exit::Failure);
    assert_eq!(exit_on_fault(ChannelUse::Lifecycle, ChannelFault::Truncated { bound: 65536 }), Exit::Failure);
    assert_eq!(exit_on_fault(ChannelUse::Relay, ChannelFault::Closed), Exit::Failure);
    assert_eq!(exit_on_fault(ChannelUse::Refusing, ChannelFault::Closed), Exit::Failure);
    assert_eq!(on_entry(None, true), EntryStep::Serve);
    assert_eq!(on_entry(Some(EntryFault::HygieneFailed), true), EntryStep::RefuseEverything);
    assert_eq!(on_entry(Some(EntryFault::HygieneFailed), false), EntryStep::Fail);
    assert_eq!(on_entry(Some(EntryFault::ChannelUnusable), false), EntryStep::Fail);
}
