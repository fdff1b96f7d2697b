use std::time::Duration;

use weaver::harness::assembly::{assemble, Prompt};
use weaver::harness::authorship::{
    clock_millis, wall_clock_millis,
    harness_report, identity_admits, licensed, message_kind, FaultCase,
};
use weaver::harness::dev_loop::{continuity_line, contribution, first_turn, worker_arguments, SYSTEM_PROMPT, WORKER_USAGE};
use weaver::harness::failure::{AdoptionFault, ChannelFault, UnlicensedMessage};
use weaver::harness::lifecycle::{
    classify_arguments, death_refusal, exchange_reply, leave_verdict, lifecycle_step, parse_request,
    read_by_death, refusal_reason, render_close, render_close_with_finish, seat_decision, seat_granted, session_opened, SeatDecision,
    turn_close, undecodable_account, ChannelPosition, LifecycleStep, OpenReply, OrganParameters,
    EXEC_FAILED, PLACEMENT_FAILED,
};
use weaver::harness::record::{diagnostic_kind, diagnostic_pressure, DiagnosticKind, Pressure, TraceKind};
use weaver::harness::spawn::{kept_after, retained, LastWord};
use weaver::harness::state::{
    awaited_line, parse_recall_answer, parse_replay_answer, parse_shape_answer, poll_slice, recall_ask,
    AwaitedLine, RunShape, SeamHealth, SessionShape,
};
use weaver::harness::tools::ToolResult;
use weaver::harness::turn::{
    aborted, another_round, clear_pressure_if_under, delta_admits, on_decode, on_directive,
    pressure_account, report_pressure, stop_answer, tool_calls, tool_reply, turn_key, turn_outcome,
    DecodeReply, DirectiveRefusal, DirectiveStep, StreamStep, ToolReply, TurnError, TurnOutcome,
};
use weaver::wire::{
    ContentBlock, ExchangeId, Finish, Generation, KillCause, LifecycleAnswer, LifecycleDirective,
    LifecycleRefusal, Message, Opener, OrganEnvelope, Payload, Position, RefusingOrgan, Role,
    TokenRefusal, ToolCall, ToolOutcome, ToolResultBlock, TurnFrame,
};

use weaver::harness::lifecycle::{enter_step, EnterFailure, EnterStage, StageOutcome};
use weaver::harness::lifecycle::{
    hole_close, membrane_death_account, on_connection, on_decode_wake, on_dial, on_listener, on_membrane,
    AcceptResult, ChannelRead, DialStep, ServeStep,
};
use weaver::harness::channel::{datagram_verdict, root_peer};
use weaver::harness::turn::{classify_lost_account, on_classify, ClassifyReply, ClassifyStep};
use weaver::harness::turn::{
    closing_after, closing_begin, open_turn, BodyEnd, CloseReason, ClosingStep, Failure, Reported,
};
use weaver::harness::turn::{cut_answer, on_cut, stop_reason, turn_failure, Cut, CutReply, CutStep, StopReason};
use weaver::harness::dev_loop::{fallback_delta, scripted_message};

fn texts(delta: &[Message]) -> Vec<&str> {
    delta
        .iter()
        .flat_map(|message| {
            message.content.iter().map(|block| match block {
                ContentBlock::Text { text } => text.as_str(),
                _ => "",
            })
        })
        .collect()
}

#[test]
fn the_prompt_leads_the_first_turn_and_no_other() {
    let first = contribution(true, None, "hello");
    assert_eq!(texts(&first), vec![SYSTEM_PROMPT, "hello"]);
    assert!(first.iter().all(|m| m.role == Role::User));
    let later = contribution(false, None, "and again");
    assert_eq!(texts(&later), vec!["and again"]);
}

#[test]
fn continuity_rides_beneath_the_prompt() {
    let first = contribution(true, Some("Continuity: held."), "hello");
    assert_eq!(first.len(), 2);
    let opening = &texts(&first)[0];
    assert!(opening.starts_with(SYSTEM_PROMPT), "{opening}");
    assert!(opening.ends_with("Continuity: held."), "{opening}");
    assert_eq!(*opening, format!("{SYSTEM_PROMPT}\n\nContinuity: held."));
}

#[test]
fn the_continuity_line_counts_the_past_and_only_the_past() {
    let run = |name: &str, closed: u64| RunShape {
        run: name.to_string(),
        kinds: vec![("load".to_string(), 1), ("turn.closed".to_string(), closed)],
    };
    let alone = SessionShape { runs: vec![run("r-1", 0)] };
    assert!(continuity_line(&alone).is_none(), "no past, no line");
    let storied = SessionShape { runs: vec![run("r-1", 3), run("r-2", 1), run("r-3", 0)] };
    let line = continuity_line(&storied).expect("a past injects");
    assert!(line.contains("2 earlier runs"), "{line}");
    assert!(line.contains("4 completed turns"), "{line}");
}

#[test]
fn one_earlier_run_of_one_turn_is_told_in_the_singular() {
    let run = |name: &str, closed: u64| RunShape {
        run: name.to_string(),
        kinds: vec![("turn.closed".to_string(), closed)],
    };
    let line = continuity_line(&SessionShape { runs: vec![run("r-1", 1), run("r-2", 9)] }).expect("a past");
    assert_eq!(
        line,
        "Continuity: this session held 1 earlier run with 1 completed turn before this one. \
         The conversation content of those runs is not in your context."
    );
    assert!(continuity_line(&SessionShape { runs: vec![] }).is_none());
}

#[test]
fn the_first_turn_is_the_one_with_no_conversation() {
    assert!(first_turn(None));
    assert!(first_turn(Some(0)));
    assert!(!first_turn(Some(2)));
}

#[test]
fn the_worker_reads_its_command_line() {
    let args = |list: &[&str]| list.iter().map(|s| s.to_string()).collect::<Vec<_>>();
    let read = worker_arguments(&args(&["c.sock", "spu", "gate", "ident", "--headroom-bytes", "42"])).expect("reads");
    assert_eq!(read.socket, "c.sock");
    assert_eq!(read.identity, "ident");
    assert_eq!(read.parameters.headroom_bytes, Some("42".to_string()));
    assert_eq!(worker_arguments(&args(&["c.sock"])).err(), Some(WORKER_USAGE.to_string()));
    assert_eq!(
        worker_arguments(&args(&["c", "s", "g", "--headroom-bytes"])).err(),
        Some("worker: --headroom-bytes takes a value".to_string())
    );
    assert_eq!(
        worker_arguments(&args(&["c", "s", "g", "--verbose"])).err(),
        Some("worker: unknown parameter --verbose".to_string())
    );
}

#[test]
fn a_drain_between_turns_lets_the_next_crossing_report() {
    let mut reported = false;
    let mut authored = 0usize;
    let mut report = |over: bool, flag: &mut bool, count: &mut usize| {
        if report_pressure(over, flag) {
            *count += 1;
        }
    };

    clear_pressure_if_under(false, &mut reported);
    report(true, &mut reported, &mut authored);
    assert_eq!(authored, 1, "the first crossing reports");

    clear_pressure_if_under(false, &mut reported);
    report(true, &mut reported, &mut authored);
    assert_eq!(authored, 2, "the drain was seen before the turn and the second crossing reports");

    clear_pressure_if_under(true, &mut reported);
    report(true, &mut reported, &mut authored);
    assert_eq!(authored, 2, "a condition that never lifted is still one condition");
}

#[test]
fn pressure_reports_once_per_crossing() {
    let mut reported = false;
    let mut authored = 0usize;
    for over in [true, true] {
        if report_pressure(over, &mut reported) {
            authored += 1;
        }
    }
    assert_eq!(authored, 1, "a condition that persists is one condition");
    for over in [false, true] {
        if report_pressure(over, &mut reported) {
            authored += 1;
        }
    }
    assert_eq!(authored, 2, "falling under the mark and crossing again is a second condition");
    assert_eq!(pressure_account(900, 800), "{\"organ\":\"harness\",\"queued\":900,\"mark\":800}");
}

#[test]
fn no_parameter_is_no_argument() {
    assert!(OrganParameters::default().spu_arguments().is_empty());
}

#[test]
fn a_stated_parameter_travels_named() {
    let parameters = OrganParameters { headroom_bytes: Some("268435456".to_string()) };
    assert_eq!(parameters.spu_arguments(), vec!["--headroom-bytes".to_string(), "268435456".to_string()]);
}

#[test]
fn a_bound_past_the_ceiling_is_a_slice() {
    assert_eq!(poll_slice(Duration::from_millis(120_000).as_millis()), u16::MAX);
    assert_eq!(poll_slice(Duration::from_millis(500).as_millis()), 500);
    assert_eq!(poll_slice(Duration::from_millis(0).as_millis()), 0);
}

#[test]
fn the_shape_answer_parses_whole_or_not_at_all() {
    let line = r#"{"answer":{"shape":{"runs":[{"run":"r-1","kinds":{"load":1,"turn.closed":3}},{"run":"r-2","kinds":{"load":1}}]}}}"#;
    let shape = parse_shape_answer(line).expect("parses");
    assert_eq!(shape.runs.len(), 2);
    assert_eq!(shape.runs[0].run, "r-1");
    assert!(shape.runs[0].kinds.contains(&("turn.closed".to_string(), 3)));
    for malformed in [
        r#"{"answer":{"shape":{}}}"#,
        r#"{"answer":{}}"#,
        r#"{"answer":{"shape":{"runs":[{"kinds":{}}]}}}"#,
        "not json",
    ] {
        assert!(parse_shape_answer(malformed).is_none(), "{malformed}");
    }
}

#[test]
fn the_recall_answer_parses_under_its_own_name() {
    let events = parse_recall_answer(r#"{"answer":{"recall":{"events":[{"envelope":{"session":"s","run":"r-2","turn":"t-9","kind":"message.user","sequence":"11"},"pairs":{}}]}}}"#)
    .expect("parses");
    assert_eq!(events.len(), 1);
    assert_eq!(events[0].run, "r-2");
    assert_eq!(events[0].turn.as_deref(), Some("t-9"));
    assert_eq!(events[0].kind, "message.user");
    assert!(
        parse_recall_answer(r#"{"answer":{"replay":{"events":[]}}}"#).is_none(),
        "the two answers stay apart by name"
    );
    assert!(
        parse_recall_answer(r#"{"answer":{"recall":{"events":[{"envelope":{"session":"s","turn":"t-9","kind":"message.user","sequence":"11"},"pairs":{}}]}}}"#)
        .is_none(),
        "an envelope missing the run fails the parse whole"
    );
}

#[test]
fn the_replay_ask_crosses_and_its_answer_parses() {
    let events = parse_replay_answer(
        "{\"answer\":{\"replay\":{\"events\":[{\"envelope\":{\"session\":\"s\",\
         \"run\":\"r-1\",\"kind\":\"model.output\",\"sequence\":\"4\"},\
         \"pairs\":{\"emission\":\"hi\"}}]}}}",
    )
    .expect("answered");
    assert_eq!(events.len(), 1);
    assert_eq!(events[0].kind, "model.output");
    assert_eq!(events[0].run, "r-1");
    assert_eq!(events[0].sequence, "4");
    assert_eq!(events[0].turn, None);
    assert_eq!(events[0].pairs, vec![("emission".to_string(), "\"hi\"".to_string())]);
    assert!(parse_replay_answer("{\"answer\":{\"recall\":{\"events\":[]}}}").is_none());
}

#[test]
fn the_recall_ask_names_its_bound() {
    assert_eq!(recall_ask(None), "{\"ask\":{\"recall\":{}}}\n");
    assert_eq!(recall_ask(Some(5)), "{\"ask\":{\"recall\":{\"last-turns\":5}}}\n");
}

#[test]
fn an_unframed_flood_retires_the_seam_inside_the_bound() {
    match awaited_line(&b"{\"answer\":{}}\nmore".to_vec()) {
        AwaitedLine::Line(line) => assert_eq!(line, "{\"answer\":{}}"),
        other => panic!("a line: {other:?}"),
    }
    assert!(matches!(awaited_line(&b"partial".to_vec()), AwaitedLine::Waiting));
    assert!(matches!(awaited_line(&vec![b'x'; 1024 * 1024 + 1]), AwaitedLine::Overlong));
}

#[test]
fn the_seam_retires_on_its_first_failure() {
    let mut health = SeamHealth::fresh();
    assert!(health.may_ask());
    health.record(true);
    assert!(health.may_ask());
    health.record(false);
    assert!(!health.may_ask());
    health.record(true);
    assert!(!health.may_ask(), "one strike retires the seam");
}

fn text_message(role: Role, text: &str) -> Message {
    Message { role, content: vec![ContentBlock::Text { text: text.to_string() }] }
}

#[test]
fn a_supplied_tool_result_refuses_at_the_door() {
    let supplied = vec![
        text_message(Role::User, "hi"),
        Message { role: Role::ToolResult, content: vec![ContentBlock::ToolResult(ToolResultBlock { content: "x".into() })] },
    ];
    assert!(!delta_admits(&supplied));
    assert!(delta_admits(&vec![text_message(Role::User, "hi")]));
    let refused = message_kind(&Role::ToolResult).unwrap_err();
    assert_eq!(refused, UnlicensedMessage { role: "tool_result", block: "granted-door-only" });
    assert_eq!(message_kind(&Role::User), Ok(TraceKind::MessageUser));
}

#[test]
fn the_license_names_the_role_and_the_first_block_that_broke_it() {
    let call = ContentBlock::ToolCall(ToolCall { name: "bash".into(), arguments: "{}".into() });
    let user = Message { role: Role::User, content: vec![ContentBlock::Text { text: "a".into() }, call.clone()] };
    assert_eq!(licensed(&user), Err(UnlicensedMessage { role: "user", block: "tool_call" }));
    let assistant = Message { role: Role::Assistant, content: vec![ContentBlock::Text { text: "a".into() }, call] };
    assert_eq!(licensed(&assistant), Ok(()));
    assert_eq!(
        identity_admits(&text_message(Role::User, "x")),
        Err(UnlicensedMessage { role: "user", block: "identity-door-system-only" })
    );
    assert_eq!(identity_admits(&text_message(Role::System, "x")), Ok(()));
    assert_eq!(
        UnlicensedMessage { role: "user", block: "tool_call" }.describe(),
        "a user message may not carry a tool_call block"
    );
}

#[test]
fn a_report_carries_its_account_or_says_it_could_not() {
    let kept = harness_report(FaultCase::ListenerLost, "{\"organ\":\"harness\"}");
    assert_eq!(kept.case, FaultCase::ListenerLost);
    assert_eq!(kept.account, "{\"organ\":\"harness\"}");
    let replaced = harness_report(FaultCase::OrganDeathObserved, "not json");
    assert_eq!(replaced.account, "{\"account\":\"unrenderable\"}");
}

#[test]
fn the_faults_are_told_in_words() {
    assert_eq!(
        ChannelFault::Truncated { bound: 65536 }.describe(),
        "read truncated against the 65536 byte envelope bound"
    );
    assert_eq!(ChannelFault::WrongPeer { uid: 1000 }.describe(), "dialing peer is uid 1000 and not root");
    assert_eq!(
        ChannelFault::SocketPathUnusable { errno: -2 }.describe(),
        "the coordination socket's name is unusable (-2)"
    );
    assert_eq!(
        AdoptionFault::DumpableNotCleared { errno: 1 }.describe(),
        "the dumpable flag could not be cleared (1)"
    );
}

#[test]
fn each_outcome_is_granted_in_its_speakers_voice() {
    let said = |outcome: ToolOutcome| ToolResult::granted(&outcome).content().to_string();
    assert_eq!(said(ToolOutcome::Result { content: "ok".into() }), "ok");
    assert_eq!(said(ToolOutcome::Refused { reason: "no".into() }), "the call was refused: no");
    assert_eq!(said(ToolOutcome::Errored { detail: "fork".into() }), "the tool machinery failed: fork");
    assert_eq!(
        said(ToolOutcome::Killed { partial: Some("p".into()), by: KillCause::Clock }),
        "the command ran past the clock and was killed. Partial output before the kill:\np"
    );
    assert_eq!(
        said(ToolOutcome::Killed { partial: None, by: KillCause::Cancel }),
        "the command ran past the clock and was killed, with no output before the kill"
    );
    assert_eq!(ToolResult::granted(&ToolOutcome::Result { content: "ok".into() }).block().content, "ok");
}

#[test]
fn only_conversation_records_assemble_and_holes_are_counted() {
    let records = vec![
        (TraceKind::MessageSystem, Some(text_message(Role::System, "id"))),
        (TraceKind::MessageUser, Some(text_message(Role::User, "hi"))),
        (TraceKind::Load, None),
        (TraceKind::MessageAssistant, None),
        (TraceKind::MessageAssistant, Some(text_message(Role::Assistant, "hello"))),
    ];
    let prompt: Prompt = assemble(records, "identity", &vec!["schema".to_string()]);
    assert_eq!(prompt.identity, "identity");
    assert_eq!(prompt.messages, vec![text_message(Role::User, "hi"), text_message(Role::Assistant, "hello")]);
    assert_eq!(prompt.tool_schemas, vec!["schema".to_string()]);
    assert_eq!(prompt.undecodable, 1);
}

#[test]
fn the_diagnostic_record_keeps_its_vocabulary() {
    assert_eq!(diagnostic_kind(TraceKind::ModelField), Some(DiagnosticKind::ModelField));
    assert_eq!(diagnostic_kind(TraceKind::Elision), None);
    assert_eq!(diagnostic_kind(TraceKind::Load), None);
    assert_eq!(diagnostic_pressure(), Pressure { queued: 0, over_mark: false });
}

#[test]
fn an_organ_death_is_read_by_its_status() {
    assert_eq!(death_refusal(Some(PLACEMENT_FAILED)), Some(LifecycleRefusal::DescriptorsUnusable));
    assert_eq!(death_refusal(Some(EXEC_FAILED)), Some(LifecycleRefusal::BindFailed));
    assert_eq!(death_refusal(Some(3)), None);
    assert_eq!(death_refusal(None), None);
    assert_eq!(
        read_by_death(LifecycleRefusal::NoResidency, Some(LifecycleRefusal::BindFailed)),
        LifecycleRefusal::BindFailed
    );
    assert_eq!(read_by_death(LifecycleRefusal::NoResidency, None), LifecycleRefusal::NoResidency);
    assert_eq!(read_by_death(LifecycleRefusal::Malformed, Some(LifecycleRefusal::BindFailed)), LifecycleRefusal::Malformed);
}

#[test]
fn an_exchange_reply_is_read_by_its_payload() {
    assert_eq!(exchange_reply(None, RefusingOrgan::Spu), Err(LifecycleRefusal::NoResidency));
    assert_eq!(
        exchange_reply(Some(Payload::Answer(LifecycleAnswer::GateReady)), RefusingOrgan::Gate),
        Ok(LifecycleAnswer::GateReady)
    );
    assert_eq!(
        exchange_reply(Some(Payload::Refusal(LifecycleRefusal::BindFailed)), RefusingOrgan::Gate),
        Err(LifecycleRefusal::OrganRefused { organ: RefusingOrgan::Gate, reason: Box::new(LifecycleRefusal::BindFailed) })
    );
    assert_eq!(exchange_reply(Some(Payload::ToolCancel), RefusingOrgan::Spu), Err(LifecycleRefusal::Malformed));
    assert_eq!(session_opened(OpenReply::Opened), Ok(()));
    assert_eq!(session_opened(OpenReply::Other), Err(LifecycleRefusal::DeviceCannotAdmit));
    assert_eq!(session_opened(OpenReply::Fault), Err(LifecycleRefusal::NoResidency));
    assert_eq!(classify_arguments("model.gguf", Some(1)).unwrap(), vec!["model.gguf".to_string(), "1".to_string()]);
    assert_eq!(
        classify_arguments("model.gguf", None).err(),
        Some(LifecycleRefusal::ConfigInvalid { field: Some("classify".to_string()) })
    );
}

#[test]
fn a_leave_reports_the_first_refusal() {
    let gate = Err(LifecycleRefusal::OutOfOrder);
    let spu = Err(LifecycleRefusal::NoResidency);
    assert_eq!(leave_verdict(Some(gate.clone()), true, Some(spu.clone())), gate);
    assert_eq!(leave_verdict(Some(Ok(())), true, Some(spu.clone())), spu);
    assert_eq!(leave_verdict(Some(Ok(())), false, Some(spu)), Err(LifecycleRefusal::DescriptorsUnusable));
    assert_eq!(leave_verdict(None, false, Some(Ok(()))), Err(LifecycleRefusal::DescriptorsUnusable));
    assert_eq!(leave_verdict(None, true, None), Ok(()));
}

#[test]
fn an_unparseable_line_refuses_and_the_channel_stands() {
    let request = |line: &[u8]| parse_request(&TurnFrame::carry(line));
    assert_eq!(request(b"{\"text\":\"hi\"}"), Ok("hi".to_string()));
    assert_eq!(request(b"not json"), Err("the line does not parse as one JSON value"));
    assert_eq!(request(b"[1]"), Err("a request is one JSON object"));
    assert_eq!(request(b"{\"text\":\"hi\",\"x\":1}"), Err("a request carries the text member and nothing else"));
    assert_eq!(request(b"{\"text\":1}"), Err("a request carries the text member, a string"));
    assert_eq!(request(b"{\"other\":\"hi\"}"), Err("a request carries the text member, a string"));
    assert_eq!(
        parse_request(&TurnFrame::NonCanonical),
        Err("the frame's carriage is not the canonical encoding")
    );
    assert_eq!(
        render_close("refused", "reason", "a request is one JSON object", None),
        "{\"kind\":\"refused\",\"reason\":\"a request is one JSON object\"}"
    );
}

#[test]
fn a_close_that_opens_no_turn_names_none() {
    let close = render_close("stopped", "reason", "the working structure holds a hole", None);
    assert!(!close.contains("\"turn\""), "{close}");
    assert!(!close.contains("\"run\""), "{close}");
    let named = render_close_with_finish("answered", "text", "hi", Some(("t-1", "r-1")), true);
    assert_eq!(named, "{\"finish\":\"length\",\"kind\":\"answered\",\"run\":\"r-1\",\"text\":\"hi\",\"turn\":\"t-1\"}");
}

#[test]
fn each_turn_result_is_answered_in_its_words() {
    let outcome = TurnOutcome { turn: "t-2".into(), emission: "done".into(), stopped: false, aborted: false, truncated: false };
    assert_eq!(
        turn_close(&Ok(outcome), "r-1"),
        Some("{\"kind\":\"answered\",\"run\":\"r-1\",\"text\":\"done\",\"turn\":\"t-2\"}".to_string())
    );
    let aborted_outcome = TurnOutcome { turn: "t-3".into(), emission: "".into(), stopped: true, aborted: true, truncated: false };
    assert_eq!(
        turn_close(&Ok(aborted_outcome), "r-1"),
        Some("{\"kind\":\"stopped\",\"reason\":\"the operator stopped the turn\",\"run\":\"r-1\",\"turn\":\"t-3\"}".to_string())
    );
    let refused = TurnError::Refused { turn: "t-4".into(), refusal: TokenRefusal::Overflow { resident: 4091, requested: 137, capacity: 4096 } };
    assert_eq!(
        turn_close(&Err(refused), "r-1"),
        Some("{\"kind\":\"stopped\",\"reason\":\"the session cannot take the delta\",\"run\":\"r-1\",\"turn\":\"t-4\"}".to_string())
    );
    assert_eq!(turn_close(&Err(TurnError::ChannelLost), "r-1"), None);
    assert_eq!(refusal_reason(&TokenRefusal::NotOpen), "the session is not open");
    assert_eq!(undecodable_account(2), "{\"organ\":\"harness\",\"undecodable-message-records\":2}");
}

#[test]
fn stop_records_the_close_and_answers_turn_aborted() {
    let position = ChannelPosition::Entered { turn_in_flight: Some("t-1".to_string()) };
    assert_eq!(lifecycle_step(&position, &LifecycleDirective::Stop), LifecycleStep::Abort { turn: "t-1".to_string() });
}

#[test]
fn stop_at_rest_answers_at_rest() {
    let position = ChannelPosition::Entered { turn_in_flight: None };
    assert_eq!(lifecycle_step(&position, &LifecycleDirective::Stop), LifecycleStep::AtRest);
    assert_eq!(lifecycle_step(&position, &LifecycleDirective::Leave), LifecycleStep::Leave);
    assert_eq!(
        lifecycle_step(&ChannelPosition::BeforeEnter, &LifecycleDirective::Leave),
        LifecycleStep::Refuse(LifecycleRefusal::OutOfOrder)
    );
    assert_eq!(lifecycle_step(&ChannelPosition::BeforeEnter, &LifecycleDirective::Enter), LifecycleStep::Enter);
    assert_eq!(
        lifecycle_step(&ChannelPosition::Left, &LifecycleDirective::Enter),
        LifecycleStep::Refuse(LifecycleRefusal::OutOfOrder)
    );
}

#[test]
fn no_seat_is_granted_while_a_turn_is_in_flight() {
    let busy = ChannelPosition::Entered { turn_in_flight: Some("t-1".to_string()) };
    assert!(!seat_granted(&busy));
    assert_eq!(
        lifecycle_step(&busy, &LifecycleDirective::Leave),
        LifecycleStep::Refuse(LifecycleRefusal::ActivityNotAtRest)
    );
    assert!(seat_granted(&ChannelPosition::Entered { turn_in_flight: None }));
    assert!(!seat_granted(&ChannelPosition::BeforeEnter));
}

#[test]
fn a_turn_is_keyed_by_its_ordinal() {
    assert_eq!(turn_key(1), "t-1");
    assert_eq!(turn_key(42), "t-42");
}

#[test]
fn a_stop_dialed_mid_stream_cancels_the_turn() {
    let stop = Payload::Directive(LifecycleDirective::Stop);
    assert_eq!(on_directive(&stop, false), DirectiveStep::Cancel);
    assert_eq!(on_directive(&stop, true), DirectiveStep::Refuse(DirectiveRefusal::OutOfOrder));
    assert_eq!(
        on_directive(&Payload::Directive(LifecycleDirective::Leave), false),
        DirectiveStep::Refuse(DirectiveRefusal::ActivityNotAtRest)
    );
    assert_eq!(on_directive(&Payload::ToolCancel, false), DirectiveStep::Lost);
    assert!(aborted(true, Finish::Stopped));
    assert!(!aborted(true, Finish::Completed), "a generation that finished anyway is not aborted");
    assert!(!aborted(false, Finish::Stopped));
    assert_eq!(stop_answer(true, "t-1"), LifecycleAnswer::TurnAborted { turn: "t-1".to_string() });
    assert_eq!(stop_answer(false, "t-1"), LifecycleAnswer::AtRest);
}

#[test]
fn each_field_intermediate_authors_its_event() {
    assert_eq!(on_decode(DecodeReply::Field), StreamStep::RecordField);
    assert_eq!(on_decode(DecodeReply::Token), StreamStep::Continue);
    assert_eq!(on_decode(DecodeReply::Generated), StreamStep::Generated);
    assert_eq!(on_decode(DecodeReply::Refusal(TokenRefusal::NotOpen)), StreamStep::Refused(TokenRefusal::NotOpen));
    assert_eq!(on_decode(DecodeReply::Fault), StreamStep::Faulted);
    assert_eq!(on_decode(DecodeReply::OtherAnswer), StreamStep::Lost);
}

#[test]
fn a_turn_executes_its_calls_and_bounds_its_rounds() {
    let content = vec![
        ContentBlock::Text { text: "let me look".into() },
        ContentBlock::ToolCall(ToolCall { name: "bash".into(), arguments: "{\"command\":\"ls\"}".into() }),
    ];
    let calls = tool_calls(&content);
    assert_eq!(calls, vec![ToolCall { name: "bash".into(), arguments: "{\"command\":\"ls\"}".into() }]);
    assert!(another_round(1, true, 0));
    assert!(!another_round(1, true, 32), "the rounds are bounded");
    assert!(!another_round(0, true, 0));
    assert!(!another_round(1, false, 0), "no gate, no round");
}

#[test]
fn the_tool_exchange_reads_its_own_close_and_holds_the_rest() {
    let exchange = ExchangeId { opener: Opener::Harness, ordinal: 3 };
    let answer = OrganEnvelope {
        exchange,
        position: Position::Close,
        payload: Payload::ToolAnswer(ToolOutcome::Result { content: "ok".into() }),
    };
    assert!(matches!(tool_reply(answer, exchange, 0), ToolReply::Answered(ToolOutcome::Result { .. })));
    let other = OrganEnvelope {
        exchange: ExchangeId { opener: Opener::Gate, ordinal: 9 },
        position: Position::Open,
        payload: Payload::Frame(TurnFrame::carry(b"hi")),
    };
    assert!(matches!(tool_reply(other.clone(), exchange, 0), ToolReply::Hold(_)));
    assert!(matches!(tool_reply(other, exchange, 64), ToolReply::Dropped));
    let wrong = OrganEnvelope { exchange, position: Position::Close, payload: Payload::ToolCancel };
    assert!(matches!(tool_reply(wrong, exchange, 0), ToolReply::Lost));
}

#[test]
fn the_turn_answers_from_its_closing_generation() {
    let generation = Generation {
        content: vec![],
        emission: "one word".into(),
        finish: Finish::Length,
        resident: 1237,
        capacity: 8191,
        request: "{}".into(),
        measurement: "{}".into(),
    };
    let outcome = turn_outcome("t-1".to_string(), generation, false);
    assert_eq!(outcome.emission, "one word");
    assert!(outcome.truncated);
    assert!(!outcome.stopped);
    assert!(!outcome.aborted);
}

#[test]
fn the_last_word_keeps_a_json_line_and_no_other() {
    assert_eq!(retained("  {\"died\":\"typed reason\"}\n"), Some("{\"died\":\"typed reason\"}".to_string()));
    assert_eq!(retained("not json\n"), None);
    assert_eq!(retained("   \n"), None);
    let word = LastWord::quiet();
    assert_eq!(word.take(), None);
    let reader = word.share();
    reader.hear("echo not json");
    assert_eq!(word.take(), None, "the unparsable line is never retained");
    reader.hear("{\"died\":\"typed reason\"}\n");
    assert_eq!(word.take(), Some("{\"died\":\"typed reason\"}".to_string()));
    word.speak("{\"x\":1}");
    assert_eq!(word.take(), Some("{\"x\":1}".to_string()));
}

#[test]
fn an_enter_walks_its_stages_and_fails_where_it_stands() {
    assert_eq!(enter_step(EnterStage::Sink, false, StageOutcome::Held), Ok(EnterStage::Recorder));
    assert_eq!(enter_step(EnterStage::OpenSession, false, StageOutcome::Held), Ok(EnterStage::GateChannel));
    assert_eq!(enter_step(EnterStage::OpenSession, true, StageOutcome::Held), Ok(EnterStage::ClassifyBinary));
    assert_eq!(enter_step(EnterStage::Raise, false, StageOutcome::Held), Ok(EnterStage::Entered));
    assert_eq!(
        enter_step(EnterStage::Sink, false, StageOutcome::Failed(None)),
        Err(EnterFailure::BeforeLoad(LifecycleRefusal::DescriptorsUnusable))
    );
    assert_eq!(
        enter_step(EnterStage::Load, false, StageOutcome::Failed(None)),
        Err(EnterFailure::BeforeLoad(LifecycleRefusal::Malformed))
    );
    assert_eq!(
        enter_step(EnterStage::SpuFork, false, StageOutcome::Failed(None)),
        Err(EnterFailure::AfterLoad(LifecycleRefusal::BindFailed))
    );
    assert_eq!(
        enter_step(EnterStage::Admit, false, StageOutcome::Failed(Some(LifecycleRefusal::DeviceCannotAdmit))),
        Err(EnterFailure::AfterLoad(LifecycleRefusal::DeviceCannotAdmit))
    );
    assert_eq!(
        enter_step(EnterStage::Raise, false, StageOutcome::Failed(None)),
        Err(EnterFailure::AfterLoad(LifecycleRefusal::NoResidency))
    );
    assert_eq!(
        enter_step(EnterStage::ClassifyDevice, true, StageOutcome::Failed(None)),
        Err(EnterFailure::AfterLoad(LifecycleRefusal::ConfigInvalid { field: Some("classify".to_string()) }))
    );
}

#[test]
fn a_clean_enter_walks_to_the_entered_run() {
    for (classify, steps) in [(false, 11), (true, 16)] {
        let mut stage = EnterStage::Sink;
        let mut taken = 0;
        let mut saw_classify = false;
        while stage != EnterStage::Entered {
            stage = enter_step(stage, classify, StageOutcome::Held).expect("a held stage moves on");
            saw_classify |= stage == EnterStage::ClassifyReady;
            taken += 1;
        }
        assert_eq!(taken, steps);
        assert_eq!(saw_classify, classify);
    }
    assert_eq!(
        enter_step(EnterStage::Entered, false, StageOutcome::Failed(None)),
        Ok(EnterStage::Entered)
    );
    assert_eq!(
        enter_step(EnterStage::Recorder, true, StageOutcome::Failed(Some(LifecycleRefusal::Malformed))),
        Err(EnterFailure::BeforeLoad(LifecycleRefusal::Malformed))
    );
}

#[test]
fn the_serve_loop_reads_each_wake() {
    assert_eq!(on_listener(AcceptResult::Accepted), ServeStep::Adopt);
    assert_eq!(on_listener(AcceptResult::WrongPeer), ServeStep::Continue);
    assert_eq!(on_listener(AcceptResult::Failed), ServeStep::Unwind(FaultCase::ListenerLost));
    assert_eq!(on_connection(ChannelRead::Directive), ServeStep::Dispatch);
    assert_eq!(on_connection(ChannelRead::Closed), ServeStep::Continue);
    assert_eq!(on_connection(ChannelRead::Frame), ServeStep::Unwind(FaultCase::OrganDeathObserved));
    assert_eq!(on_membrane(ChannelRead::Frame), ServeStep::Serve);
    assert_eq!(on_membrane(ChannelRead::Fault), ServeStep::RecordFault);
    assert_eq!(on_membrane(ChannelRead::Closed), ServeStep::MembraneDied);
    assert_eq!(on_decode_wake(ChannelRead::AtRest), ServeStep::Continue);
    assert_eq!(on_decode_wake(ChannelRead::Other), ServeStep::Unwind(FaultCase::OrganDeathObserved));
    assert_eq!(on_dial(false, AcceptResult::Accepted), DialStep::Ignore);
    assert_eq!(on_dial(true, AcceptResult::Accepted), DialStep::Adopt);
    assert_eq!(on_dial(true, AcceptResult::Failed), DialStep::Lost);
    assert_eq!(hole_close(), "{\"kind\":\"stopped\",\"reason\":\"the working structure holds a hole\"}");
    assert_eq!(membrane_death_account(), "{\"organ\":\"gate\",\"death\":\"channel closed with the hook raised\"}");
}

#[test]
fn the_coordination_socket_admits_root_alone() {
    assert_eq!(root_peer(0), Ok(()));
    assert_eq!(root_peer(1000), Err(ChannelFault::WrongPeer { uid: 1000 }));
    assert_eq!(datagram_verdict(-1, false, 65536), Err(ChannelFault::Closed));
    assert_eq!(datagram_verdict(10, true, 65536), Err(ChannelFault::Truncated { bound: 65536 }));
    assert_eq!(datagram_verdict(0, false, 65536), Err(ChannelFault::Closed));
    assert_eq!(datagram_verdict(10, false, 65536), Ok(10));
}

#[test]
fn a_refused_classify_authors_a_refusal_and_no_output() {
    assert_eq!(on_classify(ClassifyReply::Refusal), ClassifyStep::RecordRefusal);
    assert_eq!(on_classify(ClassifyReply::Scored), ClassifyStep::Answer);
    assert_eq!(on_classify(ClassifyReply::Ready), ClassifyStep::Wait);
    assert_eq!(on_classify(ClassifyReply::Fault), ClassifyStep::RecordFault);
    assert_eq!(on_classify(ClassifyReply::Lost), ClassifyStep::Retire);
    assert_eq!(classify_lost_account(), "{\"organ\":\"harness\",\"leg\":\"classify\"}");
}

#[test]
fn a_scripted_loop_authors_only_its_own_roles() {
    let message = scripted_message(Some("assistant"), Some("hi")).expect("an assistant message");
    assert_eq!(message, text_message(Role::Assistant, "hi"));
    assert_eq!(
        scripted_message(Some("tool_result"), Some("x")).err(),
        Some("a delta message's role is \"system\", \"user\", or \"assistant\", got Some(\"tool_result\")".to_string())
    );
    assert_eq!(
        scripted_message(None, Some("x")).err(),
        Some("a delta message's role is \"system\", \"user\", or \"assistant\", got None".to_string())
    );
    assert_eq!(scripted_message(Some("user"), None).err(), Some("a delta message carries \"text\"".to_string()));
    assert_eq!(fallback_delta("plain"), vec![text_message(Role::User, "plain")]);
}

#[test]
fn a_cut_answers_by_its_kind() {
    assert_eq!(on_cut(CutReply::Counts { before: 900, after: 120 }), CutStep::Done { before: 900, after: 120 });
    assert_eq!(on_cut(CutReply::AtRest), CutStep::Wait);
    assert_eq!(on_cut(CutReply::Refusal(TokenRefusal::OutOfOrder)), CutStep::Refused(TokenRefusal::OutOfOrder));
    assert_eq!(on_cut(CutReply::Other), CutStep::Lost);
    let fullness = Some((900, 4096));
    assert_eq!(cut_answer(Cut::Flush, 900, 120, true, fullness), (Some((900, 120)), Some((120, 4096))));
    assert_eq!(cut_answer(Cut::Flush, 900, 120, false, fullness), (None, Some((900, 4096))));
    assert_eq!(cut_answer(Cut::Elide, 900, 700, false, fullness), (Some((900, 700)), Some((700, 4096))));
    assert_eq!(cut_answer(Cut::Elide, 900, 700, true, None), (Some((900, 700)), None));
}

#[test]
fn a_failed_turn_closes_with_its_reason_and_reports_what_landed() {
    let refused = TurnError::Refused { turn: "t-2".into(), refusal: TokenRefusal::Overflow { resident: 4091, requested: 137, capacity: 4096 } };
    assert_eq!(stop_reason(&refused), StopReason::Refused);
    assert_eq!(stop_reason(&TurnError::ChannelLost), StopReason::Fault);
    assert_eq!(stop_reason(&TurnError::Unlicensed { turn: "t-2".into() }), StopReason::Fault);
    assert!(matches!(
        turn_failure(refused, true, true),
        TurnError::Refused { turn, refusal: TokenRefusal::Overflow { resident: 4091, requested: 137, capacity: 4096 } } if turn == "t-2"
    ));
    assert!(matches!(
        turn_failure(TurnError::Unlicensed { turn: "t-3".into() }, false, true),
        TurnError::ChannelLost
    ));
    assert!(matches!(
        turn_failure(TurnError::Unlicensed { turn: "t-3".into() }, true, false),
        TurnError::ChannelLost
    ));
}

#[test]
fn the_wall_clock_reads_in_milliseconds_since_the_epoch() {
    assert_eq!(clock_millis(Some(1_700_000_000_123)), 1_700_000_000_123);
    assert_eq!(clock_millis(None), 0);
    assert_eq!(clock_millis(Some((1u128 << 64) + 5)), 5);
    assert!(wall_clock_millis() > 1_600_000_000_000, "the system clock stands past 2020");
}

#[test]
fn a_prompt_renders_identity_messages_then_schemas() {
    let prompt = Prompt {
        identity: "you are the loop".to_string(),
        messages: Vec::new(),
        tool_schemas: vec!["{\"name\":\"shell\"}".to_string()],
        undecodable: 0,
    };
    let rendered = prompt.render_with(&vec!["{\"role\":\"user\"}".to_string(), "{\"role\":\"assistant\"}".to_string()]);
    assert_eq!(
        rendered,
        "you are the loop\n{\"role\":\"user\"}\n{\"role\":\"assistant\"}\n{\"name\":\"shell\"}\n"
    );
    assert_eq!(prompt.render_with(&vec![]), "you are the loop\n{\"name\":\"shell\"}\n");
}

#[test]
fn a_full_present_run_does_not_bound_the_past() {
    let run = |name: &str, closed: u64| RunShape {
        run: name.to_string(),
        kinds: vec![("turn.closed".to_string(), closed)],
    };
    let line = continuity_line(&SessionShape { runs: vec![run("r-1", 1), run("r-2", u64::MAX)] })
        .expect("a past");
    assert!(line.contains("1 earlier run with 1 completed turn"), "{line}");
}

fn run_closing(end: BodyEnd, lands: &[bool]) -> (Vec<ClosingStep>, Reported) {
    let (mut stage, mut step) = closing_begin(end);
    let mut authored = Vec::new();
    let mut lands = lands.iter();
    loop {
        match step {
            ClosingStep::Report(reported) => return (authored, reported),
            other => {
                let landed = *lands.next().expect("a landing for each authoring");
                if landed {
                    authored.push(other);
                }
                (stage, step) = closing_after(stage, landed);
            }
        }
    }
}

#[test]
fn each_turn_closes_once_and_last() {
    assert_eq!(
        run_closing(BodyEnd::Answered { aborted: false }, &[true]),
        (vec![ClosingStep::AuthorClose(CloseReason::Clean)], Reported::Answered { aborted: false })
    );
    assert_eq!(
        run_closing(BodyEnd::Answered { aborted: true }, &[true]),
        (vec![ClosingStep::AuthorClose(CloseReason::Directive)], Reported::Answered { aborted: true })
    );
    assert_eq!(
        run_closing(BodyEnd::Answered { aborted: false }, &[false, true]),
        (vec![ClosingStep::AuthorClose(CloseReason::Fault)], Reported::Failed(Failure::Lost))
    );
    assert_eq!(
        run_closing(BodyEnd::Failed(Failure::Faulted), &[true, true]),
        (
            vec![ClosingStep::AuthorFault, ClosingStep::AuthorClose(CloseReason::Fault)],
            Reported::Failed(Failure::Faulted)
        )
    );
    assert_eq!(
        run_closing(BodyEnd::Failed(Failure::Faulted), &[false, true]),
        (vec![ClosingStep::AuthorClose(CloseReason::Fault)], Reported::Failed(Failure::Lost))
    );
    assert_eq!(
        run_closing(BodyEnd::Failed(Failure::Refused), &[true]),
        (vec![ClosingStep::AuthorClose(CloseReason::Refused)], Reported::Failed(Failure::Refused))
    );
    assert_eq!(
        run_closing(BodyEnd::Failed(Failure::Unlicensed), &[false]),
        (vec![], Reported::Failed(Failure::Lost))
    );
}

#[test]
fn a_turn_opens_on_the_next_ordinal() {
    let mut ordinal = 4;
    assert_eq!(open_turn(&mut ordinal), "t-5");
    assert_eq!(ordinal, 5);
}

#[test]
fn no_seat_for_a_busy_run_a_hole_or_a_missing_model() {
    let idle = ChannelPosition::Entered { turn_in_flight: None };
    let busy = ChannelPosition::Entered { turn_in_flight: Some("t-1".to_string()) };
    assert_eq!(seat_decision(&idle, 0, true), SeatDecision::Grant);
    assert_eq!(seat_decision(&busy, 0, true), SeatDecision::Refuse);
    assert_eq!(seat_decision(&busy, 2, true), SeatDecision::Refuse, "a busy run assembles nothing");
    assert_eq!(seat_decision(&idle, 2, true), SeatDecision::RefuseHole { undecodable: 2 });
    assert_eq!(seat_decision(&idle, 1, false), SeatDecision::RefuseHole { undecodable: 1 });
    assert_eq!(seat_decision(&idle, 0, false), SeatDecision::Refuse);
    assert_eq!(seat_decision(&ChannelPosition::BeforeEnter, 0, true), SeatDecision::Refuse);
    assert_eq!(seat_decision(&ChannelPosition::Left, 0, true), SeatDecision::Refuse);
}

#[test]
fn the_kept_word_follows_the_last_line_that_leaves_one() {
    assert_eq!(kept_after(None, "not json"), None);
    assert_eq!(kept_after(None, "  {\"died\":\"typed reason\"}\n"), Some("{\"died\":\"typed reason\"}".to_string()));
    assert_eq!(kept_after(Some("{\"a\":1}".to_string()), "echo later"), Some("{\"a\":1}".to_string()));
    assert_eq!(kept_after(Some("{\"a\":1}".to_string()), "[2]"), Some("[2]".to_string()));
    let word = LastWord::quiet();
    for line in ["not json", "{\"died\":\"typed reason\"}", "trailing noise", "   "] {
        word.hear(line);
    }
    assert_eq!(word.take(), Some("{\"died\":\"typed reason\"}".to_string()));
    assert_eq!(word.take(), Some("{\"died\":\"typed reason\"}".to_string()), "take leaves the word");
}
